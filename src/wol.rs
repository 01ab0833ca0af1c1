//! Wake-on-LAN: hardware addresses, magic packets and where to send them.
use vstd::prelude::*;
use crate::address::{before_last_dot, count_dots, count_dots_in, text_before_last_dot};
use crate::config::WolDevice;
use crate::monitor::NetworkInterface;
use crate::text::{chars_of, decimal, join_with, joined, push_char, push_decimal, push_str, views};

verus! {

/// Why a hardware address was refused.
#[derive(Clone, Copy, Debug, PartialEq, Eq, Structural)]
pub enum MacError {
    InvalidFormat,
}

/// Why an address has no broadcast address.
#[derive(Clone, Copy, Debug, PartialEq, Eq, Structural)]
pub enum AddressError {
    InvalidFormat,
}

/// `:` and `-` may separate the digit pairs of a hardware address.
pub open spec fn is_separator(c: char) -> bool {
    c == ':' || c == '-'
}

/// `s` without its separators.
pub open spec fn without_separators(s: Seq<char>) -> Seq<char>
    decreases s.len(),
{
    if s.len() == 0 {
        s
    } else if is_separator(s.last()) {
        without_separators(s.drop_last())
    } else {
        without_separators(s.drop_last()).push(s.last())
    }
}

/// The value of a hexadecimal digit.
pub open spec fn hex_value(c: char) -> Option<nat> {
    if '0' <= c && c <= '9' {
        Some((c as u32 - '0' as u32) as nat)
    } else if 'a' <= c && c <= 'f' {
        Some((c as u32 - 'a' as u32 + 10) as nat)
    } else if 'A' <= c && c <= 'F' {
        Some((c as u32 - 'A' as u32 + 10) as nat)
    } else {
        None
    }
}

/// The byte that a pair of characters writes in base 16: two digits, or a
/// `+` sign and one digit.
pub open spec fn pair_value(a: char, b: char) -> Option<u8> {
    if hex_value(a) is Some && hex_value(b) is Some {
        Some((16 * hex_value(a)->Some_0 + hex_value(b)->Some_0) as u8)
    } else if a == '+' && hex_value(b) is Some {
        Some(hex_value(b)->Some_0 as u8)
    } else {
        None
    }
}

/// The six bytes that a hardware address writes: twelve characters once the
/// separators are removed, read as six pairs.
pub open spec fn mac_bytes(s: Seq<char>) -> Option<Seq<u8>> {
    let c = without_separators(s);
    if c.len() == 12 && forall|i: int| 0 <= i < 6 ==> (#[trigger] pair_value(c[2 * i], c[2 * i + 1])) is Some {
        Some(Seq::new(6, |i: int| pair_value(c[2 * i], c[2 * i + 1])->Some_0))
    } else {
        None
    }
}

fn strip_separators(s: &str) -> (r: Vec<char>)
    ensures
        r@ == without_separators(s@),
{
    let cs = chars_of(s);
    let mut r: Vec<char> = Vec::new();
    let mut i: usize = 0;
    while i < cs.len()
        invariant
            i <= cs@.len(),
            r@ == without_separators(cs@.subrange(0, i as int)),
        decreases cs@.len() - i,
    {
        assert(cs@.subrange(0, i + 1).drop_last() =~= cs@.subrange(0, i as int));
        let c = cs[i];
        if c != ':' && c != '-' {
            r.push(c);
        }
        i = i + 1;
    }
    assert(cs@.subrange(0, cs@.len() as int) =~= cs@);
    r
}

fn hex_digit(c: char) -> (r: Option<u8>)
    ensures
        r is Some <==> hex_value(c) is Some,
        r is Some ==> r->Some_0 as nat == hex_value(c)->Some_0,
{
    if '0' <= c && c <= '9' {
        Some((c as u32 - '0' as u32) as u8)
    } else if 'a' <= c && c <= 'f' {
        Some((c as u32 - 'a' as u32 + 10) as u8)
    } else if 'A' <= c && c <= 'F' {
        Some((c as u32 - 'A' as u32 + 10) as u8)
    } else {
        None
    }
}

fn pair_byte(a: char, b: char) -> (r: Option<u8>)
    ensures
        r == pair_value(a, b),
{
    match (hex_digit(a), hex_digit(b)) {
        (Some(x), Some(y)) => Some(16 * x + y),
        (None, Some(y)) => if a == '+' { Some(y) } else { None },
        _ => None,
    }
}

/// Reads a hardware address such as `AA:BB:CC:DD:EE:FF`, `aa-bb-cc-dd-ee-ff`
/// or `aabbccddeeff`.
pub fn parse_mac_address(mac_str: &str) -> (r: Result<[u8; 6], MacError>)
    ensures
        r is Ok <==> mac_bytes(mac_str@) is Some,
        r is Ok ==> r->Ok_0@ == mac_bytes(mac_str@)->Some_0,
{
    let c = strip_separators(mac_str);
    if c.len() != 12 {
        return Err(MacError::InvalidFormat);
    }
    let mut bytes: [u8; 6] = [0u8; 6];
    let mut i: usize = 0;
    while i < 6
        invariant
            c@ == without_separators(mac_str@),
            c@.len() == 12,
            i <= 6,
            forall|k: int| 0 <= k < i ==> (#[trigger] pair_value(c@[2 * k], c@[2 * k + 1])) is Some,
            forall|k: int| 0 <= k < i ==> bytes@[k] == pair_value(c@[2 * k], c@[2 * k + 1])->Some_0,
        decreases 6 - i,
    {
        match pair_byte(c[2 * i], c[2 * i + 1]) {
            Some(v) => {
                bytes.set(i, v);
            },
            None => {
                return Err(MacError::InvalidFormat);
            },
        }
        i = i + 1;
    }
    assert(bytes@ =~= mac_bytes(mac_str@)->Some_0);
    Ok(bytes)
}

/// Whether `mac_str` is a hardware address that [`parse_mac_address`] reads.
pub fn validate_mac_address(mac_str: &str) -> (r: bool)
    ensures
        r == (mac_bytes(mac_str@) is Some),
{
    parse_mac_address(mac_str).is_ok()
}

/// The upper-case form of an ASCII letter; other characters are kept.
pub open spec fn ascii_upper(c: char) -> char {
    if 'a' <= c && c <= 'z' {
        ((c as u32) - 32) as char
    } else {
        c
    }
}

/// All characters of `s` are ASCII.
pub open spec fn all_ascii(s: Seq<char>) -> bool {
    forall|i: int| 0 <= i < s.len() ==> #[trigger] s[i] < '\u{80}'
}

/// Twelve characters written as six upper-case pairs joined by `:`.
pub open spec fn grouped_upper(c: Seq<char>) -> Seq<char> {
    Seq::new(17, |k: int| if k % 3 == 2 { ':' } else { ascii_upper(c[(k / 3) * 2 + k % 3]) })
}

/// The canonical writing of a hardware address: once its separators are
/// removed, twelve ASCII characters become six upper-case pairs joined by
/// `:`; any other text is kept as it is.
pub open spec fn formatted_mac(s: Seq<char>) -> Seq<char> {
    let c = without_separators(s);
    if c.len() == 12 && all_ascii(c) {
        grouped_upper(c)
    } else {
        s
    }
}

fn upper_char(c: char) -> (r: char)
    ensures
        r == ascii_upper(c),
{
    if 'a' <= c && c <= 'z' {
        ((c as u32 - 32) as u8) as char
    } else {
        c
    }
}

/// Writes a hardware address as `AA:BB:CC:DD:EE:FF`.
pub fn format_mac_address(mac_str: &str) -> (r: String)
    ensures
        r@ == formatted_mac(mac_str@),
{
    let c = strip_separators(mac_str);
    if c.len() != 12 {
        return String::from_str(mac_str);
    }
    let mut i: usize = 0;
    while i < 12
        invariant
            c@ == without_separators(mac_str@),
            c@.len() == 12,
            i <= 12,
            forall|k: int| 0 <= k < i ==> #[trigger] c@[k] < '\u{80}',
        decreases 12 - i,
    {
        if c[i] >= '\u{80}' {
            return String::from_str(mac_str);
        }
        i = i + 1;
    }
    let mut r = String::new();
    let mut k: usize = 0;
    while k < 17
        invariant
            c@.len() == 12,
            k <= 17,
            r@ == grouped_upper(c@).subrange(0, k as int),
        decreases 17 - k,
    {
        let ch = if k % 3 == 2 { ':' } else { upper_char(c[(k / 3) * 2 + k % 3]) };
        push_char(&mut r, ch);
        assert(r@ =~= grouped_upper(c@).subrange(0, k + 1));
        k = k + 1;
    }
    assert(r@ =~= grouped_upper(c@));
    r
}

/// The /24 broadcast address of a four-part address: its first three parts
/// followed by `.255`.
pub open spec fn broadcast_of(ip: Seq<char>) -> Option<Seq<char>> {
    if count_dots(ip) == 3 {
        Some(before_last_dot(ip) + ".255"@)
    } else {
        None
    }
}

/// The /24 broadcast address of `ip`.
pub fn calculate_broadcast_address(ip: &str) -> (r: Result<String, AddressError>)
    ensures
        r is Ok <==> broadcast_of(ip@) is Some,
        r is Ok ==> r->Ok_0@ == broadcast_of(ip@)->Some_0,
{
    if count_dots_in(ip) != 3 {
        return Err(AddressError::InvalidFormat);
    }
    let mut r = text_before_last_dot(ip);
    push_str(&mut r, ".255");
    Ok(r)
}

/// A magic packet: six `0xFF` bytes, then the hardware address sixteen times.
pub open spec fn magic_packet_bytes(mac: Seq<u8>) -> Seq<u8> {
    Seq::new(102, |i: int| if i < 6 { 0xFFu8 } else { mac[(i - 6) % 6] })
}

/// Relies on `wake_on_lan::MagicPacket::new` and `magic_bytes`: six `0xFF`
/// bytes followed by sixteen repetitions of the address.
#[verifier::external_body]
fn magic_packet_for(mac: &[u8; 6]) -> (r: Vec<u8>)
    ensures
        r@ == magic_packet_bytes(mac@),
{
    wake_on_lan::MagicPacket::new(mac).magic_bytes().to_vec()
}

/// The magic packet that wakes the device with hardware address `mac_str`.
pub fn magic_packet(mac_str: &str) -> (r: Result<Vec<u8>, MacError>)
    ensures
        r is Ok <==> mac_bytes(mac_str@) is Some,
        r is Ok ==> r->Ok_0@ == magic_packet_bytes(mac_bytes(mac_str@)->Some_0),
{
    let mac = parse_mac_address(mac_str)?;
    Ok(magic_packet_for(&mac))
}

/// `host:port`.
pub open spec fn with_port(host: Seq<char>, port: u16) -> Seq<char> {
    host + ":"@ + decimal(port as nat)
}

/// The broadcast targets of the interfaces whose addresses are `ips`, in order,
/// skipping those without a broadcast address.
pub open spec fn interface_targets(ips: Seq<Seq<char>>, port: u16) -> Seq<Seq<char>>
    decreases ips.len(),
{
    if ips.len() == 0 {
        seq![]
    } else {
        let earlier = interface_targets(ips.drop_last(), port);
        match broadcast_of(ips.last()) {
            Some(b) => earlier.push(with_port(b, port)),
            None => earlier,
        }
    }
}

/// Where a wake-up packet for `device` is sent: the global broadcast
/// address, the device's own address when one is set, and the /24 broadcast
/// address of each local interface.
pub open spec fn wake_targets_of(ip: Seq<char>, port: u16, interface_ips: Seq<Seq<char>>) -> Seq<Seq<char>> {
    let global = seq![with_port("255.255.255.255"@, port)];
    let own = if ip.len() > 0 && ip != "255.255.255.255"@ { seq![with_port(ip, port)] } else { seq![] };
    global + own + interface_targets(interface_ips, port)
}

fn target(host: &str, port: u16) -> (r: String)
    ensures
        r@ == with_port(host@, port),
{
    let mut r = String::from_str(host);
    push_str(&mut r, ":");
    push_decimal(&mut r, port as u64);
    r
}

/// The addresses of a list of interfaces.
pub open spec fn interface_addresses(ifaces: Seq<NetworkInterface>) -> Seq<Seq<char>> {
    ifaces.map_values(|i: NetworkInterface| i.ip_address@)
}

/// Where a wake-up packet for `device` is sent, given the local interfaces.
pub fn wake_targets(device: &WolDevice, interfaces: &Vec<NetworkInterface>) -> (r: Vec<String>)
    ensures
        r@.map_values(|s: String| s@) == wake_targets_of(
            device.ip_address@,
            device.port,
            interface_addresses(interfaces@),
        ),
{
    let ghost ips = interface_addresses(interfaces@);
    let mut r: Vec<String> = Vec::new();
    r.push(target("255.255.255.255", device.port));
    let ip = device.ip_address.as_str();
    let own = ip.unicode_len() > 0 && !(device.ip_address == String::from_str("255.255.255.255"));
    if own {
        r.push(target(ip, device.port));
    }
    let ghost head = r@.map_values(|s: String| s@);
    assert(head =~= seq![with_port("255.255.255.255"@, device.port)]
        + if device.ip_address@.len() > 0 && device.ip_address@ != "255.255.255.255"@ {
            seq![with_port(device.ip_address@, device.port)]
        } else {
            seq![]
        });
    let mut i: usize = 0;
    assert(ips.subrange(0, 0) =~= Seq::<Seq<char>>::empty());
    while i < interfaces.len()
        invariant
            i <= interfaces@.len(),
            ips == interface_addresses(interfaces@),
            r@.map_values(|s: String| s@) == head + interface_targets(ips.subrange(0, i as int), device.port),
        decreases interfaces@.len() - i,
    {
        assert(ips.subrange(0, i + 1).drop_last() =~= ips.subrange(0, i as int));
        assert(ips.subrange(0, i + 1).last() == interfaces@[i as int].ip_address@);
        let ghost before = r@;
        match calculate_broadcast_address(interfaces[i].ip_address.as_str()) {
            Ok(b) => {
                let t = target(b.as_str(), device.port);
                r.push(t);
                assert(r@.map_values(|s: String| s@) =~= before.map_values(|s: String| s@).push(t@));
            },
            Err(_) => {},
        }
        i = i + 1;
    }
    assert(ips.subrange(0, ips.len() as int) =~= ips);
    r
}

/// How a wake-up ended: done when at least one packet was sent, else the
/// errors of the failed sends.
pub open spec fn wake_result(sent: usize, errors: Seq<Seq<char>>) -> Result<(), Seq<char>> {
    if sent > 0 {
        Ok(())
    } else {
        Err("Failed to send any WoL packets. Errors: "@ + joined(errors, ", "@))
    }
}

/// How a wake-up ended, after `sent` packets went out and the sends listed
/// in `errors` failed.
pub fn wake_outcome(sent: usize, errors: &Vec<String>) -> (r: Result<(), String>)
    ensures
        match (r, wake_result(sent, views(errors@))) {
            (Ok(()), Ok(())) => true,
            (Err(a), Err(b)) => a@ == b,
            _ => false,
        },
{
    if sent > 0 {
        Ok(())
    } else {
        let mut m = String::from_str("Failed to send any WoL packets. Errors: ");
        push_str(&mut m, join_with(errors, ", ").as_str());
        Err(m)
    }
}

} // verus!
