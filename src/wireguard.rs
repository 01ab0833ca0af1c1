//! WireGuard: reading configuration files and the output of `wg show`.
use vstd::prelude::*;
use crate::text::{
    char_views, chars_of, ends_with, lines, seq_contains, split_lines, starts_with, str_contains, string_of, trim, trimmed,
    vec_starts_with,
};

verus! {

/// The settings of a WireGuard configuration that are shown to the user.
pub struct WireGuardConfigInfo {
    pub address: String,
    pub dns: String,
    pub endpoint: String,
    pub allowed_ips: String,
}

/// What follows the first `c` in `s`, if `s` holds one.
pub open spec fn after_first(s: Seq<char>, c: char) -> Option<Seq<char>>
    decreases s.len(),
{
    if s.len() == 0 {
        None
    } else if s[0] == c {
        Some(s.drop_first())
    } else {
        after_first(s.drop_first(), c)
    }
}

/// `s` up to its first `c`.
pub open spec fn up_to(s: Seq<char>, c: char) -> Seq<char>
    decreases s.len(),
{
    if s.len() == 0 || s[0] == c {
        seq![]
    } else {
        seq![s[0]] + up_to(s.drop_first(), c)
    }
}

/// The second piece of `s` split at each `c`: the text between its first
/// and second `c`, or to its end.
pub open spec fn second_piece(s: Seq<char>, c: char) -> Option<Seq<char>> {
    match after_first(s, c) {
        Some(rest) => Some(up_to(rest, c)),
        None => None,
    }
}

fn vec_ends_with_char(s: &Vec<char>, c: char) -> (r: bool)
    ensures
        r == ends_with(s@, seq![c]),
{
    if s.len() == 0 {
        return false;
    }
    let r = s[s.len() - 1] == c;
    if r {
        assert(s@.subrange(s@.len() - 1, s@.len() as int) =~= seq![c]);
    } else {
        assert(s@.subrange(s@.len() - 1, s@.len() as int)[0] != c);
    }
    r
}

fn piece_after(s: &Vec<char>, c: char) -> (r: Option<Vec<char>>)
    ensures
        r is Some <==> second_piece(s@, c) is Some,
        r is Some ==> r->Some_0@ == second_piece(s@, c)->Some_0,
{
    let n = s.len();
    let mut i: usize = 0;
    assert(s@.subrange(0, n as int) =~= s@);
    while i < n && s[i] != c
        invariant
            n == s@.len(),
            i <= n,
            after_first(s@.subrange(i as int, n as int), c) == after_first(s@, c),
        decreases n - i,
    {
        assert(s@.subrange(i as int, n as int).drop_first() =~= s@.subrange(i + 1, n as int));
        i = i + 1;
    }
    if i == n {
        assert(s@.subrange(i as int, n as int).len() == 0);
        return None;
    }
    assert(s@.subrange(i as int, n as int).drop_first() =~= s@.subrange(i + 1, n as int));
    let mut j: usize = i + 1;
    let mut r: Vec<char> = Vec::new();
    while j < n && s[j] != c
        invariant
            n == s@.len(),
            i < j <= n,
            r@ + up_to(s@.subrange(j as int, n as int), c) == up_to(s@.subrange(i + 1, n as int), c),
        decreases n - j,
    {
        let ghost rest = s@.subrange(j as int, n as int);
        assert(rest.drop_first() =~= s@.subrange(j + 1, n as int));
        r.push(s[j]);
        assert(r@ + up_to(s@.subrange(j + 1, n as int), c) =~= (r@.drop_last() + up_to(rest, c)));
        j = j + 1;
    }
    assert(r@ + up_to(s@.subrange(j as int, n as int), c) =~= r@);
    Some(r)
}

/// What reading a configuration has gathered: the current `[section]` and
/// the four settings.
pub struct ConfigScan {
    pub section: Seq<char>,
    pub address: Seq<char>,
    pub dns: Seq<char>,
    pub endpoint: Seq<char>,
    pub allowed_ips: Seq<char>,
}

/// The value of a `Key = value` line: the trimmed text after the first `=`,
/// up to a second `=`; `current` when the line has no `=`.
pub open spec fn setting_value(line: Seq<char>, current: Seq<char>) -> Seq<char> {
    match second_piece(line, '=') {
        Some(p) => trim(p),
        None => current,
    }
}

/// Reads one line of a configuration. A `[...]` line opens a section; in
/// `[Interface]`, lines starting with `Address` or `DNS` set those values; in
/// `[Peer]`, lines starting with `Endpoint` or `AllowedIPs`.
pub open spec fn scan_line(st: ConfigScan, raw: Seq<char>) -> ConfigScan {
    let line = trim(raw);
    if starts_with(line, "["@) && ends_with(line, "]"@) {
        ConfigScan { section: line, ..st }
    } else if st.section == "[Interface]"@ {
        if starts_with(line, "Address"@) {
            ConfigScan { address: setting_value(line, st.address), ..st }
        } else if starts_with(line, "DNS"@) {
            ConfigScan { dns: setting_value(line, st.dns), ..st }
        } else {
            st
        }
    } else if st.section == "[Peer]"@ {
        if starts_with(line, "Endpoint"@) {
            ConfigScan { endpoint: setting_value(line, st.endpoint), ..st }
        } else if starts_with(line, "AllowedIPs"@) {
            ConfigScan { allowed_ips: setting_value(line, st.allowed_ips), ..st }
        } else {
            st
        }
    } else {
        st
    }
}

/// The state after reading `ls` in order, from no section and empty values.
pub open spec fn scan_lines(ls: Seq<Seq<char>>) -> ConfigScan
    decreases ls.len(),
{
    if ls.len() == 0 {
        ConfigScan { section: seq![], address: seq![], dns: seq![], endpoint: seq![], allowed_ips: seq![] }
    } else {
        scan_line(scan_lines(ls.drop_last()), ls.last())
    }
}

/// The settings that a configuration's text gives.
pub open spec fn config_info(content: Seq<char>) -> ConfigScan {
    scan_lines(lines(content))
}

struct Scan {
    section: Vec<char>,
    address: Vec<char>,
    dns: Vec<char>,
    endpoint: Vec<char>,
    allowed_ips: Vec<char>,
}

impl Scan {
    spec fn view(&self) -> ConfigScan {
        ConfigScan {
            section: self.section@,
            address: self.address@,
            dns: self.dns@,
            endpoint: self.endpoint@,
            allowed_ips: self.allowed_ips@,
        }
    }
}

fn setting(line: &Vec<char>, current: Vec<char>) -> (r: Vec<char>)
    ensures
        r@ == setting_value(line@, current@),
{
    match piece_after(line, '=') {
        Some(p) => trimmed(&p),
        None => current,
    }
}

fn is_section(s: &Vec<char>, name: &str) -> (r: bool)
    ensures
        r == (s@ == name@),
{
    let n = chars_of(name);
    if n.len() != s.len() {
        return false;
    }
    let mut i: usize = 0;
    while i < n.len()
        invariant
            n@ == name@,
            n@.len() == s@.len(),
            i <= n@.len(),
            forall|k: int| 0 <= k < i ==> s@[k] == n@[k],
        decreases n@.len() - i,
    {
        if s[i] != n[i] {
            return false;
        }
        i = i + 1;
    }
    assert(s@ =~= n@);
    true
}

fn scan_step(st: Scan, raw: &Vec<char>) -> (r: Scan)
    ensures
        r.view() == scan_line(st.view(), raw@),
{
    let line = trimmed(raw);
    proof {
        reveal_strlit("]");
        assert("]"@ =~= seq![']']);
    }
    if vec_starts_with(&line, "[") && vec_ends_with_char(&line, ']') {
        return Scan { section: line, ..st };
    }
    if is_section(&st.section, "[Interface]") {
        if vec_starts_with(&line, "Address") {
            let Scan { section, address, dns, endpoint, allowed_ips } = st;
            Scan { section, address: setting(&line, address), dns, endpoint, allowed_ips }
        } else if vec_starts_with(&line, "DNS") {
            let Scan { section, address, dns, endpoint, allowed_ips } = st;
            Scan { section, address, dns: setting(&line, dns), endpoint, allowed_ips }
        } else {
            st
        }
    } else if is_section(&st.section, "[Peer]") {
        if vec_starts_with(&line, "Endpoint") {
            let Scan { section, address, dns, endpoint, allowed_ips } = st;
            Scan { section, address, dns, endpoint: setting(&line, endpoint), allowed_ips }
        } else if vec_starts_with(&line, "AllowedIPs") {
            let Scan { section, address, dns, endpoint, allowed_ips } = st;
            Scan { section, address, dns, endpoint, allowed_ips: setting(&line, allowed_ips) }
        } else {
            st
        }
    } else {
        st
    }
}

/// Reads the settings shown to the user from a configuration's text.
pub fn parse_config_info(content: &str) -> (r: WireGuardConfigInfo)
    ensures
        r.address@ == config_info(content@).address,
        r.dns@ == config_info(content@).dns,
        r.endpoint@ == config_info(content@).endpoint,
        r.allowed_ips@ == config_info(content@).allowed_ips,
{
    let ls = split_lines(&chars_of(content));
    let ghost all = char_views(ls@);
    let mut st = Scan {
        section: Vec::new(),
        address: Vec::new(),
        dns: Vec::new(),
        endpoint: Vec::new(),
        allowed_ips: Vec::new(),
    };
    proof {
        assert(st.section@ =~= Seq::<char>::empty());
        assert(st.address@ =~= Seq::<char>::empty());
        assert(st.dns@ =~= Seq::<char>::empty());
        assert(st.endpoint@ =~= Seq::<char>::empty());
        assert(st.allowed_ips@ =~= Seq::<char>::empty());
        assert(all.subrange(0, 0) =~= Seq::<Seq<char>>::empty());
    }
    let mut i: usize = 0;
    while i < ls.len()
        invariant
            i <= ls@.len(),
            all == char_views(ls@),
            all == lines(content@),
            st.view() == scan_lines(all.subrange(0, i as int)),
        decreases ls@.len() - i,
    {
        assert(all.subrange(0, i + 1).drop_last() =~= all.subrange(0, i as int));
        assert(all.subrange(0, i + 1).last() == ls@[i as int]@);
        st = scan_step(st, &ls[i]);
        i = i + 1;
    }
    assert(all.subrange(0, all.len() as int) =~= all);
    WireGuardConfigInfo {
        address: string_of(&st.address),
        dns: string_of(&st.dns),
        endpoint: string_of(&st.endpoint),
        allowed_ips: string_of(&st.allowed_ips),
    }
}

/// A configuration has an `[Interface]` and a `[Peer]` section and both a
/// private and a public key.
pub open spec fn config_complete(content: Seq<char>) -> bool {
    &&& seq_contains(content, "[Interface]"@)
    &&& seq_contains(content, "[Peer]"@)
    &&& seq_contains(content, "PrivateKey"@)
    &&& seq_contains(content, "PublicKey"@)
}

/// Whether a configuration's text has what a tunnel needs.
pub fn validate_config_text(content: &str) -> (r: bool)
    ensures
        r == config_complete(content@),
{
    str_contains(content, "[Interface]") && str_contains(content, "[Peer]")
        && str_contains(content, "PrivateKey") && str_contains(content, "PublicKey")
}

/// The interfaces that `wg show` lists: the rest of each line that starts
/// with `interface: `, in order.
pub open spec fn listed_interfaces(ls: Seq<Seq<char>>) -> Seq<Seq<char>>
    decreases ls.len(),
{
    if ls.len() == 0 {
        seq![]
    } else {
        let earlier = listed_interfaces(ls.drop_last());
        if starts_with(ls.last(), "interface: "@) {
            earlier.push(ls.last().subrange(11, ls.last().len() as int))
        } else {
            earlier
        }
    }
}

/// The interfaces that the output of `wg show` lists.
pub fn parse_interface_list(output: &str) -> (r: Vec<String>)
    ensures
        r@.map_values(|s: String| s@) == listed_interfaces(lines(output@)),
{
    let ls = split_lines(&chars_of(output));
    let ghost all = char_views(ls@);
    let mut r: Vec<String> = Vec::new();
    let mut i: usize = 0;
    proof {
        reveal_strlit("interface: ");
        assert(all.subrange(0, 0) =~= Seq::<Seq<char>>::empty());
    }
    while i < ls.len()
        invariant
            i <= ls@.len(),
            all == char_views(ls@),
            all == lines(output@),
            "interface: "@.len() == 11,
            r@.map_values(|s: String| s@) == listed_interfaces(all.subrange(0, i as int)),
        decreases ls@.len() - i,
    {
        assert(all.subrange(0, i + 1).drop_last() =~= all.subrange(0, i as int));
        assert(all.subrange(0, i + 1).last() == ls@[i as int]@);
        let line = &ls[i];
        if vec_starts_with(line, "interface: ") {
            let mut name: Vec<char> = Vec::new();
            let mut k: usize = 11;
            while k < line.len()
                invariant
                    11 <= k <= line@.len(),
                    name@ == line@.subrange(11, k as int),
                decreases line@.len() - k,
            {
                name.push(line[k]);
                assert(line@.subrange(11, k + 1) =~= line@.subrange(11, k as int).push(line@[k as int]));
                k = k + 1;
            }
            let ghost before = r@.map_values(|s: String| s@);
            let s = string_of(&name);
            let ghost sv = s@;
            r.push(s);
            assert(r@.map_values(|s: String| s@) =~= before.push(sv));
        }
        i = i + 1;
    }
    assert(all.subrange(0, all.len() as int) =~= all);
    r
}

/// The interface that a `# Interface: name` comment of a configuration
/// names: the trimmed text after its first `:`, up to a second `:`, on the
/// first line whose trimmed form starts with `# Interface:`.
pub open spec fn named_interface(ls: Seq<Seq<char>>) -> Option<Seq<char>>
    decreases ls.len(),
{
    if ls.len() == 0 {
        None
    } else if starts_with(trim(ls[0]), "# Interface:"@) {
        match second_piece(ls[0], ':') {
            Some(p) => Some(trim(p)),
            None => named_interface(ls.drop_first()),
        }
    } else {
        named_interface(ls.drop_first())
    }
}

/// The interface that a configuration brings up: the one its
/// `# Interface:` comment names, else the file's stem, else `wg0`.
pub fn interface_name(content: &str, file_stem: Option<String>) -> (r: String)
    ensures
        r@ == match named_interface(lines(content@)) {
            Some(n) => n,
            None => match file_stem {
                Some(s) => s@,
                None => "wg0"@,
            },
        },
{
    let ls = split_lines(&chars_of(content));
    let ghost all = char_views(ls@);
    let mut i: usize = 0;
    assert(all.subrange(0, all.len() as int) =~= all);
    while i < ls.len()
        invariant
            i <= ls@.len(),
            all == char_views(ls@),
            all == lines(content@),
            named_interface(all.subrange(i as int, all.len() as int)) == named_interface(all),
        decreases ls@.len() - i,
    {
        let ghost rest = all.subrange(i as int, all.len() as int);
        assert(rest.drop_first() =~= all.subrange(i + 1, all.len() as int));
        assert(rest[0] == ls@[i as int]@);
        if vec_starts_with(&trimmed(&ls[i]), "# Interface:") {
            match piece_after(&ls[i], ':') {
                Some(p) => {
                    return string_of(&trimmed(&p));
                },
                None => {},
            }
        }
        i = i + 1;
    }
    match file_stem {
        Some(s) => s,
        None => String::from_str("wg0"),
    }
}

} // verus!
