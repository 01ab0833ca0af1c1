use vpn_manager::config::WolDevice;
use vpn_manager::monitor::NetworkInterface;
use vpn_manager::wol::{
    calculate_broadcast_address, format_mac_address, magic_packet, parse_mac_address, validate_mac_address,
    wake_outcome, wake_targets, AddressError, MacError,
};

#[test]
fn parses_colon_dash_and_bare_addresses() {
    let expected = [0xAA, 0xBB, 0xCC, 0x0D, 0xEE, 0xFF];
    assert_eq!(parse_mac_address("AA:BB:CC:0D:EE:FF"), Ok(expected));
    assert_eq!(parse_mac_address("aa-bb-cc-0d-ee-ff"), Ok(expected));
    assert_eq!(parse_mac_address("aabbcc0deeff"), Ok(expected));
    assert_eq!(parse_mac_address("00:11:22:33:44:55"), Ok([0x00, 0x11, 0x22, 0x33, 0x44, 0x55]));
}

#[test]
fn refuses_malformed_addresses() {
    assert_eq!(parse_mac_address("AA:BB:CC:DD:EE"), Err(MacError::InvalidFormat));
    assert_eq!(parse_mac_address("AA:BB:CC:DD:EE:FF:00"), Err(MacError::InvalidFormat));
    assert_eq!(parse_mac_address("GG:BB:CC:DD:EE:FF"), Err(MacError::InvalidFormat));
    assert_eq!(parse_mac_address(""), Err(MacError::InvalidFormat));
    assert_eq!(parse_mac_address("AA BB CC DD EE FF"), Err(MacError::InvalidFormat));
}

#[test]
fn validates_addresses() {
    assert!(validate_mac_address("01:23:45:67:89:ab"));
    assert!(!validate_mac_address("01:23:45:67:89"));
    assert!(!validate_mac_address("zz:23:45:67:89:ab"));
}

#[test]
fn formats_addresses_in_upper_case_pairs() {
    assert_eq!(format_mac_address("aa-bb-cc-dd-ee-ff"), "AA:BB:CC:DD:EE:FF");
    assert_eq!(format_mac_address("aabbccddeeff"), "AA:BB:CC:DD:EE:FF");
    assert_eq!(format_mac_address("a1:b2:c3:d4:e5:f6"), "A1:B2:C3:D4:E5:F6");
    assert_eq!(format_mac_address("short"), "short");
    assert_eq!(format_mac_address(""), "");
}

#[test]
fn broadcast_address_of_a_slash_24() {
    assert_eq!(calculate_broadcast_address("192.168.1.42"), Ok("192.168.1.255".to_string()));
    assert_eq!(calculate_broadcast_address("10.0.0.1"), Ok("10.0.0.255".to_string()));
    assert_eq!(calculate_broadcast_address("10.0.0"), Err(AddressError::InvalidFormat));
    assert_eq!(calculate_broadcast_address("fe80::1"), Err(AddressError::InvalidFormat));
}

#[test]
fn magic_packet_repeats_the_address() {
    let packet = magic_packet("01:23:45:67:89:AB").unwrap();
    assert_eq!(packet.len(), 102);
    assert_eq!(&packet[..6], &[0xFF; 6]);
    for chunk in packet[6..].chunks(6) {
        assert_eq!(chunk, &[0x01, 0x23, 0x45, 0x67, 0x89, 0xAB]);
    }
    assert_eq!(magic_packet("nope"), Err(MacError::InvalidFormat));
}

fn device(ip: &str) -> WolDevice {
    WolDevice { name: "nas".to_string(), mac_address: "aa:bb:cc:dd:ee:ff".to_string(), ip_address: ip.to_string(), port: 9 }
}

fn iface(ip: &str) -> NetworkInterface {
    NetworkInterface { name: "eth0".to_string(), ip_address: ip.to_string(), is_up: true }
}

#[test]
fn wake_targets_cover_every_broadcast() {
    let targets = wake_targets(&device("192.168.1.20"), &vec![iface("192.168.1.2"), iface("fe80::1"), iface("10.0.0.5")]);
    assert_eq!(
        targets,
        vec!["255.255.255.255:9", "192.168.1.20:9", "192.168.1.255:9", "10.0.0.255:9"]
    );
}

#[test]
fn wake_targets_without_device_address() {
    assert_eq!(wake_targets(&device(""), &Vec::new()), vec!["255.255.255.255:9"]);
    assert_eq!(wake_targets(&device("255.255.255.255"), &Vec::new()), vec!["255.255.255.255:9"]);
}

#[test]
fn wake_outcome_needs_one_sent_packet() {
    assert_eq!(wake_outcome(1, &vec!["x".to_string()]), Ok(()));
    assert_eq!(
        wake_outcome(0, &vec!["a: denied".to_string(), "b: unreachable".to_string()]),
        Err("Failed to send any WoL packets. Errors: a: denied, b: unreachable".to_string())
    );
    assert_eq!(wake_outcome(0, &Vec::new()), Err("Failed to send any WoL packets. Errors: ".to_string()));
}
