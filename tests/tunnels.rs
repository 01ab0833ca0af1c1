use vpn_manager::monitor::Platform;
use vpn_manager::network::{first_connected_profile, wake_poll_delays, NetworkManager, VpnStatus};
use vpn_manager::vpn::{
    openvpn_connect, openvpn_disconnect, openvpn_running, openvpn_status, wireguard_candidates, wireguard_down,
    wireguard_list, wireguard_program, wireguard_status, wireguard_up,
};

#[test]
fn openvpn_commands() {
    let up = openvpn_connect(Platform::Unix, "/etc/openvpn/home.ovpn");
    assert_eq!(up.program, "openvpn");
    assert_eq!(up.args, vec!["--config", "/etc/openvpn/home.ovpn", "--daemon", "--auth-user-pass", "/dev/stdin"]);
    assert_eq!(openvpn_connect(Platform::Windows, "a.ovpn").args[4], "NUL");
    let down = openvpn_disconnect(Platform::Windows);
    assert_eq!((down.program.as_str(), down.args.clone()), ("taskkill", vec!["/F".to_string(), "/IM".to_string(), "openvpn.exe".to_string()]));
    assert_eq!(openvpn_disconnect(Platform::Unix).program, "pkill");
    assert_eq!(openvpn_status(Platform::Windows).args, vec!["/FI", "IMAGENAME eq openvpn.exe"]);
    assert_eq!(openvpn_status(Platform::Unix).program, "pgrep");
}

#[test]
fn openvpn_status_reading() {
    assert!(openvpn_running(Platform::Windows, true, "openvpn.exe   1234 Console  1  10,000 K"));
    assert!(!openvpn_running(Platform::Windows, true, "INFO: No tasks are running which match the specified criteria."));
    assert!(openvpn_running(Platform::Unix, true, "4242\n"));
    assert!(!openvpn_running(Platform::Unix, false, ""));
}

#[test]
fn wireguard_commands() {
    let up = wireguard_up(Platform::Unix, "wireguard", "/etc/wireguard/wg0.conf");
    assert_eq!(up.program, "sudo");
    assert_eq!(up.args, vec!["wg-quick", "up", "/etc/wireguard/wg0.conf"]);
    let win = wireguard_up(Platform::Windows, "wireguard", "C:\\wg0.conf");
    assert_eq!(win.program, "wireguard");
    assert_eq!(win.args, vec!["/installtunnelservice", "C:\\wg0.conf"]);
    assert_eq!(wireguard_down(Platform::Windows, "wireguard", "C:\\wg0.conf", "wg0").args, vec!["/uninstalltunnelservice", "wg0"]);
    assert_eq!(wireguard_down(Platform::Unix, "wireguard", "/x.conf", "x").args, vec!["wg-quick", "down", "/x.conf"]);
    assert_eq!(wireguard_status("wg0").args, vec!["show", "wg0"]);
    assert_eq!(wireguard_list().args, vec!["show"]);
}

#[test]
fn wireguard_program_choice() {
    let c = wireguard_candidates();
    assert_eq!(c.len(), 2);
    assert_eq!(wireguard_program(&vec![false, true], true), Some(c[1].clone()));
    assert_eq!(wireguard_program(&vec![true, true], false), Some(c[0].clone()));
    assert_eq!(wireguard_program(&vec![false, false], true), Some("wireguard".to_string()));
    assert_eq!(wireguard_program(&vec![false, false], false), None);
}

fn names() -> Vec<String> {
    vec!["home".to_string(), "office".to_string(), "lab".to_string()]
}

#[test]
fn refresh_keeps_or_drops_the_connected_profile() {
    let mut m = NetworkManager::new();
    assert_eq!(m.connected_profile(&names()), None);
    m.finish_vpn_connect("office", Ok(()));
    assert_eq!(m.connected_profile(&names()), Some(1));
    m.settle_connected_check(true);
    assert!(matches!(&m.vpn_status, VpnStatus::Connected(n) if n == "office"));
    m.settle_connected_check(false);
    assert!(matches!(m.vpn_status, VpnStatus::Disconnected));
    m.finish_vpn_connect("gone", Ok(()));
    assert_eq!(m.connected_profile(&names()), None);
}

#[test]
fn refresh_scans_all_profiles() {
    let mut m = NetworkManager::new();
    m.apply_vpn_checks(&names(), &vec![None, Some(false), Some(true)]);
    assert!(matches!(&m.vpn_status, VpnStatus::Connected(n) if n == "lab"));
    m.apply_vpn_checks(&names(), &vec![Some(false), None]);
    assert!(matches!(m.vpn_status, VpnStatus::Disconnected));
    m.begin_vpn_connect();
    m.apply_vpn_checks(&names(), &vec![Some(false)]);
    assert!(matches!(m.vpn_status, VpnStatus::Connecting));
}

#[test]
fn any_vpn_connected() {
    let m = NetworkManager::new();
    assert_eq!(m.check_any_vpn_connected(&names(), &vec![Some(false), Some(true), Some(true)]), Some("office".to_string()));
    assert_eq!(m.check_any_vpn_connected(&names(), &vec![None, None, None]), None);
    assert_eq!(first_connected_profile(&vec![]), None);
}

#[test]
fn polling_after_wake_up() {
    assert_eq!(wake_poll_delays(), vec![2000, 3000, 4000, 5000, 6000]);
}
