use vpn_manager::config::{vpn_type_for_path, Config, VpnConfig, VpnType, WolDevice};
use vpn_manager::network::{NetworkManager, VpnStatus, WolDeviceStatus};
use vpn_manager::ui_state::{
    action_button_color, device_icon_color, device_status_color, make_operation_key, ActionType, ColorRole,
    DeviceOperationResult, DeviceOperationState, DeviceOperations, DeviceType,
};
use vpn_manager::updater::{choose_asset, strip_v, AppUpdater, ReleaseAsset, TargetOs, UpdateError};
use vpn_manager::wireguard::{interface_name, parse_config_info, parse_interface_list, validate_config_text};

fn device(name: &str) -> WolDevice {
    WolDevice { name: name.to_string(), mac_address: "aa:bb:cc:dd:ee:ff".to_string(), ip_address: "10.0.0.2".to_string(), port: 9 }
}

fn vpn(name: &str, path: &str, t: VpnType) -> VpnConfig {
    VpnConfig {
        name: name.to_string(),
        config_path: path.to_string(),
        username: String::new(),
        password: String::new(),
        auto_connect: false,
        vpn_type: t,
    }
}

#[test]
fn default_settings() {
    let c = Config::default();
    assert!(c.vpn_configs.is_empty() && c.rdp_configs.is_empty() && c.wol_devices.is_empty());
    assert!(c.dark_mode);
    assert!(!c.auto_connect_vpn);
    assert_eq!(VpnType::default(), VpnType::OpenVpn);
}

#[test]
fn vpn_type_follows_file_name() {
    assert_eq!(vpn_type_for_path("/etc/openvpn/home.ovpn", VpnType::WireGuard), VpnType::OpenVpn);
    assert_eq!(vpn_type_for_path("/etc/wireguard/wg0.conf", VpnType::OpenVpn), VpnType::WireGuard);
    assert_eq!(vpn_type_for_path("/tmp/profile", VpnType::WireGuard), VpnType::WireGuard);
    let mut c = Config::default();
    c.vpn_configs.push(vpn("a", "a.conf", VpnType::OpenVpn));
    c.vpn_configs.push(vpn("b", "b.ovpn", VpnType::WireGuard));
    c.vpn_configs.push(vpn("c", "c.txt", VpnType::WireGuard));
    c.normalize_vpn_types();
    assert_eq!(c.vpn_configs[0].vpn_type, VpnType::WireGuard);
    assert_eq!(c.vpn_configs[1].vpn_type, VpnType::OpenVpn);
    assert_eq!(c.vpn_configs[2].vpn_type, VpnType::WireGuard);
    assert_eq!(c.vpn_configs[1].name, "b");
}

#[test]
fn new_manager_is_empty() {
    let m = NetworkManager::new();
    assert!(matches!(m.vpn_status, VpnStatus::Disconnected));
    assert!(m.rdp_connections.is_empty());
    assert!(m.wol_devices.is_empty());
}

#[test]
fn sync_drops_removed_keeps_known_and_adds_new_devices() {
    let mut m = NetworkManager::new();
    m.track_devices(&vec![device("a"), device("b")], 100_000);
    assert_eq!(m.wol_devices[0].last_checked_ms, 40_000);
    m.record_check(0, true, 120_000);
    m.sync_wol_devices(&vec![device("c"), device("a"), device("c")], 200_000);
    let names: Vec<&str> = m.wol_devices.iter().map(|s| s.device.name.as_str()).collect();
    assert_eq!(names, vec!["a", "c"]);
    assert!(m.wol_devices[0].is_online);
    assert_eq!(m.wol_devices[0].last_checked_ms, 120_000);
    assert!(!m.wol_devices[1].is_online);
    assert_eq!(m.wol_devices[1].last_checked_ms, 140_000);
}

#[test]
fn fresh_status_near_clock_start() {
    let s = WolDeviceStatus::fresh(&device("x"), 5_000);
    assert_eq!(s.last_checked_ms, 0);
    assert!(!s.is_online);
}

#[test]
fn devices_due_for_a_check() {
    let mut m = NetworkManager::new();
    m.track_devices(&vec![device("a"), device("b"), device("c")], 100_000);
    m.record_check(1, false, 95_000);
    assert_eq!(m.devices_due(100_000, 30_000), vec![0, 2]);
    assert_eq!(m.devices_due(130_001, 30_000), vec![0, 1, 2]);
    assert_eq!(m.devices_due(10, 30_000), Vec::<usize>::new());
}

#[test]
fn record_check_by_name_updates_first_match_only() {
    let mut m = NetworkManager::new();
    m.track_devices(&vec![device("a"), device("b"), device("b")], 0);
    m.record_check_by_name(&"b".to_string(), true, 7);
    assert!(!m.wol_devices[0].is_online);
    assert!(m.wol_devices[1].is_online);
    assert_eq!(m.wol_devices[1].last_checked_ms, 7);
    assert!(!m.wol_devices[2].is_online);
    m.record_check_by_name(&"zzz".to_string(), true, 9);
    assert_eq!(m.wol_devices[0].last_checked_ms, 0);
}

#[test]
fn vpn_state_transitions() {
    let mut m = NetworkManager::new();
    m.begin_vpn_connect();
    assert!(matches!(m.vpn_status, VpnStatus::Connecting));
    m.finish_vpn_connect("office", Ok(()));
    assert!(matches!(&m.vpn_status, VpnStatus::Connected(n) if n == "office"));
    m.finish_vpn_disconnect(Err("busy".to_string()));
    assert!(matches!(&m.vpn_status, VpnStatus::Error(e) if e == "busy"));
    m.finish_vpn_disconnect(Ok(()));
    assert!(matches!(m.vpn_status, VpnStatus::Disconnected));
    m.finish_vpn_connect("office", Err("no route".to_string()));
    assert!(matches!(&m.vpn_status, VpnStatus::Error(e) if e == "no route"));
}

#[test]
fn updater_urls() {
    let u = AppUpdater::new("owner", "repo", "v1.0.0");
    assert_eq!(u.get_changelog_url(), "https://github.com/owner/repo/releases");
    assert_eq!(u.latest_release_url(), "https://api.github.com/repos/owner/repo/releases/latest");
}

#[test]
fn version_comparison() {
    let u = AppUpdater::new("o", "r", "1.0.0");
    assert_eq!(u.is_newer_version("1.2.0", "1.1.9"), Ok(true));
    assert_eq!(u.is_newer_version("1.1.9", "1.2.0"), Ok(false));
    assert_eq!(u.is_newer_version("1.0.0", "1.0.0"), Ok(false));
    assert_eq!(u.is_newer_version("1.0.0", "1.0.0-beta"), Ok(true));
    assert_eq!(u.is_newer_version("1.0", "1.0.0"), Err(UpdateError::InvalidVersion));
    assert_eq!(u.is_newer_version("1.0.0", "abc"), Err(UpdateError::InvalidVersion));
}

fn asset(name: &str) -> ReleaseAsset {
    ReleaseAsset { name: name.to_string(), browser_download_url: format!("https://dl/{}", name) }
}

#[test]
fn download_for_the_platform() {
    let u = AppUpdater::new("o", "r", "1.0.0");
    let assets = vec![asset("Source.zip"), asset("App-Windows.exe"), asset("App-LINUX.tar.gz")];
    assert_eq!(u.get_download_url(&assets, TargetOs::Linux), Ok("https://dl/App-LINUX.tar.gz".to_string()));
    assert_eq!(u.get_download_url(&assets, TargetOs::Windows), Ok("https://dl/App-Windows.exe".to_string()));
    assert_eq!(u.get_download_url(&assets, TargetOs::MacOs), Ok("https://dl/Source.zip".to_string()));
    assert_eq!(u.get_download_url(&Vec::new(), TargetOs::Linux), Err(UpdateError::NoSuitableAsset));
    let amd = vec![asset("a.deb"), asset("b-amd64.deb")];
    assert_eq!(u.get_download_url(&amd, TargetOs::MacOs), Ok("https://dl/b-amd64.deb".to_string()));
}

#[test]
fn asset_choice_on_lowered_names() {
    let names = vec!["readme".to_string(), "tool-osx".to_string(), "tool-darwin".to_string()];
    assert_eq!(choose_asset(&names, TargetOs::MacOs), Some(1));
    assert_eq!(choose_asset(&names, TargetOs::Linux), Some(0));
    assert_eq!(choose_asset(&Vec::new(), TargetOs::Linux), None);
}

#[test]
fn update_description_from_release() {
    let u = AppUpdater::new("o", "r", "v1.0.0");
    let info = u.update_info_from_release("v1.1.0", "notes", &vec![asset("x-linux")], TargetOs::Linux).unwrap();
    assert_eq!(info.current_version, "1.0.0");
    assert_eq!(info.latest_version, "1.1.0");
    assert!(info.update_available);
    assert_eq!(info.download_url, "https://dl/x-linux");
    assert_eq!(info.release_notes, "notes");
    assert!(matches!(
        u.update_info_from_release("latest", "", &vec![asset("x")], TargetOs::Linux),
        Err(UpdateError::InvalidVersion)
    ));
    assert!(matches!(
        u.update_info_from_release("1.0.0", "", &Vec::new(), TargetOs::Linux),
        Err(UpdateError::NoSuitableAsset)
    ));
    assert_eq!(strip_v("v2"), "2");
    assert_eq!(strip_v("2"), "2");
    assert_eq!(strip_v(""), "");
}

const WG_CONF: &str = "# Interface: office\n[Interface]\nPrivateKey = abc=\nAddress = 10.8.0.2/24\nDNS = 1.1.1.1\n\n[Peer]\nPublicKey = def=\nEndpoint = vpn.example.com:51820\nAllowedIPs = 0.0.0.0/0, ::/0\n";

#[test]
fn wireguard_config_settings() {
    let info = parse_config_info(WG_CONF);
    assert_eq!(info.address, "10.8.0.2/24");
    assert_eq!(info.dns, "1.1.1.1");
    assert_eq!(info.endpoint, "vpn.example.com:51820");
    assert_eq!(info.allowed_ips, "0.0.0.0/0, ::/0");
    let empty = parse_config_info("Address = 1.2.3.4\n");
    assert_eq!(empty.address, "");
}

#[test]
fn wireguard_config_validation() {
    assert!(validate_config_text(WG_CONF));
    assert!(!validate_config_text("[Interface]\nPrivateKey = x\n"));
}

#[test]
fn wireguard_interface_list() {
    let out = "interface: wg0\n  public key: abc\n\ninterface: office\n";
    assert_eq!(parse_interface_list(out), vec!["wg0", "office"]);
    assert!(parse_interface_list("").is_empty());
}

#[test]
fn wireguard_interface_name() {
    assert_eq!(interface_name(WG_CONF, Some("file".to_string())), "office");
    assert_eq!(interface_name("[Interface]\n", Some("file".to_string())), "file");
    assert_eq!(interface_name("[Interface]\n", None), "wg0");
}

#[test]
fn theme_color_choices() {
    assert_eq!(device_icon_color(DeviceType::Rdp, false), ColorRole::Primary);
    assert_eq!(device_icon_color(DeviceType::Wol, true), ColorRole::Success);
    assert_eq!(device_icon_color(DeviceType::Wol, false), ColorRole::TextDisabled);
    assert_eq!(device_status_color(true), ColorRole::Success);
    assert_eq!(action_button_color(ActionType::Secondary), ColorRole::SurfaceVariant);
    assert_eq!(action_button_color(ActionType::Warning), ColorRole::Warning);
}

#[test]
fn device_operation_tracking() {
    let mut ops = DeviceOperations::new();
    assert!(matches!(ops.state_of("nas", "wake"), DeviceOperationState::Idle));
    ops.start("nas", "wake");
    assert!(matches!(ops.state_of("nas", "wake"), DeviceOperationState::Loading));
    assert!(matches!(ops.state_of("nas", "ping"), DeviceOperationState::Idle));
    let done = DeviceOperationResult::wake("nas", "wake", Ok(()));
    assert!(done.success);
    assert_eq!(done.message, "Wake-on-LAN packet sent to nas");
    ops.finish(&done);
    assert!(matches!(ops.state_of("nas", "wake"), DeviceOperationState::Success(m) if m == "Wake-on-LAN packet sent to nas"));
    let failed = DeviceOperationResult::rdp("pc", "rdp", Err("refused".to_string()));
    assert!(!failed.success);
    assert_eq!(failed.message, "Failed to connect to pc: refused");
    ops.finish(&failed);
    assert!(matches!(ops.state_of("pc", "rdp"), DeviceOperationState::Error(m) if m == "Failed to connect to pc: refused"));
    let ping = DeviceOperationResult::ping("nas", "ping", false);
    assert_eq!(ping.message, "nas is offline");
    assert_eq!(DeviceOperationResult::wake("nas", "wake", Err("no socket".to_string())).message, "Failed to wake nas: no socket");
    assert_eq!(DeviceOperationResult::rdp("pc", "rdp", Ok(())).message, "RDP connection initiated to pc");
    assert_eq!(make_operation_key("nas", "wake"), "nas_wake");
}
