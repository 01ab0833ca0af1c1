use vpn_manager::config::RdpConfig;
use vpn_manager::monitor::Platform;
use vpn_manager::rdp::{mstsc_launches, mstsc_target, rdp_file_content, rdp_port, remmina_uri, xfreerdp_args};
use vpn_manager::system::{
    choose_package_manager, distribution_name, expected_dependencies, get_package_name, windows_version_name,
    version_from_output, version_source, Dependency, InstallError, PackageInstaller, PackageManager, SystemInfo,
    VersionSource,
};

fn host(port: u16, password: &str, domain: Option<&str>) -> RdpConfig {
    RdpConfig {
        name: "pc".to_string(),
        host: "10.0.0.7".to_string(),
        port,
        username: "ann".to_string(),
        password: password.to_string(),
        domain: domain.map(|d| d.to_string()),
    }
}

#[test]
fn rdp_port_defaults_to_3389() {
    assert_eq!(rdp_port(&host(0, "", None)), 3389);
    assert_eq!(rdp_port(&host(3390, "", None)), 3390);
    assert_eq!(mstsc_target(&host(0, "", None)), "10.0.0.7");
    assert_eq!(mstsc_target(&host(3389, "", None)), "10.0.0.7");
    assert_eq!(mstsc_target(&host(4000, "", None)), "10.0.0.7:4000");
}

#[test]
fn rdp_connection_file() {
    assert_eq!(
        rdp_file_content(&host(0, "", None)),
        "full address:s:10.0.0.7:3389\r\nusername:s:ann\r\nprompt for credentials:i:1\r\nadministrative session:i:1\r\n"
    );
}

#[test]
fn xfreerdp_arguments_with_and_without_secrets() {
    assert_eq!(
        xfreerdp_args(&host(3389, "pw", Some("corp"))),
        vec!["/v:10.0.0.7", "/port:3389", "/u:ann", "/p:pw", "/d:corp", "/cert-ignore", "/compression", "/clipboard", "/auto-reconnect", "/f"]
    );
    assert_eq!(
        xfreerdp_args(&host(3389, "", None)),
        vec!["/v:10.0.0.7", "/port:3389", "/u:ann", "/cert-ignore", "/compression", "/clipboard", "/auto-reconnect", "/f"]
    );
}

#[test]
fn remmina_address() {
    assert_eq!(remmina_uri(&host(3389, "pw", None)), "rdp://ann:pw@10.0.0.7:3389");
}

#[test]
fn mstsc_launch_order() {
    let l = mstsc_launches(&host(4000, "", None), "C:\\tmp\\pc.rdp");
    assert_eq!(l.len(), 5);
    assert_eq!((l[0].program.as_str(), l[0].args.clone()), ("mstsc", vec!["/v".to_string(), "10.0.0.7:4000".to_string()]));
    assert_eq!(l[1].args, vec!["/v:10.0.0.7:4000"]);
    assert_eq!(l[2].args, vec!["C:\\tmp\\pc.rdp"]);
    assert_eq!(l[3].program, "cmd");
    assert_eq!(l[3].args, vec!["/c", "start", "", "C:\\tmp\\pc.rdp"]);
    assert_eq!(l[4].program, "mstsc");
    assert!(l[4].args.is_empty());
}

#[test]
fn package_manager_choice() {
    assert_eq!(choose_package_manager(Platform::Unix, &vec![false, true, true, false, false]), PackageManager::Pacman);
    assert_eq!(choose_package_manager(Platform::Unix, &vec![false; 5]), PackageManager::Unknown);
    assert_eq!(choose_package_manager(Platform::Windows, &vec![false, false, true]), PackageManager::Scoop);
    assert_eq!(choose_package_manager(Platform::Windows, &Vec::new()), PackageManager::Unknown);
    assert_eq!(PackageManager::Chocolatey.program(), "choco");
}

#[test]
fn package_names_per_manager() {
    assert_eq!(get_package_name("openvpn", PackageManager::Winget), "OpenVPN.OpenVPN");
    assert_eq!(get_package_name("openvpn", PackageManager::Chocolatey), "openvpn");
    assert_eq!(get_package_name("wireguard", PackageManager::Winget), "WireGuard.WireGuard");
    assert_eq!(get_package_name("freerdp", PackageManager::Apt), "freerdp2-x11");
    assert_eq!(get_package_name("freerdp", PackageManager::Dnf), "freerdp");
    assert_eq!(get_package_name("iputils-ping", PackageManager::Pacman), "iputils");
    assert_eq!(get_package_name("sudo", PackageManager::Apt), "sudo");
}

#[test]
fn expected_tools_per_platform() {
    let unix = expected_dependencies(Platform::Unix, PackageManager::Apt);
    let names: Vec<(&str, &str, &str, bool)> = unix
        .iter()
        .map(|d| (d.name.as_str(), d.binary_name.as_str(), d.package_name.as_str(), d.required))
        .collect();
    assert_eq!(
        names,
        vec![
            ("OpenVPN", "openvpn", "openvpn", true),
            ("WireGuard", "wg", "wireguard-tools", true),
            ("FreeRDP", "xfreerdp", "freerdp2-x11", false),
            ("Remmina", "remmina", "remmina", false),
            ("Ping", "ping", "iputils-ping", true),
            ("Sudo", "sudo", "sudo", true),
        ]
    );
    assert!(unix.iter().all(|d| !d.is_installed && d.version.is_none()));
    let windows = expected_dependencies(Platform::Windows, PackageManager::Winget);
    assert_eq!(windows.len(), 4);
    assert_eq!(windows[0].package_name, "OpenVPN.OpenVPN");
    assert_eq!(windows[2].package_name, "builtin");
    assert!(!windows[2].required);
}

fn dep(name: &str, installed: bool, required: bool) -> Dependency {
    Dependency {
        name: name.to_string(),
        binary_name: name.to_string(),
        package_name: name.to_string(),
        is_installed: installed,
        version: None,
        required,
    }
}

#[test]
fn missing_dependencies() {
    let info = SystemInfo {
        distribution: "Test".to_string(),
        package_manager: PackageManager::Apt,
        dependencies: vec![dep("a", true, true), dep("b", false, false), dep("c", false, true)],
    };
    let missing: Vec<&str> = info.get_missing_dependencies().iter().map(|d| d.name.as_str()).collect();
    assert_eq!(missing, vec!["b", "c"]);
    let required: Vec<&str> = info.get_required_missing_dependencies().iter().map(|d| d.name.as_str()).collect();
    assert_eq!(required, vec!["c"]);
}

fn installer(m: PackageManager) -> PackageInstaller {
    PackageInstaller::new(&SystemInfo { distribution: String::new(), package_manager: m, dependencies: Vec::new() })
}

#[test]
fn install_command_lines() {
    let pkgs = vec!["openvpn".to_string(), "remmina".to_string()];
    let none = Vec::new();
    let cmd = |m: PackageManager, p: &Vec<String>| installer(m).get_install_command(p, Platform::Unix, &none);
    assert_eq!(cmd(PackageManager::Apt, &pkgs), "sudo apt install -y openvpn remmina");
    assert_eq!(cmd(PackageManager::Pacman, &pkgs), "sudo pacman -S --noconfirm openvpn remmina");
    assert_eq!(cmd(PackageManager::Winget, &pkgs), "winget install openvpn remmina");
    assert_eq!(cmd(PackageManager::Unknown, &pkgs), "No package manager detected. Please install packages manually.");
    assert_eq!(cmd(PackageManager::Scoop, &Vec::new()), "scoop install ");
}

#[test]
fn install_advice_on_windows_without_manager() {
    let pkgs = vec!["openvpn".to_string(), "wireguard".to_string(), "putty".to_string()];
    let advice = |found: Vec<bool>| installer(PackageManager::Unknown).get_install_command(&pkgs, Platform::Windows, &found);
    assert_eq!(advice(vec![true, true, true]), "winget install OpenVPN.OpenVPN WireGuard.WireGuard putty");
    assert_eq!(advice(vec![false, true, false]), "choco install -y openvpn wireguard putty");
    assert_eq!(advice(vec![false, false, true]), "scoop install openvpn wireguard putty");
    assert_eq!(
        advice(vec![false, false, false]),
        "# No package manager found. Manual installation required:\n\
         # OpenVPN: Download from https://openvpn.net/community-downloads/\n\
         # WireGuard: Download from https://www.wireguard.com/install/\n\
         # putty: Search for official installer"
    );
}

#[test]
fn distribution_names() {
    assert_eq!(distribution_name(Some("Description:\tUbuntu 22.04.3 LTS\n"), None), "Ubuntu 22.04.3 LTS");
    let os_release = "NAME=\"Fedora Linux\"\nPRETTY_NAME=\"Fedora Linux 39 (Workstation Edition)\"\nID=fedora\n";
    assert_eq!(distribution_name(Some("garbage"), Some(os_release)), "Fedora Linux 39 (Workstation Edition)");
    assert_eq!(distribution_name(None, Some("ID=arch\n")), "Unknown Linux");
    assert_eq!(distribution_name(None, None), "Unknown Linux");
    assert_eq!(windows_version_name(Some("Windows 11 Pro".to_string()), Some("23H2".to_string())), "Windows 11 Pro 23H2");
    assert_eq!(windows_version_name(None, Some(String::new())), "Windows");
}

#[test]
fn install_programs() {
    let pkgs = vec!["openvpn".to_string(), "remmina".to_string()];
    let apt = installer(PackageManager::Apt).install_launches(&pkgs).unwrap();
    assert_eq!(apt.len(), 1);
    assert_eq!(apt[0].program, "sudo");
    assert_eq!(apt[0].args, vec!["apt", "install", "-y", "openvpn", "remmina"]);
    let winget = installer(PackageManager::Winget).install_launches(&pkgs).unwrap();
    assert_eq!(winget.len(), 2);
    assert_eq!(
        winget[1].args,
        vec!["install", "--id", "remmina", "--silent", "--accept-source-agreements", "--accept-package-agreements"]
    );
    let scoop = installer(PackageManager::Scoop).install_launches(&pkgs).unwrap();
    assert_eq!(scoop[0].args, vec!["install", "openvpn"]);
    assert!(matches!(installer(PackageManager::Unknown).install_launches(&pkgs), Err(InstallError::UnknownPackageManager)));
    assert!(installer(PackageManager::Unknown).install_launches(&Vec::new()).unwrap().is_empty());
}

#[test]
fn package_list_refresh() {
    let dnf = installer(PackageManager::Dnf);
    let l = dnf.cache_update_launch().unwrap();
    assert_eq!(l.program, "sudo");
    assert_eq!(l.args, vec!["dnf", "check-update"]);
    assert!(dnf.cache_update_succeeded(false, Some(100)));
    assert!(!dnf.cache_update_succeeded(false, Some(1)));
    let apt = installer(PackageManager::Apt);
    assert!(!apt.cache_update_succeeded(false, Some(100)));
    assert!(apt.cache_update_succeeded(true, Some(0)));
    assert!(installer(PackageManager::Unknown).cache_update_launch().is_none());
    assert_eq!(installer(PackageManager::Chocolatey).cache_update_launch().unwrap().args, vec!["upgrade", "all", "-y"]);
}

#[test]
fn version_queries() {
    match version_source(Platform::Unix, "wg") {
        VersionSource::Run(l) => {
            assert_eq!(l.program, "wg");
            assert_eq!(l.args, vec!["--version"]);
        }
        _ => panic!("wg has a version query"),
    }
    match version_source(Platform::Windows, "wg") {
        VersionSource::Run(l) => assert_eq!(l.program, "wireguard"),
        _ => panic!("wireguard has a version query"),
    }
    match version_source(Platform::Unix, "ping") {
        VersionSource::Run(l) => assert_eq!(l.args, vec!["/?"]),
        _ => panic!("ping has a version query"),
    }
    assert!(matches!(version_source(Platform::Windows, "mstsc"), VersionSource::Fixed(v) if v == "Built-in Windows RDP Client"));
    assert!(matches!(version_source(Platform::Unix, "mstsc"), VersionSource::Unknown));
    assert!(matches!(version_source(Platform::Unix, "sudo"), VersionSource::Unknown));
}

#[test]
fn version_output_reading() {
    assert_eq!(version_from_output("openvpn", "OpenVPN 2.6.8 x86_64\r\nlibrary versions\n"), Some("OpenVPN 2.6.8 x86_64".to_string()));
    assert_eq!(version_from_output("xfreerdp", "This is FreeRDP version 2.11.2"), Some("This is FreeRDP version 2.11.2".to_string()));
    assert_eq!(version_from_output("openvpn", ""), None);
    assert_eq!(version_from_output("wg", "  wireguard-tools v1.0.20210914 \n"), Some("wireguard-tools v1.0.20210914".to_string()));
}
