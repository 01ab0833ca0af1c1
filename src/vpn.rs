//! VPN tunnels: the commands that start, stop and query OpenVPN and
//! WireGuard, and how their answers are read.
use vstd::prelude::*;
use crate::launch::{launch, launch_view, Launch};
use crate::monitor::Platform;
use crate::text::{seq_contains, str_contains, views};

verus! {

fn args2(a: &str, b: &str) -> (r: Vec<String>)
    ensures
        views(r@) == seq![a@, b@],
{
    let r = vec![String::from_str(a), String::from_str(b)];
    assert(views(r@) =~= seq![a@, b@]);
    r
}

fn args3(a: &str, b: &str, c: &str) -> (r: Vec<String>)
    ensures
        views(r@) == seq![a@, b@, c@],
{
    let r = vec![String::from_str(a), String::from_str(b), String::from_str(c)];
    assert(views(r@) =~= seq![a@, b@, c@]);
    r
}

/// Starts OpenVPN as a daemon with the profile at `path`; the credentials are
/// read from the null device on Windows and from standard input elsewhere.
pub fn openvpn_connect(platform: Platform, path: &str) -> (r: Launch)
    ensures
        launch_view(r) == ("openvpn"@, seq![
            "--config"@,
            path@,
            "--daemon"@,
            "--auth-user-pass"@,
            match platform { Platform::Windows => "NUL"@, Platform::Unix => "/dev/stdin"@ },
        ]),
{
    let auth = match platform {
        Platform::Windows => "NUL",
        Platform::Unix => "/dev/stdin",
    };
    let args = vec![
        String::from_str("--config"),
        String::from_str(path),
        String::from_str("--daemon"),
        String::from_str("--auth-user-pass"),
        String::from_str(auth),
    ];
    let r = launch("openvpn", args);
    assert(views(r.args@) =~= seq!["--config"@, path@, "--daemon"@, "--auth-user-pass"@, auth@]);
    r
}

/// Stops every OpenVPN process.
pub fn openvpn_disconnect(platform: Platform) -> (r: Launch)
    ensures
        launch_view(r) == match platform {
            Platform::Windows => ("taskkill"@, seq!["/F"@, "/IM"@, "openvpn.exe"@]),
            Platform::Unix => ("pkill"@, seq!["openvpn"@]),
        },
{
    match platform {
        Platform::Windows => launch("taskkill", args3("/F", "/IM", "openvpn.exe")),
        Platform::Unix => {
            let args = vec![String::from_str("openvpn")];
            assert(views(args@) =~= seq!["openvpn"@]);
            launch("pkill", args)
        },
    }
}

/// Lists the running OpenVPN processes.
pub fn openvpn_status(platform: Platform) -> (r: Launch)
    ensures
        launch_view(r) == match platform {
            Platform::Windows => ("tasklist"@, seq!["/FI"@, "IMAGENAME eq openvpn.exe"@]),
            Platform::Unix => ("pgrep"@, seq!["openvpn"@]),
        },
{
    match platform {
        Platform::Windows => launch("tasklist", args2("/FI", "IMAGENAME eq openvpn.exe")),
        Platform::Unix => {
            let args = vec![String::from_str("openvpn")];
            assert(views(args@) =~= seq!["openvpn"@]);
            launch("pgrep", args)
        },
    }
}

/// OpenVPN is running: on Windows the process list names `openvpn.exe`;
/// elsewhere `pgrep` succeeded.
pub open spec fn openvpn_is_running(platform: Platform, exit_ok: bool, output: Seq<char>) -> bool {
    match platform {
        Platform::Windows => seq_contains(output, "openvpn.exe"@),
        Platform::Unix => exit_ok,
    }
}

/// Reads the answer of [`openvpn_status`].
pub fn openvpn_running(platform: Platform, exit_ok: bool, output: &str) -> (r: bool)
    ensures
        r == openvpn_is_running(platform, exit_ok, output@),
{
    match platform {
        Platform::Windows => str_contains(output, "openvpn.exe"),
        Platform::Unix => exit_ok,
    }
}

/// The places where the WireGuard program is looked for on Windows, in order.
pub open spec fn wireguard_locations() -> Seq<Seq<char>> {
    seq![
        "C:\\Program Files\\WireGuard\\wireguard.exe"@,
        "C:\\Program Files (x86)\\WireGuard\\wireguard.exe"@,
    ]
}

/// The places where the WireGuard program is looked for on Windows, in order.
pub fn wireguard_candidates() -> (r: Vec<String>)
    ensures
        views(r@) == wireguard_locations(),
{
    args2("C:\\Program Files\\WireGuard\\wireguard.exe", "C:\\Program Files (x86)\\WireGuard\\wireguard.exe")
}

/// The WireGuard program to run on Windows: the first candidate location that
/// exists, else `wireguard` from the search path, else none.
pub fn wireguard_program(exists: &Vec<bool>, on_path: bool) -> (r: Option<String>)
    ensures
        r is Some <==> (exists@.len() > 0 && exists@[0]) || (exists@.len() > 1 && exists@[1]) || on_path,
        r is Some ==> r->Some_0@ == if exists@.len() > 0 && exists@[0] {
            wireguard_locations()[0]
        } else if exists@.len() > 1 && exists@[1] {
            wireguard_locations()[1]
        } else {
            "wireguard"@
        },
{
    if exists.len() > 0 && exists[0] {
        Some(String::from_str("C:\\Program Files\\WireGuard\\wireguard.exe"))
    } else if exists.len() > 1 && exists[1] {
        Some(String::from_str("C:\\Program Files (x86)\\WireGuard\\wireguard.exe"))
    } else if on_path {
        Some(String::from_str("wireguard"))
    } else {
        None
    }
}

/// Brings the tunnel of the configuration at `path` up: as a tunnel service
/// of `program` on Windows, with `sudo wg-quick up` elsewhere.
pub fn wireguard_up(platform: Platform, program: &str, path: &str) -> (r: Launch)
    ensures
        launch_view(r) == match platform {
            Platform::Windows => (program@, seq!["/installtunnelservice"@, path@]),
            Platform::Unix => ("sudo"@, seq!["wg-quick"@, "up"@, path@]),
        },
{
    match platform {
        Platform::Windows => launch(program, args2("/installtunnelservice", path)),
        Platform::Unix => launch("sudo", args3("wg-quick", "up", path)),
    }
}

/// Takes the tunnel down: the tunnel service named `interface` of `program`
/// on Windows, `sudo wg-quick down` on the configuration elsewhere.
pub fn wireguard_down(platform: Platform, program: &str, path: &str, interface: &str) -> (r: Launch)
    ensures
        launch_view(r) == match platform {
            Platform::Windows => (program@, seq!["/uninstalltunnelservice"@, interface@]),
            Platform::Unix => ("sudo"@, seq!["wg-quick"@, "down"@, path@]),
        },
{
    match platform {
        Platform::Windows => launch(program, args2("/uninstalltunnelservice", interface)),
        Platform::Unix => launch("sudo", args3("wg-quick", "down", path)),
    }
}

/// Asks for the state of the tunnel `interface`; it is up when this succeeds.
pub fn wireguard_status(interface: &str) -> (r: Launch)
    ensures
        launch_view(r) == ("wg"@, seq!["show"@, interface@]),
{
    launch("wg", args2("show", interface))
}

/// Lists the tunnels that are up.
pub fn wireguard_list() -> (r: Launch)
    ensures
        launch_view(r) == ("wg"@, seq!["show"@]),
{
    let args = vec![String::from_str("show")];
    assert(views(args@) =~= seq!["show"@]);
    launch("wg", args)
}

} // verus!
