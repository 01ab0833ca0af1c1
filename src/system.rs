//! The host system: its package manager, the tools this application needs,
//! and the commands that install them.
use vstd::prelude::*;
use crate::launch::{launch, launch_view, Launch};
use crate::monitor::Platform;
use crate::text::{
    char_views, chars_of, join_with, joined, lines, push_str, split_lines, starts_with, string_of, trim, trimmed,
    vec_starts_with, views,
};
use crate::wireguard::up_to;

verus! {

/// A package manager.
#[derive(Clone, Copy, Debug, PartialEq, Eq, Structural)]
pub enum PackageManager {
    Apt,
    Pacman,
    Dnf,
    Yum,
    Zypper,
    Chocolatey,
    Scoop,
    Winget,
    Unknown,
}

/// Why packages could not be installed.
#[derive(Clone, Copy, Debug, PartialEq, Eq, Structural)]
pub enum InstallError {
    UnknownPackageManager,
}

/// The package managers looked for on `platform`, in order of preference.
pub open spec fn manager_candidates(platform: Platform) -> Seq<PackageManager> {
    match platform {
        Platform::Windows => seq![PackageManager::Winget, PackageManager::Chocolatey, PackageManager::Scoop],
        Platform::Unix => seq![
            PackageManager::Apt,
            PackageManager::Pacman,
            PackageManager::Dnf,
            PackageManager::Yum,
            PackageManager::Zypper,
        ],
    }
}

/// The package managers looked for on `platform`, in order of preference.
pub fn package_manager_candidates(platform: Platform) -> (r: Vec<PackageManager>)
    ensures
        r@ == manager_candidates(platform),
{
    let r = match platform {
        Platform::Windows => vec![PackageManager::Winget, PackageManager::Chocolatey, PackageManager::Scoop],
        Platform::Unix => vec![
            PackageManager::Apt,
            PackageManager::Pacman,
            PackageManager::Dnf,
            PackageManager::Yum,
            PackageManager::Zypper,
        ],
    };
    assert(r@ =~= manager_candidates(platform));
    r
}

/// The program by which a package manager is found on the search path.
pub open spec fn manager_program(m: PackageManager) -> Seq<char> {
    match m {
        PackageManager::Apt => "apt"@,
        PackageManager::Pacman => "pacman"@,
        PackageManager::Dnf => "dnf"@,
        PackageManager::Yum => "yum"@,
        PackageManager::Zypper => "zypper"@,
        PackageManager::Chocolatey => "choco"@,
        PackageManager::Scoop => "scoop"@,
        PackageManager::Winget => "winget"@,
        PackageManager::Unknown => ""@,
    }
}

impl PackageManager {
    /// The program by which this package manager is found on the search path.
    pub fn program(&self) -> (r: &'static str)
        ensures
            r@ == manager_program(*self),
    {
        match self {
            PackageManager::Apt => "apt",
            PackageManager::Pacman => "pacman",
            PackageManager::Dnf => "dnf",
            PackageManager::Yum => "yum",
            PackageManager::Zypper => "zypper",
            PackageManager::Chocolatey => "choco",
            PackageManager::Scoop => "scoop",
            PackageManager::Winget => "winget",
            PackageManager::Unknown => "",
        }
    }
}

/// The first of `candidates` that is available, or `Unknown`.
pub open spec fn first_available(candidates: Seq<PackageManager>, available: Seq<bool>) -> PackageManager
    decreases candidates.len(),
{
    if candidates.len() == 0 || available.len() == 0 {
        PackageManager::Unknown
    } else if available[0] {
        candidates[0]
    } else {
        first_available(candidates.drop_first(), available.drop_first())
    }
}

/// The package manager of a host where `available[i]` tells whether the
/// `i`-th candidate of `platform` was found.
pub fn choose_package_manager(platform: Platform, available: &Vec<bool>) -> (r: PackageManager)
    ensures
        r == first_available(manager_candidates(platform), available@),
{
    let cands = package_manager_candidates(platform);
    let mut i: usize = 0;
    assert(cands@.subrange(0, cands@.len() as int) =~= cands@);
    assert(available@.subrange(0, available@.len() as int) =~= available@);
    while i < cands.len() && i < available.len()
        invariant
            i <= cands@.len(),
            i <= available@.len(),
            cands@ == manager_candidates(platform),
            first_available(cands@.subrange(i as int, cands@.len() as int), available@.subrange(i as int, available@.len() as int))
                == first_available(manager_candidates(platform), available@),
        decreases cands@.len() - i,
    {
        let ghost (c, a) = (cands@.subrange(i as int, cands@.len() as int), available@.subrange(i as int, available@.len() as int));
        assert(c.drop_first() =~= cands@.subrange(i + 1, cands@.len() as int));
        assert(a.drop_first() =~= available@.subrange(i + 1, available@.len() as int));
        if available[i] {
            return cands[i];
        }
        i = i + 1;
    }
    PackageManager::Unknown
}

/// The package that provides `default` under package manager `m`.
pub open spec fn package_for(default: Seq<char>, m: PackageManager) -> Seq<char> {
    if default == "openvpn"@ && m == PackageManager::Winget {
        "OpenVPN.OpenVPN"@
    } else if default == "wireguard"@ && m == PackageManager::Winget {
        "WireGuard.WireGuard"@
    } else if default == "freerdp"@ && m == PackageManager::Apt {
        "freerdp2-x11"@
    } else if default == "iputils-ping"@ && m == PackageManager::Pacman {
        "iputils"@
    } else {
        default
    }
}

fn text_eq(a: &str, b: &str) -> (r: bool)
    ensures
        r == (a@ == b@),
{
    String::from_str(a) == String::from_str(b)
}

/// The package that provides `default` under package manager `m`.
pub fn get_package_name(default: &str, m: PackageManager) -> (r: String)
    ensures
        r@ == package_for(default@, m),
{
    if text_eq(default, "openvpn") && m == PackageManager::Winget {
        String::from_str("OpenVPN.OpenVPN")
    } else if text_eq(default, "wireguard") && m == PackageManager::Winget {
        String::from_str("WireGuard.WireGuard")
    } else if text_eq(default, "freerdp") && m == PackageManager::Apt {
        String::from_str("freerdp2-x11")
    } else if text_eq(default, "iputils-ping") && m == PackageManager::Pacman {
        String::from_str("iputils")
    } else {
        String::from_str(default)
    }
}

/// A tool this application uses, and whether it is installed.
pub struct Dependency {
    pub name: String,
    pub binary_name: String,
    pub package_name: String,
    pub is_installed: bool,
    pub version: Option<String>,
    pub required: bool,
}

/// The tools this application uses on `platform`: display name, program,
/// package (before mapping to `m`'s names; none for tools that come with
/// Windows) and whether it is required.
pub open spec fn expected_tools(platform: Platform) -> Seq<(Seq<char>, Seq<char>, Option<Seq<char>>, bool)> {
    match platform {
        Platform::Windows => seq![
            ("OpenVPN"@, "openvpn"@, Some("openvpn"@), true),
            ("WireGuard"@, "wireguard"@, Some("wireguard"@), true),
            ("Remote Desktop"@, "mstsc"@, None, false),
            ("Ping"@, "ping"@, None, true),
        ],
        Platform::Unix => seq![
            ("OpenVPN"@, "openvpn"@, Some("openvpn"@), true),
            ("WireGuard"@, "wg"@, Some("wireguard-tools"@), true),
            ("FreeRDP"@, "xfreerdp"@, Some("freerdp"@), false),
            ("Remmina"@, "remmina"@, Some("remmina"@), false),
            ("Ping"@, "ping"@, Some("iputils-ping"@), true),
            ("Sudo"@, "sudo"@, Some("sudo"@), true),
        ],
    }
}

/// `d` describes the tool `t` under package manager `m`, not yet checked;
/// a tool that comes with Windows has the package name `builtin`.
pub open spec fn describes_tool(d: Dependency, t: (Seq<char>, Seq<char>, Option<Seq<char>>, bool), m: PackageManager) -> bool {
    &&& d.name@ == t.0
    &&& d.binary_name@ == t.1
    &&& d.package_name@ == match t.2 {
        Some(p) => package_for(p, m),
        None => "builtin"@,
    }
    &&& !d.is_installed
    &&& d.version is None
    &&& d.required == t.3
}

fn tool(name: &str, binary: &str, package: String, required: bool) -> (r: Dependency)
    ensures
        r.name@ == name@,
        r.binary_name@ == binary@,
        r.package_name == package,
        !r.is_installed,
        r.version is None,
        r.required == required,
{
    Dependency {
        name: String::from_str(name),
        binary_name: String::from_str(binary),
        package_name: package,
        is_installed: false,
        version: None,
        required,
    }
}

/// The tools this application uses on `platform`, not yet checked.
pub fn expected_dependencies(platform: Platform, m: PackageManager) -> (r: Vec<Dependency>)
    ensures
        r@.len() == expected_tools(platform).len(),
        forall|i: int| 0 <= i < r@.len() ==> describes_tool(#[trigger] r@[i], expected_tools(platform)[i], m),
{
    let r = match platform {
        Platform::Windows => vec![
            tool("OpenVPN", "openvpn", get_package_name("openvpn", m), true),
            tool("WireGuard", "wireguard", get_package_name("wireguard", m), true),
            tool("Remote Desktop", "mstsc", String::from_str("builtin"), false),
            tool("Ping", "ping", String::from_str("builtin"), true),
        ],
        Platform::Unix => vec![
            tool("OpenVPN", "openvpn", get_package_name("openvpn", m), true),
            tool("WireGuard", "wg", get_package_name("wireguard-tools", m), true),
            tool("FreeRDP", "xfreerdp", get_package_name("freerdp", m), false),
            tool("Remmina", "remmina", get_package_name("remmina", m), false),
            tool("Ping", "ping", get_package_name("iputils-ping", m), true),
            tool("Sudo", "sudo", get_package_name("sudo", m), true),
        ],
    };
    assert(forall|i: int| 0 <= i < r@.len() ==> describes_tool(#[trigger] r@[i], expected_tools(platform)[i], m)) by {
        match platform {
            Platform::Windows => {
                assert(describes_tool(r@[0], expected_tools(platform)[0], m));
                assert(describes_tool(r@[1], expected_tools(platform)[1], m));
                assert(describes_tool(r@[2], expected_tools(platform)[2], m));
                assert(describes_tool(r@[3], expected_tools(platform)[3], m));
            },
            Platform::Unix => {
                assert(describes_tool(r@[0], expected_tools(platform)[0], m));
                assert(describes_tool(r@[1], expected_tools(platform)[1], m));
                assert(describes_tool(r@[2], expected_tools(platform)[2], m));
                assert(describes_tool(r@[3], expected_tools(platform)[3], m));
                assert(describes_tool(r@[4], expected_tools(platform)[4], m));
                assert(describes_tool(r@[5], expected_tools(platform)[5], m));
            },
        }
    }
    r
}

/// What is known of the host system.
pub struct SystemInfo {
    pub distribution: String,
    pub package_manager: PackageManager,
    pub dependencies: Vec<Dependency>,
}

/// The positions, in order, of the dependencies that are missing, and, when
/// `required_only`, required.
pub open spec fn missing_positions(ds: Seq<Dependency>, required_only: bool) -> Seq<int>
    decreases ds.len(),
{
    if ds.len() == 0 {
        seq![]
    } else {
        let earlier = missing_positions(ds.drop_last(), required_only);
        if !ds.last().is_installed && (!required_only || ds.last().required) {
            earlier.push(ds.len() - 1)
        } else {
            earlier
        }
    }
}

impl SystemInfo {
    fn missing(&self, required_only: bool) -> (r: Vec<&Dependency>)
        ensures
            r@.len() == missing_positions(self.dependencies@, required_only).len(),
            forall|k: int| 0 <= k < r@.len()
                ==> *(#[trigger] r@[k]) == self.dependencies@[missing_positions(self.dependencies@, required_only)[k]],
    {
        let mut r: Vec<&Dependency> = Vec::new();
        let mut i: usize = 0;
        while i < self.dependencies.len()
            invariant
                i <= self.dependencies@.len(),
                r@.len() == missing_positions(self.dependencies@.subrange(0, i as int), required_only).len(),
                forall|k: int| 0 <= k < r@.len() ==> *(#[trigger] r@[k])
                    == self.dependencies@[missing_positions(self.dependencies@.subrange(0, i as int), required_only)[k]],
            decreases self.dependencies@.len() - i,
        {
            let ghost before = self.dependencies@.subrange(0, i as int);
            assert(self.dependencies@.subrange(0, i + 1).drop_last() =~= before);
            let d = &self.dependencies[i];
            if !d.is_installed && (!required_only || d.required) {
                r.push(d);
            }
            i = i + 1;
        }
        assert(self.dependencies@.subrange(0, self.dependencies@.len() as int) =~= self.dependencies@);
        r
    }

    /// The dependencies that are not installed, in order.
    pub fn get_missing_dependencies(&self) -> (r: Vec<&Dependency>)
        ensures
            r@.len() == missing_positions(self.dependencies@, false).len(),
            forall|k: int| 0 <= k < r@.len()
                ==> *(#[trigger] r@[k]) == self.dependencies@[missing_positions(self.dependencies@, false)[k]],
    {
        self.missing(false)
    }

    /// The required dependencies that are not installed, in order.
    pub fn get_required_missing_dependencies(&self) -> (r: Vec<&Dependency>)
        ensures
            r@.len() == missing_positions(self.dependencies@, true).len(),
            forall|k: int| 0 <= k < r@.len()
                ==> *(#[trigger] r@[k]) == self.dependencies@[missing_positions(self.dependencies@, true)[k]],
    {
        self.missing(true)
    }
}

/// The package that winget knows `p` by.
pub open spec fn winget_id(p: Seq<char>) -> Seq<char> {
    if p == "openvpn"@ {
        "OpenVPN.OpenVPN"@
    } else if p == "wireguard"@ {
        "WireGuard.WireGuard"@
    } else {
        p
    }
}

/// Where to get `p` by hand.
pub open spec fn manual_hint(p: Seq<char>) -> Seq<char> {
    if p == "openvpn"@ {
        "# OpenVPN: Download from https://openvpn.net/community-downloads/"@
    } else if p == "wireguard"@ {
        "# WireGuard: Download from https://www.wireguard.com/install/"@
    } else {
        "# "@ + p + ": Search for official installer"@
    }
}

/// The install advice on Windows without a detected package manager, where
/// `found` tells whether winget, choco and scoop are on the search path.
pub open spec fn windows_advice(packages: Seq<Seq<char>>, found: Seq<bool>) -> Seq<char> {
    if found.len() > 0 && found[0] {
        "winget install "@ + joined(packages.map_values(|p: Seq<char>| winget_id(p)), " "@)
    } else if found.len() > 1 && found[1] {
        "choco install -y "@ + joined(packages, " "@)
    } else if found.len() > 2 && found[2] {
        "scoop install "@ + joined(packages, " "@)
    } else {
        joined(
            seq!["# No package manager found. Manual installation required:"@]
                + packages.map_values(|p: Seq<char>| manual_hint(p)),
            "\n"@,
        )
    }
}

fn winget_name(p: &String) -> (r: String)
    ensures
        r@ == winget_id(p@),
{
    if text_eq(p.as_str(), "openvpn") {
        String::from_str("OpenVPN.OpenVPN")
    } else if text_eq(p.as_str(), "wireguard") {
        String::from_str("WireGuard.WireGuard")
    } else {
        p.clone()
    }
}

fn manual_line(p: &String) -> (r: String)
    ensures
        r@ == manual_hint(p@),
{
    if text_eq(p.as_str(), "openvpn") {
        String::from_str("# OpenVPN: Download from https://openvpn.net/community-downloads/")
    } else if text_eq(p.as_str(), "wireguard") {
        String::from_str("# WireGuard: Download from https://www.wireguard.com/install/")
    } else {
        let mut r = String::from_str("# ");
        push_str(&mut r, p.as_str());
        push_str(&mut r, ": Search for official installer");
        r
    }
}

fn advice_for_windows(packages: &Vec<String>, found: &Vec<bool>) -> (r: String)
    ensures
        r@ == windows_advice(views(packages@), found@),
{
    let ghost ps = views(packages@);
    if found.len() > 0 && found[0] {
        let mut ids: Vec<String> = Vec::new();
        let mut i: usize = 0;
        while i < packages.len()
            invariant
                i <= packages@.len(),
                ps == views(packages@),
                views(ids@) == ps.subrange(0, i as int).map_values(|p: Seq<char>| winget_id(p)),
            decreases packages@.len() - i,
        {
            let ghost before = views(ids@);
            let id = winget_name(&packages[i]);
            let ghost idv = id@;
            ids.push(id);
            assert(views(ids@) =~= before.push(idv));
            assert(ps.subrange(0, i + 1).map_values(|p: Seq<char>| winget_id(p))
                =~= ps.subrange(0, i as int).map_values(|p: Seq<char>| winget_id(p)).push(winget_id(ps[i as int])));
            i = i + 1;
        }
        assert(ps.subrange(0, ps.len() as int) =~= ps);
        let mut r = String::from_str("winget install ");
        push_str(&mut r, join_with(&ids, " ").as_str());
        r
    } else if found.len() > 1 && found[1] {
        let mut r = String::from_str("choco install -y ");
        push_str(&mut r, join_with(packages, " ").as_str());
        r
    } else if found.len() > 2 && found[2] {
        let mut r = String::from_str("scoop install ");
        push_str(&mut r, join_with(packages, " ").as_str());
        r
    } else {
        let mut ls: Vec<String> = vec![String::from_str("# No package manager found. Manual installation required:")];
        let ghost head = views(ls@);
        let mut i: usize = 0;
        while i < packages.len()
            invariant
                i <= packages@.len(),
                ps == views(packages@),
                head == seq!["# No package manager found. Manual installation required:"@],
                views(ls@) == head + ps.subrange(0, i as int).map_values(|p: Seq<char>| manual_hint(p)),
            decreases packages@.len() - i,
        {
            let ghost before = views(ls@);
            let line = manual_line(&packages[i]);
            let ghost lv = line@;
            ls.push(line);
            assert(views(ls@) =~= before.push(lv));
            assert(ps.subrange(0, i + 1).map_values(|p: Seq<char>| manual_hint(p))
                =~= ps.subrange(0, i as int).map_values(|p: Seq<char>| manual_hint(p)).push(manual_hint(ps[i as int])));
            i = i + 1;
        }
        assert(ps.subrange(0, ps.len() as int) =~= ps);
        join_with(&ls, "\n")
    }
}

/// The commands that install `packages`, as text for the user to run, on
/// `platform`; `found` is consulted on Windows without a detected manager.
pub open spec fn install_command_text(m: PackageManager, packages: Seq<Seq<char>>, platform: Platform, found: Seq<bool>) -> Seq<char> {
    let p = joined(packages, " "@);
    match m {
        PackageManager::Apt => "sudo apt install -y "@ + p,
        PackageManager::Pacman => "sudo pacman -S --noconfirm "@ + p,
        PackageManager::Dnf => "sudo dnf install -y "@ + p,
        PackageManager::Yum => "sudo yum install -y "@ + p,
        PackageManager::Zypper => "sudo zypper install -y "@ + p,
        PackageManager::Chocolatey => "choco install -y "@ + p,
        PackageManager::Scoop => "scoop install "@ + p,
        PackageManager::Winget => "winget install "@ + p,
        PackageManager::Unknown => match platform {
            Platform::Windows => windows_advice(packages, found),
            Platform::Unix => "No package manager detected. Please install packages manually."@,
        },
    }
}

/// A program followed by its install verb and the packages.
pub open spec fn one_call(program: Seq<char>, verb: Seq<Seq<char>>, packages: Seq<Seq<char>>) -> Seq<(Seq<char>, Seq<Seq<char>>)> {
    seq![(program, verb + packages)]
}

/// One call of `program` for each package, each with `verb` then the package
/// then `tail`.
pub open spec fn per_package(program: Seq<char>, verb: Seq<Seq<char>>, tail: Seq<Seq<char>>, packages: Seq<Seq<char>>) -> Seq<(Seq<char>, Seq<Seq<char>>)> {
    Seq::new(packages.len(), |i: int| (program, verb.push(packages[i]) + tail))
}

/// The program that installs packages with `m`.
pub open spec fn install_program(m: PackageManager) -> Seq<char> {
    match m {
        PackageManager::Chocolatey => "choco"@,
        PackageManager::Scoop => "scoop"@,
        PackageManager::Winget => "winget"@,
        _ => "sudo"@,
    }
}

/// The arguments before the packages when installing with `m`.
pub open spec fn install_verb(m: PackageManager) -> Seq<Seq<char>> {
    match m {
        PackageManager::Apt => seq!["apt"@, "install"@, "-y"@],
        PackageManager::Pacman => seq!["pacman"@, "-S"@, "--noconfirm"@],
        PackageManager::Dnf => seq!["dnf"@, "install"@, "-y"@],
        PackageManager::Yum => seq!["yum"@, "install"@, "-y"@],
        PackageManager::Zypper => seq!["zypper"@, "install"@, "-y"@],
        PackageManager::Chocolatey => seq!["install"@, "-y"@],
        PackageManager::Scoop => seq!["install"@],
        PackageManager::Winget => seq!["install"@, "--id"@],
        PackageManager::Unknown => seq![],
    }
}

/// The arguments after each package when installing with `m`.
pub open spec fn install_tail(m: PackageManager) -> Seq<Seq<char>> {
    match m {
        PackageManager::Winget => seq!["--silent"@, "--accept-source-agreements"@, "--accept-package-agreements"@],
        _ => seq![],
    }
}

/// The programs run, in order, to install `packages` with `m`: none for an
/// empty list; one call with all packages, or for `scoop` and `winget` one
/// call per package; no way for an unknown package manager.
pub open spec fn install_plan(m: PackageManager, packages: Seq<Seq<char>>) -> Option<Seq<(Seq<char>, Seq<Seq<char>>)>> {
    if packages.len() == 0 {
        Some(seq![])
    } else {
        match m {
            PackageManager::Unknown => None,
            PackageManager::Scoop | PackageManager::Winget => Some(per_package(install_program(m), install_verb(m), install_tail(m), packages)),
            _ => Some(one_call(install_program(m), install_verb(m), packages)),
        }
    }
}

fn install_verb_args(m: PackageManager) -> (r: Vec<String>)
    ensures
        views(r@) == install_verb(m),
{
    let r = match m {
        PackageManager::Apt => vec![String::from_str("apt"), String::from_str("install"), String::from_str("-y")],
        PackageManager::Pacman => vec![String::from_str("pacman"), String::from_str("-S"), String::from_str("--noconfirm")],
        PackageManager::Dnf => vec![String::from_str("dnf"), String::from_str("install"), String::from_str("-y")],
        PackageManager::Yum => vec![String::from_str("yum"), String::from_str("install"), String::from_str("-y")],
        PackageManager::Zypper => vec![String::from_str("zypper"), String::from_str("install"), String::from_str("-y")],
        PackageManager::Chocolatey => vec![String::from_str("install"), String::from_str("-y")],
        PackageManager::Scoop => vec![String::from_str("install")],
        PackageManager::Winget => vec![String::from_str("install"), String::from_str("--id")],
        PackageManager::Unknown => Vec::new(),
    };
    assert(views(r@) =~= install_verb(m));
    r
}

fn install_tail_args(m: PackageManager) -> (r: Vec<String>)
    ensures
        views(r@) == install_tail(m),
{
    let r = match m {
        PackageManager::Winget => vec![
            String::from_str("--silent"),
            String::from_str("--accept-source-agreements"),
            String::from_str("--accept-package-agreements"),
        ],
        _ => Vec::new(),
    };
    assert(views(r@) =~= install_tail(m));
    r
}

fn install_program_name(m: PackageManager) -> (r: &'static str)
    ensures
        r@ == install_program(m),
{
    match m {
        PackageManager::Chocolatey => "choco",
        PackageManager::Scoop => "scoop",
        PackageManager::Winget => "winget",
        _ => "sudo",
    }
}

fn strings_of(items: &[&str]) -> (r: Vec<String>)
    ensures
        views(r@) == items@.map_values(|s: &str| s@),
{
    let mut r: Vec<String> = Vec::new();
    let mut i: usize = 0;
    while i < items.len()
        invariant
            i <= items@.len(),
            views(r@) == items@.subrange(0, i as int).map_values(|s: &str| s@),
        decreases items@.len() - i,
    {
        let ghost before = views(r@);
        let s = String::from_str(items[i]);
        let ghost sv = s@;
        r.push(s);
        assert(views(r@) =~= before.push(sv));
        assert(items@.subrange(0, i + 1).map_values(|s: &str| s@)
            =~= items@.subrange(0, i as int).map_values(|s: &str| s@).push(items@[i as int]@));
        i = i + 1;
    }
    assert(items@.subrange(0, items@.len() as int) =~= items@);
    r
}

fn append_all(args: &mut Vec<String>, more: &Vec<String>)
    ensures
        views(final(args)@) == views(old(args)@) + views(more@),
{
    let mut i: usize = 0;
    while i < more.len()
        invariant
            i <= more@.len(),
            views(args@) == views(old(args)@) + views(more@).subrange(0, i as int),
        decreases more@.len() - i,
    {
        let ghost before = views(args@);
        args.push(more[i].clone());
        assert(views(args@) =~= before.push(more@[i as int]@));
        assert(views(more@).subrange(0, i + 1) =~= views(more@).subrange(0, i as int).push(more@[i as int]@));
        i = i + 1;
    }
    assert(views(more@).subrange(0, more@.len() as int) =~= views(more@));
}

fn single_call(program: &str, verb: Vec<String>, packages: &Vec<String>) -> (r: Vec<Launch>)
    ensures
        r@.map_values(|l: Launch| launch_view(l)) == one_call(program@, views(verb@), views(packages@)),
{
    let ghost v = views(verb@);
    let mut args = verb;
    append_all(&mut args, packages);
    let l = launch(program, args);
    let r = vec![l];
    assert(r@.map_values(|l: Launch| launch_view(l)) =~= one_call(program@, v, views(packages@)));
    r
}

fn calls_per_package(program: &str, verb: &Vec<String>, tail: &Vec<String>, packages: &Vec<String>) -> (r: Vec<Launch>)
    ensures
        r@.map_values(|l: Launch| launch_view(l)) == per_package(program@, views(verb@), views(tail@), views(packages@)),
{
    let ghost plan = per_package(program@, views(verb@), views(tail@), views(packages@));
    let mut r: Vec<Launch> = Vec::new();
    let mut i: usize = 0;
    while i < packages.len()
        invariant
            i <= packages@.len(),
            plan == per_package(program@, views(verb@), views(tail@), views(packages@)),
            r@.map_values(|l: Launch| launch_view(l)) == plan.subrange(0, i as int),
        decreases packages@.len() - i,
    {
        let mut args: Vec<String> = Vec::new();
        append_all(&mut args, verb);
        let ghost v = views(args@);
        args.push(packages[i].clone());
        assert(views(args@) =~= v.push(packages@[i as int]@));
        append_all(&mut args, tail);
        let l = launch(program, args);
        let ghost before = r@.map_values(|l: Launch| launch_view(l));
        let ghost lv = launch_view(l);
        r.push(l);
        assert(r@.map_values(|l: Launch| launch_view(l)) =~= before.push(lv));
        assert(plan.subrange(0, i + 1) =~= plan.subrange(0, i as int).push(plan[i as int]));
        i = i + 1;
    }
    assert(plan.subrange(0, packages@.len() as int) =~= plan);
    r
}

/// Installs packages with the host's package manager.
pub struct PackageInstaller {
    pub package_manager: PackageManager,
}

impl PackageInstaller {
    /// An installer for the package manager of `system_info`.
    pub fn new(system_info: &SystemInfo) -> (r: PackageInstaller)
        ensures
            r.package_manager == system_info.package_manager,
    {
        PackageInstaller { package_manager: system_info.package_manager }
    }

    /// The commands that install `packages`, for the user to run on
    /// `platform`; `found` tells whether winget, choco and scoop are on the
    /// search path, which matters on Windows without a detected manager.
    pub fn get_install_command(&self, packages: &Vec<String>, platform: Platform, found: &Vec<bool>) -> (r: String)
        ensures
            r@ == install_command_text(self.package_manager, views(packages@), platform, found@),
    {
        let p = join_with(packages, " ");
        let prefix = match self.package_manager {
            PackageManager::Apt => "sudo apt install -y ",
            PackageManager::Pacman => "sudo pacman -S --noconfirm ",
            PackageManager::Dnf => "sudo dnf install -y ",
            PackageManager::Yum => "sudo yum install -y ",
            PackageManager::Zypper => "sudo zypper install -y ",
            PackageManager::Chocolatey => "choco install -y ",
            PackageManager::Scoop => "scoop install ",
            PackageManager::Winget => "winget install ",
            PackageManager::Unknown => {
                return match platform {
                    Platform::Windows => advice_for_windows(packages, found),
                    Platform::Unix => String::from_str("No package manager detected. Please install packages manually."),
                };
            },
        };
        let mut r = String::from_str(prefix);
        push_str(&mut r, p.as_str());
        r
    }

    /// The programs to run, in order, to install `packages`.
    pub fn install_launches(&self, packages: &Vec<String>) -> (r: Result<Vec<Launch>, InstallError>)
        ensures
            r is Ok <==> install_plan(self.package_manager, views(packages@)) is Some,
            r is Err ==> r->Err_0 == InstallError::UnknownPackageManager,
            r is Ok ==> r->Ok_0@.map_values(|l: Launch| launch_view(l))
                == install_plan(self.package_manager, views(packages@))->Some_0,
    {
        if packages.len() == 0 {
            let r: Vec<Launch> = Vec::new();
            assert(r@.map_values(|l: Launch| launch_view(l)) =~= Seq::<(Seq<char>, Seq<Seq<char>>)>::empty());
            return Ok(r);
        }
        let m = self.package_manager;
        match m {
            PackageManager::Unknown => Err(InstallError::UnknownPackageManager),
            PackageManager::Scoop | PackageManager::Winget => {
                Ok(calls_per_package(install_program_name(m), &install_verb_args(m), &install_tail_args(m), packages))
            },
            _ => Ok(single_call(install_program_name(m), install_verb_args(m), packages)),
        }
    }

    /// The program that refreshes the package lists, if the package manager
    /// is known.
    pub fn cache_update_launch(&self) -> (r: Option<Launch>)
        ensures
            r is None <==> self.package_manager == PackageManager::Unknown,
            r is Some ==> launch_view(r->Some_0) == match self.package_manager {
                PackageManager::Apt => ("sudo"@, seq!["apt"@, "update"@]),
                PackageManager::Pacman => ("sudo"@, seq!["pacman"@, "-Sy"@]),
                PackageManager::Dnf => ("sudo"@, seq!["dnf"@, "check-update"@]),
                PackageManager::Yum => ("sudo"@, seq!["yum"@, "check-update"@]),
                PackageManager::Zypper => ("sudo"@, seq!["zypper"@, "refresh"@]),
                PackageManager::Chocolatey => ("choco"@, seq!["upgrade"@, "all"@, "-y"@]),
                PackageManager::Scoop => ("scoop"@, seq!["update"@]),
                PackageManager::Winget => ("winget"@, seq!["upgrade"@, "--all"@]),
                PackageManager::Unknown => (seq![], seq![]),
            },
    {
        let (program, args) = match self.package_manager {
            PackageManager::Apt => ("sudo", strings_of(&["apt", "update"])),
            PackageManager::Pacman => ("sudo", strings_of(&["pacman", "-Sy"])),
            PackageManager::Dnf => ("sudo", strings_of(&["dnf", "check-update"])),
            PackageManager::Yum => ("sudo", strings_of(&["yum", "check-update"])),
            PackageManager::Zypper => ("sudo", strings_of(&["zypper", "refresh"])),
            PackageManager::Chocolatey => ("choco", strings_of(&["upgrade", "all", "-y"])),
            PackageManager::Scoop => ("scoop", strings_of(&["update"])),
            PackageManager::Winget => ("winget", strings_of(&["upgrade", "--all"])),
            PackageManager::Unknown => {
                return None;
            },
        };
        let l = launch(program, args);
        proof {
            let v = launch_view(l);
            assert(v.1 =~= match self.package_manager {
                PackageManager::Apt => seq!["apt"@, "update"@],
                PackageManager::Pacman => seq!["pacman"@, "-Sy"@],
                PackageManager::Dnf => seq!["dnf"@, "check-update"@],
                PackageManager::Yum => seq!["yum"@, "check-update"@],
                PackageManager::Zypper => seq!["zypper"@, "refresh"@],
                PackageManager::Chocolatey => seq!["upgrade"@, "all"@, "-y"@],
                PackageManager::Scoop => seq!["update"@],
                PackageManager::Winget => seq!["upgrade"@, "--all"@],
                PackageManager::Unknown => seq![],
            });
        }
        Some(l)
    }

    /// Whether a package-list refresh succeeded: `dnf` and `yum` report
    /// available updates with exit code 100, which is a success too.
    pub fn cache_update_succeeded(&self, exit_ok: bool, exit_code: Option<i32>) -> (r: bool)
        ensures
            r == (exit_ok || ((self.package_manager == PackageManager::Dnf
                || self.package_manager == PackageManager::Yum) && exit_code == Some(100i32))),
    {
        exit_ok || ((self.package_manager == PackageManager::Dnf || self.package_manager == PackageManager::Yum)
            && exit_code == Some(100i32))
    }
}

/// `s` without its leading and trailing `"`.
pub open spec fn unquoted(s: Seq<char>) -> Seq<char>
    decreases s.len(),
{
    if s.len() > 0 && s[0] == '"' {
        unquoted(s.drop_first())
    } else if s.len() > 0 && s.last() == '"' {
        unquoted(s.drop_last())
    } else {
        s
    }
}

/// The distribution that `lsb_release -d` printed: the trimmed text after
/// `Description:`.
pub open spec fn lsb_distribution(output: Seq<char>) -> Option<Seq<char>> {
    if starts_with(output, "Description:"@) {
        Some(trim(output.subrange(12, output.len() as int)))
    } else {
        None
    }
}

/// The distribution that `/etc/os-release` names: the unquoted rest of its
/// first line that starts with `PRETTY_NAME=`.
pub open spec fn os_release_distribution(ls: Seq<Seq<char>>) -> Option<Seq<char>>
    decreases ls.len(),
{
    if ls.len() == 0 {
        None
    } else if starts_with(ls[0], "PRETTY_NAME="@) {
        Some(unquoted(ls[0].subrange(12, ls[0].len() as int)))
    } else {
        os_release_distribution(ls.drop_first())
    }
}

fn after(cs: &Vec<char>, n: usize) -> (r: Vec<char>)
    requires
        n <= cs@.len(),
    ensures
        r@ == cs@.subrange(n as int, cs@.len() as int),
{
    let mut r: Vec<char> = Vec::new();
    let mut k: usize = n;
    while k < cs.len()
        invariant
            n <= k <= cs@.len(),
            r@ == cs@.subrange(n as int, k as int),
        decreases cs@.len() - k,
    {
        r.push(cs[k]);
        assert(cs@.subrange(n as int, k + 1) =~= cs@.subrange(n as int, k as int).push(cs@[k as int]));
        k = k + 1;
    }
    r
}

fn strip_quotes(cs: &Vec<char>) -> (r: Vec<char>)
    ensures
        r@ == unquoted(cs@),
{
    let n = cs.len();
    let mut a: usize = 0;
    let mut b: usize = n;
    assert(cs@.subrange(0, n as int) =~= cs@);
    while a < b && (cs[a] == '"' || cs[b - 1] == '"')
        invariant
            n == cs@.len(),
            a <= b <= n,
            unquoted(cs@.subrange(a as int, b as int)) == unquoted(cs@),
        decreases b - a,
    {
        let ghost part = cs@.subrange(a as int, b as int);
        if cs[a] == '"' {
            assert(part.drop_first() =~= cs@.subrange(a + 1, b as int));
            a = a + 1;
        } else {
            assert(part.drop_last() =~= cs@.subrange(a as int, b - 1));
            b = b - 1;
        }
    }
    let mut r: Vec<char> = Vec::new();
    let mut k: usize = a;
    while k < b
        invariant
            n == cs@.len(),
            a <= k <= b <= n,
            r@ == cs@.subrange(a as int, k as int),
        decreases b - k,
    {
        r.push(cs[k]);
        assert(cs@.subrange(a as int, k + 1) =~= cs@.subrange(a as int, k as int).push(cs@[k as int]));
        k = k + 1;
    }
    r
}

/// The distribution's name: from `lsb_release -d` output when it gives one,
/// else from `/etc/os-release` content, else `Unknown Linux`.
pub fn distribution_name(lsb_output: Option<&str>, os_release: Option<&str>) -> (r: String)
    ensures
        r@ == match (match lsb_output { Some(o) => lsb_distribution(o@), None => None }) {
            Some(d) => d,
            None => match (match os_release { Some(c) => os_release_distribution(lines(c@)), None => None }) {
                Some(d) => d,
                None => "Unknown Linux"@,
            },
        },
{
    proof {
        reveal_strlit("Description:");
        reveal_strlit("PRETTY_NAME=");
    }
    if let Some(out) = lsb_output {
        let cs = chars_of(out);
        if vec_starts_with(&cs, "Description:") {
            return string_of(&trimmed(&after(&cs, 12)));
        }
    }
    if let Some(content) = os_release {
        let ls = split_lines(&chars_of(content));
        let ghost all = char_views(ls@);
        let mut i: usize = 0;
        assert(all.subrange(0, all.len() as int) =~= all);
        while i < ls.len()
            invariant
                i <= ls@.len(),
                all == char_views(ls@),
                all == lines(content@),
                "PRETTY_NAME="@.len() == 12,
                (match lsb_output { Some(o) => lsb_distribution(o@), None => None }) is None,
                os_release == Some(content),
                os_release_distribution(all.subrange(i as int, all.len() as int)) == os_release_distribution(all),
            decreases ls@.len() - i,
        {
            let ghost rest = all.subrange(i as int, all.len() as int);
            assert(rest.drop_first() =~= all.subrange(i + 1, all.len() as int));
            assert(rest[0] == ls@[i as int]@);
            if vec_starts_with(&ls[i], "PRETTY_NAME=") {
                return string_of(&strip_quotes(&after(&ls[i], 12)));
            }
            i = i + 1;
        }
    }
    String::from_str("Unknown Linux")
}

/// The name of a Windows release: the product name (`Windows` when unknown),
/// followed by the display version when there is one.
pub fn windows_version_name(product: Option<String>, display_version: Option<String>) -> (r: String)
    ensures
        r@ == ({
            let p = match product { Some(p) => p@, None => "Windows"@ };
            let d = match display_version { Some(d) => d@, None => seq![] };
            if d.len() == 0 { p } else { p + " "@ + d }
        }),
{
    let mut r = match product {
        Some(p) => p,
        None => String::from_str("Windows"),
    };
    if let Some(d) = display_version {
        if d.as_str().unicode_len() > 0 {
            push_str(&mut r, " ");
            push_str(&mut r, d.as_str());
        }
    }
    r
}

/// How the version of a tool is found.
pub enum VersionSource {
    /// The version is known without asking.
    Fixed(String),
    /// Run this and read its output.
    Run(Launch),
    /// The version of this tool is not asked for.
    Unknown,
}

/// The version query of `binary` on `platform`: `--version` of the VPN and
/// RDP tools (WireGuard's program is `wireguard` on Windows, `wg` elsewhere),
/// `ping /?`, and a fixed answer for the Windows RDP client.
pub open spec fn version_query(platform: Platform, binary: Seq<char>) -> Option<(Seq<char>, Seq<Seq<char>>)> {
    if binary == "openvpn"@ || binary == "xfreerdp"@ || binary == "remmina"@ {
        Some((binary, seq!["--version"@]))
    } else if binary == "wg"@ || binary == "wireguard"@ {
        Some((match platform { Platform::Windows => "wireguard"@, Platform::Unix => "wg"@ }, seq!["--version"@]))
    } else if binary == "ping"@ {
        Some(("ping"@, seq!["/?"@]))
    } else {
        None
    }
}

/// How the version of `binary` is found on `platform`.
pub fn version_source(platform: Platform, binary: &str) -> (r: VersionSource)
    ensures
        binary@ == "mstsc"@ && platform == Platform::Windows
            ==> (r matches VersionSource::Fixed(v) && v@ == "Built-in Windows RDP Client"@),
        !(binary@ == "mstsc"@ && platform == Platform::Windows) ==> match version_query(platform, binary@) {
            Some(q) => r matches VersionSource::Run(l) && launch_view(l) == q,
            None => r is Unknown,
        },
{
    if text_eq(binary, "mstsc") && platform == Platform::Windows {
        return VersionSource::Fixed(String::from_str("Built-in Windows RDP Client"));
    }
    let (program, flag) = if text_eq(binary, "openvpn") || text_eq(binary, "xfreerdp") || text_eq(binary, "remmina") {
        (String::from_str(binary), "--version")
    } else if text_eq(binary, "wg") || text_eq(binary, "wireguard") {
        let p = match platform {
            Platform::Windows => String::from_str("wireguard"),
            Platform::Unix => String::from_str("wg"),
        };
        (p, "--version")
    } else if text_eq(binary, "ping") {
        (String::from_str("ping"), "/?")
    } else {
        return VersionSource::Unknown;
    };
    let args = vec![String::from_str(flag)];
    assert(views(args@) =~= seq![flag@]);
    VersionSource::Run(Launch { program, args })
}

/// The first line of `s`, without its line break; none for empty text.
pub open spec fn first_line(s: Seq<char>) -> Option<Seq<char>> {
    if s.len() == 0 {
        None
    } else {
        let l = up_to(s, '\n');
        if l.len() < s.len() && l.len() > 0 && l.last() == '\r' { Some(l.drop_last()) } else { Some(l) }
    }
}

/// The version that `binary` reported: the trimmed output for WireGuard,
/// the first line of it for the other tools.
pub open spec fn reported_version(binary: Seq<char>, output: Seq<char>) -> Option<Seq<char>> {
    if binary == "wg"@ || binary == "wireguard"@ {
        Some(trim(output))
    } else {
        first_line(output)
    }
}

/// Reads the version that `binary` reported.
pub fn version_from_output(binary: &str, output: &str) -> (r: Option<String>)
    ensures
        r is Some <==> reported_version(binary@, output@) is Some,
        r is Some ==> r->Some_0@ == reported_version(binary@, output@)->Some_0,
{
    let cs = chars_of(output);
    if text_eq(binary, "wg") || text_eq(binary, "wireguard") {
        return Some(string_of(&trimmed(&cs)));
    }
    if cs.len() == 0 {
        return None;
    }
    let n = cs.len();
    let mut line: Vec<char> = Vec::new();
    let mut i: usize = 0;
    assert(cs@.subrange(0, n as int) =~= cs@);
    assert(line@ + up_to(cs@, '\n') =~= up_to(cs@, '\n'));
    while i < n && cs[i] != '\n'
        invariant
            n == cs@.len(),
            i <= n,
            line@.len() == i,
            line@ + up_to(cs@.subrange(i as int, n as int), '\n') == up_to(cs@, '\n'),
        decreases n - i,
    {
        let ghost rest = cs@.subrange(i as int, n as int);
        assert(rest.drop_first() =~= cs@.subrange(i + 1, n as int));
        line.push(cs[i]);
        assert(line@ + up_to(cs@.subrange(i + 1, n as int), '\n')
            =~= line@.drop_last() + up_to(rest, '\n'));
        i = i + 1;
    }
    assert(line@ + up_to(cs@.subrange(i as int, n as int), '\n') =~= line@);
    assert(line@.len() == i);
    if i < n && line.len() > 0 && line[line.len() - 1] == '\r' {
        line.pop();
    }
    Some(string_of(&line))
}

} // verus!
