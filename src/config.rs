//! Stored connection settings: VPN profiles, RDP hosts and Wake-on-LAN devices.
use vstd::prelude::*;
use crate::text::{chars_of, ends_with};

verus! {

/// The tunnel software a VPN profile is for.
#[derive(Clone, Copy, Debug, PartialEq, Eq, Structural)]
pub enum VpnType {
    OpenVpn,
    WireGuard,
}

impl Default for VpnType {
    fn default() -> (r: VpnType)
        ensures
            r == VpnType::OpenVpn,
    {
        VpnType::OpenVpn
    }
}

/// A stored VPN profile.
#[derive(Clone, Debug)]
pub struct VpnConfig {
    pub name: String,
    pub config_path: String,
    pub username: String,
    pub password: String,
    pub auto_connect: bool,
    pub vpn_type: VpnType,
}

/// A stored remote-desktop host.
#[derive(Clone, Debug)]
pub struct RdpConfig {
    pub name: String,
    pub host: String,
    pub port: u16,
    pub username: String,
    pub password: String,
    pub domain: Option<String>,
}

/// A stored Wake-on-LAN device.
#[derive(Clone, Debug)]
pub struct WolDevice {
    pub name: String,
    pub mac_address: String,
    pub ip_address: String,
    pub port: u16,
}

/// Two devices hold the same values.
pub open spec fn same_device(a: WolDevice, b: WolDevice) -> bool {
    &&& a.name@ == b.name@
    &&& a.mac_address@ == b.mac_address@
    &&& a.ip_address@ == b.ip_address@
    &&& a.port == b.port
}

impl WolDevice {
    /// A copy of this device.
    pub fn duplicate(&self) -> (r: WolDevice)
        ensures
            same_device(r, *self),
    {
        WolDevice {
            name: self.name.clone(),
            mac_address: self.mac_address.clone(),
            ip_address: self.ip_address.clone(),
            port: self.port,
        }
    }
}

/// All stored settings.
#[derive(Clone, Debug)]
pub struct Config {
    pub vpn_configs: Vec<VpnConfig>,
    pub rdp_configs: Vec<RdpConfig>,
    pub wol_devices: Vec<WolDevice>,
    pub dark_mode: bool,
    pub auto_connect_vpn: bool,
}

impl Default for Config {
    /// No profiles, hosts or devices; dark mode on; no automatic VPN.
    fn default() -> (r: Config)
        ensures
            r.vpn_configs@.len() == 0,
            r.rdp_configs@.len() == 0,
            r.wol_devices@.len() == 0,
            r.dark_mode,
            !r.auto_connect_vpn,
    {
        Config {
            vpn_configs: Vec::new(),
            rdp_configs: Vec::new(),
            wol_devices: Vec::new(),
            dark_mode: true,
            auto_connect_vpn: false,
        }
    }
}

/// Whether `s` ends with `t`.
pub fn str_ends_with(s: &str, t: &str) -> (r: bool)
    ensures
        r == ends_with(s@, t@),
{
    let a = chars_of(s);
    let b = chars_of(t);
    if b.len() > a.len() {
        return false;
    }
    let alen = a.len();
    let off = alen - b.len();
    let mut i: usize = 0;
    while i < b.len()
        invariant
            a@ == s@,
            b@ == t@,
            alen == a@.len(),
            off + b@.len() == a@.len(),
            i <= b@.len(),
            forall|k: int| 0 <= k < i ==> a@[off + k] == b@[k],
        decreases b@.len() - i,
    {
        let (x, y) = (a[off + i], b[i]);
        if x != y {
            assert(a@[off + i] != b@[i as int]);
            assert(a@.subrange(off as int, a@.len() as int)[i as int] == a@[off + i]);
            assert(a@.subrange(off as int, a@.len() as int) != b@);
            return false;
        }
        i = i + 1;
    }
    assert(a@.subrange(off as int, a@.len() as int) =~= b@);
    true
}

/// The tunnel type that a profile's file name implies: `.ovpn` files are
/// OpenVPN, `.conf` files WireGuard, and any other keeps `current`.
pub open spec fn implied_vpn_type(path: Seq<char>, current: VpnType) -> VpnType {
    if ends_with(path, ".ovpn"@) {
        VpnType::OpenVpn
    } else if ends_with(path, ".conf"@) {
        VpnType::WireGuard
    } else {
        current
    }
}

/// The tunnel type that a profile's file name implies.
pub fn vpn_type_for_path(path: &str, current: VpnType) -> (r: VpnType)
    ensures
        r == implied_vpn_type(path@, current),
{
    if str_ends_with(path, ".ovpn") {
        VpnType::OpenVpn
    } else if str_ends_with(path, ".conf") {
        VpnType::WireGuard
    } else {
        current
    }
}

impl Config {
    /// Sets each VPN profile's type from its file name, as loaded settings
    /// written before the type was stored need.
    pub fn normalize_vpn_types(&mut self)
        ensures
            final(self).vpn_configs@.len() == old(self).vpn_configs@.len(),
            forall|i: int| 0 <= i < old(self).vpn_configs@.len() ==> {
                let (a, b) = (old(self).vpn_configs@[i], #[trigger] final(self).vpn_configs@[i]);
                &&& b.vpn_type == implied_vpn_type(a.config_path@, a.vpn_type)
                &&& b.name == a.name
                &&& b.config_path == a.config_path
                &&& b.username == a.username
                &&& b.password == a.password
                &&& b.auto_connect == a.auto_connect
            },
            final(self).rdp_configs == old(self).rdp_configs,
            final(self).wol_devices == old(self).wol_devices,
            final(self).dark_mode == old(self).dark_mode,
            final(self).auto_connect_vpn == old(self).auto_connect_vpn,
    {
        let mut i: usize = 0;
        while i < self.vpn_configs.len()
            invariant
                i <= self.vpn_configs@.len(),
                self.vpn_configs@.len() == old(self).vpn_configs@.len(),
                forall|k: int| 0 <= k < old(self).vpn_configs@.len() ==> {
                    let (a, b) = (old(self).vpn_configs@[k], #[trigger] self.vpn_configs@[k]);
                    &&& b.vpn_type == if k < i { implied_vpn_type(a.config_path@, a.vpn_type) } else { a.vpn_type }
                    &&& b.name == a.name
                    &&& b.config_path == a.config_path
                    &&& b.username == a.username
                    &&& b.password == a.password
                    &&& b.auto_connect == a.auto_connect
                },
                self.rdp_configs == old(self).rdp_configs,
                self.wol_devices == old(self).wol_devices,
                self.dark_mode == old(self).dark_mode,
                self.auto_connect_vpn == old(self).auto_connect_vpn,
            decreases old(self).vpn_configs@.len() - i,
        {
            let t = vpn_type_for_path(self.vpn_configs[i].config_path.as_str(), self.vpn_configs[i].vpn_type);
            self.vpn_configs[i].vpn_type = t;
            i = i + 1;
        }
    }
}

} // verus!
