//! Connection bookkeeping: the VPN state, RDP sessions and the last known
//! status of each Wake-on-LAN device.
use vstd::prelude::*;
use crate::config::{same_device, RdpConfig, WolDevice};

verus! {

/// The state of the VPN tunnel.
pub enum VpnStatus {
    Disconnected,
    Connecting,
    Connected(String),
    Error(String),
}

/// The state of an RDP session.
pub enum ConnectionStatus {
    Disconnected,
    Connecting,
    Connected,
    Error(String),
}

/// An RDP host and its session state.
pub struct RdpConnection {
    pub config: RdpConfig,
    pub status: ConnectionStatus,
}

/// The last known status of a Wake-on-LAN device; `last_checked_ms` is the
/// time of the last check on the caller's millisecond clock.
pub struct WolDeviceStatus {
    pub device: WolDevice,
    pub is_online: bool,
    pub last_checked_ms: u64,
}

/// How far back a newly tracked device's last check is set, so that the
/// next round of checks includes it.
pub const RECHECK_BACKDATE_MS: u64 = 60_000;

/// How long a full status check stays current.
pub const STATUS_INTERVAL_MS: u64 = 30_000;

/// How long a quick status check stays current.
pub const QUICK_INTERVAL_MS: u64 = 10_000;

/// Two statuses hold the same values.
pub open spec fn same_status(a: WolDeviceStatus, b: WolDeviceStatus) -> bool {
    &&& same_device(a.device, b.device)
    &&& a.is_online == b.is_online
    &&& a.last_checked_ms == b.last_checked_ms
}

/// The time a newly tracked device is taken to have been checked last.
pub open spec fn backdated(now_ms: u64) -> u64 {
    if now_ms >= RECHECK_BACKDATE_MS { (now_ms - RECHECK_BACKDATE_MS) as u64 } else { 0 }
}

/// `st` is the fresh status of `d`: offline, due for a check.
pub open spec fn fresh_status_of(st: WolDeviceStatus, d: WolDevice, now_ms: u64) -> bool {
    &&& same_device(st.device, d)
    &&& !st.is_online
    &&& st.last_checked_ms == backdated(now_ms)
}

impl WolDeviceStatus {
    /// The status of a device that has not been checked yet.
    pub fn fresh(device: &WolDevice, now_ms: u64) -> (r: WolDeviceStatus)
        ensures
            fresh_status_of(r, *device, now_ms),
    {
        WolDeviceStatus {
            device: device.duplicate(),
            is_online: false,
            last_checked_ms: now_ms.saturating_sub(RECHECK_BACKDATE_MS),
        }
    }

    /// A copy of this status.
    pub fn duplicate(&self) -> (r: WolDeviceStatus)
        ensures
            same_status(r, *self),
    {
        WolDeviceStatus {
            device: self.device.duplicate(),
            is_online: self.is_online,
            last_checked_ms: self.last_checked_ms,
        }
    }
}

/// The names of a list of devices.
pub open spec fn device_names(ds: Seq<WolDevice>) -> Seq<Seq<char>> {
    ds.map_values(|d: WolDevice| d.name@)
}

/// The device names of a list of statuses.
pub open spec fn status_names(ss: Seq<WolDeviceStatus>) -> Seq<Seq<char>> {
    ss.map_values(|s: WolDeviceStatus| s.device.name@)
}

/// The statuses among `ss` whose device name is among `names`, in order.
pub open spec fn retained(ss: Seq<WolDeviceStatus>, names: Seq<Seq<char>>) -> Seq<WolDeviceStatus>
    decreases ss.len(),
{
    if ss.len() == 0 {
        seq![]
    } else {
        let earlier = retained(ss.drop_last(), names);
        if names.contains(ss.last().device.name@) { earlier.push(ss.last()) } else { earlier }
    }
}

/// The devices among `ds`, in order, whose name is neither among `known`
/// nor taken by an earlier device of `ds`.
pub open spec fn added(known: Seq<Seq<char>>, ds: Seq<WolDevice>) -> Seq<WolDevice>
    decreases ds.len(),
{
    if ds.len() == 0 {
        seq![]
    } else {
        let earlier = added(known, ds.drop_last());
        if (known + device_names(earlier)).contains(ds.last().name@) {
            earlier
        } else {
            earlier.push(ds.last())
        }
    }
}

/// A check taken at `last_ms` is older than `interval_ms` at `now_ms`.
pub open spec fn is_due(last_ms: u64, now_ms: u64, interval_ms: u64) -> bool {
    now_ms - last_ms > interval_ms
}

/// The positions, in order, of the statuses among `ss` that are due.
pub open spec fn due_positions(ss: Seq<WolDeviceStatus>, now_ms: u64, interval_ms: u64) -> Seq<int>
    decreases ss.len(),
{
    if ss.len() == 0 {
        seq![]
    } else {
        let earlier = due_positions(ss.drop_last(), now_ms, interval_ms);
        if is_due(ss.last().last_checked_ms, now_ms, interval_ms) {
            earlier.push(ss.len() - 1)
        } else {
            earlier
        }
    }
}

/// The first position among `ss` whose device is named `name`.
pub open spec fn first_named(ss: Seq<WolDeviceStatus>, name: Seq<char>) -> Option<int> {
    if exists|i: int| 0 <= i < ss.len() && ss[i].device.name@ == name {
        let i = choose|i: int| 0 <= i < ss.len() && ss[i].device.name@ == name
            && forall|j: int| 0 <= j < i ==> ss[j].device.name@ != name;
        Some(i)
    } else {
        None
    }
}

fn names_contain(names: &Vec<String>, name: &String) -> (r: bool)
    ensures
        r == names@.map_values(|s: String| s@).contains(name@),
{
    let ghost views = names@.map_values(|s: String| s@);
    let mut i: usize = 0;
    while i < names.len()
        invariant
            i <= names@.len(),
            views == names@.map_values(|s: String| s@),
            forall|k: int| 0 <= k < i ==> views[k] != name@,
        decreases names@.len() - i,
    {
        if names[i] == *name {
            assert(views[i as int] == name@);
            return true;
        }
        i = i + 1;
    }
    false
}

/// The last known status of the connections this manager tracks.
pub struct NetworkManager {
    pub vpn_status: VpnStatus,
    pub rdp_connections: Vec<RdpConnection>,
    pub wol_devices: Vec<WolDeviceStatus>,
}

impl NetworkManager {
    /// A manager with the VPN disconnected and nothing tracked.
    pub fn new() -> (r: NetworkManager)
        ensures
            r.vpn_status is Disconnected,
            r.rdp_connections@.len() == 0,
            r.wol_devices@.len() == 0,
    {
        NetworkManager { vpn_status: VpnStatus::Disconnected, rdp_connections: Vec::new(), wol_devices: Vec::new() }
    }

    /// Tracks exactly `devices`, each offline and due for a check.
    pub fn track_devices(&mut self, devices: &Vec<WolDevice>, now_ms: u64)
        ensures
            final(self).wol_devices@.len() == devices@.len(),
            forall|i: int| 0 <= i < devices@.len()
                ==> fresh_status_of(#[trigger] final(self).wol_devices@[i], devices@[i], now_ms),
            final(self).vpn_status == old(self).vpn_status,
            final(self).rdp_connections == old(self).rdp_connections,
    {
        let mut list: Vec<WolDeviceStatus> = Vec::new();
        let mut i: usize = 0;
        while i < devices.len()
            invariant
                i <= devices@.len(),
                list@.len() == i,
                forall|k: int| 0 <= k < i ==> fresh_status_of(#[trigger] list@[k], devices@[k], now_ms),
            decreases devices@.len() - i,
        {
            list.push(WolDeviceStatus::fresh(&devices[i], now_ms));
            i = i + 1;
        }
        self.wol_devices = list;
    }

    /// Brings the tracked devices in line with `config_devices`: statuses of
    /// devices no longer configured are dropped, the others are kept as they
    /// are and in order, and each configured device not yet tracked (by name)
    /// is appended, offline and due for a check.
    pub fn sync_wol_devices(&mut self, config_devices: &Vec<WolDevice>, now_ms: u64)
        ensures
            ({
                let kept = retained(old(self).wol_devices@, device_names(config_devices@));
                let new = added(status_names(kept), config_devices@);
                &&& final(self).wol_devices@.len() == kept.len() + new.len()
                &&& forall|i: int| 0 <= i < kept.len() ==> same_status(#[trigger] final(self).wol_devices@[i], kept[i])
                &&& forall|i: int| 0 <= i < new.len()
                    ==> fresh_status_of(#[trigger] final(self).wol_devices@[kept.len() + i], new[i], now_ms)
            }),
            final(self).vpn_status == old(self).vpn_status,
            final(self).rdp_connections == old(self).rdp_connections,
    {
        let ghost cfg_names = device_names(config_devices@);
        let mut cfg: Vec<String> = Vec::new();
        let mut j: usize = 0;
        while j < config_devices.len()
            invariant
                j <= config_devices@.len(),
                cfg@.len() == j,
                forall|k: int| 0 <= k < j ==> (#[trigger] cfg@[k])@ == config_devices@[k].name@,
            decreases config_devices@.len() - j,
        {
            cfg.push(config_devices[j].name.clone());
            j = j + 1;
        }
        assert(cfg@.map_values(|s: String| s@) =~= cfg_names);

        let ghost old_list = self.wol_devices@;
        let mut list: Vec<WolDeviceStatus> = Vec::new();
        let mut names: Vec<String> = Vec::new();
        let mut i: usize = 0;
        while i < self.wol_devices.len()
            invariant
                i <= old_list.len(),
                self.wol_devices@ == old_list,
                cfg@.map_values(|s: String| s@) == cfg_names,
                list@.len() == retained(old_list.subrange(0, i as int), cfg_names).len(),
                forall|k: int| 0 <= k < list@.len()
                    ==> same_status(#[trigger] list@[k], retained(old_list.subrange(0, i as int), cfg_names)[k]),
                names@.map_values(|s: String| s@) == status_names(list@),
            decreases old_list.len() - i,
        {
            let ghost before = old_list.subrange(0, i as int);
            assert(old_list.subrange(0, i + 1).drop_last() =~= before);
            if names_contain(&cfg, &self.wol_devices[i].device.name) {
                let st = self.wol_devices[i].duplicate();
                let ghost (prev_names, prev_list) = (names@.map_values(|s: String| s@), list@);
                let ghost name = st.device.name@;
                names.push(st.device.name.clone());
                list.push(st);
                assert(names@.map_values(|s: String| s@) =~= prev_names.push(name));
                assert(status_names(list@) =~= status_names(prev_list).push(name));
            }
            i = i + 1;
        }
        assert(old_list.subrange(0, old_list.len() as int) =~= old_list);
        let ghost kept = retained(old_list, cfg_names);
        let ghost kept_len = list@.len();
        assert(status_names(list@) =~= status_names(kept));

        let mut c: usize = 0;
        while c < config_devices.len()
            invariant
                c <= config_devices@.len(),
                kept_len == kept.len(),
                list@.len() == kept.len() + added(status_names(kept), config_devices@.subrange(0, c as int)).len(),
                forall|k: int| 0 <= k < kept.len() ==> same_status(#[trigger] list@[k], kept[k]),
                forall|k: int| 0 <= k < added(status_names(kept), config_devices@.subrange(0, c as int)).len()
                    ==> fresh_status_of(
                        #[trigger] list@[kept.len() + k],
                        added(status_names(kept), config_devices@.subrange(0, c as int))[k],
                        now_ms,
                    ),
                names@.map_values(|s: String| s@) == status_names(kept)
                    + device_names(added(status_names(kept), config_devices@.subrange(0, c as int))),
            decreases config_devices@.len() - c,
        {
            let ghost before = config_devices@.subrange(0, c as int);
            let ghost after = config_devices@.subrange(0, c + 1);
            assert(after.drop_last() =~= before);
            assert(after.last() == config_devices@[c as int]);
            if !names_contain(&names, &config_devices[c].name) {
                let st = WolDeviceStatus::fresh(&config_devices[c], now_ms);
                let ghost prev_names = names@.map_values(|s: String| s@);
                names.push(config_devices[c].name.clone());
                list.push(st);
                assert(device_names(added(status_names(kept), after))
                    =~= device_names(added(status_names(kept), before)).push(config_devices@[c as int].name@));
                assert(names@.map_values(|s: String| s@) =~= prev_names.push(config_devices@[c as int].name@));
            }
            c = c + 1;
        }
        assert(config_devices@.subrange(0, config_devices@.len() as int) =~= config_devices@);
        self.wol_devices = list;
    }

    /// The positions, in order, of the tracked devices whose last check is
    /// older than `interval_ms` at `now_ms`.
    pub fn devices_due(&self, now_ms: u64, interval_ms: u64) -> (r: Vec<usize>)
        ensures
            r@.len() == due_positions(self.wol_devices@, now_ms, interval_ms).len(),
            forall|k: int| 0 <= k < r@.len()
                ==> #[trigger] r@[k] as int == due_positions(self.wol_devices@, now_ms, interval_ms)[k],
    {
        let mut r: Vec<usize> = Vec::new();
        let mut i: usize = 0;
        while i < self.wol_devices.len()
            invariant
                i <= self.wol_devices@.len(),
                r@.len() == due_positions(self.wol_devices@.subrange(0, i as int), now_ms, interval_ms).len(),
                forall|k: int| 0 <= k < r@.len() ==> #[trigger] r@[k] as int
                    == due_positions(self.wol_devices@.subrange(0, i as int), now_ms, interval_ms)[k],
            decreases self.wol_devices@.len() - i,
        {
            let ghost before = self.wol_devices@.subrange(0, i as int);
            assert(self.wol_devices@.subrange(0, i + 1).drop_last() =~= before);
            let last = self.wol_devices[i].last_checked_ms;
            if now_ms >= last && now_ms - last > interval_ms {
                r.push(i);
            }
            i = i + 1;
        }
        assert(self.wol_devices@.subrange(0, self.wol_devices@.len() as int) =~= self.wol_devices@);
        r
    }

    /// Records the result of a check of the device at `index`, taken at `now_ms`.
    pub fn record_check(&mut self, index: usize, is_online: bool, now_ms: u64)
        ensures
            final(self).wol_devices@.len() == old(self).wol_devices@.len(),
            forall|i: int| 0 <= i < old(self).wol_devices@.len() && i != index
                ==> #[trigger] final(self).wol_devices@[i] == old(self).wol_devices@[i],
            index < old(self).wol_devices@.len() ==> {
                let (a, b) = (old(self).wol_devices@[index as int], final(self).wol_devices@[index as int]);
                &&& b.device == a.device
                &&& b.is_online == is_online
                &&& b.last_checked_ms == now_ms
            },
            final(self).vpn_status == old(self).vpn_status,
            final(self).rdp_connections == old(self).rdp_connections,
    {
        if index < self.wol_devices.len() {
            self.wol_devices[index].is_online = is_online;
            self.wol_devices[index].last_checked_ms = now_ms;
        }
    }

    /// Records the result of a check of the first tracked device named
    /// `name`, taken at `now_ms`; nothing changes when no device has that name.
    pub fn record_check_by_name(&mut self, name: &String, is_online: bool, now_ms: u64)
        ensures
            final(self).wol_devices@.len() == old(self).wol_devices@.len(),
            ({
                let ss = old(self).wol_devices@;
                match first_named(ss, name@) {
                    Some(p) => {
                        &&& forall|i: int| 0 <= i < ss.len() && i != p
                            ==> #[trigger] final(self).wol_devices@[i] == ss[i]
                        &&& final(self).wol_devices@[p].device == ss[p].device
                        &&& final(self).wol_devices@[p].is_online == is_online
                        &&& final(self).wol_devices@[p].last_checked_ms == now_ms
                    },
                    None => final(self).wol_devices@ == ss,
                }
            }),
            final(self).vpn_status == old(self).vpn_status,
            final(self).rdp_connections == old(self).rdp_connections,
    {
        let ghost ss = self.wol_devices@;
        let mut i: usize = 0;
        while i < self.wol_devices.len()
            invariant
                i <= ss.len(),
                ss == old(self).wol_devices@,
                self.wol_devices@ == ss,
                self.vpn_status == old(self).vpn_status,
                self.rdp_connections == old(self).rdp_connections,
                forall|j: int| 0 <= j < i ==> ss[j].device.name@ != name@,
            decreases ss.len() - i,
        {
            if self.wol_devices[i].device.name == *name {
                assert(first_named(ss, name@) == Some(i as int)) by {
                    assert(0 <= i < ss.len() && ss[i as int].device.name@ == name@);
                    let p = choose|p: int| 0 <= p < ss.len() && ss[p].device.name@ == name@
                        && forall|j: int| 0 <= j < p ==> ss[j].device.name@ != name@;
                    assert(p == i as int);
                }
                self.record_check(i, is_online, now_ms);
                return;
            }
            i = i + 1;
        }
    }

    /// A VPN connection attempt has started.
    pub fn begin_vpn_connect(&mut self)
        ensures
            final(self).vpn_status is Connecting,
            final(self).rdp_connections == old(self).rdp_connections,
            final(self).wol_devices == old(self).wol_devices,
    {
        self.vpn_status = VpnStatus::Connecting;
    }

    /// A VPN connection attempt to the profile `name` has ended: connected on
    /// success, in error with the failure's message otherwise.
    pub fn finish_vpn_connect(&mut self, name: &str, outcome: Result<(), String>)
        ensures
            outcome is Ok ==> (final(self).vpn_status matches VpnStatus::Connected(n) && n@ == name@),
            outcome matches Err(e) ==> (final(self).vpn_status matches VpnStatus::Error(m) && m@ == e@),
            final(self).rdp_connections == old(self).rdp_connections,
            final(self).wol_devices == old(self).wol_devices,
    {
        self.vpn_status = match outcome {
            Ok(()) => VpnStatus::Connected(String::from_str(name)),
            Err(e) => VpnStatus::Error(e),
        };
    }

    /// A VPN disconnection has ended: disconnected on success, in error with
    /// the failure's message otherwise.
    pub fn finish_vpn_disconnect(&mut self, outcome: Result<(), String>)
        ensures
            outcome is Ok ==> final(self).vpn_status is Disconnected,
            outcome matches Err(e) ==> (final(self).vpn_status matches VpnStatus::Error(m) && m@ == e@),
            final(self).rdp_connections == old(self).rdp_connections,
            final(self).wol_devices == old(self).wol_devices,
    {
        self.vpn_status = match outcome {
            Ok(()) => VpnStatus::Disconnected,
            Err(e) => VpnStatus::Error(e),
        };
    }
}

/// The first position whose check found the tunnel connected.
pub open spec fn first_connected(checks: Seq<Option<bool>>) -> Option<int> {
    if exists|i: int| 0 <= i < checks.len() && checks[i] == Some(true) {
        Some(choose|i: int| 0 <= i < checks.len() && checks[i] == Some(true)
            && forall|j: int| 0 <= j < i ==> checks[j] != Some(true))
    } else {
        None
    }
}

/// The first position whose check found the tunnel connected; a check that
/// failed (`None`) counts as not connected.
pub fn first_connected_profile(checks: &Vec<Option<bool>>) -> (r: Option<usize>)
    ensures
        r is Some <==> first_connected(checks@) is Some,
        r is Some ==> r->Some_0 as int == first_connected(checks@)->Some_0,
        r is Some ==> r->Some_0 < checks@.len(),
{
    let mut i: usize = 0;
    while i < checks.len()
        invariant
            i <= checks@.len(),
            forall|j: int| 0 <= j < i ==> checks@[j] != Some(true),
        decreases checks@.len() - i,
    {
        if checks[i] == Some(true) {
            assert(first_connected(checks@) == Some(i as int)) by {
                let p = choose|p: int| 0 <= p < checks@.len() && checks@[p] == Some(true)
                    && forall|j: int| 0 <= j < p ==> checks@[j] != Some(true);
                assert(p == i as int);
            }
            return Some(i);
        }
        i = i + 1;
    }
    None
}

/// The first position among `names` equal to `name`.
pub open spec fn first_equal(names: Seq<Seq<char>>, name: Seq<char>) -> Option<int> {
    if exists|i: int| 0 <= i < names.len() && names[i] == name {
        Some(choose|i: int| 0 <= i < names.len() && names[i] == name
            && forall|j: int| 0 <= j < i ==> names[j] != name)
    } else {
        None
    }
}

impl NetworkManager {
    /// The position among the profiles named `names` of the one the VPN is
    /// connected with, if it is connected and that profile is still listed.
    pub fn connected_profile(&self, names: &Vec<String>) -> (r: Option<usize>)
        ensures
            match self.vpn_status {
                VpnStatus::Connected(n) => {
                    &&& (r is Some <==> first_equal(names@.map_values(|s: String| s@), n@) is Some)
                    &&& (r is Some ==> r->Some_0 as int == first_equal(names@.map_values(|s: String| s@), n@)->Some_0)
                },
                _ => r is None,
            },
    {
        let name = match &self.vpn_status {
            VpnStatus::Connected(n) => n,
            _ => {
                return None;
            },
        };
        let ghost views = names@.map_values(|s: String| s@);
        let mut i: usize = 0;
        while i < names.len()
            invariant
                i <= names@.len(),
                views == names@.map_values(|s: String| s@),
                self.vpn_status == VpnStatus::Connected(*name),
                forall|j: int| 0 <= j < i ==> views[j] != name@,
            decreases names@.len() - i,
        {
            if names[i] == *name {
                assert(first_equal(views, name@) == Some(i as int)) by {
                    assert(views[i as int] == name@);
                    let p = choose|p: int| 0 <= p < views.len() && views[p] == name@
                        && forall|j: int| 0 <= j < p ==> views[j] != name@;
                    assert(p == i as int);
                }
                return Some(i);
            }
            i = i + 1;
        }
        None
    }

    /// Records the check of the profile the VPN was connected with: it stays
    /// connected, or is disconnected.
    pub fn settle_connected_check(&mut self, still_connected: bool)
        ensures
            still_connected ==> final(self).vpn_status == old(self).vpn_status,
            !still_connected ==> final(self).vpn_status is Disconnected,
            final(self).rdp_connections == old(self).rdp_connections,
            final(self).wol_devices == old(self).wol_devices,
    {
        if !still_connected {
            self.vpn_status = VpnStatus::Disconnected;
        }
    }

    /// Records the checks of the profiles named `names`, in order (`None`
    /// for a check that failed): connected with the first profile found
    /// connected; else disconnected, unless a connection is being made.
    pub fn apply_vpn_checks(&mut self, names: &Vec<String>, checks: &Vec<Option<bool>>)
        requires
            checks@.len() <= names@.len(),
        ensures
            match first_connected(checks@) {
                Some(i) => final(self).vpn_status matches VpnStatus::Connected(n) && n@ == names@[i]@,
                None => if old(self).vpn_status is Connecting {
                    final(self).vpn_status is Connecting
                } else {
                    final(self).vpn_status is Disconnected
                },
            },
            final(self).rdp_connections == old(self).rdp_connections,
            final(self).wol_devices == old(self).wol_devices,
    {
        match first_connected_profile(checks) {
            Some(i) => {
                self.vpn_status = VpnStatus::Connected(names[i].clone());
            },
            None => {
                if !matches!(self.vpn_status, VpnStatus::Connecting) {
                    self.vpn_status = VpnStatus::Disconnected;
                }
            },
        }
    }

    /// The name of the first profile among `names` whose check found the tunnel
    /// connected.
    pub fn check_any_vpn_connected(&self, names: &Vec<String>, checks: &Vec<Option<bool>>) -> (r: Option<String>)
        requires
            checks@.len() <= names@.len(),
        ensures
            r is Some <==> first_connected(checks@) is Some,
            r is Some ==> r->Some_0@ == names@[first_connected(checks@)->Some_0]@,
    {
        match first_connected_profile(checks) {
            Some(i) => Some(names[i].clone()),
            None => None,
        }
    }
}

/// How long to wait before each status check after a wake-up packet:
/// 2 s, then one second more for each further check, five checks in all.
pub open spec fn wake_poll_delay(attempt: int) -> int {
    2000 + 1000 * attempt
}

/// The waits, in milliseconds, before the status checks that follow a
/// wake-up packet; the checks stop at the first that finds the device online.
pub fn wake_poll_delays() -> (r: Vec<u64>)
    ensures
        r@.len() == 5,
        forall|i: int| 0 <= i < 5 ==> r@[i] == wake_poll_delay(i),
{
    let mut r: Vec<u64> = Vec::new();
    let mut i: u64 = 0;
    while i < 5
        invariant
            i <= 5,
            r@.len() == i,
            forall|k: int| 0 <= k < i ==> r@[k] == wake_poll_delay(k),
        decreases 5 - i,
    {
        r.push(2000 + 1000 * i);
        i = i + 1;
    }
    r
}

} // verus!
