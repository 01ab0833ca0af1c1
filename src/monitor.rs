//! Device liveness detection.
//!
//! A detection runs the probes of a [`ProbePlan`] in order, each bounded by its
//! own timeout, and stops at the first probe that confirms the host. The probes
//! themselves (reading the ARP table, connecting to TCP ports, sending an ICMP
//! echo) are performed by the caller; this module decides what to run next, how
//! to read what the platform tools printed, and what the outcome is.
use vstd::prelude::*;
use crate::wol::{mac_bytes, validate_mac_address};
use crate::address::{
    before_last_dot, count_dots, count_dots_in, lemma_decimal_injective, lemma_same_prefix, text_before_last_dot,
};
use crate::text::{
    char_views, chars_of, decimal, fields, lines, push_decimal, push_str, seq_contains, split_fields,
    split_lines, str_contains, string_of, vec_contains, views,
};

verus! {

/// The family of platform tools whose output is read.
#[derive(Clone, Copy, Debug, PartialEq, Eq, Structural)]
pub enum Platform {
    Unix,
    Windows,
}

/// One kind of liveness probe.
#[derive(Clone, Copy, Debug, PartialEq, Eq, Structural)]
pub enum ProbeKind {
    Arp,
    TcpScan,
    Ping,
}

/// The probe that confirmed a host, or `NotDetected` when no probe did.
#[derive(Clone, Copy, Debug, PartialEq, Eq, Structural)]
pub enum DetectionMethod {
    Arp,
    TcpScan,
    Ping,
    NotDetected,
}

/// The method that a confirming probe of kind `k` reports.
pub open spec fn method_of(k: ProbeKind) -> DetectionMethod {
    match k {
        ProbeKind::Arp => DetectionMethod::Arp,
        ProbeKind::TcpScan => DetectionMethod::TcpScan,
        ProbeKind::Ping => DetectionMethod::Ping,
    }
}

fn method_for(k: ProbeKind) -> (m: DetectionMethod)
    ensures
        m == method_of(k),
{
    match k {
        ProbeKind::Arp => DetectionMethod::Arp,
        ProbeKind::TcpScan => DetectionMethod::TcpScan,
        ProbeKind::Ping => DetectionMethod::Ping,
    }
}

/// The name under which a method is reported.
pub open spec fn method_label(m: DetectionMethod) -> Seq<char> {
    match m {
        DetectionMethod::Arp => "ARP"@,
        DetectionMethod::TcpScan => "TCP_SCAN"@,
        DetectionMethod::Ping => "PING"@,
        DetectionMethod::NotDetected => "ALL_METHODS"@,
    }
}

impl DetectionMethod {
    /// The name under which this method is reported.
    pub fn label(&self) -> (r: &'static str)
        ensures
            r@ == method_label(*self),
    {
        match self {
            DetectionMethod::Arp => "ARP",
            DetectionMethod::TcpScan => "TCP_SCAN",
            DetectionMethod::Ping => "PING",
            DetectionMethod::NotDetected => "ALL_METHODS",
        }
    }
}

/// One step of a plan: a probe and the time it is given. For a TCP scan, the
/// ports to try in order and the time given to each connection attempt.
pub struct ProbeStep {
    pub kind: ProbeKind,
    pub timeout_ms: u64,
    pub ports: Vec<u16>,
    pub port_timeout_ms: u64,
}

/// The mathematical value of a [`ProbeStep`].
pub struct ProbeStepView {
    pub kind: ProbeKind,
    pub timeout_ms: u64,
    pub ports: Seq<u16>,
    pub port_timeout_ms: u64,
}

impl View for ProbeStep {
    type V = ProbeStepView;

    open spec fn view(&self) -> ProbeStepView {
        ProbeStepView {
            kind: self.kind,
            timeout_ms: self.timeout_ms,
            ports: self.ports@,
            port_timeout_ms: self.port_timeout_ms,
        }
    }
}

impl ProbeStep {
    /// A copy of this step.
    pub fn duplicate(&self) -> (r: ProbeStep)
        ensures
            r@ == self@,
    {
        let ports = self.ports.clone();
        assert(ports@ =~= self.ports@);
        ProbeStep {
            kind: self.kind,
            timeout_ms: self.timeout_ms,
            ports,
            port_timeout_ms: self.port_timeout_ms,
        }
    }
}

/// An ordered list of probes with their timeouts.
pub struct ProbePlan {
    pub steps: Vec<ProbeStep>,
}

impl View for ProbePlan {
    type V = Seq<ProbeStepView>;

    open spec fn view(&self) -> Seq<ProbeStepView> {
        self.steps@.map_values(|s: ProbeStep| s@)
    }
}

/// The sum of the timeouts of the first `n` steps.
pub open spec fn budget(steps: Seq<ProbeStepView>, n: int) -> nat
    decreases n,
{
    if n <= 0 || steps.len() == 0 {
        0
    } else if n > steps.len() {
        budget(steps, steps.len() as int)
    } else {
        (budget(steps, n - 1) + steps[n - 1].timeout_ms) as nat
    }
}

/// The worst-case time of a whole plan.
pub open spec fn plan_budget(steps: Seq<ProbeStepView>) -> nat {
    budget(steps, steps.len() as int)
}

/// The ports that the full plan's TCP scan tries, in order.
pub open spec fn full_ports() -> Seq<u16> {
    seq![22u16, 23, 80, 135, 139, 443, 445, 3389, 5900, 8080]
}

/// The ports that the quick plan's TCP scan tries, in order.
pub open spec fn quick_ports() -> Seq<u16> {
    seq![80u16, 443, 22, 3389, 445]
}

/// The full plan: ARP for 1 s, a TCP scan for 2 s (500 ms a port), ping for 3 s.
pub open spec fn full_plan() -> Seq<ProbeStepView> {
    seq![
        ProbeStepView { kind: ProbeKind::Arp, timeout_ms: 1000, ports: seq![], port_timeout_ms: 0 },
        ProbeStepView { kind: ProbeKind::TcpScan, timeout_ms: 2000, ports: full_ports(), port_timeout_ms: 500 },
        ProbeStepView { kind: ProbeKind::Ping, timeout_ms: 3000, ports: seq![], port_timeout_ms: 0 },
    ]
}

/// The quick plan: ARP for 500 ms, a TCP scan for 1 s (200 ms a port), no ping.
pub open spec fn quick_plan() -> Seq<ProbeStepView> {
    seq![
        ProbeStepView { kind: ProbeKind::Arp, timeout_ms: 500, ports: seq![], port_timeout_ms: 0 },
        ProbeStepView { kind: ProbeKind::TcpScan, timeout_ms: 1000, ports: quick_ports(), port_timeout_ms: 200 },
    ]
}

fn simple_step(kind: ProbeKind, timeout_ms: u64) -> (r: ProbeStep)
    ensures
        r@ == (ProbeStepView { kind, timeout_ms, ports: seq![], port_timeout_ms: 0 }),
{
    let r = ProbeStep { kind, timeout_ms, ports: Vec::new(), port_timeout_ms: 0 };
    assert(r.ports@ =~= Seq::<u16>::empty());
    r
}

impl ProbePlan {
    /// The plan of a full detection.
    pub fn full() -> (r: ProbePlan)
        ensures
            r@ == full_plan(),
            plan_budget(r@) == 6000,
    {
        proof {
            lemma_plan_budgets();
        }
        let ports: Vec<u16> = vec![22, 23, 80, 135, 139, 443, 445, 3389, 5900, 8080];
        assert(ports@ =~= full_ports());
        let steps = vec![
            simple_step(ProbeKind::Arp, 1000),
            ProbeStep { kind: ProbeKind::TcpScan, timeout_ms: 2000, ports, port_timeout_ms: 500 },
            simple_step(ProbeKind::Ping, 3000),
        ];
        let r = ProbePlan { steps };
        assert(r@ =~= full_plan());
        r
    }

    /// The plan of a quick check.
    pub fn quick() -> (r: ProbePlan)
        ensures
            r@ == quick_plan(),
            plan_budget(r@) == 1500,
    {
        proof {
            lemma_plan_budgets();
        }
        let ports: Vec<u16> = vec![80, 443, 22, 3389, 445];
        assert(ports@ =~= quick_ports());
        let steps = vec![
            simple_step(ProbeKind::Arp, 500),
            ProbeStep { kind: ProbeKind::TcpScan, timeout_ms: 1000, ports, port_timeout_ms: 200 },
        ];
        let r = ProbePlan { steps };
        assert(r@ =~= quick_plan());
        r
    }
}

/// A field that names `ip` as a whole address: the address itself, or the
/// address in parentheses.
pub open spec fn names_address(field: Seq<char>, ip: Seq<char>) -> bool {
    field == ip || field == seq!['('] + ip + seq![')']
}

/// Some field of `line` names `ip` as a whole address.
pub open spec fn line_names(line: Seq<char>, ip: Seq<char>) -> bool {
    exists|k: int| 0 <= k < fields(line).len() && #[trigger] names_address(fields(line)[k], ip)
}

/// Some field of `line` is a hardware address.
pub open spec fn line_has_mac(line: Seq<char>) -> bool {
    exists|k: int| 0 <= k < fields(line).len() && (#[trigger] mac_bytes(fields(line)[k])) is Some
}

/// An ARP table line that binds `ip` to a resolved hardware address: it
/// names `ip` as a whole address, holds a hardware address and is not
/// marked incomplete.
pub open spec fn entry_resolves(line: Seq<char>, ip: Seq<char>) -> bool {
    &&& line_names(line, ip)
    &&& line_has_mac(line)
    &&& !seq_contains(line, "incomplete"@)
}

/// The ARP tool's output has a line binding `ip` to a resolved hardware
/// address.
pub open spec fn arp_entry_resolved(output: Seq<char>, ip: Seq<char>) -> bool {
    exists|i: int| 0 <= i < lines(output).len() && #[trigger] entry_resolves(lines(output)[i], ip)
}

fn same_chars(a: &Vec<char>, b: &Vec<char>) -> (r: bool)
    ensures
        r == (a@ == b@),
{
    if a.len() != b.len() {
        return false;
    }
    let mut i: usize = 0;
    while i < a.len()
        invariant
            a@.len() == b@.len(),
            i <= a@.len(),
            forall|k: int| 0 <= k < i ==> a@[k] == b@[k],
        decreases a@.len() - i,
    {
        if a[i] != b[i] {
            return false;
        }
        i = i + 1;
    }
    assert(a@ =~= b@);
    true
}

/// `ip` in parentheses.
fn parenthesized(ip: &Vec<char>) -> (r: Vec<char>)
    ensures
        r@ == seq!['('] + ip@ + seq![')'],
{
    let mut r: Vec<char> = vec!['('];
    let mut i: usize = 0;
    while i < ip.len()
        invariant
            i <= ip@.len(),
            r@ == seq!['('] + ip@.subrange(0, i as int),
        decreases ip@.len() - i,
    {
        r.push(ip[i]);
        assert(ip@.subrange(0, i + 1) =~= ip@.subrange(0, i as int).push(ip@[i as int]));
        assert(r@ =~= seq!['('] + ip@.subrange(0, i + 1));
        i = i + 1;
    }
    r.push(')');
    assert(ip@.subrange(0, ip@.len() as int) =~= ip@);
    assert(r@ =~= seq!['('] + ip@ + seq![')']);
    r
}

/// Whether some field of `line` names `ip` as a whole address; `wrapped` is
/// `ip` in parentheses.
fn names_ip(line: &Vec<char>, ip: &Vec<char>, wrapped: &Vec<char>) -> (r: bool)
    requires
        wrapped@ == seq!['('] + ip@ + seq![')'],
    ensures
        r == line_names(line@, ip@),
{
    let fs = split_fields(line);
    let ghost fv = char_views(fs@);
    let mut j: usize = 0;
    while j < fs.len()
        invariant
            j <= fs@.len(),
            fv == char_views(fs@),
            fv == fields(line@),
            wrapped@ == seq!['('] + ip@ + seq![')'],
            forall|k: int| 0 <= k < j ==> !names_address(#[trigger] fv[k], ip@),
        decreases fs@.len() - j,
    {
        assert(fv[j as int] == fs@[j as int]@);
        if same_chars(&fs[j], ip) || same_chars(&fs[j], wrapped) {
            assert(names_address(fv[j as int], ip@));
            return true;
        }
        j = j + 1;
    }
    false
}

/// Whether some field of `line` is a hardware address.
fn has_mac(line: &Vec<char>) -> (r: bool)
    ensures
        r == line_has_mac(line@),
{
    let fs = split_fields(line);
    let ghost fv = char_views(fs@);
    let mut j: usize = 0;
    while j < fs.len()
        invariant
            j <= fs@.len(),
            fv == char_views(fs@),
            fv == fields(line@),
            forall|k: int| 0 <= k < j ==> !(#[trigger] mac_bytes(fv[k]) is Some),
        decreases fs@.len() - j,
    {
        assert(fv[j as int] == fs@[j as int]@);
        if validate_mac_address(string_of(&fs[j]).as_str()) {
            assert(mac_bytes(fv[j as int]) is Some);
            return true;
        }
        j = j + 1;
    }
    false
}

/// Reads the output of the ARP tool queried for `ip`.
pub fn arp_shows_host(output: &str, ip: &str) -> (r: bool)
    ensures
        r == arp_entry_resolved(output@, ip@),
{
    let ls = split_lines(&chars_of(output));
    let ghost all = char_views(ls@);
    let needle = chars_of(ip);
    let wrapped = parenthesized(&needle);
    let marker = chars_of("incomplete");
    let mut i: usize = 0;
    while i < ls.len()
        invariant
            i <= ls@.len(),
            all == char_views(ls@),
            all == lines(output@),
            needle@ == ip@,
            marker@ == "incomplete"@,
            wrapped@ == seq!['('] + ip@ + seq![')'],
            forall|k: int| 0 <= k < i ==> !(#[trigger] entry_resolves(all[k], ip@)),
        decreases ls@.len() - i,
    {
        assert(all[i as int] == ls@[i as int]@);
        if names_ip(&ls[i], &needle, &wrapped) && has_mac(&ls[i]) && !vec_contains(&ls[i], &marker) {
            assert(entry_resolves(all[i as int], ip@));
            return true;
        }
        i = i + 1;
    }
    false
}

/// A ping run answered: the tool exited successfully and its output holds a
/// reply marker of the platform.
pub open spec fn ping_replied(platform: Platform, exit_ok: bool, output: Seq<char>) -> bool {
    exit_ok && match platform {
        Platform::Unix => seq_contains(output, "ttl="@) || seq_contains(output, "time="@),
        Platform::Windows => seq_contains(output, "TTL="@) || seq_contains(output, "bytes="@),
    }
}

/// Reads the exit status and output of a single-echo ping.
pub fn ping_answered(platform: Platform, exit_ok: bool, output: &str) -> (r: bool)
    ensures
        r == ping_replied(platform, exit_ok, output@),
{
    if !exit_ok {
        return false;
    }
    match platform {
        Platform::Unix => str_contains(output, "ttl=") || str_contains(output, "time="),
        Platform::Windows => str_contains(output, "TTL=") || str_contains(output, "bytes="),
    }
}

/// The arguments of the ARP tool that looks `ip` up.
pub open spec fn arp_args(platform: Platform, ip: Seq<char>) -> Seq<Seq<char>> {
    match platform {
        Platform::Unix => seq!["-n"@, ip],
        Platform::Windows => seq!["-a"@, ip],
    }
}

/// The arguments of a ping that sends one echo to `ip` and waits one second.
pub open spec fn ping_args(platform: Platform, ip: Seq<char>) -> Seq<Seq<char>> {
    match platform {
        Platform::Unix => seq!["-c"@, "1"@, "-W"@, "1"@, ip],
        Platform::Windows => seq!["-n"@, "1"@, "-w"@, "1000"@, ip],
    }
}

impl Platform {
    /// The arguments of the ARP tool that looks `ip` up.
    pub fn arp_command_args(&self, ip: &str) -> (r: Vec<String>)
        ensures
            views(r@) == arp_args(*self, ip@),
    {
        let r = match self {
            Platform::Unix => vec![String::from_str("-n"), String::from_str(ip)],
            Platform::Windows => vec![String::from_str("-a"), String::from_str(ip)],
        };
        assert(views(r@) =~= arp_args(*self, ip@));
        r
    }

    /// The arguments of a ping that sends one echo to `ip`.
    pub fn ping_command_args(&self, ip: &str) -> (r: Vec<String>)
        ensures
            views(r@) == ping_args(*self, ip@),
    {
        let r = match self {
            Platform::Unix => vec![
                String::from_str("-c"),
                String::from_str("1"),
                String::from_str("-W"),
                String::from_str("1"),
                String::from_str(ip),
            ],
            Platform::Windows => vec![
                String::from_str("-n"),
                String::from_str("1"),
                String::from_str("-w"),
                String::from_str("1000"),
                String::from_str(ip),
            ],
        };
        assert(views(r@) =~= ping_args(*self, ip@));
        r
    }
}

/// What one probe or one connection attempt reported, and how long it took.
#[derive(Clone, Copy, Debug, PartialEq, Eq, Structural)]
pub struct ProbeOutcome {
    pub positive: bool,
    pub elapsed_ms: u64,
}

/// A TCP connection attempt that succeeded within the time given to it.
pub open spec fn connected_in_time(port_timeout_ms: u64, a: ProbeOutcome) -> bool {
    a.positive && a.elapsed_ms <= port_timeout_ms
}

/// Some attempt among `attempts` connected within its time.
pub open spec fn any_connected(port_timeout_ms: u64, attempts: Seq<ProbeOutcome>) -> bool {
    exists|i: int| 0 <= i < attempts.len() && #[trigger] connected_in_time(port_timeout_ms, attempts[i])
}

/// Why a TCP scan could not be made.
#[derive(Clone, Copy, Debug, PartialEq, Eq, Structural)]
pub enum ScanError {
    /// The target is not an IP address.
    InvalidAddress,
}

/// A TCP connect scan over an ordered list of ports. It stops at the first
/// port that accepts a connection in time; refused, failed and late attempts
/// are skipped. An address that did not parse is scanned on no port.
pub struct TcpScan {
    ports: Vec<u16>,
    port_timeout_ms: u64,
    address_valid: bool,
    attempts: Ghost<Seq<ProbeOutcome>>,
    next: usize,
    open: bool,
}

impl TcpScan {
    /// The ports of the scan, in order.
    pub closed spec fn ports(&self) -> Seq<u16> {
        self.ports@
    }

    /// The time given to each attempt.
    pub closed spec fn port_timeout(&self) -> u64 {
        self.port_timeout_ms
    }

    /// Whether the scanned address parsed.
    pub closed spec fn address_valid(&self) -> bool {
        self.address_valid
    }

    /// The attempts made so far, one for each of the first ports.
    pub closed spec fn attempts(&self) -> Seq<ProbeOutcome> {
        self.attempts@
    }

    /// The scan is consistent with its attempts.
    pub closed spec fn wf(&self) -> bool {
        &&& self.next == self.attempts@.len()
        &&& self.next <= self.ports@.len()
        &&& (!self.address_valid ==> self.next == 0)
        &&& self.open == any_connected(self.port_timeout_ms, self.attempts@)
    }

    /// No further port is to be tried.
    pub open spec fn done(&self) -> bool {
        ||| !self.address_valid()
        ||| any_connected(self.port_timeout(), self.attempts())
        ||| self.attempts().len() >= self.ports().len()
    }

    /// A scan of `step`'s ports; `address_valid` tells whether the target
    /// address parsed.
    pub fn new(step: &ProbeStep, address_valid: bool) -> (r: TcpScan)
        ensures
            r.wf(),
            r.ports() == step.ports@,
            r.port_timeout() == step.port_timeout_ms,
            r.address_valid() == address_valid,
            r.attempts() == Seq::<ProbeOutcome>::empty(),
    {
        TcpScan {
            ports: step.ports.clone(),
            port_timeout_ms: step.port_timeout_ms,
            address_valid,
            attempts: Ghost(Seq::empty()),
            next: 0,
            open: false,
        }
    }

    /// The port to try next, if any.
    pub fn next_port(&self) -> (r: Option<u16>)
        requires
            self.wf(),
        ensures
            r is None <==> self.done(),
            r is Some ==> r->Some_0 == self.ports()[self.attempts().len() as int],
    {
        if !self.address_valid || self.open || self.next >= self.ports.len() {
            None
        } else {
            Some(self.ports[self.next])
        }
    }

    /// Records the attempt on the port that `next_port` gave.
    pub fn record(&mut self, attempt: ProbeOutcome)
        requires
            old(self).wf(),
            !old(self).done(),
        ensures
            final(self).wf(),
            final(self).ports() == old(self).ports(),
            final(self).port_timeout() == old(self).port_timeout(),
            final(self).address_valid() == old(self).address_valid(),
            final(self).attempts() == old(self).attempts().push(attempt),
    {
        let ghost before = self.attempts@;
        let ghost after = before.push(attempt);
        proof {
            if any_connected(self.port_timeout_ms, after) {
                let i = choose|i: int| 0 <= i < after.len() && #[trigger] connected_in_time(self.port_timeout_ms, after[i]);
                if i < before.len() {
                    assert(connected_in_time(self.port_timeout_ms, before[i]));
                }
            }
            if connected_in_time(self.port_timeout_ms, attempt) {
                assert(connected_in_time(self.port_timeout_ms, after[before.len() as int]));
            }
            if any_connected(self.port_timeout_ms, before) {
                let i = choose|i: int| 0 <= i < before.len() && #[trigger] connected_in_time(self.port_timeout_ms, before[i]);
                assert(connected_in_time(self.port_timeout_ms, after[i]));
            }
        }
        let count = self.ports.len();
        assert(self.next < count);
        self.open = attempt.positive && attempt.elapsed_ms <= self.port_timeout_ms;
        self.next = self.next + 1;
        self.attempts = Ghost(after);
    }

    /// The scan's outcome: an input error for an address that did not parse,
    /// else whether a port accepted a connection in time.
    pub fn outcome(&self) -> (r: Result<bool, ScanError>)
        requires
            self.wf(),
        ensures
            !self.address_valid() ==> r == Err::<bool, ScanError>(ScanError::InvalidAddress),
            self.address_valid() ==> r == Ok::<bool, ScanError>(any_connected(self.port_timeout(), self.attempts())),
    {
        if !self.address_valid {
            Err(ScanError::InvalidAddress)
        } else {
            Ok(self.open)
        }
    }

    /// Whether a port accepted a connection in time.
    pub fn found_open_port(&self) -> (r: bool)
        requires
            self.wf(),
        ensures
            r == any_connected(self.port_timeout(), self.attempts()),
    {
        self.open
    }
}

/// A probe that reported positive within its step's timeout.
pub open spec fn confirms(step: ProbeStepView, o: ProbeOutcome) -> bool {
    o.positive && o.elapsed_ms <= step.timeout_ms
}

/// The time a probe took; one that overran was abandoned at its timeout.
pub open spec fn spent(step: ProbeStepView, o: ProbeOutcome) -> nat {
    if o.elapsed_ms <= step.timeout_ms {
        o.elapsed_ms as nat
    } else {
        step.timeout_ms as nat
    }
}

/// The time taken by the probes whose outcomes are `outs`, in plan order.
pub open spec fn time_spent(steps: Seq<ProbeStepView>, outs: Seq<ProbeOutcome>) -> nat
    decreases outs.len(),
{
    if outs.len() == 0 {
        0
    } else {
        time_spent(steps, outs.drop_last()) + spent(steps[outs.len() - 1], outs.last())
    }
}

/// The method of the first probe among `outs` that confirmed the host.
pub open spec fn found_by(steps: Seq<ProbeStepView>, outs: Seq<ProbeOutcome>) -> DetectionMethod
    decreases outs.len(),
{
    if outs.len() == 0 {
        DetectionMethod::NotDetected
    } else {
        let earlier = found_by(steps, outs.drop_last());
        if earlier != DetectionMethod::NotDetected {
            earlier
        } else if confirms(steps[outs.len() - 1], outs.last()) {
            method_of(steps[outs.len() - 1].kind)
        } else {
            DetectionMethod::NotDetected
        }
    }
}

/// A detection has ended: a probe confirmed the host or every probe ran.
pub open spec fn finished(steps: Seq<ProbeStepView>, outs: Seq<ProbeOutcome>) -> bool {
    found_by(steps, outs) != DetectionMethod::NotDetected || outs.len() >= steps.len()
}

/// The text that describes a detection's outcome.
pub open spec fn details_text(m: DetectionMethod, ms: nat) -> Seq<char> {
    if m == DetectionMethod::NotDetected {
        "Device not detected by any method"@
    } else {
        "Device detected via "@ + method_label(m) + " in "@ + decimal(ms) + "ms"@
    }
}

/// The outcome of a detection.
pub struct DeviceDetectionResult {
    pub is_online: bool,
    pub method: DetectionMethod,
    pub response_time_ms: Option<u64>,
    pub details: String,
}

/// The detection result that the outcomes `outs` of the plan `steps` give.
pub open spec fn result_matches(r: DeviceDetectionResult, steps: Seq<ProbeStepView>, outs: Seq<ProbeOutcome>) -> bool {
    let m = found_by(steps, outs);
    &&& r.is_online == (m != DetectionMethod::NotDetected)
    &&& r.method == m
    &&& r.response_time_ms == if m == DetectionMethod::NotDetected {
        None
    } else {
        Some(time_spent(steps, outs) as u64)
    }
    &&& r.details@ == details_text(m, time_spent(steps, outs))
}

/// `budget` grows with the number of steps counted.
pub proof fn lemma_budget_monotone(steps: Seq<ProbeStepView>, a: int, b: int)
    requires
        0 <= a <= b <= steps.len(),
    ensures
        budget(steps, a) <= budget(steps, b),
    decreases b - a,
{
    if a < b {
        lemma_budget_monotone(steps, a, b - 1);
    }
}

/// Probes never take longer, together, than the timeouts of their steps.
pub proof fn lemma_time_within_budget(steps: Seq<ProbeStepView>, outs: Seq<ProbeOutcome>)
    requires
        outs.len() <= steps.len(),
    ensures
        time_spent(steps, outs) <= budget(steps, outs.len() as int),
    decreases outs.len(),
{
    if outs.len() > 0 {
        lemma_time_within_budget(steps, outs.drop_last());
    }
}

/// One run of a [`ProbePlan`]: the probes are run in plan order, each bounded
/// by its step's timeout, until one confirms the host or none is left.
pub struct DetectionSession {
    plan: ProbePlan,
    outcomes: Ghost<Seq<ProbeOutcome>>,
    next: usize,
    elapsed_ms: u64,
    found: DetectionMethod,
}

impl DetectionSession {
    /// The plan being run.
    pub closed spec fn steps(&self) -> Seq<ProbeStepView> {
        self.plan@
    }

    /// The outcomes of the probes run so far, in plan order.
    pub closed spec fn outcomes(&self) -> Seq<ProbeOutcome> {
        self.outcomes@
    }

    /// The session is consistent with its outcomes.
    pub closed spec fn wf(&self) -> bool {
        &&& self.next == self.outcomes@.len()
        &&& self.next <= self.plan.steps@.len()
        &&& self.elapsed_ms == time_spent(self.plan@, self.outcomes@)
        &&& self.found == found_by(self.plan@, self.outcomes@)
        &&& plan_budget(self.plan@) <= u64::MAX
    }

    /// The detection has ended.
    pub open spec fn is_done(&self) -> bool {
        finished(self.steps(), self.outcomes())
    }

    /// Starts a run of `plan`.
    pub fn new(plan: ProbePlan) -> (r: DetectionSession)
        requires
            plan_budget(plan@) <= u64::MAX,
        ensures
            r.wf(),
            r.steps() == plan@,
            r.outcomes() == Seq::<ProbeOutcome>::empty(),
    {
        DetectionSession {
            plan,
            outcomes: Ghost(Seq::empty()),
            next: 0,
            elapsed_ms: 0,
            found: DetectionMethod::NotDetected,
        }
    }

    /// The probe to run next, if the detection has not ended.
    pub fn next_probe(&self) -> (r: Option<ProbeStep>)
        requires
            self.wf(),
        ensures
            r is None <==> self.is_done(),
            r is Some ==> r->Some_0@ == self.steps()[self.outcomes().len() as int],
    {
        if self.found != DetectionMethod::NotDetected || self.next >= self.plan.steps.len() {
            None
        } else {
            Some(self.plan.steps[self.next].duplicate())
        }
    }

    /// Records the outcome of the probe that `next_probe` gave.
    pub fn record(&mut self, outcome: ProbeOutcome)
        requires
            old(self).wf(),
            !old(self).is_done(),
        ensures
            final(self).wf(),
            final(self).steps() == old(self).steps(),
            final(self).outcomes() == old(self).outcomes().push(outcome),
    {
        let ghost steps = self.plan@;
        let ghost after = self.outcomes@.push(outcome);
        let step = &self.plan.steps[self.next];
        assert(steps[self.next as int] == step@);
        assert(after.drop_last() =~= self.outcomes@);
        proof {
            lemma_time_within_budget(steps, after);
            lemma_budget_monotone(steps, after.len() as int, steps.len() as int);
        }
        let took = if outcome.elapsed_ms <= step.timeout_ms {
            outcome.elapsed_ms
        } else {
            step.timeout_ms
        };
        if outcome.positive && outcome.elapsed_ms <= step.timeout_ms {
            self.found = method_for(step.kind);
        }
        let count = self.plan.steps.len();
        assert(self.next < count);
        self.elapsed_ms = self.elapsed_ms + took;
        self.next = self.next + 1;
        self.outcomes = Ghost(after);
    }

    /// Whether the detection has ended.
    pub fn finished(&self) -> (r: bool)
        requires
            self.wf(),
        ensures
            r == self.is_done(),
    {
        self.found != DetectionMethod::NotDetected || self.next >= self.plan.steps.len()
    }

    /// The outcome of the detection so far: online with the confirming
    /// method and the time the probes took, or offline.
    pub fn result(&self) -> (r: DeviceDetectionResult)
        requires
            self.wf(),
        ensures
            result_matches(r, self.steps(), self.outcomes()),
            result_well_formed(r),
    {
        let mut details = String::new();
        if self.found == DetectionMethod::NotDetected {
            push_str(&mut details, "Device not detected by any method");
            DeviceDetectionResult {
                is_online: false,
                method: DetectionMethod::NotDetected,
                response_time_ms: None,
                details,
            }
        } else {
            push_str(&mut details, "Device detected via ");
            push_str(&mut details, self.found.label());
            push_str(&mut details, " in ");
            push_decimal(&mut details, self.elapsed_ms);
            push_str(&mut details, "ms");
            assert(details@ =~= details_text(self.found, self.elapsed_ms as nat));
            DeviceDetectionResult {
                is_online: true,
                method: self.found,
                response_time_ms: Some(self.elapsed_ms),
                details,
            }
        }
    }
}

/// The full plan may take at most 6 s and the quick plan at most 1.5 s.
pub proof fn lemma_plan_budgets()
    ensures
        plan_budget(full_plan()) == 6000,
        plan_budget(quick_plan()) == 1500,
{
    reveal_with_fuel(budget, 4);
}

/// A host that answers no probe is reported offline once every probe has
/// run, and the run takes no longer than the plan's timeouts together.
pub proof fn lemma_silent_host_is_offline(steps: Seq<ProbeStepView>, outs: Seq<ProbeOutcome>)
    requires
        outs.len() == steps.len(),
        forall|i: int| 0 <= i < outs.len() ==> !(#[trigger] outs[i]).positive,
    ensures
        finished(steps, outs),
        found_by(steps, outs) == DetectionMethod::NotDetected,
        time_spent(steps, outs) <= plan_budget(steps),
{
    lemma_nothing_confirmed(steps, outs);
    lemma_time_within_budget(steps, outs);
}

proof fn lemma_nothing_confirmed(steps: Seq<ProbeStepView>, outs: Seq<ProbeOutcome>)
    requires
        forall|i: int| 0 <= i < outs.len() ==> !(#[trigger] outs[i]).positive,
    ensures
        found_by(steps, outs) == DetectionMethod::NotDetected,
    decreases outs.len(),
{
    if outs.len() > 0 {
        let rest = outs.drop_last();
        assert forall|i: int| 0 <= i < rest.len() implies !(#[trigger] rest[i]).positive by {
            assert(rest[i] == outs[i]);
        }
        lemma_nothing_confirmed(steps, rest);
        assert(!outs[outs.len() - 1].positive);
    }
}

/// A host whose ARP entry is resolved within the ARP step's timeout is
/// reported online by ARP after that first probe alone, in no more time than
/// that timeout.
pub proof fn lemma_arp_entry_detected(steps: Seq<ProbeStepView>, o: ProbeOutcome)
    requires
        steps.len() > 0,
        steps[0].kind == ProbeKind::Arp,
        confirms(steps[0], o),
    ensures
        finished(steps, seq![o]),
        found_by(steps, seq![o]) == DetectionMethod::Arp,
        time_spent(steps, seq![o]) <= steps[0].timeout_ms,
{
    let outs = seq![o];
    assert(outs.drop_last() =~= Seq::<ProbeOutcome>::empty());
    assert(outs.len() == 1 && outs.last() == o);
    assert(found_by(steps, outs.drop_last()) == DetectionMethod::NotDetected);
    assert(time_spent(steps, outs.drop_last()) == 0);
}

/// Under the full plan, a host that ARP does not confirm but whose TCP scan
/// connects within the scan's timeout is reported online by the TCP scan.
pub proof fn lemma_listener_detected_by_scan(outs: Seq<ProbeOutcome>)
    requires
        outs.len() == 2,
        !confirms(full_plan()[0], outs[0]),
        confirms(full_plan()[1], outs[1]),
    ensures
        finished(full_plan(), outs),
        found_by(full_plan(), outs) == DetectionMethod::TcpScan,
{
    let first = outs.drop_last();
    assert(first.drop_last() =~= Seq::<ProbeOutcome>::empty());
    assert(first.len() == 1 && first.last() == outs[0]);
    assert(found_by(full_plan(), first.drop_last()) == DetectionMethod::NotDetected);
    assert(found_by(full_plan(), first) == DetectionMethod::NotDetected);
    assert(outs.last() == outs[1]);
}

/// A scan in which the attempt on one of its ports connected in time has
/// found an open port and tries no further port.
pub proof fn lemma_open_port_found(scan: TcpScan, i: int)
    requires
        scan.wf(),
        0 <= i < scan.attempts().len(),
        connected_in_time(scan.port_timeout(), scan.attempts()[i]),
    ensures
        any_connected(scan.port_timeout(), scan.attempts()),
        scan.done(),
{
}

/// The full plan's scan reaches port 443 as its sixth port.
pub proof fn lemma_full_scan_ports()
    ensures
        full_plan()[1].kind == ProbeKind::TcpScan,
        full_plan()[1].ports == full_ports(),
        full_ports()[5] == 443,
{
}

/// A result without a method is offline and has no latency; an online
/// result names its method and a latency within the plan's total timeout.
pub proof fn lemma_result_invariants(r: DeviceDetectionResult, steps: Seq<ProbeStepView>, outs: Seq<ProbeOutcome>)
    requires
        result_matches(r, steps, outs),
        outs.len() <= steps.len(),
        plan_budget(steps) <= u64::MAX,
    ensures
        r.method == DetectionMethod::NotDetected ==> !r.is_online && r.response_time_ms is None,
        r.is_online ==> r.method != DetectionMethod::NotDetected && r.response_time_ms is Some
            && r.response_time_ms->Some_0 <= plan_budget(steps),
{
    lemma_time_within_budget(steps, outs);
    lemma_budget_monotone(steps, outs.len() as int, steps.len() as int);
}

/// A quick check, whatever its probes report, takes at most 1.5 s.
pub proof fn lemma_quick_check_bounded(outs: Seq<ProbeOutcome>)
    requires
        outs.len() <= quick_plan().len(),
    ensures
        time_spent(quick_plan(), outs) <= 1500,
{
    lemma_time_within_budget(quick_plan(), outs);
    lemma_budget_monotone(quick_plan(), outs.len() as int, 2);
    lemma_plan_budgets();
}

/// Two runs of one plan against a target whose probes answer alike report
/// the same method, and so the same online status.
pub proof fn lemma_detection_repeatable(steps: Seq<ProbeStepView>, a: Seq<ProbeOutcome>, b: Seq<ProbeOutcome>)
    requires
        a.len() == b.len(),
        a.len() <= steps.len(),
        forall|i: int| 0 <= i < a.len() ==> confirms(steps[i], #[trigger] a[i]) == confirms(steps[i], b[i]),
    ensures
        found_by(steps, a) == found_by(steps, b),
        finished(steps, a) == finished(steps, b),
    decreases a.len(),
{
    if a.len() > 0 {
        let (ra, rb) = (a.drop_last(), b.drop_last());
        assert forall|i: int| 0 <= i < ra.len() implies confirms(steps[i], #[trigger] ra[i]) == confirms(steps[i], rb[i]) by {
            assert(ra[i] == a[i] && rb[i] == b[i]);
            assert(confirms(steps[i], a[i]) == confirms(steps[i], b[i]));
        }
        lemma_detection_repeatable(steps, ra, rb);
        assert(confirms(steps[a.len() - 1], a[a.len() - 1]) == confirms(steps[a.len() - 1], b[a.len() - 1]));
    }
}

/// The /24 prefix that a sweep of `base` covers: `base` itself when it has
/// three parts ("192.168.1"), its first three parts when it has four
/// ("192.168.1.0"), and none otherwise.
pub open spec fn sweep_prefix(base: Seq<char>) -> Option<Seq<char>> {
    if count_dots(base) == 2 {
        Some(base)
    } else if count_dots(base) == 3 {
        Some(before_last_dot(base))
    } else {
        None
    }
}

/// The address of host `host` in the network `prefix`.
pub open spec fn host_address(prefix: Seq<char>, host: nat) -> Seq<char> {
    prefix + "."@ + decimal(host)
}

/// The prefix that a sweep of `base` covers.
pub fn sweep_prefix_of(base: &str) -> (r: Option<String>)
    ensures
        r is Some <==> sweep_prefix(base@) is Some,
        r is Some ==> r->Some_0@ == sweep_prefix(base@)->Some_0,
{
    let dots = count_dots_in(base);
    if dots == 2 {
        Some(String::from_str(base))
    } else if dots == 3 {
        Some(text_before_last_dot(base))
    } else {
        None
    }
}

/// The 254 host addresses of the network `prefix`, `.1` to `.254` in order.
pub fn sweep_addresses(prefix: &str) -> (r: Vec<String>)
    ensures
        r@.len() == 254,
        forall|i: int| 0 <= i < 254 ==> (#[trigger] r@[i])@ == host_address(prefix@, (i + 1) as nat),
{
    let mut r: Vec<String> = Vec::new();
    let mut host: u64 = 1;
    while host <= 254
        invariant
            1 <= host <= 255,
            r@.len() == host - 1,
            forall|i: int| 0 <= i < r@.len() ==> (#[trigger] r@[i])@ == host_address(prefix@, (i + 1) as nat),
        decreases 255 - host,
    {
        let mut address = String::from_str(prefix);
        push_str(&mut address, ".");
        push_decimal(&mut address, host);
        r.push(address);
        host = host + 1;
    }
    r
}

/// The addresses that a sweep of `base` probes, or none when `base` is not a
/// network prefix.
pub fn sweep_targets(base: &str) -> (r: Option<Vec<String>>)
    ensures
        r is Some <==> sweep_prefix(base@) is Some,
        r is Some ==> r->Some_0@.len() == 254,
        r is Some ==> forall|i: int| 0 <= i < 254 ==> (#[trigger] r->Some_0@[i])@
            == host_address(sweep_prefix(base@)->Some_0, (i + 1) as nat),
{
    match sweep_prefix_of(base) {
        Some(prefix) => Some(sweep_addresses(prefix.as_str())),
        None => None,
    }
}

/// A sweep probes neither the network address `.0` nor the broadcast
/// address `.255`, and no host twice.
pub proof fn lemma_sweep_hosts_distinct(prefix: Seq<char>, i: nat, j: nat)
    requires
        1 <= i <= 254,
        1 <= j <= 254,
    ensures
        host_address(prefix, i) != host_address(prefix, 0),
        host_address(prefix, i) != host_address(prefix, 255),
        i != j ==> host_address(prefix, i) != host_address(prefix, j),
{
    let p = prefix + "."@;
    assert(host_address(prefix, i) == p + decimal(i));
    assert(host_address(prefix, j) == p + decimal(j));
    assert(host_address(prefix, 0) == p + decimal(0));
    assert(host_address(prefix, 255) == p + decimal(255));
    if host_address(prefix, i) == host_address(prefix, 0) {
        lemma_same_prefix(p, decimal(i), decimal(0));
        lemma_decimal_injective(i, 0);
    }
    if host_address(prefix, i) == host_address(prefix, 255) {
        lemma_same_prefix(p, decimal(i), decimal(255));
        lemma_decimal_injective(i, 255);
    }
    if i != j && host_address(prefix, i) == host_address(prefix, j) {
        lemma_same_prefix(p, decimal(i), decimal(j));
        lemma_decimal_injective(i, j);
    }
}

/// A local network interface and its first address.
pub struct NetworkInterface {
    pub name: String,
    pub ip_address: String,
    pub is_up: bool,
}

/// A host that a sweep found online.
pub struct DeviceInfo {
    pub ip_address: String,
    pub method_detected: DetectionMethod,
    pub response_time_ms: Option<u64>,
    pub details: String,
}

/// The positions, in order, of the online results among `rs`.
pub open spec fn online_positions(rs: Seq<DeviceDetectionResult>) -> Seq<int>
    decreases rs.len(),
{
    if rs.len() == 0 {
        seq![]
    } else {
        let earlier = online_positions(rs.drop_last());
        if rs.last().is_online {
            earlier.push(rs.len() - 1)
        } else {
            earlier
        }
    }
}

/// `d` reports the host `address` and its detection result `r`.
pub open spec fn describes(d: DeviceInfo, address: String, r: DeviceDetectionResult) -> bool {
    &&& d.ip_address@ == address@
    &&& d.method_detected == r.method
    &&& d.response_time_ms == r.response_time_ms
    &&& d.details@ == r.details@
}

/// `found` lists, in order, the hosts among `targets` whose results in
/// `results` are online.
pub open spec fn collected(found: Seq<DeviceInfo>, targets: Seq<String>, results: Seq<DeviceDetectionResult>) -> bool {
    &&& found.len() == online_positions(results).len()
    &&& forall|k: int| 0 <= k < found.len() ==> {
        let p = online_positions(results)[k];
        describes(#[trigger] found[k], targets[p], results[p])
    }
}

/// A result that online names its method and a latency.
pub open spec fn result_well_formed(r: DeviceDetectionResult) -> bool {
    r.is_online ==> r.method != DetectionMethod::NotDetected && r.response_time_ms is Some
}

/// The online positions are in range, in increasing order, hold online
/// results, and are all the online results.
pub proof fn lemma_online_positions(rs: Seq<DeviceDetectionResult>)
    ensures
        forall|k: int| 0 <= k < online_positions(rs).len() ==> {
            let p = #[trigger] online_positions(rs)[k];
            0 <= p < rs.len() && rs[p].is_online
        },
        forall|k: int, l: int| 0 <= k < l < online_positions(rs).len()
            ==> online_positions(rs)[k] < online_positions(rs)[l],
        forall|p: int| 0 <= p < rs.len() && (#[trigger] rs[p]).is_online
            ==> online_positions(rs).contains(p),
    decreases rs.len(),
{
    if rs.len() > 0 {
        let rest = rs.drop_last();
        lemma_online_positions(rest);
        let e = online_positions(rest);
        assert forall|p: int| 0 <= p < rs.len() && (#[trigger] rs[p]).is_online
            implies online_positions(rs).contains(p) by {
            if p < rs.len() - 1 {
                assert(rest[p] == rs[p]);
                let k = choose|k: int| 0 <= k < e.len() && e[k] == p;
                if rs.last().is_online {
                    assert(online_positions(rs)[k] == p);
                }
            } else {
                assert(online_positions(rs)[e.len() as int] == p);
            }
        }
        assert forall|k: int| 0 <= k < online_positions(rs).len() implies {
            let p = #[trigger] online_positions(rs)[k];
            0 <= p < rs.len() && rs[p].is_online
        } by {
            if k < e.len() {
                assert(rest[e[k]] == rs[e[k]]);
            }
        }
    }
}

/// The hosts of a sweep that were found online, in the order of `targets`;
/// `results[i]` is the detection result of `targets[i]`.
pub fn collect_online(targets: &Vec<String>, results: &Vec<DeviceDetectionResult>) -> (r: Vec<DeviceInfo>)
    requires
        targets@.len() == results@.len(),
    ensures
        collected(r@, targets@, results@),
{
    let mut r: Vec<DeviceInfo> = Vec::new();
    let mut i: usize = 0;
    while i < results.len()
        invariant
            i <= results@.len(),
            targets@.len() == results@.len(),
            collected(r@, targets@, results@.subrange(0, i as int)),
        decreases results@.len() - i,
    {
        let ghost before = results@.subrange(0, i as int);
        let ghost after = results@.subrange(0, i + 1);
        assert(after.drop_last() =~= before);
        proof {
            lemma_online_positions(before);
        }
        let ghost r0 = r@;
        let res = &results[i];
        if res.is_online {
            r.push(DeviceInfo {
                ip_address: targets[i].clone(),
                method_detected: res.method,
                response_time_ms: res.response_time_ms,
                details: res.details.clone(),
            });
        }
        assert forall|k: int| 0 <= k < r@.len() implies {
            let p = online_positions(after)[k];
            describes(#[trigger] r@[k], targets@[p], after[p])
        } by {
            if k < online_positions(before).len() {
                let p = online_positions(before)[k];
                assert(online_positions(after)[k] == p);
                assert(r@[k] == r0[k]);
                assert(after[p] == before[p]);
            } else {
                assert(after[i as int] == results@[i as int]);
            }
        }
        i = i + 1;
    }
    assert(results@.subrange(0, results@.len() as int) =~= results@);
    r
}

/// A sweep of `prefix` reports only hosts `.1` to `.254` of the network,
/// never its network or broadcast address, each found online; when the
/// results are those of detections, each names its method and a latency.
pub proof fn lemma_sweep_reports_online_hosts(
    prefix: Seq<char>,
    targets: Seq<String>,
    results: Seq<DeviceDetectionResult>,
    found: Seq<DeviceInfo>,
)
    requires
        targets.len() == 254,
        forall|i: int| 0 <= i < 254 ==> (#[trigger] targets[i])@ == host_address(prefix, (i + 1) as nat),
        results.len() == 254,
        collected(found, targets, results),
    ensures
        forall|k: int| 0 <= k < found.len() ==> {
            let h = (online_positions(results)[k] + 1) as nat;
            1 <= h <= 254 && (#[trigger] found[k]).ip_address@ == host_address(prefix, h)
        },
        forall|k: int| 0 <= k < found.len() ==> {
            &&& (#[trigger] found[k]).ip_address@ != host_address(prefix, 0)
            &&& found[k].ip_address@ != host_address(prefix, 255)
        },
        forall|k: int| 0 <= k < found.len() ==> results[online_positions(results)[k]].is_online,
        (forall|i: int| 0 <= i < results.len() ==> result_well_formed(#[trigger] results[i]))
            ==> forall|k: int| 0 <= k < found.len() ==> {
                &&& (#[trigger] found[k]).method_detected != DetectionMethod::NotDetected
                &&& found[k].response_time_ms is Some
            },
{
    lemma_online_positions(results);
    assert forall|k: int| 0 <= k < found.len() implies {
        let h = (online_positions(results)[k] + 1) as nat;
        &&& 1 <= h <= 254
        &&& (#[trigger] found[k]).ip_address@ == host_address(prefix, h)
        &&& found[k].ip_address@ != host_address(prefix, 0)
        &&& found[k].ip_address@ != host_address(prefix, 255)
        &&& results[online_positions(results)[k]].is_online
    } by {
        let p = online_positions(results)[k];
        assert(describes(found[k], targets[p], results[p]));
        let h = (p + 1) as nat;
        assert(targets[p]@ == host_address(prefix, h));
        assert(found[k].ip_address@ == host_address(prefix, h));
        lemma_sweep_hosts_distinct(prefix, h, h);
    }
    if forall|i: int| 0 <= i < results.len() ==> result_well_formed(#[trigger] results[i]) {
        assert forall|k: int| 0 <= k < found.len() implies {
            &&& (#[trigger] found[k]).method_detected != DetectionMethod::NotDetected
            &&& found[k].response_time_ms is Some
        } by {
            let p = online_positions(results)[k];
            assert(describes(found[k], targets[p], results[p]));
            assert(result_well_formed(results[p]));
        }
    }
}

/// The first field among `fs` that is a hardware address.
pub open spec fn first_mac_field(fs: Seq<Seq<char>>) -> Option<Seq<char>>
    decreases fs.len(),
{
    if fs.len() == 0 {
        None
    } else if mac_bytes(fs[0]) is Some {
        Some(fs[0])
    } else {
        first_mac_field(fs.drop_first())
    }
}

/// The first hardware address on the first line among `ls` that names `ip`
/// as a whole address and holds one.
pub open spec fn first_hardware_address(ls: Seq<Seq<char>>, ip: Seq<char>) -> Option<Seq<char>>
    decreases ls.len(),
{
    if ls.len() == 0 {
        None
    } else if line_names(ls[0], ip) && first_mac_field(fields(ls[0])) is Some {
        first_mac_field(fields(ls[0]))
    } else {
        first_hardware_address(ls.drop_first(), ip)
    }
}

/// The hardware address that the ARP tool's output gives for `ip`.
pub open spec fn arp_hardware_address(output: Seq<char>, ip: Seq<char>) -> Option<Seq<char>> {
    first_hardware_address(lines(output), ip)
}

fn mac_field(line: &Vec<char>) -> (r: Option<String>)
    ensures
        r is Some <==> first_mac_field(fields(line@)) is Some,
        r is Some ==> r->Some_0@ == first_mac_field(fields(line@))->Some_0,
{
    let fs = split_fields(line);
    let ghost fv = char_views(fs@);
    let mut j: usize = 0;
    assert(fv.subrange(0, fv.len() as int) =~= fv);
    while j < fs.len()
        invariant
            j <= fs@.len(),
            fv == char_views(fs@),
            fv == fields(line@),
            first_mac_field(fv.subrange(j as int, fv.len() as int)) == first_mac_field(fv),
        decreases fs@.len() - j,
    {
        let ghost rest = fv.subrange(j as int, fv.len() as int);
        assert(rest.drop_first() =~= fv.subrange(j + 1, fv.len() as int));
        assert(rest[0] == fs@[j as int]@);
        let candidate = string_of(&fs[j]);
        if validate_mac_address(candidate.as_str()) {
            return Some(candidate);
        }
        j = j + 1;
    }
    None
}

/// Reads the hardware address of `ip` from the ARP tool's output.
pub fn mac_from_arp_output(output: &str, ip: &str) -> (r: Option<String>)
    ensures
        r is Some <==> arp_hardware_address(output@, ip@) is Some,
        r is Some ==> r->Some_0@ == arp_hardware_address(output@, ip@)->Some_0,
{
    let ls = split_lines(&chars_of(output));
    let needle = chars_of(ip);
    let wrapped = parenthesized(&needle);
    let ghost all = char_views(ls@);
    let mut i: usize = 0;
    assert(all.subrange(0, all.len() as int) =~= all);
    while i < ls.len()
        invariant
            i <= ls@.len(),
            all == char_views(ls@),
            all == lines(output@),
            needle@ == ip@,
            wrapped@ == seq!['('] + ip@ + seq![')'],
            first_hardware_address(all.subrange(i as int, all.len() as int), ip@)
                == arp_hardware_address(output@, ip@),
        decreases ls@.len() - i,
    {
        let ghost rest = all.subrange(i as int, all.len() as int);
        assert(rest.drop_first() =~= all.subrange(i + 1, all.len() as int));
        assert(rest[0] == ls@[i as int]@);
        if names_ip(&ls[i], &needle, &wrapped) {
            let found = mac_field(&ls[i]);
            if found.is_some() {
                return found;
            }
        }
        i = i + 1;
    }
    None
}

/// `details` extended with the hardware address, when there is one.
pub open spec fn details_with_mac(details: Seq<char>, mac: Option<Seq<char>>) -> Seq<char> {
    match mac {
        Some(m) => details + " (MAC: "@ + m + ")"@,
        None => details,
    }
}

/// Adds the hardware address found for an online host to its result's
/// details; an offline result is returned as it is.
pub fn with_hardware_address(result: DeviceDetectionResult, mac: Option<String>) -> (r: DeviceDetectionResult)
    ensures
        r.is_online == result.is_online,
        r.method == result.method,
        r.response_time_ms == result.response_time_ms,
        r.details@ == if result.is_online {
            details_with_mac(result.details@, match mac { Some(m) => Some(m@), None => None })
        } else {
            result.details@
        },
{
    let mut r = result;
    if r.is_online {
        if let Some(m) = mac {
            push_str(&mut r.details, " (MAC: ");
            push_str(&mut r.details, m.as_str());
            push_str(&mut r.details, ")");
        }
    }
    r
}

} // verus!
