use vpn_manager::monitor::{
    arp_shows_host, collect_online, mac_from_arp_output, ping_answered, sweep_targets, with_hardware_address,
    DetectionMethod, DetectionSession, DeviceDetectionResult, Platform, ProbeKind, ProbeOutcome, ProbePlan, ScanError,
    TcpScan,
};

fn negative(ms: u64) -> ProbeOutcome {
    ProbeOutcome { positive: false, elapsed_ms: ms }
}

fn positive(ms: u64) -> ProbeOutcome {
    ProbeOutcome { positive: true, elapsed_ms: ms }
}

fn run(plan: ProbePlan, outcomes: &[ProbeOutcome]) -> (DeviceDetectionResult, usize) {
    let mut session = DetectionSession::new(plan);
    let mut ran = 0;
    for o in outcomes {
        if session.next_probe().is_none() {
            break;
        }
        session.record(*o);
        ran += 1;
    }
    (session.result(), ran)
}

#[test]
fn full_plan_order_and_timeouts() {
    let plan = ProbePlan::full();
    assert_eq!(plan.steps.len(), 3);
    assert_eq!(plan.steps[0].kind, ProbeKind::Arp);
    assert_eq!(plan.steps[0].timeout_ms, 1000);
    assert_eq!(plan.steps[1].kind, ProbeKind::TcpScan);
    assert_eq!(plan.steps[1].timeout_ms, 2000);
    assert_eq!(plan.steps[1].port_timeout_ms, 500);
    assert_eq!(plan.steps[1].ports, vec![22, 23, 80, 135, 139, 443, 445, 3389, 5900, 8080]);
    assert_eq!(plan.steps[2].kind, ProbeKind::Ping);
    assert_eq!(plan.steps[2].timeout_ms, 3000);
}

#[test]
fn quick_plan_has_no_ping() {
    let plan = ProbePlan::quick();
    assert_eq!(plan.steps.len(), 2);
    assert_eq!(plan.steps[0].kind, ProbeKind::Arp);
    assert_eq!(plan.steps[0].timeout_ms, 500);
    assert_eq!(plan.steps[1].kind, ProbeKind::TcpScan);
    assert_eq!(plan.steps[1].timeout_ms, 1000);
    assert_eq!(plan.steps[1].port_timeout_ms, 200);
    assert_eq!(plan.steps[1].ports, vec![80, 443, 22, 3389, 445]);
}

#[test]
fn unreachable_host_is_offline() {
    let (r, ran) = run(ProbePlan::full(), &[negative(1000), negative(2000), negative(3000)]);
    assert_eq!(ran, 3);
    assert!(!r.is_online);
    assert_eq!(r.method, DetectionMethod::NotDetected);
    assert_eq!(r.response_time_ms, None);
    assert_eq!(r.details, "Device not detected by any method");
}

#[test]
fn quick_check_of_unreachable_host_runs_two_probes() {
    let mut session = DetectionSession::new(ProbePlan::quick());
    let first = session.next_probe().unwrap();
    assert_eq!(first.kind, ProbeKind::Arp);
    session.record(negative(500));
    let second = session.next_probe().unwrap();
    assert_eq!(second.kind, ProbeKind::TcpScan);
    session.record(negative(1000));
    assert!(session.next_probe().is_none());
    assert!(session.finished());
    assert!(!session.result().is_online);
}

#[test]
fn arp_entry_detects_host_within_arp_timeout() {
    let (r, ran) = run(ProbePlan::full(), &[positive(12), negative(0), negative(0)]);
    assert_eq!(ran, 1);
    assert!(r.is_online);
    assert_eq!(r.method, DetectionMethod::Arp);
    assert_eq!(r.response_time_ms, Some(12));
    assert!(r.response_time_ms.unwrap() < 1000);
    assert_eq!(r.details, "Device detected via ARP in 12ms");
}

#[test]
fn open_tcp_port_detects_host_without_arp() {
    let (r, ran) = run(ProbePlan::full(), &[negative(40), positive(300), negative(0)]);
    assert_eq!(ran, 2);
    assert!(r.is_online);
    assert_eq!(r.method, DetectionMethod::TcpScan);
    assert_eq!(r.response_time_ms, Some(340));
    assert_eq!(r.details, "Device detected via TCP_SCAN in 340ms");
}

#[test]
fn ping_is_the_last_resort() {
    let (r, _) = run(ProbePlan::full(), &[negative(1000), negative(2000), positive(25)]);
    assert_eq!(r.method, DetectionMethod::Ping);
    assert_eq!(r.response_time_ms, Some(3025));
}

#[test]
fn late_positive_counts_as_timeout() {
    // The ARP probe answered after its 1 s budget: it was abandoned at 1 s.
    let (r, ran) = run(ProbePlan::full(), &[positive(1500), positive(100), negative(0)]);
    assert_eq!(ran, 2);
    assert_eq!(r.method, DetectionMethod::TcpScan);
    assert_eq!(r.response_time_ms, Some(1100));
}

#[test]
fn repeated_detection_agrees() {
    let outcomes = [negative(10), positive(200), negative(0)];
    let (a, _) = run(ProbePlan::full(), &outcomes);
    let (b, _) = run(ProbePlan::full(), &[negative(30), positive(150), negative(0)]);
    assert_eq!(a.is_online, b.is_online);
    assert_eq!(a.method, b.method);
}

#[test]
fn scan_stops_at_listener_on_443() {
    let plan = ProbePlan::full();
    let mut scan = TcpScan::new(&plan.steps[1], true);
    let mut tried = Vec::new();
    while let Some(port) = scan.next_port() {
        tried.push(port);
        let connected = port == 443;
        scan.record(ProbeOutcome { positive: connected, elapsed_ms: if connected { 3 } else { 1 } });
    }
    assert_eq!(tried, vec![22, 23, 80, 135, 139, 443]);
    assert!(scan.found_open_port());
    assert_eq!(scan.outcome(), Ok(true));
}

#[test]
fn scan_of_closed_host_tries_every_port() {
    let plan = ProbePlan::quick();
    let mut scan = TcpScan::new(&plan.steps[1], true);
    let mut count = 0;
    while scan.next_port().is_some() {
        scan.record(negative(200));
        count += 1;
    }
    assert_eq!(count, 5);
    assert!(!scan.found_open_port());
    assert_eq!(scan.outcome(), Ok(false));
}

#[test]
fn slow_connect_is_not_an_open_port() {
    let plan = ProbePlan::quick();
    let mut scan = TcpScan::new(&plan.steps[1], true);
    scan.record(positive(250));
    assert!(!scan.found_open_port());
    assert_eq!(scan.next_port(), Some(443));
}

#[test]
fn malformed_address_is_negative_not_a_crash() {
    let plan = ProbePlan::full();
    let scan = TcpScan::new(&plan.steps[1], false);
    assert_eq!(scan.next_port(), None);
    assert!(!scan.found_open_port());
    assert_eq!(scan.outcome(), Err(ScanError::InvalidAddress));
    let quick = ProbePlan::quick();
    let quick_scan = TcpScan::new(&quick.steps[1], false);
    assert_eq!(quick_scan.next_port(), None);
    assert_eq!(quick_scan.outcome(), Err(ScanError::InvalidAddress));
    // The ARP tool reports an unknown host on stderr; its stdout stays empty.
    assert!(!arp_shows_host("", "not-an-ip"));
    assert!(!arp_shows_host("No ARP Entries Found.\n", "not-an-ip"));
    assert!(!ping_answered(Platform::Unix, false, "ping: not-an-ip: Name or service not known"));
    let (r, _) = run(ProbePlan::full(), &[negative(3), negative(0), negative(4)]);
    assert!(!r.is_online);
    assert_eq!(r.method, DetectionMethod::NotDetected);
}

#[test]
fn arp_output_reading() {
    let unix = "? (192.168.1.10) at aa:bb:cc:dd:ee:ff [ether] on eth0\n";
    assert!(arp_shows_host(unix, "192.168.1.10"));
    assert!(!arp_shows_host(unix, "192.168.1.11"));
    let incomplete = "192.168.1.10                     (incomplete)                              eth0\n";
    assert!(!arp_shows_host(incomplete, "192.168.1.10"));
    let no_mac = "192.168.1.10 -- no entry\n";
    let longer = "192.168.1.10 ether aa:bb:cc:dd:ee:ff\n";
    assert!(!arp_shows_host(longer, "192.168.1.1"));
    assert!(arp_shows_host(longer, "192.168.1.10"));
    let other_line = "? (192.168.1.1) at <incomplete> on eth0\n? (192.168.1.10) at aa:bb:cc:dd:ee:ff [ether] on eth0\n";
    assert!(!arp_shows_host(other_line, "192.168.1.1"));
    assert!(arp_shows_host(other_line, "192.168.1.10"));
    assert!(!arp_shows_host("192.168.1.10 at 12:30 on eth0\n", "192.168.1.10"));
    assert!(!arp_shows_host(no_mac, "192.168.1.10"));
    let windows = "Interface: 192.168.1.2 --- 0xb\n  192.168.1.10          aa-bb-cc-dd-ee-ff     dynamic\n";
    assert!(arp_shows_host(windows, "192.168.1.10"));
    assert!(!arp_shows_host("No ARP Entries Found.", "192.168.1.10"));
}

#[test]
fn ping_output_reading() {
    let unix = "64 bytes from 192.168.1.10: icmp_seq=1 ttl=64 time=0.512 ms";
    assert!(ping_answered(Platform::Unix, true, unix));
    assert!(!ping_answered(Platform::Unix, false, unix));
    assert!(!ping_answered(Platform::Unix, true, "1 packets transmitted, 0 received"));
    let windows = "Reply from 192.168.1.10: bytes=32 time<1ms TTL=128";
    assert!(ping_answered(Platform::Windows, true, windows));
    assert!(!ping_answered(Platform::Windows, true, "Request timed out."));
    assert!(!ping_answered(Platform::Windows, true, "ttl=64 time=1ms"));
}

#[test]
fn command_arguments() {
    assert_eq!(Platform::Unix.arp_command_args("10.0.0.1"), vec!["-n", "10.0.0.1"]);
    assert_eq!(Platform::Windows.arp_command_args("10.0.0.1"), vec!["-a", "10.0.0.1"]);
    assert_eq!(Platform::Unix.ping_command_args("10.0.0.1"), vec!["-c", "1", "-W", "1", "10.0.0.1"]);
    assert_eq!(Platform::Windows.ping_command_args("10.0.0.1"), vec!["-n", "1", "-w", "1000", "10.0.0.1"]);
}

#[test]
fn sweep_of_prefix_covers_hosts_1_to_254() {
    let targets = sweep_targets("192.168.1").unwrap();
    assert_eq!(targets.len(), 254);
    assert_eq!(targets[0], "192.168.1.1");
    assert_eq!(targets[99], "192.168.1.100");
    assert_eq!(targets[253], "192.168.1.254");
    assert!(!targets.iter().any(|t| t == "192.168.1.0" || t == "192.168.1.255"));
    let mut sorted = targets.clone();
    sorted.sort();
    sorted.dedup();
    assert_eq!(sorted.len(), 254);
}

#[test]
fn sweep_accepts_a_full_address() {
    let targets = sweep_targets("10.1.2.0").unwrap();
    assert_eq!(targets[0], "10.1.2.1");
    assert_eq!(targets[253], "10.1.2.254");
}

#[test]
fn sweep_refuses_other_text() {
    assert!(sweep_targets("10.1").is_none());
    assert!(sweep_targets("1.2.3.4.5").is_none());
    assert!(sweep_targets("").is_none());
}

fn result(online: bool, method: DetectionMethod, ms: Option<u64>) -> DeviceDetectionResult {
    DeviceDetectionResult { is_online: online, method, response_time_ms: ms, details: format!("{:?}", method) }
}

#[test]
fn sweep_keeps_only_online_hosts_in_order() {
    let targets = vec!["192.168.1.1".to_string(), "192.168.1.2".to_string(), "192.168.1.3".to_string()];
    let results = vec![
        result(true, DetectionMethod::Arp, Some(3)),
        result(false, DetectionMethod::NotDetected, None),
        result(true, DetectionMethod::Ping, Some(1200)),
    ];
    let found = collect_online(&targets, &results);
    assert_eq!(found.len(), 2);
    assert_eq!(found[0].ip_address, "192.168.1.1");
    assert_eq!(found[0].method_detected, DetectionMethod::Arp);
    assert_eq!(found[0].response_time_ms, Some(3));
    assert_eq!(found[1].ip_address, "192.168.1.3");
    assert_eq!(found[1].details, "Ping");
    assert!(collect_online(&Vec::new(), &Vec::new()).is_empty());
}

#[test]
fn sweep_reports_hosts_of_the_prefix_only() {
    let targets = sweep_targets("192.168.1").unwrap();
    let results: Vec<DeviceDetectionResult> = (1..=254)
        .map(|h| if h % 50 == 0 { result(true, DetectionMethod::TcpScan, Some(40)) } else { result(false, DetectionMethod::NotDetected, None) })
        .collect();
    let found = collect_online(&targets, &results);
    let addresses: Vec<&str> = found.iter().map(|d| d.ip_address.as_str()).collect();
    assert_eq!(addresses, vec!["192.168.1.50", "192.168.1.100", "192.168.1.150", "192.168.1.200", "192.168.1.250"]);
    assert!(found.iter().all(|d| d.method_detected != DetectionMethod::NotDetected && d.response_time_ms.is_some()));
}

#[test]
fn hardware_address_from_arp_output() {
    let unix = "Address                  HWtype  HWaddress           Flags Mask            Iface\n\
                192.168.1.10             ether   aa:bb:cc:dd:ee:ff   C                     eth0\n";
    assert_eq!(mac_from_arp_output(unix, "192.168.1.10").as_deref(), Some("aa:bb:cc:dd:ee:ff"));
    let windows = "Interface: 192.168.1.2 --- 0xb\n  Internet Address      Physical Address      Type\n  192.168.1.10          aa-bb-cc-dd-ee-ff     dynamic\n";
    assert_eq!(
        mac_from_arp_output(windows, "192.168.1.10").as_deref(),
        Some("aa-bb-cc-dd-ee-ff")
    );
    assert_eq!(mac_from_arp_output(unix, "192.168.1.99"), None);
    assert_eq!(mac_from_arp_output(unix, "192.168.1.1"), None);
    let paren = "? (192.168.1.1) at 00:11:22:33:44:55 [ether] on eth0\n";
    assert_eq!(mac_from_arp_output(paren, "192.168.1.1").as_deref(), Some("00:11:22:33:44:55"));
}

#[test]
fn detailed_result_names_the_hardware_address() {
    let r = with_hardware_address(result(true, DetectionMethod::Arp, Some(5)), Some("aa:bb".to_string()));
    assert_eq!(r.details, "Arp (MAC: aa:bb)");
    let off = with_hardware_address(result(false, DetectionMethod::NotDetected, None), Some("x".to_string()));
    assert_eq!(off.details, "NotDetected");
    let none = with_hardware_address(result(true, DetectionMethod::Ping, Some(5)), None);
    assert_eq!(none.details, "Ping");
}

#[test]
fn method_labels() {
    assert_eq!(DetectionMethod::Arp.label(), "ARP");
    assert_eq!(DetectionMethod::TcpScan.label(), "TCP_SCAN");
    assert_eq!(DetectionMethod::Ping.label(), "PING");
    assert_eq!(DetectionMethod::NotDetected.label(), "ALL_METHODS");
}
