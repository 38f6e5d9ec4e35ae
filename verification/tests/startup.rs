use ip_bypass_plus_frag::addr::{IpAddr, IpNet, Ipv4Addr, Ipv6Addr};
use ip_bypass_plus_frag::config::{Config, LinuxFirewallBackend};
use ip_bypass_plus_frag::methods::TlsRecordFrag;
use ip_bypass_plus_frag::proxy::IpPoolEntry;
use ip_bypass_plus_frag::scan::IpProbeEntry;
use ip_bypass_plus_frag::startup::{
    interceptor_plan, list_entry, reject_ipv6_ip_candidates, require_ipv4_target,
    requires_packet_interception, rescan_interval, rescan_target, root_required_message,
    rootless_alternatives, FilterSpec, InterceptorPlan, ListEntry, Selected, Startup, StartupAction,
    StartupEvent, StartupFault, StartupOptions, StartupPhase,
};

fn v4(a: u8, b: u8, c: u8, d: u8) -> IpAddr {
    IpAddr::V4(Ipv4Addr { bits: u32::from_be_bytes([a, b, c, d]) })
}

fn v6(n: u128) -> IpAddr {
    IpAddr::V6(Ipv6Addr { bits: n })
}

fn entry(ip: IpAddr, score: u8) -> IpProbeEntry {
    IpProbeEntry {
        ip,
        tcp_latency_ms: Some(1),
        tls_ok: true,
        tls_latency_ms: Some(1),
        cert_valid: true,
        ttfb_ms: Some(1),
        download_bps: None,
        upload_bps: None,
        http_status: None,
        score,
    }
}

fn options() -> StartupOptions {
    StartupOptions {
        selected_ip: None,
        range: None,
        pool: false,
        auto_select: false,
        no_tui: false,
        ip_pool: 2,
    }
}

fn at(options: StartupOptions, phase: StartupPhase) -> Startup {
    Startup { options, phase }
}

fn defaults() -> Config {
    Config::with_defaults("127.0.0.1".to_string(), 40443)
}

#[test]
fn selected_address_skips_the_scan() {
    let selected = StartupOptions { selected_ip: Some("104.16.0.1".to_string()), ..options() };
    let (_, step) = Startup::new(selected).step(StartupEvent::Begin);
    assert_eq!(step.selected, Some(Selected { ip: v4(104, 16, 0, 1), score: None }));
    match step.action {
        StartupAction::Run(plan) => {
            assert_eq!(IpAddr::V4(plan.ip), v4(104, 16, 0, 1));
            assert!(plan.pool.is_empty());
        }
        other => panic!("{other:?}"),
    }
    let bad = StartupOptions { selected_ip: Some("nowhere".to_string()), ..options() };
    let (_, step) = Startup::new(bad).step(StartupEvent::Begin);
    match step.action {
        StartupAction::Fail(fault) => {
            assert_eq!(
                fault.text().unwrap(),
                "parsing SELECTED_IP 'nowhere': invalid IP address syntax"
            )
        }
        other => panic!("{other:?}"),
    }
    let six = StartupOptions { selected_ip: Some("::1".to_string()), ..options() };
    let (_, step) = Startup::new(six).step(StartupEvent::Begin);
    assert!(step.selected.is_none());
    assert!(matches!(step.action, StartupAction::Fail(StartupFault::Ipv6Target)));
}

#[test]
fn ranges_are_asked_for_on_a_terminal() {
    let (start, step) = Startup::new(options()).step(StartupEvent::Begin);
    assert!(matches!(step.action, StartupAction::ReadRanges));
    let ranges = vec!["104.16.0.0/16".to_string(), "104.17.0.0/16".to_string()];
    let (start, step) = start.step(StartupEvent::Ranges(ranges));
    assert!(matches!(step.action, StartupAction::AskRange));
    let (start, step) = start.step(StartupEvent::RangeChosen(1));
    assert!(matches!(step.action, StartupAction::ReadList));
    match start.phase {
        StartupPhase::ReadingList { net: Some(net) } => {
            assert_eq!(net, IpNet::V4(Ipv4Addr { bits: 0x6811_0000 }, 16))
        }
        other => panic!("{other:?}"),
    }
}

#[test]
fn single_range_is_taken_without_asking() {
    let start = at(options(), StartupPhase::ReadingRanges);
    let (start, step) = start.step(StartupEvent::Ranges(vec!["10.0.0.0/8".to_string()]));
    assert!(matches!(step.action, StartupAction::ReadList));
    assert!(matches!(
        start.phase,
        StartupPhase::ReadingList { net: Some(IpNet::V4(_, 8)) }
    ));
}

#[test]
fn headless_start_takes_the_whole_list() {
    let headless = StartupOptions { no_tui: true, ..options() };
    let start = at(headless, StartupPhase::ReadingRanges);
    let ranges = vec!["10.0.0.0/8".to_string(), "11.0.0.0/8".to_string()];
    let (start, step) = start.step(StartupEvent::Ranges(ranges));
    assert!(matches!(step.action, StartupAction::ReadList));
    assert!(matches!(start.phase, StartupPhase::ReadingList { net: None }));
    let start = at(options(), StartupPhase::ReadingRanges);
    let (start, _) = start.step(StartupEvent::Ranges(Vec::new()));
    assert!(matches!(start.phase, StartupPhase::ReadingList { net: None }));
}

#[test]
fn range_option_replaces_the_menu() {
    let given = StartupOptions { range: Some("104.16.0.0/16".to_string()), ..options() };
    let start = at(given, StartupPhase::ReadingRanges);
    let ranges = vec!["10.0.0.0/8".to_string(), "11.0.0.0/8".to_string()];
    let (start, step) = start.step(StartupEvent::Ranges(ranges));
    assert!(matches!(step.action, StartupAction::ReadList));
    assert!(matches!(
        start.phase,
        StartupPhase::ReadingList { net: Some(IpNet::V4(Ipv4Addr { bits: 0x6810_0000 }, 16)) }
    ));
    let bad = StartupOptions { range: Some("104.16.0.0/33".to_string()), ..options() };
    let (_, step) = at(bad, StartupPhase::ReadingRanges).step(StartupEvent::Ranges(Vec::new()));
    match step.action {
        StartupAction::Fail(fault) => {
            assert_eq!(
                fault.text().unwrap(),
                "parsing CIDR range '104.16.0.0/33': invalid IP address syntax"
            )
        }
        other => panic!("{other:?}"),
    }
}

#[test]
fn scan_covers_the_range() {
    let net = IpNet::V4(Ipv4Addr { bits: 0x6810_0000 }, 16);
    let mut all: Vec<IpAddr> = (0..=255).map(|d| v4(104, 16, 7, d)).collect();
    all.push(v4(104, 17, 0, 1));
    all.push(v4(104, 16, 7, 7));
    let start = at(options(), StartupPhase::ReadingList { net: Some(net) });
    let (_, step) = start.step(StartupEvent::ListLoaded(all.clone()));
    let ips = match step.action {
        StartupAction::Scan { ips } => ips,
        other => panic!("{other:?}"),
    };
    let key = |ip: &IpAddr| match ip {
        IpAddr::V4(a) => a.bits,
        IpAddr::V6(_) => 0,
    };
    let mut expected: Vec<IpAddr> =
        all.into_iter().filter(|ip| *ip != v4(104, 17, 0, 1)).collect();
    // The order is left to chance: that of 257 addresses is not kept.
    assert_ne!(ips, expected);
    let mut sorted = ips;
    sorted.sort_by_key(key);
    expected.sort_by_key(key);
    assert_eq!(sorted, expected);
}

#[test]
fn whole_list_is_scanned_as_it_stands() {
    let all = vec![v4(9, 9, 9, 9), v6(1), v4(1, 1, 1, 1)];
    let start = at(options(), StartupPhase::ReadingList { net: None });
    let (_, step) = start.step(StartupEvent::ListLoaded(all.clone()));
    match step.action {
        StartupAction::Scan { ips } => assert_eq!(ips, all),
        other => panic!("{other:?}"),
    }
}

#[test]
fn lists_can_be_refused() {
    let net = IpNet::V4(Ipv4Addr { bits: 0x6810_0000 }, 16);
    let start = at(options(), StartupPhase::ReadingList { net: Some(net) });
    let (_, step) =
        start.step(StartupEvent::ListLoaded(vec![v4(104, 16, 0, 1), v6(5), v6(6)]));
    assert!(matches!(
        step.action,
        StartupAction::Fail(StartupFault::Ipv6Candidate { ip }) if ip == v6(5)
    ));
    let start = at(options(), StartupPhase::ReadingList { net: Some(net) });
    let (_, step) = start.step(StartupEvent::ListLoaded(vec![v4(1, 1, 1, 1)]));
    match step.action {
        StartupAction::Fail(fault) => assert!(fault.text().is_none()),
        other => panic!("{other:?}"),
    }
    let start = at(options(), StartupPhase::ReadingList { net: None });
    let (_, step) = start.step(StartupEvent::ListLoaded(Vec::new()));
    assert!(matches!(step.action, StartupAction::Fail(StartupFault::EmptyList)));
}

#[test]
fn scan_without_results_fails() {
    let start = at(options(), StartupPhase::Scanning);
    let (_, step) = start.step(StartupEvent::Scanned(Vec::new()));
    match step.action {
        StartupAction::Fail(fault) => assert_eq!(
            fault.text().unwrap(),
            "ip_bypass_plus: no IPs passed the scan — check connectivity or ip_list"
        ),
        other => panic!("{other:?}"),
    }
}

#[test]
fn best_address_is_selected_without_asking() {
    let entries = vec![entry(v4(1, 0, 0, 1), 90), entry(v4(1, 0, 0, 2), 80)];
    for chosen in [
        StartupOptions { auto_select: true, ..options() },
        StartupOptions { no_tui: true, ..options() },
    ] {
        let start = at(chosen, StartupPhase::Scanning);
        let (_, step) = start.step(StartupEvent::Scanned(entries.clone()));
        assert_eq!(step.selected, Some(Selected { ip: v4(1, 0, 0, 1), score: Some(90) }));
        match step.action {
            StartupAction::Run(plan) => assert!(plan.pool.is_empty()),
            other => panic!("{other:?}"),
        }
    }
}

#[test]
fn pool_takes_the_best() {
    let entries = vec![
        entry(v4(1, 0, 0, 1), 90),
        entry(v4(1, 0, 0, 2), 80),
        entry(v4(1, 0, 0, 3), 70),
    ];
    // Asked for at the start, without a terminal.
    let asked = StartupOptions { pool: true, no_tui: true, ..options() };
    let start = at(asked, StartupPhase::Scanning);
    let (_, step) = start.step(StartupEvent::Scanned(entries.clone()));
    match step.action {
        StartupAction::Run(plan) => {
            assert_eq!(IpAddr::V4(plan.ip), v4(1, 0, 0, 1));
            assert_eq!(
                plan.pool,
                vec![
                    IpPoolEntry { ip: v4(1, 0, 0, 1), score: 90 },
                    IpPoolEntry { ip: v4(1, 0, 0, 2), score: 80 },
                ]
            );
        }
        other => panic!("{other:?}"),
    }
    // Chosen in the menu, with fewer results than the pool may have.
    let big = StartupOptions { ip_pool: 10, ..options() };
    let start = at(big, StartupPhase::Scanning);
    let (start, step) = start.step(StartupEvent::Scanned(entries));
    assert!(matches!(step.action, StartupAction::AskMode));
    let (_, step) = start.step(StartupEvent::ModeChosen(true));
    match step.action {
        StartupAction::Run(plan) => assert_eq!(plan.pool.len(), 3),
        other => panic!("{other:?}"),
    }
}

#[test]
fn address_is_chosen_in_the_menu() {
    let entries = vec![entry(v4(1, 0, 0, 1), 90), entry(v4(1, 0, 0, 2), 80)];
    let start = at(options(), StartupPhase::AskingMode { entries });
    let (start, step) = start.step(StartupEvent::ModeChosen(false));
    assert!(matches!(step.action, StartupAction::AskIp));
    let (_, step) = start.step(StartupEvent::IpChosen(1));
    assert_eq!(step.selected, Some(Selected { ip: v4(1, 0, 0, 2), score: Some(80) }));
    match step.action {
        StartupAction::Run(plan) => assert_eq!(IpAddr::V4(plan.ip), v4(1, 0, 0, 2)),
        other => panic!("{other:?}"),
    }
}

#[test]
fn ipv6_result_is_told_and_refused() {
    let automatic = StartupOptions { auto_select: true, ..options() };
    let start = at(automatic, StartupPhase::Scanning);
    let (_, step) = start.step(StartupEvent::Scanned(vec![entry(v6(1), 90)]));
    assert_eq!(step.selected, Some(Selected { ip: v6(1), score: Some(90) }));
    match step.action {
        StartupAction::Fail(fault) => assert_eq!(
            fault.text().unwrap(),
            "ip_bypass_plus is IPv4-only; got IPv6 address"
        ),
        other => panic!("{other:?}"),
    }
}

#[test]
fn options_come_from_the_configuration() {
    let mut cfg = defaults();
    cfg.SELECTED_IP = Some("1.2.3.4".to_string());
    cfg.AUTO_SELECT = true;
    cfg.IP_POOL = 5;
    let o = StartupOptions::new(&cfg, Some("r".to_string()), true, false);
    assert_eq!(o.selected_ip.as_deref(), Some("1.2.3.4"));
    assert_eq!(o.range.as_deref(), Some("r"));
    assert!(o.pool && o.auto_select && !o.no_tui);
    assert_eq!(o.ip_pool, 5);
}

#[test]
fn interception_is_needed_for_records_only() {
    let mut cfg = defaults();
    assert!(!requires_packet_interception(&cfg));
    cfg.BYPASS_METHOD = "tls_record_frag".to_string();
    assert!(requires_packet_interception(&cfg));
    assert_eq!(
        root_required_message(&cfg),
        "MODE = \"ip_bypass_plus\" with BYPASS_METHOD = \"tls_record_frag\" requires packet interception; on Android the app must start via su/root. Rootless alternative: BYPASS_METHOD = \"tls_frag\"."
    );
    assert_eq!(rootless_alternatives(), vec!["BYPASS_METHOD = \"tls_frag\"".to_string()]);
}

#[test]
fn interceptor_is_planned() {
    let iface = Ipv4Addr { bits: 0x0a00_0001 };
    let mut cfg = defaults();
    assert_eq!(interceptor_plan(&cfg, iface), InterceptorPlan::Unneeded);
    cfg.BYPASS_METHOD = "tls_record_frag".to_string();
    cfg.NFQUEUE_NUM = 3;
    cfg.LINUX_FIREWALL_BACKEND = "nftables".to_string();
    assert_eq!(
        interceptor_plan(&cfg, iface),
        InterceptorPlan::Open {
            method: TlsRecordFrag { size: 1, set_psh: true, bump_ip_ident: true },
            filter: FilterSpec {
                interface_ip: iface,
                remote_ip: None,
                remote_port: 443,
                queue_num: 3,
                linux_firewall_backend: LinuxFirewallBackend::Nftables,
            },
        }
    );
    cfg.BYPASS_METHOD = "other".to_string();
    assert_eq!(interceptor_plan(&cfg, iface), InterceptorPlan::UnknownMethod);
}

#[test]
fn rescan_switches_to_better_targets() {
    let current = v4(1, 1, 1, 1);
    let better = entry(v4(2, 2, 2, 2), 50);
    assert_eq!(rescan_target(current, &[], 1), None);
    assert_eq!(rescan_target(current, &[better], 50), Some(v4(2, 2, 2, 2)));
    assert_eq!(rescan_target(current, &[better], 51), None);
    assert_eq!(rescan_target(v4(2, 2, 2, 2), &[better], 1), None);
    let mut cfg = defaults();
    assert_eq!(rescan_interval(&cfg), None);
    cfg.RESCAN_INTERVAL_SECS = 60;
    assert_eq!(rescan_interval(&cfg), Some(60));
}

#[test]
fn targets_have_to_be_ipv4() {
    assert_eq!(require_ipv4_target(v4(1, 2, 3, 4), "m"), Ok(Ipv4Addr { bits: 0x0102_0304 }));
    assert_eq!(
        require_ipv4_target(v6(1), "m"),
        Err("m is IPv4-only; got IPv6 address".to_string())
    );
    assert_eq!(reject_ipv6_ip_candidates(&[v4(1, 1, 1, 1)]), Ok(()));
    assert_eq!(reject_ipv6_ip_candidates(&[v4(1, 1, 1, 1), v6(2), v6(3)]), Err(v6(2)));
}

#[test]
fn lines_of_the_list_are_read() {
    assert_eq!(list_entry("  "), ListEntry::Blank);
    assert_eq!(list_entry(" 104.16.0.1 "), ListEntry::Ip(v4(104, 16, 0, 1)));
    assert_eq!(
        list_entry("104.16.0.0/16"),
        ListEntry::Net(IpNet::V4(Ipv4Addr { bits: 0x6810_0000 }, 16))
    );
    assert_eq!(list_entry("::1/128"), ListEntry::Net(IpNet::V6(Ipv6Addr { bits: 1 }, 128)));
    assert_eq!(list_entry("104.16.0.0/33"), ListEntry::Bad);
    assert_eq!(list_entry("example.com"), ListEntry::Bad);
}
