use ip_bypass_plus_frag::addr::{IpAddr, Ipv4Addr, Ipv6Addr};
use ip_bypass_plus_frag::config::{Binary64, Config};
use ip_bypass_plus_frag::embed::{
    load_config_code, log_level_code, result_count, running_after, scan_config, scan_fault_code,
    scan_result, scanned_target, selected_target, start_addresses, start_code, with_scan_limit, EmbedFault,
    LoadResult, LogLevel, ScanFault, StartResult, TargetFault, EMBEDDED_SCAN_LIMIT,
};
use ip_bypass_plus_frag::scan::IpProbeEntry;

fn entry(ip: IpAddr) -> IpProbeEntry {
    IpProbeEntry {
        ip,
        tcp_latency_ms: Some(11),
        tls_ok: true,
        tls_latency_ms: None,
        cert_valid: true,
        ttfb_ms: Some(33),
        download_bps: Some(Binary64 { bits: 4.5f64.to_bits() }),
        upload_bps: None,
        http_status: None,
        score: 77,
    }
}

#[test]
fn codes_of_the_interface() {
    assert_eq!(log_level_code(LogLevel::Error), 1);
    assert_eq!(log_level_code(LogLevel::Warn), 2);
    assert_eq!(log_level_code(LogLevel::Info), 0);
    assert_eq!(log_level_code(LogLevel::Debug), 3);
    assert_eq!(log_level_code(LogLevel::Trace), 3);
    assert_eq!(load_config_code(LoadResult::Loaded), 0);
    assert_eq!(load_config_code(LoadResult::BadPath), -1);
    assert_eq!(load_config_code(LoadResult::BadConfig), -2);
    assert_eq!(start_code(StartResult::Started), 0);
    assert_eq!(start_code(StartResult::AlreadyRunning), -1);
    assert_eq!(start_code(StartResult::BadPath), -2);
    assert_eq!(start_code(StartResult::NoThread), -3);
    assert!(running_after(StartResult::Started));
    assert!(running_after(StartResult::AlreadyRunning));
    assert!(!running_after(StartResult::BadPath));
    assert!(!running_after(StartResult::NoThread));
}

#[test]
fn scan_faults_have_codes_of_their_own() {
    let faults = [
        ScanFault::BadPath,
        ScanFault::BadSni,
        ScanFault::NoRuntime,
        ScanFault::Unreadable,
        ScanFault::BadConfig,
        ScanFault::BadList,
        ScanFault::EmptyList,
    ];
    for (i, fault) in faults.iter().enumerate() {
        assert_eq!(scan_fault_code(*fault), -1 - i as i32);
    }
}

#[test]
fn scan_limit_of_the_caller_counts() {
    let cfg = || {
        let mut cfg = Config::with_defaults("h".to_string(), 1);
        cfg.MAX_IP_SCAN = 5;
        cfg
    };
    assert_eq!(with_scan_limit(cfg(), 0).MAX_IP_SCAN, 5);
    assert_eq!(with_scan_limit(cfg(), 9).MAX_IP_SCAN, 9);
    assert_eq!(with_scan_limit(cfg(), EMBEDDED_SCAN_LIMIT).MAX_IP_SCAN, 1000);
    assert_eq!(result_count(3, 10), 3);
    assert_eq!(result_count(30, 10), 10);
    assert_eq!(result_count(0, 0), 0);
    assert_eq!(result_count(usize::MAX, 10), 10);
    assert_eq!(result_count(usize::MAX, u32::MAX), u32::MAX);
    assert_eq!(result_count(1 << 32, 10), 10);
}

#[test]
fn scan_needs_no_configuration_file() {
    let cfg = scan_config("example.com", 7);
    assert_eq!(cfg.IP_SCAN_SNI, "example.com");
    assert_eq!(cfg.MAX_IP_SCAN, 7);
    assert_eq!((cfg.LISTEN_HOST.as_str(), cfg.LISTEN_PORT), ("", 0));
    assert_eq!(cfg.IPV6_MAX_HOSTS, 65536);
    assert_eq!(cfg.BYPASS_METHOD, "tls_frag");
    assert!(cfg.validate().is_ok());
    assert_eq!(scan_config("", 0).MAX_IP_SCAN, 0);
}

#[test]
fn scan_results_are_handed_over() {
    let r = scan_result(&entry(IpAddr::V4(Ipv4Addr { bits: 1 })), b"1.2.3.4");
    assert_eq!(&r.ip, b"1.2.3.4\0\0\0\0\0\0\0\0\0");
    assert_eq!(r.ip_len, 7);
    assert_eq!(r.tcp_latency_ms, 11);
    assert!(r.tls_ok);
    assert_eq!(r.tls_latency_ms, 0);
    assert_eq!(r.ttfb_ms, 33);
    assert_eq!(f64::from_bits(r.download_bps.bits), 4.5);
    assert_eq!(f64::from_bits(r.upload_bps.bits), 0.0);
    assert_eq!(r.score, 77);
    let long = scan_result(&entry(IpAddr::V6(Ipv6Addr { bits: 1 })), b"2001:db8::1234:5678");
    assert_eq!(&long.ip, b"2001:db8::1234:\0");
    assert_eq!(long.ip_len, 15);
}

#[test]
fn embedded_targets() {
    assert_eq!(selected_target("1.2.3.4"), Ok(Ipv4Addr { bits: 0x0102_0304 }));
    assert_eq!(selected_target("x"), Err(TargetFault::BadAddress));
    assert_eq!(selected_target("::1"), Err(TargetFault::Ipv6));
    assert_eq!(TargetFault::BadAddress.text(), "invalid IP address syntax");
    assert_eq!(TargetFault::Ipv6.text(), "ip_bypass_plus is IPv4-only");
    assert_eq!(scanned_target(&[]), Ok(Ipv4Addr { bits: 0x0101_0101 }));
    let v4 = IpAddr::V4(Ipv4Addr { bits: 9 });
    assert_eq!(scanned_target(&[entry(v4)]), Ok(Ipv4Addr { bits: 9 }));
    let v6 = IpAddr::V6(Ipv6Addr { bits: 9 });
    assert_eq!(scanned_target(&[entry(v6), entry(v4)]), Err(TargetFault::Ipv6));
}

#[test]
fn faults_are_logged() {
    let e = || "e".to_string();
    for (fault, text) in [
        (EmbedFault::BadArgument, None),
        (EmbedFault::ConfigFile { error: e() }, Some("config error: e")),
        (EmbedFault::ConfigText { error: e() }, Some("config parse error: e")),
        (EmbedFault::NoRuntime, None),
        (EmbedFault::NoInterface, Some("failed to determine interface IP")),
        (EmbedFault::UnknownMethod { method: e() }, Some("unknown bypass method: e")),
        (EmbedFault::Interceptor { error: e() }, Some("interceptor open failed: e")),
    ] {
        assert_eq!(fault.log_text().as_deref(), text);
    }
}

#[test]
fn start_needs_both_addresses() {
    let (target, interface) = start_addresses(Some("1.2.3.4"), Some("10.0.0.1")).unwrap();
    assert_eq!(target, Ipv4Addr { bits: 0x0102_0304 });
    assert_eq!(interface, Ipv4Addr { bits: 0x0a00_0001 });
    for (target, interface) in [
        (None, Some("10.0.0.1")),
        (Some("1.2.3.4"), None),
        (Some("::1"), Some("10.0.0.1")),
        (Some("1.2.3.4"), Some("x")),
    ] {
        assert!(matches!(
            start_addresses(target, interface),
            Err(EmbedFault::BadArgument)
        ));
    }
}
