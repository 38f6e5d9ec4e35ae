use ip_bypass_plus_frag::config::{
    default_true, empty_string_as_none, parse_i32, Binary64, Config, Int32Range,
    LinuxFirewallBackend, Overrides, TlsFragPackets,
};
use ip_bypass_plus_frag::methods::{build_method, TcpSegmentation, TlsRecordFrag};

fn defaults() -> Config {
    Config::with_defaults("127.0.0.1".to_string(), 40443)
}

fn message(cfg: &Config) -> String {
    cfg.validate().unwrap_err().message
}

fn no_overrides() -> Overrides {
    Overrides {
        listen_host: None,
        listen_port: None,
        auto_select: false,
        method: None,
        queue_num: None,
        scan_timeout: None,
        rescan_interval: None,
        sni_switch_min_score: None,
        bypass_timeout: None,
        relay_max_lifetime: None,
    }
}

#[test]
fn exact_range_holds_one_number() {
    assert_eq!(Int32Range::exact(7), Int32Range { min: 7, max: 7 });
}

#[test]
fn ranges_are_read() {
    assert_eq!(Int32Range::parse("100-200"), Ok(Int32Range { min: 100, max: 200 }));
    assert_eq!(Int32Range::parse("  5 - 9 "), Ok(Int32Range { min: 5, max: 9 }));
    assert_eq!(Int32Range::parse("42"), Ok(Int32Range { min: 42, max: 42 }));
    assert_eq!(Int32Range::parse("+3"), Ok(Int32Range { min: 3, max: 3 }));
    assert_eq!(
        Int32Range::parse("2147483647"),
        Ok(Int32Range { min: i32::MAX, max: i32::MAX })
    );
}

#[test]
fn bad_ranges_say_why() {
    assert_eq!(Int32Range::parse("   "), Err("range cannot be empty".to_string()));
    assert_eq!(
        Int32Range::parse(" 9-5"),
        Err("range '9-5' has max lower than min".to_string())
    );
    assert_eq!(
        Int32Range::parse("a-5"),
        Err("'a' is not a valid Int32 value".to_string())
    );
    assert_eq!(
        Int32Range::parse("5-"),
        Err("'' is not a valid Int32 value".to_string())
    );
    assert_eq!(
        Int32Range::parse("2147483648"),
        Err("'2147483648' is not a valid Int32 value".to_string())
    );
    // A leading minus separates an empty number from another one.
    assert_eq!(
        Int32Range::parse("-5"),
        Err("'' is not a valid Int32 value".to_string())
    );
}

#[test]
fn ranges_read_back_from_their_text() {
    for range in [
        Int32Range { min: 0, max: 0 },
        Int32Range { min: 1, max: 10 },
        Int32Range { min: 100, max: i32::MAX },
    ] {
        assert_eq!(Int32Range::parse(&range.to_text()), Ok(range));
    }
    assert_eq!(Int32Range { min: 3, max: 8 }.to_text(), "3-8");
    assert_eq!(Int32Range { min: -4, max: -4 }.to_text(), "-4");
}

#[test]
fn numbers_are_read_as_std_reads_them() {
    for text in [
        "0", "-0", "+0", "", "+", "-", "12", "-12", "2147483647", "2147483648", "-2147483648",
        "-2147483649", "1 ", " 1", "1a", "0000000000000000000007", "--1", "+-1", "٣",
    ] {
        assert_eq!(parse_i32(text).ok(), text.parse::<i32>().ok(), "{text}");
    }
    assert_eq!(parse_i32("x"), Err("'x' is not a valid Int32 value".to_string()));
}

#[test]
fn range_minimum_is_checked() {
    let range = Int32Range { min: 2, max: 9 };
    assert!(range.validate_at_least("F", 2).is_ok());
    assert_eq!(range.validate_at_least("F", 3).unwrap_err().message, "F must be >= 3");
}

#[test]
fn packets_are_read() {
    assert_eq!(TlsFragPackets::parse(" TlsHello "), Ok(TlsFragPackets::TlsHello));
    assert_eq!(
        TlsFragPackets::parse("1-3"),
        Ok(TlsFragPackets::WriteRange { start: 1, end: 3 })
    );
    assert_eq!(
        TlsFragPackets::parse("4"),
        Ok(TlsFragPackets::WriteRange { start: 4, end: 4 })
    );
    assert_eq!(
        TlsFragPackets::parse("3-1"),
        Err("packet range '3-1' has end lower than start".to_string())
    );
    assert_eq!(
        TlsFragPackets::parse("0-1"),
        Err("packet indexes are 1-based and must be >= 1".to_string())
    );
    assert_eq!(
        TlsFragPackets::parse("x -2"),
        Err("'x ' is not a valid packet index".to_string())
    );
    assert_eq!(
        TlsFragPackets::parse("4294967296"),
        Err("'4294967296' is not a valid packet index".to_string())
    );
}

#[test]
fn packets_include_their_writes() {
    let range = TlsFragPackets::WriteRange { start: 2, end: 3 };
    assert!(!range.includes_write(1));
    assert!(range.includes_write(2));
    assert!(range.includes_write(3));
    assert!(!range.includes_write(4));
    assert!(!TlsFragPackets::TlsHello.includes_write(1));
}

#[test]
fn firewall_backends_have_names() {
    assert_eq!(LinuxFirewallBackend::parse("iptables"), Some(LinuxFirewallBackend::Iptables));
    assert_eq!(LinuxFirewallBackend::parse("nftables"), Some(LinuxFirewallBackend::Nftables));
    assert_eq!(LinuxFirewallBackend::parse("IPTABLES"), None);
    assert_eq!(LinuxFirewallBackend::Nftables.as_str(), "nftables");
    let mut cfg = defaults();
    cfg.LINUX_FIREWALL_BACKEND = "nftables".to_string();
    assert_eq!(cfg.linux_firewall_backend(), LinuxFirewallBackend::Nftables);
    cfg.LINUX_FIREWALL_BACKEND = "pf".to_string();
    assert_eq!(cfg.linux_firewall_backend(), LinuxFirewallBackend::Iptables);
}

#[test]
fn empty_strings_count_as_none() {
    assert_eq!(empty_string_as_none(None), None);
    assert_eq!(empty_string_as_none(Some(String::new())), None);
    assert_eq!(empty_string_as_none(Some(" ".to_string())), Some(" ".to_string()));
}

#[test]
fn defaults_are_valid() {
    let cfg = defaults();
    assert!(cfg.validate().is_ok());
    assert!(default_true());
    assert_eq!(cfg.IP_LIST, "ip_list.txt");
    assert_eq!(cfg.IP_POOL, 1);
    assert_eq!(cfg.SCAN_TIMEOUT_SECS, 5);
    assert_eq!(cfg.BYPASS_METHOD, "tls_frag");
    assert_eq!(cfg.TLS_FRAG_PACKETS, "1-3");
    assert_eq!(cfg.TLS_FRAG_LENGTH, Some(Int32Range { min: 100, max: 200 }));
    assert_eq!(cfg.TLS_FRAG_INTERVAL_MS, Int32Range { min: 10, max: 20 });
    assert_eq!(cfg.IPV6_MAX_HOSTS, 65536);
    assert_eq!(cfg.BYPASS_TIMEOUT_SECS, 20);
    assert_eq!(cfg.SCAN_DOWNLOAD_CAP, 10240);
    assert_eq!(f64::from_bits(cfg.TCP_LATENCY_CAP_MS.bits), 500.0);
    assert_eq!(f64::from_bits(cfg.TLS_LATENCY_CAP_MS.bits), 1000.0);
    assert_eq!(f64::from_bits(cfg.TTFB_CAP_MS.bits), 2000.0);
    assert_eq!(f64::from_bits(cfg.SPEED_CAP_BPS.bits), 2_048_000.0);
    assert_eq!(f64::from_bits(cfg.UPLOAD_SPEED_CAP_BPS.bits), 2_048_000.0);
}

#[test]
fn every_rule_has_its_message() {
    let mut cfg = defaults();
    cfg.SCAN_TIMEOUT_SECS = 0;
    assert_eq!(message(&cfg), "SCAN_TIMEOUT_SECS must be > 0");
    let mut cfg = defaults();
    cfg.BYPASS_TIMEOUT_SECS = 0;
    assert_eq!(message(&cfg), "BYPASS_TIMEOUT_SECS must be > 0");
    let mut cfg = defaults();
    cfg.SNI_SWITCH_MIN_SCORE = 101;
    assert_eq!(message(&cfg), "SNI_SWITCH_MIN_SCORE must be <= 100");
    let mut cfg = defaults();
    cfg.SCAN_DOWNLOAD_CAP = 0;
    assert_eq!(message(&cfg), "SCAN_DOWNLOAD_CAP must be > 0");
    let mut cfg = defaults();
    cfg.SCAN_UPLOAD_CAP = 0;
    assert_eq!(message(&cfg), "SCAN_UPLOAD_CAP must be > 0");
    for path in ["", "upload", "/a\rb", "/a\nb"] {
        let mut cfg = defaults();
        cfg.SCAN_UPLOAD_PATH = path.to_string();
        assert_eq!(
            message(&cfg),
            "SCAN_UPLOAD_PATH must be a non-empty HTTP path starting with '/' and containing no CR/LF"
        );
    }
    let mut cfg = defaults();
    cfg.SPEED_CAP_BPS = Binary64 { bits: 0.0f64.to_bits() };
    assert_eq!(message(&cfg), "SPEED_CAP_BPS must be a finite value > 0");
    let mut cfg = defaults();
    cfg.UPLOAD_SPEED_CAP_BPS = Binary64 { bits: f64::NAN.to_bits() };
    assert_eq!(message(&cfg), "UPLOAD_SPEED_CAP_BPS must be a finite value > 0");
    let mut cfg = defaults();
    cfg.MODE = "ip_scan".to_string();
    assert_eq!(message(&cfg), "Unknown MODE 'ip_scan'. Only \"ip_bypass_plus\" is supported");
    let mut cfg = defaults();
    cfg.IP_POOL = 0;
    assert_eq!(message(&cfg), "IP_POOL must be >= 1");
    let mut cfg = defaults();
    cfg.BYPASS_METHOD = "wrong_seq".to_string();
    assert_eq!(
        message(&cfg),
        "Unknown BYPASS_METHOD 'wrong_seq'. Valid values: \"tls_record_frag\", \"tls_frag\""
    );
    let mut cfg = defaults();
    cfg.TLS_RECORD_FRAG_SIZE = 0;
    assert_eq!(message(&cfg), "TLS_RECORD_FRAG_SIZE must be >= 1");
    let mut cfg = defaults();
    cfg.TCP_SEG_SIZE = 0;
    assert_eq!(message(&cfg), "TCP_SEG_SIZE must be >= 1");
    let mut cfg = defaults();
    cfg.TCP_SEG_SIZE = 1 << 31;
    assert_eq!(message(&cfg), "TCP_SEG_SIZE must be <= i32::MAX");
    let mut cfg = defaults();
    cfg.TLS_FRAG_PACKETS = "0".to_string();
    assert_eq!(
        message(&cfg),
        "TLS_FRAG_PACKETS is invalid: packet indexes are 1-based and must be >= 1"
    );
    let mut cfg = defaults();
    cfg.TLS_FRAG_LENGTH = Some(Int32Range { min: 0, max: 5 });
    assert_eq!(message(&cfg), "TLS_FRAG_LENGTH must be >= 1");
    let mut cfg = defaults();
    cfg.TLS_FRAG_INTERVAL_MS = Int32Range { min: -1, max: 5 };
    assert_eq!(message(&cfg), "TLS_FRAG_INTERVAL_MS must be >= 0");
    let mut cfg = defaults();
    cfg.LINUX_FIREWALL_BACKEND = "pf".to_string();
    assert_eq!(
        message(&cfg),
        "Unknown LINUX_FIREWALL_BACKEND 'pf'. Valid values: \"iptables\", \"nftables\""
    );
    let mut cfg = defaults();
    cfg.SELECTED_IP = Some("1.2.3".to_string());
    assert_eq!(message(&cfg), "SELECTED_IP '1.2.3' is not a valid IP address");
    let mut cfg = defaults();
    cfg.SELECTED_IP = Some("::1".to_string());
    assert_eq!(message(&cfg), "ip_bypass_plus is IPv4-only; SELECTED_IP '::1' is IPv6");
    let mut cfg = defaults();
    cfg.SELECTED_IP = Some("104.16.0.1".to_string());
    assert!(cfg.validate().is_ok());
}

#[test]
fn positive_doubles_are_told_by_their_bits() {
    for (x, good) in [
        (1.0, true),
        (f64::MIN_POSITIVE, true),
        (f64::from_bits(1), true),
        (f64::MAX, true),
        (0.0, false),
        (-0.0, false),
        (-1.0, false),
        (f64::INFINITY, false),
        (f64::NEG_INFINITY, false),
        (f64::NAN, false),
    ] {
        assert_eq!(Binary64 { bits: x.to_bits() }.is_finite_and_positive(), good, "{x}");
    }
}

#[test]
fn fixed_length_stands_in_for_the_range() {
    let mut cfg = defaults();
    cfg.TLS_FRAG_LENGTH = None;
    cfg.TCP_SEG_SIZE = 12;
    assert_eq!(cfg.tls_frag_length_range().unwrap(), Int32Range { min: 12, max: 12 });
    cfg.TCP_SEG_SIZE = 1 << 31;
    assert_eq!(
        cfg.tls_frag_length_range().unwrap_err().message,
        "TCP_SEG_SIZE must be <= i32::MAX"
    );
}

#[test]
fn overrides_take_the_place_of_values() {
    let same = defaults().override_with(no_overrides());
    assert_eq!(same.LISTEN_HOST, "127.0.0.1");
    assert_eq!(same.LISTEN_PORT, 40443);
    assert!(!same.AUTO_SELECT);
    assert_eq!(same.BYPASS_METHOD, "tls_frag");
    let changed = defaults().override_with(Overrides {
        listen_host: Some("0.0.0.0".to_string()),
        listen_port: Some(1),
        auto_select: true,
        method: Some("tls_record_frag".to_string()),
        queue_num: Some(2),
        scan_timeout: Some(3),
        rescan_interval: Some(4),
        sni_switch_min_score: Some(5),
        bypass_timeout: Some(6),
        relay_max_lifetime: Some(7),
    });
    assert_eq!(changed.LISTEN_HOST, "0.0.0.0");
    assert_eq!(changed.LISTEN_PORT, 1);
    assert!(changed.AUTO_SELECT);
    assert_eq!(changed.BYPASS_METHOD, "tls_record_frag");
    assert_eq!(changed.NFQUEUE_NUM, 2);
    assert_eq!(changed.SCAN_TIMEOUT_SECS, 3);
    assert_eq!(changed.RESCAN_INTERVAL_SECS, 4);
    assert_eq!(changed.SNI_SWITCH_MIN_SCORE, 5);
    assert_eq!(changed.BYPASS_TIMEOUT_SECS, 6);
    assert_eq!(changed.RELAY_MAX_LIFETIME_SECS, 7);
    assert_eq!(changed.IP_LIST, "ip_list.txt");
}

#[test]
fn methods_are_built_by_name() {
    let mut cfg = defaults();
    assert_eq!(build_method(&cfg), None);
    cfg.BYPASS_METHOD = "tls_record_frag".to_string();
    cfg.TLS_RECORD_FRAG_SIZE = 9;
    cfg.TLS_RECORD_FRAG_SET_PSH = false;
    assert_eq!(
        build_method(&cfg),
        Some(TlsRecordFrag { size: 9, set_psh: false, bump_ip_ident: true })
    );
}

#[test]
fn segmentation_follows_the_configuration() {
    let cfg = defaults();
    let seg = TcpSegmentation::new(&cfg).unwrap();
    assert_eq!(seg.packets, TlsFragPackets::WriteRange { start: 1, end: 3 });
    assert_eq!(seg.length, Int32Range { min: 100, max: 200 });
    assert_eq!(seg.interval_ms, Int32Range { min: 10, max: 20 });
    assert!(seg.nodelay);
    assert!(seg.fragments_write(3));
    assert!(!seg.fragments_write(4));
}
