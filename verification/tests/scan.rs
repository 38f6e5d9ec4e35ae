use ip_bypass_plus_frag::addr::{IpAddr, Ipv4Addr};
use ip_bypass_plus_frag::config::Binary64;
use ip_bypass_plus_frag::menu::Key;
use ip_bypass_plus_frag::scan::{
    cert_style, found_enough, http_style, probe_cells, rank, scan_results, score_style, tcp_style,
    tls_style, Color, IpProbeEntry, IpScanEvent, ScanView,
};

fn entry(ip: u32, score: u8, latency: Option<u64>) -> IpProbeEntry {
    IpProbeEntry {
        ip: IpAddr::V4(Ipv4Addr { bits: ip }),
        tcp_latency_ms: latency,
        tls_ok: true,
        tls_latency_ms: Some(30),
        cert_valid: true,
        ttfb_ms: Some(40),
        download_bps: Some(Binary64 { bits: 1.5f64.to_bits() }),
        upload_bps: Some(Binary64 { bits: 2.5f64.to_bits() }),
        http_status: Some(200),
        score,
    }
}

#[test]
fn healthy_needs_every_phase() {
    let good = entry(1, 50, Some(10));
    assert!(good.is_healthy());
    assert!(!IpProbeEntry { tcp_latency_ms: None, ..good }.is_healthy());
    assert!(!IpProbeEntry { tls_ok: false, ..good }.is_healthy());
    assert!(!IpProbeEntry { cert_valid: false, ..good }.is_healthy());
    assert!(!IpProbeEntry { ttfb_ms: None, ..good }.is_healthy());
    assert!(!IpProbeEntry { download_bps: None, ..good }.is_healthy());
    assert!(!IpProbeEntry { upload_bps: None, ..good }.is_healthy());
    assert!(IpProbeEntry { http_status: None, tls_latency_ms: None, ..good }.is_healthy());
}

#[test]
fn scan_stops_at_enough_healthy_addresses() {
    let good = entry(1, 50, Some(10));
    let bad = IpProbeEntry { tls_ok: false, ..good };
    let entries = vec![good, bad, good];
    assert!(!found_enough(&entries, 0));
    assert!(found_enough(&entries, 2));
    assert!(!found_enough(&entries, 3));
}

#[test]
fn ranking_is_by_score_and_latency_and_stable() {
    let entries = vec![
        entry(1, 10, Some(5)),
        entry(2, 90, None),
        entry(3, 90, Some(7)),
        entry(4, 10, Some(5)),
        entry(5, 90, Some(u64::MAX)),
        entry(6, 95, None),
    ];
    let mut expected = entries.clone();
    expected.sort_by(|a, b| {
        b.score.cmp(&a.score).then(
            a.tcp_latency_ms.unwrap_or(u64::MAX).cmp(&b.tcp_latency_ms.unwrap_or(u64::MAX)),
        )
    });
    assert_eq!(rank(entries), expected);
    assert_eq!(rank(Vec::new()), Vec::new());
}

#[test]
fn scan_view_collects_results() {
    let mut view = ScanView::new();
    assert_eq!(view.label(7), "0/7 TCP tested — 0 TLS probed");
    view.on_event(IpScanEvent::TcpDone { tcp_tested: 5 });
    view.on_event(IpScanEvent::ProbeComplete(entry(1, 10, None)));
    view.on_event(IpScanEvent::ProbeComplete(entry(2, 20, None)));
    assert_eq!(view.label(7), "5/7 TCP tested — 2 TLS probed");
    assert!(view.aborts(Key::Esc) && view.aborts(Key::Char('Q')));
    assert!(!view.aborts(Key::Enter));
    let results = scan_results(None, view);
    assert_eq!(results, vec![entry(2, 20, None), entry(1, 10, None)]);
    let finished = vec![entry(1, 10, None), entry(2, 20, None)];
    assert_eq!(scan_results(Some(finished.clone()), ScanView::new()), finished);
}

#[test]
fn colours_follow_the_values() {
    assert_eq!(score_style(60), Color::Green);
    assert_eq!(score_style(59), Color::Yellow);
    assert_eq!(score_style(30), Color::Yellow);
    assert_eq!(score_style(29), Color::Red);
    assert_eq!(tls_style(true), Color::Green);
    assert_eq!(tls_style(false), Color::Red);
    assert_eq!(tcp_style(Some(99)), Color::Green);
    assert_eq!(tcp_style(Some(100)), Color::Yellow);
    assert_eq!(tcp_style(Some(300)), Color::Yellow);
    assert_eq!(tcp_style(Some(301)), Color::Red);
    assert_eq!(tcp_style(None), Color::Red);
    assert_eq!(http_style(Some(204)), Color::Green);
    assert_eq!(http_style(Some(301)), Color::Yellow);
    assert_eq!(http_style(Some(199)), Color::Red);
    assert_eq!(http_style(Some(404)), Color::Red);
    assert_eq!(http_style(None), Color::Gray);
    assert_eq!(cert_style(true), Color::Green);
    assert_eq!(cert_style(false), Color::Red);
}

#[test]
fn cells_show_what_was_found() {
    let cells = probe_cells(&entry(1, 87, Some(12)));
    assert_eq!(cells.score, "87");
    assert_eq!(cells.tcp, "12ms");
    assert_eq!(cells.tls, "✓ 30ms");
    assert_eq!(cells.cert, "✓");
    assert_eq!(cells.ttfb, "40ms");
    assert_eq!(cells.http, "200");
    let none = IpProbeEntry {
        tls_latency_ms: None,
        cert_valid: false,
        ttfb_ms: None,
        http_status: None,
        ..entry(1, 0, None)
    };
    let cells = probe_cells(&none);
    assert_eq!(cells.score, "0");
    assert_eq!(cells.tcp, "fail");
    assert_eq!(cells.tls, "✓");
    assert_eq!(cells.cert, "✗");
    assert_eq!(cells.ttfb, "—");
    assert_eq!(cells.http, "—");
    assert_eq!(probe_cells(&IpProbeEntry { tls_ok: false, ..none }).tls, "✗");
}
