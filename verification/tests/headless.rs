use ip_bypass_plus_frag::addr::{IpAddr, Ipv4Addr, SocketAddr};
use ip_bypass_plus_frag::config::Config;
use ip_bypass_plus_frag::flow::BypassOutcome;
use ip_bypass_plus_frag::headless::{
    config_loaded, end_after_wait, end_of_proxy, headless, interceptor_report,
    interceptor_shutdown_result, interceptor_shutdown_wait_ms, log_line, root_required,
    runtime_event, shutdown_reason, signal_line, start_message, tells_of_rescan, BypassStatus,
    EndCause, EndStep, HeadlessError, InterceptorReport, PendingEnd, Platform, ProxyEnd,
    RuntimeEvent, ScanPhase, ScanReport, Signal,
};
use ip_bypass_plus_frag::proxy::{ProxyEvent, RelayEndReason};
use ip_bypass_plus_frag::scan::{IpProbeEntry, IpScanEvent};

fn ip(n: u32) -> IpAddr {
    IpAddr::V4(Ipv4Addr { bits: n })
}

fn message(event: &ProxyEvent) -> Option<(bool, &'static str)> {
    log_line(event).map(|line| (line.warning, line.message))
}

#[test]
fn proxy_events_are_told() {
    let addr = SocketAddr { ip: ip(1), port: 9 };
    let event = ProxyEvent::ListenerStarted { mode: "m".to_string(), listen_addr: addr };
    assert_eq!(message(&event), None);
    assert!(matches!(
        runtime_event(event),
        RuntimeEvent::ListenerStarted { mode, listen_addr } if mode == "m" && listen_addr == addr
    ));
    let event = ProxyEvent::ConnectionAccepted { peer: addr, src_port: 5, upstream_ip: ip(2) };
    assert_eq!(message(&event), Some((false, "accepted proxy connection")));
    assert!(matches!(
        runtime_event(event),
        RuntimeEvent::ConnectionAccepted { peer, src_port: 5 } if peer == addr
    ));
    let event =
        ProxyEvent::BypassComplete { src_port: 5, outcome: BypassOutcome::FakeDataAcked };
    assert_eq!(message(&event), Some((false, "bypass complete; relaying")));
    assert!(matches!(
        runtime_event(event),
        RuntimeEvent::BypassFinished { src_port: 5, status: BypassStatus::Completed }
    ));
    let event =
        ProxyEvent::BypassComplete { src_port: 5, outcome: BypassOutcome::UnexpectedClose };
    assert_eq!(message(&event), Some((true, "bypass failed before relay")));
    assert!(matches!(
        runtime_event(event),
        RuntimeEvent::BypassFinished { src_port: 5, status: BypassStatus::Failed }
    ));
    for (reason, text) in [
        (RelayEndReason::Completed, "relay finished"),
        (RelayEndReason::MaxLifetime, "relay rotated after max lifetime"),
    ] {
        let event =
            ProxyEvent::RelayFinished { src_port: 5, c2s_bytes: 1, s2c_bytes: 2, reason };
        assert_eq!(message(&event), Some((false, text)));
        assert!(matches!(
            runtime_event(event),
            RuntimeEvent::RelayBytes { src_port: 5, c2s_bytes: 1, s2c_bytes: 2, is_final: true }
        ));
    }
    let event = ProxyEvent::ConnectionError { src_port: 5, error: "e".to_string() };
    assert_eq!(message(&event), Some((true, "proxy connection failed")));
    assert!(matches!(
        runtime_event(event),
        RuntimeEvent::BypassFinished { src_port: 5, status: BypassStatus::Failed }
    ));
    let event = ProxyEvent::RelayProgress { src_port: 5, c2s_bytes: 1, s2c_bytes: 2 };
    assert_eq!(message(&event), None);
    assert!(matches!(
        runtime_event(event),
        RuntimeEvent::RelayBytes { src_port: 5, c2s_bytes: 1, s2c_bytes: 2, is_final: false }
    ));
    let event = ProxyEvent::IpTargetChanged { ip: ip(7) };
    assert_eq!(message(&event), Some((false, "active IP target changed")));
    assert!(matches!(
        runtime_event(event),
        RuntimeEvent::ActiveTargetChanged { ip: changed } if changed == ip(7)
    ));
}

#[test]
fn scan_progress_is_counted() {
    let entry = IpProbeEntry {
        ip: ip(3),
        tcp_latency_ms: None,
        tls_ok: false,
        tls_latency_ms: None,
        cert_valid: false,
        ttfb_ms: None,
        download_bps: None,
        upload_bps: None,
        http_status: None,
        score: 9,
    };
    let mut report = ScanReport::new(50);
    assert!(matches!(
        report.on_event(IpScanEvent::TcpDone { tcp_tested: 20 }),
        RuntimeEvent::ScanProgress {
            phase: ScanPhase::Tcp,
            completed: 20,
            total: 50,
            probed: None,
            score: None,
        }
    ));
    for n in 1..=2 {
        assert!(matches!(
            report.on_event(IpScanEvent::ProbeComplete(entry)),
            RuntimeEvent::ScanProgress {
                phase: ScanPhase::Probe,
                completed,
                total: 50,
                probed: Some(_),
                score: Some(9),
            } if completed == n
        ));
    }
    let mut full = ScanReport { total: 50, probe_completed: usize::MAX };
    assert!(matches!(
        full.on_event(IpScanEvent::TcpDone { tcp_tested: 1 }),
        RuntimeEvent::ScanProgress { phase: ScanPhase::Tcp, completed: 1, .. }
    ));
    assert_eq!(ScanPhase::Tcp.label(), "tcp");
    assert_eq!(ScanPhase::Probe.label(), "probe");
}

#[test]
fn configuration_is_told() {
    let mut cfg = Config::with_defaults("127.0.0.1".to_string(), 40443);
    cfg.BYPASS_METHOD = "tls_record_frag".to_string();
    assert!(matches!(
        config_loaded(&cfg, "config.toml", true),
        RuntimeEvent::ConfigLoaded {
            path,
            bypass_method,
            listen_port: 40443,
            auto_select: false,
            no_tui: true,
            root_required: true,
            ..
        } if path == "config.toml" && bypass_method == "tls_record_frag"
    ));
    assert!(matches!(
        root_required(&cfg),
        RuntimeEvent::RootRequired { message, rootless_alternatives, .. }
            if message.starts_with("MODE = \"ip_bypass_plus\" with BYPASS_METHOD")
                && rootless_alternatives.len() == 1
    ));
}

#[test]
fn only_termination_ends_the_proxy() {
    for platform in [Platform::Linux, Platform::Unix] {
        assert_eq!(shutdown_reason(platform, Signal::Interrupt), None);
        assert_eq!(shutdown_reason(platform, Signal::Hangup), None);
        assert_eq!(shutdown_reason(platform, Signal::Terminate), Some("SIGTERM"));
        assert_eq!(start_message(platform), "running without TUI; send SIGTERM to stop");
        let said = |signal| signal_line(platform, signal).map(|l| (l.warning, l.message));
        assert_eq!(said(Signal::Terminate), Some((false, "received SIGTERM")));
        assert_eq!(
            said(Signal::Interrupt),
            Some((
                true,
                "received SIGINT; continuing because --no-tui is running headless; send SIGTERM to stop"
            ))
        );
        assert_eq!(
            said(Signal::Hangup),
            Some((true, "received SIGHUP; continuing because --no-tui is running headless"))
        );
    }
}

#[test]
fn ctrl_c_ends_the_proxy_without_unix_signals() {
    assert_eq!(shutdown_reason(Platform::Other, Signal::Interrupt), Some("ctrl_c"));
    assert_eq!(shutdown_reason(Platform::Other, Signal::Terminate), None);
    assert_eq!(shutdown_reason(Platform::Other, Signal::Hangup), None);
    assert_eq!(start_message(Platform::Other), "running without TUI; press Ctrl-C to stop");
    let line = signal_line(Platform::Other, Signal::Interrupt).unwrap();
    assert_eq!((line.warning, line.message), (false, "received Ctrl-C"));
    assert!(signal_line(Platform::Other, Signal::Hangup).is_none());
}

#[test]
fn interceptor_cannot_fail_to_stop_elsewhere() {
    assert_eq!(interceptor_shutdown_wait_ms(Platform::Linux), 5000);
    for platform in [Platform::Unix, Platform::Other] {
        assert_eq!(interceptor_shutdown_wait_ms(platform), 100);
        for report in [
            None,
            Some(InterceptorReport::Stopped),
            Some(InterceptorReport::Lost),
            Some(InterceptorReport::Failed { error: "e".to_string() }),
        ] {
            assert!(interceptor_shutdown_result(platform, report).is_none());
        }
    }
}

#[test]
fn lost_result_is_a_failure() {
    assert!(matches!(interceptor_report(Some(Ok(()))), InterceptorReport::Stopped));
    assert!(matches!(
        interceptor_report(Some(Err("e".to_string()))),
        InterceptorReport::Failed { error } if error == "e"
    ));
    let cause = EndCause::Interceptor(interceptor_report(None));
    match end_of_proxy(cause, true).next {
        EndStep::Over { graceful: None, error: Some(e) } => assert_eq!(
            e.text(),
            "packet interceptor stopped: packet interceptor thread stopped before reporting a result"
        ),
        other => panic!("{other:?}"),
    }
    let fault = interceptor_shutdown_result(Platform::Linux, Some(interceptor_report(None)));
    assert_eq!(
        fault.unwrap().text(),
        "packet interceptor stopped during shutdown: packet interceptor thread stopped before reporting a result"
    );
}

#[test]
fn events_imply_a_headless_run() {
    assert!(headless(false, true));
    assert!(headless(true, false));
    assert!(!headless(false, false));
    assert!(tells_of_rescan(false, false));
    assert!(tells_of_rescan(true, true));
    assert!(!tells_of_rescan(true, false));
}

#[test]
fn signal_ends_gracefully() {
    let end = end_of_proxy(EndCause::Signal { reason: "SIGTERM".to_string() }, false);
    assert!(end.abort_proxy && !end.stop_interceptor);
    assert!(matches!(
        end.next,
        EndStep::Over { graceful: Some(reason), error: None } if reason == "SIGTERM"
    ));
    let end = end_of_proxy(EndCause::Signal { reason: "SIGTERM".to_string() }, true);
    assert!(end.abort_proxy && end.stop_interceptor);
    let pending = match end.next {
        EndStep::Await(pending) => pending,
        other => panic!("{other:?}"),
    };
    let stopped = interceptor_shutdown_result(Platform::Linux, Some(InterceptorReport::Stopped));
    let (graceful, error) = end_after_wait(pending, stopped);
    assert_eq!(graceful.as_deref(), Some("SIGTERM"));
    assert!(error.is_none());
}

#[test]
fn interceptor_that_does_not_stop_is_a_failure() {
    for (report, text) in [
        (None, "packet interceptor did not stop within 5 seconds"),
        (
            Some(InterceptorReport::Lost),
            "packet interceptor thread stopped before reporting a result",
        ),
        (
            Some(InterceptorReport::Failed { error: "e".to_string() }),
            "packet interceptor stopped during shutdown: e",
        ),
    ] {
        let pending = PendingEnd::Signal { reason: "SIGTERM".to_string() };
        let stopping = interceptor_shutdown_result(Platform::Linux, report);
        let (graceful, error) = end_after_wait(pending, stopping);
        assert!(graceful.is_none());
        assert_eq!(error.unwrap().text(), text);
    }
}

#[test]
fn proxy_failure_comes_first() {
    let failed = || ProxyEnd::Failed { error: "bind".to_string() };
    let end = end_of_proxy(EndCause::Proxy(failed()), false);
    match end.next {
        EndStep::Over { graceful: None, error: Some(e) } => assert_eq!(e.text(), "bind"),
        other => panic!("{other:?}"),
    }
    let end = end_of_proxy(EndCause::Proxy(failed()), true);
    assert!(!end.abort_proxy && end.stop_interceptor);
    let pending = match end.next {
        EndStep::Await(pending) => pending,
        other => panic!("{other:?}"),
    };
    let (_, error) = end_after_wait(pending, Some(HeadlessError::InterceptorSlow));
    assert_eq!(error.unwrap().text(), "bind");
    let (_, error) = end_after_wait(
        PendingEnd::Proxy { error: None },
        Some(HeadlessError::InterceptorSlow),
    );
    assert_eq!(error.unwrap().text(), "packet interceptor did not stop within 5 seconds");
}

#[test]
fn other_ends_are_failures() {
    for (cause, text) in [
        (
            EndCause::Proxy(ProxyEnd::Panicked { error: "task 7 panicked".to_string() }),
            "proxy task panicked: task 7 panicked",
        ),
        (EndCause::SignalsFailed { error: "no handler".to_string() }, "no handler"),
        (
            EndCause::Interceptor(InterceptorReport::Stopped),
            "packet interceptor stopped unexpectedly",
        ),
        (
            EndCause::Interceptor(InterceptorReport::Failed { error: "e".to_string() }),
            "packet interceptor stopped: e",
        ),
        (
            EndCause::Interceptor(InterceptorReport::Lost),
            "packet interceptor thread stopped before reporting a result",
        ),
    ] {
        match end_of_proxy(cause, true).next {
            EndStep::Over { graceful: None, error: Some(e) } => assert_eq!(e.text(), text),
            other => panic!("{other:?}"),
        }
    }
    assert!(matches!(
        end_of_proxy(EndCause::Proxy(ProxyEnd::Finished), false).next,
        EndStep::Over { graceful: None, error: None }
    ));
}
