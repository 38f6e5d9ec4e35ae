use ip_bypass_plus_frag::addr::{IpAddr, Ipv4Addr, SocketAddr};
use ip_bypass_plus_frag::config::{Int32Range, TlsFragPackets};
use ip_bypass_plus_frag::flow::BypassOutcome;
use ip_bypass_plus_frag::methods::TcpSegmentation;
use ip_bypass_plus_frag::proxy::{
    BypassProgress, ConnectionSettings, ProxyEvent, RelayEndReason, RelayResult,
};
use ip_bypass_plus_frag::relay::{CopyAction, Copying, RelayEvent, RelayStep, RelayWatch};
use ip_bypass_plus_frag::session::{
    write_client_data, ClientRead, Fragmentation, InterceptPhase, InterceptSession, SegmentPhase,
    SegmentSession, SessionAction, SessionEvent, SessionFault, SessionStep, WritePlan,
};

const LENGTH: Int32Range = Int32Range { min: 100, max: 200 };
const INTERVAL: Int32Range = Int32Range { min: 10, max: 20 };
const UPSTREAM: Ipv4Addr = Ipv4Addr { bits: 0x6810_0001 };

fn peer() -> SocketAddr {
    SocketAddr { ip: IpAddr::V4(Ipv4Addr { bits: 0x7f00_0001 }), port: 5555 }
}

fn segmentation(packets: TlsFragPackets, nodelay: bool) -> TcpSegmentation {
    TcpSegmentation { packets, length: LENGTH, interval_ms: INTERVAL, nodelay }
}

fn writes() -> TlsFragPackets {
    TlsFragPackets::WriteRange { start: 1, end: 3 }
}

fn intercept(packets: TlsFragPackets, nodelay: bool, segment: bool) -> InterceptSession {
    let settings = ConnectionSettings {
        bypass_timeout: 20,
        max_lifetime: Some(60),
        segment_first_client_hello: segment,
        tcp_segmentation: segmentation(packets, nodelay),
    };
    InterceptSession::new(settings, peer(), 7777, UPSTREAM)
}

fn segment(packets: TlsFragPackets, nodelay: bool) -> SegmentSession {
    SegmentSession::new(segmentation(packets, nodelay), None, peer(), UPSTREAM)
}

fn is_failed_bypass(step: &SessionStep, port: u16) -> bool {
    matches!(
        step.event,
        Some(ProxyEvent::BypassComplete { src_port, outcome: BypassOutcome::UnexpectedClose })
            if src_port == port
    )
}

fn is_good_bypass(event: &Option<ProxyEvent>, port: u16) -> bool {
    matches!(
        event,
        Some(ProxyEvent::BypassComplete { src_port, outcome: BypassOutcome::FakeDataAcked })
            if *src_port == port
    )
}

fn ready(session: &mut InterceptSession) -> SessionAction {
    let step = session.step(SessionEvent::Connected);
    assert_eq!(step.action, SessionAction::WaitForProgress { timeout: 20 });
    assert!(matches!(
        step.event,
        Some(ProxyEvent::ConnectionAccepted { src_port: 7777, upstream_ip, .. })
            if upstream_ip == IpAddr::V4(UPSTREAM)
    ));
    session.step(SessionEvent::Progress(Some(BypassProgress::ReadyForData))).action
}

#[test]
fn intercepted_hello_is_written_in_pieces() {
    let mut session = intercept(TlsFragPackets::TlsHello, true, true);
    assert_eq!(ready(&mut session), SessionAction::SetNodelay);
    assert_eq!(
        session.step(SessionEvent::NodelaySet(true)).action,
        SessionAction::ReadTlsRecord { limit: Some(20) }
    );
    assert_eq!(
        session.step(SessionEvent::Client(ClientRead::Data)).action,
        SessionAction::Write(WritePlan::Fragmented { length: LENGTH, interval_ms: INTERVAL })
    );
    assert_eq!(
        session.step(SessionEvent::Written(true)).action,
        SessionAction::WaitForCompletion { timeout: 20 }
    );
    let step = session.step(SessionEvent::Completion(Some(BypassOutcome::FakeDataAcked)));
    assert!(is_good_bypass(&step.event, 7777));
    assert!(step.release_flow);
    assert_eq!(
        step.action,
        SessionAction::Relay { max_lifetime: Some(60), fragmentation: None }
    );
    let relay = RelayResult { c2s_bytes: 3, s2c_bytes: 4, reason: RelayEndReason::Completed };
    let step = session.step(SessionEvent::RelayEnded(relay));
    assert_eq!(step.action, SessionAction::Finish);
    assert!(matches!(
        step.event,
        Some(ProxyEvent::RelayFinished {
            src_port: 7777,
            c2s_bytes: 3,
            s2c_bytes: 4,
            reason: RelayEndReason::Completed,
        })
    ));
    assert_eq!(session.phase, InterceptPhase::Ended);
}

#[test]
fn intercepted_writes_go_on_in_pieces() {
    let mut session = intercept(writes(), false, true);
    assert_eq!(ready(&mut session), SessionAction::ReadClientWrite { timeout: 20 });
    assert_eq!(
        session.step(SessionEvent::Client(ClientRead::Data)).action,
        SessionAction::Write(WritePlan::Fragmented { length: LENGTH, interval_ms: INTERVAL })
    );
    session.step(SessionEvent::Written(true));
    let step = session.step(SessionEvent::Completion(Some(BypassOutcome::FakeDataAcked)));
    assert_eq!(
        step.action,
        SessionAction::Relay {
            max_lifetime: Some(60),
            fragmentation: Some(Fragmentation {
                segmentation: segmentation(writes(), false),
                last_write: 1,
            }),
        }
    );
}

#[test]
fn unsegmented_hello_is_written_and_flushed() {
    let mut session = intercept(writes(), true, false);
    assert_eq!(ready(&mut session), SessionAction::ReadTlsRecord { limit: Some(20) });
    assert_eq!(
        session.step(SessionEvent::Client(ClientRead::Data)).action,
        SessionAction::Write(WritePlan::Whole)
    );
    assert_eq!(session.step(SessionEvent::Written(true)).action, SessionAction::Flush);
    assert_eq!(
        session.step(SessionEvent::Flushed(true)).action,
        SessionAction::WaitForCompletion { timeout: 20 }
    );
}

#[test]
fn early_outcome_skips_the_data() {
    let mut session = intercept(writes(), true, true);
    session.step(SessionEvent::Connected);
    let done = BypassProgress::Complete(BypassOutcome::FakeDataAcked);
    let step = session.step(SessionEvent::Progress(Some(done)));
    assert_eq!(
        step.action,
        SessionAction::Relay { max_lifetime: Some(60), fragmentation: None }
    );
}

#[test]
fn every_interception_failure_is_told() {
    // The upstream cannot be reached.
    let mut session = intercept(writes(), true, true);
    let step = session.step(SessionEvent::ConnectFailed { error: "refused".to_string() });
    assert_eq!(step.action, SessionAction::Fail(SessionFault::ConnectUpstream));
    assert_eq!(step.report, Some(BypassOutcome::UnexpectedClose));
    assert!(step.release_flow);
    assert!(matches!(
        step.event,
        Some(ProxyEvent::ConnectionError { src_port: 7777, ref error }) if error == "refused"
    ));

    // The interceptor closes the flow, or is silent.
    let mut session = intercept(writes(), true, true);
    session.step(SessionEvent::Connected);
    let closed = BypassProgress::Complete(BypassOutcome::UnexpectedClose);
    let step = session.step(SessionEvent::Progress(Some(closed)));
    assert_eq!(step.action, SessionAction::Fail(SessionFault::InterceptorClosed));
    assert_eq!(step.report, None);
    assert!(is_failed_bypass(&step, 7777));
    let mut session = intercept(writes(), true, true);
    session.step(SessionEvent::Connected);
    let step = session.step(SessionEvent::Progress(None));
    assert_eq!(step.action, SessionAction::Fail(SessionFault::BypassTimeout));
    assert_eq!(step.report, Some(BypassOutcome::UnexpectedClose));

    // The socket option cannot be set: nothing is told.
    let mut session = intercept(writes(), true, true);
    ready(&mut session);
    let step = session.step(SessionEvent::NodelaySet(false));
    assert_eq!(step.action, SessionAction::Fail(SessionFault::SetNodelay));
    assert!(step.event.is_none() && step.report.is_none() && step.release_flow);

    // The client sends nothing.
    for (packets, read, fault) in [
        (TlsFragPackets::TlsHello, ClientRead::Failed, SessionFault::ReadHello),
        (TlsFragPackets::TlsHello, ClientRead::TimedOut, SessionFault::ReadHelloTimeout),
        (writes(), ClientRead::Failed, SessionFault::ReadData),
        (writes(), ClientRead::TimedOut, SessionFault::ReadDataTimeout),
    ] {
        let mut session = intercept(packets, false, true);
        ready(&mut session);
        let step = session.step(SessionEvent::Client(read));
        assert_eq!(step.action, SessionAction::Fail(fault));
        assert!(is_failed_bypass(&step, 7777));
    }

    // The upstream takes nothing.
    for (packets, segmented, fault) in [
        (TlsFragPackets::TlsHello, true, SessionFault::WriteFragmentedHello),
        (writes(), true, SessionFault::WriteFirstData),
        (TlsFragPackets::TlsHello, false, SessionFault::WriteHello),
    ] {
        let mut session = intercept(packets, false, segmented);
        ready(&mut session);
        session.step(SessionEvent::Client(ClientRead::Data));
        let step = session.step(SessionEvent::Written(false));
        assert_eq!(step.action, SessionAction::Fail(fault));
        assert!(is_failed_bypass(&step, 7777));
    }
    let mut session = intercept(writes(), false, false);
    ready(&mut session);
    session.step(SessionEvent::Client(ClientRead::Data));
    session.step(SessionEvent::Written(true));
    let step = session.step(SessionEvent::Flushed(false));
    assert_eq!(step.action, SessionAction::Fail(SessionFault::FlushHello));

    // The data is never seen.
    let mut session = intercept(writes(), false, true);
    ready(&mut session);
    session.step(SessionEvent::Client(ClientRead::Data));
    session.step(SessionEvent::Written(true));
    let step = session.step(SessionEvent::Completion(None));
    assert_eq!(step.action, SessionAction::Fail(SessionFault::FirstDataTimeout));
}

#[test]
fn faults_have_their_words() {
    for (fault, text) in [
        (SessionFault::ConnectUpstream, "connect upstream"),
        (SessionFault::SetNodelay, "tls_record_frag: set_nodelay on upstream socket"),
        (SessionFault::ReadHello, "reading ClientHello from client"),
        (SessionFault::ReadHelloTimeout, "timed out reading ClientHello from client"),
        (SessionFault::ReadData, "reading client data from client"),
        (SessionFault::ReadDataTimeout, "timed out reading client data from client"),
        (SessionFault::WriteFragmentedHello, "tls_record_frag: writing fragmented ClientHello"),
        (SessionFault::WriteFirstData, "tls_record_frag: writing first client data"),
        (SessionFault::WriteHello, "writing ClientHello to upstream"),
        (SessionFault::FlushHello, "flushing ClientHello to upstream"),
        (SessionFault::InterceptorClosed, "interceptor closed the flow"),
        (SessionFault::BypassTimeout, "bypass timed out"),
        (SessionFault::FirstDataTimeout, "first data bypass timed out"),
        (SessionFault::SegmentConnectUpstream, "tls_frag: connect upstream"),
        (SessionFault::SegmentSetNodelay, "tls_frag: set_nodelay on upstream socket"),
        (SessionFault::SegmentReadHello, "tls_frag: reading ClientHello from client"),
        (SessionFault::SegmentWriteHello, "tls_frag: writing fragmented ClientHello"),
    ] {
        assert_eq!(fault.text(), text);
    }
}

#[test]
fn segmented_hello_comes_before_the_relay() {
    let mut session = segment(TlsFragPackets::TlsHello, true);
    let step = session.step(SessionEvent::Connected);
    assert_eq!(step.action, SessionAction::SetNodelay);
    assert!(matches!(
        step.event,
        Some(ProxyEvent::ConnectionAccepted { src_port: 5555, .. })
    ));
    assert_eq!(
        session.step(SessionEvent::NodelaySet(true)).action,
        SessionAction::ReadTlsRecord { limit: None }
    );
    assert_eq!(
        session.step(SessionEvent::Client(ClientRead::Data)).action,
        SessionAction::Write(WritePlan::Fragmented { length: LENGTH, interval_ms: INTERVAL })
    );
    let step = session.step(SessionEvent::Written(true));
    assert!(is_good_bypass(&step.event, 5555));
    assert_eq!(step.action, SessionAction::Relay { max_lifetime: None, fragmentation: None });
    assert!(!step.release_flow && step.report.is_none());
}

#[test]
fn segmented_writes_are_left_to_the_relay() {
    let mut session = segment(writes(), false);
    let step = session.step(SessionEvent::Connected);
    assert!(matches!(step.event, Some(ProxyEvent::ConnectionAccepted { .. })));
    assert!(is_good_bypass(&step.then_event, 5555));
    assert_eq!(
        step.action,
        SessionAction::Relay {
            max_lifetime: None,
            fragmentation: Some(Fragmentation {
                segmentation: segmentation(writes(), false),
                last_write: 0,
            }),
        }
    );
    let relay = RelayResult { c2s_bytes: 1, s2c_bytes: 2, reason: RelayEndReason::MaxLifetime };
    let step = session.step(SessionEvent::RelayEnded(relay));
    assert_eq!(step.action, SessionAction::Finish);
    assert!(matches!(
        step.event,
        Some(ProxyEvent::RelayFinished { reason: RelayEndReason::MaxLifetime, .. })
    ));
    assert_eq!(session.phase, SegmentPhase::Ended);
}

#[test]
fn segmented_failures() {
    let mut session = segment(writes(), true);
    let step = session.step(SessionEvent::ConnectFailed { error: "no route".to_string() });
    assert_eq!(step.action, SessionAction::Fail(SessionFault::SegmentConnectUpstream));
    assert!(matches!(step.event, Some(ProxyEvent::ConnectionError { src_port: 5555, .. })));
    let mut session = segment(writes(), true);
    session.step(SessionEvent::Connected);
    let step = session.step(SessionEvent::NodelaySet(false));
    assert_eq!(step.action, SessionAction::Fail(SessionFault::SegmentSetNodelay));
    assert!(step.event.is_none());
    let mut session = segment(TlsFragPackets::TlsHello, false);
    session.step(SessionEvent::Connected);
    let step = session.step(SessionEvent::Client(ClientRead::Failed));
    assert_eq!(step.action, SessionAction::Fail(SessionFault::SegmentReadHello));
    let mut session = segment(TlsFragPackets::TlsHello, false);
    session.step(SessionEvent::Connected);
    session.step(SessionEvent::Client(ClientRead::Data));
    let step = session.step(SessionEvent::Written(false));
    assert_eq!(step.action, SessionAction::Fail(SessionFault::SegmentWriteHello));
}

#[test]
fn write_plans_go_by_number() {
    let seg = segmentation(TlsFragPackets::WriteRange { start: 2, end: 2 }, true);
    assert_eq!(write_client_data(&seg, 1), WritePlan::WholeAndFlush);
    assert_eq!(
        write_client_data(&seg, 2),
        WritePlan::Fragmented { length: LENGTH, interval_ms: INTERVAL }
    );
}

#[test]
fn relay_ends_with_both_directions() {
    let done = RelayStep::Done {
        result: RelayResult { c2s_bytes: 10, s2c_bytes: 0, reason: RelayEndReason::Completed },
        stop_to_server: false,
        stop_to_client: false,
    };
    let mut watch = RelayWatch::new();
    assert_eq!(watch.step(RelayEvent::ToServerEnded(Some(10))), RelayStep::Wait);
    assert_eq!(watch.step(RelayEvent::ToClientEnded(None)), done);
    let mut watch = RelayWatch::new();
    assert_eq!(watch.step(RelayEvent::ToClientEnded(None)), RelayStep::Wait);
    assert_eq!(watch.step(RelayEvent::ToServerEnded(Some(10))), done);
}

#[test]
fn relay_is_cut_at_its_greatest_age() {
    let mut watch = RelayWatch::new();
    watch.step(RelayEvent::ToServerEnded(Some(10)));
    assert_eq!(
        watch.step(RelayEvent::Deadline { c2s_bytes: 99, s2c_bytes: 20 }),
        RelayStep::Done {
            result: RelayResult {
                c2s_bytes: 10,
                s2c_bytes: 20,
                reason: RelayEndReason::MaxLifetime,
            },
            stop_to_server: false,
            stop_to_client: true,
        }
    );
}

#[test]
fn copied_bytes_and_writes_are_counted() {
    let seg = segmentation(writes(), true);
    let mut copying = Copying::new(Some(Fragmentation { segmentation: seg, last_write: 1 }));
    let pieces = WritePlan::Fragmented { length: LENGTH, interval_ms: INTERVAL };
    for (n, plan) in [(5, pieces), (6, pieces), (7, WritePlan::WholeAndFlush)] {
        assert_eq!(copying.on_read(Some(n)), CopyAction::Write { n, plan });
        assert!(copying.on_written(n, true));
    }
    assert_eq!(copying.total, 18);
    assert_eq!(copying.last_write, 4);
    copying.on_read(Some(1));
    assert!(!copying.on_written(1, false));
    assert_eq!(copying.total, 18);
    assert_eq!(copying.on_read(Some(0)), CopyAction::Stop);
    assert_eq!(copying.on_read(None), CopyAction::Stop);
}

#[test]
fn write_numbers_stop_at_their_greatest_value() {
    let seg = segmentation(TlsFragPackets::WriteRange { start: u32::MAX, end: u32::MAX }, true);
    let mut copying =
        Copying::new(Some(Fragmentation { segmentation: seg, last_write: u32::MAX - 1 }));
    let pieces = WritePlan::Fragmented { length: LENGTH, interval_ms: INTERVAL };
    assert_eq!(copying.on_read(Some(1)), CopyAction::Write { n: 1, plan: pieces });
    assert_eq!(copying.on_read(Some(1)), CopyAction::Write { n: 1, plan: pieces });
    assert_eq!(copying.last_write, u32::MAX);
    let mut plain = Copying::new(None);
    assert_eq!(plain.on_read(Some(2)), CopyAction::Write { n: 2, plan: WritePlan::Whole });
}
