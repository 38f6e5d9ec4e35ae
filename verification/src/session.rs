//! The course of one client connection, from the upstream connection to the end of the
//! relay.
//!
//! A session is told what has happened and answers what is to be done next. The waiting,
//! reading and writing is done by its caller.

use crate::addr::{IpAddr, Ipv4Addr, SocketAddr};
use crate::config::{Int32Range, TlsFragPackets};
use crate::flow::BypassOutcome;
use crate::methods::TcpSegmentation;
use crate::proxy::{BypassProgress, ConnectionSettings, ProxyEvent, RelayResult};
use vstd::prelude::*;

verus! {

/// Why a session fails.
#[derive(Debug, Clone, Copy, PartialEq, Eq, Structural)]
pub enum SessionFault {
    ConnectUpstream,
    SetNodelay,
    ReadHello,
    ReadHelloTimeout,
    ReadData,
    ReadDataTimeout,
    WriteFragmentedHello,
    WriteFirstData,
    WriteHello,
    FlushHello,
    InterceptorClosed,
    BypassTimeout,
    FirstDataTimeout,
    SegmentConnectUpstream,
    SegmentSetNodelay,
    SegmentReadHello,
    SegmentWriteHello,
}

impl SessionFault {
    pub open spec fn message(self) -> Seq<char> {
        match self {
            SessionFault::ConnectUpstream => "connect upstream"@,
            SessionFault::SetNodelay => "tls_record_frag: set_nodelay on upstream socket"@,
            SessionFault::ReadHello => "reading ClientHello from client"@,
            SessionFault::ReadHelloTimeout => "timed out reading ClientHello from client"@,
            SessionFault::ReadData => "reading client data from client"@,
            SessionFault::ReadDataTimeout => "timed out reading client data from client"@,
            SessionFault::WriteFragmentedHello => "tls_record_frag: writing fragmented ClientHello"@,
            SessionFault::WriteFirstData => "tls_record_frag: writing first client data"@,
            SessionFault::WriteHello => "writing ClientHello to upstream"@,
            SessionFault::FlushHello => "flushing ClientHello to upstream"@,
            SessionFault::InterceptorClosed => "interceptor closed the flow"@,
            SessionFault::BypassTimeout => "bypass timed out"@,
            SessionFault::FirstDataTimeout => "first data bypass timed out"@,
            SessionFault::SegmentConnectUpstream => "tls_frag: connect upstream"@,
            SessionFault::SegmentSetNodelay => "tls_frag: set_nodelay on upstream socket"@,
            SessionFault::SegmentReadHello => "tls_frag: reading ClientHello from client"@,
            SessionFault::SegmentWriteHello => "tls_frag: writing fragmented ClientHello"@,
        }
    }

    /// The words in which the failure is reported.
    pub fn text(&self) -> (r: &'static str)
        ensures
            r@ == self.message(),
    {
        match self {
            SessionFault::ConnectUpstream => "connect upstream",
            SessionFault::SetNodelay => "tls_record_frag: set_nodelay on upstream socket",
            SessionFault::ReadHello => "reading ClientHello from client",
            SessionFault::ReadHelloTimeout => "timed out reading ClientHello from client",
            SessionFault::ReadData => "reading client data from client",
            SessionFault::ReadDataTimeout => "timed out reading client data from client",
            SessionFault::WriteFragmentedHello => "tls_record_frag: writing fragmented ClientHello",
            SessionFault::WriteFirstData => "tls_record_frag: writing first client data",
            SessionFault::WriteHello => "writing ClientHello to upstream",
            SessionFault::FlushHello => "flushing ClientHello to upstream",
            SessionFault::InterceptorClosed => "interceptor closed the flow",
            SessionFault::BypassTimeout => "bypass timed out",
            SessionFault::FirstDataTimeout => "first data bypass timed out",
            SessionFault::SegmentConnectUpstream => "tls_frag: connect upstream",
            SessionFault::SegmentSetNodelay => "tls_frag: set_nodelay on upstream socket",
            SessionFault::SegmentReadHello => "tls_frag: reading ClientHello from client",
            SessionFault::SegmentWriteHello => "tls_frag: writing fragmented ClientHello",
        }
    }
}

/// How the wait for data of the client ended.
#[derive(Debug, Clone, Copy, PartialEq, Eq, Structural)]
pub enum ClientRead {
    Data,
    Failed,
    TimedOut,
}

/// What has happened.
#[derive(Debug)]
pub enum SessionEvent {
    Connected,
    ConnectFailed { error: String },
    /// How far the bypass has come; nothing if the wait for it timed out.
    Progress(Option<BypassProgress>),
    NodelaySet(bool),
    Client(ClientRead),
    Written(bool),
    Flushed(bool),
    /// The outcome of the bypass; nothing if the wait for it timed out.
    Completion(Option<BypassOutcome>),
    RelayEnded(RelayResult),
}

/// How client data is written.
#[derive(Debug, Clone, Copy, PartialEq, Eq, Structural)]
pub enum WritePlan {
    /// In pieces of these lengths, with these pauses in milliseconds.
    Fragmented { length: Int32Range, interval_ms: Int32Range },
    /// In one piece, and flushed.
    WholeAndFlush,
    /// In one piece.
    Whole,
}

/// How a write of the client goes upstream under the segmentation.
pub open spec fn plan_of(segmentation: TcpSegmentation, write_index: u32) -> WritePlan {
    if segmentation.packets.includes(write_index) {
        WritePlan::Fragmented {
            length: segmentation.length,
            interval_ms: segmentation.interval_ms,
        }
    } else {
        WritePlan::WholeAndFlush
    }
}

/// How a write of the client goes upstream under the segmentation.
pub fn write_client_data(segmentation: &TcpSegmentation, write_index: u32) -> (r: WritePlan)
    ensures
        r == plan_of(*segmentation, write_index),
{
    if segmentation.fragments_write(write_index) {
        WritePlan::Fragmented {
            length: segmentation.length,
            interval_ms: segmentation.interval_ms,
        }
    } else {
        WritePlan::WholeAndFlush
    }
}

/// How the client's further writes are written in pieces.
#[derive(Debug, Clone, Copy, PartialEq, Eq, Structural)]
pub struct Fragmentation {
    pub segmentation: TcpSegmentation,
    /// The number of the client's last write.
    pub last_write: u32,
}

/// What is to be done next. Times are in seconds.
#[derive(Debug, Clone, Copy, PartialEq, Eq, Structural)]
pub enum SessionAction {
    WaitForProgress { timeout: u64 },
    SetNodelay,
    /// Read one TLS record of the client.
    ReadTlsRecord { limit: Option<u64> },
    /// Read what the client writes first.
    ReadClientWrite { timeout: u64 },
    /// Write what was read.
    Write(WritePlan),
    Flush,
    WaitForCompletion { timeout: u64 },
    /// Relay in both directions.
    Relay { max_lifetime: Option<u64>, fragmentation: Option<Fragmentation> },
    Finish,
    Fail(SessionFault),
}

/// What a session answers.
#[derive(Debug)]
pub struct SessionStep {
    /// The outcome to report to the flow.
    pub report: Option<BypassOutcome>,
    /// The events to tell of, in this order.
    pub event: Option<ProxyEvent>,
    pub then_event: Option<ProxyEvent>,
    /// The flow is no longer to be tracked.
    pub release_flow: bool,
    pub action: SessionAction,
}

/// A step that only says what to do next.
pub open spec fn plain(action: SessionAction) -> SessionStep {
    SessionStep { report: None, event: None, then_event: None, release_flow: false, action }
}

fn just(action: SessionAction) -> (r: SessionStep)
    ensures
        r == plain(action),
{
    SessionStep { report: None, event: None, then_event: None, release_flow: false, action }
}

pub open spec fn bypass_event(src_port: u16, outcome: BypassOutcome) -> ProxyEvent {
    ProxyEvent::BypassComplete { src_port, outcome }
}

pub open spec fn relay_event(src_port: u16, relay: RelayResult) -> ProxyEvent {
    ProxyEvent::RelayFinished {
        src_port,
        c2s_bytes: relay.c2s_bytes,
        s2c_bytes: relay.s2c_bytes,
        reason: relay.reason,
    }
}

/// Where the course of an intercepted connection stands.
#[derive(Debug, Clone, Copy, PartialEq, Eq, Structural)]
pub enum InterceptPhase {
    Connecting,
    AwaitingProgress,
    SettingNodelay,
    ReadingHello,
    ReadingData,
    WritingFragmentedHello,
    WritingData,
    WritingHello,
    FlushingHello,
    AwaitingCompletion,
    Relaying,
    Ended,
}

/// A connection whose packets are intercepted.
#[derive(Debug, Clone, Copy, PartialEq, Eq, Structural)]
pub struct InterceptSession {
    pub settings: ConnectionSettings,
    pub peer: SocketAddr,
    pub src_port: u16,
    pub connect_ip: Ipv4Addr,
    pub phase: InterceptPhase,
    pub fragmentation: Option<Fragmentation>,
}

impl InterceptSession {
    pub fn new(
        settings: ConnectionSettings,
        peer: SocketAddr,
        src_port: u16,
        connect_ip: Ipv4Addr,
    ) -> (r: InterceptSession)
        ensures
            r == (InterceptSession {
                settings,
                peer,
                src_port,
                connect_ip,
                phase: InterceptPhase::Connecting,
                fragmentation: None,
            }),
    {
        InterceptSession {
            settings,
            peer,
            src_port,
            connect_ip,
            phase: InterceptPhase::Connecting,
            fragmentation: None,
        }
    }

    /// The event is one that the present phase waits for.
    pub open spec fn expects(self, e: SessionEvent) -> bool {
        match self.phase {
            InterceptPhase::Connecting => e is Connected || e is ConnectFailed,
            InterceptPhase::AwaitingProgress => e is Progress,
            InterceptPhase::SettingNodelay => e is NodelaySet,
            InterceptPhase::ReadingHello => e is Client,
            InterceptPhase::ReadingData => e is Client,
            InterceptPhase::WritingFragmentedHello => e is Written,
            InterceptPhase::WritingData => e is Written,
            InterceptPhase::WritingHello => e is Written,
            InterceptPhase::FlushingHello => e is Flushed,
            InterceptPhase::AwaitingCompletion => e is Completion,
            InterceptPhase::Relaying => e is RelayEnded,
            InterceptPhase::Ended => false,
        }
    }

    pub open spec fn at(self, phase: InterceptPhase) -> InterceptSession {
        InterceptSession { phase, ..self }
    }

    /// The session ends without anything being told of it.
    pub open spec fn dropped(self, fault: SessionFault) -> (InterceptSession, SessionStep) {
        (
            self.at(InterceptPhase::Ended),
            SessionStep { release_flow: true, ..plain(SessionAction::Fail(fault)) },
        )
    }

    /// The session ends, and the bypass with it.
    pub open spec fn failed(self, fault: SessionFault) -> (InterceptSession, SessionStep) {
        (
            self.at(InterceptPhase::Ended),
            SessionStep {
                report: Some(BypassOutcome::UnexpectedClose),
                event: Some(bypass_event(self.src_port, BypassOutcome::UnexpectedClose)),
                release_flow: true,
                ..plain(SessionAction::Fail(fault))
            },
        )
    }

    /// The bypass phase is over, with an outcome or without one.
    pub open spec fn bypass_over(
        self,
        outcome: Option<BypassOutcome>,
        timeout: SessionFault,
    ) -> (InterceptSession, SessionStep) {
        match outcome {
            Some(BypassOutcome::FakeDataAcked) => (
                self.at(InterceptPhase::Relaying),
                SessionStep {
                    event: Some(bypass_event(self.src_port, BypassOutcome::FakeDataAcked)),
                    release_flow: true,
                    ..plain(
                        SessionAction::Relay {
                            max_lifetime: self.settings.max_lifetime,
                            fragmentation: self.fragmentation,
                        },
                    )
                },
            ),
            Some(BypassOutcome::UnexpectedClose) => (
                self.at(InterceptPhase::Ended),
                SessionStep {
                    event: Some(bypass_event(self.src_port, BypassOutcome::UnexpectedClose)),
                    release_flow: true,
                    ..plain(SessionAction::Fail(SessionFault::InterceptorClosed))
                },
            ),
            None => self.failed(timeout),
        }
    }

    /// The flow takes data and the first ClientHello goes out in pieces: what is read.
    pub open spec fn segmented_read(self) -> (InterceptSession, SessionStep) {
        match self.settings.tcp_segmentation.packets {
            TlsFragPackets::TlsHello => (
                self.at(InterceptPhase::ReadingHello),
                plain(
                    SessionAction::ReadTlsRecord { limit: Some(self.settings.bypass_timeout) },
                ),
            ),
            TlsFragPackets::WriteRange { .. } => (
                self.at(InterceptPhase::ReadingData),
                plain(SessionAction::ReadClientWrite { timeout: self.settings.bypass_timeout }),
            ),
        }
    }

    /// What is written has to pass the interceptor now.
    pub open spec fn await_completion(self) -> (InterceptSession, SessionStep) {
        (
            self.at(InterceptPhase::AwaitingCompletion),
            plain(SessionAction::WaitForCompletion { timeout: self.settings.bypass_timeout }),
        )
    }

    /// The next phase of the session and its answer to an event that it waits for.
    pub open spec fn next(self, e: SessionEvent) -> (InterceptSession, SessionStep) {
        let seg = self.settings.tcp_segmentation;
        match e {
            SessionEvent::Connected => (
                self.at(InterceptPhase::AwaitingProgress),
                SessionStep {
                    event: Some(
                        ProxyEvent::ConnectionAccepted {
                            peer: self.peer,
                            src_port: self.src_port,
                            upstream_ip: IpAddr::V4(self.connect_ip),
                        },
                    ),
                    ..plain(
                        SessionAction::WaitForProgress { timeout: self.settings.bypass_timeout },
                    )
                },
            ),
            SessionEvent::ConnectFailed { error } => (
                self.at(InterceptPhase::Ended),
                SessionStep {
                    report: Some(BypassOutcome::UnexpectedClose),
                    event: Some(ProxyEvent::ConnectionError { src_port: self.src_port, error }),
                    release_flow: true,
                    ..plain(SessionAction::Fail(SessionFault::ConnectUpstream))
                },
            ),
            SessionEvent::Progress(Some(BypassProgress::Complete(outcome))) => self.bypass_over(
                Some(outcome),
                SessionFault::BypassTimeout,
            ),
            SessionEvent::Progress(None) => self.bypass_over(None, SessionFault::BypassTimeout),
            SessionEvent::Progress(Some(BypassProgress::ReadyForData)) => {
                if !self.settings.segment_first_client_hello {
                    (
                        self.at(InterceptPhase::ReadingHello),
                        plain(
                            SessionAction::ReadTlsRecord {
                                limit: Some(self.settings.bypass_timeout),
                            },
                        ),
                    )
                } else if seg.nodelay {
                    (self.at(InterceptPhase::SettingNodelay), plain(SessionAction::SetNodelay))
                } else {
                    self.segmented_read()
                }
            },
            SessionEvent::NodelaySet(ok) => if ok {
                self.segmented_read()
            } else {
                self.dropped(SessionFault::SetNodelay)
            },
            SessionEvent::Client(read) => if self.phase == InterceptPhase::ReadingHello {
                match read {
                    ClientRead::Data => if self.settings.segment_first_client_hello {
                        (
                            self.at(InterceptPhase::WritingFragmentedHello),
                            plain(
                                SessionAction::Write(
                                    WritePlan::Fragmented {
                                        length: seg.length,
                                        interval_ms: seg.interval_ms,
                                    },
                                ),
                            ),
                        )
                    } else {
                        (
                            self.at(InterceptPhase::WritingHello),
                            plain(SessionAction::Write(WritePlan::Whole)),
                        )
                    },
                    ClientRead::Failed => self.failed(SessionFault::ReadHello),
                    ClientRead::TimedOut => self.failed(SessionFault::ReadHelloTimeout),
                }
            } else {
                match read {
                    ClientRead::Data => (
                        self.at(InterceptPhase::WritingData),
                        plain(SessionAction::Write(plan_of(seg, 1))),
                    ),
                    ClientRead::Failed => self.failed(SessionFault::ReadData),
                    ClientRead::TimedOut => self.failed(SessionFault::ReadDataTimeout),
                }
            },
            SessionEvent::Written(ok) => match self.phase {
                InterceptPhase::WritingFragmentedHello => if ok {
                    self.await_completion()
                } else {
                    self.failed(SessionFault::WriteFragmentedHello)
                },
                InterceptPhase::WritingData => if ok {
                    InterceptSession { fragmentation: Some(Fragmentation { segmentation: seg, last_write: 1 }), ..self }.await_completion()
                } else {
                    self.failed(SessionFault::WriteFirstData)
                },
                _ => if ok {
                    (self.at(InterceptPhase::FlushingHello), plain(SessionAction::Flush))
                } else {
                    self.failed(SessionFault::WriteHello)
                },
            },
            SessionEvent::Flushed(ok) => if ok {
                self.await_completion()
            } else {
                self.failed(SessionFault::FlushHello)
            },
            SessionEvent::Completion(outcome) => self.bypass_over(
                outcome,
                SessionFault::FirstDataTimeout,
            ),
            SessionEvent::RelayEnded(relay) => (
                self.at(InterceptPhase::Ended),
                SessionStep {
                    event: Some(relay_event(self.src_port, relay)),
                    ..plain(SessionAction::Finish)
                },
            ),
        }
    }

    fn fail(&mut self, fault: SessionFault) -> (r: SessionStep)
        ensures
            (*final(self), r) == old(self).failed(fault),
    {
        self.phase = InterceptPhase::Ended;
        SessionStep {
            report: Some(BypassOutcome::UnexpectedClose),
            event: Some(
                ProxyEvent::BypassComplete {
                    src_port: self.src_port,
                    outcome: BypassOutcome::UnexpectedClose,
                },
            ),
            then_event: None,
            release_flow: true,
            action: SessionAction::Fail(fault),
        }
    }

    /// Ends the bypass phase: on to the relay, or to failure.
    fn finish_bypass_or_error(
        &mut self,
        outcome: Option<BypassOutcome>,
        timeout_error: SessionFault,
    ) -> (r: SessionStep)
        ensures
            (*final(self), r) == old(self).bypass_over(outcome, timeout_error),
    {
        match outcome {
            Some(BypassOutcome::FakeDataAcked) => {
                self.phase = InterceptPhase::Relaying;
                SessionStep {
                    report: None,
                    event: Some(
                        ProxyEvent::BypassComplete {
                            src_port: self.src_port,
                            outcome: BypassOutcome::FakeDataAcked,
                        },
                    ),
                    then_event: None,
                    release_flow: true,
                    action: SessionAction::Relay {
                        max_lifetime: self.settings.max_lifetime,
                        fragmentation: self.fragmentation,
                    },
                }
            },
            Some(BypassOutcome::UnexpectedClose) => {
                self.phase = InterceptPhase::Ended;
                SessionStep {
                    report: None,
                    event: Some(
                        ProxyEvent::BypassComplete {
                            src_port: self.src_port,
                            outcome: BypassOutcome::UnexpectedClose,
                        },
                    ),
                    then_event: None,
                    release_flow: true,
                    action: SessionAction::Fail(SessionFault::InterceptorClosed),
                }
            },
            None => self.fail(timeout_error),
        }
    }

    fn read_segmented(&mut self) -> (r: SessionStep)
        ensures
            (*final(self), r) == old(self).segmented_read(),
    {
        match self.settings.tcp_segmentation.packets {
            TlsFragPackets::TlsHello => {
                self.phase = InterceptPhase::ReadingHello;
                just(SessionAction::ReadTlsRecord { limit: Some(self.settings.bypass_timeout) })
            },
            TlsFragPackets::WriteRange { .. } => {
                self.phase = InterceptPhase::ReadingData;
                just(SessionAction::ReadClientWrite { timeout: self.settings.bypass_timeout })
            },
        }
    }

    fn wait_for_completion(&mut self) -> (r: SessionStep)
        ensures
            (*final(self), r) == old(self).await_completion(),
    {
        self.phase = InterceptPhase::AwaitingCompletion;
        just(SessionAction::WaitForCompletion { timeout: self.settings.bypass_timeout })
    }

    fn client_read(&mut self, read: ClientRead) -> (r: SessionStep)
        requires
            old(self).expects(SessionEvent::Client(read)),
        ensures
            (*final(self), r) == old(self).next(SessionEvent::Client(read)),
    {
        let seg = self.settings.tcp_segmentation;
        if self.phase == InterceptPhase::ReadingHello {
            match read {
                ClientRead::Data => {
                    if self.settings.segment_first_client_hello {
                        self.phase = InterceptPhase::WritingFragmentedHello;
                        just(
                            SessionAction::Write(
                                WritePlan::Fragmented {
                                    length: seg.length,
                                    interval_ms: seg.interval_ms,
                                },
                            ),
                        )
                    } else {
                        self.phase = InterceptPhase::WritingHello;
                        just(SessionAction::Write(WritePlan::Whole))
                    }
                },
                ClientRead::Failed => self.fail(SessionFault::ReadHello),
                ClientRead::TimedOut => self.fail(SessionFault::ReadHelloTimeout),
            }
        } else {
            match read {
                ClientRead::Data => {
                    self.phase = InterceptPhase::WritingData;
                    just(SessionAction::Write(write_client_data(&seg, 1)))
                },
                ClientRead::Failed => self.fail(SessionFault::ReadData),
                ClientRead::TimedOut => self.fail(SessionFault::ReadDataTimeout),
            }
        }
    }

    fn written(&mut self, ok: bool) -> (r: SessionStep)
        requires
            old(self).expects(SessionEvent::Written(ok)),
        ensures
            (*final(self), r) == old(self).next(SessionEvent::Written(ok)),
    {
        match self.phase {
            InterceptPhase::WritingFragmentedHello => if ok {
                self.wait_for_completion()
            } else {
                self.fail(SessionFault::WriteFragmentedHello)
            },
            InterceptPhase::WritingData => if ok {
                self.fragmentation = Some(
                    Fragmentation { segmentation: self.settings.tcp_segmentation, last_write: 1 },
                );
                self.wait_for_completion()
            } else {
                self.fail(SessionFault::WriteFirstData)
            },
            _ => if ok {
                self.phase = InterceptPhase::FlushingHello;
                just(SessionAction::Flush)
            } else {
                self.fail(SessionFault::WriteHello)
            },
        }
    }

    /// Takes an event that the session waits for and answers what is to be done next.
    pub fn step(&mut self, e: SessionEvent) -> (r: SessionStep)
        requires
            old(self).expects(e),
        ensures
            (*final(self), r) == old(self).next(e),
    {
        match e {
            SessionEvent::Connected => {
                self.phase = InterceptPhase::AwaitingProgress;
                SessionStep {
                    report: None,
                    event: Some(
                        ProxyEvent::ConnectionAccepted {
                            peer: self.peer,
                            src_port: self.src_port,
                            upstream_ip: IpAddr::V4(self.connect_ip),
                        },
                    ),
                    then_event: None,
                    release_flow: false,
                    action: SessionAction::WaitForProgress {
                        timeout: self.settings.bypass_timeout,
                    },
                }
            },
            SessionEvent::ConnectFailed { error } => {
                self.phase = InterceptPhase::Ended;
                SessionStep {
                    report: Some(BypassOutcome::UnexpectedClose),
                    event: Some(ProxyEvent::ConnectionError { src_port: self.src_port, error }),
                    then_event: None,
                    release_flow: true,
                    action: SessionAction::Fail(SessionFault::ConnectUpstream),
                }
            },
            SessionEvent::Progress(Some(BypassProgress::Complete(outcome))) => {
                self.finish_bypass_or_error(Some(outcome), SessionFault::BypassTimeout)
            },
            SessionEvent::Progress(None) => self.finish_bypass_or_error(
                None,
                SessionFault::BypassTimeout,
            ),
            SessionEvent::Progress(Some(BypassProgress::ReadyForData)) => {
                if !self.settings.segment_first_client_hello {
                    self.phase = InterceptPhase::ReadingHello;
                    just(
                        SessionAction::ReadTlsRecord {
                            limit: Some(self.settings.bypass_timeout),
                        },
                    )
                } else if self.settings.tcp_segmentation.nodelay {
                    self.phase = InterceptPhase::SettingNodelay;
                    just(SessionAction::SetNodelay)
                } else {
                    self.read_segmented()
                }
            },
            SessionEvent::NodelaySet(ok) => {
                if ok {
                    self.read_segmented()
                } else {
                    self.phase = InterceptPhase::Ended;
                    SessionStep {
                        report: None,
                        event: None,
                        then_event: None,
                        release_flow: true,
                        action: SessionAction::Fail(SessionFault::SetNodelay),
                    }
                }
            },
            SessionEvent::Client(read) => self.client_read(read),
            SessionEvent::Written(ok) => self.written(ok),
            SessionEvent::Flushed(ok) => {
                if ok {
                    self.wait_for_completion()
                } else {
                    self.fail(SessionFault::FlushHello)
                }
            },
            SessionEvent::Completion(outcome) => self.finish_bypass_or_error(
                outcome,
                SessionFault::FirstDataTimeout,
            ),
            SessionEvent::RelayEnded(relay) => {
                self.phase = InterceptPhase::Ended;
                SessionStep {
                    report: None,
                    event: Some(
                        ProxyEvent::RelayFinished {
                            src_port: self.src_port,
                            c2s_bytes: relay.c2s_bytes,
                            s2c_bytes: relay.s2c_bytes,
                            reason: relay.reason,
                        },
                    ),
                    then_event: None,
                    release_flow: false,
                    action: SessionAction::Finish,
                }
            },
        }
    }

    /// How many steps the session can still take at most.
    pub open spec fn steps_left(self) -> nat {
        match self.phase {
            InterceptPhase::Connecting => 8,
            InterceptPhase::AwaitingProgress => 7,
            InterceptPhase::SettingNodelay => 6,
            InterceptPhase::ReadingHello => 5,
            InterceptPhase::ReadingData => 5,
            InterceptPhase::WritingFragmentedHello => 4,
            InterceptPhase::WritingData => 4,
            InterceptPhase::WritingHello => 4,
            InterceptPhase::FlushingHello => 3,
            InterceptPhase::AwaitingCompletion => 2,
            InterceptPhase::Relaying => 1,
            InterceptPhase::Ended => 0,
        }
    }
}

/// A session comes to its end: every step leaves fewer steps to take, and it is over
/// exactly when it has finished or failed.
pub proof fn law_intercept_session_ends(session: InterceptSession, e: SessionEvent)
    requires
        session.expects(e),
    ensures
        session.next(e).0.steps_left() < session.steps_left(),
        session.next(e).0.phase == InterceptPhase::Ended <==> session.next(e).1.action is Finish
            || session.next(e).1.action is Fail,
{
}

/// The flow is given up exactly when the bypass phase is over: with the relay or with
/// a failure.
pub proof fn law_flow_is_released(session: InterceptSession, e: SessionEvent)
    requires
        session.expects(e),
    ensures
        session.next(e).1.release_flow <==> session.next(e).1.action is Relay || session.next(
            e,
        ).1.action is Fail,
{
}

/// Nothing is relayed before the bypass has succeeded and been told of.
pub proof fn law_relay_follows_bypass(session: InterceptSession, e: SessionEvent)
    requires
        session.expects(e),
        session.next(e).1.action is Relay,
    ensures
        e == SessionEvent::Progress(Some(BypassProgress::Complete(BypassOutcome::FakeDataAcked)))
            || e == SessionEvent::Completion(Some(BypassOutcome::FakeDataAcked)),
        session.next(e).1.event == Some(
            bypass_event(session.src_port, BypassOutcome::FakeDataAcked),
        ),
{
}

/// Every failure once the upstream is connected is told as a failed bypass, but for that
/// of the socket option.
pub proof fn law_failure_is_told(session: InterceptSession, e: SessionEvent)
    requires
        session.expects(e),
        session.next(e).1.action is Fail,
        !(e is ConnectFailed),
        !(e is NodelaySet),
    ensures
        session.next(e).1.event == Some(
            bypass_event(session.src_port, BypassOutcome::UnexpectedClose),
        ),
{
}

/// Where the course of a connection without interception stands.
#[derive(Debug, Clone, Copy, PartialEq, Eq, Structural)]
pub enum SegmentPhase {
    Connecting,
    SettingNodelay,
    ReadingHello,
    WritingHello,
    Relaying,
    Ended,
}

/// A connection whose client data is written in pieces, without interception.
#[derive(Debug, Clone, Copy, PartialEq, Eq, Structural)]
pub struct SegmentSession {
    pub segmentation: TcpSegmentation,
    pub max_lifetime: Option<u64>,
    pub peer: SocketAddr,
    pub connect_ip: Ipv4Addr,
    pub phase: SegmentPhase,
}

impl SegmentSession {
    pub fn new(
        segmentation: TcpSegmentation,
        max_lifetime: Option<u64>,
        peer: SocketAddr,
        connect_ip: Ipv4Addr,
    ) -> (r: SegmentSession)
        ensures
            r == (SegmentSession {
                segmentation,
                max_lifetime,
                peer,
                connect_ip,
                phase: SegmentPhase::Connecting,
            }),
    {
        SegmentSession {
            segmentation,
            max_lifetime,
            peer,
            connect_ip,
            phase: SegmentPhase::Connecting,
        }
    }

    /// The event is one that the present phase waits for.
    pub open spec fn expects(self, e: SessionEvent) -> bool {
        match self.phase {
            SegmentPhase::Connecting => e is Connected || e is ConnectFailed,
            SegmentPhase::SettingNodelay => e is NodelaySet,
            SegmentPhase::ReadingHello => e is Client,
            SegmentPhase::WritingHello => e is Written,
            SegmentPhase::Relaying => e is RelayEnded,
            SegmentPhase::Ended => false,
        }
    }

    pub open spec fn at(self, phase: SegmentPhase) -> SegmentSession {
        SegmentSession { phase, ..self }
    }

    pub open spec fn failed(self, fault: SessionFault) -> (SegmentSession, SessionStep) {
        (self.at(SegmentPhase::Ended), plain(SessionAction::Fail(fault)))
    }

    /// The relay starts; the client's writes are numbered from zero on where they are to
    /// be written in pieces.
    pub open spec fn relay(self) -> (SegmentSession, SessionStep) {
        (
            self.at(SegmentPhase::Relaying),
            SessionStep {
                event: Some(bypass_event(self.peer.port, BypassOutcome::FakeDataAcked)),
                ..plain(
                    SessionAction::Relay {
                        max_lifetime: self.max_lifetime,
                        fragmentation: match self.segmentation.packets {
                            TlsFragPackets::TlsHello => None,
                            TlsFragPackets::WriteRange { .. } => Some(
                                Fragmentation { segmentation: self.segmentation, last_write: 0 },
                            ),
                        },
                    },
                )
            },
        )
    }

    /// The upstream socket is ready.
    pub open spec fn ready(self) -> (SegmentSession, SessionStep) {
        match self.segmentation.packets {
            TlsFragPackets::TlsHello => (
                self.at(SegmentPhase::ReadingHello),
                plain(SessionAction::ReadTlsRecord { limit: None }),
            ),
            TlsFragPackets::WriteRange { .. } => self.relay(),
        }
    }

    /// The next phase of the session and its answer to an event that it waits for.
    pub open spec fn next(self, e: SessionEvent) -> (SegmentSession, SessionStep) {
        match e {
            SessionEvent::Connected => {
                let accepted = ProxyEvent::ConnectionAccepted {
                    peer: self.peer,
                    src_port: self.peer.port,
                    upstream_ip: IpAddr::V4(self.connect_ip),
                };
                let (after, step) = if self.segmentation.nodelay {
                    (self.at(SegmentPhase::SettingNodelay), plain(SessionAction::SetNodelay))
                } else {
                    self.ready()
                };
                (after, SessionStep { event: Some(accepted), then_event: step.event, ..step })
            },
            SessionEvent::ConnectFailed { error } => (
                self.at(SegmentPhase::Ended),
                SessionStep {
                    event: Some(ProxyEvent::ConnectionError { src_port: self.peer.port, error }),
                    ..plain(SessionAction::Fail(SessionFault::SegmentConnectUpstream))
                },
            ),
            SessionEvent::NodelaySet(ok) => if ok {
                self.ready()
            } else {
                self.failed(SessionFault::SegmentSetNodelay)
            },
            SessionEvent::Client(read) => match read {
                ClientRead::Data => (
                    self.at(SegmentPhase::WritingHello),
                    plain(
                        SessionAction::Write(
                            WritePlan::Fragmented {
                                length: self.segmentation.length,
                                interval_ms: self.segmentation.interval_ms,
                            },
                        ),
                    ),
                ),
                _ => self.failed(SessionFault::SegmentReadHello),
            },
            SessionEvent::Written(ok) => if ok {
                self.relay()
            } else {
                self.failed(SessionFault::SegmentWriteHello)
            },
            SessionEvent::RelayEnded(relay) => (
                self.at(SegmentPhase::Ended),
                SessionStep {
                    event: Some(relay_event(self.peer.port, relay)),
                    ..plain(SessionAction::Finish)
                },
            ),
            _ => self.failed(SessionFault::SegmentConnectUpstream),
        }
    }

    fn start_relay(&mut self) -> (r: SessionStep)
        ensures
            (*final(self), r) == old(self).relay(),
    {
        self.phase = SegmentPhase::Relaying;
        SessionStep {
            report: None,
            event: Some(
                ProxyEvent::BypassComplete {
                    src_port: self.peer.port,
                    outcome: BypassOutcome::FakeDataAcked,
                },
            ),
            then_event: None,
            release_flow: false,
            action: SessionAction::Relay {
                max_lifetime: self.max_lifetime,
                fragmentation: match self.segmentation.packets {
                    TlsFragPackets::TlsHello => None,
                    TlsFragPackets::WriteRange { .. } => Some(
                                Fragmentation { segmentation: self.segmentation, last_write: 0 },
                            ),
                },
            },
        }
    }

    fn go_ahead(&mut self) -> (r: SessionStep)
        ensures
            (*final(self), r) == old(self).ready(),
    {
        match self.segmentation.packets {
            TlsFragPackets::TlsHello => {
                self.phase = SegmentPhase::ReadingHello;
                just(SessionAction::ReadTlsRecord { limit: None })
            },
            TlsFragPackets::WriteRange { .. } => self.start_relay(),
        }
    }

    fn fail(&mut self, fault: SessionFault) -> (r: SessionStep)
        ensures
            (*final(self), r) == old(self).failed(fault),
    {
        self.phase = SegmentPhase::Ended;
        just(SessionAction::Fail(fault))
    }

    /// Takes an event that the session waits for and answers what is to be done next.
    pub fn step(&mut self, e: SessionEvent) -> (r: SessionStep)
        requires
            old(self).expects(e),
        ensures
            (*final(self), r) == old(self).next(e),
    {
        match e {
            SessionEvent::Connected => {
                let accepted = ProxyEvent::ConnectionAccepted {
                    peer: self.peer,
                    src_port: self.peer.port,
                    upstream_ip: IpAddr::V4(self.connect_ip),
                };
                let step = if self.segmentation.nodelay {
                    self.phase = SegmentPhase::SettingNodelay;
                    just(SessionAction::SetNodelay)
                } else {
                    self.go_ahead()
                };
                SessionStep {
                    report: step.report,
                    event: Some(accepted),
                    then_event: step.event,
                    release_flow: step.release_flow,
                    action: step.action,
                }
            },
            SessionEvent::ConnectFailed { error } => {
                self.phase = SegmentPhase::Ended;
                SessionStep {
                    report: None,
                    event: Some(ProxyEvent::ConnectionError { src_port: self.peer.port, error }),
                    then_event: None,
                    release_flow: false,
                    action: SessionAction::Fail(SessionFault::SegmentConnectUpstream),
                }
            },
            SessionEvent::NodelaySet(ok) => {
                if ok {
                    self.go_ahead()
                } else {
                    self.fail(SessionFault::SegmentSetNodelay)
                }
            },
            SessionEvent::Client(read) => {
                match read {
                    ClientRead::Data => {
                        self.phase = SegmentPhase::WritingHello;
                        just(
                            SessionAction::Write(
                                WritePlan::Fragmented {
                                    length: self.segmentation.length,
                                    interval_ms: self.segmentation.interval_ms,
                                },
                            ),
                        )
                    },
                    _ => self.fail(SessionFault::SegmentReadHello),
                }
            },
            SessionEvent::Written(ok) => {
                if ok {
                    self.start_relay()
                } else {
                    self.fail(SessionFault::SegmentWriteHello)
                }
            },
            SessionEvent::RelayEnded(relay) => {
                self.phase = SegmentPhase::Ended;
                SessionStep {
                    report: None,
                    event: Some(
                        ProxyEvent::RelayFinished {
                            src_port: self.peer.port,
                            c2s_bytes: relay.c2s_bytes,
                            s2c_bytes: relay.s2c_bytes,
                            reason: relay.reason,
                        },
                    ),
                    then_event: None,
                    release_flow: false,
                    action: SessionAction::Finish,
                }
            },
            _ => self.fail(SessionFault::SegmentConnectUpstream),
        }
    }

    /// How many steps the session can still take at most.
    pub open spec fn steps_left(self) -> nat {
        match self.phase {
            SegmentPhase::Connecting => 5,
            SegmentPhase::SettingNodelay => 4,
            SegmentPhase::ReadingHello => 3,
            SegmentPhase::WritingHello => 2,
            SegmentPhase::Relaying => 1,
            SegmentPhase::Ended => 0,
        }
    }
}

/// A session comes to its end: every step leaves fewer steps to take, and it is over
/// exactly when it has finished or failed.
pub proof fn law_segment_session_ends(session: SegmentSession, e: SessionEvent)
    requires
        session.expects(e),
    ensures
        session.next(e).0.steps_left() < session.steps_left(),
        session.next(e).0.phase == SegmentPhase::Ended <==> session.next(e).1.action is Finish
            || session.next(e).1.action is Fail,
{
}

/// A session without interception never touches a flow.
pub proof fn law_segment_session_needs_no_flow(session: SegmentSession, e: SessionEvent)
    requires
        session.expects(e),
    ensures
        session.next(e).1.report is None,
        !session.next(e).1.release_flow,
{
}

/// In `tlshello` mode the relay starts only after the ClientHello has been written in
/// pieces, and nothing after it is; otherwise the relay itself fragments, from the first
/// write of the client on.
pub proof fn law_segment_mode(session: SegmentSession, e: SessionEvent)
    requires
        session.expects(e),
        session.next(e).1.action is Relay,
    ensures
        session.segmentation.packets is TlsHello ==> session.phase == SegmentPhase::WritingHello,
        session.next(e).1.action->fragmentation == (if session.segmentation.packets is TlsHello {
            None::<Fragmentation>
        } else {
            Some(Fragmentation { segmentation: session.segmentation, last_write: 0 })
        }),
{
}

/// A write goes out in pieces of the configured length and pause exactly where the range of
/// writes holds its number; a setting that names the ClientHello holds none.
pub proof fn law_writes_in_the_range_are_fragmented(segmentation: TcpSegmentation, number: u32)
    ensures
        match segmentation.packets {
            TlsFragPackets::WriteRange { start, end } => if start <= number && number <= end {
                plan_of(segmentation, number) == (WritePlan::Fragmented {
                    length: segmentation.length,
                    interval_ms: segmentation.interval_ms,
                })
            } else {
                plan_of(segmentation, number) == WritePlan::WholeAndFlush
            },
            TlsFragPackets::TlsHello => plan_of(segmentation, number) == WritePlan::WholeAndFlush,
        },
{
}

/// The course of an intercepted connection on which nothing fails, from its start to its
/// end. Once the flow takes data, the socket option is set if it is wanted, one TLS record
/// or one client write is read, as the setting says, it is written, and the outcome is
/// waited for. The relay carries on with the writes after the first one where a range of
/// writes is fragmented, and else passes everything on as it is.
pub proof fn law_course_of_an_intercepted_connection(
    settings: ConnectionSettings,
    peer: SocketAddr,
    src_port: u16,
    connect_ip: Ipv4Addr,
    relay: RelayResult,
)
    ensures
        ({
            let seg = settings.tcp_segmentation;
            let pieces = settings.segment_first_client_hello;
            let in_pieces = WritePlan::Fragmented {
                length: seg.length,
                interval_ms: seg.interval_ms,
            };
            let s0 = InterceptSession {
                settings,
                peer,
                src_port,
                connect_ip,
                phase: InterceptPhase::Connecting,
                fragmentation: None,
            };
            let (s1, connected) = s0.next(SessionEvent::Connected);
            let (s2, ready) = s1.next(
                SessionEvent::Progress(Some(BypassProgress::ReadyForData)),
            );
            let (s3, read) = if pieces && seg.nodelay {
                s2.next(SessionEvent::NodelaySet(true))
            } else {
                (s2, ready)
            };
            let (s4, write) = s3.next(SessionEvent::Client(ClientRead::Data));
            let (s5, written) = s4.next(SessionEvent::Written(true));
            let (s6, wait) = if pieces {
                (s5, written)
            } else {
                s5.next(SessionEvent::Flushed(true))
            };
            let (s7, passed) = s6.next(
                SessionEvent::Completion(Some(BypassOutcome::FakeDataAcked)),
            );
            let (s8, end) = s7.next(SessionEvent::RelayEnded(relay));
            &&& connected.action == SessionAction::WaitForProgress {
                timeout: settings.bypass_timeout,
            }
            &&& connected.event == Some(
                ProxyEvent::ConnectionAccepted {
                    peer,
                    src_port,
                    upstream_ip: IpAddr::V4(connect_ip),
                },
            )
            &&& pieces && seg.nodelay ==> ready.action == SessionAction::SetNodelay
            &&& match (pieces, seg.packets) {
                (true, TlsFragPackets::TlsHello) => {
                    &&& read.action == SessionAction::ReadTlsRecord {
                        limit: Some(settings.bypass_timeout),
                    }
                    &&& write.action == SessionAction::Write(in_pieces)
                },
                (true, TlsFragPackets::WriteRange { start, end: last }) => {
                    &&& read.action == SessionAction::ReadClientWrite {
                        timeout: settings.bypass_timeout,
                    }
                    &&& write.action == SessionAction::Write(
                        if start <= 1 && 1 <= last {
                            in_pieces
                        } else {
                            WritePlan::WholeAndFlush
                        },
                    )
                },
                (false, _) => {
                    &&& read.action == SessionAction::ReadTlsRecord {
                        limit: Some(settings.bypass_timeout),
                    }
                    &&& write.action == SessionAction::Write(WritePlan::Whole)
                    &&& written.action == SessionAction::Flush
                },
            }
            &&& wait.action == SessionAction::WaitForCompletion {
                timeout: settings.bypass_timeout,
            }
            &&& passed.action == SessionAction::Relay {
                max_lifetime: settings.max_lifetime,
                fragmentation: if pieces && seg.packets is WriteRange {
                    Some(Fragmentation { segmentation: seg, last_write: 1 })
                } else {
                    None
                },
            }
            &&& passed.event == Some(
                ProxyEvent::BypassComplete { src_port, outcome: BypassOutcome::FakeDataAcked },
            )
            &&& end.action == SessionAction::Finish
            &&& end.event == Some(
                ProxyEvent::RelayFinished {
                    src_port,
                    c2s_bytes: relay.c2s_bytes,
                    s2c_bytes: relay.s2c_bytes,
                    reason: relay.reason,
                },
            )
            &&& ready.event is None && read.event is None && write.event is None
            &&& written.event is None && wait.event is None
            &&& s8.phase == InterceptPhase::Ended
        }),
{
}

/// A flow whose bypass is complete before any data has come is relayed at once, and nothing
/// of it is fragmented.
pub proof fn law_complete_flow_is_relayed_at_once(
    settings: ConnectionSettings,
    peer: SocketAddr,
    src_port: u16,
    connect_ip: Ipv4Addr,
)
    ensures
        ({
            let s0 = InterceptSession {
                settings,
                peer,
                src_port,
                connect_ip,
                phase: InterceptPhase::Connecting,
                fragmentation: None,
            };
            let s1 = s0.next(SessionEvent::Connected).0;
            let done = s1.next(
                SessionEvent::Progress(
                    Some(BypassProgress::Complete(BypassOutcome::FakeDataAcked)),
                ),
            ).1;
            &&& done.action == SessionAction::Relay {
                max_lifetime: settings.max_lifetime,
                fragmentation: None,
            }
            &&& done.event == Some(
                ProxyEvent::BypassComplete { src_port, outcome: BypassOutcome::FakeDataAcked },
            )
        }),
{
}

/// A new intercepted session waits for the connection, and every later one for the answer
/// to what it asked last, and for nothing else.
pub proof fn law_intercept_session_waits_for_its_answer(
    session: InterceptSession,
    e: SessionEvent,
    answer: SessionEvent,
)
    ensures
        session.phase == InterceptPhase::Connecting ==> (session.expects(e) <==> e is Connected
            || e is ConnectFailed),
        session.expects(e) ==> (session.next(e).0.expects(answer) <==> match session.next(
            e,
        ).1.action {
            SessionAction::WaitForProgress { .. } => answer is Progress,
            SessionAction::SetNodelay => answer is NodelaySet,
            SessionAction::ReadTlsRecord { .. } => answer is Client,
            SessionAction::ReadClientWrite { .. } => answer is Client,
            SessionAction::Write(_) => answer is Written,
            SessionAction::Flush => answer is Flushed,
            SessionAction::WaitForCompletion { .. } => answer is Completion,
            SessionAction::Relay { .. } => answer is RelayEnded,
            SessionAction::Finish => false,
            SessionAction::Fail(_) => false,
        }),
{
}

/// An intercepted session fails exactly on an event that reports a failure, and for the
/// reason of what was being done. The failure is reported to the flow unless the flow
/// itself brought it or the socket option did.
pub proof fn law_intercept_session_fails_on_failures(session: InterceptSession, e: SessionEvent)
    requires
        session.expects(e),
    ensures
        ({
            let step = session.next(e).1;
            let by_flow = e == SessionEvent::Progress(
                Some(BypassProgress::Complete(BypassOutcome::UnexpectedClose)),
            ) || e == SessionEvent::Completion(Some(BypassOutcome::UnexpectedClose));
            let fault = match e {
                SessionEvent::ConnectFailed { .. } => Some(SessionFault::ConnectUpstream),
                SessionEvent::Progress(None) => Some(SessionFault::BypassTimeout),
                SessionEvent::Completion(None) => Some(SessionFault::FirstDataTimeout),
                SessionEvent::NodelaySet(false) => Some(SessionFault::SetNodelay),
                SessionEvent::Client(ClientRead::Failed) => Some(
                    if session.phase == InterceptPhase::ReadingData {
                        SessionFault::ReadData
                    } else {
                        SessionFault::ReadHello
                    },
                ),
                SessionEvent::Client(ClientRead::TimedOut) => Some(
                    if session.phase == InterceptPhase::ReadingData {
                        SessionFault::ReadDataTimeout
                    } else {
                        SessionFault::ReadHelloTimeout
                    },
                ),
                SessionEvent::Written(false) => Some(
                    if session.phase == InterceptPhase::WritingData {
                        SessionFault::WriteFirstData
                    } else if session.phase == InterceptPhase::WritingFragmentedHello {
                        SessionFault::WriteFragmentedHello
                    } else {
                        SessionFault::WriteHello
                    },
                ),
                SessionEvent::Flushed(false) => Some(SessionFault::FlushHello),
                _ => if by_flow {
                    Some(SessionFault::InterceptorClosed)
                } else {
                    None
                },
            };
            &&& match fault {
                Some(f) => step.action == SessionAction::Fail(f),
                None => !(step.action is Fail),
            }
            &&& step.report == (if fault is Some && !by_flow && !(e is NodelaySet) {
                Some(BypassOutcome::UnexpectedClose)
            } else {
                None::<BypassOutcome>
            })
            &&& e matches SessionEvent::ConnectFailed { error } ==> step.event == Some(
                ProxyEvent::ConnectionError { src_port: session.src_port, error },
            )
            &&& fault is Some && !(e is ConnectFailed) && !(e is NodelaySet) ==> step.event == Some(
                ProxyEvent::BypassComplete {
                    src_port: session.src_port,
                    outcome: BypassOutcome::UnexpectedClose,
                },
            )
            &&& e is NodelaySet ==> step.event is None
            &&& step.then_event is None
        }),
{
}

/// What a session was started with stays with it: its settings, its client, its port and
/// its target.
pub proof fn law_intercept_session_keeps_its_settings(session: InterceptSession, e: SessionEvent)
    ensures
        session.next(e).0.settings == session.settings,
        session.next(e).0.peer == session.peer,
        session.next(e).0.src_port == session.src_port,
        session.next(e).0.connect_ip == session.connect_ip,
{
}

/// The course of a connection without interception on which nothing fails, from its start
/// to its end. The socket option is set if it is wanted. Where the ClientHello is to go out
/// in pieces, it is read without a limit of time and written in pieces, and the relay
/// passes the rest on as it is. Where a range of writes is, the relay starts at once and
/// counts the client's writes from the first one on.
pub proof fn law_course_of_a_segmented_connection(
    segmentation: TcpSegmentation,
    max_lifetime: Option<u64>,
    peer: SocketAddr,
    connect_ip: Ipv4Addr,
    relay: RelayResult,
)
    ensures
        ({
            let s0 = SegmentSession {
                segmentation,
                max_lifetime,
                peer,
                connect_ip,
                phase: SegmentPhase::Connecting,
            };
            let hello = segmentation.packets is TlsHello;
            let (s1, connected) = s0.next(SessionEvent::Connected);
            let (s2, ready) = if segmentation.nodelay {
                s1.next(SessionEvent::NodelaySet(true))
            } else {
                (s1, connected)
            };
            let (s3, write) = s2.next(SessionEvent::Client(ClientRead::Data));
            let (s4, passed) = if hello {
                s3.next(SessionEvent::Written(true))
            } else {
                (s2, ready)
            };
            let (s5, end) = s4.next(SessionEvent::RelayEnded(relay));
            let told = Some(
                ProxyEvent::BypassComplete {
                    src_port: peer.port,
                    outcome: BypassOutcome::FakeDataAcked,
                },
            );
            &&& connected.event == Some(
                ProxyEvent::ConnectionAccepted {
                    peer,
                    src_port: peer.port,
                    upstream_ip: IpAddr::V4(connect_ip),
                },
            )
            &&& segmentation.nodelay ==> connected.action == SessionAction::SetNodelay
                && connected.then_event is None
            &&& hello ==> {
                &&& ready.action == SessionAction::ReadTlsRecord { limit: None }
                &&& write.action == SessionAction::Write(
                    WritePlan::Fragmented {
                        length: segmentation.length,
                        interval_ms: segmentation.interval_ms,
                    },
                )
                &&& segmentation.nodelay ==> ready.event is None
                &&& !segmentation.nodelay ==> ready.then_event is None
                &&& write.event is None
            }
            &&& passed.action == SessionAction::Relay {
                max_lifetime,
                fragmentation: if hello {
                    None
                } else {
                    Some(Fragmentation { segmentation, last_write: 0 })
                },
            }
            &&& if hello || segmentation.nodelay {
                passed.event == told && passed.then_event is None
            } else {
                passed.then_event == told
            }
            &&& end.action == SessionAction::Finish
            &&& end.event == Some(
                ProxyEvent::RelayFinished {
                    src_port: peer.port,
                    c2s_bytes: relay.c2s_bytes,
                    s2c_bytes: relay.s2c_bytes,
                    reason: relay.reason,
                },
            )
            &&& s5.phase == SegmentPhase::Ended
        }),
{
}

/// A new session without interception waits for the connection, and every later one for the
/// answer to what it asked last, and for nothing else.
pub proof fn law_segment_session_waits_for_its_answer(
    session: SegmentSession,
    e: SessionEvent,
    answer: SessionEvent,
)
    ensures
        session.phase == SegmentPhase::Connecting ==> (session.expects(e) <==> e is Connected || e
            is ConnectFailed),
        session.expects(e) ==> (session.next(e).0.expects(answer) <==> match session.next(
            e,
        ).1.action {
            SessionAction::SetNodelay => answer is NodelaySet,
            SessionAction::ReadTlsRecord { .. } => answer is Client,
            SessionAction::Write(_) => answer is Written,
            SessionAction::Relay { .. } => answer is RelayEnded,
            _ => false,
        }),
{
}

/// A session without interception fails exactly on an event that reports a failure, and for
/// the reason of what was being done. Only a failed connection is told of.
pub proof fn law_segment_session_fails_on_failures(session: SegmentSession, e: SessionEvent)
    requires
        session.expects(e),
    ensures
        ({
            let step = session.next(e).1;
            let fault = match e {
                SessionEvent::ConnectFailed { .. } => Some(SessionFault::SegmentConnectUpstream),
                SessionEvent::NodelaySet(false) => Some(SessionFault::SegmentSetNodelay),
                SessionEvent::Client(ClientRead::Failed) => Some(SessionFault::SegmentReadHello),
                SessionEvent::Client(ClientRead::TimedOut) => Some(SessionFault::SegmentReadHello),
                SessionEvent::Written(false) => Some(SessionFault::SegmentWriteHello),
                _ => None,
            };
            &&& match fault {
                Some(f) => step.action == SessionAction::Fail(f),
                None => !(step.action is Fail),
            }
            &&& match e {
                SessionEvent::ConnectFailed { error } => step.event == Some(
                    ProxyEvent::ConnectionError { src_port: session.peer.port, error },
                ),
                _ => fault is Some ==> step.event is None,
            }
            &&& fault is Some ==> step.then_event is None
        }),
{
}

/// What a session was started with stays with it: its segmentation, its lifetime, its
/// client and its target.
pub proof fn law_segment_session_keeps_its_settings(session: SegmentSession, e: SessionEvent)
    ensures
        session.next(e).0.segmentation == session.segmentation,
        session.next(e).0.max_lifetime == session.max_lifetime,
        session.next(e).0.peer == session.peer,
        session.next(e).0.connect_ip == session.connect_ip,
{
}

} // verus!
