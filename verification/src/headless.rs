//! The proxy without a terminal: the events that a controller sees, and how the proxy
//! comes to its end.

use crate::addr::{IpAddr, SocketAddr};
use crate::config::Config;
use crate::flow::BypassOutcome;
use crate::proxy::{ProxyEvent, RelayEndReason};
use crate::scan::IpScanEvent;
use crate::startup::{
    requires_packet_interception, root_message, root_required_message, rootless_alternatives,
};
use crate::text::{copy_text, decimal, push_decimal};
use vstd::prelude::*;
use vstd::string::*;

verus! {

/// How long the packet interceptor may take to stop on Linux and Android, in seconds.
pub const INTERCEPTOR_SHUTDOWN_TIMEOUT: u64 = 5;

/// The system that the proxy runs on, as far as its end depends on it.
#[derive(Debug, Clone, Copy, PartialEq, Eq, Structural)]
pub enum Platform {
    /// Linux and Android.
    Linux,
    /// Another system with Unix signals.
    Unix,
    Other,
}

#[derive(Debug, Clone, Copy, PartialEq, Eq, Structural)]
pub enum BypassStatus {
    Completed,
    Failed,
}

/// What a controller is told.
#[derive(Debug)]
pub enum RuntimeEvent {
    ListenerStarted { mode: String, listen_addr: SocketAddr },
    ConnectionAccepted { peer: SocketAddr, src_port: u16 },
    BypassFinished { src_port: u16, status: BypassStatus },
    RelayBytes { src_port: u16, c2s_bytes: u64, s2c_bytes: u64, is_final: bool },
    ActiveTargetChanged { ip: IpAddr },
    /// The list that is scanned, where the addresses come from one.
    ScanStarted { path: Option<String>, total: usize },
    ScanProgress {
        phase: ScanPhase,
        completed: usize,
        total: usize,
        probed: Option<IpAddr>,
        score: Option<u8>,
    },
    ScanCompleted { results: usize },
    SelectedTarget { ip: IpAddr, score: Option<u8> },
    GracefulShutdown { reason: String },
    ConfigLoaded {
        path: String,
        mode: String,
        bypass_method: String,
        listen_host: String,
        listen_port: u16,
        auto_select: bool,
        no_tui: bool,
        root_required: bool,
    },
    RootRequired {
        mode: String,
        bypass_method: String,
        message: String,
        rootless_alternatives: Vec<String>,
    },
    FatalError { message: String },
}

#[derive(Debug, Clone, Copy, PartialEq, Eq, Structural)]
pub enum ScanPhase {
    Tcp,
    Probe,
}

impl ScanPhase {
    pub fn label(&self) -> (r: &'static str)
        ensures
            r@ == (match *self {
                ScanPhase::Tcp => "tcp"@,
                ScanPhase::Probe => "probe"@,
            }),
    {
        match self {
            ScanPhase::Tcp => "tcp",
            ScanPhase::Probe => "probe",
        }
    }
}

/// A line for the log.
#[derive(Debug, Clone, Copy)]
pub struct LogLine {
    pub warning: bool,
    pub message: &'static str,
}

/// What a controller is told of an event of the proxy.
pub open spec fn told(e: ProxyEvent) -> RuntimeEvent {
    match e {
        ProxyEvent::ListenerStarted { mode, listen_addr } => RuntimeEvent::ListenerStarted {
            mode,
            listen_addr,
        },
        ProxyEvent::ConnectionAccepted { peer, src_port, .. } => RuntimeEvent::ConnectionAccepted {
            peer,
            src_port,
        },
        ProxyEvent::BypassComplete { src_port, outcome } => RuntimeEvent::BypassFinished {
            src_port,
            status: match outcome {
                BypassOutcome::FakeDataAcked => BypassStatus::Completed,
                BypassOutcome::UnexpectedClose => BypassStatus::Failed,
            },
        },
        ProxyEvent::RelayFinished { src_port, c2s_bytes, s2c_bytes, .. } => {
            RuntimeEvent::RelayBytes { src_port, c2s_bytes, s2c_bytes, is_final: true }
        },
        ProxyEvent::ConnectionError { src_port, .. } => RuntimeEvent::BypassFinished {
            src_port,
            status: BypassStatus::Failed,
        },
        ProxyEvent::RelayProgress { src_port, c2s_bytes, s2c_bytes } => RuntimeEvent::RelayBytes {
            src_port,
            c2s_bytes,
            s2c_bytes,
            is_final: false,
        },
        ProxyEvent::IpTargetChanged { ip } => RuntimeEvent::ActiveTargetChanged { ip },
    }
}

/// What a controller is told of an event of the proxy.
pub fn runtime_event(e: ProxyEvent) -> (r: RuntimeEvent)
    ensures
        r == told(e),
{
    match e {
        ProxyEvent::ListenerStarted { mode, listen_addr } => RuntimeEvent::ListenerStarted {
            mode,
            listen_addr,
        },
        ProxyEvent::ConnectionAccepted { peer, src_port, .. } => RuntimeEvent::ConnectionAccepted {
            peer,
            src_port,
        },
        ProxyEvent::BypassComplete { src_port, outcome } => RuntimeEvent::BypassFinished {
            src_port,
            status: match outcome {
                BypassOutcome::FakeDataAcked => BypassStatus::Completed,
                BypassOutcome::UnexpectedClose => BypassStatus::Failed,
            },
        },
        ProxyEvent::RelayFinished { src_port, c2s_bytes, s2c_bytes, .. } => {
            RuntimeEvent::RelayBytes { src_port, c2s_bytes, s2c_bytes, is_final: true }
        },
        ProxyEvent::ConnectionError { src_port, .. } => RuntimeEvent::BypassFinished {
            src_port,
            status: BypassStatus::Failed,
        },
        ProxyEvent::RelayProgress { src_port, c2s_bytes, s2c_bytes } => RuntimeEvent::RelayBytes {
            src_port,
            c2s_bytes,
            s2c_bytes,
            is_final: false,
        },
        ProxyEvent::IpTargetChanged { ip } => RuntimeEvent::ActiveTargetChanged { ip },
    }
}

/// What a controller is told once the configuration is loaded.
pub fn config_loaded(cfg: &Config, path: &str, no_tui: bool) -> (r: RuntimeEvent)
    ensures
        r matches RuntimeEvent::ConfigLoaded {
            path: p,
            mode,
            bypass_method,
            listen_host,
            listen_port,
            auto_select,
            no_tui: headless,
            root_required,
        } && p@ == path@ && mode@ == cfg.MODE@ && bypass_method@ == cfg.BYPASS_METHOD@
            && listen_host@ == cfg.LISTEN_HOST@ && listen_port == cfg.LISTEN_PORT && auto_select
            == cfg.AUTO_SELECT && headless == no_tui && root_required == (cfg.MODE@
            == "ip_bypass_plus"@ && cfg.BYPASS_METHOD@ != "tls_frag"@),
{
    RuntimeEvent::ConfigLoaded {
        path: copy_text(path),
        mode: copy_text(cfg.MODE.as_str()),
        bypass_method: copy_text(cfg.BYPASS_METHOD.as_str()),
        listen_host: copy_text(cfg.LISTEN_HOST.as_str()),
        listen_port: cfg.LISTEN_PORT,
        auto_select: cfg.AUTO_SELECT,
        no_tui,
        root_required: requires_packet_interception(cfg),
    }
}

/// What a controller is told where packets cannot be intercepted but have to be.
pub fn root_required(cfg: &Config) -> (r: RuntimeEvent)
    ensures
        r matches RuntimeEvent::RootRequired {
            mode,
            bypass_method,
            message,
            rootless_alternatives,
        } && mode@ == cfg.MODE@ && bypass_method@ == cfg.BYPASS_METHOD@ && message@
            == root_message(*cfg) && rootless_alternatives@.len() == 1
            && rootless_alternatives@[0]@ == "BYPASS_METHOD = \"tls_frag\""@,
{
    RuntimeEvent::RootRequired {
        mode: copy_text(cfg.MODE.as_str()),
        bypass_method: copy_text(cfg.BYPASS_METHOD.as_str()),
        message: root_required_message(cfg),
        rootless_alternatives: rootless_alternatives(),
    }
}

/// What the log says of an event of the proxy, if anything, and whether it is a warning.
pub open spec fn logged(e: ProxyEvent) -> Option<(bool, Seq<char>)> {
    match e {
        ProxyEvent::ListenerStarted { .. } => None,
        ProxyEvent::ConnectionAccepted { .. } => Some((false, "accepted proxy connection"@)),
        ProxyEvent::BypassComplete { outcome, .. } => Some(
            match outcome {
                BypassOutcome::FakeDataAcked => (false, "bypass complete; relaying"@),
                BypassOutcome::UnexpectedClose => (true, "bypass failed before relay"@),
            },
        ),
        ProxyEvent::RelayFinished { reason, .. } => Some(
            match reason {
                RelayEndReason::Completed => (false, "relay finished"@),
                RelayEndReason::MaxLifetime => (false, "relay rotated after max lifetime"@),
            },
        ),
        ProxyEvent::ConnectionError { .. } => Some((true, "proxy connection failed"@)),
        ProxyEvent::RelayProgress { .. } => None,
        ProxyEvent::IpTargetChanged { .. } => Some((false, "active IP target changed"@)),
    }
}

/// What the log says of an event of the proxy, if anything.
pub fn log_line(e: &ProxyEvent) -> (r: Option<LogLine>)
    ensures
        match r {
            Some(line) => logged(*e) == Some((line.warning, line.message@)),
            None => logged(*e) is None,
        },
{
    let (warning, message) = match e {
        ProxyEvent::ListenerStarted { .. } => {
            return None;
        },
        ProxyEvent::ConnectionAccepted { .. } => (false, "accepted proxy connection"),
        ProxyEvent::BypassComplete { outcome, .. } => match outcome {
            BypassOutcome::FakeDataAcked => (false, "bypass complete; relaying"),
            BypassOutcome::UnexpectedClose => (true, "bypass failed before relay"),
        },
        ProxyEvent::RelayFinished { reason, .. } => match reason {
            RelayEndReason::Completed => (false, "relay finished"),
            RelayEndReason::MaxLifetime => (false, "relay rotated after max lifetime"),
        },
        ProxyEvent::ConnectionError { .. } => (true, "proxy connection failed"),
        ProxyEvent::RelayProgress { .. } => {
            return None;
        },
        ProxyEvent::IpTargetChanged { .. } => (false, "active IP target changed"),
    };
    Some(LogLine { warning, message })
}

/// Counts the probes of a scan for the controller.
#[derive(Debug, Clone, Copy, PartialEq, Eq, Structural)]
pub struct ScanReport {
    pub total: usize,
    pub probe_completed: usize,
}

impl ScanReport {
    pub fn new(total: usize) -> (r: ScanReport)
        ensures
            r == (ScanReport { total, probe_completed: 0 }),
    {
        ScanReport { total, probe_completed: 0 }
    }

    /// What the controller is told of an event of the scan.
    pub fn on_event(&mut self, e: IpScanEvent) -> (r: RuntimeEvent)
        requires
            e is ProbeComplete ==> old(self).probe_completed < usize::MAX,
        ensures
            final(self).total == old(self).total,
            match e {
                IpScanEvent::TcpDone { tcp_tested } => {
                    &&& final(self).probe_completed == old(self).probe_completed
                    &&& r == RuntimeEvent::ScanProgress {
                        phase: ScanPhase::Tcp,
                        completed: tcp_tested,
                        total: old(self).total,
                        probed: None,
                        score: None,
                    }
                },
                IpScanEvent::ProbeComplete(entry) => {
                    &&& final(self).probe_completed == old(self).probe_completed + 1
                    &&& r == RuntimeEvent::ScanProgress {
                        phase: ScanPhase::Probe,
                        completed: final(self).probe_completed,
                        total: old(self).total,
                        probed: Some(entry.ip),
                        score: Some(entry.score),
                    }
                },
            },
    {
        match e {
            IpScanEvent::TcpDone { tcp_tested } => RuntimeEvent::ScanProgress {
                phase: ScanPhase::Tcp,
                completed: tcp_tested,
                total: self.total,
                probed: None,
                score: None,
            },
            IpScanEvent::ProbeComplete(entry) => {
                self.probe_completed = self.probe_completed + 1;
                RuntimeEvent::ScanProgress {
                    phase: ScanPhase::Probe,
                    completed: self.probe_completed,
                    total: self.total,
                    probed: Some(entry.ip),
                    score: Some(entry.score),
                }
            },
        }
    }
}

/// A signal that was received. Where there are no Unix signals, Ctrl-C is an interrupt and
/// the others do not come.
#[derive(Debug, Clone, Copy, PartialEq, Eq, Structural)]
pub enum Signal {
    Interrupt,
    Terminate,
    Hangup,
}

/// The reason with which a signal ends the proxy, if it does: one signal of each system
/// ends it.
pub open spec fn reason_of(platform: Platform, signal: Signal) -> Option<Seq<char>> {
    match (platform, signal) {
        (Platform::Other, Signal::Interrupt) => Some("ctrl_c"@),
        (Platform::Other, _) => None,
        (_, Signal::Terminate) => Some("SIGTERM"@),
        (_, _) => None,
    }
}

/// The reason with which a signal ends the proxy, if it does.
pub fn shutdown_reason(platform: Platform, signal: Signal) -> (r: Option<&'static str>)
    ensures
        match r {
            Some(reason) => reason_of(platform, signal) == Some(reason@),
            None => reason_of(platform, signal) is None,
        },
{
    match (platform, signal) {
        (Platform::Other, Signal::Interrupt) => Some("ctrl_c"),
        (Platform::Other, _) => None,
        (_, Signal::Terminate) => Some("SIGTERM"),
        (_, _) => None,
    }
}

/// What the log says of a signal, and whether it is a warning: one that does not end the
/// proxy is.
pub open spec fn signal_logged(platform: Platform, signal: Signal) -> Option<(bool, Seq<char>)> {
    match (platform, signal) {
        (Platform::Other, Signal::Interrupt) => Some((false, "received Ctrl-C"@)),
        (Platform::Other, _) => None,
        (_, Signal::Interrupt) => Some(
            (
                true,
                "received SIGINT; continuing because --no-tui is running headless; send SIGTERM to stop"@,
            ),
        ),
        (_, Signal::Terminate) => Some((false, "received SIGTERM"@)),
        (_, Signal::Hangup) => Some(
            (true, "received SIGHUP; continuing because --no-tui is running headless"@),
        ),
    }
}

/// What the log says of a signal.
pub fn signal_line(platform: Platform, signal: Signal) -> (r: Option<LogLine>)
    ensures
        match r {
            Some(line) => signal_logged(platform, signal) == Some((line.warning, line.message@)),
            None => signal_logged(platform, signal) is None,
        },
{
    let (warning, message) = match (platform, signal) {
        (Platform::Other, Signal::Interrupt) => (false, "received Ctrl-C"),
        (Platform::Other, _) => {
            return None;
        },
        (_, Signal::Interrupt) => (
            true,
            "received SIGINT; continuing because --no-tui is running headless; send SIGTERM to stop",
        ),
        (_, Signal::Terminate) => (false, "received SIGTERM"),
        (_, Signal::Hangup) => (
            true,
            "received SIGHUP; continuing because --no-tui is running headless",
        ),
    };
    Some(LogLine { warning, message })
}

/// What the log says when the proxy starts without a terminal.
pub fn start_message(platform: Platform) -> (r: &'static str)
    ensures
        r@ == (match platform {
            Platform::Other => "running without TUI; press Ctrl-C to stop"@,
            _ => "running without TUI; send SIGTERM to stop"@,
        }),
{
    match platform {
        Platform::Other => "running without TUI; press Ctrl-C to stop",
        _ => "running without TUI; send SIGTERM to stop",
    }
}

/// How long the packet interceptor is waited for, in milliseconds.
pub fn interceptor_shutdown_wait_ms(platform: Platform) -> (r: u64)
    ensures
        r == (match platform {
            Platform::Linux => INTERCEPTOR_SHUTDOWN_TIMEOUT * 1000,
            _ => 100,
        }),
{
    match platform {
        Platform::Linux => INTERCEPTOR_SHUTDOWN_TIMEOUT * 1000,
        _ => 100,
    }
}

/// Whether there is no terminal to ask on: events for a controller rule it out.
pub fn headless(no_tui: bool, json_events: bool) -> (r: bool)
    ensures
        r == (no_tui || json_events),
{
    no_tui || json_events
}

/// Whether a change of target by a scan in the background is told of: there is somebody
/// to be told.
pub fn tells_of_rescan(headless: bool, json_events: bool) -> (r: bool)
    ensures
        r == (!headless || json_events),
{
    !headless || json_events
}

/// How the task of the proxy ended.
#[derive(Debug)]
pub enum ProxyEnd {
    Panicked { error: String },
    Finished,
    Failed { error: String },
}

/// What is reported of the packet interceptor's end.
#[derive(Debug)]
pub enum InterceptorReport {
    Stopped,
    Failed { error: String },
    /// There is nobody left to report.
    Lost,
}

/// The report of the packet interceptor's end is this one. A thread that ends without a
/// result has failed.
pub open spec fn reports(ended: Option<Result<(), String>>, report: InterceptorReport) -> bool {
    match ended {
        Some(Ok(_)) => report is Stopped,
        Some(Err(error)) => report == (InterceptorReport::Failed { error }),
        None => report matches InterceptorReport::Failed { error } && error@
            == "packet interceptor thread stopped before reporting a result"@,
    }
}

/// The report of the packet interceptor's end, from the result of its thread, if it left
/// one.
pub fn interceptor_report(ended: Option<Result<(), String>>) -> (r: InterceptorReport)
    ensures
        reports(ended, r),
{
    match ended {
        Some(Ok(_)) => InterceptorReport::Stopped,
        Some(Err(error)) => InterceptorReport::Failed { error },
        None => InterceptorReport::Failed {
            error: copy_text("packet interceptor thread stopped before reporting a result"),
        },
    }
}

/// What ends the proxy first.
#[derive(Debug)]
pub enum EndCause {
    Signal { reason: String },
    /// The signals cannot be waited for.
    SignalsFailed { error: String },
    Proxy(ProxyEnd),
    Interceptor(InterceptorReport),
}

/// Why the proxy ends in failure.
#[derive(Debug)]
pub enum HeadlessError {
    Signals { error: String },
    ProxyPanicked { error: String },
    Proxy { error: String },
    InterceptorUnexpected,
    Interceptor { error: String },
    InterceptorLost,
    InterceptorDuringShutdown { error: String },
    InterceptorSlow,
}

impl HeadlessError {
    /// What the failure is, before what caused it.
    pub open spec fn message(self) -> Option<Seq<char>> {
        match self {
            HeadlessError::Signals { .. } => None,
            HeadlessError::ProxyPanicked { .. } => Some("proxy task panicked"@),
            HeadlessError::Proxy { .. } => None,
            HeadlessError::InterceptorUnexpected => Some(
                "packet interceptor stopped unexpectedly"@,
            ),
            HeadlessError::Interceptor { .. } => Some("packet interceptor stopped"@),
            HeadlessError::InterceptorLost => Some(
                "packet interceptor thread stopped before reporting a result"@,
            ),
            HeadlessError::InterceptorDuringShutdown { .. } => Some(
                "packet interceptor stopped during shutdown"@,
            ),
            HeadlessError::InterceptorSlow => Some(
                "packet interceptor did not stop within "@ + decimal(
                    INTERCEPTOR_SHUTDOWN_TIMEOUT as nat,
                ) + " seconds"@,
            ),
        }
    }

    /// What caused the failure, where something else did.
    pub open spec fn source(self) -> Option<Seq<char>> {
        match self {
            HeadlessError::Signals { error } => Some(error@),
            HeadlessError::ProxyPanicked { error } => Some(error@),
            HeadlessError::Proxy { error } => Some(error@),
            HeadlessError::Interceptor { error } => Some(error@),
            HeadlessError::InterceptorDuringShutdown { error } => Some(error@),
            _ => None,
        }
    }

    /// The failure and its cause in words.
    pub fn text(&self) -> (r: String)
        ensures
            r@ == (match (self.message(), self.source()) {
                (Some(m), Some(e)) => m + ": "@ + e,
                (Some(m), None) => m,
                (None, Some(e)) => e,
                (None, None) => Seq::empty(),
            }),
    {
        match self {
            HeadlessError::Signals { error } => copy_text(error.as_str()),
            HeadlessError::ProxyPanicked { error } => copy_text("proxy task panicked").concat(
                ": ",
            ).concat(error.as_str()),
            HeadlessError::Proxy { error } => copy_text(error.as_str()),
            HeadlessError::InterceptorUnexpected => copy_text(
                "packet interceptor stopped unexpectedly",
            ),
            HeadlessError::Interceptor { error } => copy_text("packet interceptor stopped").concat(
                ": ",
            ).concat(error.as_str()),
            HeadlessError::InterceptorLost => copy_text(
                "packet interceptor thread stopped before reporting a result",
            ),
            HeadlessError::InterceptorDuringShutdown { error } => copy_text(
                "packet interceptor stopped during shutdown",
            ).concat(": ").concat(error.as_str()),
            HeadlessError::InterceptorSlow => {
                let mut s = copy_text("packet interceptor did not stop within ");
                push_decimal(&mut s, INTERCEPTOR_SHUTDOWN_TIMEOUT);
                s.append(" seconds");
                s
            },
        }
    }
}

/// What stopping the packet interceptor comes to; no report means that it took too long.
/// Only on Linux and Android is there anything to fail.
pub open spec fn stopping_fault(platform: Platform, report: Option<InterceptorReport>) -> Option<
    HeadlessError,
> {
    match (platform, report) {
        (Platform::Linux, Some(InterceptorReport::Failed { error })) => Some(
            HeadlessError::InterceptorDuringShutdown { error },
        ),
        (Platform::Linux, Some(InterceptorReport::Lost)) => Some(HeadlessError::InterceptorLost),
        (Platform::Linux, None) => Some(HeadlessError::InterceptorSlow),
        _ => None,
    }
}

/// What stopping the packet interceptor comes to; no report means that it took too long.
pub fn interceptor_shutdown_result(platform: Platform, report: Option<InterceptorReport>) -> (r:
    Option<HeadlessError>)
    ensures
        r == stopping_fault(platform, report),
{
    if !matches!(platform, Platform::Linux) {
        return None;
    }
    match report {
        Some(InterceptorReport::Stopped) => None,
        Some(InterceptorReport::Failed { error }) => Some(
            HeadlessError::InterceptorDuringShutdown { error },
        ),
        Some(InterceptorReport::Lost) => Some(HeadlessError::InterceptorLost),
        None => Some(HeadlessError::InterceptorSlow),
    }
}

/// What is done at the end of the proxy.
#[derive(Debug)]
pub struct Ending {
    pub abort_proxy: bool,
    /// The packet interceptor is asked to stop.
    pub stop_interceptor: bool,
    /// What holds after it: whether it is waited for, or the end.
    pub next: EndStep,
}

#[derive(Debug)]
pub enum EndStep {
    /// Wait for the packet interceptor, and come to this end.
    Await(PendingEnd),
    Over { graceful: Option<String>, error: Option<HeadlessError> },
}

/// The end that is come to once the packet interceptor has stopped.
#[derive(Debug)]
pub enum PendingEnd {
    Signal { reason: String },
    Proxy { error: Option<String> },
}

/// How the proxy comes to its end, with a packet interceptor or without one.
pub open spec fn ending(cause: EndCause, interceptor: bool) -> Ending {
    match cause {
        EndCause::Signal { reason } => Ending {
            abort_proxy: true,
            stop_interceptor: interceptor,
            next: if interceptor {
                EndStep::Await(PendingEnd::Signal { reason })
            } else {
                EndStep::Over { graceful: Some(reason), error: None }
            },
        },
        EndCause::SignalsFailed { error } => Ending {
            abort_proxy: false,
            stop_interceptor: false,
            next: EndStep::Over { graceful: None, error: Some(HeadlessError::Signals { error }) },
        },
        EndCause::Proxy(ProxyEnd::Panicked { error }) => Ending {
            abort_proxy: false,
            stop_interceptor: interceptor,
            next: EndStep::Over {
                graceful: None,
                error: Some(HeadlessError::ProxyPanicked { error }),
            },
        },
        EndCause::Proxy(ProxyEnd::Finished) => Ending {
            abort_proxy: false,
            stop_interceptor: interceptor,
            next: if interceptor {
                EndStep::Await(PendingEnd::Proxy { error: None })
            } else {
                EndStep::Over { graceful: None, error: None }
            },
        },
        EndCause::Proxy(ProxyEnd::Failed { error }) => Ending {
            abort_proxy: false,
            stop_interceptor: interceptor,
            next: if interceptor {
                EndStep::Await(PendingEnd::Proxy { error: Some(error) })
            } else {
                EndStep::Over { graceful: None, error: Some(HeadlessError::Proxy { error }) }
            },
        },
        EndCause::Interceptor(report) => Ending {
            abort_proxy: true,
            stop_interceptor: false,
            next: EndStep::Over {
                graceful: None,
                error: Some(
                    match report {
                        InterceptorReport::Stopped => HeadlessError::InterceptorUnexpected,
                        InterceptorReport::Failed { error } => HeadlessError::Interceptor { error },
                        InterceptorReport::Lost => HeadlessError::InterceptorLost,
                    },
                ),
            },
        },
    }
}

/// How the proxy comes to its end, with a packet interceptor or without one.
pub fn end_of_proxy(cause: EndCause, interceptor: bool) -> (r: Ending)
    ensures
        r == ending(cause, interceptor),
{
    match cause {
        EndCause::Signal { reason } => Ending {
            abort_proxy: true,
            stop_interceptor: interceptor,
            next: if interceptor {
                EndStep::Await(PendingEnd::Signal { reason })
            } else {
                EndStep::Over { graceful: Some(reason), error: None }
            },
        },
        EndCause::SignalsFailed { error } => Ending {
            abort_proxy: false,
            stop_interceptor: false,
            next: EndStep::Over { graceful: None, error: Some(HeadlessError::Signals { error }) },
        },
        EndCause::Proxy(ProxyEnd::Panicked { error }) => Ending {
            abort_proxy: false,
            stop_interceptor: interceptor,
            next: EndStep::Over {
                graceful: None,
                error: Some(HeadlessError::ProxyPanicked { error }),
            },
        },
        EndCause::Proxy(ProxyEnd::Finished) => Ending {
            abort_proxy: false,
            stop_interceptor: interceptor,
            next: if interceptor {
                EndStep::Await(PendingEnd::Proxy { error: None })
            } else {
                EndStep::Over { graceful: None, error: None }
            },
        },
        EndCause::Proxy(ProxyEnd::Failed { error }) => Ending {
            abort_proxy: false,
            stop_interceptor: interceptor,
            next: if interceptor {
                EndStep::Await(PendingEnd::Proxy { error: Some(error) })
            } else {
                EndStep::Over { graceful: None, error: Some(HeadlessError::Proxy { error }) }
            },
        },
        EndCause::Interceptor(report) => Ending {
            abort_proxy: true,
            stop_interceptor: false,
            next: EndStep::Over {
                graceful: None,
                error: Some(
                    match report {
                        InterceptorReport::Stopped => HeadlessError::InterceptorUnexpected,
                        InterceptorReport::Failed { error } => HeadlessError::Interceptor { error },
                        InterceptorReport::Lost => HeadlessError::InterceptorLost,
                    },
                ),
            },
        },
    }
}

/// The end after the wait for the packet interceptor: a signal ends the proxy gracefully
/// only if the interceptor has stopped well, and a failure of the proxy comes before one
/// of the interceptor.
pub open spec fn ended(
    pending: PendingEnd,
    stopping: Option<HeadlessError>,
) -> (Option<String>, Option<HeadlessError>) {
    match pending {
        PendingEnd::Signal { reason } => match stopping {
            Some(e) => (None, Some(e)),
            None => (Some(reason), None),
        },
        PendingEnd::Proxy { error: Some(error) } => (None, Some(HeadlessError::Proxy { error })),
        PendingEnd::Proxy { error: None } => (None, stopping),
    }
}

/// The reason to tell of and the failure with which the proxy ends, after the wait for the
/// packet interceptor.
pub fn end_after_wait(pending: PendingEnd, stopping: Option<HeadlessError>) -> (r: (
    Option<String>,
    Option<HeadlessError>,
))
    ensures
        r == ended(pending, stopping),
{
    match pending {
        PendingEnd::Signal { reason } => match stopping {
            Some(e) => (None, Some(e)),
            None => (Some(reason), None),
        },
        PendingEnd::Proxy { error: Some(error) } => (None, Some(HeadlessError::Proxy { error })),
        PendingEnd::Proxy { error: None } => (None, stopping),
    }
}

/// The proxy never ends gracefully and in failure at once, and only a signal ends it
/// gracefully: it does without an interceptor, with one that has stopped, and on a system
/// where an interceptor cannot fail to.
pub proof fn law_graceful_end_is_no_failure(
    cause: EndCause,
    interceptor: bool,
    platform: Platform,
    report: Option<InterceptorReport>,
)
    ensures
        match ending(cause, interceptor).next {
            EndStep::Over { graceful, error } => {
                &&& graceful is Some ==> error is None && cause is Signal
                &&& !interceptor && cause is Signal ==> graceful is Some
            },
            EndStep::Await(pending) => {
                let end = ended(pending, stopping_fault(platform, report));
                &&& interceptor
                &&& end.0 is Some ==> end.1 is None && cause is Signal
                &&& cause is Signal ==> (end.0 is Some <==> platform != Platform::Linux || report
                    == Some(InterceptorReport::Stopped))
            },
        },
{
}

/// One signal of each system ends the proxy, and the log warns of exactly those signals
/// that come without ending it.
pub proof fn law_one_signal_ends_the_proxy(platform: Platform, signal: Signal)
    ensures
        reason_of(platform, signal) is Some <==> signal == (if platform == Platform::Other {
            Signal::Interrupt
        } else {
            Signal::Terminate
        }),
        match signal_logged(platform, signal) {
            Some((warning, _)) => warning <==> reason_of(platform, signal) is None,
            None => reason_of(platform, signal) is None,
        },
{
}

/// A thread that ends without a result is a failure wherever the interceptor's end is
/// looked at: as what ends the proxy, and on Linux when it is stopped.
pub proof fn law_lost_result_is_a_failure(report: InterceptorReport)
    requires
        reports(None, report),
    ensures
        ending(EndCause::Interceptor(report), true).next matches EndStep::Over {
            graceful: None,
            error: Some(e),
        } && e.message() == Some("packet interceptor stopped"@) && e.source() == Some(
            "packet interceptor thread stopped before reporting a result"@,
        ),
        stopping_fault(Platform::Linux, Some(report)) matches Some(e) && e.message() == Some(
            "packet interceptor stopped during shutdown"@,
        ) && e.source() == Some("packet interceptor thread stopped before reporting a result"@),
{
}

/// An interceptor that still runs is asked to stop before the proxy's end, unless the
/// signals themselves have failed.
pub proof fn law_interceptor_is_stopped(cause: EndCause)
    ensures
        ending(cause, true).stop_interceptor <==> !(cause is Interceptor)
            && !(cause is SignalsFailed),
        !ending(cause, false).stop_interceptor,
{
}

/// A controller is told of every event with its own port, address and numbers. A bypass
/// counts as failed if its flow was closed or its connection could not be made, and the
/// bytes of a relay are final exactly once it has finished.
pub proof fn law_what_a_controller_is_told(e: ProxyEvent)
    ensures
        match told(e) {
            RuntimeEvent::ListenerStarted { mode, listen_addr } => e
                == ProxyEvent::ListenerStarted { mode, listen_addr },
            RuntimeEvent::ConnectionAccepted { peer, src_port } => {
                &&& e is ConnectionAccepted
                &&& e->ConnectionAccepted_peer == peer
                &&& e->ConnectionAccepted_src_port == src_port
            },
            RuntimeEvent::BypassFinished { src_port, status } => {
                ||| e == ProxyEvent::BypassComplete {
                    src_port,
                    outcome: BypassOutcome::FakeDataAcked,
                } && status == BypassStatus::Completed
                ||| e == ProxyEvent::BypassComplete {
                    src_port,
                    outcome: BypassOutcome::UnexpectedClose,
                } && status == BypassStatus::Failed
                ||| e is ConnectionError && e->ConnectionError_src_port == src_port && status
                    == BypassStatus::Failed
            },
            RuntimeEvent::RelayBytes { src_port, c2s_bytes, s2c_bytes, is_final } => {
                ||| {
                    &&& is_final
                    &&& e is RelayFinished
                    &&& e->RelayFinished_src_port == src_port
                    &&& e->RelayFinished_c2s_bytes == c2s_bytes
                    &&& e->RelayFinished_s2c_bytes == s2c_bytes
                }
                ||| !is_final && e == ProxyEvent::RelayProgress { src_port, c2s_bytes, s2c_bytes }
            },
            RuntimeEvent::ActiveTargetChanged { ip } => e == ProxyEvent::IpTargetChanged { ip },
            _ => false,
        },
{
}

/// The log holds a line for every event but the start of the listener and the progress of a
/// relay, and warns exactly of failures.
pub proof fn law_what_the_log_warns_of(e: ProxyEvent)
    ensures
        logged(e) is None <==> e is ListenerStarted || e is RelayProgress,
        logged(e) matches Some((warning, _)) ==> (warning <==> e is ConnectionError || (e
            is BypassComplete && e->BypassComplete_outcome == BypassOutcome::UnexpectedClose)),
        e is RelayFinished ==> ((logged(e)->0).1 == "relay rotated after max lifetime"@
            || e->RelayFinished_reason == RelayEndReason::Completed),
        e is RelayFinished ==> ((logged(e)->0).1 == "relay finished"@ || e->RelayFinished_reason
            == RelayEndReason::MaxLifetime),
{
}

/// How a run comes to its end, all in all. A signal ends it with its reason, unless an
/// interceptor fails to stop; a failure of the proxy ends it with that failure, whatever the
/// interceptor does; a proxy that finishes leaves it to the interceptor; and an interceptor
/// that ends by itself is a failure in any case.
pub proof fn law_how_a_run_ends(
    cause: EndCause,
    interceptor: bool,
    platform: Platform,
    report: Option<InterceptorReport>,
)
    ensures
        ({
            let end = ending(cause, interceptor);
            let (graceful, error) = match end.next {
                EndStep::Over { graceful, error } => (graceful, error),
                EndStep::Await(pending) => ended(pending, stopping_fault(platform, report)),
            };
            let fault = if interceptor && platform == Platform::Linux {
                match report {
                    None => Some(HeadlessError::InterceptorSlow),
                    Some(InterceptorReport::Lost) => Some(HeadlessError::InterceptorLost),
                    Some(InterceptorReport::Failed { error }) => Some(
                        HeadlessError::InterceptorDuringShutdown { error },
                    ),
                    Some(InterceptorReport::Stopped) => None,
                }
            } else {
                None
            };
            &&& end.next is Await <==> interceptor && (cause is Signal || (cause is Proxy
                && !(cause->Proxy_0 is Panicked)))
            &&& end.abort_proxy <==> cause is Signal || cause is Interceptor
            &&& match cause {
                EndCause::Signal { reason } => error == fault && graceful == (if fault is None {
                    Some(reason)
                } else {
                    None
                }),
                EndCause::SignalsFailed { error: e } => graceful is None && error == Some(
                    HeadlessError::Signals { error: e },
                ),
                EndCause::Proxy(ProxyEnd::Panicked { error: e }) => graceful is None && error
                    == Some(HeadlessError::ProxyPanicked { error: e }),
                EndCause::Proxy(ProxyEnd::Failed { error: e }) => graceful is None && error == Some(
                    HeadlessError::Proxy { error: e },
                ),
                EndCause::Proxy(ProxyEnd::Finished) => graceful is None && error == fault,
                EndCause::Interceptor(InterceptorReport::Stopped) => graceful is None && error
                    == Some(HeadlessError::InterceptorUnexpected),
                EndCause::Interceptor(InterceptorReport::Failed { error: e }) => graceful is None
                    && error == Some(HeadlessError::Interceptor { error: e }),
                EndCause::Interceptor(InterceptorReport::Lost) => graceful is None && error == Some(
                    HeadlessError::InterceptorLost,
                ),
            }
        }),
{
}

/// The reason that is given for the end names what ended it.
pub proof fn law_reasons_name_the_signal(platform: Platform, signal: Signal)
    ensures
        reason_of(platform, signal) matches Some(reason) ==> {
            ||| platform == Platform::Other && signal == Signal::Interrupt && reason == "ctrl_c"@
            ||| platform != Platform::Other && signal == Signal::Terminate && reason == "SIGTERM"@
        },
        platform == Platform::Other ==> reason_of(platform, Signal::Interrupt) is Some,
        platform != Platform::Other ==> reason_of(platform, Signal::Terminate) is Some,
{
}

/// The interceptor's thread is reported as it ended: stopped if it ended well, and failed
/// with its own words if it did not.
pub proof fn law_report_is_the_result(ended: Option<Result<(), String>>, report: InterceptorReport)
    requires
        reports(ended, report),
    ensures
        report is Stopped <==> ended is Some && ended->0 is Ok,
        ended is Some && ended->0 is Err ==> report == (InterceptorReport::Failed {
            error: ended->0->Err_0,
        }),
        !(report is Lost),
{
}

} // verus!
