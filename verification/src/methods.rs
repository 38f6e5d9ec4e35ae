//! Pluggable bypass methods.
//!
//! - `tls_record_frag` works on intercepted packets.
//! - `tls_frag` works on socket writes and needs no interception.

use crate::config::{packets_text, Config, ConfigError, Int32Range, TlsFragPackets};
use crate::flow::FlowState;
use crate::handler::{completes_handshake, is_first_data, Direction, PacketView};
use crate::text::same_text;
use vstd::prelude::*;

verus! {

/// Result of asking a method to act on a packet.
#[derive(Debug, Clone, Copy, PartialEq, Eq, Structural)]
pub enum MethodAction {
    /// Apply the staged mutations on the packet and accept it.
    EmitFakeAndAccept { complete_immediately: bool, continue_with_data: bool },
    /// Forward unchanged and mark the bypass phase complete.
    CompleteAndAccept,
    /// Forward unchanged.
    PassThrough,
    /// Forward unchanged and mark the bypass phase failed.
    AbortAndAccept,
}

impl MethodAction {
    pub fn emit_and_wait_for_ack() -> (r: MethodAction)
        ensures
            r == (MethodAction::EmitFakeAndAccept {
                complete_immediately: false,
                continue_with_data: false,
            }),
    {
        MethodAction::EmitFakeAndAccept { complete_immediately: false, continue_with_data: false }
    }

    pub fn emit_and_complete() -> (r: MethodAction)
        ensures
            r == (MethodAction::EmitFakeAndAccept {
                complete_immediately: true,
                continue_with_data: false,
            }),
    {
        MethodAction::EmitFakeAndAccept { complete_immediately: true, continue_with_data: false }
    }

    pub fn emit_and_wait_for_data() -> (r: MethodAction)
        ensures
            r == (MethodAction::EmitFakeAndAccept {
                complete_immediately: false,
                continue_with_data: true,
            }),
    {
        MethodAction::EmitFakeAndAccept { complete_immediately: false, continue_with_data: true }
    }

    pub fn complete_and_accept() -> (r: MethodAction)
        ensures
            r == MethodAction::CompleteAndAccept,
    {
        MethodAction::CompleteAndAccept
    }

    pub fn abort_and_accept() -> (r: MethodAction)
        ensures
            r == MethodAction::AbortAndAccept,
    {
        MethodAction::AbortAndAccept
    }
}

/// A pluggable bypass technique.
pub trait BypassMethod: Send + Sync + 'static {
    /// The name that the configuration gives the method.
    fn name(&self) -> &'static str;

    /// Asked about the outbound ACK that completes the handshake of a monitored flow.
    fn on_handshake_complete_ack(&self, flow: &FlowState, pkt: &mut PacketView) -> MethodAction
        requires
            flow.wf(),
            flow.monitor,
            old(pkt).direction == Direction::Outbound,
            old(pkt).bare_ack,
            completes_handshake(*flow, *old(pkt)),
    ;

    /// Asked about the first outbound data packet of a monitored flow that waits for it.
    fn on_first_data_packet(&self, _flow: &FlowState, _pkt: &mut PacketView) -> (r: MethodAction)
        requires
            _flow.wf(),
            _flow.monitor,
            old(_pkt).direction == Direction::Outbound,
            is_first_data(*_flow, *old(_pkt)),
        default_ensures
            r == MethodAction::PassThrough,
            *final(_pkt) == *old(_pkt),
    {
        MethodAction::PassThrough
    }
}

/// The method that splits the ClientHello into small TLS records.
#[derive(Debug, Clone, Copy, PartialEq, Eq, Structural)]
pub struct TlsRecordFrag {
    /// Most bytes in one record.
    pub size: usize,
    /// Set the PSH flag on the packet.
    pub set_psh: bool,
    /// Increment the IPv4 identification of the packet.
    pub bump_ip_ident: bool,
}

/// The method that works on intercepted packets, if the configuration names one.
pub fn build_method(cfg: &Config) -> (r: Option<TlsRecordFrag>)
    ensures
        r == (if cfg.BYPASS_METHOD@ == "tls_record_frag"@ {
            Some(
                TlsRecordFrag {
                    size: cfg.TLS_RECORD_FRAG_SIZE,
                    set_psh: cfg.TLS_RECORD_FRAG_SET_PSH,
                    bump_ip_ident: cfg.TLS_RECORD_FRAG_BUMP_IP_IDENT,
                },
            )
        } else {
            None
        }),
{
    if same_text(cfg.BYPASS_METHOD.as_str(), "tls_record_frag") {
        Some(
            TlsRecordFrag {
                size: cfg.TLS_RECORD_FRAG_SIZE,
                set_psh: cfg.TLS_RECORD_FRAG_SET_PSH,
                bump_ip_ident: cfg.TLS_RECORD_FRAG_BUMP_IP_IDENT,
            },
        )
    } else {
        None
    }
}

/// How client data is written to the upstream socket in small pieces.
#[derive(Debug, Clone, Copy, PartialEq, Eq, Structural)]
pub struct TcpSegmentation {
    /// Which data is written in pieces.
    pub packets: TlsFragPackets,
    /// Length of a piece, in bytes.
    pub length: Int32Range,
    /// Milliseconds between two pieces.
    pub interval_ms: Int32Range,
    /// Set `TCP_NODELAY` on the socket.
    pub nodelay: bool,
}

impl TcpSegmentation {
    /// The segmentation is the one that the configuration describes.
    pub open spec fn describes(self, cfg: Config) -> bool {
        &&& packets_text(cfg.TLS_FRAG_PACKETS@) == Ok::<TlsFragPackets, Seq<char>>(self.packets)
        &&& cfg.fragment_length() == Some(self.length)
        &&& self.interval_ms == cfg.TLS_FRAG_INTERVAL_MS
        &&& self.nodelay == cfg.TCP_SEG_NODELAY
    }

    /// The segmentation that the configuration describes.
    pub fn new(cfg: &Config) -> (r: Result<TcpSegmentation, ConfigError>)
        ensures
            match r {
                Ok(seg) => seg.describes(*cfg),
                Err(e) => if cfg.packets_fault() is Some {
                    Some(e@) == cfg.packets_fault()
                } else {
                    cfg.fragment_length() is None && e@ == "TCP_SEG_SIZE must be <= i32::MAX"@
                },
            },
            cfg.valid() ==> r is Ok,
    {
        let packets = match cfg.tls_frag_packets() {
            Ok(p) => p,
            Err(e) => {
                return Err(e);
            },
        };
        let length = match cfg.tls_frag_length_range() {
            Ok(l) => l,
            Err(e) => {
                return Err(e);
            },
        };
        Ok(
            TcpSegmentation {
                packets,
                length,
                interval_ms: cfg.TLS_FRAG_INTERVAL_MS,
                nodelay: cfg.TCP_SEG_NODELAY,
            },
        )
    }

    /// Whether the write goes out in pieces.
    pub fn fragments_write(&self, write_index: u32) -> (r: bool)
        ensures
            r == self.packets.includes(write_index),
    {
        self.packets.includes_write(write_index)
    }
}

/// The segmentation holds what the configuration says: which writes, how long the pieces
/// and how long the pauses are, and whether the socket option is set. Without a configured
/// range of lengths all pieces have the one length.
pub proof fn law_segmentation_follows_the_configuration(seg: TcpSegmentation, cfg: Config)
    requires
        seg.describes(cfg),
    ensures
        packets_text(cfg.TLS_FRAG_PACKETS@) == Ok::<TlsFragPackets, Seq<char>>(seg.packets),
        seg.nodelay == cfg.TCP_SEG_NODELAY,
        seg.interval_ms == cfg.TLS_FRAG_INTERVAL_MS,
        cfg.TLS_FRAG_LENGTH matches Some(length) ==> seg.length == length,
        cfg.TLS_FRAG_LENGTH is None ==> seg.length.min == cfg.TCP_SEG_SIZE && seg.length.max
            == cfg.TCP_SEG_SIZE,
{
}

/// A valid configuration gives pieces that are never empty, pauses that are never negative,
/// and writes that are counted from one.
pub proof fn law_valid_configuration_can_be_cut(seg: TcpSegmentation, cfg: Config)
    requires
        cfg.valid(),
        seg.describes(cfg),
    ensures
        seg.length.min >= 1,
        seg.interval_ms.min >= 0,
        seg.packets matches TlsFragPackets::WriteRange { start, end } ==> 1 <= start <= end,
{
}

} // verus!
