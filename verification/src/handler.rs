//! The packet handler: follows the TCP handshake of every tracked flow, hands the
//! right packet to the bypass method and reports how the bypass phase ended.
//!
//! Packets of unknown flows pass through unchanged. An unexpected packet of a
//! tracked flow is forwarded too, but closes the flow.

use crate::addr::Ipv4Addr;
use crate::flow::{BypassOutcome, FlowKey, FlowState, FlowTable};
use crate::methods::{BypassMethod, MethodAction};
use vstd::prelude::*;

verus! {

#[derive(Debug, Clone, Copy, PartialEq, Eq, Structural)]
pub enum Direction {
    Outbound,
    Inbound,
}

/// What becomes of a captured packet.
#[derive(Debug, Clone, Copy, PartialEq, Eq, Structural)]
pub enum Verdict {
    Accept,
    AcceptModified,
}

/// Who waits on the flow and has to be woken.
#[derive(Debug, Clone, Copy, PartialEq, Eq, Structural)]
pub enum Wake {
    Nobody,
    /// Those who wait for the outcome.
    Outcome,
    /// Those who wait until the flow takes data.
    ReadyForData,
}

#[derive(Debug, Clone, Copy, PartialEq, Eq, Structural)]
pub struct Decision {
    pub verdict: Verdict,
    pub wake: Wake,
}

/// A captured TCP/IPv4 packet.
pub struct PacketView {
    pub direction: Direction,
    pub src_ip: Ipv4Addr,
    pub src_port: u16,
    pub dst_ip: Ipv4Addr,
    pub dst_port: u16,
    pub seq: u32,
    pub ack: u32,
    pub payload_len: usize,
    /// SYN and nothing else.
    pub bare_syn: bool,
    /// ACK and nothing else.
    pub bare_ack: bool,
    /// SYN and ACK and nothing else.
    pub syn_ack: bool,
    /// The payload that a method put in place of the captured one.
    pub staged: Option<Vec<u8>>,
}

impl PacketView {
    pub fn is_bare_syn(&self) -> (r: bool)
        ensures
            r == self.bare_syn,
    {
        self.bare_syn
    }

    pub fn is_bare_ack(&self) -> (r: bool)
        ensures
            r == self.bare_ack,
    {
        self.bare_ack
    }

    pub fn is_syn_ack(&self) -> (r: bool)
        ensures
            r == self.syn_ack,
    {
        self.syn_ack
    }

    /// The key of the flow that the packet belongs to. Flows are keyed on the
    /// outbound direction.
    pub open spec fn flow_key(self) -> FlowKey {
        match self.direction {
            Direction::Outbound => FlowKey {
                src_ip: self.src_ip,
                src_port: self.src_port,
                dst_ip: self.dst_ip,
                dst_port: self.dst_port,
            },
            Direction::Inbound => FlowKey {
                src_ip: self.dst_ip,
                src_port: self.dst_port,
                dst_ip: self.src_ip,
                dst_port: self.src_port,
            },
        }
    }
}

/// The sequence number after `n`, on the circle of 32-bit numbers.
pub open spec fn succ(n: u32) -> int {
    (n + 1) % 0x1_0000_0000
}

/// What a packet of a monitored flow leads to.
#[derive(Debug, Clone, Copy, PartialEq, Eq, Structural)]
pub enum Step {
    /// The flow moves to `state`.
    Settled { state: FlowState, decision: Decision },
    /// The method decides: this ACK completes the handshake.
    AskHandshake,
    /// The method decides: this is the first data packet.
    AskFirstData,
}

/// The packet is forwarded and the flow moves to `state` without waking anybody.
pub open spec fn settled(state: FlowState) -> Step {
    Step::Settled { state, decision: Decision { verdict: Verdict::Accept, wake: Wake::Nobody } }
}

/// The packet is forwarded and the flow ends with `outcome`.
pub open spec fn ended(state: FlowState, outcome: BypassOutcome) -> Step {
    Step::Settled {
        state: state.finished(outcome),
        decision: Decision { verdict: Verdict::Accept, wake: Wake::Outcome },
    }
}

/// An outbound SYN that starts the flow or repeats its start.
pub open spec fn opens(state: FlowState, pkt: PacketView) -> bool {
    &&& pkt.ack == 0
    &&& state.syn_seq is None || state.syn_seq == Some(pkt.seq)
}

/// An outbound ACK that completes the handshake: it acknowledges the SYN-ACK and
/// nothing has been sent since.
pub open spec fn completes_handshake(state: FlowState, pkt: PacketView) -> bool {
    &&& !state.fake_sent
    &&& !state.waiting_for_data
    &&& state.syn_seq matches Some(syn) && pkt.seq == succ(syn)
    &&& state.syn_ack_seq matches Some(syn_ack) && pkt.ack == succ(syn_ack)
}

/// An outbound packet with data, on a flow that waits for its first data.
pub open spec fn is_first_data(state: FlowState, pkt: PacketView) -> bool {
    pkt.payload_len > 0 && state.waiting_for_data && !state.first_data_modified
}

/// An inbound SYN-ACK that answers the SYN, or repeats that answer.
pub open spec fn answers(state: FlowState, pkt: PacketView) -> bool {
    &&& state.syn_seq matches Some(syn) && pkt.ack == succ(syn)
    &&& state.syn_ack_seq is None || state.syn_ack_seq == Some(pkt.seq)
}

/// An inbound ACK that acknowledges the handshake and no byte after it.
pub open spec fn acks_handshake_only(state: FlowState, pkt: PacketView) -> bool {
    &&& state.syn_ack_seq matches Some(syn_ack) && pkt.seq == succ(syn_ack)
    &&& state.syn_seq matches Some(syn) && pkt.ack == succ(syn)
}

/// What an outbound packet of a monitored flow leads to.
pub open spec fn outbound_step(state: FlowState, pkt: PacketView) -> Step {
    if pkt.bare_syn {
        if opens(state, pkt) {
            settled(FlowState { syn_seq: Some(pkt.seq), ..state })
        } else {
            ended(state, BypassOutcome::UnexpectedClose)
        }
    } else if pkt.bare_ack {
        if completes_handshake(state, pkt) {
            Step::AskHandshake
        } else {
            ended(state, BypassOutcome::UnexpectedClose)
        }
    } else if is_first_data(state, pkt) {
        Step::AskFirstData
    } else {
        ended(state, BypassOutcome::UnexpectedClose)
    }
}

/// What an inbound packet of a monitored flow leads to.
pub open spec fn inbound_step(state: FlowState, pkt: PacketView) -> Step {
    if state.syn_seq is None {
        ended(state, BypassOutcome::UnexpectedClose)
    } else if pkt.syn_ack {
        if answers(state, pkt) {
            settled(FlowState { syn_ack_seq: Some(pkt.seq), ..state })
        } else {
            ended(state, BypassOutcome::UnexpectedClose)
        }
    } else if pkt.bare_ack && state.fake_sent && acks_handshake_only(state, pkt) {
        if state.waiting_for_data {
            settled(state)
        } else {
            ended(state, BypassOutcome::FakeDataAcked)
        }
    } else {
        ended(state, BypassOutcome::UnexpectedClose)
    }
}

/// What a packet of a monitored flow leads to.
pub open spec fn packet_step(state: FlowState, pkt: PacketView) -> Step {
    match pkt.direction {
        Direction::Outbound => outbound_step(state, pkt),
        Direction::Inbound => inbound_step(state, pkt),
    }
}

/// Where a flow goes after the method has decided on the handshake ACK.
pub open spec fn after_handshake(state: FlowState, action: MethodAction) -> (FlowState, Decision) {
    match action {
        MethodAction::EmitFakeAndAccept { complete_immediately, continue_with_data } => {
            let sent = FlowState { fake_sent: true, ..state };
            if continue_with_data {
                (
                    FlowState { waiting_for_data: true, ..sent },
                    Decision { verdict: Verdict::AcceptModified, wake: Wake::ReadyForData },
                )
            } else if complete_immediately {
                (
                    sent.finished(BypassOutcome::FakeDataAcked),
                    Decision { verdict: Verdict::AcceptModified, wake: Wake::Outcome },
                )
            } else {
                (sent, Decision { verdict: Verdict::AcceptModified, wake: Wake::Nobody })
            }
        },
        MethodAction::PassThrough => (
            FlowState { waiting_for_data: true, ..state },
            Decision { verdict: Verdict::Accept, wake: Wake::ReadyForData },
        ),
        MethodAction::CompleteAndAccept => (
            state.finished(BypassOutcome::FakeDataAcked),
            Decision { verdict: Verdict::Accept, wake: Wake::Outcome },
        ),
        MethodAction::AbortAndAccept => (
            state.finished(BypassOutcome::UnexpectedClose),
            Decision { verdict: Verdict::Accept, wake: Wake::Outcome },
        ),
    }
}

/// Where a flow goes after the method has decided on the first data packet.
pub open spec fn after_first_data(state: FlowState, action: MethodAction) -> (FlowState, Decision) {
    let dealt = FlowState { first_data_modified: true, waiting_for_data: false, ..state };
    match action {
        MethodAction::EmitFakeAndAccept { complete_immediately, .. } => if complete_immediately {
            (
                dealt.finished(BypassOutcome::FakeDataAcked),
                Decision { verdict: Verdict::AcceptModified, wake: Wake::Outcome },
            )
        } else {
            (dealt, Decision { verdict: Verdict::AcceptModified, wake: Wake::Nobody })
        },
        MethodAction::CompleteAndAccept => (
            dealt.finished(BypassOutcome::FakeDataAcked),
            Decision { verdict: Verdict::Accept, wake: Wake::Outcome },
        ),
        MethodAction::PassThrough => (
            state,
            Decision { verdict: Verdict::Accept, wake: Wake::Nobody },
        ),
        MethodAction::AbortAndAccept => (
            dealt.finished(BypassOutcome::UnexpectedClose),
            Decision { verdict: Verdict::Accept, wake: Wake::Outcome },
        ),
    }
}

/// Closes a flow on a packet that the handshake does not allow.
fn unexpected(state: &FlowState) -> (r: Step)
    requires
        state.outcome is None,
    ensures
        r == ended(*state, BypassOutcome::UnexpectedClose),
{
    let mut closed = *state;
    closed.finish(BypassOutcome::UnexpectedClose);
    Step::Settled {
        state: closed,
        decision: Decision { verdict: Verdict::Accept, wake: Wake::Outcome },
    }
}

/// Decides what a packet of a monitored flow leads to.
///
/// The flow's invariant is what keeps this from ever missing the sequence number of
/// the SYN-ACK once a modified ACK went out.
pub fn decide(state: &FlowState, pkt: &PacketView) -> (r: Step)
    requires
        state.wf(),
        state.monitor,
    ensures
        r == packet_step(*state, *pkt),
        r matches Step::Settled { state: next, .. } ==> next.wf(),
{
    let pass = Decision { verdict: Verdict::Accept, wake: Wake::Nobody };
    match pkt.direction {
        Direction::Outbound => {
            if pkt.is_bare_syn() {
                if pkt.ack != 0 {
                    return unexpected(state);
                }
                if let Some(prev) = state.syn_seq {
                    if prev != pkt.seq {
                        return unexpected(state);
                    }
                }
                let mut next = *state;
                next.syn_seq = Some(pkt.seq);
                return Step::Settled { state: next, decision: pass };
            }
            if pkt.is_bare_ack() {
                if state.fake_sent || state.waiting_for_data {
                    return unexpected(state);
                }
                let syn_seq: u32 = match state.syn_seq {
                    Some(s) => s,
                    None => {
                        return unexpected(state);
                    },
                };
                if pkt.seq != syn_seq.wrapping_add(1) {
                    return unexpected(state);
                }
                let syn_ack_seq: u32 = match state.syn_ack_seq {
                    Some(s) => s,
                    None => {
                        return unexpected(state);
                    },
                };
                if pkt.ack != syn_ack_seq.wrapping_add(1) {
                    return unexpected(state);
                }
                return Step::AskHandshake;
            }
            if pkt.payload_len > 0 && state.waiting_for_data && !state.first_data_modified {
                return Step::AskFirstData;
            }
            unexpected(state)
        },
        Direction::Inbound => {
            let syn_seq: u32 = match state.syn_seq {
                Some(s) => s,
                None => {
                    return unexpected(state);
                },
            };
            if pkt.is_syn_ack() {
                if pkt.ack != syn_seq.wrapping_add(1) {
                    return unexpected(state);
                }
                if let Some(prev) = state.syn_ack_seq {
                    if prev != pkt.seq {
                        return unexpected(state);
                    }
                }
                let mut next = *state;
                next.syn_ack_seq = Some(pkt.seq);
                return Step::Settled { state: next, decision: pass };
            }
            if pkt.is_bare_ack() && state.fake_sent {
                let syn_ack_seq: u32 = state.syn_ack_seq.unwrap();
                if pkt.seq != syn_ack_seq.wrapping_add(1) {
                    return unexpected(state);
                }
                if pkt.ack != syn_seq.wrapping_add(1) {
                    return unexpected(state);
                }
                if state.waiting_for_data {
                    return Step::Settled { state: *state, decision: pass };
                }
                let mut next = *state;
                next.finish(BypassOutcome::FakeDataAcked);
                return Step::Settled {
                    state: next,
                    decision: Decision { verdict: Verdict::Accept, wake: Wake::Outcome },
                };
            }
            unexpected(state)
        },
    }
}

/// Moves a flow on once the method has decided on the handshake ACK.
pub fn conclude_handshake(state: &mut FlowState, action: MethodAction) -> (r: Decision)
    ensures
        (*final(state), r) == after_handshake(*old(state), action),
        old(state).wf() && old(state).syn_ack_seq is Some ==> final(state).wf(),
{
    match action {
        MethodAction::EmitFakeAndAccept { complete_immediately, continue_with_data } => {
            state.fake_sent = true;
            if continue_with_data {
                state.waiting_for_data = true;
                return Decision { verdict: Verdict::AcceptModified, wake: Wake::ReadyForData };
            }
            if complete_immediately {
                state.finish(BypassOutcome::FakeDataAcked);
                return Decision { verdict: Verdict::AcceptModified, wake: Wake::Outcome };
            }
            Decision { verdict: Verdict::AcceptModified, wake: Wake::Nobody }
        },
        MethodAction::PassThrough => {
            state.waiting_for_data = true;
            Decision { verdict: Verdict::Accept, wake: Wake::ReadyForData }
        },
        MethodAction::CompleteAndAccept => {
            state.finish(BypassOutcome::FakeDataAcked);
            Decision { verdict: Verdict::Accept, wake: Wake::Outcome }
        },
        MethodAction::AbortAndAccept => {
            state.finish(BypassOutcome::UnexpectedClose);
            Decision { verdict: Verdict::Accept, wake: Wake::Outcome }
        },
    }
}

/// Moves a flow on once the method has decided on the first data packet.
pub fn conclude_first_data(state: &mut FlowState, action: MethodAction) -> (r: Decision)
    ensures
        (*final(state), r) == after_first_data(*old(state), action),
        old(state).wf() && old(state).syn_ack_seq is Some ==> final(state).wf(),
{
    match action {
        MethodAction::EmitFakeAndAccept { complete_immediately, continue_with_data: _ } => {
            state.first_data_modified = true;
            state.waiting_for_data = false;
            if complete_immediately {
                state.finish(BypassOutcome::FakeDataAcked);
                return Decision { verdict: Verdict::AcceptModified, wake: Wake::Outcome };
            }
            Decision { verdict: Verdict::AcceptModified, wake: Wake::Nobody }
        },
        MethodAction::CompleteAndAccept => {
            state.first_data_modified = true;
            state.waiting_for_data = false;
            state.finish(BypassOutcome::FakeDataAcked);
            Decision { verdict: Verdict::Accept, wake: Wake::Outcome }
        },
        MethodAction::PassThrough => Decision { verdict: Verdict::Accept, wake: Wake::Nobody },
        MethodAction::AbortAndAccept => {
            state.first_data_modified = true;
            state.waiting_for_data = false;
            state.finish(BypassOutcome::UnexpectedClose);
            Decision { verdict: Verdict::Accept, wake: Wake::Outcome }
        },
    }
}

/// The packet handler of one bypass method.
pub struct Handler<M: BypassMethod> {
    pub flows: FlowTable,
    pub method: M,
}

impl<M: BypassMethod> Handler<M> {
    pub fn new(flows: FlowTable, method: M) -> (r: Self)
        ensures
            r.flows == flows,
            r.method == method,
    {
        Handler { flows, method }
    }

    /// The key under which the packet's flow is tracked.
    pub fn flow_key_for(&self, pkt: &PacketView) -> (r: FlowKey)
        ensures
            r == pkt.flow_key(),
    {
        match pkt.direction {
            Direction::Outbound => FlowKey {
                src_ip: pkt.src_ip,
                src_port: pkt.src_port,
                dst_ip: pkt.dst_ip,
                dst_port: pkt.dst_port,
            },
            Direction::Inbound => FlowKey {
                src_ip: pkt.dst_ip,
                src_port: pkt.dst_port,
                dst_ip: pkt.src_ip,
                dst_port: pkt.src_port,
            },
        }
    }

    /// The method has no say in what becomes of the packet.
    pub open spec fn leaves_alone(self, pkt: PacketView) -> bool {
        let key = pkt.flow_key();
        ||| !self.flows@.contains_key(key)
        ||| !self.flows@[key].monitor
        ||| packet_step(self.flows@[key], pkt) is Settled
    }

    /// The flow of a packet, if it is one that is being followed.
    pub open spec fn flow_of(self, pkt: PacketView) -> FlowState {
        self.flows@[pkt.flow_key()]
    }

    /// The packet is the ACK that completes the handshake of a monitored flow.
    pub open spec fn asks_about_handshake(self, pkt: PacketView) -> bool {
        let key = pkt.flow_key();
        &&& self.flows@.contains_key(key)
        &&& self.flows@[key].monitor
        &&& packet_step(self.flows@[key], pkt) is AskHandshake
    }

    /// The packet is the first data of a monitored flow that waits for it.
    pub open spec fn asks_about_first_data(self, pkt: PacketView) -> bool {
        let key = pkt.flow_key();
        &&& self.flows@.contains_key(key)
        &&& self.flows@[key].monitor
        &&& packet_step(self.flows@[key], pkt) is AskFirstData
    }

    /// Takes one captured packet.
    ///
    /// Only the packet's own flow changes, and it changes as [`packet_step`] says. Where that
    /// leaves the matter to the method, the method is asked about this flow and this packet;
    /// [`after_handshake`] and [`after_first_data`] say what its answer leads to, and the
    /// packet goes out as the method left it. A packet that the method is not asked about
    /// stays as it is.
    pub fn on_packet(&mut self, pkt: &mut PacketView) -> (r: Decision)
        requires
            old(self).flows.wf(),
        ensures
            final(self).flows.wf(),
            final(self).method == old(self).method,
            ({
                let flows = old(self).flows@;
                let key = old(pkt).flow_key();
                if !flows.contains_key(key) {
                    &&& final(self).flows@ == flows
                    &&& r == (Decision { verdict: Verdict::Accept, wake: Wake::Nobody })
                } else {
                    &&& final(self).flows@.contains_key(key)
                    &&& final(self).flows@ == flows.insert(key, final(self).flows@[key])
                    &&& may_lead_to(flows[key], *old(pkt), final(self).flows@[key], r)
                }
            }),
            old(self).leaves_alone(*old(pkt)) ==> *final(pkt) == *old(pkt),
            old(self).asks_about_handshake(*old(pkt)) ==> exists|
                asked: &mut PacketView,
                action: MethodAction,
            |
                {
                    &&& *asked == *old(pkt)
                    &&& *final(asked) == *final(pkt)
                    &&& #[trigger] call_ensures(
                        M::on_handshake_complete_ack,
                        (&old(self).method, &old(self).flow_of(*old(pkt)), asked),
                        action,
                    )
                    &&& (final(self).flow_of(*old(pkt)), r) == after_handshake(
                        old(self).flow_of(*old(pkt)),
                        action,
                    )
                },
            old(self).asks_about_first_data(*old(pkt)) ==> exists|
                asked: &mut PacketView,
                action: MethodAction,
            |
                {
                    &&& *asked == *old(pkt)
                    &&& *final(asked) == *final(pkt)
                    &&& #[trigger] call_ensures(
                        M::on_first_data_packet,
                        (&old(self).method, &old(self).flow_of(*old(pkt)), asked),
                        action,
                    )
                    &&& (final(self).flow_of(*old(pkt)), r) == after_first_data(
                        old(self).flow_of(*old(pkt)),
                        action,
                    )
                },
    {
        let pass = Decision { verdict: Verdict::Accept, wake: Wake::Nobody };
        let key = self.flow_key_for(pkt);
        let mut state = match self.flows.get(&key) {
            Some(s) => s,
            None => {
                return pass;
            },
        };
        if !state.monitor {
            return pass;
        }
        match decide(&state, pkt) {
            Step::Settled { state: next, decision } => {
                self.flows.insert(key, next);
                decision
            },
            Step::AskHandshake => {
                let action = self.method.on_handshake_complete_ack(&state, pkt);
                let decision = conclude_handshake(&mut state, action);
                self.flows.insert(key, state);
                decision
            },
            Step::AskFirstData => {
                let action = self.method.on_first_data_packet(&state, pkt);
                let decision = conclude_first_data(&mut state, action);
                self.flows.insert(key, state);
                decision
            },
        }
    }
}

/// Both directions of a connection lead to the same flow.
pub proof fn law_both_directions_share_a_key(out: PacketView, inb: PacketView)
    requires
        out.direction == Direction::Outbound,
        inb.direction == Direction::Inbound,
        inb.src_ip == out.dst_ip,
        inb.src_port == out.dst_port,
        inb.dst_ip == out.src_ip,
        inb.dst_port == out.src_port,
    ensures
        out.flow_key() == inb.flow_key(),
{
}

/// The flow and decision that a packet may lead to, whatever the method answers.
pub open spec fn may_lead_to(
    state: FlowState,
    pkt: PacketView,
    next: FlowState,
    decision: Decision,
) -> bool {
    if !state.monitor {
        next == state && decision == (Decision { verdict: Verdict::Accept, wake: Wake::Nobody })
    } else {
        match packet_step(state, pkt) {
            Step::Settled { state: s, decision: d } => next == s && decision == d,
            Step::AskHandshake => exists|action: MethodAction|
                (next, decision) == #[trigger] after_handshake(state, action),
            Step::AskFirstData => exists|action: MethodAction|
                (next, decision) == #[trigger] after_first_data(state, action),
        }
    }
}

/// An outcome is final: no later packet changes the flow, and every later packet is
/// forwarded as it is.
pub proof fn law_outcome_is_final(
    state: FlowState,
    pkt: PacketView,
    next: FlowState,
    decision: Decision,
)
    requires
        state.wf(),
        state.outcome is Some,
        may_lead_to(state, pkt, next, decision),
    ensures
        next == state,
        decision == (Decision { verdict: Verdict::Accept, wake: Wake::Nobody }),
{
}

/// The method is asked about a packet of a monitored flow exactly where it is the outbound
/// ACK that completes the handshake, or the first outbound data of a flow that waits for
/// it. A bare ACK that it is not asked about is forwarded and closes the flow.
pub proof fn law_when_the_method_is_asked(state: FlowState, pkt: PacketView)
    requires
        state.wf(),
        state.monitor,
    ensures
        packet_step(state, pkt) is AskHandshake <==> {
            &&& pkt.direction == Direction::Outbound
            &&& !pkt.bare_syn
            &&& pkt.bare_ack
            &&& !state.fake_sent
            &&& !state.waiting_for_data
            &&& state.syn_seq matches Some(syn) && pkt.seq == syn.wrapping_add(1)
            &&& state.syn_ack_seq matches Some(syn_ack) && pkt.ack == syn_ack.wrapping_add(1)
        },
        packet_step(state, pkt) is AskFirstData <==> {
            &&& pkt.direction == Direction::Outbound
            &&& !pkt.bare_syn
            &&& !pkt.bare_ack
            &&& pkt.payload_len > 0
            &&& state.waiting_for_data
            &&& !state.first_data_modified
        },
        pkt.direction == Direction::Outbound && !pkt.bare_syn && pkt.bare_ack && !(packet_step(
            state,
            pkt,
        ) is AskHandshake) ==> packet_step(state, pkt) == ended(
            state,
            BypassOutcome::UnexpectedClose,
        ),
{
}

/// No packet is dropped, and one goes out modified exactly where the method was asked about
/// it and answered that it staged a change; the packet that goes out is the one that the
/// method left.
pub proof fn law_modified_only_by_method<M: BypassMethod>(
    method: M,
    state: FlowState,
    pkt: PacketView,
    out: PacketView,
    next: FlowState,
    decision: Decision,
)
    requires
        state.wf(),
        may_lead_to(state, pkt, next, decision),
        state.monitor && packet_step(state, pkt) is AskHandshake ==> exists|
            asked: &mut PacketView,
            action: MethodAction,
        |
            {
                &&& *asked == pkt
                &&& *final(asked) == out
                &&& #[trigger] call_ensures(
                    M::on_handshake_complete_ack,
                    (&method, &state, asked),
                    action,
                )
                &&& (next, decision) == after_handshake(state, action)
            },
        state.monitor && packet_step(state, pkt) is AskFirstData ==> exists|
            asked: &mut PacketView,
            action: MethodAction,
        |
            {
                &&& *asked == pkt
                &&& *final(asked) == out
                &&& #[trigger] call_ensures(
                    M::on_first_data_packet,
                    (&method, &state, asked),
                    action,
                )
                &&& (next, decision) == after_first_data(state, action)
            },
    ensures
        decision.verdict == Verdict::AcceptModified <==> {
            &&& state.monitor
            &&& {
                ||| packet_step(state, pkt) is AskHandshake && exists|
                    asked: &mut PacketView,
                    action: MethodAction,
                |
                    {
                        &&& *asked == pkt
                        &&& *final(asked) == out
                        &&& #[trigger] call_ensures(
                            M::on_handshake_complete_ack,
                            (&method, &state, asked),
                            action,
                        )
                        &&& (next, decision) == after_handshake(state, action)
                        &&& action is EmitFakeAndAccept
                    }
                ||| packet_step(state, pkt) is AskFirstData && exists|
                    asked: &mut PacketView,
                    action: MethodAction,
                |
                    {
                        &&& *asked == pkt
                        &&& *final(asked) == out
                        &&& #[trigger] call_ensures(
                            M::on_first_data_packet,
                            (&method, &state, asked),
                            action,
                        )
                        &&& (next, decision) == after_first_data(state, action)
                        &&& action is EmitFakeAndAccept
                    }
            }
        },
        decision.verdict == Verdict::AcceptModified || decision.verdict == Verdict::Accept,
{
}

/// The packet is one that the flow's handshake allows next.
pub open spec fn is_expected(state: FlowState, pkt: PacketView) -> bool {
    match pkt.direction {
        Direction::Outbound => if pkt.bare_syn {
            opens(state, pkt)
        } else if pkt.bare_ack {
            completes_handshake(state, pkt)
        } else {
            is_first_data(state, pkt)
        },
        Direction::Inbound => if pkt.syn_ack {
            answers(state, pkt)
        } else {
            pkt.bare_ack && state.fake_sent && acks_handshake_only(state, pkt)
        },
    }
}

/// A packet that the handshake does not allow is forwarded as it is and closes the flow;
/// one that it allows closes it only if the method says so.
pub proof fn law_unexpected_packet_closes(
    state: FlowState,
    pkt: PacketView,
    next: FlowState,
    decision: Decision,
)
    requires
        state.wf(),
        state.monitor,
        may_lead_to(state, pkt, next, decision),
    ensures
        !is_expected(state, pkt) ==> {
            &&& next == state.finished(BypassOutcome::UnexpectedClose)
            &&& decision == (Decision { verdict: Verdict::Accept, wake: Wake::Outcome })
        },
        is_expected(state, pkt) && next.outcome == Some(BypassOutcome::UnexpectedClose) ==> {
            packet_step(state, pkt) is AskHandshake || packet_step(state, pkt) is AskFirstData
        },
{
}

/// Those who wait for the outcome are woken exactly by the packet that brings it.
pub proof fn law_outcome_wakes(
    state: FlowState,
    pkt: PacketView,
    next: FlowState,
    decision: Decision,
)
    requires
        state.wf(),
        may_lead_to(state, pkt, next, decision),
    ensures
        decision.wake == Wake::Outcome <==> state.outcome is None && next.outcome is Some,
        next.wf(),
        next.outcome is None ==> next.monitor,
{
}

/// Those who wait to send data are woken exactly by the ACK after which the flow waits
/// for data.
pub proof fn law_ready_for_data_wakes(
    state: FlowState,
    pkt: PacketView,
    next: FlowState,
    decision: Decision,
)
    requires
        state.wf(),
        may_lead_to(state, pkt, next, decision),
    ensures
        decision.wake == Wake::ReadyForData <==> !state.waiting_for_data && next.waiting_for_data,
{
}

/// A SYN, the SYN-ACK that answers it and the ACK of that one bring the method in: a
/// flow that follows the handshake is never closed before the method was asked.
pub proof fn law_handshake_reaches_method(syn: PacketView, syn_ack: PacketView, ack: PacketView)
    requires
        syn.direction == Direction::Outbound,
        syn.bare_syn,
        syn.ack == 0,
        syn_ack.direction == Direction::Inbound,
        syn_ack.syn_ack,
        syn_ack.ack == succ(syn.seq),
        ack.direction == Direction::Outbound,
        !ack.bare_syn,
        ack.bare_ack,
        ack.seq == succ(syn.seq),
        ack.ack == succ(syn_ack.seq),
    ensures
        ({
            let s1 = FlowState { syn_seq: Some(syn.seq), ..FlowState::fresh() };
            let s2 = FlowState { syn_ack_seq: Some(syn_ack.seq), ..s1 };
            &&& packet_step(FlowState::fresh(), syn) == settled(s1)
            &&& packet_step(s1, syn_ack) == settled(s2)
            &&& packet_step(s2, ack) == Step::AskHandshake
        }),
{
}

/// Seeing a SYN or a SYN-ACK again changes nothing.
pub proof fn law_repeated_handshake_packet(state: FlowState, next: FlowState, pkt: PacketView)
    requires
        state.wf(),
        state.monitor,
        pkt.bare_syn && pkt.direction == Direction::Outbound || pkt.syn_ack && pkt.direction
            == Direction::Inbound,
        packet_step(state, pkt) == settled(next),
    ensures
        packet_step(next, pkt) == settled(next),
{
}

/// A method that defers to the data has its flow complete on the first data packet
/// that it fragments and declares complete.
pub proof fn law_deferred_method_completes_on_data(
    state: FlowState,
    ack: PacketView,
    data: PacketView,
)
    requires
        state.wf(),
        state.monitor,
        packet_step(state, ack) is AskHandshake,
        !state.first_data_modified,
        data.direction == Direction::Outbound,
        !data.bare_syn,
        !data.bare_ack,
        data.payload_len > 0,
    ensures
        ({
            let waiting = after_handshake(state, MethodAction::PassThrough).0;
            let (done, decision) = after_first_data(
                waiting,
                MethodAction::EmitFakeAndAccept {
                    complete_immediately: true,
                    continue_with_data: false,
                },
            );
            &&& packet_step(waiting, data) == Step::AskFirstData
            &&& done.outcome == Some(BypassOutcome::FakeDataAcked)
            &&& decision == (Decision { verdict: Verdict::AcceptModified, wake: Wake::Outcome })
        }),
{
}

/// A flow is known by the proxy's own address and port and the upstream's: an outbound
/// packet carries them in this order and an inbound one the other way round. Packets of one
/// direction belong to one flow exactly if they agree in all four.
pub proof fn law_packet_belongs_to_its_connection(pkt: PacketView, other: PacketView)
    ensures
        pkt.direction == Direction::Outbound ==> {
            &&& pkt.flow_key().src_ip == pkt.src_ip
            &&& pkt.flow_key().src_port == pkt.src_port
            &&& pkt.flow_key().dst_ip == pkt.dst_ip
            &&& pkt.flow_key().dst_port == pkt.dst_port
        },
        pkt.direction == Direction::Inbound ==> {
            &&& pkt.flow_key().src_ip == pkt.dst_ip
            &&& pkt.flow_key().src_port == pkt.dst_port
            &&& pkt.flow_key().dst_ip == pkt.src_ip
            &&& pkt.flow_key().dst_port == pkt.src_port
        },
        pkt.direction == other.direction ==> (pkt.flow_key() == other.flow_key() <==> {
            &&& pkt.src_ip == other.src_ip
            &&& pkt.src_port == other.src_port
            &&& pkt.dst_ip == other.dst_ip
            &&& pkt.dst_port == other.dst_port
        }),
{
}

/// What becomes of a packet that the method is not asked about, in terms of its numbers. A
/// SYN is noted if it is the first one or the same again, and so is the SYN-ACK that
/// acknowledges it. The upstream's ACK of a modified handshake, and of nothing more, ends
/// the bypass well, unless data is waited for. Every other packet closes the flow. All are
/// forwarded, and whoever waits for the outcome is woken when there is one.
pub proof fn law_what_a_packet_does(
    state: FlowState,
    pkt: PacketView,
    next: FlowState,
    decision: Decision,
)
    requires
        state.wf(),
        may_lead_to(state, pkt, next, decision),
    ensures
        ({
            let pass = Decision { verdict: Verdict::Accept, wake: Wake::Nobody };
            let over = Decision { verdict: Verdict::Accept, wake: Wake::Outcome };
            let closed = FlowState {
                monitor: false,
                outcome: Some(BypassOutcome::UnexpectedClose),
                ..state
            };
            let confirms = {
                &&& state.syn_seq matches Some(syn) && pkt.ack == syn.wrapping_add(1)
                &&& state.syn_ack_seq matches Some(syn_ack) && pkt.seq == syn_ack.wrapping_add(1)
            };
            let answers_syn = {
                &&& state.syn_seq matches Some(syn) && pkt.ack == syn.wrapping_add(1)
                &&& state.syn_ack_seq is None || state.syn_ack_seq == Some(pkt.seq)
            };
            let completes = {
                &&& !state.fake_sent && !state.waiting_for_data
                &&& state.syn_seq matches Some(syn) && pkt.seq == syn.wrapping_add(1)
                &&& state.syn_ack_seq matches Some(syn_ack) && pkt.ack == syn_ack.wrapping_add(1)
            };
            if !state.monitor {
                next == state && decision == pass
            } else if pkt.direction == Direction::Outbound {
                if pkt.bare_syn {
                    if pkt.ack == 0 && (state.syn_seq is None || state.syn_seq == Some(pkt.seq)) {
                        next == (FlowState { syn_seq: Some(pkt.seq), ..state }) && decision == pass
                    } else {
                        next == closed && decision == over
                    }
                } else if pkt.bare_ack {
                    !completes ==> next == closed && decision == over
                } else {
                    pkt.payload_len == 0 || !state.waiting_for_data || state.first_data_modified
                        ==> next == closed && decision == over
                }
            } else if pkt.syn_ack {
                if answers_syn {
                    next == (FlowState { syn_ack_seq: Some(pkt.seq), ..state }) && decision == pass
                } else {
                    next == closed && decision == over
                }
            } else if pkt.bare_ack && state.fake_sent && confirms {
                if state.waiting_for_data {
                    next == state && decision == pass
                } else {
                    &&& decision == over
                    &&& next == FlowState {
                        monitor: false,
                        outcome: Some(BypassOutcome::FakeDataAcked),
                        ..state
                    }
                }
            } else {
                next == closed && decision == over
            }
        }),
{
}

/// What the method's answer does to a flow that has no outcome yet. Only a staged change
/// makes the packet go out modified. A method that lets the handshake ACK pass, or wants to
/// go on with data, leaves the flow waiting for data; one that completes or aborts gives it
/// an outcome and ends the monitoring. The first data is dealt with once, unless the method
/// lets it pass.
pub proof fn law_what_an_answer_does(state: FlowState, action: MethodAction)
    requires
        state.outcome is None,
        state.monitor,
    ensures
        ({
            let (next, decision) = after_handshake(state, action);
            let ended_with = match action {
                MethodAction::EmitFakeAndAccept {
                    complete_immediately,
                    continue_with_data,
                } => if complete_immediately && !continue_with_data {
                    Some(BypassOutcome::FakeDataAcked)
                } else {
                    None
                },
                MethodAction::CompleteAndAccept => Some(BypassOutcome::FakeDataAcked),
                MethodAction::AbortAndAccept => Some(BypassOutcome::UnexpectedClose),
                MethodAction::PassThrough => None,
            };
            let waits = match action {
                MethodAction::EmitFakeAndAccept { continue_with_data, .. } => continue_with_data,
                MethodAction::PassThrough => true,
                _ => false,
            };
            &&& decision.verdict == Verdict::AcceptModified <==> action is EmitFakeAndAccept
            &&& next.outcome == ended_with
            &&& next.monitor <==> ended_with is None
            &&& next.waiting_for_data <==> waits || state.waiting_for_data
            &&& next.fake_sent <==> action is EmitFakeAndAccept || state.fake_sent
            &&& next.syn_seq == state.syn_seq && next.syn_ack_seq == state.syn_ack_seq
            &&& next.first_data_modified == state.first_data_modified
            &&& decision.wake == (if ended_with is Some {
                Wake::Outcome
            } else if waits {
                Wake::ReadyForData
            } else {
                Wake::Nobody
            })
        }),
        ({
            let (next, decision) = after_first_data(state, action);
            let ended_with = match action {
                MethodAction::EmitFakeAndAccept { complete_immediately, .. } => {
                    if complete_immediately {
                        Some(BypassOutcome::FakeDataAcked)
                    } else {
                        None
                    }
                },
                MethodAction::CompleteAndAccept => Some(BypassOutcome::FakeDataAcked),
                MethodAction::AbortAndAccept => Some(BypassOutcome::UnexpectedClose),
                MethodAction::PassThrough => None,
            };
            &&& decision.verdict == Verdict::AcceptModified <==> action is EmitFakeAndAccept
            &&& next.outcome == ended_with
            &&& next.monitor <==> ended_with is None
            &&& action is PassThrough ==> next == state
            &&& !(action is PassThrough) ==> next.first_data_modified && !next.waiting_for_data
            &&& next.fake_sent == state.fake_sent
            &&& next.syn_seq == state.syn_seq && next.syn_ack_seq == state.syn_ack_seq
            &&& decision.wake == (if ended_with is Some {
                Wake::Outcome
            } else {
                Wake::Nobody
            })
        }),
{
}

/// The packets that the method has no say in are exactly those of unknown flows, of flows
/// that are no longer monitored, and those that are neither the ACK that completes the
/// handshake nor the first data that is waited for.
pub proof fn law_when_a_packet_is_left_alone<M: BypassMethod>(handler: Handler<M>, pkt: PacketView)
    requires
        handler.flows.wf(),
    ensures
        handler.leaves_alone(pkt) <==> !(handler.asks_about_handshake(pkt)
            || handler.asks_about_first_data(pkt)),
        handler.asks_about_handshake(pkt) || handler.asks_about_first_data(pkt) ==> {
            &&& handler.flows@.contains_key(pkt.flow_key())
            &&& handler.flows@[pkt.flow_key()].outcome is None
            &&& handler.flow_of(pkt) == handler.flows@[pkt.flow_key()]
        },
        handler.asks_about_handshake(pkt) <==> {
            let state = handler.flows@[pkt.flow_key()];
            &&& handler.flows@.contains_key(pkt.flow_key())
            &&& state.monitor
            &&& pkt.direction == Direction::Outbound
            &&& !pkt.bare_syn
            &&& pkt.bare_ack
            &&& !state.fake_sent
            &&& !state.waiting_for_data
            &&& state.syn_seq matches Some(syn) && pkt.seq == syn.wrapping_add(1)
            &&& state.syn_ack_seq matches Some(syn_ack) && pkt.ack == syn_ack.wrapping_add(1)
        },
        handler.asks_about_first_data(pkt) <==> {
            let state = handler.flows@[pkt.flow_key()];
            &&& handler.flows@.contains_key(pkt.flow_key())
            &&& state.monitor
            &&& pkt.direction == Direction::Outbound
            &&& !pkt.bare_syn
            &&& !pkt.bare_ack
            &&& pkt.payload_len > 0
            &&& state.waiting_for_data
            &&& !state.first_data_modified
        },
{
}

} // verus!
