use ip_bypass_plus_frag::addr::Ipv4Addr;
use ip_bypass_plus_frag::flow::{BypassOutcome, FlowKey, FlowState, FlowTable};
use ip_bypass_plus_frag::handler::{
    conclude_first_data, conclude_handshake, decide, Decision, Direction, Handler, PacketView,
    Step, Verdict, Wake,
};
use ip_bypass_plus_frag::methods::{BypassMethod, MethodAction};

const CLIENT: Ipv4Addr = Ipv4Addr { bits: 0x0a00_0001 };
const SERVER: Ipv4Addr = Ipv4Addr { bits: 0x6810_0001 };

struct Scripted {
    on_ack: MethodAction,
    on_data: MethodAction,
}

impl BypassMethod for Scripted {
    fn name(&self) -> &'static str {
        "scripted"
    }

    fn on_handshake_complete_ack(&self, _flow: &FlowState, pkt: &mut PacketView) -> MethodAction {
        pkt.staged = Some(vec![1]);
        self.on_ack
    }

    fn on_first_data_packet(&self, _flow: &FlowState, pkt: &mut PacketView) -> MethodAction {
        pkt.staged = Some(vec![2]);
        self.on_data
    }
}

struct Deferring;

impl BypassMethod for Deferring {
    fn name(&self) -> &'static str {
        "deferring"
    }

    fn on_handshake_complete_ack(&self, _flow: &FlowState, _pkt: &mut PacketView) -> MethodAction {
        MethodAction::PassThrough
    }
}

fn key() -> FlowKey {
    FlowKey { src_ip: CLIENT, src_port: 5000, dst_ip: SERVER, dst_port: 443 }
}

fn outbound(seq: u32, ack: u32) -> PacketView {
    PacketView {
        direction: Direction::Outbound,
        src_ip: CLIENT,
        src_port: 5000,
        dst_ip: SERVER,
        dst_port: 443,
        seq,
        ack,
        payload_len: 0,
        bare_syn: false,
        bare_ack: false,
        syn_ack: false,
        staged: None,
    }
}

fn inbound(seq: u32, ack: u32) -> PacketView {
    PacketView {
        direction: Direction::Inbound,
        src_ip: SERVER,
        src_port: 443,
        dst_ip: CLIENT,
        dst_port: 5000,
        ..outbound(seq, ack)
    }
}

fn syn(seq: u32) -> PacketView {
    PacketView { bare_syn: true, ..outbound(seq, 0) }
}

fn syn_ack(seq: u32, ack: u32) -> PacketView {
    PacketView { syn_ack: true, ..inbound(seq, ack) }
}

fn ack(seq: u32, ack: u32) -> PacketView {
    PacketView { bare_ack: true, ..outbound(seq, ack) }
}

fn data(seq: u32, ack: u32) -> PacketView {
    PacketView { payload_len: 517, ..outbound(seq, ack) }
}

fn decision(verdict: Verdict, wake: Wake) -> Decision {
    Decision { verdict, wake }
}

fn watching<M: BypassMethod>(method: M) -> Handler<M> {
    let mut flows = FlowTable::new();
    flows.insert(key(), FlowState::new());
    Handler::new(flows, method)
}

fn state<M: BypassMethod>(handler: &Handler<M>) -> FlowState {
    handler.flows.get(&key()).unwrap()
}

/// Lets a handshake through, with sequence numbers at the end of their range.
fn shake<M: BypassMethod>(handler: &mut Handler<M>) -> Decision {
    let pass = decision(Verdict::Accept, Wake::Nobody);
    assert_eq!(handler.on_packet(&mut syn(u32::MAX)), pass);
    assert_eq!(handler.on_packet(&mut syn_ack(900, 0)), pass);
    handler.on_packet(&mut ack(0, 901))
}

#[test]
fn unknown_flows_pass_through() {
    let mut handler = Handler::new(FlowTable::new(), Deferring);
    let mut pkt = data(1, 1);
    assert_eq!(handler.on_packet(&mut pkt), decision(Verdict::Accept, Wake::Nobody));
    assert!(pkt.staged.is_none());
    assert!(handler.flows.get(&key()).is_none());
}

#[test]
fn both_directions_share_a_flow() {
    let handler = watching(Deferring);
    assert_eq!(handler.flow_key_for(&syn(1)), key());
    assert_eq!(handler.flow_key_for(&syn_ack(1, 1)), key());
}

#[test]
fn deferring_method_waits_for_data() {
    let mut handler = watching(Deferring);
    assert_eq!(shake(&mut handler), decision(Verdict::Accept, Wake::ReadyForData));
    assert!(state(&handler).waiting_for_data);
    // The default answer to the first data leaves the flow waiting.
    assert_eq!(handler.on_packet(&mut data(0, 901)), decision(Verdict::Accept, Wake::Nobody));
    assert!(state(&handler).waiting_for_data);
    assert_eq!(state(&handler).outcome, None);
}

#[test]
fn first_data_completes_the_bypass() {
    let mut handler = watching(Scripted {
        on_ack: MethodAction::PassThrough,
        on_data: MethodAction::emit_and_complete(),
    });
    shake(&mut handler);
    let mut pkt = data(0, 901);
    assert_eq!(
        handler.on_packet(&mut pkt),
        decision(Verdict::AcceptModified, Wake::Outcome)
    );
    assert_eq!(pkt.staged, Some(vec![2]));
    assert_eq!(state(&handler).outcome, Some(BypassOutcome::FakeDataAcked));
    assert!(!state(&handler).monitor);
    // An outcome is final.
    assert_eq!(handler.on_packet(&mut syn(77)), decision(Verdict::Accept, Wake::Nobody));
    assert_eq!(state(&handler).outcome, Some(BypassOutcome::FakeDataAcked));
}

#[test]
fn fake_ack_is_confirmed_by_the_server() {
    let mut handler = watching(Scripted {
        on_ack: MethodAction::emit_and_wait_for_ack(),
        on_data: MethodAction::PassThrough,
    });
    assert_eq!(shake(&mut handler), decision(Verdict::AcceptModified, Wake::Nobody));
    assert!(state(&handler).fake_sent);
    let mut confirm = PacketView { bare_ack: true, ..inbound(901, 0) };
    assert_eq!(handler.on_packet(&mut confirm), decision(Verdict::Accept, Wake::Outcome));
    assert_eq!(state(&handler).outcome, Some(BypassOutcome::FakeDataAcked));
}

#[test]
fn confirmation_with_other_numbers_closes_the_flow() {
    for (seq, ackno) in [(902, 0), (901, 1)] {
        let mut handler = watching(Scripted {
            on_ack: MethodAction::emit_and_wait_for_ack(),
            on_data: MethodAction::PassThrough,
        });
        shake(&mut handler);
        let mut confirm = PacketView { bare_ack: true, ..inbound(seq, ackno) };
        assert_eq!(handler.on_packet(&mut confirm), decision(Verdict::Accept, Wake::Outcome));
        assert_eq!(state(&handler).outcome, Some(BypassOutcome::UnexpectedClose));
    }
}

#[test]
fn confirmation_is_let_through_while_data_is_awaited() {
    let mut handler = watching(Scripted {
        on_ack: MethodAction::emit_and_wait_for_data(),
        on_data: MethodAction::abort_and_accept(),
    });
    assert_eq!(
        shake(&mut handler),
        decision(Verdict::AcceptModified, Wake::ReadyForData)
    );
    let mut confirm = PacketView { bare_ack: true, ..inbound(901, 0) };
    assert_eq!(handler.on_packet(&mut confirm), decision(Verdict::Accept, Wake::Nobody));
    assert_eq!(handler.on_packet(&mut data(0, 901)), decision(Verdict::Accept, Wake::Outcome));
    assert_eq!(state(&handler).outcome, Some(BypassOutcome::UnexpectedClose));
}

#[test]
fn only_the_method_touches_packets() {
    let scripted = || Scripted {
        on_ack: MethodAction::emit_and_wait_for_data(),
        on_data: MethodAction::emit_and_complete(),
    };
    let mut handler = watching(scripted());
    for (mut pkt, staged, verdict) in [
        (syn(5), None, Verdict::Accept),
        (syn_ack(8, 6), None, Verdict::Accept),
        (ack(6, 9), Some(vec![1]), Verdict::AcceptModified),
        (data(6, 9), Some(vec![2]), Verdict::AcceptModified),
        (data(523, 9), None, Verdict::Accept),
    ] {
        assert_eq!(handler.on_packet(&mut pkt).verdict, verdict);
        assert_eq!(pkt.staged, staged);
    }
    // An ACK that the method is not asked about.
    let mut handler = watching(scripted());
    handler.on_packet(&mut syn(5));
    let mut early = ack(6, 9);
    assert_eq!(handler.on_packet(&mut early), decision(Verdict::Accept, Wake::Outcome));
    assert_eq!(early.staged, None);
}

#[test]
fn method_can_complete_or_abort_on_the_ack() {
    for (action, verdict, outcome) in [
        (MethodAction::emit_and_complete(), Verdict::AcceptModified, BypassOutcome::FakeDataAcked),
        (MethodAction::complete_and_accept(), Verdict::Accept, BypassOutcome::FakeDataAcked),
        (MethodAction::abort_and_accept(), Verdict::Accept, BypassOutcome::UnexpectedClose),
    ] {
        let mut handler = watching(Scripted { on_ack: action, on_data: MethodAction::PassThrough });
        assert_eq!(shake(&mut handler), decision(verdict, Wake::Outcome));
        assert_eq!(state(&handler).outcome, Some(outcome));
    }
}

#[test]
fn repeated_handshake_packets_change_nothing() {
    let mut handler = watching(Deferring);
    handler.on_packet(&mut syn(5));
    let before = state(&handler);
    assert_eq!(handler.on_packet(&mut syn(5)), decision(Verdict::Accept, Wake::Nobody));
    assert_eq!(state(&handler), before);
    handler.on_packet(&mut syn_ack(8, 6));
    let before = state(&handler);
    assert_eq!(handler.on_packet(&mut syn_ack(8, 6)), decision(Verdict::Accept, Wake::Nobody));
    assert_eq!(state(&handler), before);
}

#[test]
fn unexpected_packets_close_the_flow() {
    let closed = decision(Verdict::Accept, Wake::Outcome);
    // A SYN that acknowledges something.
    let mut handler = watching(Deferring);
    assert_eq!(handler.on_packet(&mut PacketView { ack: 1, ..syn(5) }), closed);
    // A SYN with another number.
    let mut handler = watching(Deferring);
    handler.on_packet(&mut syn(5));
    assert_eq!(handler.on_packet(&mut syn(6)), closed);
    // An ACK before the SYN, before the SYN-ACK, and with wrong numbers.
    let mut handler = watching(Deferring);
    assert_eq!(handler.on_packet(&mut ack(6, 9)), closed);
    let mut handler = watching(Deferring);
    handler.on_packet(&mut syn(5));
    assert_eq!(handler.on_packet(&mut ack(6, 9)), closed);
    for (seq, ackno) in [(7, 9), (6, 10)] {
        let mut handler = watching(Deferring);
        handler.on_packet(&mut syn(5));
        handler.on_packet(&mut syn_ack(8, 6));
        assert_eq!(handler.on_packet(&mut ack(seq, ackno)), closed);
    }
    // An inbound packet before the SYN, and a SYN-ACK with wrong numbers.
    let mut handler = watching(Deferring);
    assert_eq!(handler.on_packet(&mut syn_ack(8, 6)), closed);
    let mut handler = watching(Deferring);
    handler.on_packet(&mut syn(5));
    assert_eq!(handler.on_packet(&mut syn_ack(8, 7)), closed);
    let mut handler = watching(Deferring);
    handler.on_packet(&mut syn(5));
    handler.on_packet(&mut syn_ack(8, 6));
    assert_eq!(handler.on_packet(&mut syn_ack(9, 6)), closed);
    // Data before the handshake is over, and inbound data.
    let mut handler = watching(Deferring);
    handler.on_packet(&mut syn(5));
    assert_eq!(handler.on_packet(&mut data(6, 9)), closed);
    let mut handler = watching(Deferring);
    handler.on_packet(&mut syn(5));
    assert_eq!(
        handler.on_packet(&mut PacketView { payload_len: 3, ..inbound(8, 6) }),
        closed
    );
    // A second ACK.
    let mut handler = watching(Deferring);
    shake(&mut handler);
    assert_eq!(handler.on_packet(&mut ack(0, 901)), closed);
    assert_eq!(state(&handler).outcome, Some(BypassOutcome::UnexpectedClose));
}

#[test]
fn decisions_are_made_from_the_state_alone() {
    let fresh = FlowState::new();
    assert_eq!(
        decide(&fresh, &syn(3)),
        Step::Settled {
            state: FlowState { syn_seq: Some(3), ..fresh },
            decision: decision(Verdict::Accept, Wake::Nobody),
        }
    );
    let shaken = FlowState { syn_seq: Some(3), syn_ack_seq: Some(7), ..fresh };
    assert_eq!(decide(&shaken, &ack(4, 8)), Step::AskHandshake);
    let waiting = FlowState { waiting_for_data: true, ..shaken };
    assert_eq!(decide(&waiting, &data(4, 8)), Step::AskFirstData);
}

#[test]
fn answers_of_the_method_move_the_flow() {
    let shaken = FlowState { syn_seq: Some(3), syn_ack_seq: Some(7), ..FlowState::new() };
    let mut flow = shaken;
    assert_eq!(
        conclude_handshake(&mut flow, MethodAction::PassThrough),
        decision(Verdict::Accept, Wake::ReadyForData)
    );
    assert_eq!(flow, FlowState { waiting_for_data: true, ..shaken });
    assert_eq!(
        conclude_first_data(&mut flow, MethodAction::emit_and_wait_for_ack()),
        decision(Verdict::AcceptModified, Wake::Nobody)
    );
    assert_eq!(flow, FlowState { first_data_modified: true, ..shaken });
    let mut flow = FlowState { waiting_for_data: true, ..shaken };
    assert_eq!(
        conclude_first_data(&mut flow, MethodAction::complete_and_accept()),
        decision(Verdict::Accept, Wake::Outcome)
    );
    assert_eq!(flow.outcome, Some(BypassOutcome::FakeDataAcked));
}

#[test]
fn first_report_of_an_outcome_stands() {
    let mut flow = FlowState::new();
    flow.finish(BypassOutcome::UnexpectedClose);
    flow.finish(BypassOutcome::FakeDataAcked);
    assert_eq!(flow.outcome, Some(BypassOutcome::UnexpectedClose));
    assert!(!flow.monitor);
}

#[test]
fn flows_are_kept_apart_by_all_four_numbers() {
    let mut flows = FlowTable::new();
    let mut marked = FlowState::new();
    marked.syn_seq = Some(1);
    flows.insert(key(), marked);
    for other in [
        FlowKey { src_ip: SERVER, ..key() },
        FlowKey { src_port: 5001, ..key() },
        FlowKey { dst_ip: CLIENT, ..key() },
        FlowKey { dst_port: 80, ..key() },
    ] {
        assert!(flows.get(&other).is_none());
        flows.insert(other, FlowState::new());
    }
    assert_eq!(flows.get(&key()), Some(marked));
    flows.remove(&key());
    assert!(flows.get(&key()).is_none());
}
