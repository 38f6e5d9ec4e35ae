//! Flow keys, per-flow handshake state and the table of tracked flows.

use crate::addr::Ipv4Addr;
use std::collections::HashMap;
use vstd::prelude::*;

verus! {

broadcast use vstd::std_specs::hash::group_hash_axioms;

/// The 4-tuple of a connection, seen from the proxy's side.
#[derive(Debug, Clone, Copy, PartialEq, Eq, Hash, Structural)]
pub struct FlowKey {
    pub src_ip: Ipv4Addr,
    pub src_port: u16,
    pub dst_ip: Ipv4Addr,
    pub dst_port: u16,
}

impl FlowKey {
    /// The four parts of the key, side by side in one number.
    pub open spec fn packed_value(self) -> int {
        self.src_ip.bits * 0x1_0000_0000_0000_0000 + self.src_port * 0x1_0000_0000_0000
            + self.dst_ip.bits * 0x1_0000 + self.dst_port
    }

    fn packed(&self) -> (r: u128)
        ensures
            r == self.packed_value(),
    {
        (self.src_ip.bits as u128) * 0x1_0000_0000_0000_0000 + (self.src_port as u128)
            * 0x1_0000_0000_0000 + (self.dst_ip.bits as u128) * 0x1_0000 + (self.dst_port as u128)
    }
}

/// A number below `base` put behind another one can be read back.
proof fn lemma_read_back(high_a: int, low_a: int, high_b: int, low_b: int, base: int)
    by (nonlinear_arith)
    requires
        0 <= low_a < base,
        0 <= low_b < base,
        high_a * base + low_a == high_b * base + low_b,
    ensures
        high_a == high_b,
        low_a == low_b,
{
}

/// Two keys pack to the same number only if they are the same key.
proof fn lemma_packed_is_injective(a: FlowKey, b: FlowKey)
    ensures
        a.packed_value() == b.packed_value() ==> a == b,
        0 <= a.packed_value() <= u128::MAX,
{
    if a.packed_value() == b.packed_value() {
        let src_a = a.src_ip.bits * 0x1_0000 + a.src_port;
        let src_b = b.src_ip.bits * 0x1_0000 + b.src_port;
        let dst_a = a.dst_ip.bits * 0x1_0000 + a.dst_port;
        let dst_b = b.dst_ip.bits * 0x1_0000 + b.dst_port;
        lemma_read_back(src_a, dst_a, src_b, dst_b, 0x1_0000_0000_0000);
        lemma_read_back(
            a.src_ip.bits as int,
            a.src_port as int,
            b.src_ip.bits as int,
            b.src_port as int,
            0x1_0000,
        );
        lemma_read_back(
            a.dst_ip.bits as int,
            a.dst_port as int,
            b.dst_ip.bits as int,
            b.dst_port as int,
            0x1_0000,
        );
    }
}

/// How the bypass phase of a flow ended.
#[derive(Debug, Clone, Copy, PartialEq, Eq, Structural)]
pub enum BypassOutcome {
    FakeDataAcked,
    UnexpectedClose,
}

/// What has been seen of one flow so far.
#[derive(Debug, Clone, Copy, PartialEq, Eq, Structural)]
pub struct FlowState {
    /// Packets of the flow are still being looked at.
    pub monitor: bool,
    /// Sequence number of the outbound SYN.
    pub syn_seq: Option<u32>,
    /// Sequence number of the inbound SYN-ACK.
    pub syn_ack_seq: Option<u32>,
    /// A modified ACK went out.
    pub fake_sent: bool,
    /// The bypass waits for the first outbound data packet.
    pub waiting_for_data: bool,
    /// The first outbound data packet has been dealt with.
    pub first_data_modified: bool,
    pub outcome: Option<BypassOutcome>,
}

impl FlowState {
    /// A flow is monitored exactly as long as it has no outcome, and it gets past the
    /// handshake only after both sequence numbers are known.
    pub open spec fn wf(self) -> bool {
        &&& self.monitor == (self.outcome is None)
        &&& self.syn_ack_seq is Some ==> self.syn_seq is Some
        &&& self.fake_sent || self.waiting_for_data || self.first_data_modified
            ==> self.syn_ack_seq is Some
    }

    /// The state of a flow of which no packet has been seen.
    pub open spec fn fresh() -> FlowState {
        FlowState {
            monitor: true,
            syn_seq: None,
            syn_ack_seq: None,
            fake_sent: false,
            waiting_for_data: false,
            first_data_modified: false,
            outcome: None,
        }
    }

    /// The state once an outcome has been reported: the first report stands.
    pub open spec fn finished(self, outcome: BypassOutcome) -> FlowState {
        if self.outcome is None {
            FlowState { outcome: Some(outcome), monitor: false, ..self }
        } else {
            self
        }
    }

    pub fn new() -> (r: FlowState)
        ensures
            r == FlowState::fresh(),
            r.wf(),
    {
        FlowState {
            monitor: true,
            syn_seq: None,
            syn_ack_seq: None,
            fake_sent: false,
            waiting_for_data: false,
            first_data_modified: false,
            outcome: None,
        }
    }

    /// Reports the outcome of the bypass phase. A later report changes nothing.
    pub fn finish(&mut self, outcome: BypassOutcome)
        ensures
            *final(self) == old(self).finished(outcome),
            old(self).wf() ==> final(self).wf(),
    {
        if self.outcome.is_none() {
            self.outcome = Some(outcome);
            self.monitor = false;
        }
    }
}

/// The flows that are being tracked.
pub struct FlowTable {
    flows: HashMap<u128, FlowState>,
}

impl View for FlowTable {
    type V = Map<FlowKey, FlowState>;

    closed spec fn view(&self) -> Map<FlowKey, FlowState> {
        Map::new(
            |k: FlowKey| self.flows@.contains_key(k.packed_value() as u128),
            |k: FlowKey| self.flows@[k.packed_value() as u128],
        )
    }
}

impl FlowTable {
    /// Every tracked flow is in a state that the handshake can reach.
    pub open spec fn wf(&self) -> bool {
        forall|k: FlowKey| #[trigger] self@.contains_key(k) ==> self@[k].wf()
    }

    pub fn new() -> (r: FlowTable)
        ensures
            r@ == Map::<FlowKey, FlowState>::empty(),
            r.wf(),
    {
        let r = FlowTable { flows: HashMap::new() };
        assert(r@ =~= Map::<FlowKey, FlowState>::empty());
        r
    }

    pub fn get(&self, key: &FlowKey) -> (r: Option<FlowState>)
        ensures
            r == (if self@.contains_key(*key) {
                Some(self@[*key])
            } else {
                None
            }),
    {
        proof {
            lemma_packed_is_injective(*key, *key);
        }
        match self.flows.get(&key.packed()) {
            Some(state) => Some(*state),
            None => None,
        }
    }

    pub fn insert(&mut self, key: FlowKey, state: FlowState)
        ensures
            final(self)@ == old(self)@.insert(key, state),
    {
        self.flows.insert(key.packed(), state);
        proof {
            assert forall|k: FlowKey| (#[trigger] k.packed_value()) as u128 == key.packed_value() as u128 implies k
                == key by {
                lemma_packed_is_injective(k, key);
                lemma_packed_is_injective(key, k);
            }
            assert(self@ =~= old(self)@.insert(key, state));
        }
    }

    pub fn remove(&mut self, key: &FlowKey)
        ensures
            final(self)@ == old(self)@.remove(*key),
    {
        self.flows.remove(&key.packed());
        proof {
            assert forall|k: FlowKey| (#[trigger] k.packed_value()) as u128 == key.packed_value() as u128 implies k
                == *key by {
                lemma_packed_is_injective(k, *key);
                lemma_packed_is_injective(*key, k);
            }
            assert(self@ =~= old(self)@.remove(*key));
        }
    }
}

/// A flow of which nothing has been seen is monitored, knows no numbers and waits for
/// nothing. The first outcome that is reported stays and ends the monitoring, and changes
/// nothing else.
pub proof fn law_life_of_a_flow(state: FlowState, first: BypassOutcome, second: BypassOutcome)
    ensures
        ({
            let fresh = FlowState::fresh();
            &&& fresh.monitor && fresh.outcome is None
            &&& fresh.syn_seq is None && fresh.syn_ack_seq is None
            &&& !fresh.fake_sent && !fresh.waiting_for_data && !fresh.first_data_modified
        }),
        state.outcome is None ==> {
            let done = state.finished(first);
            &&& done.outcome == Some(first)
            &&& !done.monitor
            &&& done.syn_seq == state.syn_seq && done.syn_ack_seq == state.syn_ack_seq
            &&& done.fake_sent == state.fake_sent
            &&& done.waiting_for_data == state.waiting_for_data
            &&& done.first_data_modified == state.first_data_modified
            &&& done.finished(second) == done
        },
        state.outcome is Some ==> state.finished(first) == state,
{
}

} // verus!
