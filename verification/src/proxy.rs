//! The proxy: the pool of upstream addresses, the events it tells of, and the decisions
//! that it makes on the way from an accepted client to the relay.

use crate::addr::{IpAddr, Ipv4Addr, Ipv6Addr, SocketAddr};
use crate::config::{Config, ConfigError};
use crate::flow::{BypassOutcome, FlowKey, FlowState};
use crate::methods::TcpSegmentation;
use crate::text::{copy_text, decimal, push_decimal, same_text};
use vstd::prelude::*;
use vstd::string::*;

verus! {

/// The upstream port.
pub const CONNECT_PORT: u16 = 443;

/// An address in the rotation pool.
#[derive(Debug, Clone, Copy, PartialEq, Eq, Structural)]
pub struct IpPoolEntry {
    pub ip: IpAddr,
    pub score: u8,
}

/// The addresses between which connections rotate.
#[derive(Debug)]
pub struct IpPool {
    entries: Vec<IpPoolEntry>,
    index: u64,
}

impl IpPool {
    /// The addresses of the pool.
    pub closed spec fn listed(&self) -> Seq<IpPoolEntry> {
        self.entries@
    }

    /// How many addresses have been handed out, on the circle of 64-bit numbers.
    pub closed spec fn turn(&self) -> u64 {
        self.index
    }

    pub fn new(entries: Vec<IpPoolEntry>) -> (r: IpPool)
        ensures
            r.listed() == entries@,
            r.turn() == 0,
    {
        IpPool { entries, index: 0 }
    }

    /// The next address, in round-robin order.
    pub fn next(&mut self) -> (r: Option<IpAddr>)
        ensures
            final(self).listed() == old(self).listed(),
            if old(self).listed().len() == 0 {
                &&& r is None
                &&& final(self).turn() == old(self).turn()
            } else {
                &&& r == Some(pick(old(self).listed(), old(self).turn() as int))
                &&& final(self).turn() == (old(self).turn() + 1) % 0x1_0000_0000_0000_0000
            },
            old(self).turn() < old(self).listed().len() ==> {
                &&& r == Some(old(self).listed()[old(self).turn() as int].ip)
                &&& old(self).turn() < u64::MAX ==> final(self).turn() == old(self).turn() + 1
            },
    {
        proof {
            if self.entries@.len() > 0 && self.index < self.entries@.len() {
                vstd::arithmetic::div_mod::lemma_small_mod(
                    self.index as nat,
                    self.entries@.len(),
                );
            }
        }
        if self.entries.is_empty() {
            return None;
        }
        let turn: u64 = self.index;
        self.index = turn.wrapping_add(1);
        let i: u64 = turn % (self.entries.len() as u64);
        Some(self.entries[i as usize].ip)
    }

    pub fn entries(&self) -> (r: &[IpPoolEntry])
        ensures
            r@ == self.listed(),
    {
        self.entries.as_slice()
    }

    pub fn len(&self) -> (r: usize)
        ensures
            r == self.listed().len(),
    {
        self.entries.len()
    }
}

/// The place in the pool of the address whose turn it is.
pub open spec fn place(entries: Seq<IpPoolEntry>, turn: int) -> int {
    turn % (entries.len() as int)
}

/// The address whose turn it is.
pub open spec fn pick(entries: Seq<IpPoolEntry>, turn: int) -> IpAddr {
    entries[place(entries, turn)].ip
}

/// The address at place `k` has its turn before the turn `end`, from the turn `first` on.
pub open spec fn gets_a_turn(entries: Seq<IpPoolEntry>, k: int, first: int, end: int) -> bool {
    exists|t: int| first <= t < end && #[trigger] place(entries, t) == k
}

/// Round robin: as many turns in a row as there are addresses give every place in the
/// pool its turn, and none of them two.
pub proof fn law_round_robin(entries: Seq<IpPoolEntry>, first: int)
    requires
        entries.len() > 0,
        0 <= first,
    ensures
        forall|k: int|
            0 <= k < entries.len() ==> #[trigger] gets_a_turn(
                entries,
                k,
                first,
                first + entries.len(),
            ),
        forall|t: int, u: int|
            first <= t < u < first + entries.len() ==> #[trigger] place(entries, t)
                != #[trigger] place(entries, u),
{
    let n = entries.len() as int;
    assert forall|k: int| 0 <= k < n implies #[trigger] gets_a_turn(
        entries,
        k,
        first,
        first + n,
    ) by {
        let t = first + (k - first) % n;
        vstd::arithmetic::div_mod::lemma_fundamental_div_mod(k - first, n);
        let q = (k - first) / n;
        assert(t == n * (-q) + k) by (nonlinear_arith)
            requires
                t == first + (k - first) % n,
                k - first == n * q + (k - first) % n,
        ;
        vstd::arithmetic::div_mod::lemma_mod_multiples_vanish(-q, k, n);
        vstd::arithmetic::div_mod::lemma_small_mod(k as nat, n as nat);
        assert(place(entries, t) == k);
    }
    assert forall|t: int, u: int| first <= t < u < first + n implies #[trigger] place(entries, t)
        != #[trigger] place(entries, u) by {
        if t % n == u % n {
            vstd::arithmetic::div_mod::lemma_fundamental_div_mod(t, n);
            vstd::arithmetic::div_mod::lemma_fundamental_div_mod(u, n);
            let a = t / n;
            let b = u / n;
            assert(u - t == n * (b - a)) by (nonlinear_arith)
                requires
                    t == n * a + t % n,
                    u == n * b + u % n,
                    t % n == u % n,
            ;
            assert(n * (b - a) <= 0 || n * (b - a) >= n) by (nonlinear_arith)
                requires
                    n > 0,
            ;
        }
    }
}

/// The pool starts over after its last address: the address of a turn is also that of
/// the turn one round later.
pub proof fn law_pool_repeats(entries: Seq<IpPoolEntry>, turn: int)
    requires
        entries.len() > 0,
    ensures
        pick(entries, turn + entries.len()) == pick(entries, turn),
{
    vstd::arithmetic::div_mod::lemma_mod_add_multiples_vanish(turn, entries.len() as int);
}

/// What the proxy tells of its work.
#[derive(Debug)]
pub enum ProxyEvent {
    ListenerStarted { mode: String, listen_addr: SocketAddr },
    ConnectionAccepted { peer: SocketAddr, src_port: u16, upstream_ip: IpAddr },
    BypassComplete { src_port: u16, outcome: BypassOutcome },
    RelayFinished { src_port: u16, c2s_bytes: u64, s2c_bytes: u64, reason: RelayEndReason },
    ConnectionError { src_port: u16, error: String },
    RelayProgress { src_port: u16, c2s_bytes: u64, s2c_bytes: u64 },
    IpTargetChanged { ip: IpAddr },
}

/// Why a relay ended.
#[derive(Debug, Clone, Copy, PartialEq, Eq, Structural)]
pub enum RelayEndReason {
    Completed,
    MaxLifetime,
}

/// What a relay has carried.
#[derive(Debug, Clone, Copy, PartialEq, Eq, Structural)]
pub struct RelayResult {
    pub c2s_bytes: u64,
    pub s2c_bytes: u64,
    pub reason: RelayEndReason,
}

/// How far the bypass of a flow has come.
#[derive(Debug, Clone, Copy, PartialEq, Eq, Structural)]
pub enum BypassProgress {
    ReadyForData,
    Complete(BypassOutcome),
}

/// What holds for every connection under one configuration. Times are in seconds.
#[derive(Debug, Clone, Copy, PartialEq, Eq, Structural)]
pub struct ConnectionSettings {
    pub bypass_timeout: u64,
    pub max_lifetime: Option<u64>,
    pub segment_first_client_hello: bool,
    pub tcp_segmentation: TcpSegmentation,
}

impl ConnectionSettings {
    /// The settings that the configuration describes; the error is that of the
    /// segmentation.
    pub fn from_config(cfg: &Config) -> (r: Result<ConnectionSettings, ConfigError>)
        ensures
            match r {
                Ok(s) => {
                    &&& s.bypass_timeout == cfg.BYPASS_TIMEOUT_SECS
                    &&& s.max_lifetime == relay_lifetime(*cfg)
                    &&& s.max_lifetime is None <==> cfg.RELAY_MAX_LIFETIME_SECS == 0
                    &&& s.max_lifetime matches Some(secs) ==> secs == cfg.RELAY_MAX_LIFETIME_SECS
                    &&& s.tcp_segmentation.nodelay == cfg.TCP_SEG_NODELAY
                    &&& s.segment_first_client_hello == (cfg.BYPASS_METHOD@ == "tls_record_frag"@)
                    &&& s.tcp_segmentation.describes(*cfg)
                },
                Err(e) => if cfg.packets_fault() is Some {
                    Some(e@) == cfg.packets_fault()
                } else {
                    cfg.fragment_length() is None && e@ == "TCP_SEG_SIZE must be <= i32::MAX"@
                },
            },
            cfg.valid() ==> r is Ok,
    {
        let tcp_segmentation = match TcpSegmentation::new(cfg) {
            Ok(s) => s,
            Err(e) => {
                return Err(e);
            },
        };
        Ok(
            ConnectionSettings {
                bypass_timeout: cfg.BYPASS_TIMEOUT_SECS,
                max_lifetime: configured_relay_max_lifetime(cfg),
                segment_first_client_hello: method_segments_first_client_hello(
                    cfg.BYPASS_METHOD.as_str(),
                ),
                tcp_segmentation,
            },
        )
    }
}

/// The seconds after which a relay is rotated, if it is.
pub open spec fn relay_lifetime(cfg: Config) -> Option<u64> {
    if cfg.RELAY_MAX_LIFETIME_SECS > 0 {
        Some(cfg.RELAY_MAX_LIFETIME_SECS)
    } else {
        None
    }
}

/// The seconds after which a relay is rotated, if it is.
pub fn configured_relay_max_lifetime(cfg: &Config) -> (r: Option<u64>)
    ensures
        r == relay_lifetime(*cfg),
{
    if cfg.RELAY_MAX_LIFETIME_SECS > 0 {
        Some(cfg.RELAY_MAX_LIFETIME_SECS)
    } else {
        None
    }
}

/// Whether the method has the first ClientHello written in pieces.
pub fn method_segments_first_client_hello(method: &str) -> (r: bool)
    ensures
        r == (method@ == "tls_record_frag"@),
{
    same_text(method, "tls_record_frag")
}

/// How far the bypass has come: an outcome counts for more than readiness.
pub open spec fn bypass_progress(state: FlowState) -> Option<BypassProgress> {
    match state.outcome {
        Some(outcome) => Some(BypassProgress::Complete(outcome)),
        None => if state.waiting_for_data {
            Some(BypassProgress::ReadyForData)
        } else {
            None
        },
    }
}

/// How far the bypass of a flow has come, if there is anything to tell.
pub fn current_bypass_progress(state: &FlowState) -> (r: Option<BypassProgress>)
    ensures
        r == bypass_progress(*state),
{
    if let Some(outcome) = state.outcome {
        Some(BypassProgress::Complete(outcome))
    } else if state.waiting_for_data {
        Some(BypassProgress::ReadyForData)
    } else {
        None
    }
}

/// The key of the flow of an upstream connection.
pub fn upstream_flow_key(interface_ip: Ipv4Addr, src_port: u16, connect_ip: Ipv4Addr) -> (r:
    FlowKey)
    ensures
        r == (FlowKey {
            src_ip: interface_ip,
            src_port,
            dst_ip: connect_ip,
            dst_port: CONNECT_PORT,
        }),
{
    FlowKey { src_ip: interface_ip, src_port, dst_ip: connect_ip, dst_port: CONNECT_PORT }
}

/// Where a new client is connected to.
#[derive(Debug, Clone, Copy, PartialEq, Eq, Structural)]
pub enum Target {
    Connect(Ipv4Addr),
    /// The client is not served: its turn in the pool is an IPv6 address.
    PoolIpv6(Ipv6Addr),
    /// The client is not served: the pool is empty.
    PoolEmpty,
    /// The client is not served: the active address is an IPv6 address.
    ActiveIpv6(Ipv6Addr),
}

/// The target of a new client while connections rotate. The turn passes in any case.
pub fn pool_target(pool: &mut IpPool) -> (r: Target)
    ensures
        final(pool).listed() == old(pool).listed(),
        if old(pool).listed().len() == 0 {
            &&& r == Target::PoolEmpty
            &&& final(pool).turn() == old(pool).turn()
        } else {
            &&& r == (match pick(old(pool).listed(), old(pool).turn() as int) {
                IpAddr::V4(ip) => Target::Connect(ip),
                IpAddr::V6(ip) => Target::PoolIpv6(ip),
            })
            &&& final(pool).turn() == (old(pool).turn() + 1) % 0x1_0000_0000_0000_0000
        },
        r matches Target::Connect(ip) ==> old(pool).turn() < old(pool).listed().len()
            ==> old(pool).listed()[old(pool).turn() as int].ip == IpAddr::V4(ip),
{
    match pool.next() {
        Some(IpAddr::V4(ip)) => Target::Connect(ip),
        Some(IpAddr::V6(ip)) => Target::PoolIpv6(ip),
        None => Target::PoolEmpty,
    }
}

/// The target of a new client while one address is active.
pub fn active_target(active: IpAddr) -> (r: Target)
    ensures
        r == (match active {
            IpAddr::V4(ip) => Target::Connect(ip),
            IpAddr::V6(ip) => Target::ActiveIpv6(ip),
        }),
{
    match active {
        IpAddr::V4(ip) => Target::Connect(ip),
        IpAddr::V6(ip) => Target::ActiveIpv6(ip),
    }
}

/// How a client is served.
#[derive(Debug, Clone, Copy, PartialEq, Eq, Structural)]
pub enum Route {
    /// By socket writes alone.
    Segment,
    /// With the help of the packet interceptor.
    Intercept,
}

/// How clients are served under the configuration.
pub fn route(cfg: &Config) -> (r: Route)
    ensures
        r == (if cfg.BYPASS_METHOD@ == "tls_frag"@ {
            Route::Segment
        } else {
            Route::Intercept
        }),
{
    if same_text(cfg.BYPASS_METHOD.as_str(), "tls_frag") {
        Route::Segment
    } else {
        Route::Intercept
    }
}

/// The address that the proxy listens on, as it is written.
pub fn listen_text(cfg: &Config) -> (r: String)
    ensures
        r@ == cfg.LISTEN_HOST@ + ":"@ + decimal(cfg.LISTEN_PORT as nat),
{
    let mut s = copy_text(cfg.LISTEN_HOST.as_str()).concat(":");
    push_decimal(&mut s, cfg.LISTEN_PORT as u64);
    s
}

/// The data of one read of the client, of which `n` bytes came; none came if the client
/// closed the connection.
pub fn client_write(buf: Vec<u8>, n: usize) -> (r: Option<Vec<u8>>)
    requires
        n <= buf@.len(),
    ensures
        match r {
            Some(data) => n > 0 && data@ == buf@.take(n as int),
            None => n == 0,
        },
{
    if n == 0 {
        return None;
    }
    let mut data = buf;
    data.truncate(n);
    assert(data@ =~= buf@.take(n as int));
    Some(data)
}

/// The pool hands out its addresses in the order in which they are listed, from the first
/// one on, and starts over after the last one.
pub proof fn law_pool_goes_in_order(entries: Seq<IpPoolEntry>, round: nat, k: int)
    requires
        0 <= k < entries.len(),
    ensures
        pick(entries, k) == entries[k].ip,
        pick(entries, round * entries.len() + k) == entries[k].ip,
{
    let n = entries.len() as int;
    vstd::arithmetic::div_mod::lemma_small_mod(k as nat, n as nat);
    vstd::arithmetic::div_mod::lemma_mod_multiples_vanish(round as int, k, n);
    assert(round * n == n * round) by (nonlinear_arith);
}

/// A relay has a greatest age exactly if one is configured, and it is that one.
pub proof fn law_relay_lifetime(cfg: Config)
    ensures
        cfg.RELAY_MAX_LIFETIME_SECS == 0 <==> relay_lifetime(cfg) is None,
        relay_lifetime(cfg) matches Some(secs) ==> secs == cfg.RELAY_MAX_LIFETIME_SECS,
{
}

/// A flow with an outcome is complete with that outcome, whether or not it waited for data;
/// one without is ready for data exactly if it waits for it, and else there is nothing to
/// tell.
pub proof fn law_progress_of_a_flow(state: FlowState)
    ensures
        state.outcome matches Some(outcome) ==> bypass_progress(state) == Some(
            BypassProgress::Complete(outcome),
        ),
        state.outcome is None ==> (bypass_progress(state) == Some(BypassProgress::ReadyForData)
            <==> state.waiting_for_data),
        bypass_progress(state) is None <==> state.outcome is None && !state.waiting_for_data,
{
}

} // verus!
