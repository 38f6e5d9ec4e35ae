//! The live view of the proxy: the connections that it has served, what they carried, and
//! what the keys do.

use crate::addr::{IpAddr, Ipv4Addr, SocketAddr};
use crate::flow::BypassOutcome;
use crate::format::{shown_span, span_of, Span};
use crate::menu::{cancels, is_char, moves_down, moves_up, Key};
use crate::proxy::{IpPoolEntry, ProxyEvent, RelayEndReason};
use crate::scan::{lemma_filter_one, Color};
use crate::text::{copy_text, decimal, push_decimal};
use std::collections::HashMap;
use vstd::prelude::*;
use vstd::string::*;

verus! {

/// How many connections are kept in the view, as long as some of them are over.
pub const MAX_RECORDS: usize = 200;

/// How long a connection that is not relaying stays near the top, in nanoseconds.
pub const NON_RELAYING_TOP_GRACE: u64 = 4_000_000_000;

/// In which direction a connection carries data.
#[derive(Debug, Clone, Copy, PartialEq, Eq, Structural)]
pub enum TrafficDirection {
    Idle,
    Upload,
    Download,
    Bidirectional,
}

/// What has become of a connection.
#[derive(Debug, Clone, Copy, PartialEq, Eq, Structural)]
pub enum ConnStatus {
    Connecting,
    Relaying,
    Done,
    Rotated,
    Failed,
}

impl ConnStatus {
    pub open spec fn name(self) -> Seq<char> {
        match self {
            ConnStatus::Connecting => "Connecting"@,
            ConnStatus::Relaying => "Relaying"@,
            ConnStatus::Done => "Done"@,
            ConnStatus::Rotated => "Rotated"@,
            ConnStatus::Failed => "Failed"@,
        }
    }

    pub fn label(&self) -> (r: &'static str)
        ensures
            r@ == self.name(),
    {
        match self {
            ConnStatus::Connecting => "Connecting",
            ConnStatus::Relaying => "Relaying",
            ConnStatus::Done => "Done",
            ConnStatus::Rotated => "Rotated",
            ConnStatus::Failed => "Failed",
        }
    }

    pub fn style(&self) -> (r: Color)
        ensures
            r == (match *self {
                ConnStatus::Connecting => Color::Yellow,
                ConnStatus::Relaying => Color::Cyan,
                ConnStatus::Done => Color::Green,
                ConnStatus::Rotated => Color::Magenta,
                ConnStatus::Failed => Color::Red,
            }),
    {
        match self {
            ConnStatus::Connecting => Color::Yellow,
            ConnStatus::Relaying => Color::Cyan,
            ConnStatus::Done => Color::Green,
            ConnStatus::Rotated => Color::Magenta,
            ConnStatus::Failed => Color::Red,
        }
    }
}

/// The direction of a connection, told from which of its rates are high enough to count.
/// Only a relaying connection has one.
pub open spec fn direction_of(
    status: ConnStatus,
    uploads: bool,
    downloads: bool,
) -> Option<TrafficDirection> {
    if status != ConnStatus::Relaying {
        None
    } else if uploads && downloads {
        Some(TrafficDirection::Bidirectional)
    } else if uploads {
        Some(TrafficDirection::Upload)
    } else if downloads {
        Some(TrafficDirection::Download)
    } else {
        Some(TrafficDirection::Idle)
    }
}

pub fn traffic_direction(status: &ConnStatus, uploads: bool, downloads: bool) -> (r: Option<
    TrafficDirection,
>)
    ensures
        r == direction_of(*status, uploads, downloads),
{
    if *status != ConnStatus::Relaying {
        return None;
    }
    match (uploads, downloads) {
        (true, true) => Some(TrafficDirection::Bidirectional),
        (true, false) => Some(TrafficDirection::Upload),
        (false, true) => Some(TrafficDirection::Download),
        (false, false) => Some(TrafficDirection::Idle),
    }
}

/// The background of a connection's row, as a number of the terminal's palette.
pub fn connection_row_style(record: &ConnectionRecord, uploads: bool, downloads: bool) -> (r:
    Option<u8>)
    ensures
        r == (match record.status {
            ConnStatus::Connecting => Some(58u8),
            ConnStatus::Relaying => match direction_of(record.status, uploads, downloads) {
                Some(TrafficDirection::Upload) => Some(22u8),
                Some(TrafficDirection::Download) => Some(24u8),
                Some(TrafficDirection::Bidirectional) => Some(29u8),
                _ => None,
            },
            ConnStatus::Failed => Some(52u8),
            _ => None,
        }),
{
    match record.status {
        ConnStatus::Connecting => Some(58),
        ConnStatus::Relaying => match traffic_direction(&record.status, uploads, downloads) {
            Some(TrafficDirection::Upload) => Some(22),
            Some(TrafficDirection::Download) => Some(24),
            Some(TrafficDirection::Bidirectional) => Some(29),
            _ => None,
        },
        ConnStatus::Failed => Some(52),
        _ => None,
    }
}

/// Which connections are shown.
#[derive(Debug, Clone, Copy, PartialEq, Eq, Structural)]
pub enum FilterStatus {
    All,
    Active,
    Done,
    Failed,
}

impl Default for FilterStatus {
    fn default() -> (r: FilterStatus)
        ensures
            r == FilterStatus::All,
    {
        FilterStatus::All
    }
}

impl FilterStatus {
    pub open spec fn name(self) -> Seq<char> {
        match self {
            FilterStatus::All => "All"@,
            FilterStatus::Active => "Active"@,
            FilterStatus::Done => "Done"@,
            FilterStatus::Failed => "Failed"@,
        }
    }

    pub fn label(&self) -> (r: &'static str)
        ensures
            r@ == self.name(),
    {
        match self {
            FilterStatus::All => "All",
            FilterStatus::Active => "Active",
            FilterStatus::Done => "Done",
            FilterStatus::Failed => "Failed",
        }
    }

    /// The filter after this one.
    pub open spec fn follower(self) -> FilterStatus {
        match self {
            FilterStatus::All => FilterStatus::Active,
            FilterStatus::Active => FilterStatus::Done,
            FilterStatus::Done => FilterStatus::Failed,
            FilterStatus::Failed => FilterStatus::All,
        }
    }

    pub fn next(&self) -> (r: FilterStatus)
        ensures
            r == self.follower(),
    {
        match self {
            FilterStatus::All => FilterStatus::Active,
            FilterStatus::Active => FilterStatus::Done,
            FilterStatus::Done => FilterStatus::Failed,
            FilterStatus::Failed => FilterStatus::All,
        }
    }

    /// The filter lets connections of this status through.
    pub open spec fn lets(self, status: ConnStatus) -> bool {
        match self {
            FilterStatus::All => true,
            FilterStatus::Active => status == ConnStatus::Connecting || status
                == ConnStatus::Relaying,
            FilterStatus::Done => status == ConnStatus::Done || status == ConnStatus::Rotated,
            FilterStatus::Failed => status == ConnStatus::Failed,
        }
    }

    pub fn matches(&self, status: &ConnStatus) -> (r: bool)
        ensures
            r == self.lets(*status),
    {
        match self {
            FilterStatus::All => true,
            FilterStatus::Active => *status == ConnStatus::Connecting || *status
                == ConnStatus::Relaying,
            FilterStatus::Done => *status == ConnStatus::Done || *status == ConnStatus::Rotated,
            FilterStatus::Failed => *status == ConnStatus::Failed,
        }
    }
}

/// The filters follow one another in a circle that visits all four.
pub proof fn law_filters_go_round(filter: FilterStatus)
    ensures
        filter.follower() != filter,
        filter.follower().follower() != filter,
        filter.follower().follower().follower() != filter,
        filter.follower().follower().follower().follower() == filter,
{
}

/// Every status is let through by exactly one of the three narrow filters.
pub proof fn law_filters_divide(status: ConnStatus)
    ensures
        FilterStatus::All.lets(status),
        FilterStatus::Active.lets(status) <==> !FilterStatus::Done.lets(status)
            && !FilterStatus::Failed.lets(status),
        !(FilterStatus::Done.lets(status) && FilterStatus::Failed.lets(status)),
{
}

/// What a connection had carried at some moment.
#[derive(Debug, Clone, Copy, PartialEq, Eq, Structural)]
pub struct Snapshot {
    pub at: u64,
    pub c2s_bytes: u64,
    pub s2c_bytes: u64,
}

/// What a connection carried over some time, of which its rates are made. The time is in
/// nanoseconds.
#[derive(Debug, Clone, Copy, PartialEq, Eq, Structural)]
pub struct RateSample {
    pub c2s_bytes: u64,
    pub s2c_bytes: u64,
    pub nanos: u64,
}

/// A connection in the view. Times are in nanoseconds of a steady clock, but for
/// `started_at`, which is in seconds of the calendar.
#[derive(Debug, Clone, Copy, PartialEq, Eq, Structural)]
pub struct ConnectionRecord {
    pub started_at: u64,
    pub start_instant: u64,
    pub end_instant: Option<u64>,
    pub src_port: u16,
    pub peer: SocketAddr,
    pub upstream_ip: IpAddr,
    pub status: ConnStatus,
    pub status_changed_at: u64,
    pub c2s_bytes: u64,
    pub s2c_bytes: u64,
    /// The latest rates; they are zero if there is none.
    pub rate: Option<RateSample>,
    pub last_snapshot: Option<Snapshot>,
}

/// The time from one moment to a later one, or zero.
pub open spec fn since(now: u64, earlier: u64) -> u64 {
    if now >= earlier {
        (now - earlier) as u64
    } else {
        0
    }
}

fn elapsed(now: u64, earlier: u64) -> (r: u64)
    ensures
        r == since(now, earlier),
{
    if now >= earlier {
        now - earlier
    } else {
        0
    }
}

/// The rates between two moments. A time below a millisecond counts as one.
pub open spec fn rate_between(before: Snapshot, now: Snapshot) -> RateSample {
    RateSample {
        c2s_bytes: since(now.c2s_bytes, before.c2s_bytes),
        s2c_bytes: since(now.s2c_bytes, before.s2c_bytes),
        nanos: if since(now.at, before.at) < 1_000_000 {
            1_000_000
        } else {
            since(now.at, before.at)
        },
    }
}

impl ConnectionRecord {
    pub open spec fn active(self) -> bool {
        self.status == ConnStatus::Connecting || self.status == ConnStatus::Relaying
    }

    pub fn is_active(&self) -> (r: bool)
        ensures
            r == self.active(),
    {
        self.status == ConnStatus::Connecting || self.status == ConnStatus::Relaying
    }

    /// The record of a connection that has just been made.
    pub open spec fn fresh(
        peer: SocketAddr,
        src_port: u16,
        upstream_ip: IpAddr,
        now: u64,
        started_at: u64,
    ) -> ConnectionRecord {
        ConnectionRecord {
            started_at,
            start_instant: now,
            end_instant: None,
            src_port,
            peer,
            upstream_ip,
            status: ConnStatus::Connecting,
            status_changed_at: now,
            c2s_bytes: 0,
            s2c_bytes: 0,
            rate: None,
            last_snapshot: None,
        }
    }

    pub open spec fn with_status(self, status: ConnStatus, now: u64) -> ConnectionRecord {
        if self.status != status {
            ConnectionRecord { status, status_changed_at: now, ..self }
        } else {
            self
        }
    }

    pub fn set_status(&mut self, status: ConnStatus, now: u64)
        ensures
            *final(self) == old(self).with_status(status, now),
    {
        if self.status != status {
            self.status = status;
            self.status_changed_at = now;
        }
    }

    /// How long the connection has lasted, at its end or now.
    pub fn duration(&self, now: u64) -> (r: Span)
        ensures
            r == shown_span(
                since(
                    match self.end_instant {
                        Some(end) => end,
                        None => now,
                    },
                    self.start_instant,
                ),
            ),
    {
        let end: u64 = match self.end_instant {
            Some(end) => end,
            None => now,
        };
        span_of(elapsed(end, self.start_instant))
    }

    /// The record after an event of its connection.
    pub open spec fn after(self, e: ProxyEvent, now: u64) -> ConnectionRecord {
        match e {
            ProxyEvent::BypassComplete { outcome: BypassOutcome::FakeDataAcked, .. } => {
                self.with_status(ConnStatus::Relaying, now)
            },
            ProxyEvent::BypassComplete { outcome: BypassOutcome::UnexpectedClose, .. } => {
                ConnectionRecord {
                    end_instant: Some(now),
                    ..self.with_status(ConnStatus::Failed, now)
                }
            },
            ProxyEvent::ConnectionError { .. } => ConnectionRecord {
                end_instant: Some(now),
                ..self.with_status(ConnStatus::Failed, now)
            },
            ProxyEvent::RelayFinished { c2s_bytes, s2c_bytes, reason, .. } => ConnectionRecord {
                c2s_bytes,
                s2c_bytes,
                rate: None,
                end_instant: Some(now),
                ..self.with_status(
                    match reason {
                        RelayEndReason::Completed => ConnStatus::Done,
                        RelayEndReason::MaxLifetime => ConnStatus::Rotated,
                    },
                    now,
                )
            },
            ProxyEvent::RelayProgress { c2s_bytes, s2c_bytes, .. } => {
                let snapshot = Snapshot { at: now, c2s_bytes, s2c_bytes };
                ConnectionRecord {
                    c2s_bytes,
                    s2c_bytes,
                    rate: match self.last_snapshot {
                        Some(before) => Some(rate_between(before, snapshot)),
                        None => self.rate,
                    },
                    last_snapshot: Some(snapshot),
                    ..self
                }
            },
            _ => self,
        }
    }

    fn fail(&mut self, now: u64)
        ensures
            *final(self) == (ConnectionRecord {
                end_instant: Some(now),
                ..old(self).with_status(ConnStatus::Failed, now)
            }),
    {
        self.set_status(ConnStatus::Failed, now);
        self.end_instant = Some(now);
    }

    fn apply(&mut self, e: &ProxyEvent, now: u64)
        ensures
            *final(self) == old(self).after(*e, now),
    {
        match e {
            ProxyEvent::BypassComplete { outcome, .. } => match outcome {
                BypassOutcome::FakeDataAcked => self.set_status(ConnStatus::Relaying, now),
                BypassOutcome::UnexpectedClose => self.fail(now),
            },
            ProxyEvent::ConnectionError { .. } => self.fail(now),
            ProxyEvent::RelayFinished { c2s_bytes, s2c_bytes, reason, .. } => {
                let status = match reason {
                    RelayEndReason::Completed => ConnStatus::Done,
                    RelayEndReason::MaxLifetime => ConnStatus::Rotated,
                };
                self.set_status(status, now);
                self.c2s_bytes = *c2s_bytes;
                self.s2c_bytes = *s2c_bytes;
                self.rate = None;
                self.end_instant = Some(now);
            },
            ProxyEvent::RelayProgress { c2s_bytes, s2c_bytes, .. } => {
                if let Some(before) = self.last_snapshot {
                    let nanos: u64 = elapsed(now, before.at);
                    self.rate = Some(
                        RateSample {
                            c2s_bytes: elapsed(*c2s_bytes, before.c2s_bytes),
                            s2c_bytes: elapsed(*s2c_bytes, before.s2c_bytes),
                            nanos: if nanos < 1_000_000 {
                                1_000_000
                            } else {
                                nanos
                            },
                        },
                    );
                }
                self.c2s_bytes = *c2s_bytes;
                self.s2c_bytes = *s2c_bytes;
                self.last_snapshot = Some(
                    Snapshot { at: now, c2s_bytes: *c2s_bytes, s2c_bytes: *s2c_bytes },
                );
            },
            _ => {},
        }
    }
}

/// The place of a connection in the view: relaying ones first, then those whose status
/// changed a short while ago, then the others.
pub open spec fn display_rank(record: ConnectionRecord, now: u64) -> u8 {
    if record.status == ConnStatus::Relaying {
        0
    } else if since(now, record.status_changed_at) < NON_RELAYING_TOP_GRACE {
        1
    } else {
        2
    }
}

pub fn connection_display_rank(record: &ConnectionRecord, now: u64) -> (r: u8)
    ensures
        r == display_rank(*record, now),
{
    if record.status == ConnStatus::Relaying {
        0
    } else if elapsed(now, record.status_changed_at) < NON_RELAYING_TOP_GRACE {
        1
    } else {
        2
    }
}

/// The place of the last connection that is over, or -1.
pub open spec fn last_inactive(records: Seq<ConnectionRecord>) -> int
    decreases records.len(),
{
    if records.len() == 0 {
        -1
    } else if !records.last().active() {
        records.len() - 1
    } else {
        last_inactive(records.drop_last())
    }
}

proof fn lemma_last_inactive(records: Seq<ConnectionRecord>)
    ensures
        -1 <= last_inactive(records) < records.len(),
        forall|k: int|
            last_inactive(records) < k < records.len() ==> (#[trigger] records[k]).active(),
        last_inactive(records) >= 0 ==> !records[last_inactive(records)].active(),
    decreases records.len(),
{
    if records.len() > 0 && records.last().active() {
        lemma_last_inactive(records.drop_last());
        assert forall|k: int| last_inactive(records) < k < records.len() implies (
        #[trigger] records[k]).active() by {
            if k < records.len() - 1 {
                assert(records[k] == records.drop_last()[k]);
            }
        }
    }
}

/// The connections that are kept: as long as there are too many, the last one that is
/// over goes.
pub open spec fn pruned(records: Seq<ConnectionRecord>) -> Seq<ConnectionRecord>
    decreases records.len(),
{
    if records.len() > MAX_RECORDS && 0 <= last_inactive(records) < records.len() {
        pruned(records.remove(last_inactive(records)))
    } else {
        records
    }
}

/// Drops connections that are over, from the back, until the view is small enough or all
/// that is left is active.
pub fn prune_connection_records(records: &mut Vec<ConnectionRecord>)
    ensures
        final(records)@ == pruned(old(records)@),
{
    let ghost before = records@;
    while records.len() > MAX_RECORDS
        invariant
            pruned(records@) == pruned(before),
        ensures
            records@ == pruned(before),
        decreases records@.len(),
    {
        let mut k: usize = records.len();
        while k > 0 && records[k - 1].is_active()
            invariant
                k <= records@.len(),
                forall|j: int| k <= j < records@.len() ==> (#[trigger] records@[j]).active(),
            decreases k,
        {
            k = k - 1;
        }
        proof {
            lemma_last_inactive(records@);
            let last = last_inactive(records@);
            if last >= k {
                assert(records@[last].active());
            } else if last < k - 1 {
                assert(records@[k - 1].active());
            }
        }
        if k == 0 {
            break;
        }
        records.remove(k - 1);
    }
}

pub open spec fn is_active_record() -> spec_fn(ConnectionRecord) -> bool {
    |r: ConnectionRecord| r.active()
}

pub open spec fn is_over() -> spec_fn(ConnectionRecord) -> bool {
    |r: ConnectionRecord| !r.active()
}

/// Pruning keeps every active connection, and of those that are over the first ones, each
/// in its order. It leaves no more than the limit, unless what is left is active.
pub proof fn law_pruning_keeps_what_runs(records: Seq<ConnectionRecord>)
    ensures
        pruned(records).filter(is_active_record()) == records.filter(is_active_record()),
        pruned(records).filter(is_over()).len() <= records.filter(is_over()).len(),
        pruned(records).filter(is_over()) == records.filter(is_over()).take(
            pruned(records).filter(is_over()).len() as int,
        ),
        pruned(records).len() <= MAX_RECORDS || pruned(records).filter(is_over()).len() == 0,
        records.len() <= MAX_RECORDS ==> pruned(records) == records,
    decreases records.len(),
{
    lemma_last_inactive(records);
    let last = last_inactive(records);
    let over = records.filter(is_over());
    if records.len() > MAX_RECORDS && last >= 0 {
        let less = records.remove(last);
        law_pruning_keeps_what_runs(less);
        let head = records.take(last);
        let tail = records.skip(last + 1);
        let gone = seq![records[last]];
        assert(records =~= head + gone + tail);
        assert(less =~= head + tail);
        Seq::filter_distributes_over_add(head + gone, tail, is_active_record());
        Seq::filter_distributes_over_add(head, gone, is_active_record());
        Seq::filter_distributes_over_add(head, tail, is_active_record());
        Seq::filter_distributes_over_add(head + gone, tail, is_over());
        Seq::filter_distributes_over_add(head, gone, is_over());
        Seq::filter_distributes_over_add(head, tail, is_over());
        lemma_filter_one(records[last], is_active_record());
        lemma_filter_one(records[last], is_over());
        assert forall|k: int| 0 <= k < tail.len() implies !is_over()(#[trigger] tail[k]) by {
            assert(records[last + 1 + k].active());
        }
        tail.lemma_all_neg_filter_empty(is_over());
        assert(tail.filter(is_over()) =~= Seq::<ConnectionRecord>::empty());
        assert(less.filter(is_active_record()) =~= records.filter(is_active_record()));
        assert(over =~= less.filter(is_over()) + gone);
        let kept = pruned(records).filter(is_over());
        assert(kept =~= over.take(kept.len() as int));
    } else {
        assert(over =~= over.take(over.len() as int));
        if records.len() > MAX_RECORDS {
            assert forall|k: int| 0 <= k < records.len() implies !is_over()(
                #[trigger] records[k],
            ) by {
                assert(records[k].active());
            }
            records.lemma_all_neg_filter_empty(is_over());
        }
    }
}

/// Amounts by address.
#[derive(Debug)]
pub struct Tally {
    v4: HashMap<u32, u64>,
    v6: HashMap<u128, u64>,
}

impl Tally {
    /// The amount of an address; it is zero before anything is added.
    pub closed spec fn amount(&self, ip: IpAddr) -> u64 {
        match ip {
            IpAddr::V4(a) => if self.v4@.contains_key(a.bits) {
                self.v4@[a.bits]
            } else {
                0
            },
            IpAddr::V6(a) => if self.v6@.contains_key(a.bits) {
                self.v6@[a.bits]
            } else {
                0
            },
        }
    }

    pub fn new() -> (r: Tally)
        ensures
            forall|ip: IpAddr| #[trigger] r.amount(ip) == 0,
    {
        broadcast use vstd::std_specs::hash::group_hash_axioms;

        Tally { v4: HashMap::new(), v6: HashMap::new() }
    }

    pub fn get(&self, ip: &IpAddr) -> (r: u64)
        ensures
            r == self.amount(*ip),
    {
        broadcast use vstd::std_specs::hash::group_hash_axioms;

        let found = match ip {
            IpAddr::V4(a) => self.v4.get(&a.bits),
            IpAddr::V6(a) => self.v6.get(&a.bits),
        };
        match found {
            Some(n) => *n,
            None => 0,
        }
    }

    /// Adds to the amount of an address.
    pub fn increase(&mut self, ip: IpAddr, n: u64)
        requires
            old(self).amount(ip) + n <= u64::MAX,
        ensures
            final(self).amount(ip) == old(self).amount(ip) + n,
            forall|other: IpAddr|
                other != ip ==> #[trigger] final(self).amount(other) == old(self).amount(other),
    {
        broadcast use vstd::std_specs::hash::group_hash_axioms;

        let sum: u64 = self.get(&ip) + n;
        match ip {
            IpAddr::V4(a) => {
                self.v4.insert(a.bits, sum);
            },
            IpAddr::V6(a) => {
                self.v6.insert(a.bits, sum);
            },
        }
        assert forall|other: IpAddr| other != ip implies #[trigger] self.amount(other) == old(
            self,
        ).amount(other) by {
            match (ip, other) {
                (IpAddr::V4(a), IpAddr::V4(b)) => {
                    assert(a.bits != b.bits);
                },
                (IpAddr::V6(a), IpAddr::V6(b)) => {
                    assert(a.bits != b.bits);
                },
                _ => {},
            }
        }
    }
}

/// What the view is about.
#[derive(Debug)]
pub enum DashboardInfo {
    IpBypassPlus { ip: IpAddr },
    IpBypassPlusPool { active_ip: IpAddr, pool: Vec<IpPoolEntry> },
}

impl DashboardInfo {
    pub open spec fn ip(self) -> IpAddr {
        match self {
            DashboardInfo::IpBypassPlus { ip } => ip,
            DashboardInfo::IpBypassPlusPool { active_ip, .. } => active_ip,
        }
    }

    /// The addresses of the pool, if there is one.
    pub open spec fn pool_ips(self) -> Seq<IpAddr> {
        match self {
            DashboardInfo::IpBypassPlus { .. } => Seq::empty(),
            DashboardInfo::IpBypassPlusPool { pool, .. } => pool@.map_values(|e: IpPoolEntry| e.ip),
        }
    }
}

/// The state of the view.
#[derive(Debug)]
pub struct DashboardState {
    /// The newest connection comes first.
    pub records: Vec<ConnectionRecord>,
    pub total: u64,
    pub bypasses_ok: u64,
    pub bypasses_failed: u64,
    pub active: u64,
    pub total_c2s: u64,
    pub total_s2c: u64,
    pub scroll_offset: usize,
    pub auto_scroll: bool,
    pub filter: FilterStatus,
    pub active_ip: Option<IpAddr>,
    pub pool_ips: Vec<IpAddr>,
    pub start: u64,
    pub channel_closed: bool,
    pub cumulative_conns: Tally,
    pub cumulative_up: Tally,
    pub cumulative_down: Tally,
}

/// The place of the newest connection from a port, or the number of connections.
pub open spec fn first_with(records: Seq<ConnectionRecord>, src_port: u16) -> nat
    decreases records.len(),
{
    if records.len() == 0 {
        0
    } else if records[0].src_port == src_port {
        0
    } else {
        1 + first_with(records.skip(1), src_port)
    }
}

proof fn lemma_first_with(records: Seq<ConnectionRecord>, src_port: u16, k: nat)
    requires
        k <= records.len(),
        forall|j: int| 0 <= j < k ==> (#[trigger] records[j]).src_port != src_port,
        k < records.len() ==> records[k as int].src_port == src_port,
    ensures
        first_with(records, src_port) == k,
    decreases k,
{
    if k > 0 {
        let rest = records.skip(1);
        assert forall|j: int| 0 <= j < k - 1 implies (#[trigger] rest[j]).src_port
            != src_port by {
            assert(rest[j] == records[j + 1]);
        }
        lemma_first_with(rest, src_port, (k - 1) as nat);
    }
}

/// The place of the newest connection from a port.
pub fn find_record(records: &[ConnectionRecord], src_port: u16) -> (r: Option<usize>)
    ensures
        match r {
            Some(i) => i < records@.len() && i == first_with(records@, src_port),
            None => first_with(records@, src_port) == records@.len(),
        },
{
    let mut i: usize = 0;
    while i < records.len()
        invariant
            i <= records@.len(),
            forall|j: int| 0 <= j < i ==> (#[trigger] records@[j]).src_port != src_port,
        decreases records@.len() - i,
    {
        if records[i].src_port == src_port {
            proof {
                lemma_first_with(records@, src_port, i as nat);
            }
            return Some(i);
        }
        i = i + 1;
    }
    proof {
        lemma_first_with(records@, src_port, i as nat);
    }
    None
}

/// The port of the connection that an event is about; a new connection has none yet.
pub open spec fn port_of(e: ProxyEvent) -> Option<u16> {
    match e {
        ProxyEvent::BypassComplete { src_port, .. } => Some(src_port),
        ProxyEvent::RelayFinished { src_port, .. } => Some(src_port),
        ProxyEvent::ConnectionError { src_port, .. } => Some(src_port),
        ProxyEvent::RelayProgress { src_port, .. } => Some(src_port),
        _ => None,
    }
}

fn event_port(e: &ProxyEvent) -> (r: Option<u16>)
    ensures
        r == port_of(*e),
{
    match e {
        ProxyEvent::BypassComplete { src_port, .. } => Some(*src_port),
        ProxyEvent::RelayFinished { src_port, .. } => Some(*src_port),
        ProxyEvent::ConnectionError { src_port, .. } => Some(*src_port),
        ProxyEvent::RelayProgress { src_port, .. } => Some(*src_port),
        _ => None,
    }
}

/// The connections after an event: a new one comes first, and else the newest one from
/// the event's port changes, if there is one.
pub open spec fn records_after(
    records: Seq<ConnectionRecord>,
    e: ProxyEvent,
    now: u64,
    calendar: u64,
) -> Seq<ConnectionRecord> {
    match e {
        ProxyEvent::ConnectionAccepted { peer, src_port, upstream_ip } => seq![
            ConnectionRecord::fresh(peer, src_port, upstream_ip, now, calendar),
        ] + records,
        _ => match port_of(e) {
            Some(port) => {
                let i = first_with(records, port) as int;
                if i < records.len() {
                    records.update(i, records[i].after(e, now))
                } else {
                    records
                }
            },
            None => records,
        },
    }
}

/// One less, but not below zero.
pub open spec fn less_one(n: u64) -> u64 {
    if n > 0 {
        (n - 1) as u64
    } else {
        0
    }
}

impl DashboardState {
    /// No more connections are active than there have been, and those that are kept fit,
    /// or are all active.
    pub open spec fn wf(&self) -> bool {
        &&& self.active <= self.total
        &&& pruned(self.records@) == self.records@
    }

    /// Nothing has been counted yet.
    pub open spec fn is_fresh(&self) -> bool {
        &&& self.records@ == Seq::<ConnectionRecord>::empty()
        &&& self.total == 0
        &&& self.bypasses_ok == 0
        &&& self.bypasses_failed == 0
        &&& self.active == 0
        &&& self.total_c2s == 0
        &&& self.total_s2c == 0
        &&& forall|ip: IpAddr| #[trigger] self.cumulative_conns.amount(ip) == 0
        &&& forall|ip: IpAddr| #[trigger] self.cumulative_up.amount(ip) == 0
        &&& forall|ip: IpAddr| #[trigger] self.cumulative_down.amount(ip) == 0
    }

    /// An event ends the bypass of a connection in failure.
    pub open spec fn is_failure(e: ProxyEvent) -> bool {
        match e {
            ProxyEvent::BypassComplete { outcome, .. } => outcome == BypassOutcome::UnexpectedClose,
            ProxyEvent::ConnectionError { .. } => true,
            _ => false,
        }
    }

    pub open spec fn is_success(e: ProxyEvent) -> bool {
        match e {
            ProxyEvent::BypassComplete { outcome, .. } => outcome == BypassOutcome::FakeDataAcked,
            _ => false,
        }
    }

    /// The address to which the bytes of a finished relay are counted.
    pub open spec fn served_ip(&self, src_port: u16) -> Option<IpAddr> {
        let i = first_with(self.records@, src_port) as int;
        if i < self.records@.len() {
            Some(self.records@[i].upstream_ip)
        } else {
            None
        }
    }

    /// None of the counters that the event changes leaves the range of its type.
    pub open spec fn has_room_for(&self, e: ProxyEvent) -> bool {
        &&& Self::is_success(e) ==> self.bypasses_ok < u64::MAX
        &&& Self::is_failure(e) ==> self.bypasses_failed < u64::MAX
        &&& match e {
            ProxyEvent::ConnectionAccepted { upstream_ip, .. } => {
                &&& self.total < u64::MAX
                &&& self.cumulative_conns.amount(upstream_ip) < u64::MAX
            },
            ProxyEvent::RelayFinished { src_port, c2s_bytes, s2c_bytes, .. } => {
                &&& self.total_c2s + c2s_bytes <= u64::MAX
                &&& self.total_s2c + s2c_bytes <= u64::MAX
                &&& match self.served_ip(src_port) {
                    Some(ip) => {
                        &&& self.cumulative_up.amount(ip) + c2s_bytes <= u64::MAX
                        &&& self.cumulative_down.amount(ip) + s2c_bytes <= u64::MAX
                    },
                    None => true,
                }
            },
            _ => true,
        }
    }

    /// Whether the counters have room for the event.
    pub fn can_take(&self, e: &ProxyEvent) -> (r: bool)
        ensures
            r == self.has_room_for(*e),
    {
        match e {
            ProxyEvent::ConnectionAccepted { upstream_ip, .. } => self.total < u64::MAX
                && self.cumulative_conns.get(upstream_ip) < u64::MAX,
            ProxyEvent::BypassComplete { outcome, .. } => match outcome {
                BypassOutcome::FakeDataAcked => self.bypasses_ok < u64::MAX,
                BypassOutcome::UnexpectedClose => self.bypasses_failed < u64::MAX,
            },
            ProxyEvent::ConnectionError { .. } => self.bypasses_failed < u64::MAX,
            ProxyEvent::RelayFinished { src_port, c2s_bytes, s2c_bytes, .. } => {
                if self.total_c2s > u64::MAX - *c2s_bytes || self.total_s2c > u64::MAX
                    - *s2c_bytes {
                    return false;
                }
                match find_record(self.records.as_slice(), *src_port) {
                    Some(i) => {
                        let ip = self.records[i].upstream_ip;
                        self.cumulative_up.get(&ip) <= u64::MAX - *c2s_bytes
                            && self.cumulative_down.get(&ip) <= u64::MAX - *s2c_bytes
                    },
                    None => true,
                }
            },
            _ => true,
        }
    }

    /// The view at its start.
    pub fn new(info: &DashboardInfo, now: u64) -> (r: DashboardState)
        ensures
            r.wf(),
            r.is_fresh(),
            r.scroll_offset == 0,
            r.auto_scroll,
            r.filter == FilterStatus::All,
            r.active_ip == Some(info.ip()),
            r.pool_ips@ == info.pool_ips(),
            r.start == now,
            !r.channel_closed,
    {
        let active_ip = match info {
            DashboardInfo::IpBypassPlus { ip } => *ip,
            DashboardInfo::IpBypassPlusPool { active_ip, .. } => *active_ip,
        };
        let mut pool_ips: Vec<IpAddr> = Vec::new();
        if let DashboardInfo::IpBypassPlusPool { pool, .. } = info {
            let mut i: usize = 0;
            while i < pool.len()
                invariant
                    i <= pool@.len(),
                    pool_ips@ == pool@.take(i as int).map_values(|e: IpPoolEntry| e.ip),
                decreases pool@.len() - i,
            {
                pool_ips.push(pool[i].ip);
                i = i + 1;
                assert(pool_ips@ =~= pool@.take(i as int).map_values(|e: IpPoolEntry| e.ip));
            }
            assert(pool@.take(i as int) =~= pool@);
        }
        assert(pool_ips@ =~= info.pool_ips());
        DashboardState {
            records: Vec::new(),
            total: 0,
            bypasses_ok: 0,
            bypasses_failed: 0,
            active: 0,
            total_c2s: 0,
            total_s2c: 0,
            scroll_offset: 0,
            auto_scroll: true,
            filter: FilterStatus::All,
            active_ip: Some(active_ip),
            pool_ips,
            start: now,
            channel_closed: false,
            cumulative_conns: Tally::new(),
            cumulative_up: Tally::new(),
            cumulative_down: Tally::new(),
        }
    }

    /// The counters and the target after an event.
    pub open spec fn counted(&self, e: ProxyEvent, after: &DashboardState) -> bool {
        &&& after.total == self.total + (if e is ConnectionAccepted {
            1int
        } else {
            0
        })
        &&& after.active == (if e is ConnectionAccepted {
            (self.active + 1) as u64
        } else if Self::is_failure(e) || e is RelayFinished {
            less_one(self.active)
        } else {
            self.active
        })
        &&& after.bypasses_ok == self.bypasses_ok + (if Self::is_success(e) {
            1int
        } else {
            0
        })
        &&& after.bypasses_failed == self.bypasses_failed + (if Self::is_failure(e) {
            1int
        } else {
            0
        })
        &&& after.total_c2s == self.total_c2s + (match e {
            ProxyEvent::RelayFinished { c2s_bytes, .. } => c2s_bytes as int,
            _ => 0,
        })
        &&& after.total_s2c == self.total_s2c + (match e {
            ProxyEvent::RelayFinished { s2c_bytes, .. } => s2c_bytes as int,
            _ => 0,
        })
        &&& after.active_ip == (match e {
            ProxyEvent::IpTargetChanged { ip } => Some(ip),
            _ => self.active_ip,
        })
    }

    /// The amounts by address after an event.
    pub open spec fn tallied(&self, e: ProxyEvent, after: &DashboardState) -> bool {
        &&& forall|ip: IpAddr|
            #[trigger] after.cumulative_conns.amount(ip) == self.cumulative_conns.amount(ip) + (
            match e {
                ProxyEvent::ConnectionAccepted { upstream_ip, .. } => if upstream_ip == ip {
                    1int
                } else {
                    0
                },
                _ => 0,
            })
        &&& forall|ip: IpAddr|
            #[trigger] after.cumulative_up.amount(ip) == self.cumulative_up.amount(ip) + (match e {
                ProxyEvent::RelayFinished { src_port, c2s_bytes, .. } => if self.served_ip(src_port)
                    == Some(ip) {
                    c2s_bytes as int
                } else {
                    0
                },
                _ => 0,
            })
        &&& forall|ip: IpAddr|
            #[trigger] after.cumulative_down.amount(ip) == self.cumulative_down.amount(ip) + (
            match e {
                ProxyEvent::RelayFinished { src_port, s2c_bytes, .. } => if self.served_ip(src_port)
                    == Some(ip) {
                    s2c_bytes as int
                } else {
                    0
                },
                _ => 0,
            })
    }

    /// What only the keys and the end of the proxy change.
    pub open spec fn same_settings(&self, after: &DashboardState) -> bool {
        &&& after.scroll_offset == self.scroll_offset
        &&& after.auto_scroll == self.auto_scroll
        &&& after.filter == self.filter
        &&& after.pool_ips@ == self.pool_ips@
        &&& after.start == self.start
        &&& after.channel_closed == self.channel_closed
    }

    fn change_record(&mut self, e: &ProxyEvent, now: u64)
        requires
            !(*e is ConnectionAccepted),
        ensures
            final(self).records@ == records_after(old(self).records@, *e, now, 0),
            *final(self) == (DashboardState { records: final(self).records, ..*old(self) }),
    {
        if let Some(port) = event_port(e) {
            if let Some(i) = find_record(self.records.as_slice(), port) {
                let mut record = self.records[i];
                record.apply(e, now);
                self.records.set(i, record);
            }
        }
    }

    /// Takes an event of the proxy into the view, at this time of the steady clock and of
    /// the calendar.
    pub fn apply_event(&mut self, e: &ProxyEvent, now: u64, calendar: u64)
        requires
            old(self).wf(),
            old(self).has_room_for(*e),
        ensures
            final(self).wf(),
            final(self).records@ == pruned(records_after(old(self).records@, *e, now, calendar)),
            old(self).counted(*e, final(self)),
            old(self).tallied(*e, final(self)),
            old(self).same_settings(final(self)),
    {
        match e {
            ProxyEvent::ConnectionAccepted { peer, src_port, upstream_ip } => {
                self.total = self.total + 1;
                self.active = self.active + 1;
                self.cumulative_conns.increase(*upstream_ip, 1);
                let record = ConnectionRecord {
                    started_at: calendar,
                    start_instant: now,
                    end_instant: None,
                    src_port: *src_port,
                    peer: *peer,
                    upstream_ip: *upstream_ip,
                    status: ConnStatus::Connecting,
                    status_changed_at: now,
                    c2s_bytes: 0,
                    s2c_bytes: 0,
                    rate: None,
                    last_snapshot: None,
                };
                self.records.insert(0, record);
                assert(self.records@ =~= records_after(old(self).records@, *e, now, calendar));
            },
            ProxyEvent::BypassComplete { outcome, .. } => {
                match outcome {
                    BypassOutcome::FakeDataAcked => {
                        self.bypasses_ok = self.bypasses_ok + 1;
                    },
                    BypassOutcome::UnexpectedClose => {
                        self.bypasses_failed = self.bypasses_failed + 1;
                        self.active = self.active.saturating_sub(1);
                    },
                }
                self.change_record(e, now);
            },
            ProxyEvent::RelayFinished { src_port, c2s_bytes, s2c_bytes, .. } => {
                self.active = self.active.saturating_sub(1);
                self.total_c2s = self.total_c2s + *c2s_bytes;
                self.total_s2c = self.total_s2c + *s2c_bytes;
                if let Some(i) = find_record(self.records.as_slice(), *src_port) {
                    let ip = self.records[i].upstream_ip;
                    self.cumulative_up.increase(ip, *c2s_bytes);
                    self.cumulative_down.increase(ip, *s2c_bytes);
                }
                self.change_record(e, now);
            },
            ProxyEvent::RelayProgress { .. } => self.change_record(e, now),
            ProxyEvent::ConnectionError { .. } => {
                self.bypasses_failed = self.bypasses_failed + 1;
                self.active = self.active.saturating_sub(1);
                self.change_record(e, now);
            },
            ProxyEvent::IpTargetChanged { ip } => {
                self.active_ip = Some(*ip);
            },
            ProxyEvent::ListenerStarted { .. } => {},
        }
        let ghost changed = self.records@;
        prune_connection_records(&mut self.records);
        proof {
            lemma_pruned_twice(changed);
        }
    }
}

proof fn lemma_pruned_twice(records: Seq<ConnectionRecord>)
    ensures
        pruned(pruned(records)) == pruned(records),
    decreases records.len(),
{
    if records.len() > MAX_RECORDS && 0 <= last_inactive(records) < records.len() {
        lemma_pruned_twice(records.remove(last_inactive(records)));
    }
}

/// Each of the states follows from the one before it by the event in its place.
pub open spec fn is_history(states: Seq<DashboardState>, events: Seq<ProxyEvent>) -> bool {
    &&& states.len() == events.len() + 1
    &&& forall|k: int|
        0 <= k < events.len() ==> #[trigger] states[k].counted(events[k], &states[k + 1])
            && states[k].tallied(events[k], &states[k + 1])
}

/// The event tells of a new connection to the address.
pub open spec fn accepts_to(ip: IpAddr) -> spec_fn(ProxyEvent) -> bool {
    |e: ProxyEvent|
        match e {
            ProxyEvent::ConnectionAccepted { upstream_ip, .. } => upstream_ip == ip,
            _ => false,
        }
}

pub open spec fn accepts() -> spec_fn(ProxyEvent) -> bool {
    |e: ProxyEvent| e is ConnectionAccepted
}

/// The event tells of a bypass that came to a good end.
pub open spec fn succeeds() -> spec_fn(ProxyEvent) -> bool {
    |e: ProxyEvent|
        match e {
            ProxyEvent::BypassComplete { outcome: BypassOutcome::FakeDataAcked, .. } => true,
            _ => false,
        }
}

/// The event tells of a bypass that failed or of a connection that could not be made.
pub open spec fn fails() -> spec_fn(ProxyEvent) -> bool {
    |e: ProxyEvent|
        match e {
            ProxyEvent::BypassComplete { outcome: BypassOutcome::UnexpectedClose, .. } => true,
            ProxyEvent::ConnectionError { .. } => true,
            _ => false,
        }
}

/// How many of the events are of one sort.
pub open spec fn number_of(events: Seq<ProxyEvent>, sort: spec_fn(ProxyEvent) -> bool) -> nat {
    events.filter(sort).len()
}

proof fn lemma_number_of_more(events: Seq<ProxyEvent>, sort: spec_fn(ProxyEvent) -> bool)
    requires
        events.len() > 0,
    ensures
        number_of(events, sort) == number_of(events.drop_last(), sort) + (if sort(events.last()) {
            1nat
        } else {
            0
        }),
{
    reveal(Seq::filter);
}

proof fn lemma_earlier_history(states: Seq<DashboardState>, events: Seq<ProxyEvent>)
    requires
        is_history(states, events),
        events.len() > 0,
    ensures
        is_history(states.drop_last(), events.drop_last()),
        states[events.len() - 1].counted(events.last(), &states.last()),
        states[events.len() - 1].tallied(events.last(), &states.last()),
{
    let n = events.len() - 1;
    let earlier = states.drop_last();
    assert forall|k: int| 0 <= k < n implies #[trigger] earlier[k].counted(
        events.drop_last()[k],
        &earlier[k + 1],
    ) && earlier[k].tallied(events.drop_last()[k], &earlier[k + 1]) by {
        assert(states[k].counted(events[k], &states[k + 1]));
    }
    assert(states[n].counted(events[n], &states[n + 1]));
}

/// The view counts every connection once, in total and to its address, and every end of a
/// bypass once, as a success or as a failure.
pub proof fn law_every_connection_counts(
    states: Seq<DashboardState>,
    events: Seq<ProxyEvent>,
    ip: IpAddr,
)
    requires
        is_history(states, events),
        states[0].is_fresh(),
    ensures
        states.last().cumulative_conns.amount(ip) == number_of(events, accepts_to(ip)),
        states.last().total == number_of(events, accepts()),
        states.last().bypasses_ok == number_of(events, succeeds()),
        states.last().bypasses_failed == number_of(events, fails()),
    decreases events.len(),
{
    if events.len() > 0 {
        lemma_earlier_history(states, events);
        law_every_connection_counts(states.drop_last(), events.drop_last(), ip);
        lemma_number_of_more(events, accepts_to(ip));
        lemma_number_of_more(events, accepts());
        lemma_number_of_more(events, succeeds());
        lemma_number_of_more(events, fails());
    } else {
        reveal(Seq::filter);
    }
}

/// The connections of the given addresses together.
pub open spec fn sum_of_connections(tally: Tally, ips: Seq<IpAddr>) -> nat
    decreases ips.len(),
{
    if ips.len() == 0 {
        0
    } else {
        sum_of_connections(tally, ips.drop_last()) + tally.amount(ips.last()) as nat
    }
}

/// Every address that a connection goes to is one of the given ones.
pub open spec fn all_go_to(events: Seq<ProxyEvent>, ips: Seq<IpAddr>) -> bool {
    forall|k: int|
        0 <= k < events.len() ==> match #[trigger] events[k] {
            ProxyEvent::ConnectionAccepted { upstream_ip, .. } => ips.contains(upstream_ip),
            _ => true,
        }
}

proof fn lemma_sum_of_zeros(tally: Tally, ips: Seq<IpAddr>)
    requires
        forall|ip: IpAddr| #[trigger] tally.amount(ip) == 0,
    ensures
        sum_of_connections(tally, ips) == 0,
    decreases ips.len(),
{
    if ips.len() > 0 {
        lemma_sum_of_zeros(tally, ips.drop_last());
    }
}

proof fn lemma_sum_after_event(
    before: DashboardState,
    after: DashboardState,
    e: ProxyEvent,
    ips: Seq<IpAddr>,
)
    requires
        before.tallied(e, &after),
        ips.no_duplicates(),
    ensures
        sum_of_connections(after.cumulative_conns, ips) == sum_of_connections(
            before.cumulative_conns,
            ips,
        ) + (match e {
            ProxyEvent::ConnectionAccepted { upstream_ip, .. } => if ips.contains(upstream_ip) {
                1nat
            } else {
                0
            },
            _ => 0,
        }),
    decreases ips.len(),
{
    if ips.len() > 0 {
        let rest = ips.drop_last();
        lemma_sum_after_event(before, after, e, rest);
        assert(after.cumulative_conns.amount(ips.last()) == before.cumulative_conns.amount(
            ips.last(),
        ) + (match e {
            ProxyEvent::ConnectionAccepted { upstream_ip, .. } => if upstream_ip == ips.last() {
                1int
            } else {
                0
            },
            _ => 0,
        }));
        if let ProxyEvent::ConnectionAccepted { upstream_ip, .. } = e {
            if rest.contains(upstream_ip) {
                let k = choose|k: int| 0 <= k < rest.len() && rest[k] == upstream_ip;
                assert(ips[k] == upstream_ip);
                assert(ips[ips.len() - 1] != ips[k]);
            }
            if ips.contains(upstream_ip) && upstream_ip != ips.last() {
                let k = choose|k: int| 0 <= k < ips.len() && ips[k] == upstream_ip;
                assert(rest[k] == upstream_ip);
            }
            if upstream_ip == ips.last() {
                assert(ips[ips.len() - 1] == upstream_ip);
            }
        }
    }
}

proof fn lemma_addresses_add_up(
    states: Seq<DashboardState>,
    events: Seq<ProxyEvent>,
    ips: Seq<IpAddr>,
)
    requires
        is_history(states, events),
        states[0].is_fresh(),
        ips.no_duplicates(),
        all_go_to(events, ips),
    ensures
        sum_of_connections(states.last().cumulative_conns, ips) == states.last().total,
    decreases events.len(),
{
    if events.len() == 0 {
        lemma_sum_of_zeros(states.last().cumulative_conns, ips);
    } else {
        let n = events.len() - 1;
        lemma_earlier_history(states, events);
        assert(all_go_to(events.drop_last(), ips)) by {
            assert forall|k: int| 0 <= k < n implies match #[trigger] events.drop_last()[k] {
                ProxyEvent::ConnectionAccepted { upstream_ip, .. } => ips.contains(upstream_ip),
                _ => true,
            } by {
                assert(events.drop_last()[k] == events[k]);
            }
        }
        lemma_addresses_add_up(states.drop_last(), events.drop_last(), ips);
        lemma_sum_after_event(states[n], states.last(), events[n], ips);
        assert(states.drop_last().last() == states[n]);
    }
}

/// The connections of all addresses add up to the total: whatever the addresses with any
/// connections, and in whatever order they are listed, as long as each is listed once.
pub proof fn law_addresses_add_up_to_the_total(
    states: Seq<DashboardState>,
    events: Seq<ProxyEvent>,
    ips: Seq<IpAddr>,
)
    requires
        is_history(states, events),
        states[0].is_fresh(),
        ips.no_duplicates(),
        forall|ip: IpAddr| #[trigger]
            states.last().cumulative_conns.amount(ip) > 0 ==> ips.contains(ip),
    ensures
        sum_of_connections(states.last().cumulative_conns, ips) == states.last().total,
        states.last().total == number_of(events, accepts()),
{
    assert forall|k: int| 0 <= k < events.len() implies match #[trigger] events[k] {
        ProxyEvent::ConnectionAccepted { upstream_ip, .. } => ips.contains(upstream_ip),
        _ => true,
    } by {
        if let ProxyEvent::ConnectionAccepted { upstream_ip, .. } = events[k] {
            law_every_connection_counts(states, events, upstream_ip);
            events.lemma_filter_contains(accepts_to(upstream_ip), k);
            assert(states.last().cumulative_conns.amount(upstream_ip) > 0);
        }
    }
    lemma_addresses_add_up(states, events, ips);
    law_every_connection_counts(states, events, arbitrary());
}

/// Nothing that the view counts in total ever falls.
pub proof fn law_totals_never_fall(
    states: Seq<DashboardState>,
    events: Seq<ProxyEvent>,
    i: int,
    j: int,
)
    requires
        is_history(states, events),
        0 <= i <= j < states.len(),
    ensures
        states[i].total <= states[j].total,
        states[i].bypasses_ok <= states[j].bypasses_ok,
        states[i].bypasses_failed <= states[j].bypasses_failed,
        states[i].total_c2s <= states[j].total_c2s,
        states[i].total_s2c <= states[j].total_s2c,
    decreases j - i,
{
    if i < j {
        law_totals_never_fall(states, events, i, j - 1);
        assert(states[j - 1].counted(events[j - 1], &states[j - 1 + 1]));
    }
}

/// A connection of the state's filter and, where there is a pool, of its addresses.
pub open spec fn is_shown(
    filter: FilterStatus,
    pool_ips: Seq<IpAddr>,
    record: ConnectionRecord,
) -> bool {
    filter.lets(record.status) && (pool_ips.len() == 0 || pool_ips.contains(record.upstream_ip))
}

/// The connections that are shown at one rank.
pub open spec fn shown_at(
    filter: FilterStatus,
    pool_ips: Seq<IpAddr>,
    rank: u8,
    now: u64,
) -> spec_fn(ConnectionRecord) -> bool {
    |r: ConnectionRecord| is_shown(filter, pool_ips, r) && display_rank(r, now) == rank
}

fn contains_ip(ips: &[IpAddr], ip: &IpAddr) -> (r: bool)
    ensures
        r == ips@.contains(*ip),
{
    let mut i: usize = 0;
    while i < ips.len()
        invariant
            i <= ips@.len(),
            forall|j: int| 0 <= j < i ==> ips@[j] != *ip,
        decreases ips@.len() - i,
    {
        if ips[i] == *ip {
            assert(ips@[i as int] == *ip);
            return true;
        }
        i = i + 1;
    }
    false
}

/// The sum of what the connections that are not over have carried, upwards or downwards.
pub open spec fn live_sum(records: Seq<ConnectionRecord>, upwards: bool) -> nat
    decreases records.len(),
{
    if records.len() == 0 {
        0
    } else {
        let rest = live_sum(records.drop_last(), upwards);
        let last = records.last();
        if last.end_instant is Some {
            rest
        } else if upwards {
            rest + last.c2s_bytes as nat
        } else {
            rest + last.s2c_bytes as nat
        }
    }
}

proof fn lemma_live_sum_grows(records: Seq<ConnectionRecord>, upwards: bool, k: int)
    requires
        0 <= k <= records.len(),
    ensures
        live_sum(records.take(k), upwards) <= live_sum(records, upwards),
    decreases records.len() - k,
{
    if k == records.len() {
        assert(records.take(k) =~= records);
    } else {
        lemma_live_sum_grows(records, upwards, k + 1);
        assert(records.take(k + 1).drop_last() =~= records.take(k));
    }
}

pub open spec fn saturated(n: int) -> u64 {
    if n <= u64::MAX {
        n as u64
    } else {
        u64::MAX
    }
}

/// A row of the table of the addresses.
#[derive(Debug, Clone, Copy, PartialEq, Eq, Structural)]
pub struct IpRow {
    pub ip: IpAddr,
    pub score: u8,
    pub connections: u64,
    pub up_bytes: u64,
    pub down_bytes: u64,
    /// The address is the active one.
    pub current: bool,
}

/// The key ends the view.
pub open spec fn quits(key: Key) -> bool {
    cancels(key) || key == Key::Control('c')
}

/// The smaller number.
pub open spec fn least(a: int, b: int) -> int {
    if a <= b {
        a
    } else {
        b
    }
}

/// Where the view stands after a key, among so many connections, of which so many fit on
/// the screen.
pub open spec fn scrolled(key: Key, offset: usize, shown: nat, visible: usize) -> int {
    let last = if shown > 0 {
        shown - 1
    } else {
        0
    };
    if moves_up(key) {
        if offset > 0 {
            offset - 1
        } else {
            0
        }
    } else if moves_down(key) {
        if offset + 1 < shown {
            offset + 1
        } else {
            offset as int
        }
    } else {
        match key {
            Key::PageUp => if offset > visible {
                offset - visible
            } else {
                0
            },
            Key::PageDown => least(offset + visible, last),
            Key::Home => 0,
            Key::End => last,
            _ => offset as int,
        }
    }
}

/// The key moves the view, and stops it from following new connections.
pub open spec fn pauses(key: Key) -> bool {
    moves_up(key) || moves_down(key) || key == Key::PageUp || key == Key::PageDown || key
        == Key::End
}

/// The key turns following on or off.
pub open spec fn toggles(key: Key) -> bool {
    is_char(key, ' ') || is_char(key, 'a')
}

/// How many rows of connections fit on a screen of the given height, if it is known.
pub open spec fn rows_on(height: Option<u16>) -> usize {
    match height {
        Some(h) => if h > 15 {
            (h - 14) as usize
        } else {
            1
        },
        None => 10,
    }
}

/// How many rows of connections fit on a screen of the given height, if it is known.
pub fn visible_rows(height: Option<u16>) -> (r: usize)
    ensures
        r == rows_on(height),
{
    match height {
        Some(h) => if h > 15 {
            (h - 14) as usize
        } else {
            1
        },
        None => 10,
    }
}

impl DashboardState {
    /// The connections that the filter lets through.
    pub open spec fn filtered(&self) -> Seq<ConnectionRecord> {
        self.records@.filter(|r: ConnectionRecord| self.filter.lets(r.status))
    }

    /// How many connections the filter lets through.
    pub fn filtered_len(&self) -> (r: usize)
        ensures
            r == self.filtered().len(),
    {
        let ghost pred = |r: ConnectionRecord| self.filter.lets(r.status);
        let mut count: usize = 0;
        let mut i: usize = 0;
        while i < self.records.len()
            invariant
                i <= self.records@.len(),
                count <= i,
                pred == |r: ConnectionRecord| self.filter.lets(r.status),
                count == self.records@.take(i as int).filter(pred).len(),
            decreases self.records@.len() - i,
        {
            proof {
                reveal(Seq::filter);
                assert(self.records@.take(i + 1).drop_last() =~= self.records@.take(i as int));
            }
            if self.filter.matches(&self.records[i].status) {
                count = count + 1;
            }
            i = i + 1;
        }
        assert(self.records@.take(i as int) =~= self.records@);
        count
    }

    fn push_shown(&self, out: &mut Vec<ConnectionRecord>, rank: u8, now: u64)
        ensures
            final(out)@ == old(out)@ + self.records@.filter(
                shown_at(self.filter, self.pool_ips@, rank, now),
            ),
    {
        let ghost pred = shown_at(self.filter, self.pool_ips@, rank, now);
        let ghost before = out@;
        let mut i: usize = 0;
        proof {
            reveal(Seq::filter);
            assert(out@ =~= before + self.records@.take(0).filter(pred));
        }
        while i < self.records.len()
            invariant
                i <= self.records@.len(),
                pred == shown_at(self.filter, self.pool_ips@, rank, now),
                out@ == before + self.records@.take(i as int).filter(pred),
            decreases self.records@.len() - i,
        {
            proof {
                reveal(Seq::filter);
                assert(self.records@.take(i + 1).drop_last() =~= self.records@.take(i as int));
            }
            let record = self.records[i];
            if self.filter.matches(&record.status) && (self.pool_ips.is_empty() || contains_ip(
                self.pool_ips.as_slice(),
                &record.upstream_ip,
            )) && connection_display_rank(&record, now) == rank {
                out.push(record);
            }
            i = i + 1;
            assert(out@ =~= before + self.records@.take(i as int).filter(pred));
        }
        assert(self.records@.take(i as int) =~= self.records@);
    }

    /// The connections in the order in which they are shown: by rank, and in one rank the
    /// newest first.
    pub open spec fn ordered(&self, now: u64) -> Seq<ConnectionRecord> {
        self.records@.filter(shown_at(self.filter, self.pool_ips@, 0, now)) + self.records@.filter(
            shown_at(self.filter, self.pool_ips@, 1, now),
        ) + self.records@.filter(shown_at(self.filter, self.pool_ips@, 2, now))
    }

    pub fn ordered_connection_records(&self, now: u64) -> (r: Vec<ConnectionRecord>)
        ensures
            r@ == self.ordered(now),
    {
        let mut out: Vec<ConnectionRecord> = Vec::new();
        self.push_shown(&mut out, 0, now);
        self.push_shown(&mut out, 1, now);
        self.push_shown(&mut out, 2, now);
        assert(out@ =~= self.ordered(now));
        out
    }

    /// What all connections have carried, with those that still run.
    pub fn live_transfer_totals(&self) -> (r: (u64, u64))
        requires
            live_sum(self.records@, true) <= u64::MAX,
            live_sum(self.records@, false) <= u64::MAX,
        ensures
            r.0 == saturated(self.total_c2s + live_sum(self.records@, true)),
            r.1 == saturated(self.total_s2c + live_sum(self.records@, false)),
    {
        let mut up: u64 = 0;
        let mut down: u64 = 0;
        let mut i: usize = 0;
        while i < self.records.len()
            invariant
                i <= self.records@.len(),
                up == live_sum(self.records@.take(i as int), true),
                down == live_sum(self.records@.take(i as int), false),
                live_sum(self.records@, true) <= u64::MAX,
                live_sum(self.records@, false) <= u64::MAX,
            decreases self.records@.len() - i,
        {
            proof {
                assert(self.records@.take(i + 1).drop_last() =~= self.records@.take(i as int));
                lemma_live_sum_grows(self.records@, true, i + 1);
                lemma_live_sum_grows(self.records@, false, i + 1);
            }
            if self.records[i].end_instant.is_none() {
                up = up + self.records[i].c2s_bytes;
                down = down + self.records[i].s2c_bytes;
            }
            i = i + 1;
        }
        assert(self.records@.take(i as int) =~= self.records@);
        (self.total_c2s.saturating_add(up), self.total_s2c.saturating_add(down))
    }

    /// The row of an address.
    pub open spec fn row(&self, ip: IpAddr, score: u8) -> IpRow {
        IpRow {
            ip,
            score,
            connections: self.cumulative_conns.amount(ip),
            up_bytes: self.cumulative_up.amount(ip),
            down_bytes: self.cumulative_down.amount(ip),
            current: self.active_ip == Some(ip),
        }
    }

    fn row_of(&self, ip: IpAddr, score: u8) -> (r: IpRow)
        ensures
            r == self.row(ip, score),
    {
        IpRow {
            ip,
            score,
            connections: self.cumulative_conns.get(&ip),
            up_bytes: self.cumulative_up.get(&ip),
            down_bytes: self.cumulative_down.get(&ip),
            current: match self.active_ip {
                Some(active) => active == ip,
                None => false,
            },
        }
    }

    /// The rows of the table of the addresses: one for each address of the pool, or one
    /// for the active address.
    pub fn ip_rows(&self, info: &DashboardInfo) -> (r: Vec<IpRow>)
        ensures
            match *info {
                DashboardInfo::IpBypassPlusPool { pool, .. } => {
                    &&& r@.len() == pool@.len()
                    &&& forall|i: int|
                        0 <= i < pool@.len() ==> #[trigger] r@[i] == self.row(
                            pool@[i].ip,
                            pool@[i].score,
                        )
                },
                DashboardInfo::IpBypassPlus { .. } => r@ == seq![
                    self.row(
                        match self.active_ip {
                            Some(ip) => ip,
                            None => IpAddr::V4(Ipv4Addr { bits: 0 }),
                        },
                        0,
                    ),
                ],
            },
    {
        let mut rows: Vec<IpRow> = Vec::new();
        match info {
            DashboardInfo::IpBypassPlusPool { pool, .. } => {
                let mut i: usize = 0;
                while i < pool.len()
                    invariant
                        i <= pool@.len(),
                        rows@.len() == i,
                        forall|j: int|
                            0 <= j < i ==> #[trigger] rows@[j] == self.row(
                                pool@[j].ip,
                                pool@[j].score,
                            ),
                    decreases pool@.len() - i,
                {
                    rows.push(self.row_of(pool[i].ip, pool[i].score));
                    i = i + 1;
                }
            },
            DashboardInfo::IpBypassPlus { .. } => {
                let ip = match self.active_ip {
                    Some(ip) => ip,
                    None => IpAddr::V4(Ipv4Addr { bits: 0 }),
                };
                rows.push(self.row_of(ip, 0));
                assert(rows@ =~= seq![self.row(ip, 0)]);
            },
        }
        rows
    }

    /// The title of the table of the addresses.
    pub fn table_title(rows: usize) -> (r: String)
        ensures
            r@ == " IP Stats — "@ + decimal(rows as nat) + " IPs round-robin "@,
    {
        let mut s = copy_text(" IP Stats — ");
        push_decimal(&mut s, rows as u64);
        s.append(" IPs round-robin ");
        s
    }

    /// What the header says of the pool.
    pub fn pool_label(size: usize) -> (r: String)
        ensures
            r@ == decimal(size as nat) + " (round-robin)"@,
    {
        let mut s = String::new();
        push_decimal(&mut s, size as u64);
        s.append(" (round-robin)");
        assert(s@ =~= decimal(size as nat) + " (round-robin)"@);
        s
    }

    /// The title of the view.
    pub fn title(&self) -> (r: &'static str)
        ensures
            r@ == (if self.channel_closed {
                " ZeroDPI — Stopped "@
            } else {
                " ZeroDPI — Running "@
            }),
    {
        if self.channel_closed {
            " ZeroDPI — Stopped "
        } else {
            " ZeroDPI — Running "
        }
    }

    /// The end of a round in which events have been taken in, if `got_event`.
    pub fn follow(&mut self, got_event: bool)
        ensures
            *final(self) == (DashboardState {
                scroll_offset: if old(self).auto_scroll && got_event {
                    0
                } else {
                    old(self).scroll_offset
                },
                ..*old(self)
            }),
    {
        if self.auto_scroll && got_event {
            self.scroll_offset = 0;
        }
    }

    /// Takes a key and answers whether the view is left.
    pub fn on_key(&mut self, key: Key, visible: usize) -> (r: bool)
        ensures
            r == quits(key),
            if quits(key) {
                *final(self) == *old(self)
            } else if toggles(key) {
                *final(self) == (DashboardState {
                    auto_scroll: !old(self).auto_scroll,
                    scroll_offset: if old(self).auto_scroll {
                        old(self).scroll_offset
                    } else {
                        0
                    },
                    ..*old(self)
                })
            } else if key == Key::Tab {
                *final(self) == (DashboardState {
                    filter: old(self).filter.follower(),
                    scroll_offset: 0,
                    ..*old(self)
                })
            } else {
                *final(self) == (DashboardState {
                    auto_scroll: old(self).auto_scroll && !pauses(key),
                    scroll_offset: scrolled(
                        key,
                        old(self).scroll_offset,
                        old(self).filtered().len(),
                        visible,
                    ) as usize,
                    ..*old(self)
                })
            },
    {
        if key.is_cancel() || key == Key::Control('c') {
            return true;
        }
        let shown: usize = self.filtered_len();
        let last: usize = shown.saturating_sub(1);
        if key.is_up() {
            self.auto_scroll = false;
            self.scroll_offset = self.scroll_offset.saturating_sub(1);
        } else if key.is_down() {
            self.auto_scroll = false;
            if shown > 0 && self.scroll_offset < shown - 1 {
                self.scroll_offset = self.scroll_offset + 1;
            }
        } else if key.is(' ') || key.is('a') {
            self.auto_scroll = !self.auto_scroll;
            if self.auto_scroll {
                self.scroll_offset = 0;
            }
        } else {
            match key {
                Key::PageUp => {
                    self.auto_scroll = false;
                    self.scroll_offset = self.scroll_offset.saturating_sub(visible);
                },
                Key::PageDown => {
                    self.auto_scroll = false;
                    let below: usize = self.scroll_offset.saturating_add(visible);
                    self.scroll_offset = if below <= last {
                        below
                    } else {
                        last
                    };
                },
                Key::Home => {
                    self.scroll_offset = 0;
                },
                Key::End => {
                    self.auto_scroll = false;
                    self.scroll_offset = last;
                },
                Key::Tab => {
                    self.filter = self.filter.next();
                    self.scroll_offset = 0;
                },
                _ => {},
            }
        }
        false
    }
}

/// Scrolling never leaves the connections that are shown, from wherever it starts within
/// them.
pub proof fn law_scrolling_stays_in_bounds(key: Key, offset: usize, shown: nat, visible: usize)
    requires
        offset < shown,
    ensures
        0 <= scrolled(key, offset, shown, visible) < shown,
{
}

/// Relaying connections are shown before all others, and those whose status has just
/// changed before the rest.
pub proof fn law_order_goes_by_rank(state: DashboardState, now: u64, i: int, j: int)
    requires
        0 <= i < j < state.ordered(now).len(),
    ensures
        display_rank(state.ordered(now)[i], now) <= display_rank(state.ordered(now)[j], now),
{
    let p0 = shown_at(state.filter, state.pool_ips@, 0, now);
    let p1 = shown_at(state.filter, state.pool_ips@, 1, now);
    let p2 = shown_at(state.filter, state.pool_ips@, 2, now);
    let a = state.records@.filter(p0);
    let b = state.records@.filter(p1);
    let c = state.records@.filter(p2);
    assert forall|k: int| 0 <= k < state.ordered(now).len() implies display_rank(
        #[trigger] state.ordered(now)[k],
        now,
    ) == (if k < a.len() {
        0u8
    } else if k < a.len() + b.len() {
        1
    } else {
        2
    }) by {
        if k < a.len() {
            state.records@.lemma_filter_pred(p0, k);
        } else if k < a.len() + b.len() {
            state.records@.lemma_filter_pred(p1, k - a.len());
        } else {
            state.records@.lemma_filter_pred(p2, k - a.len() - b.len());
        }
    }
}

/// Exactly the connections of the filter and the pool are shown.
pub proof fn law_order_shows_the_filtered(state: DashboardState, now: u64, r: ConnectionRecord)
    ensures
        state.ordered(now).contains(r) <==> state.records@.contains(r) && is_shown(
            state.filter,
            state.pool_ips@,
            r,
        ),
{
    let p0 = shown_at(state.filter, state.pool_ips@, 0, now);
    let p1 = shown_at(state.filter, state.pool_ips@, 1, now);
    let p2 = shown_at(state.filter, state.pool_ips@, 2, now);
    let a = state.records@.filter(p0);
    let b = state.records@.filter(p1);
    let c = state.records@.filter(p2);
    let all = state.ordered(now);
    if all.contains(r) {
        let k = choose|k: int| 0 <= k < all.len() && all[k] == r;
        if k < a.len() {
            assert(a[k] == r);
            state.records@.lemma_filter_pred(p0, k);
            state.records@.lemma_filter_contains_rev(p0, r);
        } else if k < a.len() + b.len() {
            assert(b[k - a.len()] == r);
            state.records@.lemma_filter_pred(p1, k - a.len());
            state.records@.lemma_filter_contains_rev(p1, r);
        } else {
            assert(c[k - a.len() - b.len()] == r);
            state.records@.lemma_filter_pred(p2, k - a.len() - b.len());
            state.records@.lemma_filter_contains_rev(p2, r);
        }
    }
    if state.records@.contains(r) && is_shown(state.filter, state.pool_ips@, r) {
        let k = choose|k: int| 0 <= k < state.records@.len() && state.records@[k] == r;
        if display_rank(r, now) == 0 {
            state.records@.lemma_filter_contains(p0, k);
            let m = choose|m: int| 0 <= m < a.len() && a[m] == r;
            assert(all[m] == r);
        } else if display_rank(r, now) == 1 {
            state.records@.lemma_filter_contains(p1, k);
            let m = choose|m: int| 0 <= m < b.len() && b[m] == r;
            assert(all[a.len() + m] == r);
        } else {
            state.records@.lemma_filter_contains(p2, k);
            let m = choose|m: int| 0 <= m < c.len() && c[m] == r;
            assert(all[a.len() + b.len() + m] == r);
        }
    }
}

/// The bytes that the finished relays among the events carried to the upstream.
pub open spec fn bytes_up(events: Seq<ProxyEvent>) -> nat
    decreases events.len(),
{
    if events.len() == 0 {
        0
    } else {
        bytes_up(events.drop_last()) + match events.last() {
            ProxyEvent::RelayFinished { c2s_bytes, .. } => c2s_bytes as nat,
            _ => 0,
        }
    }
}

/// The bytes that the finished relays among the events carried to the client.
pub open spec fn bytes_down(events: Seq<ProxyEvent>) -> nat
    decreases events.len(),
{
    if events.len() == 0 {
        0
    } else {
        bytes_down(events.drop_last()) + match events.last() {
            ProxyEvent::RelayFinished { s2c_bytes, .. } => s2c_bytes as nat,
            _ => 0,
        }
    }
}

/// The totals of bytes are those of the relays that have finished, each in its direction.
pub proof fn law_totals_are_those_of_finished_relays(
    states: Seq<DashboardState>,
    events: Seq<ProxyEvent>,
)
    requires
        is_history(states, events),
        states[0].is_fresh(),
    ensures
        states.last().total_c2s == bytes_up(events),
        states.last().total_s2c == bytes_down(events),
    decreases events.len(),
{
    if events.len() > 0 {
        lemma_earlier_history(states, events);
        law_totals_are_those_of_finished_relays(states.drop_last(), events.drop_last());
        assert(states.drop_last().last() == states[events.len() - 1]);
    }
}

/// A connection is active from its acceptance until its relay has finished or it has failed,
/// and no other event changes how many are. The target is the one of the last change.
pub proof fn law_active_connections(before: DashboardState, e: ProxyEvent, after: DashboardState)
    requires
        before.counted(e, &after),
        before.active < u64::MAX,
    ensures
        e is ConnectionAccepted ==> after.active == before.active + 1,
        e is RelayFinished || e is ConnectionError || (e is BypassComplete
            && e->BypassComplete_outcome == BypassOutcome::UnexpectedClose) ==> after.active == (
        if before.active > 0 {
            before.active - 1
        } else {
            0
        }),
        e is ListenerStarted || e is RelayProgress || e is IpTargetChanged || (e is BypassComplete
            && e->BypassComplete_outcome == BypassOutcome::FakeDataAcked) ==> after.active
            == before.active,
        e matches ProxyEvent::IpTargetChanged { ip } ==> after.active_ip == Some(ip),
        !(e is IpTargetChanged) ==> after.active_ip == before.active_ip,
{
}

/// A new view knows nothing yet, and shows the target and the pool that it is about.
pub proof fn law_what_a_view_is_about(ip: IpAddr, pool: Vec<IpPoolEntry>, k: int)
    ensures
        (DashboardInfo::IpBypassPlus { ip }).ip() == ip,
        (DashboardInfo::IpBypassPlus { ip }).pool_ips().len() == 0,
        (DashboardInfo::IpBypassPlusPool { active_ip: ip, pool }).ip() == ip,
        (DashboardInfo::IpBypassPlusPool { active_ip: ip, pool }).pool_ips().len() == pool@.len(),
        0 <= k < pool@.len() ==> (DashboardInfo::IpBypassPlusPool {
            active_ip: ip,
            pool,
        }).pool_ips()[k] == pool@[k].ip,
{
}

proof fn lemma_first_with_is_first(records: Seq<ConnectionRecord>, src_port: u16)
    ensures
        first_with(records, src_port) <= records.len(),
        first_with(records, src_port) < records.len() ==> records[first_with(
            records,
            src_port,
        ) as int].src_port == src_port,
        forall|j: int|
            0 <= j < first_with(records, src_port) ==> (#[trigger] records[j]).src_port
                != src_port,
    decreases records.len(),
{
    if records.len() > 0 && records[0].src_port != src_port {
        let rest = records.skip(1);
        lemma_first_with_is_first(rest, src_port);
        assert forall|j: int| 0 <= j < first_with(records, src_port) implies (
        #[trigger] records[j]).src_port != src_port by {
            if j > 0 {
                assert(rest[j - 1] == records[j]);
            }
        }
    }
}

/// The events of a port are those of its newest connection. The bytes of its relay count for
/// that connection's address, and for none if no connection of the port is known.
pub proof fn law_bytes_count_for_the_newest_connection(state: DashboardState, port: u16, k: int)
    requires
        0 <= k < state.records@.len(),
    ensures
        state.records@[k].src_port == port && (forall|j: int|
            0 <= j < k ==> (#[trigger] state.records@[j]).src_port != port) ==> state.served_ip(
            port,
        ) == Some(state.records@[k].upstream_ip),
        (forall|j: int|
            0 <= j < state.records@.len() ==> (#[trigger] state.records@[j]).src_port != port)
            ==> state.served_ip(port) is None,
{
    lemma_first_with_is_first(state.records@, port);
    let f = first_with(state.records@, port) as int;
    if state.records@[k].src_port == port && (forall|j: int|
        0 <= j < k ==> (#[trigger] state.records@[j]).src_port != port) {
        if f < k {
            assert(state.records@[f].src_port != port);
        }
    }
}

/// A new connection comes before all others, which stay as they are. Any other event changes
/// the newest connection of its port at most, and no event of the proxy as a whole changes
/// any.
pub proof fn law_event_changes_one_connection(
    records: Seq<ConnectionRecord>,
    e: ProxyEvent,
    now: u64,
    calendar: u64,
    k: int,
)
    ensures
        ({
            let after = records_after(records, e, now, calendar);
            &&& e matches ProxyEvent::ConnectionAccepted { peer, src_port, upstream_ip } ==> {
                &&& after.len() == records.len() + 1
                &&& 0 <= k < records.len() ==> after[k + 1] == records[k]
                &&& after[0].peer == peer
                &&& after[0].src_port == src_port
                &&& after[0].upstream_ip == upstream_ip
                &&& after[0].status == ConnStatus::Connecting
                &&& after[0].started_at == calendar
                &&& after[0].start_instant == now && after[0].status_changed_at == now
                &&& after[0].end_instant is None && after[0].rate is None
                &&& after[0].last_snapshot is None
                &&& after[0].c2s_bytes == 0 && after[0].s2c_bytes == 0
            }
            &&& !(e is ConnectionAccepted) ==> after.len() == records.len()
            &&& e is ListenerStarted || e is IpTargetChanged ==> after == records
            &&& (match e {
                ProxyEvent::BypassComplete { src_port, .. } => Some(src_port),
                ProxyEvent::RelayFinished { src_port, .. } => Some(src_port),
                ProxyEvent::ConnectionError { src_port, .. } => Some(src_port),
                ProxyEvent::RelayProgress { src_port, .. } => Some(src_port),
                _ => None,
            }) matches Some(port) ==> 0 <= k < records.len() ==> {
                let newest = records[k].src_port == port && forall|j: int|
                    0 <= j < k ==> (#[trigger] records[j]).src_port != port;
                &&& newest ==> after[k] == records[k].after(e, now)
                &&& !newest ==> after[k] == records[k]
            }
        }),
{
    if let Some(port) = port_of(e) {
        lemma_first_with_is_first(records, port);
        let f = first_with(records, port) as int;
        if 0 <= k < records.len() {
            if records[k].src_port == port && (forall|j: int|
                0 <= j < k ==> (#[trigger] records[j]).src_port != port) {
                if f < k {
                    assert(records[f].src_port != port);
                }
            }
        }
    }
}

/// What an event does to its connection. A good end of the bypass makes it relay, and a bad
/// one or an error make it fail; a relay that finishes is done, or rotated if its time was
/// up, and leaves its bytes; progress notes the bytes and, from the second time on, the rate
/// since the last time. A connection that is over has an end, and who takes part in it never
/// changes.
pub proof fn law_what_an_event_does_to_a_connection(
    record: ConnectionRecord,
    e: ProxyEvent,
    now: u64,
)
    ensures
        ({
            let after = record.after(e, now);
            let ends = e is RelayFinished || e is ConnectionError || (e is BypassComplete
                && e->BypassComplete_outcome == BypassOutcome::UnexpectedClose);
            let status = match e {
                ProxyEvent::BypassComplete { outcome: BypassOutcome::FakeDataAcked, .. } => {
                    ConnStatus::Relaying
                },
                ProxyEvent::BypassComplete { outcome: BypassOutcome::UnexpectedClose, .. } => {
                    ConnStatus::Failed
                },
                ProxyEvent::ConnectionError { .. } => ConnStatus::Failed,
                ProxyEvent::RelayFinished { reason: RelayEndReason::Completed, .. } => {
                    ConnStatus::Done
                },
                ProxyEvent::RelayFinished { reason: RelayEndReason::MaxLifetime, .. } => {
                    ConnStatus::Rotated
                },
                _ => record.status,
            };
            &&& after.status == status
            &&& after.status_changed_at == (if status == record.status {
                record.status_changed_at
            } else {
                now
            })
            &&& after.end_instant == (if ends {
                Some(now)
            } else {
                record.end_instant
            })
            &&& after.src_port == record.src_port && after.peer == record.peer
            &&& after.upstream_ip == record.upstream_ip
            &&& after.started_at == record.started_at
            &&& after.start_instant == record.start_instant
            &&& match e {
                ProxyEvent::RelayFinished { c2s_bytes, s2c_bytes, .. } => {
                    &&& after.c2s_bytes == c2s_bytes && after.s2c_bytes == s2c_bytes
                    &&& after.rate is None
                    &&& after.last_snapshot == record.last_snapshot
                },
                ProxyEvent::RelayProgress { c2s_bytes, s2c_bytes, .. } => {
                    &&& after.c2s_bytes == c2s_bytes && after.s2c_bytes == s2c_bytes
                    &&& after.last_snapshot == Some(Snapshot { at: now, c2s_bytes, s2c_bytes })
                    &&& record.last_snapshot is None ==> after.rate == record.rate
                    &&& record.last_snapshot matches Some(last) ==> {
                        &&& after.rate matches Some(rate)
                        &&& rate.c2s_bytes == (if c2s_bytes >= last.c2s_bytes {
                            c2s_bytes - last.c2s_bytes
                        } else {
                            0
                        })
                        &&& rate.s2c_bytes == (if s2c_bytes >= last.s2c_bytes {
                            s2c_bytes - last.s2c_bytes
                        } else {
                            0
                        })
                        &&& rate.nanos >= 1_000_000 && rate.nanos >= now - last.at
                        &&& rate.nanos == 1_000_000 || rate.nanos == now - last.at
                    }
                },
                _ => {
                    &&& after.c2s_bytes == record.c2s_bytes
                    &&& after.s2c_bytes == record.s2c_bytes
                    &&& after.rate == record.rate
                    &&& after.last_snapshot == record.last_snapshot
                },
            }
        }),
{
}

/// Pruning drops no more than it has to: a view that was too large is left as large as is
/// allowed, if it holds that many connections at all. A connection is active while it
/// connects or relays.
pub proof fn law_pruning_drops_no_more_than_needed(
    records: Seq<ConnectionRecord>,
    record: ConnectionRecord,
)
    ensures
        records.len() >= 200 ==> pruned(records).len() >= 200,
        pruned(records).len() > 200 ==> forall|k: int|
            0 <= k < pruned(records).len() ==> {
                let status = (#[trigger] pruned(records)[k]).status;
                status == ConnStatus::Connecting || status == ConnStatus::Relaying
            },
        record.active() <==> record.status == ConnStatus::Connecting || record.status
            == ConnStatus::Relaying,
    decreases records.len(),
{
    lemma_last_inactive(records);
    if records.len() > MAX_RECORDS && 0 <= last_inactive(records) < records.len() {
        law_pruning_drops_no_more_than_needed(records.remove(last_inactive(records)), record);
    }
}

/// Where a connection stands in the view: a relaying one is in the first group, one whose
/// status changed less than four seconds ago in the second, and any other in the third.
pub proof fn law_groups_of_the_view(record: ConnectionRecord, now: u64)
    ensures
        display_rank(record, now) == 0 <==> record.status == ConnStatus::Relaying,
        display_rank(record, now) == 1 <==> record.status != ConnStatus::Relaying && now
            - record.status_changed_at < 4_000_000_000,
        display_rank(record, now) <= 2,
{
}

/// What the filters let through: all connections, those that connect or relay, those whose
/// relay came to an end, and those that failed. With a pool only its addresses are shown.
pub proof fn law_what_is_shown(filter: FilterStatus, pool: Seq<IpAddr>, record: ConnectionRecord)
    ensures
        is_shown(filter, pool, record) <==> {
            &&& match record.status {
                ConnStatus::Connecting => filter == FilterStatus::All || filter
                    == FilterStatus::Active,
                ConnStatus::Relaying => filter == FilterStatus::All || filter
                    == FilterStatus::Active,
                ConnStatus::Done => filter == FilterStatus::All || filter == FilterStatus::Done,
                ConnStatus::Rotated => filter == FilterStatus::All || filter == FilterStatus::Done,
                ConnStatus::Failed => filter == FilterStatus::All || filter
                    == FilterStatus::Failed,
            }
            &&& pool.len() == 0 || pool.contains(record.upstream_ip)
        },
        filter.follower() == (match filter {
            FilterStatus::All => FilterStatus::Active,
            FilterStatus::Active => FilterStatus::Done,
            FilterStatus::Done => FilterStatus::Failed,
            FilterStatus::Failed => FilterStatus::All,
        }),
{
}

/// In each group the connections that are shown keep the order in which they are kept, the
/// newest first.
pub proof fn law_groups_keep_their_order(state: DashboardState, now: u64, rank: u8)
    requires
        rank <= 2,
    ensures
        state.ordered(now).filter(|r: ConnectionRecord| display_rank(r, now) == rank)
            == state.records@.filter(
            |r: ConnectionRecord|
                is_shown(state.filter, state.pool_ips@, r) && display_rank(r, now) == rank,
        ),
{
    let p0 = shown_at(state.filter, state.pool_ips@, 0, now);
    let p1 = shown_at(state.filter, state.pool_ips@, 1, now);
    let p2 = shown_at(state.filter, state.pool_ips@, 2, now);
    let a = state.records@.filter(p0);
    let b = state.records@.filter(p1);
    let c = state.records@.filter(p2);
    let of_rank = |r: ConnectionRecord| display_rank(r, now) == rank;
    let wanted = |r: ConnectionRecord|
        is_shown(state.filter, state.pool_ips@, r) && display_rank(r, now) == rank;
    Seq::filter_distributes_over_add(a + b, c, of_rank);
    Seq::filter_distributes_over_add(a, b, of_rank);
    lemma_group(state.records@, p0, of_rank, rank == 0);
    lemma_group(state.records@, p1, of_rank, rank == 1);
    lemma_group(state.records@, p2, of_rank, rank == 2);
    let whole = if rank == 0 {
        p0
    } else if rank == 1 {
        p1
    } else {
        p2
    };
    assert(wanted =~= whole);
    assert(state.ordered(now).filter(of_rank) =~= state.records@.filter(whole));
}

proof fn lemma_group(
    records: Seq<ConnectionRecord>,
    group: spec_fn(ConnectionRecord) -> bool,
    pred: spec_fn(ConnectionRecord) -> bool,
    all: bool,
)
    requires
        forall|r: ConnectionRecord| #[trigger] group(r) ==> pred(r) == all,
    ensures
        records.filter(group).filter(pred) == (if all {
            records.filter(group)
        } else {
            Seq::<ConnectionRecord>::empty()
        }),
{
    let g = records.filter(group);
    assert forall|k: int| 0 <= k < g.len() implies pred(#[trigger] g[k]) == all by {
        records.lemma_filter_pred(group, k);
    }
    lemma_filter_all_or_none(g, pred, all);
}

proof fn lemma_filter_all_or_none(
    s: Seq<ConnectionRecord>,
    pred: spec_fn(ConnectionRecord) -> bool,
    all: bool,
)
    requires
        forall|k: int| 0 <= k < s.len() ==> pred(#[trigger] s[k]) == all,
    ensures
        s.filter(pred) == (if all {
            s
        } else {
            Seq::<ConnectionRecord>::empty()
        }),
    decreases s.len(),
{
    reveal(Seq::filter);
    if s.len() > 0 {
        let rest = s.drop_last();
        assert forall|k: int| 0 <= k < rest.len() implies pred(#[trigger] rest[k]) == all by {
            assert(rest[k] == s[k]);
        }
        lemma_filter_all_or_none(rest, pred, all);
        assert(pred(s[s.len() - 1]) == all);
        assert(rest.push(s.last()) =~= s);
    }
}

/// The live totals count a connection with what it has carried as long as it has no end.
pub proof fn law_live_connections_count(records: Seq<ConnectionRecord>, record: ConnectionRecord)
    ensures
        live_sum(Seq::empty(), true) == 0,
        live_sum(Seq::empty(), false) == 0,
        record.end_instant is None ==> live_sum(records.push(record), true) == live_sum(
            records,
            true,
        ) + record.c2s_bytes,
        record.end_instant is None ==> live_sum(records.push(record), false) == live_sum(
            records,
            false,
        ) + record.s2c_bytes,
        record.end_instant is Some ==> live_sum(records.push(record), true) == live_sum(
            records,
            true,
        ) && live_sum(records.push(record), false) == live_sum(records, false),
{
    assert(records.push(record).drop_last() =~= records);
}

/// The keys of the view. `q`, `Q`, escape and control-c leave it. Space and `a` turn
/// following on or off. Up and down move by one row and the page keys by as many as are
/// visible, home goes to the first and end to the last; none goes past the ends. All of them
/// but home stop the following.
pub proof fn law_keys_of_the_view(key: Key, offset: usize, shown: nat, visible: usize)
    requires
        offset < shown,
    ensures
        quits(key) <==> key == Key::Esc || key == Key::Char('q') || key == Key::Char('Q') || key
            == Key::Control('q') || key == Key::Control('Q') || key == Key::Control('c'),
        toggles(key) <==> key == Key::Char(' ') || key == Key::Control(' ') || key == Key::Char(
            'a',
        ) || key == Key::Control('a'),
        pauses(key) <==> key == Key::Up || key == Key::Down || key == Key::Char('k') || key
            == Key::Control('k') || key == Key::Char('j') || key == Key::Control('j') || key
            == Key::PageUp || key == Key::PageDown || key == Key::End,
        key == Key::Up || key == Key::Char('k') || key == Key::Control('k') ==> scrolled(
            key,
            offset,
            shown,
            visible,
        ) == (if offset == 0 {
            0
        } else {
            offset - 1
        }),
        key == Key::Down || key == Key::Char('j') || key == Key::Control('j') ==> scrolled(
            key,
            offset,
            shown,
            visible,
        ) == (if offset == shown - 1 {
            offset as int
        } else {
            offset + 1
        }),
        scrolled(Key::PageUp, offset, shown, visible) == (if offset <= visible {
            0
        } else {
            offset - visible
        }),
        scrolled(Key::PageDown, offset, shown, visible) == (if offset + visible >= shown {
            shown - 1
        } else {
            offset + visible
        }),
        scrolled(Key::Home, offset, shown, visible) == 0,
        scrolled(Key::End, offset, shown, visible) == shown - 1,
        !pauses(key) && key != Key::Home ==> scrolled(key, offset, shown, visible) == offset,
{
}

/// The direction of a connection, which only a relaying one has, is made of the two ways in
/// which it carries data.
pub proof fn law_direction_of_traffic(status: ConnStatus, uploads: bool, downloads: bool)
    ensures
        direction_of(status, uploads, downloads) is None <==> status != ConnStatus::Relaying,
        status == ConnStatus::Relaying ==> {
            let direction = direction_of(status, uploads, downloads)->0;
            &&& uploads <==> direction == TrafficDirection::Upload || direction
                == TrafficDirection::Bidirectional
            &&& downloads <==> direction == TrafficDirection::Download || direction
                == TrafficDirection::Bidirectional
        },
{
}

/// The row of an address shows what was counted for that address.
pub proof fn law_row_of_an_address(state: DashboardState, ip: IpAddr, score: u8)
    ensures
        ({
            let row = state.row(ip, score);
            &&& row.ip == ip && row.score == score
            &&& row.connections == state.cumulative_conns.amount(ip)
            &&& row.up_bytes == state.cumulative_up.amount(ip)
            &&& row.down_bytes == state.cumulative_down.amount(ip)
            &&& row.current <==> state.active_ip == Some(ip)
        }),
{
}

/// Below the head of the view fourteen lines are taken, and at least one row is left; on a
/// screen of unknown height there are ten.
pub proof fn law_rows_on_the_screen(height: u16)
    ensures
        rows_on(None) == 10,
        height <= 15 ==> rows_on(Some(height)) == 1,
        height > 15 ==> rows_on(Some(height)) + 14 == height,
{
}

/// The bytes of a finished relay are added to what its address carried, each direction to
/// its own amount. No other event changes these, and the amounts of other addresses stay.
pub proof fn law_bytes_by_address(
    before: DashboardState,
    e: ProxyEvent,
    after: DashboardState,
    ip: IpAddr,
)
    requires
        before.tallied(e, &after),
    ensures
        e matches ProxyEvent::RelayFinished { src_port, c2s_bytes, s2c_bytes, .. } ==> {
            if before.served_ip(src_port) == Some(ip) {
                &&& after.cumulative_up.amount(ip) == before.cumulative_up.amount(ip) + c2s_bytes
                &&& after.cumulative_down.amount(ip) == before.cumulative_down.amount(ip)
                    + s2c_bytes
            } else {
                &&& after.cumulative_up.amount(ip) == before.cumulative_up.amount(ip)
                &&& after.cumulative_down.amount(ip) == before.cumulative_down.amount(ip)
            }
        },
        !(e is RelayFinished) ==> {
            &&& after.cumulative_up.amount(ip) == before.cumulative_up.amount(ip)
            &&& after.cumulative_down.amount(ip) == before.cumulative_down.amount(ip)
        },
{
}

/// An event is refused only where a counter would leave its range: counters that have room
/// for one more, and totals that have room for the bytes, take every event.
pub proof fn law_events_are_taken_while_there_is_room(state: DashboardState, e: ProxyEvent)
    requires
        state.total < u64::MAX,
        state.bypasses_ok < u64::MAX,
        state.bypasses_failed < u64::MAX,
        e matches ProxyEvent::RelayFinished { c2s_bytes, s2c_bytes, .. } ==> {
            &&& state.total_c2s + c2s_bytes <= u64::MAX
            &&& state.total_s2c + s2c_bytes <= u64::MAX
            &&& forall|ip: IpAddr| #[trigger]
                state.cumulative_up.amount(ip) + c2s_bytes <= u64::MAX
            &&& forall|ip: IpAddr| #[trigger]
                state.cumulative_down.amount(ip) + s2c_bytes <= u64::MAX
        },
        forall|ip: IpAddr| #[trigger] state.cumulative_conns.amount(ip) < u64::MAX,
    ensures
        state.has_room_for(e),
{
}

/// An event of the proxy changes neither where the view stands nor what it is set to.
pub proof fn law_events_leave_the_settings(before: DashboardState, after: DashboardState)
    requires
        before.same_settings(&after),
    ensures
        after.scroll_offset == before.scroll_offset,
        after.auto_scroll == before.auto_scroll,
        after.filter == before.filter,
        after.pool_ips@ == before.pool_ips@,
        after.start == before.start,
        after.channel_closed == before.channel_closed,
{
}

/// A moment that has not come yet is no time ago, and a sum that does not fit stays at the
/// greatest number.
pub proof fn law_times_and_sums_stay_in_range(now: u64, earlier: u64, n: nat)
    ensures
        earlier <= now ==> since(now, earlier) == now - earlier,
        earlier > now ==> since(now, earlier) == 0,
        n <= u64::MAX ==> saturated(n as int) == n,
        n > u64::MAX ==> saturated(n as int) == u64::MAX,
{
}

/// The connections that the view scrolls over are those whose status the filter lets
/// through.
pub proof fn law_filter_counts(state: DashboardState, k: int)
    requires
        0 <= k < state.records@.len(),
    ensures
        state.filtered().contains(state.records@[k]) <==> state.filter.lets(
            state.records@[k].status,
        ),
        state.filtered().len() <= state.records@.len(),
        state.filter == FilterStatus::All ==> state.filtered() == state.records@,
{
    let pred = |r: ConnectionRecord| state.filter.lets(r.status);
    let record = state.records@[k];
    state.records@.lemma_filter_len(pred);
    if state.filter.lets(record.status) {
        state.records@.lemma_filter_contains(pred, k);
    }
    if state.filtered().contains(record) {
        let m = choose|m: int| 0 <= m < state.filtered().len() && state.filtered()[m] == record;
        state.records@.lemma_filter_pred(pred, m);
    }
    if state.filter == FilterStatus::All {
        lemma_filter_all_or_none(state.records@, pred, true);
    }
}

} // verus!
