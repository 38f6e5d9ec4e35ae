//! The results of a scan: which addresses are healthy, how they are ranked, and how they
//! are shown.

use crate::addr::IpAddr;
use crate::config::Binary64;
use crate::menu::{cancels, Key};
use crate::text::{copy_text, decimal, decimal_text, push_decimal};
use vstd::prelude::*;
use vstd::string::*;

verus! {

/// What the probe of an address found.
#[derive(Debug, Clone, Copy, PartialEq, Eq, Structural)]
pub struct IpProbeEntry {
    pub ip: IpAddr,
    pub tcp_latency_ms: Option<u64>,
    pub tls_ok: bool,
    pub tls_latency_ms: Option<u64>,
    pub cert_valid: bool,
    pub ttfb_ms: Option<u64>,
    pub download_bps: Option<Binary64>,
    pub upload_bps: Option<Binary64>,
    pub http_status: Option<u16>,
    pub score: u8,
}

impl IpProbeEntry {
    /// Every phase of the probe came to a good end.
    pub open spec fn healthy(self) -> bool {
        &&& self.tcp_latency_ms is Some
        &&& self.tls_ok
        &&& self.cert_valid
        &&& self.ttfb_ms is Some
        &&& self.download_bps is Some
        &&& self.upload_bps is Some
    }

    pub fn is_healthy(&self) -> (r: bool)
        ensures
            r == self.healthy(),
    {
        self.tcp_latency_ms.is_some() && self.tls_ok && self.cert_valid && self.ttfb_ms.is_some()
            && self.download_bps.is_some() && self.upload_bps.is_some()
    }

    /// The latency by which addresses of one score are ranked; it is the greatest number
    /// if there is none.
    pub open spec fn latency(self) -> u64 {
        match self.tcp_latency_ms {
            Some(ms) => ms,
            None => u64::MAX,
        }
    }

    /// The address ranks before the other one: by its score, and by its latency if the
    /// scores are equal.
    pub open spec fn before(self, other: IpProbeEntry) -> bool {
        self.score > other.score || (self.score == other.score && self.latency()
            < other.latency())
    }

    fn ranks_before(&self, other: &IpProbeEntry) -> (r: bool)
        ensures
            r == self.before(*other),
    {
        let mine: u64 = match self.tcp_latency_ms {
            Some(ms) => ms,
            None => u64::MAX,
        };
        let its: u64 = match other.tcp_latency_ms {
            Some(ms) => ms,
            None => u64::MAX,
        };
        self.score > other.score || (self.score == other.score && mine < its)
    }
}

/// How many of the addresses are healthy.
pub open spec fn healthy_count(entries: Seq<IpProbeEntry>) -> nat {
    entries.filter(|e: IpProbeEntry| e.healthy()).len()
}

/// Whether a scan has found as many healthy addresses as it is to find; with a limit of
/// zero it never has.
pub fn found_enough(entries: &[IpProbeEntry], max_ip_scan: usize) -> (r: bool)
    ensures
        r == (max_ip_scan > 0 && healthy_count(entries@) >= max_ip_scan),
{
    let ghost healthy = |e: IpProbeEntry| e.healthy();
    let mut found: usize = 0;
    let mut i: usize = 0;
    while i < entries.len()
        invariant
            i <= entries@.len(),
            found <= i,
            healthy == |e: IpProbeEntry| e.healthy(),
            found == entries@.take(i as int).filter(healthy).len(),
        decreases entries@.len() - i,
    {
        proof {
            reveal(Seq::filter);
            assert(entries@.take(i + 1).drop_last() =~= entries@.take(i as int));
        }
        if entries[i].is_healthy() {
            found = found + 1;
        }
        i = i + 1;
    }
    assert(entries@.take(i as int) =~= entries@);
    max_ip_scan > 0 && found >= max_ip_scan
}

/// The addresses of one score and latency.
pub open spec fn ranked_alike(score: u8, latency: u64) -> spec_fn(IpProbeEntry) -> bool {
    |e: IpProbeEntry| e.score == score && e.latency() == latency
}

/// No address stands before one that ranks before it.
pub open spec fn in_rank_order(entries: Seq<IpProbeEntry>) -> bool {
    forall|i: int, j: int|
        0 <= i < j < entries.len() ==> !(#[trigger] entries[j]).before(#[trigger] entries[i])
}

/// Addresses that rank alike stand in the same order in both lists, and both hold the same
/// of them.
pub open spec fn same_among_equals(a: Seq<IpProbeEntry>, b: Seq<IpProbeEntry>) -> bool {
    forall|score: u8, latency: u64|
        a.filter(#[trigger] ranked_alike(score, latency)) == b.filter(ranked_alike(score, latency))
}

/// What is left of a single value.
pub proof fn lemma_filter_one<A>(x: A, pred: spec_fn(A) -> bool)
    ensures
        seq![x].filter(pred) == (if pred(x) {
            seq![x]
        } else {
            Seq::<A>::empty()
        }),
{
    reveal_with_fuel(Seq::filter, 2);
    assert(seq![x].drop_last() =~= Seq::<A>::empty());
    assert(Seq::<A>::empty().filter(pred) =~= Seq::<A>::empty());
    assert(seq![x].filter(pred) =~= (if pred(x) {
        seq![x]
    } else {
        Seq::<A>::empty()
    }));
}

/// The addresses by their rank; those that rank alike keep their order.
pub fn rank(entries: Vec<IpProbeEntry>) -> (r: Vec<IpProbeEntry>)
    ensures
        r@.len() == entries@.len(),
        in_rank_order(r@),
        same_among_equals(r@, entries@),
{
    let mut sorted: Vec<IpProbeEntry> = Vec::new();
    let mut i: usize = 0;
    assert(entries@.take(0) =~= sorted@);
    while i < entries.len()
        invariant
            i <= entries@.len(),
            sorted@.len() == i,
            in_rank_order(sorted@),
            same_among_equals(sorted@, entries@.take(i as int)),
        decreases entries@.len() - i,
    {
        let x = entries[i];
        let mut place: usize = i;
        while place > 0 && x.ranks_before(&sorted[place - 1])
            invariant
                place <= sorted@.len(),
                forall|k: int| place <= k < sorted@.len() ==> x.before(#[trigger] sorted@[k]),
            decreases place,
        {
            place = place - 1;
        }
        let ghost before = sorted@;
        sorted.insert(place, x);
        proof {
            let head = before.take(place as int);
            let tail = before.skip(place as int);
            assert(before =~= head + tail);
            assert(sorted@ =~= head + seq![x] + tail);
            assert(entries@.take(i + 1) =~= entries@.take(i as int) + seq![x]);
            assert forall|score: u8, latency: u64|
                sorted@.filter(#[trigger] ranked_alike(score, latency)) == entries@.take(
                    i + 1,
                ).filter(ranked_alike(score, latency)) by {
                let pred = ranked_alike(score, latency);
                Seq::filter_distributes_over_add(head + seq![x], tail, pred);
                Seq::filter_distributes_over_add(head, seq![x], pred);
                Seq::filter_distributes_over_add(head, tail, pred);
                Seq::filter_distributes_over_add(entries@.take(i as int), seq![x], pred);
                lemma_filter_one(x, pred);
                assert(before.filter(pred) == entries@.take(i as int).filter(pred));
                if pred(x) {
                    assert(tail.all(|e: IpProbeEntry| !pred(e))) by {
                        assert forall|k: int| 0 <= k < tail.len() implies !pred(
                            #[trigger] tail[k],
                        ) by {
                            assert(x.before(before[place + k]));
                        }
                    }
                    tail.lemma_all_neg_filter_empty(pred);
                    assert(tail.filter(pred) =~= Seq::<IpProbeEntry>::empty());
                }
                assert(sorted@.filter(pred) =~= entries@.take(i + 1).filter(pred));
            }
            assert forall|a: int, b: int| 0 <= a < b < sorted@.len() implies !(
            #[trigger] sorted@[b]).before(#[trigger] sorted@[a]) by {
                if b == place && place > 0 {
                    assert(!x.before(before[place - 1]));
                    if a < place - 1 {
                        assert(!before[place - 1].before(before[a]));
                    }
                }
            }
        }
        i = i + 1;
    }
    assert(entries@.take(i as int) =~= entries@);
    sorted
}

/// A ranked list holds exactly the addresses of the list.
pub proof fn law_ranking_loses_nothing(ranked: Seq<IpProbeEntry>, entries: Seq<IpProbeEntry>)
    requires
        same_among_equals(ranked, entries),
    ensures
        forall|e: IpProbeEntry| #[trigger] ranked.contains(e) <==> entries.contains(e),
{
    assert forall|e: IpProbeEntry| #[trigger] ranked.contains(e) <==> entries.contains(e) by {
        let pred = ranked_alike(e.score, e.latency());
        assert(ranked.filter(pred) == entries.filter(pred));
        if ranked.contains(e) {
            let k = choose|k: int| 0 <= k < ranked.len() && ranked[k] == e;
            ranked.lemma_filter_contains(pred, k);
            entries.lemma_filter_contains_rev(pred, e);
        }
        if entries.contains(e) {
            let k = choose|k: int| 0 <= k < entries.len() && entries[k] == e;
            entries.lemma_filter_contains(pred, k);
            ranked.lemma_filter_contains_rev(pred, e);
        }
    }
}

/// The first of a ranked list is the best: none has a higher score, and none of its score
/// a lower latency.
pub proof fn law_best_comes_first(ranked: Seq<IpProbeEntry>)
    requires
        ranked.len() > 0,
        in_rank_order(ranked),
    ensures
        forall|k: int|
            0 <= k < ranked.len() ==> {
                &&& (#[trigger] ranked[k]).score <= ranked[0].score
                &&& ranked[k].score == ranked[0].score ==> ranked[0].latency()
                    <= ranked[k].latency()
            },
{
    assert forall|k: int| 0 <= k < ranked.len() implies {
        &&& (#[trigger] ranked[k]).score <= ranked[0].score
        &&& ranked[k].score == ranked[0].score ==> ranked[0].latency() <= ranked[k].latency()
    } by {
        if k > 0 {
            assert(!ranked[k].before(ranked[0]));
        }
    }
}

/// In a ranked list no score is followed by a higher one. Of two addresses of one score the
/// one with the lower TCP latency stands first, and one that has none never stands before
/// one that has any below the greatest number.
pub proof fn law_ties_go_by_tcp_latency(ranked: Seq<IpProbeEntry>, i: int, j: int)
    requires
        in_rank_order(ranked),
        0 <= i < j < ranked.len(),
    ensures
        ranked[i].score >= ranked[j].score,
        ranked[i].score == ranked[j].score ==> match (
            ranked[i].tcp_latency_ms,
            ranked[j].tcp_latency_ms,
        ) {
            (Some(a), Some(b)) => a <= b,
            (None, Some(b)) => b == u64::MAX,
            (_, None) => true,
        },
{
    assert(!ranked[j].before(ranked[i]));
}

/// An address ranks before another one exactly if its score is higher, or is the same with
/// a lower TCP latency, where having none is the worst.
pub proof fn law_rank_of_two(a: IpProbeEntry, b: IpProbeEntry)
    ensures
        a.before(b) <==> a.score > b.score || a.score == b.score && match (
            a.tcp_latency_ms,
            b.tcp_latency_ms,
        ) {
            (Some(x), Some(y)) => x < y,
            (Some(x), None) => x < u64::MAX,
            (None, _) => false,
        },
        !(a.before(b) && b.before(a)),
{
}

proof fn lemma_filter_of_filter<A>(s: Seq<A>, narrow: spec_fn(A) -> bool, wide: spec_fn(A) -> bool)
    requires
        forall|x: A| narrow(x) ==> #[trigger] wide(x),
    ensures
        s.filter(wide).filter(narrow) == s.filter(narrow),
    decreases s.len(),
{
    reveal(Seq::filter);
    if s.len() > 0 {
        let rest = s.drop_last();
        lemma_filter_of_filter(rest, narrow, wide);
        let one = seq![s.last()];
        assert(s =~= rest + one);
        Seq::filter_distributes_over_add(rest, one, wide);
        Seq::filter_distributes_over_add(rest, one, narrow);
        lemma_filter_one(s.last(), wide);
        lemma_filter_one(s.last(), narrow);
        Seq::filter_distributes_over_add(rest.filter(wide), one.filter(wide), narrow);
        assert(Seq::<A>::empty().filter(narrow) =~= Seq::<A>::empty());
    }
}

/// Ranking only moves addresses: each one is in the ranked list as often as in the list,
/// and those of one score and one TCP latency keep their order.
pub proof fn law_ranking_is_stable(
    ranked: Seq<IpProbeEntry>,
    entries: Seq<IpProbeEntry>,
    e: IpProbeEntry,
)
    requires
        same_among_equals(ranked, entries),
    ensures
        ranked.filter(|x: IpProbeEntry| x == e).len() == entries.filter(
            |x: IpProbeEntry| x == e,
        ).len(),
        ranked.filter(
            |x: IpProbeEntry| x.score == e.score && x.tcp_latency_ms == e.tcp_latency_ms,
        ) == entries.filter(
            |x: IpProbeEntry| x.score == e.score && x.tcp_latency_ms == e.tcp_latency_ms,
        ),
{
    let alike = ranked_alike(e.score, e.latency());
    assert(ranked.filter(alike) == entries.filter(alike));
    let same = |x: IpProbeEntry| x == e;
    let tied = |x: IpProbeEntry| x.score == e.score && x.tcp_latency_ms == e.tcp_latency_ms;
    lemma_filter_of_filter(ranked, same, alike);
    lemma_filter_of_filter(entries, same, alike);
    lemma_filter_of_filter(ranked, tied, alike);
    lemma_filter_of_filter(entries, tied, alike);
}

/// A scan counts an address as healthy exactly if it connected, spoke TLS with a valid
/// certificate, answered, and carried data both ways; each such address counts once.
pub proof fn law_healthy_addresses_count(entries: Seq<IpProbeEntry>, e: IpProbeEntry)
    ensures
        healthy_count(Seq::empty()) == 0,
        healthy_count(entries.push(e)) == healthy_count(entries) + (if e.tcp_latency_ms is Some
            && e.tls_ok && e.cert_valid && e.ttfb_ms is Some && e.download_bps is Some
            && e.upload_bps is Some {
            1nat
        } else {
            0
        }),
{
    reveal(Seq::filter);
    assert(entries.push(e).drop_last() =~= entries);
}

/// What a scan tells of its work.
#[derive(Debug, Clone, Copy, PartialEq, Eq, Structural)]
pub enum IpScanEvent {
    TcpDone { tcp_tested: usize },
    ProbeComplete(IpProbeEntry),
}

/// What is shown of a scan while it runs.
#[derive(Debug)]
pub struct ScanView {
    pub arrived: Vec<IpProbeEntry>,
    pub tcp_done: usize,
}

impl ScanView {
    pub fn new() -> (r: ScanView)
        ensures
            r.arrived@ == Seq::<IpProbeEntry>::empty(),
            r.tcp_done == 0,
    {
        ScanView { arrived: Vec::new(), tcp_done: 0 }
    }

    pub fn on_event(&mut self, e: IpScanEvent)
        ensures
            match e {
                IpScanEvent::TcpDone { tcp_tested } => {
                    &&& final(self).arrived@ == old(self).arrived@
                    &&& final(self).tcp_done == tcp_tested
                },
                IpScanEvent::ProbeComplete(entry) => {
                    &&& final(self).arrived@ == old(self).arrived@.push(entry)
                    &&& final(self).tcp_done == old(self).tcp_done
                },
            },
    {
        match e {
            IpScanEvent::TcpDone { tcp_tested } => {
                self.tcp_done = tcp_tested;
            },
            IpScanEvent::ProbeComplete(entry) => {
                self.arrived.push(entry);
            },
        }
    }

    /// Whether the key ends the scan.
    pub fn aborts(&self, key: Key) -> (r: bool)
        ensures
            r == cancels(key),
    {
        key.is_cancel()
    }

    /// How far the scan has come.
    pub fn label(&self, total_ips: usize) -> (r: String)
        ensures
            r@ == decimal(self.tcp_done as nat) + "/"@ + decimal(total_ips as nat)
                + " TCP tested — "@ + decimal(self.arrived@.len()) + " TLS probed"@,
    {
        let mut s = decimal_text(self.tcp_done as u64);
        s.append("/");
        push_decimal(&mut s, total_ips as u64);
        s.append(" TCP tested — ");
        push_decimal(&mut s, self.arrived.len() as u64);
        s.append(" TLS probed");
        s
    }
}

/// The results with which a scan ends: those of the scanner if it has come to its end,
/// and else what has arrived, by rank.
pub fn scan_results(finished: Option<Vec<IpProbeEntry>>, view: ScanView) -> (r: Vec<
    IpProbeEntry,
>)
    ensures
        match finished {
            Some(entries) => r@ == entries@,
            None => {
                &&& r@.len() == view.arrived@.len()
                &&& in_rank_order(r@)
                &&& same_among_equals(r@, view.arrived@)
            },
        },
{
    match finished {
        Some(entries) => entries,
        None => rank(view.arrived),
    }
}

/// The colours of the tables.
#[derive(Debug, Clone, Copy, PartialEq, Eq, Structural)]
pub enum Color {
    Green,
    Yellow,
    Red,
    Gray,
    Cyan,
    Magenta,
}

/// From this latency on an address is no longer fast.
pub const TCP_LOW_MS: u64 = 100;

/// Above this latency an address is slow.
pub const TCP_HIGH_MS: u64 = 300;

pub fn score_style(score: u8) -> (r: Color)
    ensures
        score >= 60 ==> r == Color::Green,
        30 <= score < 60 ==> r == Color::Yellow,
        score < 30 ==> r == Color::Red,
{
    if score >= 60 {
        Color::Green
    } else if score >= 30 {
        Color::Yellow
    } else {
        Color::Red
    }
}

pub fn tls_style(tls_ok: bool) -> (r: Color)
    ensures
        r == (if tls_ok {
            Color::Green
        } else {
            Color::Red
        }),
{
    if tls_ok {
        Color::Green
    } else {
        Color::Red
    }
}

pub fn tcp_style(latency_ms: Option<u64>) -> (r: Color)
    ensures
        match latency_ms {
            Some(ms) => {
                &&& ms < TCP_LOW_MS ==> r == Color::Green
                &&& TCP_LOW_MS <= ms <= TCP_HIGH_MS ==> r == Color::Yellow
                &&& ms > TCP_HIGH_MS ==> r == Color::Red
            },
            None => r == Color::Red,
        },
{
    match latency_ms {
        Some(ms) => if ms < TCP_LOW_MS {
            Color::Green
        } else if ms <= TCP_HIGH_MS {
            Color::Yellow
        } else {
            Color::Red
        },
        None => Color::Red,
    }
}

pub fn http_style(status: Option<u16>) -> (r: Color)
    ensures
        match status {
            Some(s) => {
                &&& 200 <= s < 300 ==> r == Color::Green
                &&& 300 <= s < 400 ==> r == Color::Yellow
                &&& s < 200 || s >= 400 ==> r == Color::Red
            },
            None => r == Color::Gray,
        },
{
    match status {
        Some(s) => if 200 <= s && s < 300 {
            Color::Green
        } else if 300 <= s && s < 400 {
            Color::Yellow
        } else {
            Color::Red
        },
        None => Color::Gray,
    }
}

pub fn cert_style(valid: bool) -> (r: Color)
    ensures
        r == (if valid {
            Color::Green
        } else {
            Color::Red
        }),
{
    if valid {
        Color::Green
    } else {
        Color::Red
    }
}

fn millis_or(ms: Option<u64>, other: &str) -> (r: String)
    ensures
        r@ == (match ms {
            Some(ms) => decimal(ms as nat) + "ms"@,
            None => other@,
        }),
{
    match ms {
        Some(ms) => decimal_text(ms).concat("ms"),
        None => copy_text(other),
    }
}

/// The texts of an address in the tables.
#[derive(Debug)]
pub struct ProbeCells {
    pub score: String,
    pub tcp: String,
    pub tls: String,
    pub cert: String,
    pub ttfb: String,
    pub http: String,
}

/// The texts of an address in the tables.
pub fn probe_cells(e: &IpProbeEntry) -> (r: ProbeCells)
    ensures
        r.score@ == decimal(e.score as nat),
        r.tcp@ == (match e.tcp_latency_ms {
            Some(ms) => decimal(ms as nat) + "ms"@,
            None => "fail"@,
        }),
        r.tls@ == (if !e.tls_ok {
            "✗"@
        } else {
            match e.tls_latency_ms {
                Some(ms) => "✓ "@ + decimal(ms as nat) + "ms"@,
                None => "✓"@,
            }
        }),
        r.cert@ == (if e.cert_valid {
            "✓"@
        } else {
            "✗"@
        }),
        r.ttfb@ == (match e.ttfb_ms {
            Some(ms) => decimal(ms as nat) + "ms"@,
            None => "—"@,
        }),
        r.http@ == (match e.http_status {
            Some(s) => decimal(s as nat),
            None => "—"@,
        }),
{
    let tls = if e.tls_ok {
        match e.tls_latency_ms {
            Some(ms) => {
                let mut s = copy_text("✓ ");
                push_decimal(&mut s, ms);
                s.append("ms");
                s
            },
            None => copy_text("✓"),
        }
    } else {
        copy_text("✗")
    };
    let cert = if e.cert_valid {
        copy_text("✓")
    } else {
        copy_text("✗")
    };
    let http = match e.http_status {
        Some(s) => decimal_text(s as u64),
        None => copy_text("—"),
    };
    ProbeCells {
        score: decimal_text(e.score as u64),
        tcp: millis_or(e.tcp_latency_ms, "fail"),
        tls,
        cert,
        ttfb: millis_or(e.ttfb_ms, "—"),
        http,
    }
}

} // verus!
