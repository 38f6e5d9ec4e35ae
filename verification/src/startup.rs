//! The way from the configuration to a running proxy: which addresses are scanned, which
//! of them are used, and what the packet interceptor is to filter.

use crate::addr::{ip_value, net_value, parse_ip, parse_net, IpAddr, IpNet, Ipv4Addr};
use crate::config::{Config, LinuxFirewallBackend};
use crate::methods::{build_method, TlsRecordFrag};
use crate::proxy::{IpPoolEntry, CONNECT_PORT};
use crate::scan::{in_rank_order, law_best_comes_first, IpProbeEntry};
use crate::text::{chars_of, copy_text, same_text, text_of, trim, trimmed};
use vstd::prelude::*;
use vstd::string::*;

verus! {

/// Whether the configured method works on intercepted packets.
pub fn requires_packet_interception(cfg: &Config) -> (r: bool)
    ensures
        r == (cfg.MODE@ == "ip_bypass_plus"@ && cfg.BYPASS_METHOD@ != "tls_frag"@),
{
    same_text(cfg.MODE.as_str(), "ip_bypass_plus") && !same_text(
        cfg.BYPASS_METHOD.as_str(),
        "tls_frag",
    )
}

/// What is said when packets cannot be intercepted.
pub open spec fn root_message(cfg: Config) -> Seq<char> {
    "MODE = \""@ + cfg.MODE@ + "\" with BYPASS_METHOD = \""@ + cfg.BYPASS_METHOD@
        + "\" requires packet interception; on Android the app must start via su/root. Rootless alternative: BYPASS_METHOD = \"tls_frag\"."@
}

/// What is said when packets cannot be intercepted.
pub fn root_required_message(cfg: &Config) -> (r: String)
    ensures
        r@ == root_message(*cfg),
{
    copy_text("MODE = \"").concat(cfg.MODE.as_str()).concat("\" with BYPASS_METHOD = \"").concat(
        cfg.BYPASS_METHOD.as_str(),
    ).concat(
        "\" requires packet interception; on Android the app must start via su/root. Rootless alternative: BYPASS_METHOD = \"tls_frag\".",
    )
}

/// What works without packet interception.
pub fn rootless_alternatives() -> (r: Vec<String>)
    ensures
        r@.len() == 1,
        r@[0]@ == "BYPASS_METHOD = \"tls_frag\""@,
{
    let mut v: Vec<String> = Vec::new();
    v.push(copy_text("BYPASS_METHOD = \"tls_frag\""));
    v
}

/// The target as an IPv4 address, or what is said of another one.
pub fn require_ipv4_target(ip: IpAddr, mode: &str) -> (r: Result<Ipv4Addr, String>)
    ensures
        match ip {
            IpAddr::V4(v4) => r == Ok::<Ipv4Addr, String>(v4),
            IpAddr::V6(_) => r matches Err(e) && e@ == mode@ + " is IPv4-only; got IPv6 address"@,
        },
{
    match ip {
        IpAddr::V4(v4) => Ok(v4),
        IpAddr::V6(_) => Err(copy_text(mode).concat(" is IPv4-only; got IPv6 address")),
    }
}

/// The first IPv6 address of the list is at this place, or there is none.
pub open spec fn is_first_ipv6(ips: Seq<IpAddr>, k: int) -> bool {
    &&& 0 <= k < ips.len()
    &&& ips[k] is V6
    &&& forall|j: int| 0 <= j < k ==> (#[trigger] ips[j]) is V4
}

/// Refuses a list with an IPv6 address in it, with the first such address.
pub fn reject_ipv6_ip_candidates(ips: &[IpAddr]) -> (r: Result<(), IpAddr>)
    ensures
        match r {
            Ok(_) => forall|j: int| 0 <= j < ips@.len() ==> (#[trigger] ips@[j]) is V4,
            Err(ip) => exists|k: int| #[trigger] is_first_ipv6(ips@, k) && ips@[k] == ip,
        },
{
    let mut i: usize = 0;
    while i < ips.len()
        invariant
            i <= ips@.len(),
            forall|j: int| 0 <= j < i ==> (#[trigger] ips@[j]) is V4,
        decreases ips@.len() - i,
    {
        if ips[i].is_ipv6() {
            assert(is_first_ipv6(ips@, i as int));
            return Err(ips[i]);
        }
        i = i + 1;
    }
    Ok(())
}

/// What a line of the list stands for.
#[derive(Debug, Clone, Copy, PartialEq, Eq, Structural)]
pub enum ListEntry {
    Blank,
    Ip(IpAddr),
    Net(IpNet),
    /// Neither an address nor a range.
    Bad,
}

/// What a line of the list stands for, with white space around it left out.
pub open spec fn entry_of(line: Seq<char>) -> ListEntry {
    let t = trimmed(line);
    if t.len() == 0 {
        ListEntry::Blank
    } else if ip_value(t) is Some {
        ListEntry::Ip(ip_value(t)->0)
    } else {
        match net_value(t) {
            Some(net) => ListEntry::Net(net),
            None => ListEntry::Bad,
        }
    }
}

/// Reads a line of the list: an address, or a range in CIDR notation.
pub fn list_entry(line: &str) -> (r: ListEntry)
    ensures
        r == entry_of(line@),
        r matches ListEntry::Net(net) ==> net.wf(),
{
    let chars = chars_of(line);
    let inner = trim(chars.as_slice());
    if inner.len() == 0 {
        return ListEntry::Blank;
    }
    let text = text_of(inner);
    if let Some(ip) = parse_ip(text.as_str()) {
        return ListEntry::Ip(ip);
    }
    match parse_net(text.as_str()) {
        Ok(net) => ListEntry::Net(net),
        Err(_) => ListEntry::Bad,
    }
}

/// `rand::seq::SliceRandom::shuffle` with `rand::thread_rng`: the addresses come to stand
/// in another order, which is left to chance; none goes, comes or changes. Without a
/// source of randomness in the system the generator panics.
#[verifier::external_body]
fn shuffle(ips: &mut Vec<IpAddr>)
    ensures
        final(ips)@.to_multiset() == old(ips)@.to_multiset(),
{
    rand::seq::SliceRandom::shuffle(ips.as_mut_slice(), &mut rand::thread_rng());
}

pub open spec fn lies_in(net: IpNet) -> spec_fn(IpAddr) -> bool {
    |ip: IpAddr| net.has(ip)
}

/// The addresses of the network, in their order.
fn filter_by_net(ips: &[IpAddr], net: &IpNet) -> (r: Vec<IpAddr>)
    requires
        net.wf(),
    ensures
        r@ == ips@.filter(lies_in(*net)),
{
    let mut out: Vec<IpAddr> = Vec::new();
    let mut i: usize = 0;
    proof {
        reveal(Seq::filter);
        assert(ips@.take(0).filter(lies_in(*net)) =~= out@);
    }
    while i < ips.len()
        invariant
            i <= ips@.len(),
            net.wf(),
            out@ == ips@.take(i as int).filter(lies_in(*net)),
        decreases ips@.len() - i,
    {
        proof {
            reveal(Seq::filter);
            assert(ips@.take(i + 1).drop_last() =~= ips@.take(i as int));
        }
        if net.contains(&ips[i]) {
            out.push(ips[i]);
        }
        i = i + 1;
    }
    assert(ips@.take(i as int) =~= ips@);
    out
}

/// Why the start fails.
#[derive(Debug)]
pub enum StartupFault {
    /// `SELECTED_IP` is not an address.
    BadSelectedIp { text: String },
    /// The target is an IPv6 address.
    Ipv6Target,
    /// The range is not in CIDR notation.
    BadRange { range: String, cause: String },
    /// The list holds an IPv6 address.
    Ipv6Candidate { ip: IpAddr },
    EmptyList,
    /// No address passed the scan.
    NoResults,
}

impl StartupFault {
    /// The words in which the failure is reported, with its cause, where they say nothing
    /// of the list.
    pub fn text(&self) -> (r: Option<String>)
        ensures
            match *self {
                StartupFault::BadSelectedIp { text } => r matches Some(s) && s@
                    == "parsing SELECTED_IP '"@ + text@ + "': "@ + "invalid IP address syntax"@,
                StartupFault::Ipv6Target => r matches Some(s) && s@
                    == "ip_bypass_plus"@ + " is IPv4-only; got IPv6 address"@,
                StartupFault::BadRange { range, cause } => r matches Some(s) && s@
                    == "parsing CIDR range '"@ + range@ + "': "@ + cause@,
                StartupFault::Ipv6Candidate { .. } => r is None,
                StartupFault::EmptyList => r is None,
                StartupFault::NoResults => r matches Some(s) && s@
                    == "ip_bypass_plus: no IPs passed the scan — check connectivity or ip_list"@,
            },
    {
        match self {
            StartupFault::BadSelectedIp { text } => Some(
                copy_text("parsing SELECTED_IP '").concat(text.as_str()).concat("': ").concat(
                    "invalid IP address syntax",
                ),
            ),
            StartupFault::Ipv6Target => Some(
                copy_text("ip_bypass_plus").concat(" is IPv4-only; got IPv6 address"),
            ),
            StartupFault::BadRange { range, cause } => Some(
                copy_text("parsing CIDR range '").concat(range.as_str()).concat("': ").concat(
                    cause.as_str(),
                ),
            ),
            StartupFault::Ipv6Candidate { .. } => None,
            StartupFault::EmptyList => None,
            StartupFault::NoResults => Some(
                copy_text(
                    "ip_bypass_plus: no IPs passed the scan — check connectivity or ip_list",
                ),
            ),
        }
    }
}

/// What was asked for at the start.
#[derive(Debug)]
pub struct StartupOptions {
    pub selected_ip: Option<String>,
    /// The CIDR range to use without asking.
    pub range: Option<String>,
    /// Rotate over a pool without asking.
    pub pool: bool,
    pub auto_select: bool,
    /// There is no terminal to ask on.
    pub no_tui: bool,
    pub ip_pool: usize,
}

impl StartupOptions {
    pub fn new(cfg: &Config, range: Option<String>, pool: bool, no_tui: bool) -> (r:
        StartupOptions)
        ensures
            match cfg.SELECTED_IP {
                Some(ip) => r.selected_ip matches Some(s) && s@ == ip@,
                None => r.selected_ip is None,
            },
            r.range == range,
            r.pool == pool,
            r.no_tui == no_tui,
            r.auto_select == cfg.AUTO_SELECT,
            r.ip_pool == cfg.IP_POOL,
    {
        let selected_ip = match &cfg.SELECTED_IP {
            Some(ip) => Some(copy_text(ip.as_str())),
            None => None,
        };
        StartupOptions {
            selected_ip,
            range,
            pool,
            auto_select: cfg.AUTO_SELECT,
            no_tui,
            ip_pool: cfg.IP_POOL,
        }
    }
}

/// Where the start stands.
#[derive(Debug)]
pub enum StartupPhase {
    Beginning,
    /// The ranges of the list are being read.
    ReadingRanges,
    /// One of these ranges is being asked for.
    AskingRange { ranges: Vec<String> },
    /// The list is being read, of which this network counts.
    ReadingList { net: Option<IpNet> },
    Scanning,
    /// The mode is being asked for.
    AskingMode { entries: Vec<IpProbeEntry> },
    /// An address is being asked for.
    AskingIp { entries: Vec<IpProbeEntry> },
    Ended,
}

impl StartupPhase {
    /// Something is being asked for.
    pub open spec fn asks(self) -> bool {
        self is AskingRange || self is AskingMode || self is AskingIp
    }
}

/// What has happened.
#[derive(Debug)]
pub enum StartupEvent {
    Begin,
    Ranges(Vec<String>),
    RangeChosen(usize),
    ListLoaded(Vec<IpAddr>),
    Scanned(Vec<IpProbeEntry>),
    /// Whether the pool was chosen.
    ModeChosen(bool),
    IpChosen(usize),
}

/// What the proxy runs with.
#[derive(Debug)]
pub struct RunPlan {
    pub ip: Ipv4Addr,
    /// The addresses to rotate over; none if there is a single target.
    pub pool: Vec<IpPoolEntry>,
}

/// What is to be done next.
#[derive(Debug)]
pub enum StartupAction {
    ReadRanges,
    AskRange,
    ReadList,
    Scan { ips: Vec<IpAddr> },
    AskMode,
    AskIp,
    Run(RunPlan),
    Fail(StartupFault),
}

/// A target that has been decided on.
#[derive(Debug, Clone, Copy, PartialEq, Eq, Structural)]
pub struct Selected {
    pub ip: IpAddr,
    pub score: Option<u8>,
}

/// What the start answers.
#[derive(Debug)]
pub struct StartupStep {
    /// The target to tell of.
    pub selected: Option<Selected>,
    pub action: StartupAction,
}

/// The start of the proxy.
#[derive(Debug)]
pub struct Startup {
    pub options: StartupOptions,
    pub phase: StartupPhase,
}

/// The pool entries of the first addresses.
pub open spec fn pool_of(entries: Seq<IpProbeEntry>, size: int) -> Seq<IpPoolEntry> {
    entries.take(size).map_values(|e: IpProbeEntry| IpPoolEntry { ip: e.ip, score: e.score })
}

/// How many addresses the pool has.
pub open spec fn pool_size(ip_pool: usize, found: nat) -> int {
    if ip_pool <= found {
        ip_pool as int
    } else {
        found as int
    }
}

impl StartupStep {
    /// The step answers with this action and tells of no target.
    pub open spec fn only(self, action: StartupAction) -> bool {
        self.selected is None && self.action == action
    }

    /// The step tells of the target and runs with it, if it is an IPv4 address.
    pub open spec fn runs(self, ip: IpAddr, score: Option<u8>, pool: Seq<IpPoolEntry>) -> bool {
        &&& self.selected == Some(Selected { ip, score })
        &&& match ip {
            IpAddr::V4(v4) => self.action matches StartupAction::Run(plan) && plan.ip == v4
                && plan.pool@ == pool,
            IpAddr::V6(_) => self.action == StartupAction::Fail(StartupFault::Ipv6Target),
        }
    }
}

fn only(action: StartupAction) -> (r: StartupStep)
    ensures
        r.only(action),
{
    StartupStep { selected: None, action }
}

fn run_with(ip: IpAddr, score: Option<u8>, pool: Vec<IpPoolEntry>) -> (r: StartupStep)
    ensures
        r.runs(ip, score, pool@),
{
    let selected = Some(Selected { ip, score });
    match require_ipv4_target(ip, "ip_bypass_plus") {
        Ok(v4) => StartupStep { selected, action: StartupAction::Run(RunPlan { ip: v4, pool }) },
        Err(_) => StartupStep { selected, action: StartupAction::Fail(StartupFault::Ipv6Target) },
    }
}

fn pool_entries(entries: &[IpProbeEntry], ip_pool: usize) -> (r: Vec<IpPoolEntry>)
    ensures
        r@ == pool_of(entries@, pool_size(ip_pool, entries@.len())),
{
    let size: usize = if ip_pool <= entries.len() {
        ip_pool
    } else {
        entries.len()
    };
    let mut pool: Vec<IpPoolEntry> = Vec::new();
    let mut i: usize = 0;
    while i < size
        invariant
            i <= size <= entries@.len(),
            pool@ == pool_of(entries@, i as int),
        decreases size - i,
    {
        pool.push(IpPoolEntry { ip: entries[i].ip, score: entries[i].score });
        i = i + 1;
        assert(pool@ =~= pool_of(entries@, i as int));
    }
    pool
}

impl Startup {
    pub fn new(options: StartupOptions) -> (r: Startup)
        ensures
            r.options == options,
            r.phase == StartupPhase::Beginning,
    {
        Startup { options, phase: StartupPhase::Beginning }
    }

    /// A network that is remembered is one.
    pub open spec fn wf(self) -> bool {
        match self.phase {
            StartupPhase::ReadingList { net: Some(net) } => net.wf(),
            StartupPhase::AskingIp { entries } => entries@.len() > 0,
            StartupPhase::AskingMode { entries } => entries@.len() > 0,
            _ => true,
        }
    }

    /// The event is one that the present phase waits for.
    pub open spec fn expects(self, e: StartupEvent) -> bool {
        match (self.phase, e) {
            (StartupPhase::Beginning, StartupEvent::Begin) => true,
            (StartupPhase::ReadingRanges, StartupEvent::Ranges(_)) => true,
            (StartupPhase::AskingRange { ranges }, StartupEvent::RangeChosen(i)) => i
                < ranges@.len(),
            (StartupPhase::ReadingList { .. }, StartupEvent::ListLoaded(_)) => true,
            (StartupPhase::Scanning, StartupEvent::Scanned(_)) => true,
            (StartupPhase::AskingMode { .. }, StartupEvent::ModeChosen(_)) => true,
            (StartupPhase::AskingIp { entries }, StartupEvent::IpChosen(i)) => i < entries@.len(),
            _ => false,
        }
    }

    /// A range has been decided on: the list is read, if the range is one.
    pub open spec fn takes_range(self, range: Seq<char>, after: StartupPhase, step: StartupStep)
        -> bool {
        match net_value(range) {
            Some(net) => {
                &&& after == StartupPhase::ReadingList { net: Some(net) }
                &&& step.only(StartupAction::ReadList)
            },
            None => {
                &&& after == StartupPhase::Ended
                &&& step.selected is None
                &&& step.action matches StartupAction::Fail(
                    StartupFault::BadRange { range: r, cause },
                )
                &&& r@ == range
                &&& cause@ == "invalid IP address syntax"@
            },
        }
    }

    /// The pool has been decided on: its first address is the target.
    pub open spec fn takes_pool(
        self,
        entries: Seq<IpProbeEntry>,
        after: StartupPhase,
        step: StartupStep,
    ) -> bool {
        &&& after == StartupPhase::Ended
        &&& step.runs(
            entries[0].ip,
            Some(entries[0].score),
            pool_of(entries, pool_size(self.options.ip_pool, entries.len())),
        )
    }

    /// A single address has been decided on.
    pub open spec fn takes_ip(
        self,
        entries: Seq<IpProbeEntry>,
        i: int,
        after: StartupPhase,
        step: StartupStep,
    ) -> bool {
        &&& after == StartupPhase::Ended
        &&& step.runs(entries[i].ip, Some(entries[i].score), Seq::empty())
    }

    /// The start without a scan.
    pub open spec fn begins(self, after: StartupPhase, step: StartupStep) -> bool {
        match self.options.selected_ip {
            None => after == StartupPhase::ReadingRanges && step.only(StartupAction::ReadRanges),
            Some(text) => {
                &&& after == StartupPhase::Ended
                &&& match ip_value(text@) {
                    None => {
                        &&& step.selected is None
                        &&& step.action matches StartupAction::Fail(
                            StartupFault::BadSelectedIp { text: t },
                        )
                        &&& t@ == text@
                    },
                    Some(IpAddr::V6(_)) => step.only(StartupAction::Fail(StartupFault::Ipv6Target)),
                    Some(IpAddr::V4(v4)) => step.runs(IpAddr::V4(v4), None, Seq::empty()),
                }
            },
        }
    }

    /// The ranges of the list are known. One that was asked for at the start is used. On
    /// a terminal one of several is asked for, and a single one is used.
    pub open spec fn ranges_known(
        self,
        ranges: Seq<String>,
        after: StartupPhase,
        step: StartupStep,
    ) -> bool {
        match self.options.range {
            Some(range) => self.takes_range(range@, after, step),
            None => if self.options.no_tui || ranges.len() == 0 {
                &&& after == StartupPhase::ReadingList { net: None }
                &&& step.only(StartupAction::ReadList)
            } else if ranges.len() == 1 {
                self.takes_range(ranges[0]@, after, step)
            } else {
                &&& after matches StartupPhase::AskingRange { ranges: r }
                &&& r@ == ranges
                &&& step.only(StartupAction::AskRange)
            },
        }
    }

    /// The list is known. Of a network its IPv4 addresses are scanned, in an order that is
    /// left to chance; without a network all are, as they stand.
    pub open spec fn list_known(
        net: Option<IpNet>,
        all: Seq<IpAddr>,
        after: StartupPhase,
        step: StartupStep,
    ) -> bool {
        let first_v6 = exists|k: int| #[trigger] is_first_ipv6(all, k);
        let chosen = match net {
            Some(n) => all.filter(lies_in(n)),
            None => all,
        };
        &&& step.selected is None
        &&& if net is Some && first_v6 {
            &&& after == StartupPhase::Ended
            &&& step.action matches StartupAction::Fail(StartupFault::Ipv6Candidate { ip })
            &&& exists|k: int| #[trigger] is_first_ipv6(all, k) && all[k] == ip
        } else if chosen.len() == 0 {
            after == StartupPhase::Ended && step.action == StartupAction::Fail(
                StartupFault::EmptyList,
            )
        } else {
            &&& after == StartupPhase::Scanning
            &&& step.action matches StartupAction::Scan { ips }
            &&& ips@.to_multiset() == chosen.to_multiset()
            &&& net is None ==> ips@ == all
        }
    }

    /// The results of the scan are known.
    pub open spec fn results_known(
        self,
        entries: Seq<IpProbeEntry>,
        after: StartupPhase,
        step: StartupStep,
    ) -> bool {
        if entries.len() == 0 {
            &&& after == StartupPhase::Ended
            &&& step.only(StartupAction::Fail(StartupFault::NoResults))
        } else if self.options.pool {
            self.takes_pool(entries, after, step)
        } else if self.options.auto_select || self.options.no_tui {
            self.takes_ip(entries, 0, after, step)
        } else {
            &&& after matches StartupPhase::AskingMode { entries: kept }
            &&& kept@ == entries
            &&& step.only(StartupAction::AskMode)
        }
    }

    /// The phase after an event that is waited for, and the answer to it.
    pub open spec fn leads_to(
        self,
        e: StartupEvent,
        after: StartupPhase,
        step: StartupStep,
    ) -> bool {
        match (self.phase, e) {
            (StartupPhase::Beginning, _) => self.begins(after, step),
            (_, StartupEvent::Ranges(ranges)) => self.ranges_known(ranges@, after, step),
            (StartupPhase::AskingRange { ranges }, StartupEvent::RangeChosen(i)) => {
                self.takes_range(ranges@[i as int]@, after, step)
            },
            (StartupPhase::ReadingList { net }, StartupEvent::ListLoaded(all)) => {
                Self::list_known(net, all@, after, step)
            },
            (_, StartupEvent::Scanned(entries)) => self.results_known(entries@, after, step),
            (StartupPhase::AskingMode { entries }, StartupEvent::ModeChosen(pool)) => if pool {
                self.takes_pool(entries@, after, step)
            } else {
                &&& after == StartupPhase::AskingIp { entries }
                &&& step.only(StartupAction::AskIp)
            },
            (StartupPhase::AskingIp { entries }, StartupEvent::IpChosen(i)) => self.takes_ip(
                entries@,
                i as int,
                after,
                step,
            ),
            _ => true,
        }
    }

    fn take_range(&mut self, range: &str) -> (r: StartupStep)
        ensures
            final(self).options == old(self).options,
            final(self).wf(),
            old(self).takes_range(range@, final(self).phase, r),
    {
        match parse_net(range) {
            Ok(net) => {
                self.phase = StartupPhase::ReadingList { net: Some(net) };
                only(StartupAction::ReadList)
            },
            Err(cause) => {
                self.phase = StartupPhase::Ended;
                only(StartupAction::Fail(StartupFault::BadRange { range: copy_text(range), cause }))
            },
        }
    }

    fn take_pool(&mut self, entries: &[IpProbeEntry]) -> (r: StartupStep)
        requires
            entries@.len() > 0,
        ensures
            final(self).options == old(self).options,
            final(self).wf(),
            old(self).takes_pool(entries@, final(self).phase, r),
    {
        self.phase = StartupPhase::Ended;
        run_with(
            entries[0].ip,
            Some(entries[0].score),
            pool_entries(entries, self.options.ip_pool),
        )
    }

    fn take_ip(&mut self, entries: &[IpProbeEntry], i: usize) -> (r: StartupStep)
        requires
            i < entries@.len(),
        ensures
            final(self).options == old(self).options,
            final(self).wf(),
            old(self).takes_ip(entries@, i as int, final(self).phase, r),
    {
        self.phase = StartupPhase::Ended;
        run_with(entries[i].ip, Some(entries[i].score), Vec::new())
    }

    fn begin(&mut self) -> (r: StartupStep)
        ensures
            final(self).options == old(self).options,
            final(self).wf(),
            old(self).begins(final(self).phase, r),
    {
        match &self.options.selected_ip {
            None => {
                self.phase = StartupPhase::ReadingRanges;
                only(StartupAction::ReadRanges)
            },
            Some(text) => {
                let step = match parse_ip(text.as_str()) {
                    None => only(
                        StartupAction::Fail(
                            StartupFault::BadSelectedIp { text: copy_text(text.as_str()) },
                        ),
                    ),
                    Some(IpAddr::V6(_)) => only(StartupAction::Fail(StartupFault::Ipv6Target)),
                    Some(IpAddr::V4(v4)) => run_with(IpAddr::V4(v4), None, Vec::new()),
                };
                self.phase = StartupPhase::Ended;
                step
            },
        }
    }

    fn take_ranges(&mut self, ranges: Vec<String>) -> (r: StartupStep)
        ensures
            final(self).options == old(self).options,
            final(self).wf(),
            old(self).ranges_known(ranges@, final(self).phase, r),
    {
        let asked = match &self.options.range {
            Some(range) => Some(copy_text(range.as_str())),
            None => None,
        };
        if let Some(range) = asked {
            return self.take_range(range.as_str());
        }
        if self.options.no_tui || ranges.is_empty() {
            self.phase = StartupPhase::ReadingList { net: None };
            return only(StartupAction::ReadList);
        }
        if ranges.len() == 1 {
            return self.take_range(ranges[0].as_str());
        }
        self.phase = StartupPhase::AskingRange { ranges };
        only(StartupAction::AskRange)
    }

    fn take_list(&mut self, net: Option<IpNet>, all: Vec<IpAddr>) -> (r: StartupStep)
        requires
            net matches Some(n) ==> n.wf(),
        ensures
            final(self).options == old(self).options,
            final(self).wf(),
            Self::list_known(net, all@, final(self).phase, r),
    {
        let ips = match net {
            Some(n) => {
                if let Err(ip) = reject_ipv6_ip_candidates(all.as_slice()) {
                    self.phase = StartupPhase::Ended;
                    return only(StartupAction::Fail(StartupFault::Ipv6Candidate { ip }));
                }
                assert forall|k: int| !(#[trigger] is_first_ipv6(all@, k)) by {}
                let mut chosen = filter_by_net(all.as_slice(), &n);
                let ghost before = chosen@;
                shuffle(&mut chosen);
                proof {
                    before.to_multiset_ensures();
                    chosen@.to_multiset_ensures();
                }
                chosen
            },
            None => all,
        };
        if ips.is_empty() {
            self.phase = StartupPhase::Ended;
            return only(StartupAction::Fail(StartupFault::EmptyList));
        }
        self.phase = StartupPhase::Scanning;
        only(StartupAction::Scan { ips })
    }

    fn take_results(&mut self, entries: Vec<IpProbeEntry>) -> (r: StartupStep)
        ensures
            final(self).options == old(self).options,
            final(self).wf(),
            old(self).results_known(entries@, final(self).phase, r),
    {
        if entries.is_empty() {
            self.phase = StartupPhase::Ended;
            return only(StartupAction::Fail(StartupFault::NoResults));
        }
        if self.options.pool {
            return self.take_pool(entries.as_slice());
        }
        if self.options.auto_select || self.options.no_tui {
            return self.take_ip(entries.as_slice(), 0);
        }
        self.phase = StartupPhase::AskingMode { entries };
        only(StartupAction::AskMode)
    }

    /// Takes an event that the start waits for and answers what is to be done next.
    pub fn step(self, e: StartupEvent) -> (r: (Startup, StartupStep))
        requires
            self.wf(),
            self.expects(e),
        ensures
            r.0.wf(),
            r.0.options == self.options,
            self.leads_to(e, r.0.phase, r.1),
    {
        let mut next = Startup { options: self.options, phase: StartupPhase::Ended };
        let step = match (self.phase, e) {
            (StartupPhase::Beginning, _) => next.begin(),
            (_, StartupEvent::Ranges(ranges)) => next.take_ranges(ranges),
            (StartupPhase::AskingRange { ranges }, StartupEvent::RangeChosen(i)) => {
                next.take_range(ranges[i].as_str())
            },
            (StartupPhase::ReadingList { net }, StartupEvent::ListLoaded(all)) => {
                next.take_list(net, all)
            },
            (_, StartupEvent::Scanned(entries)) => next.take_results(entries),
            (StartupPhase::AskingMode { entries }, StartupEvent::ModeChosen(pool)) => {
                if pool {
                    next.take_pool(entries.as_slice())
                } else {
                    next.phase = StartupPhase::AskingIp { entries };
                    only(StartupAction::AskIp)
                }
            },
            (StartupPhase::AskingIp { entries }, StartupEvent::IpChosen(i)) => next.take_ip(
                entries.as_slice(),
                i,
            ),
            _ => only(StartupAction::Fail(StartupFault::NoResults)),
        };
        (next, step)
    }
}

/// With an address in `SELECTED_IP` nothing is read, scanned or asked: the start either
/// runs with that address or fails.
pub proof fn law_selected_ip_skips_the_scan(
    start: Startup,
    after: StartupPhase,
    step: StartupStep,
)
    requires
        start.phase == StartupPhase::Beginning,
        start.options.selected_ip is Some,
        start.leads_to(StartupEvent::Begin, after, step),
    ensures
        after == StartupPhase::Ended,
        match ip_value(start.options.selected_ip->0@) {
            Some(IpAddr::V4(v4)) => step.action matches StartupAction::Run(plan) && plan.ip == v4
                && plan.pool@.len() == 0,
            _ => step.action is Fail,
        },
{
}

/// Without a terminal nothing is ever asked for.
pub proof fn law_headless_start_never_asks(
    start: Startup,
    e: StartupEvent,
    after: StartupPhase,
    step: StartupStep,
)
    requires
        start.options.no_tui,
        start.expects(e),
        start.leads_to(e, after, step),
        !start.phase.asks(),
    ensures
        !(step.action is AskRange),
        !(step.action is AskMode),
        !(step.action is AskIp),
        !after.asks(),
{
}

/// A range and a pool that are asked for at the start are never asked for again: no menu
/// is shown.
pub proof fn law_options_replace_the_menus(
    start: Startup,
    e: StartupEvent,
    after: StartupPhase,
    step: StartupStep,
)
    requires
        start.options.range is Some,
        start.options.pool,
        start.expects(e),
        start.leads_to(e, after, step),
        !start.phase.asks(),
    ensures
        !(step.action is AskRange),
        !(step.action is AskMode),
        !(step.action is AskIp),
        !after.asks(),
{
}

/// Every address that is scanned comes from the list, and lies in the range where there is
/// one; none of the list that lies in the range is left out.
pub proof fn law_scan_covers_the_range(
    net: Option<IpNet>,
    all: Seq<IpAddr>,
    after: StartupPhase,
    step: StartupStep,
    ip: IpAddr,
)
    requires
        Startup::list_known(net, all, after, step),
        step.action is Scan,
    ensures
        step.action->ips@.contains(ip) <==> all.contains(ip) && (net matches Some(n) ==> n.has(ip)),
        net is Some ==> (step.action->ips@.contains(ip) ==> ip is V4),
{
    let ips = step.action->ips@;
    match net {
        None => {},
        Some(n) => {
            let chosen = all.filter(lies_in(n));
            ips.to_multiset_ensures();
            chosen.to_multiset_ensures();
            assert(ips.contains(ip) <==> ips.to_multiset().count(ip) > 0);
            assert(chosen.contains(ip) <==> chosen.to_multiset().count(ip) > 0);
            if chosen.contains(ip) {
                let k = choose|k: int| 0 <= k < chosen.len() && chosen[k] == ip;
                all.lemma_filter_pred(lies_in(n), k);
                all.lemma_filter_contains_rev(lies_in(n), ip);
            }
            if all.contains(ip) && n.has(ip) {
                let k = choose|k: int| 0 <= k < all.len() && all[k] == ip;
                assert(lies_in(n)(all[k]));
                all.lemma_filter_contains(lies_in(n), k);
            }
            if ips.contains(ip) && ip is V6 {
                let k = choose|k: int| 0 <= k < all.len() && all[k] == ip;
                lemma_some_ipv6_is_first(all, k);
            }
        },
    }
}

proof fn lemma_some_ipv6_is_first(ips: Seq<IpAddr>, k: int)
    requires
        0 <= k < ips.len(),
        ips[k] is V6,
    ensures
        exists|j: int| #[trigger] is_first_ipv6(ips, j),
    decreases k,
{
    if forall|j: int| 0 <= j < k ==> (#[trigger] ips[j]) is V4 {
        assert(is_first_ipv6(ips, k));
    } else {
        let j = choose|j: int| 0 <= j < k && !((#[trigger] ips[j]) is V4);
        lemma_some_ipv6_is_first(ips, j);
    }
}

/// The pool holds the best addresses of a ranked scan, as many as are configured or as
/// there are: none that is left out ranks before one of them. Connections start with the
/// best one.
pub proof fn law_pool_takes_the_best(
    start: Startup,
    entries: Seq<IpProbeEntry>,
    after: StartupPhase,
    step: StartupStep,
)
    requires
        entries.len() > 0,
        entries[0].ip is V4,
        in_rank_order(entries),
        start.takes_pool(entries, after, step),
    ensures
        step.action is Run,
        step.action->Run_0.pool@.len() == pool_size(start.options.ip_pool, entries.len()),
        forall|k: int|
            0 <= k < step.action->Run_0.pool@.len() ==> #[trigger] step.action->Run_0.pool@[k]
                == (IpPoolEntry { ip: entries[k].ip, score: entries[k].score }),
        forall|k: int, j: int|
            0 <= k < step.action->Run_0.pool@.len() <= j < entries.len() ==> !(
            #[trigger] entries[j]).before(#[trigger] entries[k]),
        IpAddr::V4(step.action->Run_0.ip) == entries[0].ip,
{
}

/// Without a pool and without a choice in a menu, the target is the best address of the
/// scan: none has a higher score.
pub proof fn law_automatic_target_is_the_best(
    start: Startup,
    entries: Seq<IpProbeEntry>,
    after: StartupPhase,
    step: StartupStep,
    k: int,
)
    requires
        0 <= k < entries.len(),
        in_rank_order(entries),
        !start.options.pool,
        start.options.auto_select || start.options.no_tui,
        start.results_known(entries, after, step),
    ensures
        step.selected == Some(Selected { ip: entries[0].ip, score: Some(entries[0].score) }),
        entries[k].score <= entries[0].score,
        entries[0].ip matches IpAddr::V4(v4) ==> {
            step.action matches StartupAction::Run(plan) && plan.ip == v4 && plan.pool@.len() == 0
        },
{
    law_best_comes_first(entries);
}

/// What the packet interceptor filters.
#[derive(Debug, Clone, Copy, PartialEq, Eq, Structural)]
pub struct FilterSpec {
    pub interface_ip: Ipv4Addr,
    pub remote_ip: Option<Ipv4Addr>,
    pub remote_port: u16,
    pub queue_num: u16,
    pub linux_firewall_backend: LinuxFirewallBackend,
}

/// Whether packets are intercepted, and how.
#[derive(Debug, Clone, Copy, PartialEq, Eq, Structural)]
pub enum InterceptorPlan {
    /// The method works on sockets alone.
    Unneeded,
    Open { method: TlsRecordFrag, filter: FilterSpec },
    /// No method has the configured name.
    UnknownMethod,
}

/// Whether packets are intercepted under the configuration, and how.
pub fn interceptor_plan(cfg: &Config, interface_ip: Ipv4Addr) -> (r: InterceptorPlan)
    ensures
        if cfg.BYPASS_METHOD@ == "tls_frag"@ {
            r == InterceptorPlan::Unneeded
        } else if cfg.BYPASS_METHOD@ == "tls_record_frag"@ {
            &&& r matches InterceptorPlan::Open { method, filter }
            &&& method == (TlsRecordFrag {
                size: cfg.TLS_RECORD_FRAG_SIZE,
                set_psh: cfg.TLS_RECORD_FRAG_SET_PSH,
                bump_ip_ident: cfg.TLS_RECORD_FRAG_BUMP_IP_IDENT,
            })
            &&& filter == (FilterSpec {
                interface_ip,
                remote_ip: None,
                remote_port: CONNECT_PORT,
                queue_num: cfg.NFQUEUE_NUM,
                linux_firewall_backend: filter.linux_firewall_backend,
            })
            &&& match LinuxFirewallBackend::named(cfg.LINUX_FIREWALL_BACKEND@) {
                Some(backend) => filter.linux_firewall_backend == backend,
                None => filter.linux_firewall_backend == LinuxFirewallBackend::Iptables,
            }
        } else {
            r == InterceptorPlan::UnknownMethod
        },
        r is Unneeded <==> cfg.BYPASS_METHOD@ == "tls_frag"@,
        cfg.BYPASS_METHOD@ != "tls_frag"@ ==> (r is Open <==> cfg.BYPASS_METHOD@
            == "tls_record_frag"@),
        r matches InterceptorPlan::Open { filter, .. } ==> filter.remote_port == 443
            && filter.remote_ip is None && filter.interface_ip == interface_ip,
{
    if same_text(cfg.BYPASS_METHOD.as_str(), "tls_frag") {
        return InterceptorPlan::Unneeded;
    }
    match build_method(cfg) {
        Some(method) => InterceptorPlan::Open {
            method,
            filter: FilterSpec {
                interface_ip,
                remote_ip: None,
                remote_port: CONNECT_PORT,
                queue_num: cfg.NFQUEUE_NUM,
                linux_firewall_backend: cfg.linux_firewall_backend(),
            },
        },
        None => InterceptorPlan::UnknownMethod,
    }
}

/// The address that new connections switch to after a scan in the background: the best
/// one, if it is not the present one and its score is high enough.
pub fn rescan_target(current: IpAddr, entries: &[IpProbeEntry], min_score: u8) -> (r: Option<
    IpAddr,
>)
    ensures
        r == (if entries@.len() > 0 && entries@[0].ip != current && entries@[0].score >= min_score {
            Some(entries@[0].ip)
        } else {
            None
        }),
        r matches Some(ip) ==> ip != current && entries@.len() > 0 && ip == entries@[0].ip
            && min_score <= entries@[0].score,
        r is None && entries@.len() > 0 ==> entries@[0].ip == current || entries@[0].score
            < min_score,
{
    if entries.len() == 0 {
        return None;
    }
    let best = entries[0];
    if current != best.ip && best.score >= min_score {
        Some(best.ip)
    } else {
        None
    }
}

/// The seconds between scans in the background, if there are any.
pub fn rescan_interval(cfg: &Config) -> (r: Option<u64>)
    ensures
        r == (if cfg.RESCAN_INTERVAL_SECS > 0 {
            Some(cfg.RESCAN_INTERVAL_SECS)
        } else {
            None
        }),
{
    if cfg.RESCAN_INTERVAL_SECS > 0 {
        Some(cfg.RESCAN_INTERVAL_SECS)
    } else {
        None
    }
}

/// The range that is chosen in the menu is the one whose addresses are read and scanned;
/// where its text names no network, the start fails with that text.
pub proof fn law_chosen_range_is_read(
    start: Startup,
    ranges: Vec<String>,
    i: usize,
    after: StartupPhase,
    step: StartupStep,
)
    requires
        start.phase == (StartupPhase::AskingRange { ranges }),
        i < ranges@.len(),
        start.leads_to(StartupEvent::RangeChosen(i), after, step),
    ensures
        start.expects(StartupEvent::RangeChosen(i)),
        step.selected is None,
        match net_value(ranges@[i as int]@) {
            Some(net) => {
                &&& after == StartupPhase::ReadingList { net: Some(net) }
                &&& step.action is ReadList
            },
            None => {
                &&& after is Ended
                &&& step.action matches StartupAction::Fail(
                    StartupFault::BadRange { range, cause },
                )
                &&& range@ == ranges@[i as int]@
                &&& cause@ == "invalid IP address syntax"@
            },
        },
{
}

/// Once the ranges of the list are known, the one that was given at the start is read. If
/// none was, the whole list is read without a terminal or without ranges, a single range is
/// read as it is, and one of several is asked for, all of which can be chosen.
pub proof fn law_what_is_read_of_the_list(
    start: Startup,
    ranges: Vec<String>,
    after: StartupPhase,
    step: StartupStep,
)
    requires
        start.phase is ReadingRanges,
        start.leads_to(StartupEvent::Ranges(ranges), after, step),
    ensures
        start.expects(StartupEvent::Ranges(ranges)),
        step.selected is None,
        ({
            let given = match start.options.range {
                Some(range) => Some(range@),
                None => if !start.options.no_tui && ranges@.len() == 1 {
                    Some(ranges@[0]@)
                } else {
                    None
                },
            };
            match given {
                Some(text) => match net_value(text) {
                    Some(net) => {
                        &&& after == StartupPhase::ReadingList { net: Some(net) }
                        &&& step.action is ReadList
                    },
                    None => {
                        &&& after is Ended
                        &&& step.action matches StartupAction::Fail(
                            StartupFault::BadRange { range, cause },
                        )
                        &&& range@ == text
                        &&& cause@ == "invalid IP address syntax"@
                    },
                },
                None => if start.options.no_tui || ranges@.len() == 0 {
                    after == (StartupPhase::ReadingList { net: None }) && step.action is ReadList
                } else {
                    &&& step.action is AskRange
                    &&& after matches StartupPhase::AskingRange { ranges: kept }
                    &&& kept@ == ranges@
                },
            }
        }),
{
}

proof fn lemma_filter_keeps_counts(s: Seq<IpAddr>, pred: spec_fn(IpAddr) -> bool, ip: IpAddr)
    ensures
        s.filter(pred).to_multiset().count(ip) == (if pred(ip) {
            s.to_multiset().count(ip)
        } else {
            0
        }),
    decreases s.len(),
{
    reveal(Seq::filter);
    s.to_multiset_ensures();
    s.filter(pred).to_multiset_ensures();
    if s.len() > 0 {
        let rest = s.drop_last();
        lemma_filter_keeps_counts(rest, pred, ip);
        rest.to_multiset_ensures();
        rest.filter(pred).to_multiset_ensures();
        assert(rest.push(s.last()) =~= s);
    }
}

/// Of a list that was read for a network, each address of the network is scanned as often
/// as it is listed and no other one; a list with an IPv6 address is refused with the first
/// of them. A list that was read as a whole is scanned as it stands. Where nothing is left
/// to scan, the start fails.
pub proof fn law_what_is_scanned(
    start: Startup,
    net: Option<IpNet>,
    all: Vec<IpAddr>,
    after: StartupPhase,
    step: StartupStep,
)
    requires
        start.phase == (StartupPhase::ReadingList { net }),
        start.leads_to(StartupEvent::ListLoaded(all), after, step),
    ensures
        start.expects(StartupEvent::ListLoaded(all)),
        step.selected is None,
        match net {
            None => if all@.len() == 0 {
                after is Ended && step.action == StartupAction::Fail(StartupFault::EmptyList)
            } else {
                &&& after is Scanning
                &&& step.action matches StartupAction::Scan { ips }
                &&& ips@ == all@
            },
            Some(n) => {
                ||| {
                    &&& after is Ended
                    &&& step.action matches StartupAction::Fail(StartupFault::Ipv6Candidate { ip })
                    &&& exists|k: int|
                        {
                            &&& 0 <= k < all@.len()
                            &&& #[trigger] all@[k] == ip
                            &&& ip is V6
                            &&& forall|j: int| 0 <= j < k ==> (#[trigger] all@[j]) is V4
                        }
                }
                ||| {
                    &&& forall|j: int| 0 <= j < all@.len() ==> (#[trigger] all@[j]) is V4
                    &&& forall|j: int| 0 <= j < all@.len() ==> !n.has(#[trigger] all@[j])
                    &&& after is Ended
                    &&& step.action == StartupAction::Fail(StartupFault::EmptyList)
                }
                ||| {
                    &&& forall|j: int| 0 <= j < all@.len() ==> (#[trigger] all@[j]) is V4
                    &&& after is Scanning
                    &&& step.action matches StartupAction::Scan { ips }
                    &&& ips@.len() > 0
                    &&& forall|ip: IpAddr| #[trigger]
                        ips@.to_multiset().count(ip) == (if n.has(ip) {
                            all@.to_multiset().count(ip)
                        } else {
                            0
                        })
                }
            },
        },
{
    if let Some(n) = net {
        let chosen = all@.filter(lies_in(n));
        if exists|k: int| #[trigger] is_first_ipv6(all@, k) {
        } else {
            assert forall|j: int| 0 <= j < all@.len() implies (#[trigger] all@[j]) is V4 by {
                if all@[j] is V6 {
                    lemma_some_ipv6_is_first(all@, j);
                }
            }
            if chosen.len() == 0 {
                assert forall|j: int| 0 <= j < all@.len() implies !n.has(#[trigger] all@[j]) by {
                    if n.has(all@[j]) {
                        assert(lies_in(n)(all@[j]));
                        all@.lemma_filter_contains(lies_in(n), j);
                    }
                }
            } else {
                let ips = step.action->ips@;
                ips.to_multiset_ensures();
                chosen.to_multiset_ensures();
                assert forall|ip: IpAddr| #[trigger]
                    ips.to_multiset().count(ip) == (if n.has(ip) {
                        all@.to_multiset().count(ip)
                    } else {
                        0
                    }) by {
                    lemma_filter_keeps_counts(all@, lies_in(n), ip);
                }
            }
        }
    }
}

/// What the results of a scan lead to. None fail the start. A pool that was asked for takes
/// the first ones, as many as are configured or as there are, and the first one of all is
/// the target. Without a menu the first one alone is the target. With one the mode is asked
/// for, and the results are kept.
pub proof fn law_what_results_lead_to(
    start: Startup,
    entries: Vec<IpProbeEntry>,
    after: StartupPhase,
    step: StartupStep,
)
    requires
        start.phase is Scanning,
        start.leads_to(StartupEvent::Scanned(entries), after, step),
    ensures
        start.expects(StartupEvent::Scanned(entries)),
        entries@.len() == 0 ==> after is Ended && step.selected is None && step.action
            == StartupAction::Fail(StartupFault::NoResults),
        entries@.len() > 0 && !start.options.pool && !start.options.auto_select
            && !start.options.no_tui ==> {
            &&& step.selected is None
            &&& step.action is AskMode
            &&& after matches StartupPhase::AskingMode { entries: kept }
            &&& kept@ == entries@
        },
        entries@.len() > 0 && (start.options.pool || start.options.auto_select
            || start.options.no_tui) ==> {
            &&& after is Ended
            &&& step.selected == Some(
                Selected { ip: entries@[0].ip, score: Some(entries@[0].score) },
            )
            &&& match entries@[0].ip {
                IpAddr::V6(_) => step.action == StartupAction::Fail(StartupFault::Ipv6Target),
                IpAddr::V4(v4) => {
                    &&& step.action matches StartupAction::Run(plan)
                    &&& plan.ip == v4
                    &&& !start.options.pool ==> plan.pool@.len() == 0
                    &&& start.options.pool ==> {
                        &&& plan.pool@.len() <= start.options.ip_pool
                        &&& plan.pool@.len() <= entries@.len()
                        &&& plan.pool@.len() == start.options.ip_pool || plan.pool@.len()
                            == entries@.len()
                        &&& forall|k: int|
                            0 <= k < plan.pool@.len() ==> (#[trigger] plan.pool@[k]).ip
                                == entries@[k].ip && plan.pool@[k].score == entries@[k].score
                    }
                },
            }
        },
{
}

/// What is chosen in the menus is what is run with: the pool with the first result as the
/// target, or after another menu the very address that was chosen there.
pub proof fn law_menu_choices_are_kept(
    start: Startup,
    entries: Vec<IpProbeEntry>,
    pool: bool,
    i: usize,
    after: StartupPhase,
    step: StartupStep,
)
    requires
        i < entries@.len(),
    ensures
        start.phase == (StartupPhase::AskingMode { entries }) && start.leads_to(
            StartupEvent::ModeChosen(pool),
            after,
            step,
        ) ==> {
            &&& start.expects(StartupEvent::ModeChosen(pool))
            &&& !pool ==> {
                &&& step.selected is None
                &&& step.action is AskIp
                &&& after == StartupPhase::AskingIp { entries }
            }
            &&& pool ==> {
                &&& after is Ended
                &&& step.selected == Some(
                    Selected { ip: entries@[0].ip, score: Some(entries@[0].score) },
                )
                &&& match entries@[0].ip {
                    IpAddr::V6(_) => step.action == StartupAction::Fail(StartupFault::Ipv6Target),
                    IpAddr::V4(v4) => {
                        &&& step.action matches StartupAction::Run(plan)
                        &&& plan.ip == v4
                        &&& plan.pool@.len() <= start.options.ip_pool
                        &&& plan.pool@.len() <= entries@.len()
                        &&& plan.pool@.len() == start.options.ip_pool || plan.pool@.len()
                            == entries@.len()
                        &&& forall|k: int|
                            0 <= k < plan.pool@.len() ==> (#[trigger] plan.pool@[k]).ip
                                == entries@[k].ip && plan.pool@[k].score == entries@[k].score
                    },
                }
            }
        },
        start.phase == (StartupPhase::AskingIp { entries }) && start.leads_to(
            StartupEvent::IpChosen(i),
            after,
            step,
        ) ==> {
            &&& start.expects(StartupEvent::IpChosen(i))
            &&& after is Ended
            &&& step.selected == Some(
                Selected { ip: entries@[i as int].ip, score: Some(entries@[i as int].score) },
            )
            &&& match entries@[i as int].ip {
                IpAddr::V6(_) => step.action == StartupAction::Fail(StartupFault::Ipv6Target),
                IpAddr::V4(v4) => step.action matches StartupAction::Run(plan) && plan.ip == v4
                    && plan.pool@.len() == 0,
            }
        },
{
}

/// The start begins with an address that is configured, without a score and without a pool,
/// and else with the ranges of the list.
pub proof fn law_how_the_start_begins(start: Startup, after: StartupPhase, step: StartupStep)
    requires
        start.phase is Beginning,
        start.leads_to(StartupEvent::Begin, after, step),
    ensures
        start.expects(StartupEvent::Begin),
        start.options.selected_ip is None ==> after is ReadingRanges && step.action is ReadRanges
            && step.selected is None,
        start.options.selected_ip matches Some(text) ==> {
            &&& after is Ended
            &&& match ip_value(text@) {
                Some(IpAddr::V4(v4)) => {
                    &&& step.selected == Some(Selected { ip: IpAddr::V4(v4), score: None })
                    &&& step.action matches StartupAction::Run(plan)
                    &&& plan.ip == v4
                    &&& plan.pool@.len() == 0
                },
                Some(IpAddr::V6(_)) => step.selected is None && step.action == StartupAction::Fail(
                    StartupFault::Ipv6Target,
                ),
                None => {
                    &&& step.selected is None
                    &&& step.action matches StartupAction::Fail(
                        StartupFault::BadSelectedIp { text: shown },
                    )
                    &&& shown@ == text@
                },
            }
        },
{
}

/// The start waits for the answer to what it asked last, and for nothing else: a choice in
/// a menu is one of its rows, and after the plan or a failure nothing comes.
pub proof fn law_start_waits_for_its_answer(
    start: Startup,
    e: StartupEvent,
    after: StartupPhase,
    step: StartupStep,
    answer: StartupEvent,
)
    requires
        start.expects(e),
        start.leads_to(e, after, step),
    ensures
        (Startup { options: start.options, phase: after }).expects(answer) <==> match (
            step.action,
            answer,
        ) {
            (StartupAction::ReadRanges, StartupEvent::Ranges(_)) => true,
            (StartupAction::AskRange, StartupEvent::RangeChosen(i)) => match e {
                StartupEvent::Ranges(ranges) => i < ranges@.len(),
                _ => false,
            },
            (StartupAction::ReadList, StartupEvent::ListLoaded(_)) => true,
            (StartupAction::Scan { .. }, StartupEvent::Scanned(_)) => true,
            (StartupAction::AskMode, StartupEvent::ModeChosen(_)) => true,
            (StartupAction::AskIp, StartupEvent::IpChosen(i)) => match start.phase {
                StartupPhase::AskingMode { entries } => i < entries@.len(),
                _ => false,
            },
            _ => false,
        },
{
}

/// A line of the list is read by what stands between the white space around it: nothing, an
/// address, or else what names a network.
pub proof fn law_lines_of_the_list(line: Seq<char>)
    ensures
        ({
            let t = trimmed(line);
            match entry_of(line) {
                ListEntry::Blank => t.len() == 0,
                ListEntry::Ip(ip) => t.len() > 0 && ip_value(t) == Some(ip),
                ListEntry::Net(net) => t.len() > 0 && ip_value(t) is None && net_value(t) == Some(
                    net,
                ),
                ListEntry::Bad => t.len() > 0 && ip_value(t) is None && net_value(t) is None,
            }
        }),
{
}

} // verus!
