//! The decisions behind the C interface: codes, the table of scan results and the target.

use crate::addr::{ip_value, ipv4_value, parse_ip, parse_ipv4, IpAddr, Ipv4Addr};
use crate::config::{Binary64, Config};
use crate::scan::IpProbeEntry;
use crate::text::copy_text;
use vstd::prelude::*;
use vstd::string::*;

verus! {

/// The levels of the log.
#[derive(Debug, Clone, Copy, PartialEq, Eq, Structural)]
pub enum LogLevel {
    Error,
    Warn,
    Info,
    Debug,
    Trace,
}

/// The code of a level for the log callback.
pub fn log_level_code(level: LogLevel) -> (r: i32)
    ensures
        r == (match level {
            LogLevel::Error => 1i32,
            LogLevel::Warn => 2,
            LogLevel::Info => 0,
            _ => 3,
        }),
{
    match level {
        LogLevel::Error => 1,
        LogLevel::Warn => 2,
        LogLevel::Info => 0,
        _ => 3,
    }
}

/// What came of loading a configuration file.
#[derive(Debug, Clone, Copy, PartialEq, Eq, Structural)]
pub enum LoadResult {
    Loaded,
    /// The path is not text.
    BadPath,
    BadConfig,
}

/// The code of what came of loading a configuration file: zero for success.
pub fn load_config_code(result: LoadResult) -> (r: i32)
    ensures
        r == (match result {
            LoadResult::Loaded => 0int,
            LoadResult::BadPath => -1,
            LoadResult::BadConfig => -2,
        }),
{
    match result {
        LoadResult::Loaded => 0,
        LoadResult::BadPath => -1,
        LoadResult::BadConfig => -2,
    }
}

/// Why a scan cannot be made.
#[derive(Debug, Clone, Copy, PartialEq, Eq, Structural)]
pub enum ScanFault {
    BadPath,
    BadSni,
    NoRuntime,
    Unreadable,
    BadConfig,
    BadList,
    EmptyList,
}

/// The code of a scan that cannot be made.
pub open spec fn fault_code(fault: ScanFault) -> int {
    match fault {
        ScanFault::BadPath => -1,
        ScanFault::BadSni => -2,
        ScanFault::NoRuntime => -3,
        ScanFault::Unreadable => -4,
        ScanFault::BadConfig => -5,
        ScanFault::BadList => -6,
        ScanFault::EmptyList => -7,
    }
}

/// The code of a scan that cannot be made.
pub fn scan_fault_code(fault: ScanFault) -> (r: i32)
    ensures
        r == fault_code(fault),
{
    match fault {
        ScanFault::BadPath => -1,
        ScanFault::BadSni => -2,
        ScanFault::NoRuntime => -3,
        ScanFault::Unreadable => -4,
        ScanFault::BadConfig => -5,
        ScanFault::BadList => -6,
        ScanFault::EmptyList => -7,
    }
}

/// Every reason has a code of its own, and none looks like a number of results.
pub proof fn law_fault_codes_differ(a: ScanFault, b: ScanFault)
    ensures
        fault_code(a) < 0,
        fault_code(a) == fault_code(b) ==> a == b,
{
}

/// The configuration with the caller's limit of a scan, where the caller sets one.
pub fn with_scan_limit(cfg: Config, max_ip_scan: u32) -> (r: Config)
    ensures
        r == (Config {
            MAX_IP_SCAN: if max_ip_scan > 0 {
                max_ip_scan as usize
            } else {
                cfg.MAX_IP_SCAN
            },
            ..cfg
        }),
{
    let mut cfg = cfg;
    if max_ip_scan > 0 {
        cfg.MAX_IP_SCAN = max_ip_scan as usize;
    }
    cfg
}

/// The configuration of a scan for which the caller names the list, the SNI and, where one
/// is set, the limit: everything else has its default, and nothing is listened on.
pub fn scan_config(sni: &str, max_ip_scan: u32) -> (r: Config)
    ensures
        r.LISTEN_HOST@ == ""@,
        r.LISTEN_PORT == 0,
        r.IP_SCAN_SNI@ == sni@,
        r.MAX_IP_SCAN == max_ip_scan,
        exists|d: Config| #[trigger]
            d.all_defaults() && r == (Config {
                IP_SCAN_SNI: r.IP_SCAN_SNI,
                MAX_IP_SCAN: r.MAX_IP_SCAN,
                ..d
            }),
{
    let mut cfg = Config::with_defaults(copy_text(""), 0);
    let ghost d = cfg;
    cfg.IP_SCAN_SNI = copy_text(sni);
    assert(d.all_defaults());
    with_scan_limit(cfg, max_ip_scan)
}

/// How many healthy addresses end the scan of an embedded proxy.
pub const EMBEDDED_SCAN_LIMIT: u32 = 1000;

/// How many results of a scan the caller gets: as many as there are, or as there is room
/// for.
pub fn result_count(found: usize, max_results: u32) -> (r: u32)
    ensures
        r == (if found <= max_results {
            found as int
        } else {
            max_results as int
        }),
{
    if found <= max_results as usize {
        found as u32
    } else {
        max_results
    }
}

/// A scan result as the caller gets it. Numbers that are not known are zero.
#[derive(Debug, Clone, Copy)]
pub struct ScanResult {
    pub ip: [u8; 16],
    pub ip_len: u32,
    pub tcp_latency_ms: u64,
    pub tls_ok: bool,
    pub tls_latency_ms: u64,
    pub ttfb_ms: u64,
    pub download_bps: Binary64,
    pub upload_bps: Binary64,
    pub score: u8,
}

pub open spec fn known_or_zero(x: Option<u64>) -> u64 {
    match x {
        Some(n) => n,
        None => 0,
    }
}

fn or_zero(x: Option<u64>) -> (r: u64)
    ensures
        r == known_or_zero(x),
{
    match x {
        Some(n) => n,
        None => 0,
    }
}

/// How many bytes of an address are handed over: room is left for a final zero.
pub open spec fn copied(len: nat) -> int {
    if len < 15 {
        len as int
    } else {
        15
    }
}

/// The scan result of an address, whose text is given in bytes.
pub fn scan_result(entry: &IpProbeEntry, ip_text: &[u8]) -> (r: ScanResult)
    ensures
        r.ip_len == copied(ip_text@.len()),
        r.ip@.take(copied(ip_text@.len())) == ip_text@.take(copied(ip_text@.len())),
        forall|i: int| copied(ip_text@.len()) <= i < 16 ==> #[trigger] r.ip@[i] == 0,
        r.tcp_latency_ms == known_or_zero(entry.tcp_latency_ms),
        r.tls_ok == entry.tls_ok,
        r.tls_latency_ms == known_or_zero(entry.tls_latency_ms),
        r.ttfb_ms == known_or_zero(entry.ttfb_ms),
        r.download_bps == (match entry.download_bps {
            Some(v) => v,
            None => Binary64 { bits: 0 },
        }),
        r.upload_bps == (match entry.upload_bps {
            Some(v) => v,
            None => Binary64 { bits: 0 },
        }),
        r.score == entry.score,
{
    let len: usize = if ip_text.len() < 15 {
        ip_text.len()
    } else {
        15
    };
    let mut ip: [u8; 16] = [0;16];
    let mut i: usize = 0;
    while i < len
        invariant
            i <= len <= ip_text@.len(),
            len <= 15,
            forall|j: int| 0 <= j < i ==> #[trigger] ip@[j] == ip_text@[j],
            forall|j: int| i <= j < 16 ==> #[trigger] ip@[j] == 0,
        decreases len - i,
    {
        ip[i] = ip_text[i];
        i = i + 1;
    }
    assert(ip@.take(len as int) =~= ip_text@.take(len as int));
    ScanResult {
        ip,
        ip_len: len as u32,
        tcp_latency_ms: or_zero(entry.tcp_latency_ms),
        tls_ok: entry.tls_ok,
        tls_latency_ms: or_zero(entry.tls_latency_ms),
        ttfb_ms: or_zero(entry.ttfb_ms),
        download_bps: match entry.download_bps {
            Some(v) => v,
            None => Binary64 { bits: 0 },
        },
        upload_bps: match entry.upload_bps {
            Some(v) => v,
            None => Binary64 { bits: 0 },
        },
        score: entry.score,
    }
}

/// What came of starting the proxy.
#[derive(Debug, Clone, Copy, PartialEq, Eq, Structural)]
pub enum StartResult {
    Started,
    AlreadyRunning,
    BadPath,
    NoThread,
}

/// The code of what came of starting the proxy: zero for success.
pub fn start_code(result: StartResult) -> (r: i32)
    ensures
        r == (match result {
            StartResult::Started => 0int,
            StartResult::AlreadyRunning => -1,
            StartResult::BadPath => -2,
            StartResult::NoThread => -3,
        }),
{
    match result {
        StartResult::Started => 0,
        StartResult::AlreadyRunning => -1,
        StartResult::BadPath => -2,
        StartResult::NoThread => -3,
    }
}

/// Whether the proxy counts as running after an attempt to start it.
pub fn running_after(result: StartResult) -> (r: bool)
    ensures
        r == (result == StartResult::Started || result == StartResult::AlreadyRunning),
{
    result == StartResult::Started || result == StartResult::AlreadyRunning
}

/// Why an embedded proxy has no target.
#[derive(Debug, Clone, Copy, PartialEq, Eq, Structural)]
pub enum TargetFault {
    /// The configured address is none.
    BadAddress,
    Ipv6,
}

impl TargetFault {
    pub fn text(&self) -> (r: &'static str)
        ensures
            r@ == (match *self {
                TargetFault::BadAddress => "invalid IP address syntax"@,
                TargetFault::Ipv6 => "ip_bypass_plus is IPv4-only"@,
            }),
    {
        match self {
            TargetFault::BadAddress => "invalid IP address syntax",
            TargetFault::Ipv6 => "ip_bypass_plus is IPv4-only",
        }
    }
}

/// The target if no address passed the scan: 1.1.1.1.
pub const FALLBACK_TARGET: u32 = 0x0101_0101;

/// The best address of a scan, or the fallback.
pub open spec fn best_or_fallback(entries: Seq<IpProbeEntry>) -> IpAddr {
    if entries.len() > 0 {
        entries[0].ip
    } else {
        IpAddr::V4(Ipv4Addr { bits: FALLBACK_TARGET })
    }
}

pub open spec fn only_ipv4(ip: IpAddr) -> Result<Ipv4Addr, TargetFault> {
    match ip {
        IpAddr::V4(v4) => Ok(v4),
        IpAddr::V6(_) => Err(TargetFault::Ipv6),
    }
}

fn ipv4_only(ip: IpAddr) -> (r: Result<Ipv4Addr, TargetFault>)
    ensures
        r == only_ipv4(ip),
{
    match ip {
        IpAddr::V4(v4) => Ok(v4),
        IpAddr::V6(_) => Err(TargetFault::Ipv6),
    }
}

/// The target of an embedded proxy whose configuration names an address.
pub fn selected_target(text: &str) -> (r: Result<Ipv4Addr, TargetFault>)
    ensures
        r == (match ip_value(text@) {
            Some(ip) => only_ipv4(ip),
            None => Err(TargetFault::BadAddress),
        }),
{
    match parse_ip(text) {
        Some(ip) => ipv4_only(ip),
        None => Err(TargetFault::BadAddress),
    }
}

/// The target of an embedded proxy after a scan.
pub fn scanned_target(entries: &[IpProbeEntry]) -> (r: Result<Ipv4Addr, TargetFault>)
    ensures
        r == only_ipv4(best_or_fallback(entries@)),
{
    if entries.len() > 0 {
        ipv4_only(entries[0].ip)
    } else {
        Ok(Ipv4Addr { bits: FALLBACK_TARGET })
    }
}

/// Why an embedded proxy does not start.
#[derive(Debug)]
pub enum EmbedFault {
    /// An argument is not text, or not an IPv4 address.
    BadArgument,
    ConfigFile { error: String },
    ConfigText { error: String },
    NoRuntime,
    NoInterface,
    UnknownMethod { method: String },
    Interceptor { error: String },
}

impl EmbedFault {
    /// What the log says of the failure, if anything.
    pub fn log_text(&self) -> (r: Option<String>)
        ensures
            match *self {
                EmbedFault::BadArgument => r is None,
                EmbedFault::ConfigFile { error } => r matches Some(s) && s@ == "config error: "@
                    + error@,
                EmbedFault::ConfigText { error } => r matches Some(s) && s@
                    == "config parse error: "@ + error@,
                EmbedFault::NoRuntime => r is None,
                EmbedFault::NoInterface => r matches Some(s) && s@
                    == "failed to determine interface IP"@,
                EmbedFault::UnknownMethod { method } => r matches Some(s) && s@
                    == "unknown bypass method: "@ + method@,
                EmbedFault::Interceptor { error } => r matches Some(s) && s@
                    == "interceptor open failed: "@ + error@,
            },
    {
        match self {
            EmbedFault::BadArgument => None,
            EmbedFault::ConfigFile { error } => Some(
                copy_text("config error: ").concat(error.as_str()),
            ),
            EmbedFault::ConfigText { error } => Some(
                copy_text("config parse error: ").concat(error.as_str()),
            ),
            EmbedFault::NoRuntime => None,
            EmbedFault::NoInterface => Some(copy_text("failed to determine interface IP")),
            EmbedFault::UnknownMethod { method } => Some(
                copy_text("unknown bypass method: ").concat(method.as_str()),
            ),
            EmbedFault::Interceptor { error } => Some(
                copy_text("interceptor open failed: ").concat(error.as_str()),
            ),
        }
    }
}

/// An argument that is text and an IPv4 address.
pub open spec fn ipv4_argument(arg: Option<&str>) -> Option<Ipv4Addr> {
    match arg {
        Some(text) => match ipv4_value(text@) {
            Some(bits) => Some(Ipv4Addr { bits }),
            None => None,
        },
        None => None,
    }
}

/// The addresses of the target and of the interface, if both arguments are some.
pub fn start_addresses(target: Option<&str>, interface: Option<&str>) -> (r: Result<
    (Ipv4Addr, Ipv4Addr),
    EmbedFault,
>)
    ensures
        r == (match (ipv4_argument(target), ipv4_argument(interface)) {
            (Some(t), Some(i)) => Ok::<(Ipv4Addr, Ipv4Addr), EmbedFault>((t, i)),
            _ => Err::<(Ipv4Addr, Ipv4Addr), EmbedFault>(EmbedFault::BadArgument),
        }),
{
    let (target, interface) = match (target, interface) {
        (Some(t), Some(i)) => (t, i),
        _ => {
            return Err(EmbedFault::BadArgument);
        },
    };
    match (parse_ipv4(target), parse_ipv4(interface)) {
        (Some(t), Some(i)) => Ok((t, i)),
        _ => Err(EmbedFault::BadArgument),
    }
}

/// The caller gets the address as far as it fits, which leaves one byte for the final zero,
/// and zero for what is not known.
pub proof fn law_what_the_caller_gets(len: nat, known: u64)
    ensures
        0 <= copied(len) <= len,
        copied(len) < 16,
        copied(len) == len || copied(len) == 15,
        known_or_zero(Some(known)) == known,
        known_or_zero(None) == 0,
{
}

/// The target of an embedded proxy is the first result of the scan, or 1.1.1.1 without one;
/// an IPv6 address is never taken, and an IPv4 address is taken as it is.
pub proof fn law_embedded_target(entries: Seq<IpProbeEntry>, ip: IpAddr)
    ensures
        entries.len() > 0 ==> best_or_fallback(entries) == entries[0].ip,
        entries.len() == 0 ==> (best_or_fallback(entries) matches IpAddr::V4(v4) && v4.bits
            == 1 * 0x100_0000 + 1 * 0x1_0000 + 1 * 0x100 + 1),
        match ip {
            IpAddr::V4(v4) => only_ipv4(ip) == Ok::<Ipv4Addr, TargetFault>(v4),
            IpAddr::V6(_) => only_ipv4(ip) == Err::<Ipv4Addr, TargetFault>(TargetFault::Ipv6),
        },
{
}

/// An argument counts as an address exactly if it is text that stands for an IPv4 address.
pub proof fn law_address_argument(arg: Option<&str>)
    ensures
        match arg {
            Some(text) => match ipv4_value(text@) {
                Some(bits) => ipv4_argument(arg) == Some(Ipv4Addr { bits }),
                None => ipv4_argument(arg) is None,
            },
            None => ipv4_argument(arg) is None,
        },
{
}

/// The codes of the scan count down from minus one, in the order in which things can go
/// wrong.
pub proof fn law_fault_codes_follow_the_order()
    ensures
        fault_code(ScanFault::BadPath) == -1,
        fault_code(ScanFault::BadSni) == fault_code(ScanFault::BadPath) - 1,
        fault_code(ScanFault::NoRuntime) == fault_code(ScanFault::BadSni) - 1,
        fault_code(ScanFault::Unreadable) == fault_code(ScanFault::NoRuntime) - 1,
        fault_code(ScanFault::BadConfig) == fault_code(ScanFault::Unreadable) - 1,
        fault_code(ScanFault::BadList) == fault_code(ScanFault::BadConfig) - 1,
        fault_code(ScanFault::EmptyList) == fault_code(ScanFault::BadList) - 1,
{
}

} // verus!
