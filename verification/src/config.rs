//! The configuration: its values, their defaults and the rules they obey.

use crate::addr::{ip_value, parse_ip, IpAddr};
use crate::text::{
    all_digits, chars_of, contains_char, copy_text, decimal, digit_char, digits_value,
    eq_ignore_ascii_case, i32_value, is_digit, law_decimal_reads_back, law_numbers_are_read,
    law_split, law_trim, lemma_first_index_is, lemma_trim_and_split,
    push_signed_decimal, read_i32, read_u32, same_ignoring_ascii_case, same_text, signed_decimal,
    signed_value, split_at_first, split_once, text_of, trim, trim_end, trim_start, trimmed, u32_value,
};
use vstd::prelude::*;
use vstd::string::*;

verus! {

/// An IEEE 754 double, by its encoding.
#[derive(Debug, Clone, Copy, PartialEq, Eq, Structural)]
pub struct Binary64 {
    pub bits: u64,
}

impl Binary64 {
    /// The number is neither an infinity nor a NaN, and it is greater than zero: the sign
    /// bit is clear, the exponent is not the greatest one and some other bit is set.
    pub open spec fn finite_and_positive(self) -> bool {
        0 < self.bits < 0x7ff0_0000_0000_0000
    }

    pub fn is_finite_and_positive(&self) -> (r: bool)
        ensures
            r == self.finite_and_positive(),
    {
        0 < self.bits && self.bits < 0x7ff0_0000_0000_0000
    }
}

/// A range of 32-bit numbers, both ends included.
#[derive(Debug, Clone, Copy, PartialEq, Eq, Structural)]
pub struct Int32Range {
    pub min: i32,
    pub max: i32,
}

/// The number that a text stands for, or what is wrong with it.
pub open spec fn int32_text(s: Seq<char>) -> Result<i32, Seq<char>> {
    match i32_value(s) {
        Some(v) => Ok(v),
        None => Err("'"@ + s + "' is not a valid Int32 value"@),
    }
}

/// The range that a text stands for, or what is wrong with it: a single number, or two
/// numbers with a `-` between them.
pub open spec fn range_text(s: Seq<char>) -> Result<Int32Range, Seq<char>> {
    let t = trimmed(s);
    if t.len() == 0 {
        Err("range cannot be empty"@)
    } else {
        match split_once(t, '-') {
            Some((start, end)) => match int32_text(trimmed(start)) {
                Err(e) => Err(e),
                Ok(min) => match int32_text(trimmed(end)) {
                    Err(e) => Err(e),
                    Ok(max) => if max < min {
                        Err("range '"@ + t + "' has max lower than min"@)
                    } else {
                        Ok(Int32Range { min, max })
                    },
                },
            },
            None => match int32_text(t) {
                Err(e) => Err(e),
                Ok(v) => Ok(Int32Range { min: v, max: v }),
            },
        }
    }
}

/// Reads a 32-bit number.
pub fn parse_i32(value: &str) -> (r: Result<i32, String>)
    ensures
        match r {
            Ok(v) => int32_text(value@) == Ok::<i32, Seq<char>>(v),
            Err(e) => int32_text(value@) == Err::<i32, Seq<char>>(e@),
        },
{
    let chars = chars_of(value);
    parse_i32_chars(chars.as_slice())
}

fn parse_i32_chars(value: &[char]) -> (r: Result<i32, String>)
    ensures
        match r {
            Ok(v) => int32_text(value@) == Ok::<i32, Seq<char>>(v),
            Err(e) => int32_text(value@) == Err::<i32, Seq<char>>(e@),
        },
{
    match read_i32(value) {
        Some(v) => Ok(v),
        None => {
            let shown = text_of(value);
            let e = copy_text("'").concat(shown.as_str()).concat("' is not a valid Int32 value");
            Err(e)
        },
    }
}

impl Int32Range {
    /// The range that holds one number.
    pub fn exact(value: i32) -> (r: Int32Range)
        ensures
            r == (Int32Range { min: value, max: value }),
    {
        Int32Range { min: value, max: value }
    }

    /// Reads a range.
    pub fn parse(input: &str) -> (r: Result<Int32Range, String>)
        ensures
            match r {
                Ok(v) => range_text(input@) == Ok::<Int32Range, Seq<char>>(v),
                Err(e) => range_text(input@) == Err::<Int32Range, Seq<char>>(e@),
            },
    {
        let chars = chars_of(input);
        let input = trim(chars.as_slice());
        if input.len() == 0 {
            return Err(copy_text("range cannot be empty"));
        }
        match split_at_first(input, '-') {
            Some((start, end)) => {
                let min: i32 = match parse_i32_chars(trim(start)) {
                    Ok(v) => v,
                    Err(e) => {
                        return Err(e);
                    },
                };
                let max: i32 = match parse_i32_chars(trim(end)) {
                    Ok(v) => v,
                    Err(e) => {
                        return Err(e);
                    },
                };
                if max < min {
                    let shown = text_of(input);
                    return Err(
                        copy_text("range '").concat(shown.as_str()).concat(
                            "' has max lower than min",
                        ),
                    );
                }
                Ok(Int32Range { min, max })
            },
            None => match parse_i32_chars(input) {
                Ok(v) => Ok(Int32Range::exact(v)),
                Err(e) => Err(e),
            },
        }
    }

    /// What is wrong with the range where its numbers have to be at least `min_value`.
    pub open spec fn below_minimum(self, field: Seq<char>, min_value: i32) -> Option<Seq<char>> {
        if self.min < min_value {
            Some(field + " must be >= "@ + signed_decimal(min_value as int))
        } else {
            None
        }
    }

    /// Checks that the range starts no lower than `min_value`.
    pub fn validate_at_least(&self, field: &str, min_value: i32) -> (r: Result<(), ConfigError>)
        ensures
            match r {
                Ok(_) => self.below_minimum(field@, min_value) is None,
                Err(e) => self.below_minimum(field@, min_value) == Some(e@),
            },
    {
        if self.min < min_value {
            let mut message = copy_text(field).concat(" must be >= ");
            push_signed_decimal(&mut message, min_value);
            return Err(ConfigError { message });
        }
        Ok(())
    }

    /// The range as it is written.
    pub open spec fn text(self) -> Seq<char> {
        if self.min == self.max {
            signed_decimal(self.min as int)
        } else {
            signed_decimal(self.min as int) + "-"@ + signed_decimal(self.max as int)
        }
    }

    /// The range in the form in which it is shown.
    pub fn to_text(&self) -> (r: String)
        ensures
            r@ == self.text(),
    {
        let mut s = String::new();
        push_signed_decimal(&mut s, self.min);
        if self.min != self.max {
            s.append("-");
            push_signed_decimal(&mut s, self.max);
        }
        assert(s@ =~= self.text());
        s
    }
}

/// Which writes of the client are fragmented.
#[derive(Debug, Clone, Copy, PartialEq, Eq, Structural)]
pub enum TlsFragPackets {
    /// The record that holds the ClientHello.
    TlsHello,
    /// The writes from `start` to `end`, counted from one.
    WriteRange { start: u32, end: u32 },
}

/// The index of a write that a text stands for, or what is wrong with it.
pub open spec fn packet_index(s: Seq<char>) -> Result<u32, Seq<char>> {
    match u32_value(trimmed(s)) {
        None => Err("'"@ + s + "' is not a valid packet index"@),
        Some(v) => if v == 0 {
            Err("packet indexes are 1-based and must be >= 1"@)
        } else {
            Ok(v)
        },
    }
}

/// The writes that a text stands for, or what is wrong with it: `tlshello`, an index, or
/// two indexes with a `-` between them.
pub open spec fn packets_text(s: Seq<char>) -> Result<TlsFragPackets, Seq<char>> {
    let t = trimmed(s);
    if same_ignoring_ascii_case(t, "tlshello"@) {
        Ok(TlsFragPackets::TlsHello)
    } else {
        match split_once(t, '-') {
            Some((a, b)) => match packet_index(a) {
                Err(e) => Err(e),
                Ok(start) => match packet_index(b) {
                    Err(e) => Err(e),
                    Ok(end) => if end < start {
                        Err("packet range '"@ + t + "' has end lower than start"@)
                    } else {
                        Ok(TlsFragPackets::WriteRange { start, end })
                    },
                },
            },
            None => match packet_index(t) {
                Err(e) => Err(e),
                Ok(index) => Ok(TlsFragPackets::WriteRange { start: index, end: index }),
            },
        }
    }
}

fn parse_packet_index(value: &[char]) -> (r: Result<u32, String>)
    ensures
        match r {
            Ok(v) => packet_index(value@) == Ok::<u32, Seq<char>>(v),
            Err(e) => packet_index(value@) == Err::<u32, Seq<char>>(e@),
        },
{
    match read_u32(trim(value)) {
        None => {
            let shown = text_of(value);
            Err(copy_text("'").concat(shown.as_str()).concat("' is not a valid packet index"))
        },
        Some(v) => if v == 0 {
            Err(copy_text("packet indexes are 1-based and must be >= 1"))
        } else {
            Ok(v)
        },
    }
}

impl TlsFragPackets {
    /// Reads a choice of writes.
    pub fn parse(input: &str) -> (r: Result<TlsFragPackets, String>)
        ensures
            match r {
                Ok(v) => packets_text(input@) == Ok::<TlsFragPackets, Seq<char>>(v),
                Err(e) => packets_text(input@) == Err::<TlsFragPackets, Seq<char>>(e@),
            },
    {
        let chars = chars_of(input);
        let input = trim(chars.as_slice());
        let hello = chars_of("tlshello");
        if eq_ignore_ascii_case(input, hello.as_slice()) {
            return Ok(TlsFragPackets::TlsHello);
        }
        match split_at_first(input, '-') {
            Some((a, b)) => {
                let start: u32 = match parse_packet_index(a) {
                    Ok(v) => v,
                    Err(e) => {
                        return Err(e);
                    },
                };
                let end: u32 = match parse_packet_index(b) {
                    Ok(v) => v,
                    Err(e) => {
                        return Err(e);
                    },
                };
                if end < start {
                    let shown = text_of(input);
                    return Err(
                        copy_text("packet range '").concat(shown.as_str()).concat(
                            "' has end lower than start",
                        ),
                    );
                }
                Ok(TlsFragPackets::WriteRange { start, end })
            },
            None => match parse_packet_index(input) {
                Ok(index) => Ok(TlsFragPackets::WriteRange { start: index, end: index }),
                Err(e) => Err(e),
            },
        }
    }

    /// The write is one of those that are fragmented.
    pub open spec fn includes(self, write_index: u32) -> bool {
        match self {
            TlsFragPackets::TlsHello => false,
            TlsFragPackets::WriteRange { start, end } => start <= write_index <= end,
        }
    }

    /// Whether the write is one of those that are fragmented.
    pub fn includes_write(self, write_index: u32) -> (r: bool)
        ensures
            r == self.includes(write_index),
    {
        match self {
            TlsFragPackets::TlsHello => false,
            TlsFragPackets::WriteRange { start, end } => start <= write_index && write_index
                <= end,
        }
    }
}

/// The tool that sets the firewall rules on Linux.
#[derive(Debug, Clone, Copy, PartialEq, Eq, Structural)]
pub enum LinuxFirewallBackend {
    Iptables,
    Nftables,
}

impl LinuxFirewallBackend {
    pub open spec fn name(self) -> Seq<char> {
        match self {
            LinuxFirewallBackend::Iptables => "iptables"@,
            LinuxFirewallBackend::Nftables => "nftables"@,
        }
    }

    pub open spec fn named(s: Seq<char>) -> Option<LinuxFirewallBackend> {
        if s == "iptables"@ {
            Some(LinuxFirewallBackend::Iptables)
        } else if s == "nftables"@ {
            Some(LinuxFirewallBackend::Nftables)
        } else {
            None
        }
    }

    pub fn as_str(&self) -> (r: &'static str)
        ensures
            r@ == self.name(),
    {
        match self {
            LinuxFirewallBackend::Iptables => "iptables",
            LinuxFirewallBackend::Nftables => "nftables",
        }
    }

    pub fn parse(s: &str) -> (r: Option<LinuxFirewallBackend>)
        ensures
            r == LinuxFirewallBackend::named(s@),
    {
        if same_text(s, "iptables") {
            Some(LinuxFirewallBackend::Iptables)
        } else if same_text(s, "nftables") {
            Some(LinuxFirewallBackend::Nftables)
        } else {
            None
        }
    }
}

impl Default for LinuxFirewallBackend {
    fn default() -> (r: LinuxFirewallBackend)
        ensures
            r == LinuxFirewallBackend::Iptables,
    {
        LinuxFirewallBackend::Iptables
    }
}

/// Why a configuration is refused.
#[derive(Debug)]
pub struct ConfigError {
    pub message: String,
}

impl View for ConfigError {
    type V = Seq<char>;

    open spec fn view(&self) -> Seq<char> {
        self.message@
    }
}

/// The configuration of the proxy.
#[allow(non_snake_case)]
#[derive(Debug)]
pub struct Config {
    /// Local address the proxy listens on.
    pub LISTEN_HOST: String,
    /// Local port the proxy listens on.
    pub LISTEN_PORT: u16,
    /// Path to the list of addresses and CIDR ranges.
    pub IP_LIST: String,
    /// Number of addresses in the rotation pool.
    pub IP_POOL: usize,
    /// How many healthy addresses end a scan; none if zero.
    pub MAX_IP_SCAN: usize,
    /// Per-probe timeout in seconds.
    pub SCAN_TIMEOUT_SECS: u64,
    /// Take the top-ranked address instead of asking.
    pub AUTO_SELECT: bool,
    /// Seconds between background scans; none if zero.
    pub RESCAN_INTERVAL_SECS: u64,
    /// The least score with which a background scan may change the target.
    pub SNI_SWITCH_MIN_SCORE: u8,
    /// Operating mode.
    pub MODE: String,
    /// The address to use without a scan.
    pub SELECTED_IP: Option<String>,
    /// Host name used in the TLS phase of a scan.
    pub IP_SCAN_SNI: String,
    /// How many addresses an IPv6 range expands to at most.
    pub IPV6_MAX_HOSTS: u64,
    /// Bypass method.
    pub BYPASS_METHOD: String,
    /// Number of the packet queue on Linux.
    pub NFQUEUE_NUM: u16,
    /// Firewall tool on Linux.
    pub LINUX_FIREWALL_BACKEND: String,
    /// `tls_record_frag`: most bytes in one record fragment.
    pub TLS_RECORD_FRAG_SIZE: usize,
    /// `tls_record_frag`: set the PSH flag on the fragmented packet.
    pub TLS_RECORD_FRAG_SET_PSH: bool,
    /// `tls_record_frag`: increment the IPv4 identification on the fragmented packet.
    pub TLS_RECORD_FRAG_BUMP_IP_IDENT: bool,
    /// `tls_frag`: which client data is fragmented.
    pub TLS_FRAG_PACKETS: String,
    /// `tls_frag`: length of the fragments, in bytes.
    pub TLS_FRAG_LENGTH: Option<Int32Range>,
    /// `tls_frag`: milliseconds between fragments.
    pub TLS_FRAG_INTERVAL_MS: Int32Range,
    /// Fixed length of the fragments where `TLS_FRAG_LENGTH` gives none.
    pub TCP_SEG_SIZE: usize,
    /// Set `TCP_NODELAY` on the upstream socket.
    pub TCP_SEG_NODELAY: bool,
    /// Seconds to wait for the bypass to complete.
    pub BYPASS_TIMEOUT_SECS: u64,
    /// Seconds after which a relay is rotated; never if zero.
    pub RELAY_MAX_LIFETIME_SECS: u64,
    /// Most concurrent connections in the TCP phase of a scan.
    pub IP_MAX_P1_CONCURRENT: usize,
    /// Most concurrent probes in the TLS phase of a scan.
    pub IP_MAX_P2_CONCURRENT: usize,
    /// Most bytes downloaded in a speed test.
    pub SCAN_DOWNLOAD_CAP: usize,
    /// Most bytes uploaded in a speed test.
    pub SCAN_UPLOAD_CAP: usize,
    /// HTTP path of the upload test.
    pub SCAN_UPLOAD_PATH: String,
    /// Latency and speed limits of the scoring.
    pub TCP_LATENCY_CAP_MS: Binary64,
    pub TLS_LATENCY_CAP_MS: Binary64,
    pub TTFB_CAP_MS: Binary64,
    pub SPEED_CAP_BPS: Binary64,
    pub UPLOAD_SPEED_CAP_BPS: Binary64,
    /// Where the results of a scan are written.
    pub SCAN_OUTPUT: Option<String>,
}

/// Takes an empty string as no string.
pub fn empty_string_as_none(opt: Option<String>) -> (r: Option<String>)
    ensures
        match opt {
            Some(s) => if s@.len() == 0 {
                r is None
            } else {
                r == Some(s)
            },
            None => r is None,
        },
{
    match opt {
        None => None,
        Some(s) => if s.as_str().is_empty() {
            None
        } else {
            Some(s)
        },
    }
}

pub fn default_mode() -> (r: String)
    ensures
        r@ == "ip_bypass_plus"@,
{
    copy_text("ip_bypass_plus")
}

pub fn default_ip_list() -> (r: String)
    ensures
        r@ == "ip_list.txt"@,
{
    copy_text("ip_list.txt")
}

pub fn default_ip_pool() -> (r: usize)
    ensures
        r == 1,
{
    1
}

pub fn default_scan_timeout() -> (r: u64)
    ensures
        r == 5,
{
    5
}

pub fn default_method() -> (r: String)
    ensures
        r@ == "tls_frag"@,
{
    copy_text("tls_frag")
}

pub fn default_queue_num() -> (r: u16)
    ensures
        r == 1,
{
    1
}

pub fn default_linux_firewall_backend() -> (r: String)
    ensures
        r@ == LinuxFirewallBackend::Iptables.name(),
{
    copy_text(LinuxFirewallBackend::default().as_str())
}

pub fn default_true() -> (r: bool)
    ensures
        r,
{
    true
}

pub fn default_tls_frag_size() -> (r: usize)
    ensures
        r == 1,
{
    1
}

pub fn default_tls_frag_packets() -> (r: String)
    ensures
        r@ == "1-3"@,
{
    copy_text("1-3")
}

pub fn default_tls_frag_length() -> (r: Option<Int32Range>)
    ensures
        r == Some(Int32Range { min: 100, max: 200 }),
{
    Some(Int32Range { min: 100, max: 200 })
}

pub fn default_tls_frag_interval_ms() -> (r: Int32Range)
    ensures
        r == (Int32Range { min: 10, max: 20 }),
{
    Int32Range { min: 10, max: 20 }
}

pub fn default_tcp_seg_size() -> (r: usize)
    ensures
        r == 1,
{
    1
}

pub fn default_bypass_timeout() -> (r: u64)
    ensures
        r == 20,
{
    20
}

pub fn default_ip_scan_sni() -> (r: String)
    ensures
        r@ == "cloudflare.com"@,
{
    copy_text("cloudflare.com")
}

pub fn default_ipv6_max_hosts() -> (r: u64)
    ensures
        r == 65536,
{
    65536
}

pub fn default_ip_max_p1_concurrent() -> (r: usize)
    ensures
        r == 128,
{
    128
}

pub fn default_ip_max_p2_concurrent() -> (r: usize)
    ensures
        r == 32,
{
    32
}

pub fn default_scan_download_cap() -> (r: usize)
    ensures
        r == 10_240,
{
    10_240
}

pub fn default_scan_upload_cap() -> (r: usize)
    ensures
        r == 10_240,
{
    10_240
}

pub fn default_scan_upload_path() -> (r: String)
    ensures
        r@ == "/"@,
{
    copy_text("/")
}

/// 500 ms.
pub fn default_tcp_latency_cap_ms() -> (r: Binary64)
    ensures
        r.bits == 0x407f_4000_0000_0000,
{
    Binary64 { bits: 0x407f_4000_0000_0000 }
}

/// 1000 ms.
pub fn default_tls_latency_cap_ms() -> (r: Binary64)
    ensures
        r.bits == 0x408f_4000_0000_0000,
{
    Binary64 { bits: 0x408f_4000_0000_0000 }
}

/// 2000 ms.
pub fn default_ttfb_cap_ms() -> (r: Binary64)
    ensures
        r.bits == 0x409f_4000_0000_0000,
{
    Binary64 { bits: 0x409f_4000_0000_0000 }
}

/// 2048000 bytes per second.
pub fn default_speed_cap_bps() -> (r: Binary64)
    ensures
        r.bits == 0x413f_4000_0000_0000,
{
    Binary64 { bits: 0x413f_4000_0000_0000 }
}

/// 2048000 bytes per second.
pub fn default_upload_speed_cap_bps() -> (r: Binary64)
    ensures
        r.bits == 0x413f_4000_0000_0000,
{
    Binary64 { bits: 0x413f_4000_0000_0000 }
}

pub fn default_sni_switch_min_score() -> (r: u8)
    ensures
        r == 1,
{
    1
}


/// A non-empty HTTP path: it starts with `/` and holds no line break.
pub open spec fn is_upload_path(s: Seq<char>) -> bool {
    &&& s.len() > 0
    &&& s[0] == '/'
    &&& !s.contains('\r')
    &&& !s.contains('\n')
}

fn check_upload_path(path: &str) -> (r: bool)
    ensures
        r == is_upload_path(path@),
{
    let chars = chars_of(path);
    chars.len() > 0 && chars[0] == '/' && !contains_char(chars.as_slice(), '\r') && !contains_char(
        chars.as_slice(),
        '\n',
    )
}

fn refuse(message: &str) -> (r: ConfigError)
    ensures
        r@ == message@,
{
    ConfigError { message: copy_text(message) }
}

fn refuse_value(before: &str, value: &str, after: &str) -> (r: ConfigError)
    ensures
        r@ == before@ + value@ + after@,
{
    ConfigError { message: copy_text(before).concat(value).concat(after) }
}

impl Config {
    /// What is wrong with the choice of writes, if anything.
    pub open spec fn packets_fault(self) -> Option<Seq<char>> {
        match packets_text(self.TLS_FRAG_PACKETS@) {
            Ok(_) => None,
            Err(e) => Some("TLS_FRAG_PACKETS is invalid: "@ + e),
        }
    }

    /// The length of the fragments, unless it is too large.
    pub open spec fn fragment_length(self) -> Option<Int32Range> {
        match self.TLS_FRAG_LENGTH {
            Some(range) => Some(range),
            None => if self.TCP_SEG_SIZE <= i32::MAX {
                Some(
                    Int32Range { min: self.TCP_SEG_SIZE as i32, max: self.TCP_SEG_SIZE as i32 },
                )
            } else {
                None
            },
        }
    }

    /// What is wrong with the selected address, if anything.
    pub open spec fn selected_ip_fault(self) -> Option<Seq<char>> {
        match self.SELECTED_IP {
            None => None,
            Some(ip) => match ip_value(ip@) {
                None => Some("SELECTED_IP '"@ + ip@ + "' is not a valid IP address"@),
                Some(IpAddr::V6(_)) => Some(
                    "ip_bypass_plus is IPv4-only; SELECTED_IP '"@ + ip@ + "' is IPv6"@,
                ),
                Some(IpAddr::V4(_)) => None,
            },
        }
    }

    /// The first rule that the configuration breaks, in the words of its message.
    pub open spec fn fault(self) -> Option<Seq<char>> {
        if self.SCAN_TIMEOUT_SECS == 0 {
            Some("SCAN_TIMEOUT_SECS must be > 0"@)
        } else if self.BYPASS_TIMEOUT_SECS == 0 {
            Some("BYPASS_TIMEOUT_SECS must be > 0"@)
        } else if self.SNI_SWITCH_MIN_SCORE > 100 {
            Some("SNI_SWITCH_MIN_SCORE must be <= 100"@)
        } else if self.SCAN_DOWNLOAD_CAP == 0 {
            Some("SCAN_DOWNLOAD_CAP must be > 0"@)
        } else if self.SCAN_UPLOAD_CAP == 0 {
            Some("SCAN_UPLOAD_CAP must be > 0"@)
        } else if !is_upload_path(self.SCAN_UPLOAD_PATH@) {
            Some(
                "SCAN_UPLOAD_PATH must be a non-empty HTTP path starting with '/' and containing no CR/LF"@,
            )
        } else if !self.SPEED_CAP_BPS.finite_and_positive() {
            Some("SPEED_CAP_BPS must be a finite value > 0"@)
        } else if !self.UPLOAD_SPEED_CAP_BPS.finite_and_positive() {
            Some("UPLOAD_SPEED_CAP_BPS must be a finite value > 0"@)
        } else if self.MODE@ != "ip_bypass_plus"@ {
            Some(
                "Unknown MODE '"@ + self.MODE@ + "'. Only \"ip_bypass_plus\" is supported"@,
            )
        } else if self.IP_POOL == 0 {
            Some("IP_POOL must be >= 1"@)
        } else if self.BYPASS_METHOD@ != "tls_record_frag"@ && self.BYPASS_METHOD@
            != "tls_frag"@ {
            Some(
                "Unknown BYPASS_METHOD '"@ + self.BYPASS_METHOD@
                    + "'. Valid values: \"tls_record_frag\", \"tls_frag\""@,
            )
        } else if self.TLS_RECORD_FRAG_SIZE == 0 {
            Some("TLS_RECORD_FRAG_SIZE must be >= 1"@)
        } else if self.TCP_SEG_SIZE == 0 {
            Some("TCP_SEG_SIZE must be >= 1"@)
        } else if self.TCP_SEG_SIZE > i32::MAX {
            Some("TCP_SEG_SIZE must be <= i32::MAX"@)
        } else if self.packets_fault() is Some {
            self.packets_fault()
        } else if self.fragment_length().unwrap().min < 1 {
            self.fragment_length().unwrap().below_minimum("TLS_FRAG_LENGTH"@, 1)
        } else if self.TLS_FRAG_INTERVAL_MS.min < 0 {
            self.TLS_FRAG_INTERVAL_MS.below_minimum("TLS_FRAG_INTERVAL_MS"@, 0)
        } else if LinuxFirewallBackend::named(self.LINUX_FIREWALL_BACKEND@) is None {
            Some(
                "Unknown LINUX_FIREWALL_BACKEND '"@ + self.LINUX_FIREWALL_BACKEND@
                    + "'. Valid values: \"iptables\", \"nftables\""@,
            )
        } else {
            self.selected_ip_fault()
        }
    }

    /// The configuration obeys all rules.
    pub open spec fn valid(self) -> bool {
        &&& self.SCAN_TIMEOUT_SECS > 0
        &&& self.BYPASS_TIMEOUT_SECS > 0
        &&& self.SNI_SWITCH_MIN_SCORE <= 100
        &&& self.SCAN_DOWNLOAD_CAP > 0
        &&& self.SCAN_UPLOAD_CAP > 0
        &&& is_upload_path(self.SCAN_UPLOAD_PATH@)
        &&& self.SPEED_CAP_BPS.finite_and_positive()
        &&& self.UPLOAD_SPEED_CAP_BPS.finite_and_positive()
        &&& self.MODE@ == "ip_bypass_plus"@
        &&& self.IP_POOL > 0
        &&& self.BYPASS_METHOD@ == "tls_record_frag"@ || self.BYPASS_METHOD@ == "tls_frag"@
        &&& self.TLS_RECORD_FRAG_SIZE > 0
        &&& 0 < self.TCP_SEG_SIZE <= i32::MAX
        &&& packets_text(self.TLS_FRAG_PACKETS@) is Ok
        &&& self.fragment_length() matches Some(length) && length.min >= 1
        &&& self.TLS_FRAG_INTERVAL_MS.min >= 0
        &&& LinuxFirewallBackend::named(self.LINUX_FIREWALL_BACKEND@) is Some
        &&& self.SELECTED_IP matches Some(ip) ==> ip_value(ip@) matches Some(IpAddr::V4(_))
    }

    /// Checks the configuration and names the first rule that it breaks.
    pub fn validate(&self) -> (r: Result<(), ConfigError>)
        ensures
            match r {
                Ok(_) => self.fault() is None,
                Err(e) => self.fault() == Some(e@),
            },
            r is Ok <==> self.valid(),
    {
        if self.SCAN_TIMEOUT_SECS == 0 {
            return Err(refuse("SCAN_TIMEOUT_SECS must be > 0"));
        }
        if self.BYPASS_TIMEOUT_SECS == 0 {
            return Err(refuse("BYPASS_TIMEOUT_SECS must be > 0"));
        }
        if self.SNI_SWITCH_MIN_SCORE > 100 {
            return Err(refuse("SNI_SWITCH_MIN_SCORE must be <= 100"));
        }
        if self.SCAN_DOWNLOAD_CAP == 0 {
            return Err(refuse("SCAN_DOWNLOAD_CAP must be > 0"));
        }
        if self.SCAN_UPLOAD_CAP == 0 {
            return Err(refuse("SCAN_UPLOAD_CAP must be > 0"));
        }
        if !check_upload_path(self.SCAN_UPLOAD_PATH.as_str()) {
            return Err(
                refuse(
                    "SCAN_UPLOAD_PATH must be a non-empty HTTP path starting with '/' and containing no CR/LF",
                ),
            );
        }
        if !self.SPEED_CAP_BPS.is_finite_and_positive() {
            return Err(refuse("SPEED_CAP_BPS must be a finite value > 0"));
        }
        if !self.UPLOAD_SPEED_CAP_BPS.is_finite_and_positive() {
            return Err(refuse("UPLOAD_SPEED_CAP_BPS must be a finite value > 0"));
        }
        if !same_text(self.MODE.as_str(), "ip_bypass_plus") {
            return Err(
                refuse_value(
                    "Unknown MODE '",
                    self.MODE.as_str(),
                    "'. Only \"ip_bypass_plus\" is supported",
                ),
            );
        }
        if self.IP_POOL == 0 {
            return Err(refuse("IP_POOL must be >= 1"));
        }
        if !same_text(self.BYPASS_METHOD.as_str(), "tls_record_frag") && !same_text(
            self.BYPASS_METHOD.as_str(),
            "tls_frag",
        ) {
            return Err(
                refuse_value(
                    "Unknown BYPASS_METHOD '",
                    self.BYPASS_METHOD.as_str(),
                    "'. Valid values: \"tls_record_frag\", \"tls_frag\"",
                ),
            );
        }
        if self.TLS_RECORD_FRAG_SIZE == 0 {
            return Err(refuse("TLS_RECORD_FRAG_SIZE must be >= 1"));
        }
        if self.TCP_SEG_SIZE == 0 {
            return Err(refuse("TCP_SEG_SIZE must be >= 1"));
        }
        if self.TCP_SEG_SIZE > 0x7fff_ffff {
            return Err(refuse("TCP_SEG_SIZE must be <= i32::MAX"));
        }
        if let Err(e) = self.tls_frag_packets() {
            return Err(e);
        }
        let length = match self.tls_frag_length_range() {
            Ok(range) => range,
            Err(e) => {
                return Err(e);
            },
        };
        if let Err(e) = length.validate_at_least("TLS_FRAG_LENGTH", 1) {
            return Err(e);
        }
        if let Err(e) = self.TLS_FRAG_INTERVAL_MS.validate_at_least("TLS_FRAG_INTERVAL_MS", 0) {
            return Err(e);
        }
        if LinuxFirewallBackend::parse(self.LINUX_FIREWALL_BACKEND.as_str()).is_none() {
            return Err(
                refuse_value(
                    "Unknown LINUX_FIREWALL_BACKEND '",
                    self.LINUX_FIREWALL_BACKEND.as_str(),
                    "'. Valid values: \"iptables\", \"nftables\"",
                ),
            );
        }
        if let Some(ip) = &self.SELECTED_IP {
            match parse_ip(ip.as_str()) {
                None => {
                    return Err(
                        refuse_value(
                            "SELECTED_IP '",
                            ip.as_str(),
                            "' is not a valid IP address",
                        ),
                    );
                },
                Some(parsed) => {
                    if parsed.is_ipv6() {
                        return Err(
                            refuse_value(
                                "ip_bypass_plus is IPv4-only; SELECTED_IP '",
                                ip.as_str(),
                                "' is IPv6",
                            ),
                        );
                    }
                },
            }
        }
        Ok(())
    }

    /// Which client data is fragmented.
    pub fn tls_frag_packets(&self) -> (r: Result<TlsFragPackets, ConfigError>)
        ensures
            match r {
                Ok(v) => packets_text(self.TLS_FRAG_PACKETS@) == Ok::<TlsFragPackets, Seq<char>>(v)
                    && self.packets_fault() is None,
                Err(e) => self.packets_fault() == Some(e@),
            },
    {
        match TlsFragPackets::parse(self.TLS_FRAG_PACKETS.as_str()) {
            Ok(v) => Ok(v),
            Err(e) => Err(
                ConfigError {
                    message: copy_text("TLS_FRAG_PACKETS is invalid: ").concat(e.as_str()),
                },
            ),
        }
    }

    /// The length of the fragments: the configured range, or else the fixed length.
    pub fn tls_frag_length_range(&self) -> (r: Result<Int32Range, ConfigError>)
        ensures
            match r {
                Ok(v) => self.fragment_length() == Some(v),
                Err(e) => self.fragment_length() is None && e@
                    == "TCP_SEG_SIZE must be <= i32::MAX"@,
            },
    {
        if let Some(range) = self.TLS_FRAG_LENGTH {
            return Ok(range);
        }
        if self.TCP_SEG_SIZE > 0x7fff_ffff {
            return Err(refuse("TCP_SEG_SIZE must be <= i32::MAX"));
        }
        Ok(Int32Range::exact(self.TCP_SEG_SIZE as i32))
    }

    /// The firewall tool, the default one where the name is unknown.
    pub fn linux_firewall_backend(&self) -> (r: LinuxFirewallBackend)
        ensures
            r == (match LinuxFirewallBackend::named(self.LINUX_FIREWALL_BACKEND@) {
                Some(backend) => backend,
                None => LinuxFirewallBackend::Iptables,
            }),
    {
        match LinuxFirewallBackend::parse(self.LINUX_FIREWALL_BACKEND.as_str()) {
            Some(backend) => backend,
            None => LinuxFirewallBackend::default(),
        }
    }

    /// Every value but the listening address is the default one.
    pub open spec fn all_defaults(self) -> bool {
        &&& self.IP_LIST@ == "ip_list.txt"@
        &&& self.IP_POOL == 1
        &&& self.MAX_IP_SCAN == 0
        &&& self.SCAN_TIMEOUT_SECS == 5
        &&& !self.AUTO_SELECT
        &&& self.RESCAN_INTERVAL_SECS == 0
        &&& self.SNI_SWITCH_MIN_SCORE == 1
        &&& self.MODE@ == "ip_bypass_plus"@
        &&& self.SELECTED_IP is None
        &&& self.IP_SCAN_SNI@ == "cloudflare.com"@
        &&& self.IPV6_MAX_HOSTS == 65536
        &&& self.BYPASS_METHOD@ == "tls_frag"@
        &&& self.NFQUEUE_NUM == 1
        &&& self.LINUX_FIREWALL_BACKEND@ == LinuxFirewallBackend::Iptables.name()
        &&& self.TLS_RECORD_FRAG_SIZE == 1
        &&& self.TLS_RECORD_FRAG_SET_PSH
        &&& self.TLS_RECORD_FRAG_BUMP_IP_IDENT
        &&& self.TLS_FRAG_PACKETS@ == "1-3"@
        &&& self.TLS_FRAG_LENGTH == Some(Int32Range { min: 100, max: 200 })
        &&& self.TLS_FRAG_INTERVAL_MS == (Int32Range { min: 10, max: 20 })
        &&& self.TCP_SEG_SIZE == 1
        &&& self.TCP_SEG_NODELAY
        &&& self.BYPASS_TIMEOUT_SECS == 20
        &&& self.RELAY_MAX_LIFETIME_SECS == 0
        &&& self.IP_MAX_P1_CONCURRENT == 128
        &&& self.IP_MAX_P2_CONCURRENT == 32
        &&& self.SCAN_DOWNLOAD_CAP == 10_240
        &&& self.SCAN_UPLOAD_CAP == 10_240
        &&& self.SCAN_UPLOAD_PATH@ == "/"@
        &&& self.TCP_LATENCY_CAP_MS.bits == 0x407f_4000_0000_0000
        &&& self.TLS_LATENCY_CAP_MS.bits == 0x408f_4000_0000_0000
        &&& self.TTFB_CAP_MS.bits == 0x409f_4000_0000_0000
        &&& self.SPEED_CAP_BPS.bits == 0x413f_4000_0000_0000
        &&& self.UPLOAD_SPEED_CAP_BPS.bits == 0x413f_4000_0000_0000
        &&& self.SCAN_OUTPUT is None
    }

    /// The configuration with the default of every value that has one.
    pub fn with_defaults(listen_host: String, listen_port: u16) -> (r: Config)
        ensures
            r.LISTEN_HOST == listen_host,
            r.LISTEN_PORT == listen_port,
            r.all_defaults(),
    {
        Config {
            LISTEN_HOST: listen_host,
            LISTEN_PORT: listen_port,
            IP_LIST: default_ip_list(),
            IP_POOL: default_ip_pool(),
            MAX_IP_SCAN: 0,
            SCAN_TIMEOUT_SECS: default_scan_timeout(),
            AUTO_SELECT: false,
            RESCAN_INTERVAL_SECS: 0,
            SNI_SWITCH_MIN_SCORE: default_sni_switch_min_score(),
            MODE: default_mode(),
            SELECTED_IP: None,
            IP_SCAN_SNI: default_ip_scan_sni(),
            IPV6_MAX_HOSTS: default_ipv6_max_hosts(),
            BYPASS_METHOD: default_method(),
            NFQUEUE_NUM: default_queue_num(),
            LINUX_FIREWALL_BACKEND: default_linux_firewall_backend(),
            TLS_RECORD_FRAG_SIZE: default_tls_frag_size(),
            TLS_RECORD_FRAG_SET_PSH: default_true(),
            TLS_RECORD_FRAG_BUMP_IP_IDENT: default_true(),
            TLS_FRAG_PACKETS: default_tls_frag_packets(),
            TLS_FRAG_LENGTH: default_tls_frag_length(),
            TLS_FRAG_INTERVAL_MS: default_tls_frag_interval_ms(),
            TCP_SEG_SIZE: default_tcp_seg_size(),
            TCP_SEG_NODELAY: default_true(),
            BYPASS_TIMEOUT_SECS: default_bypass_timeout(),
            RELAY_MAX_LIFETIME_SECS: 0,
            IP_MAX_P1_CONCURRENT: default_ip_max_p1_concurrent(),
            IP_MAX_P2_CONCURRENT: default_ip_max_p2_concurrent(),
            SCAN_DOWNLOAD_CAP: default_scan_download_cap(),
            SCAN_UPLOAD_CAP: default_scan_upload_cap(),
            SCAN_UPLOAD_PATH: default_scan_upload_path(),
            TCP_LATENCY_CAP_MS: default_tcp_latency_cap_ms(),
            TLS_LATENCY_CAP_MS: default_tls_latency_cap_ms(),
            TTFB_CAP_MS: default_ttfb_cap_ms(),
            SPEED_CAP_BPS: default_speed_cap_bps(),
            UPLOAD_SPEED_CAP_BPS: default_upload_speed_cap_bps(),
            SCAN_OUTPUT: None,
        }
    }
}

/// Values given on the command line, which take the place of configured ones.
pub struct Overrides {
    pub listen_host: Option<String>,
    pub listen_port: Option<u16>,
    pub auto_select: bool,
    pub method: Option<String>,
    pub queue_num: Option<u16>,
    pub scan_timeout: Option<u64>,
    pub rescan_interval: Option<u64>,
    pub sni_switch_min_score: Option<u8>,
    pub bypass_timeout: Option<u64>,
    pub relay_max_lifetime: Option<u64>,
}

/// The given value, or else the present one.
pub open spec fn given_or<T>(given: Option<T>, present: T) -> T {
    match given {
        Some(v) => v,
        None => present,
    }
}

impl Config {
    /// The configuration after the overrides.
    pub open spec fn overridden(self, o: Overrides) -> Config {
        Config {
            LISTEN_HOST: given_or(o.listen_host, self.LISTEN_HOST),
            LISTEN_PORT: given_or(o.listen_port, self.LISTEN_PORT),
            AUTO_SELECT: o.auto_select || self.AUTO_SELECT,
            BYPASS_METHOD: given_or(o.method, self.BYPASS_METHOD),
            NFQUEUE_NUM: given_or(o.queue_num, self.NFQUEUE_NUM),
            SCAN_TIMEOUT_SECS: given_or(o.scan_timeout, self.SCAN_TIMEOUT_SECS),
            RESCAN_INTERVAL_SECS: given_or(o.rescan_interval, self.RESCAN_INTERVAL_SECS),
            SNI_SWITCH_MIN_SCORE: given_or(o.sni_switch_min_score, self.SNI_SWITCH_MIN_SCORE),
            BYPASS_TIMEOUT_SECS: given_or(o.bypass_timeout, self.BYPASS_TIMEOUT_SECS),
            RELAY_MAX_LIFETIME_SECS: given_or(o.relay_max_lifetime, self.RELAY_MAX_LIFETIME_SECS),
            ..self
        }
    }

    /// Puts the given values in place of the configured ones.
    pub fn override_with(self, o: Overrides) -> (r: Config)
        ensures
            r == self.overridden(o),
    {
        Config {
            LISTEN_HOST: take_given(o.listen_host, self.LISTEN_HOST),
            LISTEN_PORT: take_given(o.listen_port, self.LISTEN_PORT),
            AUTO_SELECT: o.auto_select || self.AUTO_SELECT,
            BYPASS_METHOD: take_given(o.method, self.BYPASS_METHOD),
            NFQUEUE_NUM: take_given(o.queue_num, self.NFQUEUE_NUM),
            SCAN_TIMEOUT_SECS: take_given(o.scan_timeout, self.SCAN_TIMEOUT_SECS),
            RESCAN_INTERVAL_SECS: take_given(o.rescan_interval, self.RESCAN_INTERVAL_SECS),
            SNI_SWITCH_MIN_SCORE: take_given(o.sni_switch_min_score, self.SNI_SWITCH_MIN_SCORE),
            BYPASS_TIMEOUT_SECS: take_given(o.bypass_timeout, self.BYPASS_TIMEOUT_SECS),
            RELAY_MAX_LIFETIME_SECS: take_given(o.relay_max_lifetime, self.RELAY_MAX_LIFETIME_SECS),
            ..self
        }
    }
}

fn take_given<T>(given: Option<T>, present: T) -> (r: T)
    ensures
        r == given_or(given, present),
{
    match given {
        Some(v) => v,
        None => present,
    }
}

/// A range that has been read is one: its end is not below its start.
pub proof fn law_range_is_ordered(s: Seq<char>)
    ensures
        range_text(s) matches Ok(r) ==> r.min <= r.max,
{
}

/// Writes are counted from one, and a range of them is not empty.
pub proof fn law_packets_are_ordered(s: Seq<char>)
    ensures
        packets_text(s) matches Ok(TlsFragPackets::WriteRange { start, end }) ==> 1 <= start <= end,
{
}

/// A range is read back from the form in which it is shown, as long as it holds no
/// negative number: a `-` in the first place would be taken for the one between the ends.
pub proof fn law_range_reads_back(range: Int32Range)
    requires
        0 <= range.min <= range.max,
    ensures
        range_text(range.text()) == Ok::<Int32Range, Seq<char>>(range),
{
    let lo = decimal(range.min as nat);
    let hi = decimal(range.max as nat);
    law_decimal_reads_back(range.min as nat);
    law_decimal_reads_back(range.max as nat);
    lemma_digits_are_trimmed(lo);
    lemma_digits_are_trimmed(hi);
    assert(!is_digit('-') && !is_digit('+'));
    if range.min == range.max {
        lemma_first_index_is(lo, '-', lo.len() as int);
    } else {
        reveal_strlit("-");
        let t = range.text();
        assert("-"@ =~= seq!['-']);
        assert(t =~= lo + seq!['-'] + hi);
        assert(t[0] == lo[0] && t.last() == hi.last());
        assert(is_digit(t[0]) && is_digit(t.last()));
        assert(trim_start(t) == t && trim_end(t) == t);
        assert forall|i: int| 0 <= i < lo.len() implies t[i] != '-' by {
            assert(t[i] == lo[i]);
        }
        lemma_first_index_is(t, '-', lo.len() as int);
        assert(t.take(lo.len() as int) =~= lo);
        assert(t.skip(lo.len() as int + 1) =~= hi);
    }
}

/// Digits are neither trimmed nor taken for a sign.
proof fn lemma_digits_are_trimmed(s: Seq<char>)
    requires
        all_digits(s),
    ensures
        trimmed(s) == s,
        signed_value(s) == Some(digits_value(s) as int),
{
    assert(is_digit(s[0]) && is_digit(s.last()));
}

/// A configuration that leaves everything to the defaults is valid.
pub proof fn law_defaults_are_valid(cfg: Config)
    requires
        cfg.all_defaults(),
    ensures
        cfg.valid(),
        cfg.fault() is None,
{
    reveal_strlit("/");
    reveal_strlit("1-3");
    reveal_strlit("tlshello");
    let t = "1-3"@;
    assert(t =~= seq!['1', '-', '3']);
    lemma_first_index_is(t, '-', 1);
    assert(t.take(1) =~= seq!['1']);
    assert(t.skip(2) =~= seq!['3']);
    assert(trim_start(t) == t && trim_end(t) == t);
    lemma_one_digit(1);
    lemma_one_digit(3);
    assert(packets_text(t) is Ok);
}

proof fn lemma_one_digit(d: int)
    requires
        0 < d < 10,
    ensures
        packet_index(seq![digit_char(d)]) == Ok::<u32, Seq<char>>(d as u32),
{
    let s = seq![digit_char(d)];
    assert(s =~= decimal(d as nat));
    law_decimal_reads_back(d as nat);
    lemma_digits_are_trimmed(s);
}

proof fn lemma_digits_are_not_hello(s: Seq<char>)
    requires
        s.len() > 0,
        is_digit(s[0]),
    ensures
        !same_ignoring_ascii_case(s, "tlshello"@),
{
    reveal_strlit("tlshello");
    assert("tlshello"@[0] == 't');
    if s.len() == "tlshello"@.len() {
        assert(crate::text::ascii_lower(s[0]) != crate::text::ascii_lower("tlshello"@[0]));
    }
}

proof fn lemma_two_numbers(a: nat, b: nat) -> (t: Seq<char>)
    ensures
        t == decimal(a) + "-"@ + decimal(b),
        trimmed(t) == t,
        split_once(t, '-') == Some((decimal(a), decimal(b))),
        trimmed(decimal(a)) == decimal(a),
        trimmed(decimal(b)) == decimal(b),
        is_digit(t[0]),
        t.len() > 0,
{
    let lo = decimal(a);
    let hi = decimal(b);
    law_decimal_reads_back(a);
    law_decimal_reads_back(b);
    lemma_digits_are_trimmed(lo);
    lemma_digits_are_trimmed(hi);
    assert(!is_digit('-'));
    reveal_strlit("-");
    let t = lo + "-"@ + hi;
    assert("-"@ =~= seq!['-']);
    assert(t =~= lo + seq!['-'] + hi);
    assert(t[0] == lo[0] && t.last() == hi.last());
    assert(is_digit(t[0]) && is_digit(t.last()));
    assert(trim_start(t) == t && trim_end(t) == t);
    assert forall|i: int| 0 <= i < lo.len() implies t[i] != '-' by {
        assert(t[i] == lo[i]);
    }
    lemma_first_index_is(t, '-', lo.len() as int);
    assert(t.take(lo.len() as int) =~= lo);
    assert(t.skip(lo.len() as int + 1) =~= hi);
    t
}

proof fn lemma_one_number(n: nat)
    ensures
        trimmed(decimal(n)) == decimal(n),
        split_once(decimal(n), '-') is None,
        is_digit(decimal(n)[0]),
        decimal(n).len() > 0,
{
    let s = decimal(n);
    law_decimal_reads_back(n);
    lemma_digits_are_trimmed(s);
    assert(!is_digit('-'));
    assert(is_digit(s[0]));
    lemma_first_index_is(s, '-', s.len() as int);
}

/// A choice of writes is read as it is written: two numbers with a `-` between them choose
/// the writes from the first to the second, and one number that write alone. Writes are
/// counted from one, and a range that goes backwards or a number that is too large is
/// refused.
pub proof fn law_packets_read_back(a: nat, b: nat)
    ensures
        1 <= a <= b <= u32::MAX ==> packets_text(decimal(a) + "-"@ + decimal(b)) == Ok::<
            TlsFragPackets,
            Seq<char>,
        >(TlsFragPackets::WriteRange { start: a as u32, end: b as u32 }),
        b < a || a == 0 || b > u32::MAX ==> packets_text(decimal(a) + "-"@ + decimal(b)) is Err,
        1 <= a <= u32::MAX ==> packets_text(decimal(a)) == Ok::<TlsFragPackets, Seq<char>>(
            TlsFragPackets::WriteRange { start: a as u32, end: a as u32 },
        ),
        a == 0 || a > u32::MAX ==> packets_text(decimal(a)) is Err,
{
    let t = lemma_two_numbers(a, b);
    lemma_digits_are_not_hello(t);
    lemma_one_number(a);
    lemma_digits_are_not_hello(decimal(a));
    law_numbers_are_read(a);
    law_numbers_are_read(b);
}

/// The word `tlshello`, in whatever case its letters are written, chooses the ClientHello.
pub proof fn law_hello_in_any_case(s: Seq<char>)
    requires
        s.len() == "tlshello"@.len(),
        forall|i: int|
            0 <= i < s.len() ==> (#[trigger] s[i]) == "tlshello"@[i] || s[i] as int + 32
                == "tlshello"@[i] as int,
    ensures
        packets_text(s) == Ok::<TlsFragPackets, Seq<char>>(TlsFragPackets::TlsHello),
{
    reveal_strlit("tlshello");
    let t = "tlshello"@;
    assert(t =~= seq!['t', 'l', 's', 'h', 'e', 'l', 'l', 'o']);
    assert(s[0] == t[0] || s[0] as int + 32 == t[0] as int);
    assert(s[7] == t[7] || s[7] as int + 32 == t[7] as int);
    assert(trim_start(s) == s && trim_end(s) == s);
    assert forall|i: int| 0 <= i < s.len() implies crate::text::ascii_lower(s[i])
        == crate::text::ascii_lower(#[trigger] t[i]) by {
        assert(s[i] == t[i] || s[i] as int + 32 == t[i] as int);
        assert('a' <= t[i] && t[i] <= 'z');
        if s[i] != t[i] {
            assert(s[i] as int == t[i] as int - 32);
            assert('A' <= s[i] && s[i] <= 'Z');
        }
    }
}

/// A range is read as it is written: two numbers with a `-` between them, or one number
/// that is both ends. One that goes backwards is refused, and so is white space alone.
pub proof fn law_ranges_are_read(a: nat, b: nat, blank: Seq<char>)
    requires
        trimmed(blank).len() == 0,
    ensures
        a <= b <= i32::MAX ==> range_text(decimal(a) + "-"@ + decimal(b)) == Ok::<
            Int32Range,
            Seq<char>,
        >(Int32Range { min: a as i32, max: b as i32 }),
        b < a || b > i32::MAX ==> range_text(decimal(a) + "-"@ + decimal(b)) is Err,
        a <= i32::MAX ==> range_text(decimal(a)) == Ok::<Int32Range, Seq<char>>(
            Int32Range { min: a as i32, max: a as i32 },
        ),
        a > i32::MAX ==> range_text(decimal(a)) is Err,
        range_text(blank) is Err,
{
    let t = lemma_two_numbers(a, b);
    lemma_one_number(a);
    law_numbers_are_read(a);
    law_numbers_are_read(b);
}

/// White space around a range or a choice of writes makes no difference.
pub proof fn law_white_space_makes_no_difference(s: Seq<char>)
    ensures
        range_text(trimmed(s)) == range_text(s),
        packets_text(trimmed(s)) == packets_text(s),
{
    law_trim(s);
}

/// A write is one of a range exactly if its number lies between the ends, and the
/// ClientHello is no numbered write.
pub proof fn law_writes_of_a_range(start: u32, end: u32, number: u32)
    ensures
        (TlsFragPackets::WriteRange { start, end }).includes(number) <==> start <= number && number
            <= end,
        !TlsFragPackets::TlsHello.includes(number),
{
}

/// A firewall tool is known by its name, and no other text names one.
pub proof fn law_firewall_names(backend: LinuxFirewallBackend, s: Seq<char>)
    ensures
        LinuxFirewallBackend::named(backend.name()) == Some(backend),
        LinuxFirewallBackend::named(s) == Some(backend) ==> s == backend.name(),
        LinuxFirewallBackend::Iptables.name() == "iptables"@,
        LinuxFirewallBackend::Nftables.name() == "nftables"@,
{
    reveal_strlit("iptables");
    reveal_strlit("nftables");
    assert("iptables"@[0] != "nftables"@[0]);
}

/// What a valid configuration is, rule by rule.
pub proof fn law_what_a_valid_configuration_is(cfg: Config)
    ensures
        cfg.valid() <==> {
            &&& cfg.SCAN_TIMEOUT_SECS >= 1
            &&& cfg.BYPASS_TIMEOUT_SECS >= 1
            &&& cfg.SNI_SWITCH_MIN_SCORE <= 100
            &&& cfg.SCAN_DOWNLOAD_CAP >= 1
            &&& cfg.SCAN_UPLOAD_CAP >= 1
            &&& cfg.SCAN_UPLOAD_PATH@.len() > 0 && cfg.SCAN_UPLOAD_PATH@[0] == '/'
            &&& !cfg.SCAN_UPLOAD_PATH@.contains('\r') && !cfg.SCAN_UPLOAD_PATH@.contains('\n')
            &&& 1 <= cfg.SPEED_CAP_BPS.bits <= 0x7fef_ffff_ffff_ffff
            &&& 1 <= cfg.UPLOAD_SPEED_CAP_BPS.bits <= 0x7fef_ffff_ffff_ffff
            &&& cfg.MODE@ == "ip_bypass_plus"@
            &&& cfg.IP_POOL >= 1
            &&& cfg.BYPASS_METHOD@ == "tls_record_frag"@ || cfg.BYPASS_METHOD@ == "tls_frag"@
            &&& cfg.TLS_RECORD_FRAG_SIZE >= 1
            &&& 1 <= cfg.TCP_SEG_SIZE <= 0x7fff_ffff
            &&& packets_text(cfg.TLS_FRAG_PACKETS@) is Ok
            &&& cfg.TLS_FRAG_LENGTH is None || cfg.TLS_FRAG_LENGTH->0.min >= 1
            &&& cfg.TLS_FRAG_INTERVAL_MS.min >= 0
            &&& cfg.LINUX_FIREWALL_BACKEND@ == "iptables"@ || cfg.LINUX_FIREWALL_BACKEND@
                == "nftables"@
            &&& cfg.SELECTED_IP is None || (ip_value(cfg.SELECTED_IP->0@) is Some && ip_value(
                cfg.SELECTED_IP->0@,
            )->0 is V4)
        },
        cfg.valid() <==> cfg.fault() is None,
{
}

/// The fault that is named is that of the first rule that is broken, in the order of the
/// rules: the times, the score, the limits of the scan, the mode, the pool, the method and
/// its pieces, the firewall tool, and last the selected address.
pub proof fn law_first_broken_rule_is_named(cfg: Config)
    ensures
        ({
            let times = cfg.SCAN_TIMEOUT_SECS > 0 && cfg.BYPASS_TIMEOUT_SECS > 0;
            let score = times && cfg.SNI_SWITCH_MIN_SCORE <= 100;
            let caps = score && cfg.SCAN_DOWNLOAD_CAP > 0 && cfg.SCAN_UPLOAD_CAP > 0;
            let path = caps && cfg.SCAN_UPLOAD_PATH@.len() > 0 && cfg.SCAN_UPLOAD_PATH@[0] == '/'
                && !cfg.SCAN_UPLOAD_PATH@.contains('\r') && !cfg.SCAN_UPLOAD_PATH@.contains('\n');
            let speeds = path && 0 < cfg.SPEED_CAP_BPS.bits < 0x7ff0_0000_0000_0000 && 0
                < cfg.UPLOAD_SPEED_CAP_BPS.bits < 0x7ff0_0000_0000_0000;
            let mode = speeds && cfg.MODE@ == "ip_bypass_plus"@;
            let pool = mode && cfg.IP_POOL > 0;
            let method = pool && (cfg.BYPASS_METHOD@ == "tls_record_frag"@ || cfg.BYPASS_METHOD@
                == "tls_frag"@);
            let sizes = method && cfg.TLS_RECORD_FRAG_SIZE > 0 && 0 < cfg.TCP_SEG_SIZE
                <= 0x7fff_ffff;
            let packets = sizes && packets_text(cfg.TLS_FRAG_PACKETS@) is Ok;
            let length = packets && (cfg.TLS_FRAG_LENGTH is None || cfg.TLS_FRAG_LENGTH->0.min
                >= 1);
            let interval = length && cfg.TLS_FRAG_INTERVAL_MS.min >= 0;
            let firewall = interval && (cfg.LINUX_FIREWALL_BACKEND@ == "iptables"@
                || cfg.LINUX_FIREWALL_BACKEND@ == "nftables"@);
            &&& cfg.SCAN_TIMEOUT_SECS == 0 ==> cfg.fault() == Some(
                "SCAN_TIMEOUT_SECS must be > 0"@,
            )
            &&& cfg.SCAN_TIMEOUT_SECS > 0 && cfg.BYPASS_TIMEOUT_SECS == 0 ==> cfg.fault() == Some(
                "BYPASS_TIMEOUT_SECS must be > 0"@,
            )
            &&& times && !score ==> cfg.fault() == Some("SNI_SWITCH_MIN_SCORE must be <= 100"@)
            &&& score && cfg.SCAN_DOWNLOAD_CAP == 0 ==> cfg.fault() == Some(
                "SCAN_DOWNLOAD_CAP must be > 0"@,
            )
            &&& score && cfg.SCAN_DOWNLOAD_CAP > 0 && cfg.SCAN_UPLOAD_CAP == 0 ==> cfg.fault()
                == Some("SCAN_UPLOAD_CAP must be > 0"@)
            &&& caps && !path ==> cfg.fault() == Some(
                "SCAN_UPLOAD_PATH must be a non-empty HTTP path starting with '/' and containing no CR/LF"@,
            )
            &&& path && !(0 < cfg.SPEED_CAP_BPS.bits < 0x7ff0_0000_0000_0000) ==> cfg.fault()
                == Some("SPEED_CAP_BPS must be a finite value > 0"@)
            &&& path && !speeds && 0 < cfg.SPEED_CAP_BPS.bits < 0x7ff0_0000_0000_0000
                ==> cfg.fault() == Some("UPLOAD_SPEED_CAP_BPS must be a finite value > 0"@)
            &&& speeds && !mode ==> cfg.fault() == Some(
                "Unknown MODE '"@ + cfg.MODE@ + "'. Only \"ip_bypass_plus\" is supported"@,
            )
            &&& mode && !pool ==> cfg.fault() == Some("IP_POOL must be >= 1"@)
            &&& pool && !method ==> cfg.fault() == Some(
                "Unknown BYPASS_METHOD '"@ + cfg.BYPASS_METHOD@
                    + "'. Valid values: \"tls_record_frag\", \"tls_frag\""@,
            )
            &&& method && cfg.TLS_RECORD_FRAG_SIZE == 0 ==> cfg.fault() == Some(
                "TLS_RECORD_FRAG_SIZE must be >= 1"@,
            )
            &&& method && cfg.TLS_RECORD_FRAG_SIZE > 0 && cfg.TCP_SEG_SIZE == 0 ==> cfg.fault()
                == Some("TCP_SEG_SIZE must be >= 1"@)
            &&& method && cfg.TLS_RECORD_FRAG_SIZE > 0 && cfg.TCP_SEG_SIZE > 0x7fff_ffff
                ==> cfg.fault() == Some("TCP_SEG_SIZE must be <= i32::MAX"@)
            &&& sizes && packets_text(cfg.TLS_FRAG_PACKETS@) is Err ==> cfg.fault() == Some(
                "TLS_FRAG_PACKETS is invalid: "@ + packets_text(cfg.TLS_FRAG_PACKETS@)->Err_0,
            )
            &&& packets && !length ==> cfg.fault() == Some(
                "TLS_FRAG_LENGTH"@ + " must be >= "@ + decimal(1),
            )
            &&& length && !interval ==> cfg.fault() == Some(
                "TLS_FRAG_INTERVAL_MS"@ + " must be >= "@ + decimal(0),
            )
            &&& interval && !firewall ==> cfg.fault() == Some(
                "Unknown LINUX_FIREWALL_BACKEND '"@ + cfg.LINUX_FIREWALL_BACKEND@
                    + "'. Valid values: \"iptables\", \"nftables\""@,
            )
            &&& firewall && cfg.SELECTED_IP is Some && ip_value(cfg.SELECTED_IP->0@) is None
                ==> cfg.fault() == Some(
                "SELECTED_IP '"@ + cfg.SELECTED_IP->0@ + "' is not a valid IP address"@,
            )
            &&& firewall && cfg.SELECTED_IP is Some && ip_value(cfg.SELECTED_IP->0@) is Some
                && ip_value(cfg.SELECTED_IP->0@)->0 is V6 ==> cfg.fault() == Some(
                "ip_bypass_plus is IPv4-only; SELECTED_IP '"@ + cfg.SELECTED_IP->0@ + "' is IPv6"@,
            )
        }),
{
}

/// The pieces have the configured range of lengths, and without one all have the one fixed
/// length, which has to fit in 32 bits.
pub proof fn law_length_of_the_pieces(cfg: Config)
    ensures
        cfg.TLS_FRAG_LENGTH matches Some(range) ==> cfg.fragment_length() == Some(range),
        cfg.TLS_FRAG_LENGTH is None && cfg.TCP_SEG_SIZE <= 0x7fff_ffff
            ==> cfg.fragment_length() is Some && cfg.fragment_length()->0.min == cfg.TCP_SEG_SIZE
            && cfg.fragment_length()->0.max == cfg.TCP_SEG_SIZE,
        cfg.TLS_FRAG_LENGTH is None && cfg.TCP_SEG_SIZE > 0x7fff_ffff
            ==> cfg.fragment_length() is None,
{
}

/// What is given on the command line takes the place of what is configured, each value in
/// its own place; what is not given stays, and so does all that cannot be given.
pub proof fn law_overrides_take_their_places(cfg: Config, o: Overrides)
    ensures
        ({
            let r = cfg.overridden(o);
            &&& r.LISTEN_HOST == (if o.listen_host is Some {
                o.listen_host->0
            } else {
                cfg.LISTEN_HOST
            })
            &&& r.LISTEN_PORT == (if o.listen_port is Some {
                o.listen_port->0
            } else {
                cfg.LISTEN_PORT
            })
            &&& r.AUTO_SELECT <==> o.auto_select || cfg.AUTO_SELECT
            &&& r.BYPASS_METHOD == (if o.method is Some {
                o.method->0
            } else {
                cfg.BYPASS_METHOD
            })
            &&& r.NFQUEUE_NUM == (if o.queue_num is Some {
                o.queue_num->0
            } else {
                cfg.NFQUEUE_NUM
            })
            &&& r.SCAN_TIMEOUT_SECS == (if o.scan_timeout is Some {
                o.scan_timeout->0
            } else {
                cfg.SCAN_TIMEOUT_SECS
            })
            &&& r.RESCAN_INTERVAL_SECS == (if o.rescan_interval is Some {
                o.rescan_interval->0
            } else {
                cfg.RESCAN_INTERVAL_SECS
            })
            &&& r.SNI_SWITCH_MIN_SCORE == (if o.sni_switch_min_score is Some {
                o.sni_switch_min_score->0
            } else {
                cfg.SNI_SWITCH_MIN_SCORE
            })
            &&& r.BYPASS_TIMEOUT_SECS == (if o.bypass_timeout is Some {
                o.bypass_timeout->0
            } else {
                cfg.BYPASS_TIMEOUT_SECS
            })
            &&& r.RELAY_MAX_LIFETIME_SECS == (if o.relay_max_lifetime is Some {
                o.relay_max_lifetime->0
            } else {
                cfg.RELAY_MAX_LIFETIME_SECS
            })
            &&& cfg == (Config {
                LISTEN_HOST: cfg.LISTEN_HOST,
                LISTEN_PORT: cfg.LISTEN_PORT,
                AUTO_SELECT: cfg.AUTO_SELECT,
                BYPASS_METHOD: cfg.BYPASS_METHOD,
                NFQUEUE_NUM: cfg.NFQUEUE_NUM,
                SCAN_TIMEOUT_SECS: cfg.SCAN_TIMEOUT_SECS,
                RESCAN_INTERVAL_SECS: cfg.RESCAN_INTERVAL_SECS,
                SNI_SWITCH_MIN_SCORE: cfg.SNI_SWITCH_MIN_SCORE,
                BYPASS_TIMEOUT_SECS: cfg.BYPASS_TIMEOUT_SECS,
                RELAY_MAX_LIFETIME_SECS: cfg.RELAY_MAX_LIFETIME_SECS,
                ..r
            })
        }),
{
}

/// The defaults switch off what is optional: nothing is selected, scans are not limited or
/// repeated, relays are not rotated and nothing is written; a single address is used by the
/// method that needs no interception.
pub proof fn law_defaults_switch_options_off(cfg: Config)
    requires
        cfg.all_defaults(),
    ensures
        cfg.SELECTED_IP is None && cfg.SCAN_OUTPUT is None && !cfg.AUTO_SELECT,
        cfg.MAX_IP_SCAN == 0 && cfg.RESCAN_INTERVAL_SECS == 0 && cfg.RELAY_MAX_LIFETIME_SECS == 0,
        cfg.IP_POOL == 1 && cfg.BYPASS_METHOD@ == "tls_frag"@ && cfg.MODE@ == "ip_bypass_plus"@,
        cfg.TLS_FRAG_PACKETS@ == "1-3"@ && cfg.TCP_SEG_NODELAY && cfg.TCP_SEG_SIZE == 1,
        cfg.TLS_FRAG_LENGTH == Some(Int32Range { min: 100, max: 200 }),
        cfg.TLS_FRAG_INTERVAL_MS == (Int32Range { min: 10, max: 20 }),
        cfg.BYPASS_TIMEOUT_SECS == 20 && cfg.SCAN_TIMEOUT_SECS == 5,
        cfg.TLS_RECORD_FRAG_SIZE == 1 && cfg.TLS_RECORD_FRAG_SET_PSH,
        cfg.TLS_RECORD_FRAG_BUMP_IP_IDENT && cfg.NFQUEUE_NUM == 1,
        cfg.IP_MAX_P1_CONCURRENT == 128 && cfg.IP_MAX_P2_CONCURRENT == 32,
        cfg.SNI_SWITCH_MIN_SCORE == 1 && cfg.IPV6_MAX_HOSTS == 65536,
{
}

/// A range is shown as its two ends with a `-` between them, or as the one number that it
/// holds; a negative number has its sign before it.
pub proof fn law_how_a_range_is_shown(min: i32, max: i32)
    ensures
        0 <= min && min != max && 0 <= max ==> (Int32Range { min, max }).text() == decimal(
            min as nat,
        ) + "-"@ + decimal(max as nat),
        0 <= min ==> (Int32Range { min, max: min }).text() == decimal(min as nat),
        min < 0 ==> (Int32Range { min, max: min }).text() == seq!['-'] + decimal((-min) as nat),
{
}

/// A text chooses the ClientHello only if it is the word `tlshello`, in whatever case.
pub proof fn law_only_the_word_chooses_the_hello(s: Seq<char>)
    requires
        packets_text(s) == Ok::<TlsFragPackets, Seq<char>>(TlsFragPackets::TlsHello),
    ensures
        trimmed(s).len() == "tlshello"@.len(),
        forall|i: int|
            0 <= i < trimmed(s).len() ==> (#[trigger] trimmed(s)[i]) == "tlshello"@[i]
                || trimmed(s)[i] as int + 32 == "tlshello"@[i] as int,
{
    reveal_strlit("tlshello");
    let t = "tlshello"@;
    assert(t =~= seq!['t', 'l', 's', 'h', 'e', 'l', 'l', 'o']);
    let w = trimmed(s);
    assert forall|i: int| 0 <= i < w.len() implies (#[trigger] w[i]) == t[i] || w[i] as int + 32
        == t[i] as int by {
        assert(crate::text::ascii_lower(w[i]) == crate::text::ascii_lower(t[i]));
    }
}

/// The defaults of the scan, of the list and of the scoring.
pub proof fn law_defaults_of_the_scan(cfg: Config)
    requires
        cfg.all_defaults(),
    ensures
        cfg.IP_LIST@ == "ip_list.txt"@ && cfg.IP_SCAN_SNI@ == "cloudflare.com"@,
        cfg.SCAN_UPLOAD_PATH@ == "/"@ && cfg.LINUX_FIREWALL_BACKEND@ == "iptables"@,
        cfg.SCAN_DOWNLOAD_CAP == 10240 && cfg.SCAN_UPLOAD_CAP == 10240,
        cfg.TCP_LATENCY_CAP_MS.bits == 0x407f_4000_0000_0000,
        cfg.TLS_LATENCY_CAP_MS.bits == 0x408f_4000_0000_0000,
        cfg.TTFB_CAP_MS.bits == 0x409f_4000_0000_0000,
        cfg.SPEED_CAP_BPS.bits == 0x413f_4000_0000_0000,
        cfg.UPLOAD_SPEED_CAP_BPS.bits == 0x413f_4000_0000_0000,
{
}

/// Two texts with a `-` between them are a range exactly if each of them is a number by
/// itself and the first is not the greater one; white space may stand around each. The ends
/// are those numbers.
pub proof fn law_range_is_made_of_its_ends(a: Seq<char>, b: Seq<char>)
    requires
        !a.contains('-'),
    ensures
        ({
            let whole = range_text(a + seq!['-'] + b);
            let low = i32_value(trimmed(a));
            let high = i32_value(trimmed(b));
            if low is Some && high is Some && low->0 <= high->0 {
                whole == Ok::<Int32Range, Seq<char>>(Int32Range { min: low->0, max: high->0 })
            } else {
                whole is Err
            }
        }),
{
    lemma_trim_and_split(a, '-', b);
}

/// Two texts with a `-` between them are a range of writes exactly if each of them is a
/// number by itself, from one on, and the first is not the greater one; white space may
/// stand around each.
pub proof fn law_packets_are_made_of_their_ends(a: Seq<char>, b: Seq<char>)
    requires
        !a.contains('-'),
    ensures
        ({
            let whole = packets_text(a + seq!['-'] + b);
            let low = u32_value(trimmed(a));
            let high = u32_value(trimmed(b));
            if low is Some && high is Some && 1 <= low->0 && low->0 <= high->0 {
                whole == Ok::<TlsFragPackets, Seq<char>>(
                    TlsFragPackets::WriteRange { start: low->0, end: high->0 },
                )
            } else {
                whole is Err
            }
        }),
{
    lemma_trim_and_split(a, '-', b);
    let t = trimmed(a + seq!['-'] + b);
    law_split(t, '-');
    reveal_strlit("tlshello");
    let hello = "tlshello"@;
    assert(hello =~= seq!['t', 'l', 's', 'h', 'e', 'l', 'l', 'o']);
    if same_ignoring_ascii_case(t, hello) {
        let i = choose|i: int| 0 <= i < t.len() && t[i] == '-';
        assert(t.contains('-'));
        assert(crate::text::ascii_lower(t[i]) == crate::text::ascii_lower(hello[i]));
    }
}

} // verus!
