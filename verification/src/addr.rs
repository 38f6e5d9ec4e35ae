//! Addresses as plain numbers, and the text that they are written in.

use crate::text::{
    all_digits, chars_of, decimal, digits_value, is_digit, law_decimal_digits,
    law_decimal_reads_back, law_split, lemma_first_index_is, lemma_first_index_of, split_at_first,
    split_once,
};
use vstd::arithmetic::power2::pow2;
use vstd::prelude::*;
use vstd::slice::slice_subrange;

verus! {

/// An IPv4 address, most significant octet first.
#[derive(Debug, Clone, Copy, PartialEq, Eq, Hash, Structural)]
pub struct Ipv4Addr {
    pub bits: u32,
}

/// An IPv6 address, most significant group first.
#[derive(Debug, Clone, Copy, PartialEq, Eq, Hash, Structural)]
pub struct Ipv6Addr {
    pub bits: u128,
}

#[derive(Debug, Clone, Copy, PartialEq, Eq, Hash, Structural)]
pub enum IpAddr {
    V4(Ipv4Addr),
    V6(Ipv6Addr),
}

#[derive(Debug, Clone, Copy, PartialEq, Eq, Hash, Structural)]
pub struct SocketAddr {
    pub ip: IpAddr,
    pub port: u16,
}

impl IpAddr {
    /// Whether this is an IPv6 address.
    pub fn is_ipv6(&self) -> (r: bool)
        ensures
            r == (self is V6),
    {
        match self {
            IpAddr::V4(_) => false,
            IpAddr::V6(_) => true,
        }
    }
}

// IPv4 text.

/// The value of one octet: at most three digits, no needless leading zero, at most 255.
pub open spec fn octet_value(s: Seq<char>) -> Option<int> {
    if all_digits(s) && s.len() <= 3 && (s.len() > 1 ==> s[0] != '0') && digits_value(s) <= 255 {
        Some(digits_value(s) as int)
    } else {
        None
    }
}

/// The address that four octets between dots stand for.
pub open spec fn ipv4_value(s: Seq<char>) -> Option<u32> {
    match split_once(s, '.') {
        None => None,
        Some((a, after_a)) => match split_once(after_a, '.') {
            None => None,
            Some((b, after_b)) => match split_once(after_b, '.') {
                None => None,
                Some((c, d)) => match (
                    octet_value(a),
                    octet_value(b),
                    octet_value(c),
                    octet_value(d),
                ) {
                    (Some(w), Some(x), Some(y), Some(z)) => Some(
                        (w * 0x100_0000 + x * 0x1_0000 + y * 0x100 + z) as u32,
                    ),
                    _ => None,
                },
            },
        },
    }
}

fn read_octet(s: &[char]) -> (r: Option<u32>)
    ensures
        match r {
            Some(v) => octet_value(s@) == Some(v as int) && v <= 255,
            None => octet_value(s@) is None,
        },
{
    if s.len() == 0 || s.len() > 3 || (s.len() > 1 && s[0] == '0') {
        return None;
    }
    let mut v: u32 = 0;
    assert(digits_value(s@.take(0)) == 0);
    for i in 0..s.len()
        invariant
            s@.len() <= 3,
            forall|j: int| 0 <= j < i ==> is_digit(#[trigger] s@[j]),
            v == digits_value(s@.take(i as int)),
            i == 0 ==> v == 0,
            i == 1 ==> v <= 9,
            i == 2 ==> v <= 99,
    {
        if s[i] < '0' || s[i] > '9' {
            assert(!is_digit(s@[i as int]));
            return None;
        }
        assert(s@.take(i + 1).drop_last() =~= s@.take(i as int));
        assert(s@.take(i + 1).last() == s@[i as int]);
        v = v * 10 + (s[i] as u32 - '0' as u32);
    }
    assert(s@.take(s@.len() as int) =~= s@);
    if v <= 255 {
        Some(v)
    } else {
        None
    }
}

/// Reads an IPv4 address.
pub fn read_ipv4(s: &[char]) -> (r: Option<Ipv4Addr>)
    ensures
        match r {
            Some(a) => ipv4_value(s@) == Some(a.bits),
            None => ipv4_value(s@) is None,
        },
{
    let (a, after_a) = match split_at_first(s, '.') {
        Some(p) => p,
        None => {
            return None;
        },
    };
    let (b, after_b) = match split_at_first(after_a, '.') {
        Some(p) => p,
        None => {
            return None;
        },
    };
    let (c, d) = match split_at_first(after_b, '.') {
        Some(p) => p,
        None => {
            return None;
        },
    };
    match (read_octet(a), read_octet(b), read_octet(c), read_octet(d)) {
        (Some(w), Some(x), Some(y), Some(z)) => Some(
            Ipv4Addr { bits: w * 0x100_0000 + x * 0x1_0000 + y * 0x100 + z },
        ),
        _ => None,
    }
}

// IPv6 text.

pub open spec fn is_hex_digit(c: char) -> bool {
    is_digit(c) || 'a' <= c <= 'f' || 'A' <= c <= 'F'
}

pub open spec fn hex_digit_value(c: char) -> int {
    if is_digit(c) {
        c as int - '0' as int
    } else if 'a' <= c <= 'f' {
        c as int - 'a' as int + 10
    } else {
        c as int - 'A' as int + 10
    }
}

/// The number that a run of hexadecimal digits stands for.
pub open spec fn hex_value(s: Seq<char>) -> int
    decreases s.len(),
{
    if s.len() == 0 {
        0
    } else {
        16 * hex_value(s.drop_last()) + hex_digit_value(s.last())
    }
}

/// The value of one group: one to four hexadecimal digits.
pub open spec fn group_value(s: Seq<char>) -> Option<u16> {
    if 1 <= s.len() <= 4 && (forall|i: int| 0 <= i < s.len() ==> is_hex_digit(#[trigger] s[i])) {
        Some(hex_value(s) as u16)
    } else {
        None
    }
}

/// The groups of a list with colons between them. The last one may be an IPv4 address,
/// which makes two groups, where `ends` says that the list ends the address.
pub open spec fn groups(s: Seq<char>, ends: bool) -> Option<Seq<u16>>
    decreases s.len(),
{
    match split_once(s, ':') {
        Some((first, rest)) => if rest.len() < s.len() {
            match (group_value(first), groups(rest, ends)) {
                (Some(g), Some(more)) => Some(seq![g] + more),
                _ => None,
            }
        } else {
            None
        },
        None => match group_value(s) {
            Some(g) => Some(seq![g]),
            None => match ipv4_value(s) {
                Some(a) => if ends {
                    Some(seq![(a / 0x1_0000) as u16, (a % 0x1_0000) as u16])
                } else {
                    None
                },
                None => None,
            },
        },
    }
}

/// The groups of a list that may be empty.
pub open spec fn some_groups(s: Seq<char>, ends: bool) -> Option<Seq<u16>> {
    if s.len() == 0 {
        Some(Seq::<u16>::empty())
    } else {
        groups(s, ends)
    }
}

/// Where two colons first stand together, or the length of `s` if nowhere.
pub open spec fn gap_index(s: Seq<char>) -> nat
    decreases s.len(),
{
    if s.len() == 0 || (s.len() >= 2 && s[0] == ':' && s[1] == ':') {
        0
    } else {
        1 + gap_index(s.drop_first())
    }
}

/// The number that eight groups stand for.
pub open spec fn groups_value(g: Seq<u16>) -> int {
    g[0] * 0x1_0000_0000_0000_0000_0000_0000_0000 + g[1] * 0x1_0000_0000_0000_0000_0000_0000 + g[2]
        * 0x1_0000_0000_0000_0000_0000 + g[3] * 0x1_0000_0000_0000_0000 + g[4]
        * 0x1_0000_0000_0000 + g[5] * 0x1_0000_0000 + g[6] * 0x1_0000 + g[7]
}

/// The address that eight groups stand for; two colons together stand for as many zero
/// groups as are missing, at least one.
pub open spec fn ipv6_value(s: Seq<char>) -> Option<u128> {
    let gap = gap_index(s) as int;
    if gap >= s.len() {
        match groups(s, true) {
            Some(g) => if g.len() == 8 {
                Some(groups_value(g) as u128)
            } else {
                None
            },
            None => None,
        }
    } else {
        match (some_groups(s.take(gap), false), some_groups(s.skip(gap + 2), true)) {
            (Some(head), Some(tail)) => if head.len() + tail.len() <= 7 {
                let zeros = Seq::new((8 - head.len() - tail.len()) as nat, |i: int| 0u16);
                Some(groups_value(head + zeros + tail) as u128)
            } else {
                None
            },
            _ => None,
        }
    }
}

/// The address that the text stands for, if it is written as an IPv4 or IPv6 address.
pub open spec fn ip_value(s: Seq<char>) -> Option<IpAddr> {
    match ipv4_value(s) {
        Some(bits) => Some(IpAddr::V4(Ipv4Addr { bits })),
        None => match ipv6_value(s) {
            Some(bits) => Some(IpAddr::V6(Ipv6Addr { bits })),
            None => None,
        },
    }
}

fn hex_digit(c: char) -> (r: Option<u32>)
    ensures
        match r {
            Some(v) => is_hex_digit(c) && v == hex_digit_value(c) && v < 16,
            None => !is_hex_digit(c),
        },
{
    if '0' <= c && c <= '9' {
        Some(c as u32 - '0' as u32)
    } else if 'a' <= c && c <= 'f' {
        Some(c as u32 - 'a' as u32 + 10)
    } else if 'A' <= c && c <= 'F' {
        Some(c as u32 - 'A' as u32 + 10)
    } else {
        None
    }
}

fn read_group(s: &[char]) -> (r: Option<u16>)
    ensures
        r == group_value(s@),
{
    if s.len() == 0 || s.len() > 4 {
        return None;
    }
    let mut v: u32 = 0;
    assert(hex_value(s@.take(0)) == 0);
    for i in 0..s.len()
        invariant
            s@.len() <= 4,
            forall|j: int| 0 <= j < i ==> is_hex_digit(#[trigger] s@[j]),
            v == hex_value(s@.take(i as int)),
            i == 0 ==> v == 0,
            i == 1 ==> v <= 0xf,
            i == 2 ==> v <= 0xff,
            i == 3 ==> v <= 0xfff,
            i == 4 ==> v <= 0xffff,
    {
        let d: u32 = match hex_digit(s[i]) {
            Some(d) => d,
            None => {
                assert(!is_hex_digit(s@[i as int]));
                return None;
            },
        };
        assert(s@.take(i + 1).drop_last() =~= s@.take(i as int));
        assert(s@.take(i + 1).last() == s@[i as int]);
        v = v * 16 + d;
    }
    assert(s@.take(s@.len() as int) =~= s@);
    Some(v as u16)
}

fn read_groups(s: &[char], ends: bool) -> (r: Option<Vec<u16>>)
    ensures
        match r {
            Some(g) => groups(s@, ends) == Some(g@),
            None => groups(s@, ends) is None,
        },
{
    let mut out: Vec<u16> = Vec::new();
    let mut rest = s;
    loop
        invariant
            match groups(rest@, ends) {
                Some(more) => groups(s@, ends) == Some(out@ + more),
                None => groups(s@, ends) is None,
            },
        decreases rest@.len(),
    {
        match split_at_first(rest, ':') {
            Some((first, more)) => {
                proof {
                    lemma_first_index_of(rest@, ':');
                }
                match read_group(first) {
                    Some(g) => {
                        proof {
                            if groups(more@, ends) is Some {
                                let after = groups(more@, ends).unwrap();
                                assert(out@ + (seq![g] + after) =~= out@.push(g) + after);
                            }
                        }
                        out.push(g);
                        rest = more;
                    },
                    None => {
                        return None;
                    },
                }
            },
            None => {
                if let Some(g) = read_group(rest) {
                    assert(out@ + seq![g] =~= out@.push(g));
                    out.push(g);
                    return Some(out);
                }
                if let Some(a) = read_ipv4(rest) {
                    if ends {
                        let hi: u16 = (a.bits / 0x1_0000) as u16;
                        let lo: u16 = (a.bits % 0x1_0000) as u16;
                        assert(out@ + seq![hi, lo] =~= out@.push(hi).push(lo));
                        out.push(hi);
                        out.push(lo);
                        return Some(out);
                    }
                }
                return None;
            },
        }
    }
}

fn read_some_groups(s: &[char], ends: bool) -> (r: Option<Vec<u16>>)
    ensures
        match r {
            Some(g) => some_groups(s@, ends) == Some(g@),
            None => some_groups(s@, ends) is None,
        },
{
    if s.len() == 0 {
        let r: Vec<u16> = Vec::new();
        assert(r@ =~= Seq::<u16>::empty());
        Some(r)
    } else {
        read_groups(s, ends)
    }
}

fn find_gap(s: &[char]) -> (r: usize)
    ensures
        r == gap_index(s@),
        r <= s@.len(),
        r < s@.len() ==> r + 2 <= s@.len(),
{
    let mut i: usize = 0;
    assert(s@.skip(0) =~= s@);
    while i < s.len()
        invariant
            i <= s@.len(),
            gap_index(s@) == i + gap_index(s@.skip(i as int)),
        decreases s@.len() - i,
    {
        let ghost here = s@.skip(i as int);
        if s.len() - i >= 2 && s[i] == ':' && s[i + 1] == ':' {
            assert(here[0] == ':' && here[1] == ':');
            return i;
        }
        assert(here.drop_first() =~= s@.skip(i + 1));
        assert(gap_index(here) == 1 + gap_index(here.drop_first()));
        i = i + 1;
    }
    assert(s@.skip(i as int).len() == 0);
    i
}

fn value_of_groups(g: &Vec<u16>) -> (r: u128)
    requires
        g@.len() == 8,
    ensures
        r == groups_value(g@),
{
    (g[0] as u128) * 0x1_0000_0000_0000_0000_0000_0000_0000 + (g[1] as u128)
        * 0x1_0000_0000_0000_0000_0000_0000 + (g[2] as u128) * 0x1_0000_0000_0000_0000_0000 + (
    g[3] as u128) * 0x1_0000_0000_0000_0000 + (g[4] as u128) * 0x1_0000_0000_0000 + (g[5] as u128)
        * 0x1_0000_0000 + (g[6] as u128) * 0x1_0000 + (g[7] as u128)
}

fn read_ipv6(s: &[char]) -> (r: Option<Ipv6Addr>)
    ensures
        match r {
            Some(a) => ipv6_value(s@) == Some(a.bits),
            None => ipv6_value(s@) is None,
        },
{
    let gap: usize = find_gap(s);
    if gap >= s.len() {
        match read_groups(s, true) {
            Some(g) => if g.len() == 8 {
                Some(Ipv6Addr { bits: value_of_groups(&g) })
            } else {
                None
            },
            None => None,
        }
    } else {
        let before = slice_subrange(s, 0, gap);
        let after = slice_subrange(s, gap + 2, s.len());
        assert(before@ =~= s@.take(gap as int));
        assert(after@ =~= s@.skip(gap + 2));
        let head = match read_some_groups(before, false) {
            Some(g) => g,
            None => {
                return None;
            },
        };
        let tail = match read_some_groups(after, true) {
            Some(g) => g,
            None => {
                return None;
            },
        };
        if head.len() > 7 || tail.len() > 7 - head.len() {
            return None;
        }
        let missing: usize = 8 - head.len() - tail.len();
        let mut all: Vec<u16> = Vec::new();
        for i in 0..head.len()
            invariant
                all@ == head@.take(i as int),
        {
            all.push(head[i]);
            assert(head@.take(i + 1) =~= head@.take(i as int).push(head@[i as int]));
        }
        assert(head@.take(head@.len() as int) =~= head@);
        for i in 0..missing
            invariant
                all@ == head@ + Seq::new(i as nat, |j: int| 0u16),
        {
            all.push(0);
            assert(all@ =~= head@ + Seq::new((i + 1) as nat, |j: int| 0u16));
        }
        let ghost padded = all@;
        for i in 0..tail.len()
            invariant
                all@ == padded + tail@.take(i as int),
        {
            all.push(tail[i]);
            assert(all@ =~= padded + tail@.take(i + 1));
        }
        assert(tail@.take(tail@.len() as int) =~= tail@);
        Some(Ipv6Addr { bits: value_of_groups(&all) })
    }
}

/// Reads an address.
pub fn parse_ip(text: &str) -> (r: Option<IpAddr>)
    ensures
        r == ip_value(text@),
{
    let chars = chars_of(text);
    if let Some(a) = read_ipv4(chars.as_slice()) {
        return Some(IpAddr::V4(a));
    }
    match read_ipv6(chars.as_slice()) {
        Some(a) => Some(IpAddr::V6(a)),
        None => None,
    }
}

/// Reads an IPv4 address.
pub fn parse_ipv4(text: &str) -> (r: Option<Ipv4Addr>)
    ensures
        match r {
            Some(a) => ipv4_value(text@) == Some(a.bits),
            None => ipv4_value(text@) is None,
        },
{
    let chars = chars_of(text);
    read_ipv4(chars.as_slice())
}

// Networks.

/// A network in CIDR notation.
#[derive(Debug, Clone, Copy, PartialEq, Eq, Structural)]
pub enum IpNet {
    V4(Ipv4Addr, u8),
    V6(Ipv6Addr, u8),
}

impl IpNet {
    /// The prefix is no longer than the address.
    pub open spec fn wf(self) -> bool {
        match self {
            IpNet::V4(_, prefix_len) => prefix_len <= 32,
            IpNet::V6(_, prefix_len) => prefix_len <= 128,
        }
    }

    /// The address is of the network's family and starts with its prefix.
    pub open spec fn has(self, ip: IpAddr) -> bool {
        match (self, ip) {
            (IpNet::V4(addr, prefix_len), IpAddr::V4(a)) => same_prefix(
                addr.bits as int,
                a.bits as int,
                32 - prefix_len,
            ),
            (IpNet::V6(addr, prefix_len), IpAddr::V6(a)) => same_prefix(
                addr.bits as int,
                a.bits as int,
                128 - prefix_len,
            ),
            _ => false,
        }
    }

    /// Whether the network contains the address.
    pub fn contains(&self, ip: &IpAddr) -> (r: bool)
        requires
            self.wf(),
        ensures
            r == self.has(*ip),
    {
        match (self, ip) {
            (IpNet::V4(addr, prefix_len), IpAddr::V4(a)) => v4_net_contains(
                addr.bits,
                *prefix_len,
                a.bits,
            ),
            (IpNet::V6(addr, prefix_len), IpAddr::V6(a)) => v6_net_contains(
                addr.bits,
                *prefix_len,
                a.bits,
            ),
            _ => false,
        }
    }
}

/// The two numbers differ at most in their last `host_bits` bits.
pub open spec fn same_prefix(a: int, b: int, host_bits: int) -> bool {
    a / (pow2(host_bits as nat) as int) == b / (pow2(host_bits as nat) as int)
}

/// `ipnet::Ipv4Net::contains` on an address: it lies between the first and the last
/// address of the network, that is, it starts with the network's prefix.
#[verifier::external_body]
fn v4_net_contains(addr: u32, prefix_len: u8, ip: u32) -> (r: bool)
    requires
        prefix_len <= 32,
    ensures
        r == same_prefix(addr as int, ip as int, 32 - prefix_len),
{
    let net = ipnet::Ipv4Net::new_assert(addr.into(), prefix_len);
    net.contains(&ipnet::Ipv4Net::new_assert(ip.into(), 32).addr())
}

/// `ipnet::Ipv6Net::contains` on an address: it lies between the first and the last
/// address of the network, that is, it starts with the network's prefix.
#[verifier::external_body]
fn v6_net_contains(addr: u128, prefix_len: u8, ip: u128) -> (r: bool)
    requires
        prefix_len <= 128,
    ensures
        r == same_prefix(addr as int, ip as int, 128 - prefix_len),
{
    let net = ipnet::Ipv6Net::new_assert(addr.into(), prefix_len);
    net.contains(&ipnet::Ipv6Net::new_assert(ip.into(), 128).addr())
}

/// The network that `ipnet` reads in a text, if it reads one.
pub uninterp spec fn net_value(s: Seq<char>) -> Option<IpNet>;

/// `ipnet::IpNet::from_str`: the network that the text names in CIDR notation. What
/// comes back depends on the text alone, and its prefix is no longer than its address;
/// the notation itself is left to `ipnet`. Where the text names no network,
/// `ipnet::AddrParseError` always reads the same.
#[verifier::external_body]
pub(crate) fn parse_net(text: &str) -> (r: Result<IpNet, String>)
    ensures
        match r {
            Ok(net) => net_value(text@) == Some(net) && net.wf(),
            Err(e) => net_value(text@) is None && e@ == "invalid IP address syntax"@,
        },
{
    match text.parse::<ipnet::IpNet>() {
        Ok(ipnet::IpNet::V4(n)) => Ok(IpNet::V4(Ipv4Addr { bits: n.addr().into() }, n.prefix_len())),
        Ok(ipnet::IpNet::V6(n)) => Ok(IpNet::V6(Ipv6Addr { bits: n.addr().into() }, n.prefix_len())),
        Err(e) => Err(e.to_string()),
    }
}

// Laws.

proof fn lemma_decimal_shape(n: nat)
    ensures
        all_digits(decimal(n)),
        digits_value(decimal(n)) == n,
        n > 0 ==> decimal(n)[0] != '0',
        n < 10 ==> decimal(n).len() == 1,
        n < 100 ==> decimal(n).len() <= 2,
        n < 1000 ==> decimal(n).len() <= 3,
        n >= 10 ==> decimal(n).len() > 1,
    decreases n,
{
    law_decimal_reads_back(n);
    if n >= 10 {
        lemma_decimal_shape(n / 10);
        assert(decimal(n)[0] == decimal(n / 10)[0]);
    }
}

proof fn lemma_digits_are_decimal(s: Seq<char>)
    requires
        all_digits(s),
        s.len() > 1 ==> s[0] != '0',
    ensures
        s == decimal(digits_value(s)),
    decreases s.len(),
{
    let rest = s.drop_last();
    let d = s.last() as int - '0' as int;
    assert(is_digit(s.last()));
    if s.len() == 1 {
        assert(rest =~= Seq::<char>::empty());
        assert(digits_value(rest) == 0);
        law_decimal_digits(rest, 0, d);
        assert(s =~= seq![s.last()]);
    } else {
        assert(rest[0] == s[0]);
        assert forall|i: int| 0 <= i < rest.len() implies is_digit(#[trigger] rest[i]) by {
            assert(rest[i] == s[i]);
        }
        lemma_digits_are_decimal(rest);
        let v = digits_value(rest);
        if v == 0 {
            assert(decimal(0) =~= seq!['0']);
            assert(rest[0] == '0');
        }
        law_decimal_digits(rest, v, d);
        assert(s =~= rest.push(s.last()));
    }
}

proof fn lemma_octet_text(s: Seq<char>, v: int)
    ensures
        octet_value(s) == Some(v) <==> 0 <= v <= 255 && s == decimal(v as nat),
{
    if octet_value(s) == Some(v) {
        lemma_digits_are_decimal(s);
    }
    if 0 <= v <= 255 {
        lemma_decimal_shape(v as nat);
        if v > 0 {
            assert(decimal(v as nat)[0] != '0');
        }
    }
}

/// Four numbers with dots between them.
pub open spec fn dotted(a: nat, b: nat, c: nat, d: nat) -> Seq<char> {
    decimal(a) + seq!['.'] + (decimal(b) + seq!['.'] + (decimal(c) + seq!['.'] + decimal(d)))
}

proof fn lemma_split_after_number(n: nat, rest: Seq<char>)
    ensures
        split_once(decimal(n) + seq!['.'] + rest, '.') == Some((decimal(n), rest)),
{
    let s = decimal(n) + seq!['.'] + rest;
    let k = decimal(n).len() as int;
    law_decimal_reads_back(n);
    assert(!is_digit('.'));
    assert forall|i: int| 0 <= i < k implies s[i] != '.' by {
        assert(s[i] == decimal(n)[i]);
        assert(is_digit(decimal(n)[i]));
    }
    lemma_first_index_is(s, '.', k);
    assert(s.take(k) =~= decimal(n));
    assert(s.skip(k + 1) =~= rest);
}

proof fn lemma_dotted_is_read(a: nat, b: nat, c: nat, d: nat)
    requires
        a <= 255,
        b <= 255,
        c <= 255,
        d <= 255,
    ensures
        ipv4_value(dotted(a, b, c, d)) == Some(
            (a * 0x100_0000 + b * 0x1_0000 + c * 0x100 + d) as u32,
        ),
{
    let tail = decimal(c) + seq!['.'] + decimal(d);
    let middle = decimal(b) + seq!['.'] + tail;
    lemma_split_after_number(a, middle);
    lemma_split_after_number(b, tail);
    lemma_split_after_number(c, decimal(d));
    lemma_octet_text(decimal(a), a as int);
    lemma_octet_text(decimal(b), b as int);
    lemma_octet_text(decimal(c), c as int);
    lemma_octet_text(decimal(d), d as int);
}

proof fn lemma_part_is_read(s: Seq<char>) -> (r: (nat, Seq<char>))
    requires
        split_once(s, '.') is Some,
        octet_value((split_once(s, '.')->0).0) is Some,
    ensures
        r.0 <= 255,
        octet_value((split_once(s, '.')->0).0) == Some(r.0 as int),
        r.1 == (split_once(s, '.')->0).1,
        s == decimal(r.0) + seq!['.'] + r.1,
{
    law_split(s, '.');
    let part = (split_once(s, '.')->0).0;
    lemma_octet_text(part, octet_value(part)->0);
    (octet_value(part)->0 as nat, (split_once(s, '.')->0).1)
}

proof fn lemma_what_is_read_is_dotted(s: Seq<char>) -> (r: (nat, nat, nat, nat))
    requires
        ipv4_value(s) is Some,
    ensures
        r.0 <= 255 && r.1 <= 255 && r.2 <= 255 && r.3 <= 255,
        s == dotted(r.0, r.1, r.2, r.3),
        ipv4_value(s) == Some((r.0 * 0x100_0000 + r.1 * 0x1_0000 + r.2 * 0x100 + r.3) as u32),
{
    let (w, after_w) = lemma_part_is_read(s);
    let (x, after_x) = lemma_part_is_read(after_w);
    let (y, last) = lemma_part_is_read(after_x);
    lemma_octet_text(last, octet_value(last)->0);
    (w, x, y, octet_value(last)->0 as nat)
}

/// An IPv4 address is written in one way only: its four octets in decimal, from the most
/// significant one on, with dots between them. That text is read as the address, and every
/// text that is read as an address is that text.
pub proof fn law_ipv4_text(s: Seq<char>, a: u8, b: u8, c: u8, d: u8)
    ensures
        ipv4_value(s) == Some((a * 0x100_0000 + b * 0x1_0000 + c * 0x100 + d) as u32) <==> s
            == dotted(a as nat, b as nat, c as nat, d as nat),
{
    lemma_dotted_is_read(a as nat, b as nat, c as nat, d as nat);
    if ipv4_value(s) == Some((a * 0x100_0000 + b * 0x1_0000 + c * 0x100 + d) as u32) {
        let (w, x, y, z) = lemma_what_is_read_is_dotted(s);
        assert(w * 0x100_0000 + x * 0x1_0000 + y * 0x100 + z == a * 0x100_0000 + b * 0x1_0000 + c
            * 0x100 + d);
        assert(w == a && x == b && y == c && z == d);
    }
}

/// A text is an address of at most one family, and IPv4 comes first.
pub proof fn law_family_of_a_text(s: Seq<char>)
    ensures
        ip_value(s) matches Some(IpAddr::V4(a)) ==> ipv4_value(s) == Some(a.bits),
        ipv4_value(s) matches Some(bits) ==> ip_value(s) == Some(IpAddr::V4(Ipv4Addr { bits })),
        ip_value(s) matches Some(IpAddr::V6(a)) ==> ipv4_value(s) is None && ipv6_value(s) == Some(
            a.bits,
        ),
        ip_value(s) is None <==> ipv4_value(s) is None && ipv6_value(s) is None,
{
}

proof fn lemma_same_prefix(a: int, b: int, host_bits: int)
    requires
        0 <= a,
        0 <= b,
        0 <= host_bits,
    ensures
        pow2(host_bits as nat) > 0,
        same_prefix(a, b, host_bits) <==> a - a % (pow2(host_bits as nat) as int) <= b && b < a - a
            % (pow2(host_bits as nat) as int) + pow2(host_bits as nat),
{
    let p = pow2(host_bits as nat) as int;
    vstd::arithmetic::power2::lemma_pow2_pos(host_bits as nat);
    vstd::arithmetic::div_mod::lemma_fundamental_div_mod(a, p);
    vstd::arithmetic::div_mod::lemma_fundamental_div_mod(b, p);
    let (qa, ra, qb, rb) = (a / p, a % p, b / p, b % p);
    assert(0 <= rb < p && 0 <= ra < p);
    if qa == qb {
        assert(a - ra == b - rb) by (nonlinear_arith)
            requires
                a == p * qa + ra,
                b == p * qb + rb,
                qa == qb,
        ;
    } else {
        assert(qa + 1 <= qb ==> p * qa + p <= p * qb) by (nonlinear_arith)
            requires
                p > 0,
        ;
        assert(qb + 1 <= qa ==> p * qb + p <= p * qa) by (nonlinear_arith)
            requires
                p > 0,
        ;
    }
}

/// A network holds a run of addresses of its own family: those that begin where its own
/// address has only zeros after the prefix, as many as there are numbers for the bits after
/// the prefix. So it holds its own address, the longest prefix leaves nothing else, and the
/// empty one leaves out nothing.
pub proof fn law_network_is_a_run_of_addresses(
    net4: Ipv4Addr,
    len4: u8,
    ip4: Ipv4Addr,
    net6: Ipv6Addr,
    len6: u8,
    ip6: Ipv6Addr,
)
    requires
        len4 <= 32,
        len6 <= 128,
    ensures
        ({
            let size = pow2((32 - len4) as nat);
            let first = net4.bits - net4.bits as int % (size as int);
            IpNet::V4(net4, len4).has(IpAddr::V4(ip4)) <==> first <= ip4.bits && ip4.bits < first
                + size
        }),
        ({
            let size = pow2((128 - len6) as nat);
            let first = net6.bits - net6.bits as int % (size as int);
            IpNet::V6(net6, len6).has(IpAddr::V6(ip6)) <==> first <= ip6.bits && ip6.bits < first
                + size
        }),
        !IpNet::V4(net4, len4).has(IpAddr::V6(ip6)),
        !IpNet::V6(net6, len6).has(IpAddr::V4(ip4)),
        IpNet::V4(net4, len4).has(IpAddr::V4(net4)),
        IpNet::V6(net6, len6).has(IpAddr::V6(net6)),
        IpNet::V4(net4, 32).has(IpAddr::V4(ip4)) <==> ip4 == net4,
        IpNet::V4(net4, 0).has(IpAddr::V4(ip4)),
{
    lemma_same_prefix(net4.bits as int, ip4.bits as int, 32 - len4);
    lemma_same_prefix(net6.bits as int, ip6.bits as int, 128 - len6);
    vstd::arithmetic::power2::lemma2_to64();
    lemma_same_prefix(net4.bits as int, ip4.bits as int, 0);
    lemma_same_prefix(net4.bits as int, ip4.bits as int, 32);
    assert(net4.bits as int % (pow2(0) as int) == 0);
    assert(net4.bits as int % (pow2(32) as int) == net4.bits);
}

/// Parts with colons between them.
pub open spec fn with_colons(parts: Seq<Seq<char>>) -> Seq<char>
    decreases parts.len(),
{
    if parts.len() == 0 {
        Seq::empty()
    } else if parts.len() == 1 {
        parts[0]
    } else {
        parts[0] + seq![':'] + with_colons(parts.skip(1))
    }
}

/// The number of which the groups are the digits, the most significant one first.
pub open spec fn number_of_groups(g: Seq<u16>) -> int
    decreases g.len(),
{
    if g.len() == 0 {
        0
    } else {
        0x1_0000 * number_of_groups(g.drop_last()) + g.last()
    }
}

/// Each part is a group, and the groups have these values.
pub open spec fn are_groups(parts: Seq<Seq<char>>, g: Seq<u16>) -> bool {
    &&& parts.len() == g.len()
    &&& forall|i: int| 0 <= i < parts.len() ==> #[trigger] group_value(parts[i]) == Some(g[i])
}

spec fn has_gap_at(s: Seq<char>, i: int) -> bool {
    0 <= i && i + 1 < s.len() && s[i] == ':' && s[i + 1] == ':'
}

proof fn lemma_group_has_no_colon(s: Seq<char>)
    requires
        group_value(s) is Some,
    ensures
        1 <= s.len() <= 4,
        forall|i: int| 0 <= i < s.len() ==> (#[trigger] s[i]) != ':',
{
    assert(!is_hex_digit(':'));
    assert forall|i: int| 0 <= i < s.len() implies (#[trigger] s[i]) != ':' by {
        assert(is_hex_digit(s[i]));
    }
}

proof fn lemma_colons(parts: Seq<Seq<char>>, g: Seq<u16>, ends: bool)
    requires
        are_groups(parts, g),
        parts.len() > 0,
    ensures
        groups(with_colons(parts), ends) == Some(g),
        with_colons(parts).len() > 0,
        with_colons(parts)[0] != ':',
        with_colons(parts).last() != ':',
        forall|i: int| !has_gap_at(with_colons(parts), i),
    decreases parts.len(),
{
    let s = with_colons(parts);
    let first = parts[0];
    assert(group_value(parts[0]) == Some(g[0]));
    lemma_group_has_no_colon(first);
    if parts.len() == 1 {
        lemma_first_index_is(s, ':', s.len() as int);
        assert(g =~= seq![g[0]]);
    } else {
        let rest = with_colons(parts.skip(1));
        let more = g.skip(1);
        assert forall|i: int| 0 <= i < parts.skip(1).len() implies #[trigger] group_value(
            parts.skip(1)[i],
        ) == Some(more[i]) by {
            assert(group_value(parts[i + 1]) == Some(g[i + 1]));
        }
        lemma_colons(parts.skip(1), more, ends);
        let k = first.len() as int;
        assert(s =~= first + seq![':'] + rest);
        assert forall|i: int| 0 <= i < k implies s[i] != ':' by {
            assert(s[i] == first[i]);
        }
        lemma_first_index_is(s, ':', k);
        assert(s.take(k) =~= first);
        assert(s.skip(k + 1) =~= rest);
        assert(g =~= seq![g[0]] + more);
        assert(s.last() == rest.last());
        assert forall|i: int| !has_gap_at(s, i) by {
            if has_gap_at(s, i) {
                if i < k {
                    assert(s[i] == first[i]);
                } else if i == k {
                    assert(s[i + 1] == rest[0]);
                } else {
                    assert(s[i] == rest[i - k - 1] && s[i + 1] == rest[i - k]);
                    assert(has_gap_at(rest, i - k - 1));
                }
            }
        }
    }
}

proof fn lemma_gap_index_is(s: Seq<char>, k: int)
    requires
        0 <= k <= s.len(),
        forall|i: int| 0 <= i < k ==> !has_gap_at(s, i),
        k < s.len() ==> has_gap_at(s, k),
    ensures
        gap_index(s) == k,
    decreases s.len(),
{
    if k == 0 {
        if s.len() > 0 {
            assert(has_gap_at(s, 0));
        }
    } else {
        assert(!has_gap_at(s, 0));
        let rest = s.drop_first();
        assert forall|i: int| 0 <= i < k - 1 implies !has_gap_at(rest, i) by {
            assert(!has_gap_at(s, i + 1));
            if has_gap_at(rest, i) {
                assert(rest[i] == s[i + 1] && rest[i + 1] == s[i + 2]);
                assert(has_gap_at(s, i + 1));
            }
        }
        if k < s.len() {
            assert(rest[k - 1] == s[k] && rest[k] == s[k + 1]);
        }
        lemma_gap_index_is(rest, k - 1);
    }
}

proof fn lemma_eight_groups(g: Seq<u16>)
    requires
        g.len() == 8,
    ensures
        groups_value(g) == number_of_groups(g),
        0 <= number_of_groups(g) <= u128::MAX,
{
    reveal_with_fuel(number_of_groups, 9);
}

/// Eight groups with colons between them, each of one to four hexadecimal digits, are the
/// IPv6 address of which they are the digits. With more or fewer groups the text is none.
pub proof fn law_ipv6_text(parts: Seq<Seq<char>>, g: Seq<u16>)
    requires
        are_groups(parts, g),
        parts.len() > 0,
    ensures
        g.len() == 8 ==> ipv6_value(with_colons(parts)) == Some(number_of_groups(g) as u128)
            && number_of_groups(g) <= u128::MAX,
        g.len() != 8 ==> ipv6_value(with_colons(parts)) is None,
{
    lemma_colons(parts, g, true);
    lemma_gap_index_is(with_colons(parts), with_colons(parts).len() as int);
    if g.len() == 8 {
        lemma_eight_groups(g);
    }
}

/// Two colons together stand for the zero groups that are missing to make eight, of which
/// there has to be at least one; they may stand at either end.
pub proof fn law_ipv6_gap(
    head: Seq<Seq<char>>,
    g: Seq<u16>,
    tail: Seq<Seq<char>>,
    h: Seq<u16>,
    zeros: Seq<u16>,
)
    requires
        are_groups(head, g),
        are_groups(tail, h),
        forall|i: int| 0 <= i < zeros.len() ==> #[trigger] zeros[i] == 0,
    ensures
        g.len() + zeros.len() + h.len() == 8 && zeros.len() > 0 ==> ipv6_value(
            with_colons(head) + seq![':', ':'] + with_colons(tail),
        ) == Some(number_of_groups(g + zeros + h) as u128),
        g.len() + h.len() >= 8 ==> ipv6_value(
            with_colons(head) + seq![':', ':'] + with_colons(tail),
        ) is None,
{
    let a = with_colons(head);
    let b = with_colons(tail);
    let s = a + seq![':', ':'] + b;
    let k = a.len() as int;
    if head.len() > 0 {
        lemma_colons(head, g, false);
    } else {
        assert(g =~= Seq::<u16>::empty());
    }
    if tail.len() > 0 {
        lemma_colons(tail, h, true);
    } else {
        assert(h =~= Seq::<u16>::empty());
    }
    assert forall|i: int| 0 <= i < k implies !has_gap_at(s, i) by {
        if has_gap_at(s, i) {
            assert(s[i] == a[i]);
            if i + 1 < k {
                assert(s[i + 1] == a[i + 1]);
                assert(has_gap_at(a, i));
            }
        }
    }
    assert(s[k] == ':' && s[k + 1] == ':');
    lemma_gap_index_is(s, k);
    assert(s.take(k) =~= a);
    assert(s.skip(k + 2) =~= b);
    if g.len() + zeros.len() + h.len() == 8 && zeros.len() > 0 {
        let filled = Seq::new((8 - g.len() - h.len()) as nat, |i: int| 0u16);
        assert(filled =~= zeros);
        lemma_eight_groups(g + zeros + h);
    }
}

/// A group reads as the number of which its hexadecimal digits are the digits, in whichever
/// case the letters are written.
pub proof fn law_hexadecimal_digits(s: Seq<char>, c: char)
    ensures
        hex_value(Seq::empty()) == 0,
        '0' <= c <= '9' ==> is_hex_digit(c) && hex_value(s.push(c)) == 16 * hex_value(s) + (c as int
            - '0' as int),
        'a' <= c <= 'f' ==> is_hex_digit(c) && hex_value(s.push(c)) == 16 * hex_value(s) + 10 + (
        c as int - 'a' as int),
        'A' <= c <= 'F' ==> is_hex_digit(c) && hex_value(s.push(c)) == 16 * hex_value(s) + 10 + (
        c as int - 'A' as int),
        is_hex_digit(c) ==> '0' <= c <= '9' || 'a' <= c <= 'f' || 'A' <= c <= 'F',
        group_value(s) is Some <==> 1 <= s.len() <= 4 && forall|i: int|
            0 <= i < s.len() ==> is_hex_digit(#[trigger] s[i]),
        group_value(s) matches Some(v) ==> v == hex_value(s),
{
    assert(s.push(c).drop_last() =~= s);
    if group_value(s) is Some {
        lemma_group_is_small(s);
    }
}

proof fn lemma_group_is_small(s: Seq<char>)
    requires
        s.len() <= 4,
        forall|i: int| 0 <= i < s.len() ==> is_hex_digit(#[trigger] s[i]),
    ensures
        0 <= hex_value(s),
        s.len() == 0 ==> hex_value(s) == 0,
        s.len() == 1 ==> hex_value(s) <= 0xf,
        s.len() == 2 ==> hex_value(s) <= 0xff,
        s.len() == 3 ==> hex_value(s) <= 0xfff,
        s.len() == 4 ==> hex_value(s) <= 0xffff,
    decreases s.len(),
{
    if s.len() > 0 {
        let rest = s.drop_last();
        assert forall|i: int| 0 <= i < rest.len() implies is_hex_digit(#[trigger] rest[i]) by {
            assert(rest[i] == s[i]);
        }
        lemma_group_is_small(rest);
        assert(is_hex_digit(s[s.len() - 1]));
    }
}

} // verus!
