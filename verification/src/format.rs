//! How numbers, byte counts and times are shown.

use crate::text::{
    chars_of, decimal, digit_char, push_decimal, push_two_digits, two_digits,
};
use vstd::arithmetic::power2::pow2;
use vstd::prelude::*;
use vstd::string::*;

verus! {

/// The time of day at so many seconds after an epoch at midnight.
pub open spec fn time_of_day(secs: u64) -> Seq<char> {
    two_digits((secs / 3600 % 24) as nat) + ":"@ + two_digits((secs / 60 % 60) as nat) + ":"@
        + two_digits((secs % 60) as nat)
}

/// The time of day, as `hh:mm:ss`.
pub fn fmt_time(secs: u64) -> (r: String)
    ensures
        r@ == time_of_day(secs),
{
    let mut s = String::new();
    push_two_digits(&mut s, secs / 3600 % 24);
    s.append(":");
    push_two_digits(&mut s, secs / 60 % 60);
    s.append(":");
    push_two_digits(&mut s, secs % 60);
    assert(s@ =~= time_of_day(secs));
    s
}

/// A span of time in hours, minutes and seconds, without the units above the largest one
/// that it fills.
pub open spec fn span(secs: u64) -> Seq<char> {
    let h = decimal((secs / 3600) as nat) + "h "@;
    let m = decimal((secs % 3600 / 60) as nat) + "m "@;
    let s = decimal((secs % 60) as nat) + "s"@;
    if secs >= 3600 {
        h + m + s
    } else if secs >= 60 {
        m + s
    } else {
        s
    }
}

/// A span of time, as `1h 2m 3s`.
pub fn fmt_uptime(secs: u64) -> (r: String)
    ensures
        r@ == span(secs),
{
    let h: u64 = secs / 3600;
    let m: u64 = secs % 3600 / 60;
    let mut s = String::new();
    if h > 0 {
        push_decimal(&mut s, h);
        s.append("h ");
    }
    if h > 0 || m > 0 {
        push_decimal(&mut s, m);
        s.append("m ");
    }
    push_decimal(&mut s, secs % 60);
    s.append("s");
    assert(s@ =~= span(secs));
    s
}

/// `a` divided by `b`, to the nearest whole number, and to the even one of two that are
/// equally near.
pub open spec fn nearest(a: nat, b: nat) -> nat {
    let q = a / b;
    let r = a % b;
    if 2 * r > b || (2 * r == b && q % 2 == 1) {
        q + 1
    } else {
        q
    }
}

fn divide_to_nearest(a: u128, b: u128) -> (r: u128)
    requires
        0 < b < 0x1_0000_0000_0000_0000,
        a < 0x1_0000_0000_0000_0000_0000_0000,
    ensures
        r == nearest(a as nat, b as nat),
{
    let q: u128 = a / b;
    let rest: u128 = a % b;
    assert(q <= a) by (nonlinear_arith)
        requires
            q == a / b,
            b > 0,
    ;
    if 2 * rest > b || (2 * rest == b && q % 2 == 1) {
        q + 1
    } else {
        q
    }
}

/// How many of its low bits a number loses when 53 are kept.
pub open spec fn lost_bits(n: nat) -> nat
    decreases n,
{
    if n < 0x20_0000_0000_0000 {
        0
    } else {
        1 + lost_bits(n / 2)
    }
}

/// The number nearest to `n` among those with 53 significant bits: what a binary64 holds
/// of it.
pub open spec fn in_binary64(n: nat) -> nat {
    nearest(n, pow2(lost_bits(n))) * pow2(lost_bits(n))
}

proof fn lemma_pow2_step(k: nat)
    ensures
        pow2(k + 1) == 2 * pow2(k),
        pow2(k) > 0,
{
    vstd::arithmetic::power2::lemma_pow2_unfold(k + 1);
    vstd::arithmetic::power2::lemma_pow2_pos(k);
}

proof fn lemma_lost_bits_are_few(n: nat)
    ensures
        n < 0x20_0000_0000_0000 * pow2(lost_bits(n)),
        lost_bits(n) > 0 ==> 0x10_0000_0000_0000 * pow2(lost_bits(n)) <= n,
    decreases n,
{
    vstd::arithmetic::power2::lemma2_to64();
    if n >= 0x20_0000_0000_0000 {
        lemma_lost_bits_are_few(n / 2);
        lemma_pow2_step(lost_bits(n / 2));
    }
}

fn to_binary64(n: u64) -> (r: u128)
    ensures
        r == in_binary64(n as nat),
        r <= 0x2_0000_0000_0000_0000,
{
    let mut unit: u128 = 1;
    let mut rest: u64 = n;
    let ghost mut k: nat = 0;
    proof {
        vstd::arithmetic::power2::lemma2_to64();
    }
    while rest >= 0x20_0000_0000_0000
        invariant
            unit == pow2(k),
            unit * rest <= n,
            lost_bits(n as nat) == k + lost_bits(rest as nat),
        decreases rest,
    {
        proof {
            lemma_pow2_step(k);
            assert(unit <= 0x800) by (nonlinear_arith)
                requires
                    unit * rest <= n,
                    rest >= 0x20_0000_0000_0000,
                    n <= 0xffff_ffff_ffff_ffff,
            ;
            assert(2 * unit * (rest / 2) <= unit * rest) by (nonlinear_arith)
                requires
                    2 * (rest / 2) <= rest,
                    0 <= unit,
            ;
        }
        unit = unit * 2;
        rest = rest / 2;
        proof {
            k = k + 1;
        }
    }
    proof {
        lemma_lost_bits_are_few(n as nat);
        lemma_pow2_step(k);
    }
    let ghost u = unit as int;
    assert(u <= 0x1000) by (nonlinear_arith)
        requires
            k > 0 ==> 0x10_0000_0000_0000 * u <= n,
            k == 0 ==> u == 1,
            n <= 0xffff_ffff_ffff_ffff,
    ;
    let q: u128 = divide_to_nearest(n as u128, unit);
    assert(n as int / u < 0x20_0000_0000_0000) by (nonlinear_arith)
        requires
            n < 0x20_0000_0000_0000 * u,
            u > 0,
    ;
    assert(q * unit <= 0x2_0000_0000_0000_0000) by (nonlinear_arith)
        requires
            q <= 0x20_0000_0000_0000,
            0 <= unit <= 0x1000,
    ;
    q * unit
}

/// A number of tenths, as a decimal fraction.
pub open spec fn tenths_text(tenths: nat) -> Seq<char> {
    decimal(tenths / 10) + "."@ + seq![digit_char((tenths % 10) as int)]
}

/// A number of bytes: below a KiB in full, below a MiB in KiB, and else in MiB, with one
/// digit after the point.
pub open spec fn bytes_text(n: u64) -> Seq<char> {
    if n < 1024 {
        decimal(n as nat) + "B"@
    } else if n < 1048576 {
        tenths_text(nearest(10 * n as nat, 1024)) + "K"@
    } else {
        tenths_text(nearest(10 * in_binary64(n as nat), 1048576)) + "M"@
    }
}

fn push_tenths(s: &mut String, tenths: u64)
    ensures
        final(s)@ == old(s)@ + tenths_text(tenths as nat),
{
    push_decimal(s, tenths / 10);
    s.append(".");
    push_decimal(s, tenths % 10);
    assert(s@ =~= old(s)@ + tenths_text(tenths as nat));
}

/// A number of bytes, as `12B`, `3.4K` or `5.6M`.
pub fn fmt_bytes(n: u64) -> (r: String)
    ensures
        r@ == bytes_text(n),
{
    let mut s = String::new();
    if n < 1024 {
        push_decimal(&mut s, n);
        s.append("B");
    } else if n < 1048576 {
        let tenths: u128 = divide_to_nearest(10 * n as u128, 1024);
        push_tenths(&mut s, tenths as u64);
        s.append("K");
    } else {
        let tenths: u128 = divide_to_nearest(10 * to_binary64(n), 1048576);
        push_tenths(&mut s, tenths as u64);
        s.append("M");
    }
    assert(s@ =~= bytes_text(n));
    s
}

/// So many spaces.
pub open spec fn spaces(n: nat) -> Seq<char> {
    Seq::new(n, |i: int| ' ')
}

/// The value, moved to the right end of a field of eight characters.
pub open spec fn stats_field(value: Seq<char>) -> Seq<char> {
    if value.len() < 8 {
        spaces((8 - value.len()) as nat) + value
    } else {
        value
    }
}

/// The value, moved to the right end of a field of eight characters.
pub fn fmt_stats_field(value: &str) -> (r: String)
    ensures
        r@ == stats_field(value@),
{
    let chars = chars_of(value);
    let mut s = String::new();
    let mut width: usize = chars.len();
    while width < 8
        invariant
            value@.len() <= width,
            width <= 8 || width == value@.len(),
            s@ == spaces((width - value@.len()) as nat),
        decreases 8 - width,
    {
        s.push(' ');
        width = width + 1;
        assert(s@ =~= spaces((width - value@.len()) as nat));
    }
    s.append(value);
    assert(s@ =~= stats_field(value@));
    s
}

/// How long something took, in the unit that it is shown in.
#[derive(Debug, Clone, Copy, PartialEq, Eq, Structural)]
pub enum Span {
    /// Whole milliseconds.
    Millis(u64),
    /// Nanoseconds, shown in seconds.
    Seconds(u64),
}

/// How a length of time is shown: below a second in milliseconds, and else in seconds.
pub open spec fn shown_span(nanos: u64) -> Span {
    if nanos < 1_000_000_000 {
        Span::Millis(nanos / 1_000_000)
    } else {
        Span::Seconds(nanos)
    }
}

/// How a length of time is shown.
pub fn span_of(nanos: u64) -> (r: Span)
    ensures
        r == shown_span(nanos),
{
    if nanos < 1_000_000_000 {
        Span::Millis(nanos / 1_000_000)
    } else {
        Span::Seconds(nanos)
    }
}

/// The part of the attempts that succeeded, as `(97%)`; empty while there are none.
pub open spec fn percentage(ok: u64, total: u64) -> Seq<char> {
    if total == 0 {
        Seq::empty()
    } else {
        let hundredfold = if 100 * ok <= u64::MAX {
            100 * ok
        } else {
            u64::MAX as int
        };
        "("@ + decimal((hundredfold / total as int) as nat) + "%)"@
    }
}

/// The part of the attempts that succeeded.
pub fn fmt_percentage(ok: u64, total: u64) -> (r: String)
    ensures
        r@ == percentage(ok, total),
{
    let mut s = String::new();
    if total == 0 {
        assert(s@ =~= Seq::<char>::empty());
        return s;
    }
    let hundredfold: u64 = match ok.checked_mul(100) {
        Some(n) => n,
        None => u64::MAX,
    };
    s.append("(");
    push_decimal(&mut s, hundredfold / total);
    s.append("%)");
    assert(s@ =~= percentage(ok, total));
    s
}

/// A quotient to the nearest whole number is off by half of the divisor at most, and it is
/// even where it is off by just that.
pub proof fn law_nearest_is_nearest(a: nat, b: nat)
    requires
        b > 0,
    ensures
        2 * (nearest(a, b) * b - a) <= b,
        2 * (a - nearest(a, b) * b) <= b,
        2 * (nearest(a, b) * b - a) == b || 2 * (a - nearest(a, b) * b) == b ==> nearest(a, b) % 2
            == 0,
{
    let q = a / b;
    let r = a % b;
    vstd::arithmetic::div_mod::lemma_fundamental_div_mod(a as int, b as int);
    assert(q * b == b * q) by (nonlinear_arith);
    assert((q + 1) * b == q * b + b) by (nonlinear_arith);
    assert(0 <= r < b);
}

/// The time of day shows the hours, minutes and seconds since midnight, each in two digits.
pub proof fn law_time_of_day(secs: u64, days: nat, h: nat, m: nat, s: nat)
    requires
        h < 24,
        m < 60,
        s < 60,
        secs == 86400 * days + 3600 * h + 60 * m + s,
    ensures
        time_of_day(secs) == two_digits(h) + ":"@ + two_digits(m) + ":"@ + two_digits(s),
{
    assert(secs as int / 3600 == 24 * days + h);
    assert(secs as int / 60 == 1440 * days + 60 * h + m);
    assert((24 * days + h) % 24 == h);
    assert((1440 * days + 60 * h + m) % 60 == m);
    assert(secs as int % 60 == s);
}

/// A span of time shows its hours, minutes and seconds; hours that are none are left out,
/// and so are minutes that are none before which no hours stand.
pub proof fn law_span(secs: u64, h: nat, m: nat, s: nat)
    requires
        m < 60,
        s < 60,
        secs == 3600 * h + 60 * m + s,
    ensures
        span(secs) == (if h > 0 {
            decimal(h) + "h "@ + (decimal(m) + "m "@) + (decimal(s) + "s"@)
        } else if m > 0 {
            decimal(m) + "m "@ + (decimal(s) + "s"@)
        } else {
            decimal(s) + "s"@
        }),
{
    assert(secs as int / 3600 == h);
    assert(secs as int % 3600 == 60 * m + s);
    assert((60 * m + s) / 60 == m);
    assert(secs as int % 60 == s);
}

/// A number of tenths shows its whole part, a point and the digit that is left.
pub proof fn law_tenths(whole: nat, d: nat)
    requires
        d < 10,
    ensures
        tenths_text(10 * whole + d) == decimal(whole) + "."@ + seq![('0' as int + d) as char],
{
    assert((10 * whole + d) / 10 == whole);
    assert((10 * whole + d) % 10 == d);
}

/// What a binary64 holds of a number: the number itself if it has no more than 53 bits, and
/// else a number that is off by half of the last bit that is kept, at most.
pub proof fn law_binary64_is_near(n: nat)
    ensures
        n < 0x20_0000_0000_0000 ==> in_binary64(n) == n,
        2 * (in_binary64(n) - n) <= pow2(lost_bits(n)),
        2 * (n - in_binary64(n)) <= pow2(lost_bits(n)),
        n >= 0x20_0000_0000_0000 ==> 0x10_0000_0000_0000 * pow2(lost_bits(n)) <= n,
{
    lemma_lost_bits_are_few(n);
    lemma_pow2_step(lost_bits(n));
    law_nearest_is_nearest(n, pow2(lost_bits(n)));
    vstd::arithmetic::power2::lemma2_to64();
    if n < 0x20_0000_0000_0000 {
        assert(pow2(0) == 1);
        assert(nearest(n, 1) == n);
    }
}

/// A number of bytes is shown in full below 1024, in KiB below 1048576 and else in MiB, to
/// the nearest tenth.
pub proof fn law_bytes_are_shown_in_their_unit(n: u64, tenths: nat)
    ensures
        n < 1024 ==> bytes_text(n) == decimal(n as nat) + "B"@,
        1024 <= n < 1048576 && 2 * (1024 * tenths - 10 * n) < 1024 && 2 * (10 * n - 1024 * tenths)
            < 1024 ==> bytes_text(n) == tenths_text(tenths) + "K"@,
        1048576 <= n < 0x20_0000_0000_0000 && 2 * (1048576 * tenths - 10 * n) < 1048576 && 2 * (10
            * n - 1048576 * tenths) < 1048576 ==> bytes_text(n) == tenths_text(tenths) + "M"@,
{
    law_nearest_is_nearest(10 * n as nat, 1024);
    law_nearest_is_nearest(10 * n as nat, 1048576);
    law_binary64_is_near(n as nat);
}

/// The percentage is the whole part of a hundred times the share; it is at most a hundred
/// where no more succeeded than were tried, and nothing is shown while nothing was.
pub proof fn law_percentage(ok: u64, total: u64, p: nat)
    ensures
        percentage(ok, 0) == Seq::<char>::empty(),
        total > 0 && 100 * ok <= u64::MAX && p * total <= 100 * ok < (p + 1) * total ==> percentage(
            ok,
            total,
        ) == "("@ + decimal(p) + "%)"@,
        total > 0 && p * total <= 100 * ok && ok <= total ==> p <= 100,
{
    if total > 0 && 100 * ok <= u64::MAX && p * total <= 100 * ok < (p + 1) * total {
        let n = 100 * ok;
        let t = total as int;
        vstd::arithmetic::div_mod::lemma_fundamental_div_mod(n, t);
        let q = n / t;
        let r = n % t;
        assert(q == p) by (nonlinear_arith)
            requires
                n == t * q + r,
                0 <= r < t,
                p * t <= n < (p + 1) * t,
        ;
    }
    if total > 0 && p * total <= 100 * ok && ok <= total {
        assert(p <= 100) by (nonlinear_arith)
            requires
                p * total <= 100 * ok,
                ok <= total,
                total > 0,
        ;
    }
}

/// A field ends with the value and holds only spaces before it; it is eight characters wide,
/// unless the value is wider.
pub proof fn law_stats_field(value: Seq<char>, i: int)
    ensures
        stats_field(value).len() == (if value.len() <= 8 {
            8
        } else {
            value.len()
        }),
        stats_field(value).skip(stats_field(value).len() - value.len()) == value,
        0 <= i < stats_field(value).len() - value.len() ==> stats_field(value)[i] == ' ',
{
    assert(stats_field(value).skip(stats_field(value).len() - value.len()) =~= value);
}

/// Less than a second is shown in whole milliseconds, and more in seconds.
pub proof fn law_spans_have_their_unit(nanos: u64)
    ensures
        nanos < 1_000_000_000 ==> (shown_span(nanos) matches Span::Millis(ms) && ms * 1_000_000
            <= nanos && nanos < (ms + 1) * 1_000_000),
        nanos >= 1_000_000_000 ==> shown_span(nanos) == Span::Seconds(nanos),
{
}

} // verus!
