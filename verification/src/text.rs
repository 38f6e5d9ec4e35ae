//! Text as sequences of characters: trimming, splitting, decimal numbers.

use vstd::prelude::*;
use vstd::slice::slice_subrange;
use vstd::string::*;

verus! {

/// `String::push` appends the character to the string.
pub assume_specification[ String::push ](s: &mut String, c: char)
    ensures
        final(s)@ == old(s)@.push(c),
;

/// The character has the Unicode property `White_Space`.
pub open spec fn is_white_space(c: char) -> bool {
    let n = c as int;
    ||| 0x9 <= n <= 0xd
    ||| n == 0x20
    ||| n == 0x85
    ||| n == 0xa0
    ||| n == 0x1680
    ||| 0x2000 <= n <= 0x200a
    ||| 0x2028 <= n <= 0x2029
    ||| n == 0x202f
    ||| n == 0x205f
    ||| n == 0x3000
}

/// Whether the character is white space.
pub fn is_whitespace(c: char) -> (r: bool)
    ensures
        r == is_white_space(c),
{
    let n: u32 = c as u32;
    (0x9 <= n && n <= 0xd) || n == 0x20 || n == 0x85 || n == 0xa0 || n == 0x1680 || (0x2000 <= n
        && n <= 0x200a) || n == 0x2028 || n == 0x2029 || n == 0x202f || n == 0x205f || n == 0x3000
}

/// The characters of a string, in order.
pub fn chars_of(s: &str) -> (r: Vec<char>)
    ensures
        r@ == s@,
{
    let mut r: Vec<char> = Vec::new();
    for c in it: s.chars()
        invariant
            it.seq() == s@,
            r@ == s@.take(it.index() as int),
    {
        r.push(c);
    }
    r
}

/// The string of the given characters.
pub fn text_of(chars: &[char]) -> (r: String)
    ensures
        r@ == chars@,
{
    let mut r = String::new();
    for i in 0..chars.len()
        invariant
            r@ == chars@.take(i as int),
    {
        r.push(chars[i]);
        assert(chars@.take(i + 1) =~= chars@.take(i as int).push(chars@[i as int]));
    }
    assert(chars@.take(chars@.len() as int) =~= chars@);
    r
}

/// Whether two strings hold the same characters.
pub fn same_text(a: &str, b: &str) -> (r: bool)
    ensures
        r == (a@ == b@),
{
    let x = chars_of(a);
    let y = chars_of(b);
    same_chars(x.as_slice(), y.as_slice())
}

/// Whether two runs of characters are the same.
pub fn same_chars(a: &[char], b: &[char]) -> (r: bool)
    ensures
        r == (a@ == b@),
{
    if a.len() != b.len() {
        return false;
    }
    for i in 0..a.len()
        invariant
            a@.len() == b@.len(),
            forall|j: int| 0 <= j < i ==> a@[j] == b@[j],
    {
        if a[i] != b[i] {
            return false;
        }
    }
    assert(a@ =~= b@);
    true
}

/// A copy of a string.
pub fn copy_text(s: &str) -> (r: String)
    ensures
        r@ == s@,
{
    s.to_owned()
}

/// `s` without the white space it starts with.
pub open spec fn trim_start(s: Seq<char>) -> Seq<char>
    decreases s.len(),
{
    if s.len() > 0 && is_white_space(s[0]) {
        trim_start(s.drop_first())
    } else {
        s
    }
}

/// `s` without the white space it ends with.
pub open spec fn trim_end(s: Seq<char>) -> Seq<char>
    decreases s.len(),
{
    if s.len() > 0 && is_white_space(s.last()) {
        trim_end(s.drop_last())
    } else {
        s
    }
}

/// `s` without the white space around it.
pub open spec fn trimmed(s: Seq<char>) -> Seq<char> {
    trim_end(trim_start(s))
}

/// The characters without the white space around them.
pub fn trim(s: &[char]) -> (r: &[char])
    ensures
        r@ == trimmed(s@),
{
    let mut lo: usize = 0;
    assert(s@.skip(0) =~= s@);
    while lo < s.len() && is_whitespace(s[lo])
        invariant
            lo <= s@.len(),
            trim_start(s@.skip(lo as int)) == trim_start(s@),
        decreases s@.len() - lo,
    {
        assert(s@.skip(lo as int).drop_first() =~= s@.skip(lo + 1));
        lo = lo + 1;
    }
    assert(trim_start(s@) == s@.skip(lo as int));
    let mut hi: usize = s.len();
    assert(s@.subrange(lo as int, hi as int) =~= s@.skip(lo as int));
    while hi > lo && is_whitespace(s[hi - 1])
        invariant
            lo <= hi <= s@.len(),
            trim_end(s@.subrange(lo as int, hi as int)) == trimmed(s@),
        decreases hi,
    {
        assert(s@.subrange(lo as int, hi as int).drop_last() =~= s@.subrange(
            lo as int,
            hi - 1,
        ));
        hi = hi - 1;
    }
    slice_subrange(s, lo, hi)
}

/// Where `c` first occurs in `s`, or the length of `s` if it does not.
pub open spec fn first_index_of(s: Seq<char>, c: char) -> nat
    decreases s.len(),
{
    if s.len() == 0 || s[0] == c {
        0
    } else {
        1 + first_index_of(s.drop_first(), c)
    }
}

/// The index of the first occurrence lies in `s` exactly where `s` contains `c`, and
/// nothing before it is `c`.
pub proof fn lemma_first_index_of(s: Seq<char>, c: char)
    ensures
        first_index_of(s, c) <= s.len(),
        first_index_of(s, c) < s.len() <==> s.contains(c),
        first_index_of(s, c) < s.len() ==> s[first_index_of(s, c) as int] == c,
        forall|i: int| 0 <= i < first_index_of(s, c) ==> s[i] != c,
    decreases s.len(),
{
    if s.len() > 0 && s[0] != c {
        let rest = s.drop_first();
        lemma_first_index_of(rest, c);
        assert forall|i: int| 0 <= i < first_index_of(s, c) implies s[i] != c by {
            if i > 0 {
                assert(rest[i - 1] == s[i]);
            }
        }
        if s.contains(c) {
            let i = choose|i: int| 0 <= i < s.len() && s[i] == c;
            assert(rest[i - 1] == c);
            assert(rest.contains(c));
        }
    }
}

/// The first index is the one at which `c` stands with no `c` before it.
pub proof fn lemma_first_index_is(s: Seq<char>, c: char, k: int)
    requires
        0 <= k <= s.len(),
        forall|i: int| 0 <= i < k ==> s[i] != c,
        k < s.len() ==> s[k] == c,
    ensures
        first_index_of(s, c) == k,
{
    lemma_first_index_of(s, c);
    let f = first_index_of(s, c) as int;
    if f < k {
        assert(s[f] != c);
    }
    if f > k {
        assert(s[k] != c);
    }
}

/// The index of the first `c`, or the length if there is none.
pub fn find_char(s: &[char], c: char) -> (r: usize)
    ensures
        r == first_index_of(s@, c),
        r <= s@.len(),
{
    let mut i: usize = 0;
    while i < s.len() && s[i] != c
        invariant
            i <= s@.len(),
            forall|j: int| 0 <= j < i ==> s@[j] != c,
        decreases s@.len() - i,
    {
        i = i + 1;
    }
    proof {
        lemma_first_index_is(s@, c, i as int);
    }
    i
}

/// Whether the characters contain `c`.
pub fn contains_char(s: &[char], c: char) -> (r: bool)
    ensures
        r == s@.contains(c),
{
    let i: usize = find_char(s, c);
    proof {
        lemma_first_index_of(s@, c);
    }
    i < s.len()
}

/// What stands before the first `sep` and what stands after it.
pub open spec fn split_once(s: Seq<char>, sep: char) -> Option<(Seq<char>, Seq<char>)> {
    let i = first_index_of(s, sep) as int;
    if i < s.len() {
        Some((s.take(i), s.skip(i + 1)))
    } else {
        None
    }
}

/// Splits the characters at the first `sep`.
pub fn split_at_first(s: &[char], sep: char) -> (r: Option<(&[char], &[char])>)
    ensures
        match r {
            Some((a, b)) => split_once(s@, sep) == Some((a@, b@)),
            None => split_once(s@, sep) is None,
        },
{
    let i: usize = find_char(s, sep);
    if i < s.len() {
        let a = slice_subrange(s, 0, i);
        let b = slice_subrange(s, i + 1, s.len());
        assert(a@ =~= s@.take(i as int));
        assert(b@ =~= s@.skip(i + 1));
        Some((a, b))
    } else {
        None
    }
}

/// `c` in lower case, if it is an ASCII letter.
pub open spec fn ascii_lower(c: char) -> char {
    if 'A' <= c <= 'Z' {
        (c as int + 32) as char
    } else {
        c
    }
}

/// The two texts differ at most in the case of ASCII letters.
pub open spec fn same_ignoring_ascii_case(a: Seq<char>, b: Seq<char>) -> bool {
    &&& a.len() == b.len()
    &&& forall|i: int| 0 <= i < a.len() ==> ascii_lower(a[i]) == ascii_lower(#[trigger] b[i])
}

fn to_ascii_lower(c: char) -> (r: char)
    ensures
        r == ascii_lower(c),
{
    if 'A' <= c && c <= 'Z' {
        let n: u8 = c as u8;
        (n + 32) as char
    } else {
        c
    }
}

/// Compares two runs of characters, ignoring the case of ASCII letters.
pub fn eq_ignore_ascii_case(a: &[char], b: &[char]) -> (r: bool)
    ensures
        r == same_ignoring_ascii_case(a@, b@),
{
    if a.len() != b.len() {
        return false;
    }
    for i in 0..a.len()
        invariant
            a@.len() == b@.len(),
            forall|j: int| 0 <= j < i ==> ascii_lower(a@[j]) == ascii_lower(#[trigger] b@[j]),
    {
        if to_ascii_lower(a[i]) != to_ascii_lower(b[i]) {
            assert(ascii_lower(a@[i as int]) != ascii_lower(b@[i as int]));
            return false;
        }
    }
    true
}

// Decimal numbers.

pub open spec fn is_digit(c: char) -> bool {
    '0' <= c <= '9'
}

/// One or more decimal digits.
pub open spec fn all_digits(s: Seq<char>) -> bool {
    &&& s.len() > 0
    &&& forall|i: int| 0 <= i < s.len() ==> is_digit(#[trigger] s[i])
}

/// The number that a run of digits stands for.
pub open spec fn digits_value(s: Seq<char>) -> nat
    decreases s.len(),
{
    if s.len() == 0 {
        0
    } else {
        (10 * digits_value(s.drop_last()) + (s.last() as int - '0' as int)) as nat
    }
}

/// The value of a number written in decimal: digits with an optional `+` before them.
pub open spec fn unsigned_value(s: Seq<char>) -> Option<int> {
    if all_digits(s) {
        Some(digits_value(s) as int)
    } else if s.len() > 0 && s[0] == '+' && all_digits(s.drop_first()) {
        Some(digits_value(s.drop_first()) as int)
    } else {
        None
    }
}

/// The value of a number written in decimal: digits with an optional sign before them.
pub open spec fn signed_value(s: Seq<char>) -> Option<int> {
    if s.len() > 0 && s[0] == '-' && all_digits(s.drop_first()) {
        Some(-(digits_value(s.drop_first()) as int))
    } else {
        unsigned_value(s)
    }
}

/// The 32-bit signed number that the text stands for, if it stands for one.
pub open spec fn i32_value(s: Seq<char>) -> Option<i32> {
    match signed_value(s) {
        Some(v) => if i32::MIN <= v <= i32::MAX {
            Some(v as i32)
        } else {
            None
        },
        None => None,
    }
}

/// The 32-bit unsigned number that the text stands for, if it stands for one.
pub open spec fn u32_value(s: Seq<char>) -> Option<u32> {
    match unsigned_value(s) {
        Some(v) => if v <= u32::MAX {
            Some(v as u32)
        } else {
            None
        },
        None => None,
    }
}

/// More digits never make a smaller number.
pub proof fn lemma_digits_value_grows(s: Seq<char>, k: int)
    requires
        0 <= k <= s.len(),
        forall|i: int| 0 <= i < s.len() ==> is_digit(#[trigger] s[i]),
    ensures
        digits_value(s.take(k)) <= digits_value(s),
    decreases s.len() - k,
{
    if k == s.len() {
        assert(s.take(k) =~= s);
    } else {
        assert(s.take(k + 1).drop_last() =~= s.take(k));
        assert(is_digit(s[k]));
        lemma_digits_value_grows(s, k + 1);
    }
}

/// The value of a run of digits, if the run is one and its value is at most `max`.
fn bounded_digits(s: &[char], max: u64) -> (r: Option<u64>)
    requires
        max <= 0x1_0000_0000,
    ensures
        match r {
            Some(v) => all_digits(s@) && v == digits_value(s@) && v <= max,
            None => !all_digits(s@) || digits_value(s@) > max,
        },
{
    if s.len() == 0 {
        return None;
    }
    for i in 0..s.len()
        invariant
            forall|j: int| 0 <= j < i ==> is_digit(#[trigger] s@[j]),
    {
        if s[i] < '0' || s[i] > '9' {
            assert(!is_digit(s@[i as int]));
            return None;
        }
    }
    let mut v: u64 = 0;
    assert(digits_value(s@.take(0)) == 0);
    for i in 0..s.len()
        invariant
            max <= 0x1_0000_0000,
            v <= max,
            v == digits_value(s@.take(i as int)),
            all_digits(s@),
    {
        assert(is_digit(s@[i as int]));
        let d: u64 = (s[i] as u32 - '0' as u32) as u64;
        assert(s@.take(i + 1).drop_last() =~= s@.take(i as int));
        assert(s@.take(i + 1).last() == s@[i as int]);
        v = v * 10 + d;
        if v > max {
            proof {
                lemma_digits_value_grows(s@, i + 1);
            }
            return None;
        }
    }
    assert(s@.take(s@.len() as int) =~= s@);
    Some(v)
}

/// Reads a 32-bit unsigned number.
pub fn read_u32(s: &[char]) -> (r: Option<u32>)
    ensures
        r == u32_value(s@),
{
    if s.len() > 0 && s[0] == '+' {
        assert(!is_digit(s@[0]));
        let rest = slice_subrange(s, 1, s.len());
        assert(rest@ =~= s@.drop_first());
        return match bounded_digits(rest, 0xffff_ffff) {
            Some(v) => Some(v as u32),
            None => None,
        };
    }
    match bounded_digits(s, 0xffff_ffff) {
        Some(v) => Some(v as u32),
        None => None,
    }
}

/// Reads a 32-bit signed number.
pub fn read_i32(s: &[char]) -> (r: Option<i32>)
    ensures
        r == i32_value(s@),
{
    if s.len() > 0 && s[0] == '-' {
        assert(!is_digit(s@[0]));
        let rest = slice_subrange(s, 1, s.len());
        assert(rest@ =~= s@.drop_first());
        return match bounded_digits(rest, 0x8000_0000) {
            Some(v) => Some((-(v as i64)) as i32),
            None => None,
        };
    }
    if s.len() > 0 && s[0] == '+' {
        assert(!is_digit(s@[0]));
        let rest = slice_subrange(s, 1, s.len());
        assert(rest@ =~= s@.drop_first());
        return match bounded_digits(rest, 0x7fff_ffff) {
            Some(v) => Some(v as i32),
            None => None,
        };
    }
    match bounded_digits(s, 0x7fff_ffff) {
        Some(v) => Some(v as i32),
        None => None,
    }
}

/// The digit that stands for a number below ten.
pub open spec fn digit_char(d: int) -> char {
    ('0' as int + d) as char
}

/// `n` in decimal.
pub open spec fn decimal(n: nat) -> Seq<char>
    decreases n,
{
    if n < 10 {
        seq![digit_char(n as int)]
    } else {
        decimal(n / 10).push(digit_char((n % 10) as int))
    }
}

/// `n` in decimal, with a `-` before it where it is negative.
pub open spec fn signed_decimal(n: int) -> Seq<char> {
    if n < 0 {
        seq!['-'] + decimal((-n) as nat)
    } else {
        decimal(n as nat)
    }
}

/// `n` in decimal, with zeros before it to make at least two digits.
pub open spec fn two_digits(n: nat) -> Seq<char> {
    if n < 10 {
        seq!['0'] + decimal(n)
    } else {
        decimal(n)
    }
}

/// Appends a number below ten as a digit.
fn push_digit(s: &mut String, d: u64)
    requires
        d < 10,
    ensures
        final(s)@ == old(s)@.push(digit_char(d as int)),
{
    let c: char = ('0' as u8 + d as u8) as char;
    s.push(c);
}

/// Appends a number in decimal.
pub fn push_decimal(s: &mut String, n: u64)
    ensures
        final(s)@ == old(s)@ + decimal(n as nat),
    decreases n,
{
    if n >= 10 {
        push_decimal(s, n / 10);
    }
    push_digit(s, n % 10);
    assert(s@ =~= old(s)@ + decimal(n as nat));
}

/// Appends a signed number in decimal.
pub fn push_signed_decimal(s: &mut String, n: i32)
    ensures
        final(s)@ == old(s)@ + signed_decimal(n as int),
{
    if n < 0 {
        s.push('-');
        push_decimal(s, (-(n as i64)) as u64);
        assert(s@ =~= old(s)@ + signed_decimal(n as int));
    } else {
        push_decimal(s, n as u64);
    }
}

/// Appends a number in decimal, in at least two digits.
pub fn push_two_digits(s: &mut String, n: u64)
    ensures
        final(s)@ == old(s)@ + two_digits(n as nat),
{
    if n < 10 {
        s.push('0');
    }
    push_decimal(s, n);
    assert(s@ =~= old(s)@ + two_digits(n as nat));
}

/// A number in decimal.
pub fn decimal_text(n: u64) -> (r: String)
    ensures
        r@ == decimal(n as nat),
{
    let mut r = String::new();
    push_decimal(&mut r, n);
    assert(r@ =~= decimal(n as nat));
    r
}

/// Reading a number back from its decimal digits gives the number.
pub proof fn law_decimal_reads_back(n: nat)
    ensures
        all_digits(decimal(n)),
        digits_value(decimal(n)) == n,
    decreases n,
{
    if n < 10 {
        assert(decimal(n).drop_last() =~= Seq::<char>::empty());
        assert(digits_value(decimal(n).drop_last()) == 0);
        assert(decimal(n)[0] == digit_char(n as int));
    } else {
        law_decimal_reads_back(n / 10);
        assert(decimal(n).drop_last() =~= decimal(n / 10));
        assert forall|i: int| 0 <= i < decimal(n).len() implies is_digit(#[trigger] decimal(n)[i]) by {
            if i < decimal(n / 10).len() {
                assert(decimal(n)[i] == decimal(n / 10)[i]);
            }
        }
    }
}

/// Decimal notation: one more digit at the end makes the number ten times as large and adds
/// the digit, both for reading and for writing.
pub proof fn law_decimal_digits(s: Seq<char>, n: nat, d: int)
    requires
        0 <= d < 10,
    ensures
        digits_value(Seq::empty()) == 0,
        digits_value(s.push(('0' as int + d) as char)) == 10 * digits_value(s) + d,
        decimal(d as nat) == seq![('0' as int + d) as char],
        n > 0 ==> decimal((10 * n + d) as nat) == decimal(n).push(('0' as int + d) as char),
{
    assert(s.push(('0' as int + d) as char).drop_last() =~= s);
    assert((10 * n + d) as nat / 10 == n);
    assert((10 * n + d) as nat % 10 == d);
}

/// Numbers are read back from their decimal form if they fit, and refused if they do not. A
/// sign before the digits counts: a `+` everywhere, a `-` only where numbers have a sign.
pub proof fn law_numbers_are_read(n: nat)
    ensures
        u32_value(decimal(n)) == (if n <= u32::MAX {
            Some(n as u32)
        } else {
            None::<u32>
        }),
        u32_value(seq!['+'] + decimal(n)) == u32_value(decimal(n)),
        u32_value(seq!['-'] + decimal(n)) is None,
        i32_value(decimal(n)) == (if n <= i32::MAX {
            Some(n as i32)
        } else {
            None::<i32>
        }),
        i32_value(seq!['+'] + decimal(n)) == i32_value(decimal(n)),
        i32_value(seq!['-'] + decimal(n)) == (if n <= 0x8000_0000 {
            Some((-n) as i32)
        } else {
            None::<i32>
        }),
{
    law_decimal_reads_back(n);
    let plus = seq!['+'] + decimal(n);
    let minus = seq!['-'] + decimal(n);
    assert(plus.drop_first() =~= decimal(n));
    assert(minus.drop_first() =~= decimal(n));
    assert(is_digit(decimal(n)[0]));
    assert(!is_digit(plus[0]) && !is_digit(minus[0]));
    assert(!all_digits(plus) && !all_digits(minus));
}

/// What is read as a number holds nothing but decimal digits after its first character,
/// which is a digit or a sign.
pub proof fn law_numbers_hold_digits_only(s: Seq<char>, i: int)
    requires
        0 <= i < s.len(),
    ensures
        u32_value(s) is Some ==> ('0' <= s[i] && s[i] <= '9') || (i == 0 && s[0] == '+'
            && s.len() > 1),
        i32_value(s) is Some ==> ('0' <= s[i] && s[i] <= '9') || (i == 0 && (s[0] == '+' || s[0]
            == '-') && s.len() > 1),
        u32_value(Seq::empty()) is None,
        i32_value(Seq::empty()) is None,
{
    if i > 0 {
        assert(s.drop_first()[i - 1] == s[i]);
    }
    if all_digits(s) {
        assert(is_digit(s[i]));
    } else if all_digits(s.drop_first()) && i > 0 {
        assert(is_digit(s.drop_first()[i - 1]));
    }
}

proof fn lemma_trim_start(s: Seq<char>) -> (k: int)
    ensures
        0 <= k <= s.len(),
        trim_start(s) == s.skip(k),
        forall|i: int| 0 <= i < k ==> is_white_space(#[trigger] s[i]),
        k < s.len() ==> !is_white_space(s[k]),
    decreases s.len(),
{
    if s.len() > 0 && is_white_space(s[0]) {
        let rest = s.drop_first();
        let k = lemma_trim_start(rest);
        assert(rest.skip(k) =~= s.skip(k + 1));
        assert forall|i: int| 0 <= i < k + 1 implies is_white_space(#[trigger] s[i]) by {
            if i > 0 {
                assert(rest[i - 1] == s[i]);
            }
        }
        if k + 1 < s.len() {
            assert(rest[k] == s[k + 1]);
        }
        k + 1
    } else {
        assert(s.skip(0) =~= s);
        0
    }
}

proof fn lemma_trim_end(s: Seq<char>) -> (k: int)
    ensures
        0 <= k <= s.len(),
        trim_end(s) == s.take(k),
        forall|i: int| k <= i < s.len() ==> is_white_space(#[trigger] s[i]),
        k > 0 ==> !is_white_space(s[k - 1]),
    decreases s.len(),
{
    if s.len() > 0 && is_white_space(s.last()) {
        let rest = s.drop_last();
        let k = lemma_trim_end(rest);
        assert(rest.take(k) =~= s.take(k));
        assert forall|i: int| k <= i < s.len() implies is_white_space(#[trigger] s[i]) by {
            if i < s.len() - 1 {
                assert(rest[i] == s[i]);
            }
        }
        k
    } else {
        assert(s.take(s.len() as int) =~= s);
        s.len() as int
    }
}

/// Trimming takes away white space at both ends and nothing else, and leaves none there.
pub proof fn law_trim(s: Seq<char>)
    ensures
        exists|a: int, b: int|
            {
                &&& 0 <= a <= b <= s.len()
                &&& trimmed(s) == #[trigger] s.subrange(a, b)
                &&& forall|i: int| 0 <= i < a ==> is_white_space(#[trigger] s[i])
                &&& forall|i: int| b <= i < s.len() ==> is_white_space(#[trigger] s[i])
            },
        trimmed(s).len() > 0 ==> !is_white_space(trimmed(s)[0]) && !is_white_space(
            trimmed(s).last(),
        ),
        trimmed(trimmed(s)) == trimmed(s),
{
    let a = lemma_trim_start(s);
    let t = trim_start(s);
    let k = lemma_trim_end(t);
    assert(t.take(k) =~= s.subrange(a, a + k));
    assert forall|i: int| a + k <= i < s.len() implies is_white_space(#[trigger] s[i]) by {
        assert(t[i - a] == s[i]);
    }
    if k > 0 {
        assert(t[0] == s[a]);
        assert(trimmed(s)[0] == t[0]);
    }
}

/// Splitting gives what stands before the first separator and what stands after it, and
/// fails exactly if there is none.
pub proof fn law_split(s: Seq<char>, sep: char)
    ensures
        split_once(s, sep) is None <==> !s.contains(sep),
        split_once(s, sep) matches Some((a, b)) ==> s == a + seq![sep] + b && !a.contains(sep),
{
    lemma_first_index_of(s, sep);
    let i = first_index_of(s, sep) as int;
    if i < s.len() {
        assert(s =~= s.take(i) + seq![sep] + s.skip(i + 1));
        assert forall|j: int| 0 <= j < s.take(i).len() implies s.take(i)[j] != sep by {
            assert(s[j] != sep);
        }
    }
}

/// A number in two digits reads as the number and is never shorter than two digits.
pub proof fn law_two_digits(n: nat)
    ensures
        two_digits(n).len() >= 2,
        all_digits(two_digits(n)),
        digits_value(two_digits(n)) == n,
        n < 100 ==> two_digits(n).len() == 2,
{
    law_decimal_reads_back(n);
    if n < 10 {
        let s = two_digits(n);
        assert(s =~= seq!['0', digit_char(n as int)]);
        assert(s.drop_last() =~= seq!['0']);
        assert(seq!['0'].drop_last() =~= Seq::<char>::empty());
        assert(digits_value(seq!['0'].drop_last()) == 0);
        assert(digits_value(seq!['0']) == 0);
    } else if n < 100 {
        assert(decimal(n / 10).len() == 1);
    } else {
        assert(decimal(n / 10).len() >= 1);
    }
}

/// White space is made of these characters and no others: those from tab to carriage return,
/// the space, the next line, and the spaces and separators of Unicode.
pub proof fn law_white_space(c: char)
    ensures
        is_white_space(c) <==> seq![
            0x9int, 0xa, 0xb, 0xc, 0xd, 0x20, 0x85, 0xa0, 0x1680, 0x2000, 0x2001, 0x2002, 0x2003,
            0x2004, 0x2005, 0x2006, 0x2007, 0x2008, 0x2009, 0x200a, 0x2028, 0x2029, 0x202f, 0x205f,
            0x3000,
        ].contains(c as int),
{
    let all = seq![
        0x9int, 0xa, 0xb, 0xc, 0xd, 0x20, 0x85, 0xa0, 0x1680, 0x2000, 0x2001, 0x2002, 0x2003,
        0x2004, 0x2005, 0x2006, 0x2007, 0x2008, 0x2009, 0x200a, 0x2028, 0x2029, 0x202f, 0x205f,
        0x3000,
    ];
    let n = c as int;
    if is_white_space(c) {
        let k = if n <= 0xd {
            n - 9
        } else if n == 0x20 {
            5
        } else if n == 0x85 {
            6
        } else if n == 0xa0 {
            7
        } else if n == 0x1680 {
            8
        } else if n <= 0x200a {
            n - 0x2000 + 9
        } else if n <= 0x2029 {
            n - 0x2028 + 20
        } else if n == 0x202f {
            22
        } else if n == 0x205f {
            23
        } else {
            24
        };
        assert(all[k] == n);
    }
}

/// A number below zero is written with a `-` before its digits, and any other one without.
pub proof fn law_signed_numbers(n: nat)
    ensures
        signed_decimal(n as int) == decimal(n),
        n > 0 ==> signed_decimal(-n) == seq!['-'] + decimal(n),
{
}

/// What is left after trimming is known by its place: white space is all that stands outside
/// of it, and none stands at its ends.
pub proof fn lemma_trimmed_is(s: Seq<char>, a: int, b: int)
    requires
        0 <= a <= b <= s.len(),
        forall|i: int| 0 <= i < a ==> is_white_space(#[trigger] s[i]),
        forall|i: int| b <= i < s.len() ==> is_white_space(#[trigger] s[i]),
        a < b ==> !is_white_space(s[a]) && !is_white_space(s[b - 1]),
    ensures
        trimmed(s) == s.subrange(a, b),
{
    let k = lemma_trim_start(s);
    let t = trim_start(s);
    let m = lemma_trim_end(t);
    if a < b {
        if k < a {
            assert(is_white_space(s[k]));
        }
        if k > a {
            assert(is_white_space(s[a]));
        }
        if m < b - a {
            assert(t[b - 1 - a] == s[b - 1]);
            assert(is_white_space(t[b - 1 - a]));
        }
        if m > b - a {
            assert(t[m - 1] == s[a + m - 1]);
        }
    } else {
        if k < s.len() {
            assert(is_white_space(s[k]));
        }
    }
    assert(t.take(m) =~= s.subrange(a, b));
}

/// A separator that is no white space keeps the two sides of it apart: trimming the whole
/// and splitting it leaves of each side what trimming that side leaves.
pub proof fn lemma_trim_and_split(a: Seq<char>, sep: char, b: Seq<char>)
    requires
        !is_white_space(sep),
        !a.contains(sep),
    ensures
        split_once(trimmed(a + seq![sep] + b), sep) matches Some((x, y)) && trimmed(x) == trimmed(a)
            && trimmed(y) == trimmed(b),
        trimmed(a + seq![sep] + b).len() > 0,
{
    let s = a + seq![sep] + b;
    let n = a.len() as int;
    let i = lemma_trim_start(a);
    let j = lemma_trim_end(b);
    assert(s[n] == sep);
    assert forall|k: int| 0 <= k < i implies is_white_space(#[trigger] s[k]) by {
        assert(s[k] == a[k]);
    }
    assert forall|k: int| n + 1 + j <= k < s.len() implies is_white_space(#[trigger] s[k]) by {
        assert(s[k] == b[k - n - 1]);
    }
    if i < n {
        assert(s[i] == a[i]);
    }
    if j > 0 {
        assert(s[n + j] == b[j - 1]);
    }
    lemma_trimmed_is(s, i, n + 1 + j);
    let t = trimmed(s);
    assert(t[n - i] == sep);
    assert forall|k: int| 0 <= k < n - i implies t[k] != sep by {
        assert(t[k] == a[k + i]);
        assert(a.contains(a[k + i]));
    }
    lemma_first_index_is(t, sep, n - i);
    let x = t.take(n - i);
    let y = t.skip(n - i + 1);
    assert(x =~= a.skip(i));
    assert(y =~= b.take(j));
    // The left side.
    let e = lemma_trim_end(x);
    if i < n {
        assert(x[0] == a[i]);
        assert forall|k: int| i + e <= k < n implies is_white_space(#[trigger] a[k]) by {
            assert(x[k - i] == a[k]);
        }
        if e == 0 {
            assert(is_white_space(x[0]));
        }
        assert(x[e - 1] == a[i + e - 1]);
        lemma_trimmed_is(a, i, i + e);
        lemma_trimmed_is(x, 0, e);
        assert(a.subrange(i, i + e) =~= x.subrange(0, e));
    } else {
        lemma_trimmed_is(a, n, n);
        lemma_trimmed_is(x, 0, 0);
        assert(a.subrange(n, n) =~= x.subrange(0, 0));
    }
    // The right side.
    let d = lemma_trim_start(y);
    if j > 0 {
        assert(y[j - 1] == b[j - 1]);
        assert forall|k: int| 0 <= k < d implies is_white_space(#[trigger] b[k]) by {
            assert(y[k] == b[k]);
        }
        if d == j {
            assert(is_white_space(y[j - 1]));
        }
        assert(y[d] == b[d]);
        lemma_trimmed_is(b, d, j);
        lemma_trimmed_is(y, d, j);
        assert(b.subrange(d, j) =~= y.subrange(d, j));
    } else {
        lemma_trimmed_is(b, 0, 0);
        lemma_trimmed_is(y, 0, 0);
        assert(b.subrange(0, 0) =~= y.subrange(0, 0));
    }
}

} // verus!
