//! Text handling: trimming, decimal numbers, and the kernel's CPU list format.

use vstd::prelude::*;
use vstd::string::*;

verus! {

/// The characters of a string slice, in order.
pub fn chars_of(s: &str) -> (v: Vec<char>)
    ensures
        v@ == s@,
{
    let n = s.unicode_len();
    let mut v: Vec<char> = Vec::new();
    let mut i: usize = 0;
    while i < n
        invariant
            n == s@.len(),
            i <= n,
            v@ == s@.take(i as int),
        decreases n - i,
    {
        let c = s.get_char(i);
        v.push(c);
        assert(s@.take(i as int).push(c) =~= s@.take(i + 1));
        i = i + 1;
    }
    assert(s@.take(n as int) =~= s@);
    v
}

/// Calls `String::push`, which appends one character.
#[verifier::external_body]
pub(crate) fn push_char(s: &mut String, c: char)
    ensures
        final(s)@ == old(s)@.push(c),
{
    s.push(c)
}

/// A `String` holding the given characters.
pub fn string_of(v: &Vec<char>) -> (s: String)
    ensures
        s@ == v@,
{
    let mut s = String::new();
    let mut i: usize = 0;
    while i < v.len()
        invariant
            i <= v.len(),
            s@ == v@.take(i as int),
        decreases v.len() - i,
    {
        push_char(&mut s, v[i]);
        assert(v@.take(i as int).push(v@[i as int]) =~= v@.take(i + 1));
        i = i + 1;
    }
    assert(v@.take(v.len() as int) =~= v@);
    s
}

/// Unicode's `White_Space` characters, which `char::is_whitespace` accepts.
pub open spec fn is_whitespace(c: char) -> bool {
    ||| c == ' '
    ||| ('\u{9}' <= c && c <= '\u{d}')
    ||| c == '\u{85}'
    ||| c == '\u{a0}'
    ||| c == '\u{1680}'
    ||| ('\u{2000}' <= c && c <= '\u{200a}')
    ||| c == '\u{2028}'
    ||| c == '\u{2029}'
    ||| c == '\u{202f}'
    ||| c == '\u{205f}'
    ||| c == '\u{3000}'
}

/// Whether `c` is whitespace.
pub fn is_whitespace_char(c: char) -> (r: bool)
    ensures
        r == is_whitespace(c),
{
    c == ' ' || ('\u{9}' <= c && c <= '\u{d}') || c == '\u{85}' || c == '\u{a0}' || c == '\u{1680}'
        || ('\u{2000}' <= c && c <= '\u{200a}') || c == '\u{2028}' || c == '\u{2029}' || c
        == '\u{202f}' || c == '\u{205f}' || c == '\u{3000}'
}

/// `s` without its leading whitespace.
pub open spec fn trim_start(s: Seq<char>) -> Seq<char>
    decreases s.len(),
{
    if s.len() > 0 && is_whitespace(s[0]) {
        trim_start(s.drop_first())
    } else {
        s
    }
}

/// `s` without its trailing whitespace.
pub open spec fn trim_end(s: Seq<char>) -> Seq<char>
    decreases s.len(),
{
    if s.len() > 0 && is_whitespace(s.last()) {
        trim_end(s.drop_last())
    } else {
        s
    }
}

/// `s` without leading and trailing whitespace (`str::trim`).
pub open spec fn trim(s: Seq<char>) -> Seq<char> {
    trim_end(trim_start(s))
}

proof fn lemma_trim_start_skip(s: Seq<char>, lo: int)
    requires
        0 <= lo <= s.len(),
        forall|k: int| 0 <= k < lo ==> is_whitespace(#[trigger] s[k]),
    ensures
        trim_start(s) == trim_start(s.subrange(lo, s.len() as int)),
    decreases lo,
{
    if lo > 0 {
        assert(s.drop_first() =~= s.subrange(1, s.len() as int));
        lemma_trim_start_skip(s.drop_first(), lo - 1);
        assert(s.drop_first().subrange(lo - 1, s.drop_first().len() as int) =~= s.subrange(
            lo,
            s.len() as int,
        ));
    } else {
        assert(s.subrange(0, s.len() as int) =~= s);
    }
}

proof fn lemma_trim_end_cut(s: Seq<char>, hi: int)
    requires
        0 <= hi <= s.len(),
        forall|k: int| hi <= k < s.len() ==> is_whitespace(#[trigger] s[k]),
    ensures
        trim_end(s) == trim_end(s.subrange(0, hi)),
    decreases s.len() - hi,
{
    if hi < s.len() {
        assert(s.drop_last() =~= s.subrange(0, s.len() - 1));
        lemma_trim_end_cut(s.drop_last(), hi);
        assert(s.drop_last().subrange(0, hi) =~= s.subrange(0, hi));
    } else {
        assert(s.subrange(0, s.len() as int) =~= s);
    }
}

/// The characters of `v` from `lo` up to `hi`.
pub fn slice_chars(v: &Vec<char>, lo: usize, hi: usize) -> (r: Vec<char>)
    requires
        lo <= hi <= v.len(),
    ensures
        r@ == v@.subrange(lo as int, hi as int),
{
    let mut r: Vec<char> = Vec::new();
    let mut i: usize = lo;
    while i < hi
        invariant
            lo <= i <= hi <= v.len(),
            r@ == v@.subrange(lo as int, i as int),
        decreases hi - i,
    {
        r.push(v[i]);
        assert(v@.subrange(lo as int, i as int).push(v@[i as int]) =~= v@.subrange(
            lo as int,
            i + 1,
        ));
        i = i + 1;
    }
    r
}

/// `v` without leading and trailing whitespace.
pub fn trim_chars(v: &Vec<char>) -> (r: Vec<char>)
    ensures
        r@ == trim(v@),
{
    let mut lo: usize = 0;
    while lo < v.len() && is_whitespace_char(v[lo])
        invariant
            lo <= v.len(),
            forall|k: int| 0 <= k < lo ==> is_whitespace(#[trigger] v@[k]),
        decreases v.len() - lo,
    {
        lo = lo + 1;
    }
    let ghost rest = v@.subrange(lo as int, v@.len() as int);
    proof {
        lemma_trim_start_skip(v@, lo as int);
        if rest.len() > 0 {
            assert(rest[0] == v@[lo as int]);
        }
    }
    assert(trim_start(v@) == rest);
    let mut hi: usize = v.len();
    while hi > lo && is_whitespace_char(v[hi - 1])
        invariant
            lo <= hi <= v.len(),
            rest == v@.subrange(lo as int, v@.len() as int),
            forall|k: int| hi <= k < v.len() ==> is_whitespace(#[trigger] v@[k]),
        decreases hi,
    {
        hi = hi - 1;
    }
    proof {
        let h = hi - lo;
        assert forall|k: int| h <= k < rest.len() implies is_whitespace(#[trigger] rest[k]) by {
            assert(rest[k] == v@[lo + k]);
        }
        lemma_trim_end_cut(rest, h);
        let cut = rest.subrange(0, h);
        assert(cut =~= v@.subrange(lo as int, hi as int));
        if cut.len() > 0 {
            assert(cut.last() == v@[hi - 1]);
        }
    }
    slice_chars(v, lo, hi)
}

/// Whether `c` is an ASCII decimal digit.
pub open spec fn is_digit(c: char) -> bool {
    '0' <= c && c <= '9'
}

/// The value of a decimal digit.
pub open spec fn digit_value(c: char) -> int {
    c as int - '0' as int
}

/// The value of the decimal digits `d` read after the value `acc`.
pub open spec fn decimal_value_from(acc: int, d: Seq<char>) -> int
    decreases d.len(),
{
    if d.len() == 0 {
        acc
    } else {
        decimal_value_from(acc * 10 + digit_value(d[0]), d.drop_first())
    }
}

/// The value of the decimal digits `d`.
pub open spec fn decimal_value(d: Seq<char>) -> int {
    decimal_value_from(0, d)
}

/// Why a text is not an unsigned integer (the cases of `core::num::IntErrorKind`
/// that parsing an unsigned integer can give).
#[derive(Clone, Copy, Debug, PartialEq, Eq, Structural)]
pub enum IntErrorKind {
    Empty,
    InvalidDigit,
    PosOverflow,
}

/// Reading the characters `d` one by one after the value `acc`, as
/// `core::num`'s `from_str` does: the first character that is not a digit, or
/// the first digit that would take the value past `max`, decides the error.
pub open spec fn scan_digits(acc: int, d: Seq<char>, max: int) -> Result<int, IntErrorKind>
    decreases d.len(),
{
    if d.len() == 0 {
        Ok(acc)
    } else if !is_digit(d[0]) {
        Err(IntErrorKind::InvalidDigit)
    } else if acc * 10 + digit_value(d[0]) > max {
        Err(IntErrorKind::PosOverflow)
    } else {
        scan_digits(acc * 10 + digit_value(d[0]), d.drop_first(), max)
    }
}

/// What `<uN as FromStr>::from_str` gives for the text `s`, where `max` is
/// the type's largest value: an optional `+`, then at least one digit.
pub open spec fn parse_unsigned(s: Seq<char>, max: int) -> Result<int, IntErrorKind> {
    if s.len() == 0 {
        Err(IntErrorKind::Empty)
    } else if (s[0] == '+' || s[0] == '-') && s.len() == 1 {
        Err(IntErrorKind::InvalidDigit)
    } else if s[0] == '+' {
        scan_digits(0, s.drop_first(), max)
    } else {
        scan_digits(0, s, max)
    }
}

/// A successful scan reads at least the value it started from.
pub proof fn lemma_scan_digits_ok(acc: int, d: Seq<char>, max: int)
    requires
        acc >= 0,
    ensures
        scan_digits(acc, d, max) matches Ok(v) ==> v >= acc,
    decreases d.len(),
{
    if d.len() > 0 && is_digit(d[0]) {
        let next = acc * 10 + digit_value(d[0]);
        assert(next >= acc) by (nonlinear_arith)
            requires
                acc >= 0,
                digit_value(d[0]) >= 0,
                next == acc * 10 + digit_value(d[0]),
        ;
        lemma_scan_digits_ok(next, d.drop_first(), max);
    }
}

/// A successful parse gives a number no smaller than 0.
pub proof fn lemma_parse_unsigned_nonneg(s: Seq<char>, max: int)
    ensures
        parse_unsigned(s, max) matches Ok(v) ==> v >= 0,
{
    if s.len() > 0 {
        lemma_scan_digits_ok(0, s, max);
        lemma_scan_digits_ok(0, s.drop_first(), max);
    }
}

/// On digits alone, the scan fails only by overflow, and then the whole
/// value is past `max`.
pub proof fn lemma_scan_digits(acc: int, d: Seq<char>, max: int)
    requires
        0 <= acc <= max,
        forall|i: int| 0 <= i < d.len() ==> is_digit(#[trigger] d[i]),
    ensures
        decimal_value_from(acc, d) >= acc,
        scan_digits(acc, d, max) == (if decimal_value_from(acc, d) <= max {
            Ok(decimal_value_from(acc, d))
        } else {
            Err(IntErrorKind::PosOverflow)
        }),
    decreases d.len(),
{
    if d.len() > 0 {
        let next = acc * 10 + digit_value(d[0]);
        assert(next >= acc) by (nonlinear_arith)
            requires
                acc >= 0,
                digit_value(d[0]) >= 0,
                next == acc * 10 + digit_value(d[0]),
        ;
        if next <= max {
            assert forall|i: int| 0 <= i < d.drop_first().len() implies is_digit(
                #[trigger] d.drop_first()[i],
            ) by {
                assert(d.drop_first()[i] == d[i + 1]);
            }
            lemma_scan_digits(next, d.drop_first(), max);
        } else {
            lemma_value_from_grows(next, d.drop_first());
        }
    }
}

proof fn lemma_value_from_grows(acc: int, d: Seq<char>)
    requires
        acc >= 0,
        forall|i: int| 0 <= i < d.len() ==> is_digit(#[trigger] d[i]),
    ensures
        decimal_value_from(acc, d) >= acc,
    decreases d.len(),
{
    if d.len() > 0 {
        let next = acc * 10 + digit_value(d[0]);
        assert(next >= acc) by (nonlinear_arith)
            requires
                acc >= 0,
                digit_value(d[0]) >= 0,
                next == acc * 10 + digit_value(d[0]),
        ;
        assert forall|i: int| 0 <= i < d.drop_first().len() implies is_digit(
            #[trigger] d.drop_first()[i],
        ) by {
            assert(d.drop_first()[i] == d[i + 1]);
        }
        lemma_value_from_grows(next, d.drop_first());
    }
}

/// Reads an unsigned decimal number no larger than `max` from `v`, as
/// `<uN as FromStr>::from_str` does for the unsigned type whose largest value
/// is `max`.
pub fn parse_unsigned_chars(v: &Vec<char>, max: u64) -> (r: Result<u64, IntErrorKind>)
    ensures
        r matches Ok(n) ==> n <= max,
        match r {
            Ok(n) => parse_unsigned(v@, max as int) == Ok::<int, IntErrorKind>(n as int),
            Err(e) => parse_unsigned(v@, max as int) == Err::<int, IntErrorKind>(e),
        },
{
    let len = v.len();
    if len == 0 {
        return Err(IntErrorKind::Empty);
    }
    if (v[0] == '+' || v[0] == '-') && len == 1 {
        return Err(IntErrorKind::InvalidDigit);
    }
    let start: usize = if v[0] == '+' { 1 } else { 0 };
    let ghost digits = v@.subrange(start as int, len as int);
    assert(start == 1 ==> digits =~= v@.drop_first());
    assert(start == 0 ==> digits =~= v@);
    assert(parse_unsigned(v@, max as int) == scan_digits(0, digits, max as int));
    assert(digits =~= v@.subrange(start as int, len as int));
    let mut acc: u64 = 0;
    let mut i: usize = start;
    while i < len
        invariant
            len == v@.len(),
            start <= i <= len,
            acc <= max,
            digits == v@.subrange(start as int, len as int),
            parse_unsigned(v@, max as int) == scan_digits(0, digits, max as int),
            scan_digits(0, digits, max as int) == scan_digits(
                acc as int,
                v@.subrange(i as int, len as int),
                max as int,
            ),
        decreases len - i,
    {
        let c = v[i];
        let ghost rest = v@.subrange(i as int, len as int);
        assert(rest[0] == c);
        assert(rest.drop_first() =~= v@.subrange(i + 1, len as int));
        if !('0' <= c && c <= '9') {
            return Err(IntErrorKind::InvalidDigit);
        }
        let d: u64 = ((c as u32) - ('0' as u32)) as u64;
        assert(d as int == digit_value(c));
        if max < d {
            assert(acc * 10 + d > max) by (nonlinear_arith)
                requires
                    acc >= 0,
                    d > max,
            ;
            return Err(IntErrorKind::PosOverflow);
        }
        if acc > (max - d) / 10 {
            assert(acc * 10 + d > max) by (nonlinear_arith)
                requires
                    acc > (max - d) / 10,
                    d <= max,
            ;
            return Err(IntErrorKind::PosOverflow);
        }
        assert(acc * 10 + d <= max) by (nonlinear_arith)
            requires
                acc <= (max - d) / 10,
                d <= max,
        ;
        acc = acc * 10 + d;
        i = i + 1;
    }
    assert(v@.subrange(len as int, len as int).len() == 0);
    Ok(acc)
}

/// The text of an integer-parsing error, as `ParseIntError`'s `Display` writes it.
pub open spec fn int_error_text(e: IntErrorKind) -> Seq<char> {
    match e {
        IntErrorKind::Empty => "cannot parse integer from empty string"@,
        IntErrorKind::InvalidDigit => "invalid digit found in string"@,
        IntErrorKind::PosOverflow => "number too large to fit in target type"@,
    }
}

impl IntErrorKind {
    /// The error's message, as `ParseIntError`'s `Display` writes it.
    pub fn message(&self) -> (s: String)
        ensures
            s@ == int_error_text(*self),
    {
        match self {
            IntErrorKind::Empty => String::from_str("cannot parse integer from empty string"),
            IntErrorKind::InvalidDigit => String::from_str("invalid digit found in string"),
            IntErrorKind::PosOverflow => String::from_str("number too large to fit in target type"),
        }
    }
}

/// The character of the decimal digit `d`.
pub open spec fn digit_char(d: nat) -> char {
    ((48 + d) as u8) as char
}

/// The decimal text of `n`, without leading zeros (`n.to_string()`).
pub open spec fn decimal_text(n: nat) -> Seq<char>
    decreases n,
{
    if n < 10 {
        seq![digit_char(n)]
    } else {
        decimal_text(n / 10).push(digit_char(n % 10))
    }
}

/// The decimal digits of `n`.
pub fn decimal_chars(n: u64) -> (v: Vec<char>)
    ensures
        v@ == decimal_text(n as nat),
    decreases n,
{
    let d: u8 = (n % 10) as u8;
    let c: char = (48u8 + d) as char;
    if n < 10 {
        let mut v: Vec<char> = Vec::new();
        v.push(c);
        assert(v@ =~= seq![digit_char(n as nat)]);
        v
    } else {
        let mut v = decimal_chars(n / 10);
        v.push(c);
        v
    }
}

/// The decimal text of `n` (what `n.to_string()` gives).
pub fn decimal_string(n: u64) -> (s: String)
    ensures
        s@ == decimal_text(n as nat),
{
    let v = decimal_chars(n);
    string_of(&v)
}

proof fn lemma_value_from_push(acc: int, d: Seq<char>, c: char)
    ensures
        decimal_value_from(acc, d.push(c)) == decimal_value_from(acc, d) * 10 + digit_value(c),
    decreases d.len(),
{
    if d.len() == 0 {
        assert(d.push(c).drop_first() =~= Seq::<char>::empty());
        assert(d.push(c)[0] == c);
        assert(decimal_value_from(acc * 10 + digit_value(c), Seq::<char>::empty()) == acc * 10
            + digit_value(c));
    } else {
        assert(d.push(c)[0] == d[0]);
        assert(d.push(c).drop_first() =~= d.drop_first().push(c));
        lemma_value_from_push(acc * 10 + digit_value(d[0]), d.drop_first(), c);
    }
}

/// The decimal text of `n` is made of digits, and reads back as `n`.
pub proof fn lemma_decimal_text(n: nat)
    ensures
        decimal_text(n).len() > 0,
        forall|i: int| 0 <= i < decimal_text(n).len() ==> is_digit(#[trigger] decimal_text(n)[i]),
        decimal_value(decimal_text(n)) == n,
    decreases n,
{
    if n < 10 {
        assert(decimal_text(n).drop_first() =~= Seq::<char>::empty());
        assert(decimal_value(decimal_text(n)) == decimal_value_from(0 * 10 + digit_value(digit_char(n)), Seq::<char>::empty()));
    } else {
        lemma_decimal_text(n / 10);
        lemma_value_from_push(0, decimal_text(n / 10), digit_char(n % 10));
    }
}

/// Law: the decimal text of a number parses back to that number, for every
/// number that fits the type parsed into.
pub proof fn law_decimal_round_trip(n: nat, max: int)
    requires
        n <= max,
    ensures
        parse_unsigned(decimal_text(n), max) == Ok::<int, IntErrorKind>(n as int),
{
    lemma_decimal_text(n);
    let t = decimal_text(n);
    assert(is_digit(t[0]));
    lemma_scan_digits(0, t, max);
}

/// Where the character `c` first occurs in `s`, or the length of `s` when it
/// does not occur.
pub open spec fn find_char(s: Seq<char>, c: char) -> nat
    decreases s.len(),
{
    if s.len() == 0 {
        0
    } else if s[0] == c {
        0
    } else {
        1 + find_char(s.drop_first(), c)
    }
}

proof fn lemma_find_char(s: Seq<char>, c: char, k: int)
    requires
        0 <= k <= s.len(),
        forall|i: int| 0 <= i < k ==> #[trigger] s[i] != c,
        k == s.len() || s[k] == c,
    ensures
        find_char(s, c) == k,
    decreases k,
{
    if k > 0 {
        assert(s[0] != c);
        assert forall|i: int| 0 <= i < k - 1 implies #[trigger] s.drop_first()[i] != c by {
            assert(s.drop_first()[i] == s[i + 1]);
        }
        lemma_find_char(s.drop_first(), c, k - 1);
    }
}

/// The pieces of `s` between the occurrences of `c` (`str::split`): one more
/// piece than there are occurrences, empty pieces included.
pub open spec fn split_on(s: Seq<char>, c: char) -> Seq<Seq<char>>
    decreases s.len(),
{
    let i = find_char(s, c);
    if i >= s.len() {
        seq![s]
    } else {
        seq![s.take(i as int)] + split_on(s.skip((i + 1) as int), c)
    }
}

/// Where `c` first occurs in `v` at or after `from`, or the length of `v`.
pub fn find_char_from(v: &Vec<char>, c: char, from: usize) -> (k: usize)
    requires
        from <= v.len(),
    ensures
        from <= k <= v.len(),
        find_char(v@.skip(from as int), c) == k - from,
{
    let mut k: usize = from;
    while k < v.len() && v[k] != c
        invariant
            from <= k <= v.len(),
            forall|i: int| from <= i < k ==> #[trigger] v@[i] != c,
        decreases v.len() - k,
    {
        k = k + 1;
    }
    proof {
        let rest = v@.skip(from as int);
        assert forall|i: int| 0 <= i < k - from implies #[trigger] rest[i] != c by {
            assert(rest[i] == v@[from + i]);
        }
        if k < v.len() {
            assert(rest[k - from] == v@[k as int]);
        }
        lemma_find_char(rest, c, k - from);
    }
    k
}

} // verus!
