//! Exact conversion between decimal amount texts and integer minor units.
//!
//! Amounts arrive as decimal numerals such as `"-10.00"`. All arithmetic on
//! them is done on whole minor units (hundredths), so that sums over many
//! transactions never pick up rounding error.

use vstd::prelude::*;
use vstd::string::*;
use crate::text::chars_of;
use crate::text::string_of;

verus! {

/// Why an amount text could not be turned into minor units.
#[derive(Debug, Clone, Copy, PartialEq, Eq, Structural)]
pub enum ParseError {
    /// The text is not a decimal numeral.
    NotDecimal,
    /// The numeral is well formed but its minor units do not fit in 64 bits.
    OutOfRange,
}

/// Whether `c` is one of the ASCII decimal digits.
pub open spec fn is_digit(c: char) -> bool {
    '0' <= c && c <= '9'
}

/// The number that the digit `c` stands for.
pub open spec fn digit_value(c: char) -> nat
    recommends
        is_digit(c),
{
    (c as int - '0' as int) as nat
}

/// The digit character for `d`, which is below ten.
pub open spec fn digit_char(d: nat) -> char
    recommends
        d < 10,
{
    (d + '0' as nat) as char
}

/// Whether every character of `s` is a decimal digit.
pub open spec fn all_digits(s: Seq<char>) -> bool {
    forall|i: int| 0 <= i < s.len() ==> is_digit(#[trigger] s[i])
}

/// The number written by the digit string `s`, most significant digit first.
/// The empty string stands for zero.
pub open spec fn digits_value(s: Seq<char>) -> nat
    decreases s.len(),
{
    if s.len() == 0 {
        0
    } else {
        digits_value(s.drop_last()) * 10 + digit_value(s.last())
    }
}

/// How many characters of `s` stand before its first `'.'`; the whole length
/// where it has none.
pub open spec fn point_index(s: Seq<char>) -> int
    decreases s.len(),
{
    if s.len() == 0 || s[0] == '.' {
        0
    } else {
        1 + point_index(s.drop_first())
    }
}

/// Length of the sign that `s` starts with: one for `'-'` or `'+'`, else zero.
pub open spec fn sign_len(s: Seq<char>) -> int {
    if s.len() > 0 && (s[0] == '-' || s[0] == '+') {
        1
    } else {
        0
    }
}

/// Whether `s` starts with a minus sign.
pub open spec fn is_negative(s: Seq<char>) -> bool {
    s.len() > 0 && s[0] == '-'
}

/// What follows the sign of `s`.
pub open spec fn unsigned_part(s: Seq<char>) -> Seq<char> {
    s.skip(sign_len(s))
}

/// The characters between the sign and the decimal point.
pub open spec fn integer_part(s: Seq<char>) -> Seq<char> {
    unsigned_part(s).take(point_index(unsigned_part(s)))
}

/// The characters behind the decimal point; empty where there is no point.
pub open spec fn fraction_part(s: Seq<char>) -> Seq<char> {
    let body = unsigned_part(s);
    let p = point_index(body);
    if p < body.len() {
        body.skip(p + 1)
    } else {
        Seq::empty()
    }
}

/// The decimal numerals: an optional sign, digits, and optionally a point
/// followed by digits, with at least one digit in all.
pub open spec fn is_decimal(s: Seq<char>) -> bool {
    &&& all_digits(integer_part(s))
    &&& all_digits(fraction_part(s))
    &&& integer_part(s).len() + fraction_part(s).len() > 0
}

/// The value of the fraction digit at place `i`, zero beyond the last one.
pub open spec fn fraction_digit(f: Seq<char>, i: int) -> nat {
    if 0 <= i < f.len() {
        digit_value(f[i])
    } else {
        0
    }
}

/// The magnitude of the numeral `s` in minor units: its value times one
/// hundred, rounded to the nearest whole number, halves away from zero.
pub open spec fn magnitude_minor_units(s: Seq<char>) -> nat {
    let f = fraction_part(s);
    digits_value(integer_part(s)) * 100 + fraction_digit(f, 0) * 10 + fraction_digit(f, 1) + (if fraction_digit(f, 2) >= 5 {
        1nat
    } else {
        0nat
    })
}

/// The numeral `s` in minor units, with its sign.
pub open spec fn minor_units_of(s: Seq<char>) -> int {
    if is_negative(s) {
        -(magnitude_minor_units(s) as int)
    } else {
        magnitude_minor_units(s) as int
    }
}

/// What parsing the amount text `s` gives.
pub open spec fn parsed_minor_units(s: Seq<char>) -> Result<i64, ParseError> {
    if !is_decimal(s) {
        Err(ParseError::NotDecimal)
    } else if i64::MIN <= minor_units_of(s) <= i64::MAX {
        Ok(minor_units_of(s) as i64)
    } else {
        Err(ParseError::OutOfRange)
    }
}

/// The decimal digits of `n`, without leading zeros; `"0"` for zero.
pub open spec fn nat_digits(n: nat) -> Seq<char>
    decreases n,
{
    if n < 10 {
        seq![digit_char(n)]
    } else {
        nat_digits(n / 10).push(digit_char(n % 10))
    }
}

/// The amount `x` of minor units written with exactly two decimal places.
pub open spec fn decimal_text(x: int) -> Seq<char> {
    let m = (if x < 0 { -x } else { x }) as nat;
    let body = nat_digits(m / 100) + seq!['.', digit_char((m % 100) / 10), digit_char(m % 10)];
    if x < 0 {
        seq!['-'] + body
    } else {
        body
    }
}

/// Largest value that the scan of a digit string still tracks exactly.
const SCAN_CAP: u128 = 0x1_0000_0000_0000_0000;

/// Tells whether `c` is a decimal digit.
pub fn is_digit_char(c: char) -> (r: bool)
    ensures
        r == is_digit(c),
{
    '0' <= c && c <= '9'
}

/// The number that the digit `c` stands for.
fn digit_of(c: char) -> (d: u8)
    requires
        is_digit(c),
    ensures
        d == digit_value(c),
        d < 10,
{
    ((c as u32) - ('0' as u32)) as u8
}

/// The digit character for `d`.
fn char_of_digit(d: u8) -> (c: char)
    requires
        d < 10,
    ensures
        c == digit_char(d as nat),
        is_digit(c),
        digit_value(c) == d,
{
    (d + 48u8) as char
}

/// Where no character before place `j` of `s` is a point, and `s` ends or
/// has a point at `j`, the first point of `s` is at `j`.
pub proof fn lemma_point_index_at(s: Seq<char>, j: int)
    requires
        0 <= j <= s.len(),
        forall|k: int| 0 <= k < j ==> s[k] != '.',
        j == s.len() || s[j] == '.',
    ensures
        point_index(s) == j,
    decreases j,
{
    if j > 0 {
        let t = s.drop_first();
        lemma_point_index_at(t, j - 1);
    }
}

/// The first point of `s` is not before place `j` where none of the first
/// `j` characters is a point; and it never lies beyond the end.
pub proof fn lemma_point_index_bounds(s: Seq<char>, j: int)
    requires
        0 <= j <= s.len(),
        forall|k: int| 0 <= k < j ==> s[k] != '.',
    ensures
        j <= point_index(s) <= s.len(),
    decreases s.len(),
{
    if s.len() > 0 && s[0] != '.' {
        let t = s.drop_first();
        if j > 0 {
            lemma_point_index_bounds(t, j - 1);
        } else {
            lemma_point_index_bounds(t, 0);
        }
    }
}

/// Reading one more digit multiplies the value by ten and adds the digit.
pub proof fn lemma_digits_value_push(s: Seq<char>, c: char)
    ensures
        digits_value(s.push(c)) == digits_value(s) * 10 + digit_value(c),
{
    assert(s.push(c).drop_last() =~= s);
}

/// Parses a decimal amount such as `"-10.00"` into minor units.
///
/// The value is multiplied by one hundred and rounded to the nearest whole
/// number, halves away from zero. A text that is no decimal numeral, and a
/// numeral too large for 64 bits, are rejected.
pub fn to_minor_units(text: &str) -> (r: Result<i64, ParseError>)
    ensures
        r == parsed_minor_units(text@),
{
    let chars = chars_of(text);
    let n = chars.len();
    let negative = n > 0 && chars[0] == '-';
    let start: usize = if n > 0 && (chars[0] == '-' || chars[0] == '+') {
        1
    } else {
        0
    };
    let ghost s = text@;
    let ghost body = unsigned_part(s);

    let mut i: usize = start;
    let mut whole: u128 = 0;
    while i < n && chars[i] != '.'
        invariant
            start <= i <= n,
            n == chars.len(),
            chars@ == s,
            s == text@,
            body == unsigned_part(s),
            body == s.skip(start as int),
            body.len() == n - start,
            forall|k: int| 0 <= k < i - start ==> body[k] != '.',
            all_digits(body.take(i - start)),
            whole == digits_value(body.take(i - start)) || (whole > SCAN_CAP && digits_value(
                body.take(i - start),
            ) > SCAN_CAP),
            whole <= SCAN_CAP * 10 + 9,
        decreases n - i,
    {
        let c = chars[i];
        if !is_digit_char(c) {
            proof {
                lemma_point_index_bounds(body, i - start + 1);
                assert(integer_part(s)[i - start] == c);
            }
            return Err(ParseError::NotDecimal);
        }
        proof {
            assert(body.take(i - start + 1) =~= body.take(i - start).push(c));
            lemma_digits_value_push(body.take(i - start), c);
        }
        if whole <= SCAN_CAP {
            whole = whole * 10 + digit_of(c) as u128;
        }
        i += 1;
    }
    let ghost p = i - start;
    proof {
        lemma_point_index_at(body, p);
    }
    let mut tenths: u8 = 0;
    let mut hundredths: u8 = 0;
    let mut thousandths: u8 = 0;
    let mut fraction_len: usize = 0;
    if i < n {
        let first = i + 1;
        let ghost f = body.skip(p + 1);
        let mut j: usize = first;
        while j < n
            invariant
                first <= j <= n,
                first == start + p + 1,
                n == chars.len(),
                chars@ == s,
                s == text@,
                0 <= p,
                body == s.skip(start as int),
                body.len() == n - start,
                f == body.skip(p + 1),
                f == fraction_part(s),
                f.len() == n - first,
                all_digits(f.take(j - first)),
                tenths == (if j - first > 0 { fraction_digit(f, 0) } else { 0 }),
                hundredths == (if j - first > 1 { fraction_digit(f, 1) } else { 0 }),
                thousandths == (if j - first > 2 { fraction_digit(f, 2) } else { 0 }),
            decreases n - j,
        {
            let c = chars[j];
            assert(c == f[j - first]);
            if !is_digit_char(c) {
                return Err(ParseError::NotDecimal);
            }
            let d = digit_of(c);
            if j - first == 0 {
                tenths = d;
            } else if j - first == 1 {
                hundredths = d;
            } else if j - first == 2 {
                thousandths = d;
            }
            j += 1;
        }
        fraction_len = n - first;
        assert(f.take(f.len() as int) =~= f);
    }
    if i - start == 0 && fraction_len == 0 {
        return Err(ParseError::NotDecimal);
    }
    if whole > SCAN_CAP {
        return Err(ParseError::OutOfRange);
    }
    let round: u128 = if thousandths >= 5 {
        1
    } else {
        0
    };
    let magnitude: u128 = whole * 100 + (tenths as u128) * 10 + hundredths as u128 + round;
    if negative {
        if magnitude <= 0x8000_0000_0000_0000 {
            Ok((-(magnitude as i128)) as i64)
        } else {
            Err(ParseError::OutOfRange)
        }
    } else {
        if magnitude <= 0x7fff_ffff_ffff_ffff {
            Ok(magnitude as i64)
        } else {
            Err(ParseError::OutOfRange)
        }
    }
}

/// Appends the decimal digits of `n` to `out`.
fn push_nat_digits(out: &mut Vec<char>, n: u64)
    ensures
        final(out)@ == old(out)@ + nat_digits(n as nat),
    decreases n,
{
    if n >= 10 {
        push_nat_digits(out, n / 10);
    }
    out.push(char_of_digit((n % 10) as u8));
}

/// The decimal digits of `n`.
pub fn number_text(n: u64) -> (r: String)
    ensures
        r@ == nat_digits(n as nat),
{
    let mut out: Vec<char> = Vec::new();
    push_nat_digits(&mut out, n);
    string_of(&out)
}

/// Formats minor units as a decimal amount with exactly two decimal places,
/// such as `-1000` as `"-10.00"`.
pub fn to_decimal_string(minor_units: i64) -> (r: String)
    ensures
        r@ == decimal_text(minor_units as int),
{
    let negative = minor_units < 0;
    let magnitude: u64 = if negative {
        (-(minor_units as i128)) as u64
    } else {
        minor_units as u64
    };
    let mut out: Vec<char> = Vec::new();
    if negative {
        out.push('-');
    }
    push_nat_digits(&mut out, magnitude / 100);
    out.push('.');
    out.push(char_of_digit(((magnitude % 100) / 10) as u8));
    out.push(char_of_digit((magnitude % 10) as u8));
    string_of(&out)
}

/// The amount texts that formatting produces: an optional minus sign, an
/// integer part without needless leading zeros, a point and exactly two
/// fraction digits; zero is written without a sign.
pub open spec fn is_canonical_amount(s: Seq<char>) -> bool {
    &&& is_decimal(s)
    &&& sign_len(s) == 1 ==> is_negative(s)
    &&& fraction_part(s).len() == 2
    &&& integer_part(s).len() >= 1
    &&& integer_part(s).len() > 1 ==> integer_part(s)[0] != '0'
    &&& is_negative(s) ==> magnitude_minor_units(s) > 0
}

/// The digits of a number are digits, at least one, and they write that
/// number.
pub proof fn lemma_nat_digits(n: nat)
    ensures
        all_digits(nat_digits(n)),
        nat_digits(n).len() >= 1,
        digits_value(nat_digits(n)) == n,
    decreases n,
{
    if n < 10 {
        assert(nat_digits(n).drop_last() =~= Seq::<char>::empty());
        assert(digits_value(nat_digits(n)) == digits_value(Seq::<char>::empty()) * 10
            + digit_value(digit_char(n)));
    } else {
        lemma_nat_digits(n / 10);
        lemma_digits_value_push(nat_digits(n / 10), digit_char(n % 10));
    }
}

/// A digit string without needless leading zeros is the digits of the number
/// that it writes.
pub proof fn lemma_nat_digits_of_value(d: Seq<char>)
    requires
        all_digits(d),
        d.len() >= 1,
        d.len() > 1 ==> d[0] != '0',
    ensures
        nat_digits(digits_value(d)) == d,
    decreases d.len(),
{
    let init = d.drop_last();
    if d.len() == 1 {
        assert(digits_value(init) == 0);
    } else {
        lemma_nat_digits_of_value(init);
    }
}

/// The first point of `s`, where it has one, is a point.
pub proof fn lemma_point_index_is_point(s: Seq<char>)
    ensures
        0 <= point_index(s) <= s.len(),
        point_index(s) < s.len() ==> s[point_index(s)] == '.',
        forall|k: int| 0 <= k < point_index(s) ==> s[k] != '.',
    decreases s.len(),
{
    if s.len() > 0 && s[0] != '.' {
        let t = s.drop_first();
        lemma_point_index_is_point(t);
        assert forall|k: int| 0 <= k < point_index(s) implies s[k] != '.' by {
            if k > 0 {
                assert(s[k] == t[k - 1]);
            }
        }
    }
}

/// Parsing what formatting wrote gives the amount back, for every amount.
pub proof fn lemma_parse_of_format(x: i64)
    ensures
        is_canonical_amount(decimal_text(x as int)),
        parsed_minor_units(decimal_text(x as int)) == Ok::<i64, ParseError>(x),
{
    let m = (if x < 0 { -(x as int) } else { x as int }) as nat;
    let q = m / 100;
    let a = digit_char((m % 100) / 10);
    let b = digit_char(m % 10);
    let digits = nat_digits(q);
    let body = digits + seq!['.', a, b];
    let text = decimal_text(x as int);
    lemma_nat_digits(q);
    assert(unsigned_part(text) == body);
    lemma_point_index_at(body, digits.len() as int);
    assert(integer_part(text) =~= digits);
    if q >= 10 {
        lemma_leading_digit_first(q);
    }
}

/// The digits of a number that is at least ten do not start with a zero.
proof fn lemma_leading_digit_first(n: nat)
    requires
        n >= 1,
    ensures
        nat_digits(n)[0] != '0',
    decreases n,
{
    if n >= 10 {
        lemma_leading_digit_first(n / 10);
    }
}

/// Formatting what was parsed from a canonical amount text gives that text
/// back.
pub proof fn lemma_format_of_parse(s: Seq<char>)
    requires
        is_canonical_amount(s),
    ensures
        decimal_text(minor_units_of(s)) == s,
        parsed_minor_units(s) matches Ok(amount) ==> decimal_text(amount as int) == s,
{
    lemma_point_index_is_point(unsigned_part(s));
    lemma_nat_digits_of_value(integer_part(s));
}

} // verus!
