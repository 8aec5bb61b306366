//! Parsers for the values a tag line can hold: decimal integers, decimal
//! fixed-point numbers, quoted strings and enumerated tokens.
//!
//! Each takes the whole line and the offset at which the value starts, and
//! says where the value ends. None reads past the end of the line: an offset
//! past it is answered with a failure.

use vstd::prelude::*;
use vstd::slice::slice_subrange;
use crate::text::{
    decimal_value, digit_value, digits_end, find, find_char, is_digit, lemma_digits_end,
    skip_digits,
};

verus! {

/// Why a value could not be read at the given offset.
#[derive(Clone, Copy, Debug, PartialEq, Eq, Structural)]
pub enum LocalParseError {
    /// No digit stands at the offset.
    NoDigits,
    /// The numeral is well formed but too large for its type.
    OutOfRange,
    /// A quoted string does not start with `"`.
    MissingQuote,
    /// A quoted string is never closed.
    UnterminatedString,
}

/// Number of fractional digits a fixed-point value keeps: microseconds.
pub const FRACTION_DIGITS: usize = 6;

/// Units per whole: `10` to the power of `FRACTION_DIGITS`.
pub const UNITS_PER_WHOLE: u64 = 1_000_000;

pub open spec fn pow10(n: nat) -> nat
    decreases n,
{
    if n == 0 {
        1
    } else {
        10 * pow10((n - 1) as nat)
    }
}

/// What the digits after a decimal point are worth when `places` of them are
/// kept, counted in units of `10^-places`. Missing digits count as zero and
/// digits beyond `places` are dropped.
pub open spec fn fraction_value(digits: Seq<char>, places: nat) -> nat
    decreases places,
{
    if places == 0 || digits.len() == 0 {
        0
    } else {
        digit_value(digits[0]) * pow10((places - 1) as nat) + fraction_value(
            digits.drop_first(),
            (places - 1) as nat,
        )
    }
}

/// A fraction is worth less than one whole.
pub proof fn lemma_fraction_value_bound(digits: Seq<char>, places: nat)
    requires
        forall|i: int| 0 <= i < digits.len() ==> is_digit(digits[i]),
    ensures
        fraction_value(digits, places) < pow10(places),
    decreases places,
{
    if places != 0 && digits.len() != 0 {
        lemma_fraction_value_bound(digits.drop_first(), (places - 1) as nat);
        assert(digit_value(digits[0]) <= 9);
        assert(digit_value(digits[0]) * pow10((places - 1) as nat) <= 9 * pow10(
            (places - 1) as nat,
        )) by (nonlinear_arith)
            requires
                digit_value(digits[0]) <= 9,
        ;
    } else {
        lemma_pow10_positive(places);
    }
}

pub proof fn lemma_pow10_positive(n: nat)
    ensures
        pow10(n) > 0,
    decreases n,
{
    if n != 0 {
        lemma_pow10_positive((n - 1) as nat);
    }
}

/// Appending a digit to a run multiplies its value by ten and adds the digit.
pub proof fn lemma_decimal_value_push(s: Seq<char>, from: int, to: int)
    requires
        0 <= from <= to < s.len(),
    ensures
        decimal_value(s.subrange(from, to + 1)) == decimal_value(s.subrange(from, to)) * 10
            + digit_value(s[to]),
{
    assert(s.subrange(from, to + 1).drop_last() =~= s.subrange(from, to));
}

/// The value of the digits of `line` in `from..to`, unless it exceeds `u64`.
pub open spec fn checked_decimal(digits: Seq<char>) -> Option<u64> {
    if decimal_value(digits) <= u64::MAX {
        Some(decimal_value(digits) as u64)
    } else {
        None
    }
}

/// Evaluates a run of digits.
pub fn digits_to_u64(line: &[char], from: usize, to: usize) -> (value: Option<u64>)
    requires
        from <= to <= line@.len(),
        forall|i: int| from <= i < to ==> is_digit(line@[i]),
    ensures
        value == checked_decimal(line@.subrange(from as int, to as int)),
{
    let mut acc: Option<u64> = Some(0);
    let mut i: usize = from;
    assert(line@.subrange(from as int, from as int).len() == 0);
    while i < to
        invariant
            from <= i <= to <= line@.len(),
            forall|k: int| from <= k < to ==> is_digit(line@[k]),
            acc matches Some(v) ==> v == decimal_value(line@.subrange(from as int, i as int)),
            acc is None ==> decimal_value(line@.subrange(from as int, i as int)) > u64::MAX,
        decreases to - i,
    {
        proof {
            lemma_decimal_value_push(line@, from as int, i as int);
        }
        let digit: u64 = (line[i] as u32 - '0' as u32) as u64;
        assert(digit == digit_value(line@[i as int]));
        acc = match acc {
            None => None,
            Some(v) => match v.checked_mul(10) {
                None => None,
                Some(tens) => tens.checked_add(digit),
            },
        };
        i = i + 1;
    }
    acc
}

/// The decimal integer that starts at `offset`: its value and the offset
/// just past its last digit. Without a digit at `offset` nothing is consumed.
pub open spec fn decimal_integer_at(line: Seq<char>, offset: int) -> (
    Result<u64, LocalParseError>,
    int,
) {
    let end = digits_end(line, offset);
    if offset >= line.len() || end == offset {
        (Err(LocalParseError::NoDigits), offset)
    } else {
        match checked_decimal(line.subrange(offset, end)) {
            Some(value) => (Ok(value), end),
            None => (Err(LocalParseError::OutOfRange), end),
        }
    }
}

/// Reads the longest run of decimal digits that starts at `offset`.
pub fn parse_decimal_integer(line: &[char], offset: usize) -> (out: (
    Result<u64, LocalParseError>,
    usize,
))
    ensures
        (out.0, out.1 as int) == decimal_integer_at(line@, offset as int),
{
    let end = skip_digits(line, offset);
    if offset >= line.len() || end == offset {
        return (Err(LocalParseError::NoDigits), offset);
    }
    proof {
        lemma_digits_end(line@, offset as int);
    }
    match digits_to_u64(line, offset, end) {
        Some(value) => (Ok(value), end),
        None => (Err(LocalParseError::OutOfRange), end),
    }
}

/// Where the numeral of a fixed-point number that starts at `offset` ends:
/// after its integer digits, and after the point and the digits behind it
/// where a point follows.
pub open spec fn decimal_end(line: Seq<char>, offset: int) -> int {
    let int_end = digits_end(line, offset);
    if int_end < line.len() && line[int_end] == '.' {
        digits_end(line, int_end + 1)
    } else {
        int_end
    }
}

/// The digits behind the decimal point of the numeral at `offset`.
pub open spec fn decimal_fraction_digits(line: Seq<char>, offset: int) -> Seq<char> {
    let int_end = digits_end(line, offset);
    if int_end < line.len() && line[int_end] == '.' {
        line.subrange(int_end + 1, digits_end(line, int_end + 1))
    } else {
        Seq::empty()
    }
}

/// The fixed-point number that starts at `offset`, in millionths, and the
/// offset just past its numeral. The numeral is a run of digits, optionally
/// followed by a point and a second run; one of the two runs may be empty.
/// Digits beyond the sixth behind the point are read and dropped.
pub open spec fn decimal_micros_at(line: Seq<char>, offset: int) -> (
    Result<u64, LocalParseError>,
    int,
) {
    if offset > line.len() {
        (Err(LocalParseError::NoDigits), offset)
    } else {
        let whole = line.subrange(offset, digits_end(line, offset));
        let fraction = decimal_fraction_digits(line, offset);
        let micros = decimal_value(whole) * 1_000_000 + fraction_value(fraction, 6);
        if whole.len() + fraction.len() == 0 {
            (Err(LocalParseError::NoDigits), offset)
        } else if micros > u64::MAX {
            (Err(LocalParseError::OutOfRange), decimal_end(line, offset))
        } else {
            (Ok(micros as u64), decimal_end(line, offset))
        }
    }
}

/// Evaluates the first six digits of a fraction, in millionths.
pub fn fraction_to_micros(line: &[char], from: usize, to: usize) -> (micros: u64)
    requires
        from <= to <= line@.len(),
        forall|i: int| from <= i < to ==> is_digit(line@[i]),
    ensures
        micros == fraction_value(line@.subrange(from as int, to as int), 6),
        micros < 1_000_000,
{
    let ghost digits = line@.subrange(from as int, to as int);
    let mut acc: u64 = 0;
    let mut scale: u64 = 100_000;
    let mut k: usize = 0;
    proof {
        reveal_with_fuel(pow10, 8);
        lemma_fraction_value_bound(digits, 6);
        assert(digits.skip(0) =~= digits);
    }
    while k < FRACTION_DIGITS && k < to - from
        invariant
            from <= to <= line@.len(),
            digits == line@.subrange(from as int, to as int),
            forall|i: int| 0 <= i < digits.len() ==> is_digit(digits[i]),
            k <= 6,
            k <= to - from,
            k < 6 ==> scale == pow10((5 - k) as nat),
            acc + fraction_value(digits.skip(k as int), (6 - k) as nat) == fraction_value(
                digits,
                6,
            ),
            fraction_value(digits, 6) < 1_000_000,
        decreases 6 - k,
    {
        let digit: u64 = (line[from + k] as u32 - '0' as u32) as u64;
        proof {
            reveal_with_fuel(pow10, 8);
            let rest = digits.skip(k as int);
            assert(rest[0] == line@[from + k]);
            assert(rest.drop_first() =~= digits.skip(k + 1));
            assert(digit == digit_value(rest[0]));
            assert(digit <= 9);
            assert(digit * scale <= 9 * 100_000) by (nonlinear_arith)
                requires
                    digit <= 9,
                    scale <= 100_000,
            ;
        }
        acc = acc + digit * scale;
        k = k + 1;
        if k < FRACTION_DIGITS {
            scale = scale / 10;
        }
    }
    acc
}

/// Reads the fixed-point number that starts at `offset`, in millionths.
pub fn parse_decimal_floating_point(line: &[char], offset: usize) -> (out: (
    Result<u64, LocalParseError>,
    usize,
))
    ensures
        (out.0, out.1 as int) == decimal_micros_at(line@, offset as int),
{
    if offset > line.len() {
        return (Err(LocalParseError::NoDigits), offset);
    }
    let int_end = skip_digits(line, offset);
    proof {
        lemma_digits_end(line@, offset as int);
    }
    let has_point = int_end < line.len() && line[int_end] == '.';
    let (fraction_from, end) = if has_point {
        let fraction_end = skip_digits(line, int_end + 1);
        proof {
            lemma_digits_end(line@, int_end + 1);
        }
        (int_end + 1, fraction_end)
    } else {
        (int_end, int_end)
    };
    assert(line@.subrange(fraction_from as int, end as int) =~= decimal_fraction_digits(
        line@,
        offset as int,
    ));
    if (int_end - offset) + (end - fraction_from) == 0 {
        return (Err(LocalParseError::NoDigits), offset);
    }
    let fraction = fraction_to_micros(line, fraction_from, end);
    let micros = match digits_to_u64(line, offset, int_end) {
        None => None,
        Some(whole) => match whole.checked_mul(UNITS_PER_WHOLE) {
            None => None,
            Some(scaled) => scaled.checked_add(fraction),
        },
    };
    match micros {
        Some(value) => (Ok(value), end),
        None => (Err(LocalParseError::OutOfRange), end),
    }
}

/// The quoted string that starts at `offset`: what stands between the quote
/// at `offset` and the next one, and the offset just past the closing quote.
/// On failure nothing is consumed.
pub open spec fn quoted_string_at(line: Seq<char>, offset: int) -> (
    Result<Seq<char>, LocalParseError>,
    int,
) {
    if offset >= line.len() || line[offset] != '"' {
        (Err(LocalParseError::MissingQuote), offset)
    } else if find_char(line, '"', offset + 1) >= line.len() {
        (Err(LocalParseError::UnterminatedString), offset)
    } else {
        (Ok(line.subrange(offset + 1, find_char(line, '"', offset + 1))), find_char(
            line,
            '"',
            offset + 1,
        ) + 1)
    }
}

/// Reads the quoted string that starts at `offset`.
pub fn parse_quoted_string<'a>(line: &'a [char], offset: usize) -> (out: (
    Result<&'a [char], LocalParseError>,
    usize,
))
    ensures
        out.1 as int == quoted_string_at(line@, offset as int).1,
        match out.0 {
            Ok(content) => quoted_string_at(line@, offset as int).0 == Ok::<
                Seq<char>,
                LocalParseError,
            >(content@),
            Err(e) => quoted_string_at(line@, offset as int).0 == Err::<
                Seq<char>,
                LocalParseError,
            >(e),
        },
{
    if offset >= line.len() || line[offset] != '"' {
        return (Err(LocalParseError::MissingQuote), offset);
    }
    let close = find(line, '"', offset + 1);
    if close >= line.len() {
        return (Err(LocalParseError::UnterminatedString), offset);
    }
    (Ok(slice_subrange(line, offset + 1, close)), close + 1)
}

/// The token that starts at `offset` and runs up to the next comma or the
/// end of the line, and the offset at which it ends.
pub open spec fn enumerated_string_at(line: Seq<char>, offset: int) -> (Seq<char>, int) {
    if offset > line.len() {
        (Seq::empty(), offset)
    } else {
        (line.subrange(offset, find_char(line, ',', offset)), find_char(line, ',', offset))
    }
}

/// Reads the raw token that starts at `offset`. Whether the token is one of
/// a known set is for the caller to decide.
pub fn parse_enumerated_string<'a>(line: &'a [char], offset: usize) -> (out: (&'a [char], usize))
    ensures
        (out.0@, out.1 as int) == enumerated_string_at(line@, offset as int),
{
    if offset > line.len() {
        return (slice_subrange(line, 0, 0), offset);
    }
    let end = find(line, ',', offset);
    (slice_subrange(line, offset, end), end)
}

} // verus!
