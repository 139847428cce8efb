//! Decimal integers as the rule commands write them.
//!
//! The readings follow `str::parse` for `i32` and `u8`: an optional sign, then
//! digits read left to right, where a character that is not an ASCII digit
//! stops the reading with `InvalidDigit` and a step that leaves the target
//! range stops it with an overflow.

use vstd::prelude::*;
use crate::text::{is_ascii_digit, ascii_digit_value};

verus! {

/// Why a text is not a decimal number of the target type.
#[derive(Debug, Clone, Copy, PartialEq, Eq, Structural)]
pub enum NumberError {
    /// The text is empty.
    Empty,
    /// The text holds a character that is not a digit where a digit belongs.
    InvalidDigit,
    /// The number is above the largest value of the target type.
    PosOverflow,
    /// The number is below the smallest value of the target type.
    NegOverflow,
}

impl NumberError {
    /// The text that std gives for the same kind of failure.
    pub open spec fn spec_message(self) -> Seq<char> {
        match self {
            NumberError::Empty => "cannot parse integer from empty string"@,
            NumberError::InvalidDigit => "invalid digit found in string"@,
            NumberError::PosOverflow => "number too large to fit in target type"@,
            NumberError::NegOverflow => "number too small to fit in target type"@,
        }
    }

    /// A description of the failure.
    pub fn message(&self) -> (text: String)
        ensures
            text@ == self.spec_message(),
    {
        match self {
            NumberError::Empty => String::from_str("cannot parse integer from empty string"),
            NumberError::InvalidDigit => String::from_str("invalid digit found in string"),
            NumberError::PosOverflow => String::from_str("number too large to fit in target type"),
            NumberError::NegOverflow => String::from_str("number too small to fit in target type"),
        }
    }
}

/// Reads `digits` left to right into a value in `[min, max]`, subtracting the
/// digits when `negative` (so that the value is built with its sign), and
/// reports the first character that is not an ASCII digit, or the first step
/// that leaves the range.
pub open spec fn read_digits(digits: Seq<char>, negative: bool, min: int, max: int) -> Result<
    int,
    NumberError,
>
    decreases digits.len(),
{
    if digits.len() == 0 {
        Ok(0)
    } else {
        match read_digits(digits.drop_last(), negative, min, max) {
            Err(e) => Err(e),
            Ok(v) => {
                let c = digits.last();
                if !is_ascii_digit(c) {
                    Err(NumberError::InvalidDigit)
                } else {
                    let next = if negative {
                        v * 10 - ascii_digit_value(c)
                    } else {
                        v * 10 + ascii_digit_value(c)
                    };
                    if next < min {
                        Err(NumberError::NegOverflow)
                    } else if next > max {
                        Err(NumberError::PosOverflow)
                    } else {
                        Ok(next)
                    }
                }
            },
        }
    }
}

/// The reading of `s` as an integer in `[min, max]`: empty text is `Empty`, a
/// lone sign is `InvalidDigit`, a leading `+` is dropped, a leading `-` makes
/// the number negative where `signed` allows it.
pub open spec fn read_integer(s: Seq<char>, signed: bool, min: int, max: int) -> Result<
    int,
    NumberError,
> {
    if s.len() == 0 {
        Err(NumberError::Empty)
    } else if s.len() == 1 && (s[0] == '+' || s[0] == '-') {
        Err(NumberError::InvalidDigit)
    } else if s[0] == '+' {
        read_digits(s.drop_first(), false, min, max)
    } else if s[0] == '-' && signed {
        read_digits(s.drop_first(), true, min, max)
    } else {
        read_digits(s, false, min, max)
    }
}

/// The reading of `s` as an `i32`.
pub open spec fn read_i32(s: Seq<char>) -> Result<i32, NumberError> {
    match read_integer(s, true, i32::MIN as int, i32::MAX as int) {
        Ok(v) => Ok(v as i32),
        Err(e) => Err(e),
    }
}

/// The reading of `s` as a `u8`.
pub open spec fn read_u8(s: Seq<char>) -> Result<u8, NumberError> {
    match read_integer(s, false, 0, u8::MAX as int) {
        Ok(v) => Ok(v as u8),
        Err(e) => Err(e),
    }
}

/// Once a prefix fails, every extension of it fails the same way.
pub proof fn lemma_read_digits_error_sticks(
    digits: Seq<char>,
    k: int,
    negative: bool,
    min: int,
    max: int,
)
    requires
        0 <= k <= digits.len(),
        read_digits(digits.take(k), negative, min, max) is Err,
    ensures
        read_digits(digits, negative, min, max) == read_digits(digits.take(k), negative, min, max),
    decreases digits.len() - k,
{
    if k < digits.len() {
        assert(digits.take(k + 1).drop_last() =~= digits.take(k));
        lemma_read_digits_error_sticks(digits, k + 1, negative, min, max);
    } else {
        assert(digits.take(k) =~= digits);
    }
}

/// Reads `v[start..end]` as an integer in `[min, max]`.
fn read_integer_exec(v: &Vec<char>, start: usize, end: usize, signed: bool, min: i64, max: i64) -> (r:
    Result<i64, NumberError>)
    requires
        start <= end <= v.len(),
        i32::MIN <= min <= 0 <= max <= i32::MAX,
    ensures
        match read_integer(v@.subrange(start as int, end as int), signed, min as int, max as int) {
            Ok(x) => r == Ok::<i64, NumberError>(x as i64),
            Err(e) => r == Err::<i64, NumberError>(e),
        },
{
    let ghost s = v@.subrange(start as int, end as int);
    if start == end {
        return Err(NumberError::Empty);
    }
    if end - start == 1 && (v[start] == '+' || v[start] == '-') {
        return Err(NumberError::InvalidDigit);
    }
    let mut negative = false;
    let mut first = start;
    if v[start] == '+' {
        first = start + 1;
    } else if v[start] == '-' && signed {
        negative = true;
        first = start + 1;
    }
    let ghost digits = v@.subrange(first as int, end as int);
    assert(first > start ==> digits =~= s.drop_first());
    assert(first == start ==> digits =~= s);
    assert(read_integer(s, signed, min as int, max as int) == read_digits(digits, negative, min as int, max as int));
    let mut acc: i64 = 0;
    let mut i = first;
    while i < end
        invariant
            first <= i <= end <= v.len(),
            min <= acc <= max,
            i32::MIN <= min <= 0 <= max <= i32::MAX,
            digits == v@.subrange(first as int, end as int),
            read_integer(v@.subrange(start as int, end as int), signed, min as int, max as int)
                == read_digits(digits, negative, min as int, max as int),
            read_digits(v@.subrange(first as int, i as int), negative, min as int, max as int)
                == Ok::<int, NumberError>(acc as int),
        decreases end - i,
    {
        let ghost prefix = v@.subrange(first as int, (i + 1) as int);
        assert(prefix.drop_last() =~= v@.subrange(first as int, i as int));
        assert(prefix.last() == v@[i as int]);
        assert(digits.take((i + 1 - first) as int) =~= prefix);
        let c = v[i];
        if !('0' <= c && c <= '9') {
            proof {
                lemma_read_digits_error_sticks(digits, (i + 1 - first) as int, negative, min as int, max as int);
            }
            return Err(NumberError::InvalidDigit);
        }
        let d = (c as u32 - '0' as u32) as i64;
        assert(d == ascii_digit_value(c));
        let next = if negative {
            acc * 10 - d
        } else {
            acc * 10 + d
        };
        if next < min {
            proof {
                lemma_read_digits_error_sticks(digits, (i + 1 - first) as int, negative, min as int, max as int);
            }
            return Err(NumberError::NegOverflow);
        }
        if next > max {
            proof {
                lemma_read_digits_error_sticks(digits, (i + 1 - first) as int, negative, min as int, max as int);
            }
            return Err(NumberError::PosOverflow);
        }
        acc = next;
        i = i + 1;
    }
    assert(v@.subrange(first as int, i as int) =~= digits);
    Ok(acc)
}

/// Reads `v[start..end]` as `str::parse::<i32>` does.
pub fn parse_i32(v: &Vec<char>, start: usize, end: usize) -> (r: Result<i32, NumberError>)
    requires
        start <= end <= v.len(),
    ensures
        r == read_i32(v@.subrange(start as int, end as int)),
{
    match read_integer_exec(v, start, end, true, i32::MIN as i64, i32::MAX as i64) {
        Ok(x) => Ok(x as i32),
        Err(e) => Err(e),
    }
}

/// Reads `v[start..end]` as `str::parse::<u8>` does.
pub fn parse_u8(v: &Vec<char>, start: usize, end: usize) -> (r: Result<u8, NumberError>)
    requires
        start <= end <= v.len(),
    ensures
        r == read_u8(v@.subrange(start as int, end as int)),
{
    match read_integer_exec(v, start, end, false, 0, u8::MAX as i64) {
        Ok(x) => Ok(x as u8),
        Err(e) => Err(e),
    }
}


/// A successful reading stays in range.
pub proof fn lemma_read_digits_range(digits: Seq<char>, negative: bool, min: int, max: int)
    ensures
        read_digits(digits, negative, min, max) matches Ok(v) ==> (digits.len() == 0 && v == 0) || min
            <= v <= max,
    decreases digits.len(),
{
    if digits.len() > 0 {
        lemma_read_digits_range(digits.drop_last(), negative, min, max);
    }
}

/// Digits read as a decimal number: one more digit multiplies the value by
/// ten and adds the digit, and a value beyond `i32::MAX` is an overflow.
pub proof fn law_read_i32_appends_digit(d: Seq<char>, c: char)
    requires
        d.len() > 0,
        forall|k: int| 0 <= k < d.len() ==> is_ascii_digit(#[trigger] d[k]),
        is_ascii_digit(c),
        read_i32(d) is Ok,
    ensures
        ({
            let v = read_i32(d)->Ok_0 as int;
            let next = 10 * v + ascii_digit_value(c);
            &&& next <= i32::MAX ==> read_i32(d.push(c)) == Ok::<i32, NumberError>(next as i32)
            &&& next > i32::MAX ==> read_i32(d.push(c)) == Err::<i32, NumberError>(
                NumberError::PosOverflow,
            )
        }),
{
    let s = d.push(c);
    assert(s.drop_last() =~= d);
    assert(s[0] == d[0]);
    assert(is_ascii_digit(d[0]));
    lemma_read_digits_range(d, false, i32::MIN as int, i32::MAX as int);
    assert(read_integer(d, true, i32::MIN as int, i32::MAX as int) == read_digits(
        d,
        false,
        i32::MIN as int,
        i32::MAX as int,
    ));
    lemma_read_digits_nonnegative(d);
}

/// Readings of plain digits are never negative.
pub proof fn lemma_read_digits_nonnegative(d: Seq<char>)
    ensures
        read_digits(d, false, i32::MIN as int, i32::MAX as int) matches Ok(v) ==> v >= 0,
    decreases d.len(),
{
    if d.len() > 0 {
        lemma_read_digits_nonnegative(d.drop_last());
    }
}

/// A single ASCII digit reads as its value.
pub proof fn law_read_i32_single_digit(c: char)
    requires
        is_ascii_digit(c),
    ensures
        read_i32(seq![c]) == Ok::<i32, NumberError>(ascii_digit_value(c) as i32),
        read_u8(seq![c]) == Ok::<u8, NumberError>(ascii_digit_value(c) as u8),
{
    let s = seq![c];
    assert(s.drop_last() =~= Seq::<char>::empty());
    assert(s[0] == c && s.len() == 1);
    assert(c != '+' && c != '-');
    assert(0 <= ascii_digit_value(c) <= 9);
    assert(read_digits(s.drop_last(), false, i32::MIN as int, i32::MAX as int) == Ok::<int, NumberError>(0));
    assert(read_digits(s.drop_last(), false, 0, 255) == Ok::<int, NumberError>(0));
    assert(read_digits(s, false, i32::MIN as int, i32::MAX as int) == Ok::<int, NumberError>(ascii_digit_value(c)));
    assert(read_digits(s, false, 0, 255) == Ok::<int, NumberError>(ascii_digit_value(c)));
}

/// A leading `-` negates: where the digits read as `v`, `-` and the digits
/// read as `-v`.
pub proof fn law_read_i32_minus(d: Seq<char>)
    requires
        d.len() > 0,
        forall|k: int| 0 <= k < d.len() ==> is_ascii_digit(#[trigger] d[k]),
        read_i32(d) is Ok,
    ensures
        read_i32(seq!['-'] + d) == Ok::<i32, NumberError>((-(read_i32(d)->Ok_0 as int)) as i32),
{
    assert((seq!['-'] + d).drop_first() =~= d);
    assert(is_ascii_digit(d[0]));
    lemma_read_digits_range(d, false, i32::MIN as int, i32::MAX as int);
    lemma_read_digits_negates(d);
    lemma_read_digits_range(d, true, i32::MIN as int, i32::MAX as int);
}

/// Reading digits with the sign built in gives the negation of reading them
/// without it, wherever the latter succeeds.
pub proof fn lemma_read_digits_negates(d: Seq<char>)
    ensures
        read_digits(d, false, i32::MIN as int, i32::MAX as int) matches Ok(v) ==> read_digits(
            d,
            true,
            i32::MIN as int,
            i32::MAX as int,
        ) == Ok::<int, NumberError>(-v),
    decreases d.len(),
{
    if d.len() > 0 {
        lemma_read_digits_negates(d.drop_last());
        lemma_read_digits_nonnegative(d.drop_last());
    }
}

} // verus!
