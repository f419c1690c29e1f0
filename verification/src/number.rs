//! Decimal numbers as text: reading an integer from its digits and writing
//! one out.

use vstd::prelude::*;

verus! {

/// Why a text is no decimal integer of the wanted type.
#[derive(Clone, Copy, Debug, PartialEq, Eq, Structural)]
pub enum NumError {
    /// The text is empty.
    Empty,
    /// A character is no decimal digit, or a sign stands alone.
    InvalidDigit,
    /// The number is above the largest value of the type.
    PosOverflow,
    /// The number is below the smallest value of the type.
    NegOverflow,
}

impl NumError {
    /// The error in words.
    pub open spec fn message(self) -> Seq<char> {
        match self {
            NumError::Empty => "cannot parse integer from empty string"@,
            NumError::InvalidDigit => "invalid digit found in string"@,
            NumError::PosOverflow => "number too large to fit in target type"@,
            NumError::NegOverflow => "number too small to fit in target type"@,
        }
    }

    /// The error in words.
    pub fn describe(&self) -> (s: &'static str)
        ensures
            s@ == self.message(),
    {
        match self {
            NumError::Empty => "cannot parse integer from empty string",
            NumError::InvalidDigit => "invalid digit found in string",
            NumError::PosOverflow => "number too large to fit in target type",
            NumError::NegOverflow => "number too small to fit in target type",
        }
    }
}

/// Whether `c` is one of `0` to `9`.
pub open spec fn is_digit(c: char) -> bool {
    '0' <= c <= '9'
}

/// The value of the digit `c`.
pub open spec fn digit_value(c: char) -> int {
    c as int - '0' as int
}

/// Reads `digits` from left to right into a number between `lo` and `hi`,
/// as a negative number where `negative` is set. The first character that
/// is no digit, or that takes the number out of the range, decides the
/// error; where one character does both, it counts as no digit.
pub open spec fn accumulate(digits: Seq<char>, negative: bool, lo: int, hi: int) -> Result<
    int,
    NumError,
>
    decreases digits.len(),
{
    if digits.len() == 0 {
        Ok(0)
    } else {
        match accumulate(digits.drop_last(), negative, lo, hi) {
            Err(e) => Err(e),
            Ok(v) => {
                let c = digits.last();
                let n = if negative {
                    10 * v - digit_value(c)
                } else {
                    10 * v + digit_value(c)
                };
                if !is_digit(c) {
                    Err(NumError::InvalidDigit)
                } else if n < lo {
                    Err(NumError::NegOverflow)
                } else if n > hi {
                    Err(NumError::PosOverflow)
                } else {
                    Ok(n)
                }
            },
        }
    }
}

/// The integer between `lo` and `hi` that `s` writes in decimal: an
/// optional `+`, or `-` where `signed`, and at least one digit.
pub open spec fn parse_decimal(s: Seq<char>, signed: bool, lo: int, hi: int) -> Result<
    int,
    NumError,
> {
    if s.len() == 0 {
        Err(NumError::Empty)
    } else if s.len() == 1 && (s[0] == '+' || s[0] == '-') {
        Err(NumError::InvalidDigit)
    } else if s[0] == '+' {
        accumulate(s.drop_first(), false, lo, hi)
    } else if signed && s[0] == '-' {
        accumulate(s.drop_first(), true, lo, hi)
    } else {
        accumulate(s, false, lo, hi)
    }
}

/// What `s` is as an `i64`.
pub open spec fn parse_i64_spec(s: Seq<char>) -> Result<int, NumError> {
    parse_decimal(s, true, i64::MIN as int, i64::MAX as int)
}

/// What `s` is as a `u64`.
pub open spec fn parse_u64_spec(s: Seq<char>) -> Result<int, NumError> {
    parse_decimal(s, false, 0, u64::MAX as int)
}

/// The value of a sequence of digits.
pub open spec fn digits_value(digits: Seq<char>) -> nat
    decreases digits.len(),
{
    if digits.len() == 0 {
        0
    } else {
        (10 * digits_value(digits.drop_last()) + digit_value(digits.last())) as nat
    }
}

/// Whether every character of `s` is a digit.
pub open spec fn all_digits(s: Seq<char>) -> bool {
    forall|i: int| 0 <= i < s.len() ==> is_digit(#[trigger] s[i])
}

/// Reading succeeds exactly on digits whose value lies in the range, and
/// gives that value.
pub proof fn lemma_accumulate_ok(digits: Seq<char>, negative: bool, lo: int, hi: int)
    requires
        lo <= 0 <= hi,
    ensures
        accumulate(digits, negative, lo, hi) is Ok <==> all_digits(digits) && (if negative {
            lo <= -digits_value(digits)
        } else {
            digits_value(digits) <= hi
        }),
        accumulate(digits, negative, lo, hi) matches Ok(v) ==> v == (if negative {
            -digits_value(digits)
        } else {
            digits_value(digits) as int
        }),
    decreases digits.len(),
{
    if digits.len() > 0 {
        let rest = digits.drop_last();
        lemma_accumulate_ok(rest, negative, lo, hi);
        assert forall|i: int| 0 <= i < rest.len() implies rest[i] == digits[i] by {}
        if all_digits(digits) {
            assert(is_digit(digits[digits.len() - 1]));
            assert forall|i: int| 0 <= i < rest.len() implies is_digit(#[trigger] rest[i]) by {
                assert(is_digit(digits[i]));
            }
        }
        if all_digits(rest) && is_digit(digits.last()) {
            assert forall|i: int| 0 <= i < digits.len() implies is_digit(#[trigger] digits[i]) by {
                if i < rest.len() {
                    assert(is_digit(rest[i]));
                }
            }
        }
    }
}

/// Whether the first character of `s` is read as its sign.
pub open spec fn has_sign(s: Seq<char>, signed: bool) -> bool {
    s.len() > 0 && (s[0] == '+' || (signed && s[0] == '-'))
}

/// What follows the sign of `s`, or all of `s` where it has none.
pub open spec fn digits_of(s: Seq<char>, signed: bool) -> Seq<char> {
    if has_sign(s, signed) {
        s.drop_first()
    } else {
        s
    }
}

/// A text is read as the number `n` exactly where it is made of an optional
/// sign and at least one digit, with nothing else, and `n` is the value of
/// the digits, taken as negative after `-`, and lies in the range.
pub proof fn lemma_parse_decimal_ok(s: Seq<char>, signed: bool, lo: int, hi: int, n: int)
    requires
        lo <= 0 <= hi,
    ensures
        parse_decimal(s, signed, lo, hi) == Ok::<int, NumError>(n) <==> {
            let digits = digits_of(s, signed);
            &&& digits.len() > 0
            &&& all_digits(digits)
            &&& n == if signed && s[0] == '-' {
                -digits_value(digits)
            } else {
                digits_value(digits) as int
            }
            &&& lo <= n <= hi
        },
{
    let digits = digits_of(s, signed);
    let negative = signed && s.len() > 0 && s[0] == '-';
    lemma_accumulate_ok(digits, negative, lo, hi);
    if s.len() == 1 && (s[0] == '+' || s[0] == '-') {
        if has_sign(s, signed) {
            assert(digits.len() == 0);
        } else {
            assert(!is_digit(digits[0]));
        }
    }
}

/// The sign and the digits of a text: whether it is read as negative, and
/// what follows the sign.
fn split_sign(v: &Vec<char>, signed: bool) -> (r: (bool, usize))
    requires
        v.len() > 0,
        !(v.len() == 1 && (v@[0] == '+' || v@[0] == '-')),
    ensures
        r.1 <= 1,
        r.0 == (signed && v@[0] == '-'),
        r.1 == 1 <==> (v@[0] == '+' || (signed && v@[0] == '-')),
{
    if v[0] == '+' {
        (false, 1)
    } else if signed && v[0] == '-' {
        (true, 1)
    } else {
        (false, 0)
    }
}

/// Reads a decimal `i64`, as `str::parse::<i64>` reads it.
pub fn parse_i64(v: &Vec<char>) -> (r: Result<i64, NumError>)
    ensures
        r matches Ok(n) ==> parse_i64_spec(v@) == Ok::<int, NumError>(n as int),
        r matches Err(e) ==> parse_i64_spec(v@) == Err::<int, NumError>(e),
{
    if v.len() == 0 {
        return Err(NumError::Empty);
    }
    if v.len() == 1 && (v[0] == '+' || v[0] == '-') {
        return Err(NumError::InvalidDigit);
    }
    let (negative, start) = split_sign(v, true);
    let ghost digits = v@.skip(start as int);
    assert(start == 1 ==> digits == v@.drop_first());
    assert(start == 0 ==> digits == v@);
    let mut acc: i64 = 0;
    let mut i: usize = start;
    while i < v.len()
        invariant
            start <= i <= v.len(),
            digits == v@.skip(start as int),
            parse_i64_spec(v@) == accumulate(digits, negative, i64::MIN as int, i64::MAX as int),
            negative ==> acc <= 0,
            !negative ==> acc >= 0,
            accumulate(digits.take(i - start), negative, i64::MIN as int, i64::MAX as int) == Ok::<
                int,
                NumError,
            >(acc as int),
        decreases v.len() - i,
    {
        let c: char = v[i];
        proof {
            let now = digits.take(i - start + 1);
            assert(now.drop_last() == digits.take(i - start));
            assert(now.last() == c);
            lemma_accumulate_fails_on(
                digits,
                i - start + 1,
                negative,
                i64::MIN as int,
                i64::MAX as int,
            );
        }
        if !('0' <= c && c <= '9') {
            return Err(NumError::InvalidDigit);
        }
        let d: i64 = (c as u32 - '0' as u32) as i64;
        let next: Option<i64> = match acc.checked_mul(10) {
            None => None,
            Some(m) => if negative {
                m.checked_sub(d)
            } else {
                m.checked_add(d)
            },
        };
        match next {
            None => {
                return Err(
                    if negative {
                        NumError::NegOverflow
                    } else {
                        NumError::PosOverflow
                    },
                );
            },
            Some(n) => {
                acc = n;
            },
        }
        i += 1;
    }
    assert(digits.take(v.len() - start) == digits);
    Ok(acc)
}

/// Reads a decimal `u64`, as `str::parse::<u64>` reads it.
pub fn parse_u64(v: &Vec<char>) -> (r: Result<u64, NumError>)
    ensures
        r matches Ok(n) ==> parse_u64_spec(v@) == Ok::<int, NumError>(n as int),
        r matches Err(e) ==> parse_u64_spec(v@) == Err::<int, NumError>(e),
{
    if v.len() == 0 {
        return Err(NumError::Empty);
    }
    if v.len() == 1 && (v[0] == '+' || v[0] == '-') {
        return Err(NumError::InvalidDigit);
    }
    let (_, start) = split_sign(v, false);
    let ghost digits = v@.skip(start as int);
    assert(start == 1 ==> digits == v@.drop_first());
    assert(start == 0 ==> digits == v@);
    let mut acc: u64 = 0;
    let mut i: usize = start;
    while i < v.len()
        invariant
            start <= i <= v.len(),
            digits == v@.skip(start as int),
            parse_u64_spec(v@) == accumulate(digits, false, 0, u64::MAX as int),
            accumulate(digits.take(i - start), false, 0, u64::MAX as int) == Ok::<int, NumError>(
                acc as int,
            ),
        decreases v.len() - i,
    {
        let c: char = v[i];
        proof {
            let now = digits.take(i - start + 1);
            assert(now.drop_last() == digits.take(i - start));
            assert(now.last() == c);
            lemma_accumulate_fails_on(digits, i - start + 1, false, 0, u64::MAX as int);
        }
        if !('0' <= c && c <= '9') {
            return Err(NumError::InvalidDigit);
        }
        let d: u64 = (c as u32 - '0' as u32) as u64;
        let next: Option<u64> = match acc.checked_mul(10) {
            None => None,
            Some(m) => m.checked_add(d),
        };
        match next {
            None => {
                return Err(NumError::PosOverflow);
            },
            Some(n) => {
                acc = n;
            },
        }
        i += 1;
    }
    assert(digits.take(v.len() - start) == digits);
    Ok(acc)
}

/// An error on a prefix of the digits is the error on all of them.
proof fn lemma_accumulate_fails_on(digits: Seq<char>, k: int, negative: bool, lo: int, hi: int)
    requires
        0 <= k <= digits.len(),
    ensures
        accumulate(digits.take(k), negative, lo, hi) matches Err(e) ==> accumulate(
            digits,
            negative,
            lo,
            hi,
        ) == Err::<int, NumError>(e),
    decreases digits.len() - k,
{
    if k == digits.len() {
        assert(digits.take(k) == digits);
    } else {
        lemma_accumulate_fails_on(digits, k + 1, negative, lo, hi);
        assert(digits.take(k + 1).drop_last() == digits.take(k));
    }
}

/// The character of the digit `d`.
pub open spec fn digit_char(d: int) -> char {
    ('0' as int + d) as char
}

/// The decimal digits of `n`, with no leading zero but for zero itself.
pub open spec fn decimal(n: nat) -> Seq<char>
    decreases n,
{
    if n < 10 {
        seq![digit_char(n as int)]
    } else {
        decimal(n / 10).push(digit_char((n % 10) as int))
    }
}

/// The decimal digits of `v`, after a `-` where it is negative.
pub open spec fn signed_decimal(v: int) -> Seq<char> {
    if v < 0 {
        seq!['-'] + decimal((-v) as nat)
    } else {
        decimal(v as nat)
    }
}

/// `s`, with zeros in front of it where it is shorter than `width`.
pub open spec fn zero_padded(s: Seq<char>, width: nat) -> Seq<char>
    decreases width - s.len(),
{
    if s.len() < width {
        zero_padded(seq!['0'] + s, width)
    } else {
        s
    }
}

/// A number has at least one digit, and two from ten on.
pub proof fn lemma_decimal_len(n: nat)
    ensures
        decimal(n).len() >= 1,
        n >= 10 ==> decimal(n).len() >= 2,
    decreases n,
{
    if n >= 10 {
        lemma_decimal_len(n / 10);
    }
}

/// The digits that are written for a number are digits, and their value is
/// the number.
pub proof fn lemma_decimal_value(n: nat)
    ensures
        all_digits(decimal(n)),
        digits_value(decimal(n)) == n,
    decreases n,
{
    let last = digit_char((n % 10) as int);
    assert(is_digit(last) && digit_value(last) == n % 10);
    assert(digits_value(decimal(n)) == 10 * digits_value(decimal(n).drop_last()) + digit_value(
        decimal(n).last(),
    ));
    if n < 10 {
        assert(decimal(n).drop_last() =~= Seq::<char>::empty());
        assert(digits_value(decimal(n).drop_last()) == 0);
        assert(decimal(n).last() == last);
    } else {
        lemma_decimal_value(n / 10);
        let rest = decimal(n / 10);
        assert(decimal(n).drop_last() =~= rest);
        assert(decimal(n).last() == last);
        assert forall|i: int| 0 <= i < decimal(n).len() implies is_digit(
            #[trigger] decimal(n)[i],
        ) by {
            if i < rest.len() {
                assert(decimal(n)[i] == rest[i]);
            }
        }
    }
}

/// Appends the decimal digits of `n`.
pub fn push_decimal(out: &mut Vec<char>, n: u128)
    ensures
        final(out)@ == old(out)@ + decimal(n as nat),
    decreases n,
{
    if n >= 10 {
        push_decimal(out, n / 10);
    }
    let d: u8 = (n % 10) as u8;
    let c: char = (48u8 + d) as char;
    assert(c == digit_char((n % 10) as int));
    out.push(c);
    if n < 10 {
        assert(old(out)@.push(digit_char(n as int)) == old(out)@ + seq![digit_char(n as int)]);
    } else {
        assert((old(out)@ + decimal((n / 10) as nat)).push(digit_char((n % 10) as int)) == old(
            out,
        )@ + decimal(n as nat));
    }
}

/// Appends the decimal digits of `n`, with zeros in front to make at
/// least two characters.
pub fn push_two_digits(out: &mut Vec<char>, n: u128)
    ensures
        final(out)@ == old(out)@ + zero_padded(decimal(n as nat), 2),
{
    if n < 10 {
        out.push('0');
        assert(zero_padded(decimal(n as nat), 2) == seq!['0'] + decimal(n as nat)) by {
            reveal_with_fuel(zero_padded, 2);
        }
    } else {
        proof {
            lemma_decimal_len(n as nat);
        }
    }
    let ghost mid = out@;
    push_decimal(out, n);
    assert(mid + decimal(n as nat) == old(out)@ + zero_padded(decimal(n as nat), 2));
}

} // verus!
