//! Decimal notation of integers.

use vstd::prelude::*;

use crate::text::chars_of;
use crate::text::is_digit;

verus! {

/// The character for a decimal digit.
pub open spec fn digit_char(digit: nat) -> char {
    (48 + digit) as u8 as char
}

/// The decimal notation of a natural number, without leading zeros.
pub open spec fn decimal(number: nat) -> Seq<char>
    decreases number,
{
    if number < 10 {
        seq![digit_char(number)]
    } else {
        decimal(number / 10).push(digit_char(number % 10))
    }
}

/// The decimal notation of an integer.
pub open spec fn decimal_int(number: int) -> Seq<char> {
    if number < 0 {
        seq!['-'] + decimal((-number) as nat)
    } else {
        decimal(number as nat)
    }
}

/// The decimal notation of a natural number is made of digits, and of at least one.
pub proof fn lemma_decimal_digits(number: nat)
    ensures
        decimal(number).len() > 0,
        forall|i: int| 0 <= i < decimal(number).len() ==> is_digit(#[trigger] decimal(number)[i]),
    decreases number,
{
    if number >= 10 {
        lemma_decimal_digits(number / 10);
    }
}

/// Different numbers have different decimal notations.
pub proof fn lemma_decimal_injective(left: nat, right: nat)
    requires
        decimal(left) == decimal(right),
    ensures
        left == right,
    decreases left,
{
    lemma_decimal_digits(left);
    lemma_decimal_digits(right);
    let notation = decimal(left);
    if left < 10 {
        if right >= 10 {
            lemma_decimal_digits(right / 10);
            assert(notation.len() == 1);
            assert(decimal(right).len() > 1);
        } else {
            assert(notation[0] == digit_char(left));
            assert(notation[0] == digit_char(right));
        }
    } else if right < 10 {
        lemma_decimal_digits(left / 10);
        assert(decimal(left).len() > 1);
    } else {
        assert(notation.last() == digit_char(left % 10));
        assert(notation.last() == digit_char(right % 10));
        assert(notation.drop_last() =~= decimal(left / 10));
        assert(notation.drop_last() =~= decimal(right / 10));
        lemma_decimal_injective(left / 10, right / 10);
    }
}

/// The decimal notation of a number.
pub fn decimal_u64(number: u64) -> (notation: String)
    ensures
        notation@ == decimal(number as nat),
    decreases number,
{
    if number < 10 {
        let mut notation = String::new();
        notation.push((48 + number as u8) as char);
        assert(notation@ =~= decimal(number as nat));
        notation
    } else {
        let mut notation = decimal_u64(number / 10);
        notation.push((48 + (number % 10) as u8) as char);
        notation
    }
}

/// The decimal notation of a number.
pub fn decimal_usize(number: usize) -> (notation: String)
    ensures
        notation@ == decimal(number as nat),
{
    decimal_u64(number as u64)
}

/// The decimal notation of an integer.
pub fn decimal_i64(number: i64) -> (notation: String)
    ensures
        notation@ == decimal_int(number as int),
{
    if number < 0 {
        let magnitude: u64 = (-(number as i128)) as u64;
        let digits = decimal_u64(magnitude);
        let mut notation = String::new();
        notation.push('-');
        notation.append(digits.as_str());
        assert(notation@ =~= decimal_int(number as int));
        notation
    } else {
        decimal_u64(number as u64)
    }
}

/// Why a text is not the decimal notation of an integer of a type.
#[derive(Clone, Copy, Debug, PartialEq, Eq, Structural)]
pub enum IntegerError {
    /// The text is empty.
    Empty,
    /// A character is no digit, or a sign stands alone.
    InvalidDigit,
    /// The number lies above the type's largest.
    TooLarge,
    /// The number lies below the type's smallest.
    TooSmall,
}

impl IntegerError {
    /// The sentence for the error.
    pub open spec fn sentence(self) -> Seq<char> {
        match self {
            IntegerError::Empty => "cannot parse integer from empty string"@,
            IntegerError::InvalidDigit => "invalid digit found in string"@,
            IntegerError::TooLarge => "number too large to fit in target type"@,
            IntegerError::TooSmall => "number too small to fit in target type"@,
        }
    }

    /// The sentence for the error.
    pub fn message(&self) -> (message: &'static str)
        ensures
            message@ == self.sentence(),
    {
        match self {
            IntegerError::Empty => "cannot parse integer from empty string",
            IntegerError::InvalidDigit => "invalid digit found in string",
            IntegerError::TooLarge => "number too large to fit in target type",
            IntegerError::TooSmall => "number too small to fit in target type",
        }
    }
}

/// The number that digits spell, read from the left up to the first character that is no digit or
/// takes the number above `limit`.
pub open spec fn digits_value(digits: Seq<char>, limit: nat, beyond: IntegerError) -> Result<
    nat,
    IntegerError,
>
    decreases digits.len(),
{
    if digits.len() == 0 {
        Ok(0nat)
    } else {
        match digits_value(digits.drop_last(), limit, beyond) {
            Err(error) => Err(error),
            Ok(value) => if !is_digit(digits.last()) {
                Err(IntegerError::InvalidDigit)
            } else if value * 10 + (digits.last() as nat - 48) > limit {
                Err(beyond)
            } else {
                Ok((value * 10 + (digits.last() as nat - 48)) as nat)
            },
        }
    }
}

/// A sign with nothing behind it.
pub open spec fn lone_sign(text: Seq<char>) -> bool {
    text.len() == 1 && (text[0] == '+' || text[0] == '-')
}

/// The unsigned integer that a text spells: an optional plus sign, then digits.
pub open spec fn unsigned_value(text: Seq<char>) -> Result<nat, IntegerError> {
    if text.len() == 0 {
        Err(IntegerError::Empty)
    } else if lone_sign(text) {
        Err(IntegerError::InvalidDigit)
    } else if text[0] == '+' {
        digits_value(text.skip(1), u64::MAX as nat, IntegerError::TooLarge)
    } else {
        digits_value(text, u64::MAX as nat, IntegerError::TooLarge)
    }
}

/// The signed integer that a text spells: an optional sign, then digits.
pub open spec fn signed_value(text: Seq<char>) -> Result<int, IntegerError> {
    if text.len() == 0 {
        Err(IntegerError::Empty)
    } else if lone_sign(text) {
        Err(IntegerError::InvalidDigit)
    } else if text[0] == '-' {
        match digits_value(text.skip(1), 0x8000_0000_0000_0000, IntegerError::TooSmall) {
            Ok(value) => Ok(-(value as int)),
            Err(error) => Err(error),
        }
    } else if text[0] == '+' {
        match digits_value(text.skip(1), i64::MAX as nat, IntegerError::TooLarge) {
            Ok(value) => Ok(value as int),
            Err(error) => Err(error),
        }
    } else {
        match digits_value(text, i64::MAX as nat, IntegerError::TooLarge) {
            Ok(value) => Ok(value as int),
            Err(error) => Err(error),
        }
    }
}

/// An error among the first characters is the error of the whole.
proof fn lemma_digits_error(digits: Seq<char>, limit: nat, beyond: IntegerError, to: int)
    requires
        0 <= to <= digits.len(),
        digits_value(digits.take(to), limit, beyond) is Err,
    ensures
        digits_value(digits, limit, beyond) == digits_value(digits.take(to), limit, beyond),
    decreases digits.len() - to,
{
    if to == digits.len() {
        assert(digits.take(to) =~= digits);
    } else {
        let next = digits.take(to + 1);
        assert(next.drop_last() =~= digits.take(to));
        lemma_digits_error(digits, limit, beyond, to + 1);
    }
}

/// The number that the characters from `from` on spell.
fn read_digits(chars: &Vec<char>, from: usize, limit: u64, beyond: IntegerError) -> (value: Result<
    u64,
    IntegerError,
>)
    requires
        from <= chars@.len(),
    ensures
        match value {
            Ok(number) => digits_value(chars@.skip(from as int), limit as nat, beyond) == Ok::<
                nat,
                IntegerError,
            >(number as nat),
            Err(error) => digits_value(chars@.skip(from as int), limit as nat, beyond) == Err::<
                nat,
                IntegerError,
            >(error),
        },
{
    let ghost digits = chars@.skip(from as int);
    let mut value: u64 = 0;
    let mut at: usize = from;
    proof {
        assert(digits.take(0) =~= Seq::<char>::empty());
    }
    while at < chars.len()
        invariant
            from <= at <= chars@.len(),
            digits == chars@.skip(from as int),
            value <= limit,
            digits_value(digits.take(at - from), limit as nat, beyond) == Ok::<nat, IntegerError>(
                value as nat,
            ),
        decreases chars@.len() - at,
    {
        let ch = chars[at];
        let ghost next = digits.take(at - from + 1);
        proof {
            assert(next.drop_last() =~= digits.take(at - from));
            assert(next.last() == ch);
        }
        if !('0' <= ch && ch <= '9') {
            proof {
                lemma_digits_error(digits, limit as nat, beyond, at - from + 1);
            }
            return Err(IntegerError::InvalidDigit);
        }
        let wide: u128 = value as u128 * 10 + (ch as u8 - 48) as u128;
        if wide > limit as u128 {
            proof {
                lemma_digits_error(digits, limit as nat, beyond, at - from + 1);
            }
            return Err(beyond);
        }
        value = wide as u64;
        at += 1;
    }
    assert(digits.take(at - from) =~= digits);
    Ok(value)
}

/// The unsigned integer that a text spells.
pub fn parse_u64(text: &str) -> (value: Result<u64, IntegerError>)
    ensures
        match value {
            Ok(number) => unsigned_value(text@) == Ok::<nat, IntegerError>(number as nat),
            Err(error) => unsigned_value(text@) == Err::<nat, IntegerError>(error),
        },
{
    let chars = chars_of(text);
    proof {
        assert(chars@.skip(0) =~= text@);
    }
    if chars.len() == 0 {
        return Err(IntegerError::Empty);
    }
    if chars.len() == 1 && (chars[0] == '+' || chars[0] == '-') {
        return Err(IntegerError::InvalidDigit);
    }
    if chars[0] == '+' {
        read_digits(&chars, 1, u64::MAX, IntegerError::TooLarge)
    } else {
        read_digits(&chars, 0, u64::MAX, IntegerError::TooLarge)
    }
}

/// The signed integer that a text spells.
pub fn parse_i64(text: &str) -> (value: Result<i64, IntegerError>)
    ensures
        match value {
            Ok(number) => signed_value(text@) == Ok::<int, IntegerError>(number as int),
            Err(error) => signed_value(text@) == Err::<int, IntegerError>(error),
        },
{
    let chars = chars_of(text);
    proof {
        assert(chars@.skip(0) =~= text@);
    }
    if chars.len() == 0 {
        return Err(IntegerError::Empty);
    }
    if chars.len() == 1 && (chars[0] == '+' || chars[0] == '-') {
        return Err(IntegerError::InvalidDigit);
    }
    if chars[0] == '-' {
        match read_digits(&chars, 1, 0x8000_0000_0000_0000, IntegerError::TooSmall) {
            Ok(magnitude) => Ok((-(magnitude as i128)) as i64),
            Err(error) => Err(error),
        }
    } else {
        let from: usize = if chars[0] == '+' { 1 } else { 0 };
        match read_digits(&chars, from, 0x7fff_ffff_ffff_ffff, IntegerError::TooLarge) {
            Ok(magnitude) => Ok(magnitude as i64),
            Err(error) => Err(error),
        }
    }
}

/// Reading the digits of a number gives the number back.
proof fn lemma_digits_of_decimal(number: nat, limit: nat, beyond: IntegerError)
    requires
        number <= limit,
    ensures
        digits_value(decimal(number), limit, beyond) == Ok::<nat, IntegerError>(number),
    decreases number,
{
    let notation = decimal(number);
    reveal_with_fuel(digits_value, 2);
    if number < 10 {
        assert(notation.drop_last() =~= Seq::<char>::empty());
        assert(notation.last() == digit_char(number));
    } else {
        lemma_digits_of_decimal(number / 10, limit, beyond);
        assert(notation.drop_last() =~= decimal(number / 10));
        assert(notation.last() == digit_char(number % 10));
    }
}

/// Parsing the decimal notation of an unsigned integer gives the integer back.
pub proof fn lemma_unsigned_round_trip(number: nat)
    requires
        number <= u64::MAX,
    ensures
        unsigned_value(decimal(number)) == Ok::<nat, IntegerError>(number),
{
    lemma_decimal_digits(number);
    assert(is_digit(decimal(number)[0]));
    lemma_digits_of_decimal(number, u64::MAX as nat, IntegerError::TooLarge);
}

/// Parsing the decimal notation of a signed integer gives the integer back.
pub proof fn lemma_signed_round_trip(number: int)
    requires
        i64::MIN <= number <= i64::MAX,
    ensures
        signed_value(decimal_int(number)) == Ok::<int, IntegerError>(number),
{
    if number < 0 {
        let digits = decimal((-number) as nat);
        lemma_decimal_digits((-number) as nat);
        lemma_digits_of_decimal(
            (-number) as nat,
            0x8000_0000_0000_0000,
            IntegerError::TooSmall,
        );
        assert(decimal_int(number).skip(1) =~= digits);
        assert(decimal_int(number)[0] == '-');
    } else {
        lemma_decimal_digits(number as nat);
        assert(is_digit(decimal(number as nat)[0]));
        lemma_digits_of_decimal(number as nat, i64::MAX as nat, IntegerError::TooLarge);
    }
}

/// A text with anything but digits in it spells no number, but for a sign in front.
pub proof fn lemma_not_digits(text: Seq<char>, at: int)
    requires
        0 <= at < text.len(),
        !is_digit(text[at]),
    ensures
        at > 0 || text[0] != '+' ==> unsigned_value(text) is Err,
        at > 0 || (text[0] != '+' && text[0] != '-') ==> signed_value(text) is Err,
{
    let signed = text[0] == '+' || text[0] == '-';
    if at > 0 && signed {
        assert(text.skip(1)[at - 1] == text[at]);
        lemma_digits_refused(text.skip(1), u64::MAX as nat, IntegerError::TooLarge, at - 1);
        lemma_digits_refused(text.skip(1), i64::MAX as nat, IntegerError::TooLarge, at - 1);
        lemma_digits_refused(text.skip(1), 0x8000_0000_0000_0000, IntegerError::TooSmall, at - 1);
    }
    lemma_digits_refused(text, u64::MAX as nat, IntegerError::TooLarge, at);
    lemma_digits_refused(text, i64::MAX as nat, IntegerError::TooLarge, at);
}

/// A character that is no digit spells no number, whatever stands around it.
proof fn lemma_digits_refused(digits: Seq<char>, limit: nat, beyond: IntegerError, at: int)
    requires
        0 <= at < digits.len(),
        !is_digit(digits[at]),
    ensures
        digits_value(digits, limit, beyond) is Err,
    decreases digits.len(),
{
    if at < digits.len() - 1 {
        assert(digits.drop_last()[at] == digits[at]);
        lemma_digits_refused(digits.drop_last(), limit, beyond, at);
    }
}

/// A number that is too large is refused, and a plus sign in front changes nothing.
pub proof fn lemma_unsigned_limit(number: nat)
    ensures
        number > u64::MAX ==> unsigned_value(decimal(number)) == Err::<nat, IntegerError>(
            IntegerError::TooLarge,
        ),
        number <= u64::MAX ==> unsigned_value(seq!['+'] + decimal(number)) == Ok::<
            nat,
            IntegerError,
        >(number),
{
    lemma_decimal_digits(number);
    assert(is_digit(decimal(number)[0]));
    if number > u64::MAX {
        lemma_digits_beyond(number, u64::MAX as nat, IntegerError::TooLarge);
    } else {
        lemma_digits_of_decimal(number, u64::MAX as nat, IntegerError::TooLarge);
        let text = seq!['+'] + decimal(number);
        assert(text.skip(1) =~= decimal(number));
    }
}

/// Digits that spell a number above the limit are refused.
proof fn lemma_digits_beyond(number: nat, limit: nat, beyond: IntegerError)
    requires
        number > limit,
        limit >= 9,
    ensures
        digits_value(decimal(number), limit, beyond) == Err::<nat, IntegerError>(beyond),
    decreases number,
{
    let notation = decimal(number);
    let front = number / 10;
    assert(notation.drop_last() =~= decimal(front));
    assert(notation.last() == digit_char(number % 10));
    if front > limit {
        lemma_digits_beyond(front, limit, beyond);
    } else {
        lemma_digits_of_decimal(front, limit, beyond);
        assert(is_digit(notation.last()));
        assert(front * 10 + number % 10 == number);
    }
}

/// Nothing, and a sign by itself, spell no number.
pub proof fn lemma_no_number(sign: char)
    requires
        sign == '+' || sign == '-',
    ensures
        unsigned_value(seq![sign]) is Err,
        signed_value(seq![sign]) is Err,
        unsigned_value(Seq::<char>::empty()) is Err,
        signed_value(Seq::<char>::empty()) is Err,
{
}

} // verus!
