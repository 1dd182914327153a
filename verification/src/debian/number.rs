//! Numbers in base ten.

use vstd::prelude::*;

use crate::text;
use crate::text::chars_of;

verus! {

/// Whether a character is a digit in base ten.
pub open spec fn is_digit(c: char) -> bool {
    '0' <= c <= '9'
}

/// Whether a text holds nothing but digits.
pub open spec fn all_digits(text: Seq<char>) -> bool {
    forall|i: int| 0 <= i < text.len() ==> is_digit(#[trigger] text[i])
}

/// The number that digits write.
pub open spec fn number_value(digits: Seq<char>) -> nat
    decreases digits.len(),
{
    if digits.len() == 0 {
        0
    } else {
        number_value(digits.drop_last()) * 10 + (digits.last() as nat - '0' as nat) as nat
    }
}

/// A text without the plus sign that may stand in front of a number.
pub open spec fn without_plus(text: Seq<char>) -> Seq<char> {
    if text.len() > 0 && text[0] == '+' {
        text.skip(1)
    } else {
        text
    }
}

/// Whether a text is an unsigned number: at least one digit, and nothing else
/// but a plus sign in front of them.
pub open spec fn is_unsigned(text: Seq<char>) -> bool {
    without_plus(text).len() > 0 && all_digits(without_plus(text))
}

/// The digits that a text begins with.
pub open spec fn leading_digits(text: Seq<char>) -> Seq<char>
    decreases text.len(),
{
    if text.len() > 0 && is_digit(text[0]) {
        seq![text[0]] + leading_digits(text.drop_first())
    } else {
        Seq::empty()
    }
}

/// Why a text is not a number.
#[derive(Clone, Copy, Debug, PartialEq, Eq, Structural)]
pub enum IntegerError {
    /// The text is empty.
    Empty,
    /// The text holds something that is not a digit.
    InvalidDigit,
    /// The number is too large.
    PosOverflow,
}

impl IntegerError {
    /// What the error says.
    pub open spec fn text(self) -> Seq<char> {
        match self {
            IntegerError::Empty => "cannot parse integer from empty string"@,
            IntegerError::InvalidDigit => "invalid digit found in string"@,
            IntegerError::PosOverflow => "number too large to fit in target type"@,
        }
    }

    /// Whether this can be why a text is not a number that fits.
    pub open spec fn explains(self, text: Seq<char>) -> bool {
        match self {
            IntegerError::Empty => text.len() == 0,
            IntegerError::InvalidDigit => text.len() > 0 && !is_unsigned(text),
            IntegerError::PosOverflow => number_value(leading_digits(without_plus(text)))
                > usize::MAX,
        }
    }

    /// What the error says.
    pub fn message(self) -> (message: &'static str)
        ensures
            message@ == self.text(),
    {
        match self {
            IntegerError::Empty => "cannot parse integer from empty string",
            IntegerError::InvalidDigit => "invalid digit found in string",
            IntegerError::PosOverflow => "number too large to fit in target type",
        }
    }
}

/// Why `usize::from_str` refuses a text, where `max` is the largest `usize`.
pub uninterp spec fn usize_error(text: Seq<char>, max: usize) -> IntegerError;

/// Calls `usize::from_str`, which takes digits in base ten with an optional
/// plus sign in front of them, refuses every other text, and refuses a number
/// that does not fit. The kind of the error depends on the text and on the size
/// of `usize` alone. It tells an empty text apart, and an invalid digit from a
/// number that is too large; the latter comes back only where the digits that
/// the text begins with, after the plus sign, do not fit. Which of these two
/// comes back for a text that begins with such digits and holds something else
/// behind them is not said.
#[verifier::external_body]
pub(crate) fn parse_usize(text: &str) -> (result: Result<usize, IntegerError>)
    ensures
        match result {
            Ok(number) => is_unsigned(text@) && number == number_value(without_plus(text@)),
            Err(error) => {
                &&& !(is_unsigned(text@) && number_value(without_plus(text@)) <= usize::MAX)
                &&& error == usize_error(text@, usize::MAX)
                &&& error.explains(text@)
            },
        },
{
    match <usize as std::str::FromStr>::from_str(text) {
        Ok(number) => Ok(number),
        Err(error) => Err(
            match error.kind() {
                std::num::IntErrorKind::Empty => IntegerError::Empty,
                std::num::IntErrorKind::PosOverflow => IntegerError::PosOverflow,
                _ => IntegerError::InvalidDigit,
            },
        ),
    }
}

/// Digits in front make a number no smaller.
proof fn lemma_number_value_prefix(digits: Seq<char>, count: int)
    requires
        0 <= count <= digits.len(),
    ensures
        number_value(digits.take(count)) <= number_value(digits),
    decreases digits.len(),
{
    if count < digits.len() {
        lemma_number_value_prefix(digits.drop_last(), count);
        assert(digits.drop_last().take(count) =~= digits.take(count));
    } else {
        assert(digits.take(count) =~= digits);
    }
}

/// The number that a text of digits writes, where it is a number and fits.
pub fn digits_to_u32(text: &str) -> (number: Option<u32>)
    ensures
        match number {
            Some(number) => text@.len() > 0 && all_digits(text@) && number == number_value(text@),
            None => text@.len() == 0 || !all_digits(text@) || number_value(text@) > u32::MAX,
        },
{
    let chars = chars_of(text);
    if chars.len() == 0 {
        return None;
    }
    let mut number: u64 = 0;
    let mut fits = true;
    for i in 0..chars.len()
        invariant
            chars@ == text@,
            forall|j: int| 0 <= j < i ==> is_digit(#[trigger] text@[j]),
            fits ==> number <= u32::MAX && number == number_value(text@.take(i as int)),
            !fits ==> number_value(text@) > u32::MAX,
    {
        let c = chars[i];
        if c < '0' || c > '9' {
            assert(!is_digit(text@[i as int]));
            return None;
        }
        if fits {
            number = number * 10 + (c as u64 - '0' as u64);
            proof {
                let more = text@.take(i + 1);
                assert(more.drop_last() =~= text@.take(i as int));
                assert(number == number_value(more));
                lemma_number_value_prefix(text@, i + 1);
            }
            if number > 0xffff_ffff {
                fits = false;
            }
        }
    }
    assert(text@.take(text@.len() as int) =~= text@);
    if fits {
        Some(number as u32)
    } else {
        None
    }
}

/// There is one reason why a text is not a number that fits, unless it begins
/// with a number that does not fit and holds something else behind it.
pub proof fn law_one_reason(text: Seq<char>, first: IntegerError, second: IntegerError)
    requires
        is_unsigned(text) || number_value(leading_digits(without_plus(text))) <= usize::MAX,
        first.explains(text),
        second.explains(text),
    ensures
        first == second,
{
}

/// A number in base ten is read as the number that was written.
pub proof fn law_written_numbers_are_read(number: nat)
    ensures
        is_unsigned(text::decimal(number)),
        without_plus(text::decimal(number)) == text::decimal(number),
        number_value(text::decimal(number)) == number,
    decreases number,
{
    let written = text::decimal(number);
    if number < 10 {
        assert(written.drop_last() =~= Seq::<char>::empty());
        assert(number_value(written.drop_last()) == 0);
    } else {
        law_written_numbers_are_read(number / 10);
        assert(written.drop_last() =~= text::decimal(number / 10));
        assert(written[0] == text::decimal(number / 10)[0]);
    }
    assert(all_digits(written));
}

} // verus!
