//! Strings, seen as sequences of characters.

use vstd::prelude::*;

verus! {

/// The character that writes the digit `d` in base ten.
pub open spec fn digit_char(d: nat) -> char {
    (d % 10 + '0' as nat) as char
}

/// The number `n` in base ten, without leading zeros.
pub open spec fn decimal(n: nat) -> Seq<char>
    decreases n,
{
    if n < 10 {
        seq![digit_char(n)]
    } else {
        decimal(n / 10).push(digit_char(n % 10))
    }
}

/// The integer `n` in base ten, with a leading minus sign where it is negative.
pub open spec fn signed_decimal(n: int) -> Seq<char> {
    if n < 0 {
        seq!['-'] + decimal((-n) as nat)
    } else {
        decimal(n as nat)
    }
}

/// The texts of strings.
pub open spec fn texts(strings: Seq<String>) -> Seq<Seq<char>> {
    strings.map_values(|string: String| string@)
}

/// The text of an optional string slice.
pub open spec fn optional_slice(value: Option<&str>) -> Option<Seq<char>> {
    match value {
        Some(text) => Some(text@),
        None => None,
    }
}

/// The text of an optional string.
pub open spec fn optional_text(value: Option<String>) -> Option<Seq<char>> {
    match value {
        Some(text) => Some(text@),
        None => None,
    }
}

/// The characters of a string, one by one.
pub fn chars_of(s: &str) -> (chars: Vec<char>)
    ensures
        chars@ == s@,
{
    let mut chars: Vec<char> = Vec::new();
    for c in it: s.chars()
        invariant
            chars@ == s@.take(it.index()),
            it.seq() == s@,
    {
        assert(s@.take(it.index() + 1) =~= s@.take(it.index()).push(s@[it.index()]));
        chars.push(c);
    }
    assert(s@.take(s@.len() as int) =~= s@);
    chars
}

/// Whether two strings hold the same characters.
pub fn same_text(a: &str, b: &str) -> (same: bool)
    ensures
        same == (a@ == b@),
{
    let left = chars_of(a);
    let right = chars_of(b);
    if left.len() != right.len() {
        return false;
    }
    for i in 0..left.len()
        invariant
            left@ == a@,
            right@ == b@,
            left@.len() == right@.len(),
            forall|j: int| 0 <= j < i ==> a@[j] == b@[j],
    {
        if left[i] != right[i] {
            assert(a@[i as int] != b@[i as int]);
            return false;
        }
    }
    assert(a@ =~= b@);
    true
}

/// The digit `d` as text.
fn digit_text(d: u32) -> (text: &'static str)
    requires
        d < 10,
    ensures
        text@ == seq![digit_char(d as nat)],
{
    proof {
        reveal_strlit("0");
        reveal_strlit("1");
        reveal_strlit("2");
        reveal_strlit("3");
        reveal_strlit("4");
        reveal_strlit("5");
        reveal_strlit("6");
        reveal_strlit("7");
        reveal_strlit("8");
        reveal_strlit("9");
    }
    match d {
        0 => "0",
        1 => "1",
        2 => "2",
        3 => "3",
        4 => "4",
        5 => "5",
        6 => "6",
        7 => "7",
        8 => "8",
        _ => "9",
    }
}

/// A number in base ten.
pub fn u32_text(n: u32) -> (text: String)
    ensures
        text@ == decimal(n as nat),
    decreases n,
{
    if n < 10 {
        digit_text(n).to_owned()
    } else {
        let mut text = u32_text(n / 10);
        text.append(digit_text(n % 10));
        text
    }
}

/// A signed number in base ten.
pub fn i32_text(n: i32) -> (text: String)
    ensures
        text@ == signed_decimal(n as int),
{
    if n < 0 {
        proof {
            reveal_strlit("-");
        }
        let mut text = "-".to_owned();
        let magnitude: u32 = (-(n as i64)) as u32;
        text.append(u32_text(magnitude).as_str());
        text
    } else {
        u32_text(n as u32)
    }
}

/// A string as std's `Debug` writes it: in double quotes, with escapes for the
/// characters that need them.
pub uninterp spec fn debug_form(text: Seq<char>) -> Seq<char>;

/// Calls the `Debug` of `str` through `format!`. What it writes depends on the
/// string alone. Which characters it escapes is not said.
#[verifier::external_body]
fn debug_text(text: &str) -> (written: String)
    ensures
        written@ == debug_form(text@),
{
    format!("{:?}", text)
}

/// A variant of an enumeration that holds one value, as `Debug` writes it.
pub open spec fn variant_form(name: Seq<char>, value: Seq<char>) -> Seq<char> {
    name + "("@ + value + ")"@
}

/// A variant of an enumeration that holds one value, as `Debug` writes it, where
/// the value is already written.
pub(crate) fn variant_text(name: &str, value: &str) -> (written: String)
    ensures
        written@ == variant_form(name@, value@),
{
    let mut written = name.to_owned();
    written.append("(");
    written.append(value);
    written.append(")");
    written
}

/// A variant of an enumeration that holds a string, as `Debug` writes it.
pub(crate) fn string_variant_text(name: &str, value: &str) -> (written: String)
    ensures
        written@ == variant_form(name@, debug_form(value@)),
{
    let value = debug_text(value);
    variant_text(name, value.as_str())
}

/// Whether a string holds a character.
pub fn has_char(s: &str, wanted: char) -> (found: bool)
    ensures
        found == s@.contains(wanted),
{
    let chars = chars_of(s);
    for i in 0..chars.len()
        invariant
            chars@ == s@,
            forall|j: int| 0 <= j < i ==> s@[j] != wanted,
    {
        if chars[i] == wanted {
            assert(s@[i as int] == wanted);
            return true;
        }
    }
    false
}

/// A number below ten is written as its digit, and any other as the number
/// without its last digit with that digit behind it.
pub proof fn law_decimal_digits(n: nat)
    ensures
        decimal(0) == seq!['0'],
        decimal(1) == seq!['1'],
        decimal(2) == seq!['2'],
        decimal(3) == seq!['3'],
        decimal(4) == seq!['4'],
        decimal(5) == seq!['5'],
        decimal(6) == seq!['6'],
        decimal(7) == seq!['7'],
        decimal(8) == seq!['8'],
        decimal(9) == seq!['9'],
        n >= 10 ==> decimal(n) == decimal(n / 10) + decimal(n % 10),
        n > 0 ==> decimal(n)[0] != '0',
    decreases n,
{
    if n >= 10 {
        law_decimal_digits(n / 10);
        assert(decimal(n) =~= decimal(n / 10) + decimal(n % 10));
    }
}

/// A negative number is written as its magnitude with a minus sign in front, and
/// any other without a sign.
pub proof fn law_signed_decimal(n: nat)
    ensures
        signed_decimal(n as int) == decimal(n),
        n > 0 ==> signed_decimal(-(n as int)) == seq!['-'] + decimal(n),
{
}

/// The texts of strings are those of all of them, in order.
pub proof fn law_texts_are_faithful(strings: Seq<String>, i: int)
    requires
        0 <= i < strings.len(),
    ensures
        texts(strings).len() == strings.len(),
        texts(strings)[i] == strings[i]@,
{
}

/// An optional text is there where there is a string, and is its text.
pub proof fn law_optional_texts(slice: Option<&str>, string: Option<String>)
    ensures
        optional_slice(slice) is Some <==> slice is Some,
        slice is Some ==> optional_slice(slice)->0 == slice->0@,
        optional_text(string) is Some <==> string is Some,
        string is Some ==> optional_text(string)->0 == string->0@,
{
}

} // verus!
