//! Taking the values of control fields apart.

use vstd::prelude::*;

use crate::text::chars_of;

verus! {

/// Whether a character is white space in a control file.
pub open spec fn is_space(c: char) -> bool {
    c == ' ' || c == '\t' || c == '\n' || c == '\r'
}

/// Whether a character is white space in a control file.
pub fn space(c: char) -> (yes: bool)
    ensures
        yes == is_space(c),
{
    c == ' ' || c == '\t' || c == '\n' || c == '\r'
}

/// The number of spaces that a text begins with.
pub open spec fn leading_spaces(text: Seq<char>) -> int
    decreases text.len(),
{
    if text.len() == 0 || !is_space(text[0]) {
        0
    } else {
        1 + leading_spaces(text.drop_first())
    }
}

/// A text without the spaces at its beginning.
pub open spec fn trim_start(text: Seq<char>) -> Seq<char> {
    text.skip(leading_spaces(text))
}

/// A text without the spaces at its end.
pub open spec fn trim_end(text: Seq<char>) -> Seq<char>
    decreases text.len(),
{
    if text.len() == 0 || !is_space(text.last()) {
        text
    } else {
        trim_end(text.drop_last())
    }
}

/// A text without the spaces at its beginning and its end.
pub open spec fn trim(text: Seq<char>) -> Seq<char> {
    trim_end(trim_start(text))
}

/// The pieces of a text between separators.
pub open spec fn pieces(text: Seq<char>, separator: char) -> Seq<Seq<char>>
    decreases text.len(),
{
    match text.index_of_last(separator) {
        Some(i) => if 0 <= i < text.len() {
            pieces(text.take(i), separator).push(text.skip(i + 1))
        } else {
            seq![text]
        },
        None => seq![text],
    }
}

/// Where a text is known to begin with exactly this many spaces.
pub proof fn lemma_leading_spaces(text: Seq<char>, count: int)
    requires
        0 <= count <= text.len(),
        forall|i: int| 0 <= i < count ==> is_space(#[trigger] text[i]),
        count < text.len() ==> !is_space(text[count]),
    ensures
        leading_spaces(text) == count,
    decreases text.len(),
{
    if count > 0 {
        assert(is_space(text[0]));
        assert forall|i: int| 0 <= i < count - 1 implies is_space(
            #[trigger] text.drop_first()[i],
        ) by {
            assert(text.drop_first()[i] == text[i + 1]);
        }
        lemma_leading_spaces(text.drop_first(), count - 1);
    }
}

/// A trimmed text does not begin with a space, and is no longer than it was.
pub proof fn lemma_trim_start(text: Seq<char>)
    ensures
        0 <= leading_spaces(text) <= text.len(),
        trim_start(text).len() <= text.len(),
        trim_start(text).len() > 0 ==> !is_space(trim_start(text)[0]),
    decreases text.len(),
{
    if text.len() > 0 && is_space(text[0]) {
        lemma_trim_start(text.drop_first());
        assert(trim_start(text) =~= trim_start(text.drop_first()));
    }
}

/// A text without the spaces at its beginning.
pub fn trimmed_start(text: &str) -> (rest: &str)
    ensures
        rest@ == trim_start(text@),
{
    let chars = chars_of(text);
    let mut count: usize = 0;
    while count < chars.len() && space(chars[count])
        invariant
            chars@ == text@,
            count <= chars@.len(),
            forall|i: int| 0 <= i < count ==> is_space(#[trigger] text@[i]),
        decreases chars@.len() - count,
    {
        count = count + 1;
    }
    proof {
        lemma_leading_spaces(text@, count as int);
    }
    let rest = text.substring_char(count, chars.len());
    assert(rest@ =~= trim_start(text@));
    rest
}

/// A text without the spaces at its end.
pub fn trimmed_end(text: &str) -> (rest: &str)
    ensures
        rest@ == trim_end(text@),
{
    let chars = chars_of(text);
    let mut len = chars.len();
    assert(text@.take(len as int) =~= text@);
    while len > 0 && space(chars[len - 1])
        invariant
            chars@ == text@,
            len <= chars@.len(),
            trim_end(text@) == trim_end(text@.take(len as int)),
        decreases len,
    {
        assert(text@.take(len as int).drop_last() =~= text@.take(len - 1));
        len = len - 1;
    }
    let rest = text.substring_char(0, len);
    assert(rest@ =~= text@.take(len as int));
    rest
}

/// A text without the spaces at its beginning and its end.
pub fn trimmed(text: &str) -> (rest: &str)
    ensures
        rest@ == trim(text@),
{
    trimmed_end(trimmed_start(text))
}

/// The place of the first occurrence of a character.
pub fn find_first(text: &str, wanted: char) -> (place: Option<usize>)
    ensures
        match place {
            Some(i) => text@.index_of_first(wanted) == Some(i as int),
            None => text@.index_of_first(wanted) is None,
        },
{
    proof {
        text@.index_of_first_ensures(wanted);
    }
    let chars = chars_of(text);
    for i in 0..chars.len()
        invariant
            chars@ == text@,
            forall|j: int| 0 <= j < i ==> text@[j] != wanted,
    {
        if chars[i] == wanted {
            proof {
                text@.index_of_first_ensures(wanted);
                assert(text@.contains(text@[i as int]));
                let first = text@.index_of_first(wanted)->0;
                assert(text@[first] == wanted);
            }
            return Some(i);
        }
    }
    None
}

/// The place of the last occurrence of a character.
pub fn find_last(text: &str, wanted: char) -> (place: Option<usize>)
    ensures
        match place {
            Some(i) => text@.index_of_last(wanted) == Some(i as int),
            None => text@.index_of_last(wanted) is None,
        },
{
    proof {
        text@.index_of_last_ensures(wanted);
    }
    let chars = chars_of(text);
    let mut i = chars.len();
    while i > 0
        invariant
            chars@ == text@,
            i <= chars@.len(),
            forall|j: int| i <= j < text@.len() ==> text@[j] != wanted,
        decreases i,
    {
        i = i - 1;
        if chars[i] == wanted {
            proof {
                text@.index_of_last_ensures(wanted);
                assert(text@.contains(text@[i as int]));
                let last = text@.index_of_last(wanted)->0;
                assert(text@[last] == wanted);
            }
            return Some(i);
        }
    }
    None
}

/// The texts of string slices.
pub open spec fn slices(texts: Seq<&str>) -> Seq<Seq<char>> {
    texts.map_values(|text: &str| text@)
}

/// The pieces of a text between separators.
pub fn split<'a>(text: &'a str, separator: char) -> (parts: Vec<&'a str>)
    ensures
        slices(parts@) == pieces(text@, separator),
    decreases text@.len(),
{
    proof {
        text@.index_of_last_ensures(separator);
    }
    match find_last(text, separator) {
        Some(i) => {
            let before = text.substring_char(0, i);
            let len = text.unicode_len();
            let after = text.substring_char(i + 1, len);
            assert(before@ =~= text@.take(i as int));
            assert(after@ =~= text@.skip(i + 1));
            let mut parts = split(before, separator);
            let ghost first = parts@;
            parts.push(after);
            assert(slices(parts@) =~= slices(first).push(after@));
            parts
        },
        None => {
            let mut parts: Vec<&'a str> = Vec::new();
            parts.push(text);
            assert(slices(parts@) =~= seq![text@]);
            parts
        },
    }
}

/// The texts that separators join.
pub open spec fn joined(parts: Seq<Seq<char>>, separator: char) -> Seq<char>
    decreases parts.len(),
{
    if parts.len() == 0 {
        Seq::empty()
    } else if parts.len() == 1 {
        parts[0]
    } else {
        joined(parts.drop_last(), separator).push(separator) + parts.last()
    }
}

/// The pieces of a text hold no separator, there is at least one of them, and
/// separators join them to the text again.
pub proof fn law_pieces_join_to_text(text: Seq<char>, separator: char)
    ensures
        joined(pieces(text, separator), separator) == text,
        pieces(text, separator).len() > 0,
        forall|i: int|
            0 <= i < pieces(text, separator).len() ==> !(#[trigger] pieces(
                text,
                separator,
            )[i]).contains(separator),
    decreases text.len(),
{
    text.index_of_last_ensures(separator);
    match text.index_of_last(separator) {
        Some(i) => {
            law_pieces_join_to_text(text.take(i), separator);
            let first = pieces(text.take(i), separator);
            let all = pieces(text, separator);
            assert(all.drop_last() =~= first);
            assert(all.last() == text.skip(i + 1));
            assert(text =~= text.take(i).push(separator) + text.skip(i + 1));
            let tail = text.skip(i + 1);
            if tail.contains(separator) {
                let k = choose|k: int| 0 <= k < tail.len() && tail[k] == separator;
                assert(text[i + 1 + k] == separator);
            }
        },
        None => {},
    }
}

/// Separators join texts without separators to a text whose pieces they are.
pub proof fn law_joined_texts_are_pieces(parts: Seq<Seq<char>>, separator: char)
    requires
        parts.len() > 0,
        forall|i: int| 0 <= i < parts.len() ==> !(#[trigger] parts[i]).contains(separator),
    ensures
        pieces(joined(parts, separator), separator) == parts,
    decreases parts.len(),
{
    let text = joined(parts, separator);
    text.index_of_last_ensures(separator);
    if parts.len() == 1 {
        assert(parts =~= seq![parts[0]]);
        assert(text == parts[0]);
    } else {
        let first = parts.drop_last();
        let before = joined(first, separator);
        let last = parts.last();
        assert(last == parts[parts.len() - 1]);
        assert(text =~= before.push(separator) + last);
        assert(text[before.len() as int] == separator);
        assert(text.contains(separator));
        let i = text.index_of_last(separator)->0;
        assert(i >= before.len());
        if i > before.len() {
            assert(last[i - before.len() - 1] == separator);
        }
        assert(text.take(i) =~= before);
        assert(text.skip(i + 1) =~= last);
        assert forall|k: int| 0 <= k < first.len() implies !(#[trigger] first[k]).contains(
            separator,
        ) by {
            assert(first[k] == parts[k]);
        }
        law_joined_texts_are_pieces(first, separator);
        assert(first.push(last) =~= parts);
    }
}

/// The texts of string slices are those of all of them, in order.
pub proof fn law_slices_are_faithful(texts: Seq<&str>, i: int)
    requires
        0 <= i < texts.len(),
    ensures
        slices(texts).len() == texts.len(),
        slices(texts)[i] == texts[i]@,
{
}

} // verus!
