//! What holds of reading control files as a whole.

use vstd::prelude::*;

use crate::debian::binary_package_control;
use crate::debian::binary_package_control::{
    BinaryPackageControlError, BinaryPackageControlFile, ControlProblem,
};
use crate::debian::control;
use crate::debian::control::Fields;
use crate::debian::dependency;
use crate::debian::dependency::{
    Dependency, DependencyList, DependencyProblem, SingleDependency, VersionRelationship,
};
use crate::debian::number;
use crate::debian::number::IntegerError;
use crate::debian::package_version;
use crate::debian::package_version::{PackageVersion, Version, VersionProblem};
use crate::debian::syntax;
use crate::text;

verus! {

/// Whether a character may stand anywhere in a version: a letter, a digit, or
/// one of `+`, `.` and `~`.
pub open spec fn is_version_char(c: char) -> bool {
    number::is_digit(c) || 'a' <= c <= 'z' || 'A' <= c <= 'Z' || c == '+' || c == '.' || c == '~'
}

/// Whether a text is made of characters that may stand in an upstream version,
/// which may also be `-` and `:`.
pub open spec fn upstream_text(text: Seq<char>) -> bool {
    forall|i: int|
        0 <= i < text.len() ==> is_version_char(#[trigger] text[i]) || text[i] == '-' || text[i]
            == ':'
}

/// Whether a text is made of characters that may stand in a Debian revision.
pub open spec fn revision_text(text: Seq<char>) -> bool {
    forall|i: int| 0 <= i < text.len() ==> is_version_char(#[trigger] text[i])
}

/// The text of a version in three parts, of which the first and the last may be
/// missing.
pub open spec fn parts_text(
    epoch: Option<Seq<char>>,
    upstream: Seq<char>,
    revision: Option<Seq<char>>,
) -> Seq<char> {
    (match epoch {
        Some(epoch) => epoch + seq![':'],
        None => Seq::empty(),
    }) + upstream + (match revision {
        Some(revision) => seq!['-'] + revision,
        None => Seq::empty(),
    })
}

/// There are ten digits.
pub proof fn law_ten_digits(c: char)
    ensures
        number::is_digit(c) <==> c == '0' || c == '1' || c == '2' || c == '3' || c == '4' || c == '5'
            || c == '6' || c == '7' || c == '8' || c == '9',
{
}

/// The number that digits write is ten times the number before the last digit,
/// and that digit.
pub proof fn law_digits_count_by_place(digits: Seq<char>, digit: char)
    requires
        number::is_digit(digit),
    ensures
        number::number_value(Seq::empty()) == 0,
        number::number_value(digits.push(digit)) == 10 * number::number_value(digits) + (
        digit as int - '0' as int),
{
    assert(digits.push(digit).drop_last() =~= digits);
}

/// A text is an unsigned number where it holds at least one digit and nothing
/// else, except for one plus sign in front.
pub proof fn law_unsigned_numbers(digits: Seq<char>, at: int)
    ensures
        digits.len() > 0 && (forall|i: int|
            0 <= i < digits.len() ==> '0' <= #[trigger] digits[i] <= '9') ==> number::is_unsigned(
            digits,
        ) && number::without_plus(digits) == digits && number::is_unsigned(seq!['+'] + digits)
            && number::without_plus(seq!['+'] + digits) == digits,
        0 <= at < digits.len() && !('0' <= digits[at] <= '9') && !(at == 0 && digits[0] == '+')
            ==> !number::is_unsigned(digits),
        !number::is_unsigned(Seq::empty()),
        !number::is_unsigned(seq!['+']),
{
    assert((seq!['+'] + digits).skip(1) =~= digits);
    assert(seq!['+'].skip(1) =~= Seq::<char>::empty());
    if 0 <= at < digits.len() && !('0' <= digits[at] <= '9') && !(at == 0 && digits[0] == '+') {
        let rest = number::without_plus(digits);
        if digits[0] == '+' {
            assert(rest[at - 1] == digits[at]);
            assert(!number::is_digit(rest[at - 1]));
        } else {
            assert(!number::is_digit(rest[at]));
        }
    }
}

/// A version falls into an epoch before its first colon, a revision behind its
/// last hyphen, and the upstream version between them. It is one where the epoch
/// is a number that fits, and both others hold only letters, digits and the signs
/// that they may hold; otherwise the first part that is wrong decides.
pub proof fn law_version_is_read(
    epoch: Option<Seq<char>>,
    upstream: Seq<char>,
    revision: Option<Seq<char>>,
)
    requires
        epoch matches Some(epoch) ==> !epoch.contains(':'),
        epoch is None ==> !upstream.contains(':'),
        epoch is None ==> (revision matches Some(revision) ==> !revision.contains(':')),
        revision matches Some(revision) ==> !revision.contains('-'),
        revision is None ==> !upstream.contains('-'),
    ensures
        ({
            let text = parts_text(epoch, upstream, revision);
            let result = package_version::parse_version(text);
            if epoch is Some && (exists|i: int|
                0 <= i < epoch->0.len() && !number::is_digit(#[trigger] epoch->0[i])) {
                result == Err::<Version, _>(VersionProblem::EpochNonNumeric(text))
            } else if epoch is Some && (epoch->0.len() == 0 || number::number_value(epoch->0)
                > u32::MAX) {
                result == Err::<Version, _>(VersionProblem::EpochOutOfRange(text))
            } else if !upstream_text(upstream) {
                result == Err::<Version, _>(VersionProblem::UpstreamVersionIllegalChar(text))
            } else if revision is Some && !revision_text(revision->0) {
                result == Err::<Version, _>(VersionProblem::DebianRevisionIllegalChar(text))
            } else {
                result == Ok::<_, VersionProblem<Seq<char>>>(
                    (
                        match epoch {
                            Some(epoch) => Some(number::number_value(epoch) as u32),
                            None => None,
                        },
                        upstream,
                        revision,
                    ),
                )
            }
        }),
{
    let written = parts_text(epoch, upstream, revision);
    let tail = upstream + (match revision {
        Some(revision) => seq!['-'] + revision,
        None => Seq::empty(),
    });
    written.index_of_first_ensures(':');
    tail.index_of_last_ensures('-');
    match epoch {
        Some(epoch) => {
            assert(written =~= epoch + seq![':'] + tail);
            assert(written[epoch.len() as int] == ':');
            assert(written.contains(':'));
            let i = written.index_of_first(':')->0;
            if i < epoch.len() {
                assert(epoch[i] == ':');
                assert(epoch.contains(':'));
            }
            assert(written.take(i) =~= epoch);
            assert(written.skip(i + 1) =~= tail);
        },
        None => {
            assert(written =~= tail);
            if written.contains(':') {
                let i = written.index_of_first(':')->0;
                if i < upstream.len() {
                    assert(upstream[i] == ':');
                    assert(upstream.contains(':'));
                } else if revision is Some && i > upstream.len() {
                    assert(revision->0[i - upstream.len() - 1] == ':');
                    assert(revision->0.contains(':'));
                }
            }
        },
    }
    assert(package_version::split_epoch(written) == (epoch, tail));
    match revision {
        Some(r) => {
            assert(tail[upstream.len() as int] == '-');
            assert(tail.contains('-'));
            let i = tail.index_of_last('-')->0;
            assert(i >= upstream.len());
            if i > upstream.len() {
                assert(r[i - upstream.len() - 1] == '-');
                assert(r.contains('-'));
            }
            assert(tail.take(i) =~= upstream);
            assert(tail.skip(i + 1) =~= r);
        },
        None => {
            assert(tail =~= upstream);
        },
    }
    assert(package_version::split_revision(tail) == (upstream, revision));
    lemma_same_characters(upstream);
    if revision is Some {
        lemma_same_characters(revision->0);
    }
    if epoch is Some {
        let digits = epoch->0;
        if exists|i: int| 0 <= i < digits.len() && !number::is_digit(#[trigger] digits[i]) {
            let i = choose|i: int| 0 <= i < digits.len() && !number::is_digit(#[trigger] digits[i]);
            assert(!number::all_digits(digits));
        } else {
            assert(number::all_digits(digits));
        }
    }
}

/// The characters that versions are taken apart by are those that versions are
/// made of.
proof fn lemma_same_characters(text: Seq<char>)
    ensures
        package_version::is_upstream(text) == upstream_text(text),
        package_version::is_revision(text) == revision_text(text),
{
    assert forall|c: char| #[trigger]
        package_version::is_revision_char(c) == is_version_char(c) by {}
    assert forall|c: char| #[trigger]
        package_version::is_upstream_char(c) == (is_version_char(c) || c == '-' || c == ':') by {}
    if upstream_text(text) {
        assert(package_version::is_upstream(text));
    }
    if package_version::is_upstream(text) {
        assert forall|i: int| 0 <= i < text.len() implies is_version_char(#[trigger] text[i])
            || text[i] == '-' || text[i] == ':' by {
            assert(package_version::is_upstream_char(text[i]));
        }
    }
    if revision_text(text) {
        assert(package_version::is_revision(text));
    }
    if package_version::is_revision(text) {
        assert forall|i: int| 0 <= i < text.len() implies is_version_char(#[trigger] text[i]) by {
            assert(package_version::is_revision_char(text[i]));
        }
    }
}

/// Every number is a version, and so are numbers with dots between them and a
/// number as the revision.
pub proof fn law_numbers_are_versions(major: nat, minor: nat, patch: nat, revision: nat)
    ensures
        package_version::parse_version(text::decimal(major)) == Ok::<_, VersionProblem<Seq<char>>>(
            (None::<u32>, text::decimal(major), None::<Seq<char>>),
        ),
        ({
            let upstream = text::decimal(major) + seq!['.'] + text::decimal(minor) + seq!['.']
                + text::decimal(patch);
            package_version::parse_version(upstream + seq!['-'] + text::decimal(revision)) == Ok::<
                _,
                VersionProblem<Seq<char>>,
            >((None::<u32>, upstream, Some(text::decimal(revision))))
        }),
{
    let upstream = text::decimal(major) + seq!['.'] + text::decimal(minor) + seq!['.']
        + text::decimal(patch);
    lemma_decimal_digits(major);
    lemma_decimal_digits(minor);
    lemma_decimal_digits(patch);
    lemma_decimal_digits(revision);
    assert forall|i: int| 0 <= i < upstream.len() implies is_version_char(#[trigger] upstream[i])
        by {
        let a = text::decimal(major).len();
        let b = text::decimal(minor).len();
        if i < a {
            assert(upstream[i] == text::decimal(major)[i]);
        } else if a < i < a + 1 + b {
            assert(upstream[i] == text::decimal(minor)[i - a - 1]);
        } else if i > a + 1 + b {
            assert(upstream[i] == text::decimal(patch)[i - a - b - 2]);
        }
    }
    law_version_is_read(None, text::decimal(major), None);
    law_version_is_read(None, upstream, Some(text::decimal(revision)));
    assert(parts_text(None, text::decimal(major), None) =~= text::decimal(major));
    assert(parts_text(None, upstream, Some(text::decimal(revision))) =~= upstream + seq!['-']
        + text::decimal(revision));
}

/// A number is written in digits.
proof fn lemma_decimal_digits(n: nat)
    ensures
        text::decimal(n).len() > 0,
        forall|i: int|
            0 <= i < text::decimal(n).len() ==> number::is_digit(#[trigger] text::decimal(n)[i]),
        revision_text(text::decimal(n)),
        upstream_text(text::decimal(n)),
        !text::decimal(n).contains(':'),
        !text::decimal(n).contains('-'),
{
    number::law_written_numbers_are_read(n);
}

/// Four characters are white space.
pub proof fn law_white_space(c: char)
    ensures
        syntax::is_space(c) <==> c == ' ' || c == '\t' || c == '\n' || c == '\r',
{
}

/// Whether a text holds nothing but white space.
pub open spec fn blank(text: Seq<char>) -> bool {
    forall|i: int|
        0 <= i < text.len() ==> #[trigger] text[i] == ' ' || text[i] == '\t' || text[i] == '\n'
            || text[i] == '\r'
}

/// Whether a character is something else than white space.
pub open spec fn inked(c: char) -> bool {
    c != ' ' && c != '\t' && c != '\n' && c != '\r'
}

/// White space in front of a text is left out, and no more than that.
pub proof fn law_space_in_front_is_left_out(space: Seq<char>, text: Seq<char>)
    requires
        blank(space),
        text.len() == 0 || inked(text[0]),
    ensures
        syntax::trim_start(space + text) == text,
{
    let all = space + text;
    assert forall|i: int| 0 <= i < space.len() implies syntax::is_space(#[trigger] all[i]) by {
        assert(all[i] == space[i]);
    }
    if text.len() > 0 {
        assert(all[space.len() as int] == text[0]);
    }
    syntax::lemma_leading_spaces(all, space.len() as int);
    assert(all.skip(space.len() as int) =~= text);
}

/// White space around a text is left out, and no more than that.
pub proof fn law_space_around_is_left_out(before: Seq<char>, text: Seq<char>, behind: Seq<char>)
    requires
        blank(before),
        blank(behind),
        text.len() > 0 ==> inked(text[0]) && inked(text.last()),
    ensures
        syntax::trim(before + text + behind) == text,
{
    if text.len() > 0 {
        assert(before + text + behind =~= before + (text + behind));
        law_space_in_front_is_left_out(before, text + behind);
        lemma_trim_end(text, behind);
    } else {
        let all = before + text + behind;
        assert(blank(all)) by {
            assert forall|i: int| 0 <= i < all.len() implies #[trigger] all[i] == ' ' || all[i] == '\t'
                || all[i] == '\n' || all[i] == '\r' by {
                if i < before.len() {
                    assert(all[i] == before[i]);
                } else {
                    assert(all[i] == behind[i - before.len()]);
                }
            }
        }
        assert(all =~= all + Seq::<char>::empty());
        law_space_in_front_is_left_out(all, Seq::empty());
        assert(text =~= Seq::<char>::empty());
    }
}

/// White space behind a text is left out.
proof fn lemma_trim_end(text: Seq<char>, behind: Seq<char>)
    requires
        blank(behind),
        text.len() > 0 ==> inked(text.last()),
    ensures
        syntax::trim_end(text + behind) == text,
    decreases behind.len(),
{
    let all = text + behind;
    if behind.len() > 0 {
        assert(all.last() == behind[behind.len() - 1]);
        assert(all.drop_last() =~= text + behind.drop_last());
        assert(blank(behind.drop_last())) by {
            assert forall|i: int| 0 <= i < behind.len() - 1 implies #[trigger] behind.drop_last()[i]
                == ' ' || behind.drop_last()[i] == '\t' || behind.drop_last()[i] == '\n'
                || behind.drop_last()[i] == '\r' by {
                assert(behind.drop_last()[i] == behind[i]);
            }
        }
        lemma_trim_end(text, behind.drop_last());
    } else {
        assert(all =~= text);
    }
}

/// The words of a text are what stands between white space, in order.
pub proof fn law_words_are_read(space: Seq<char>, word: Seq<char>, rest: Seq<char>)
    requires
        blank(space),
        word.len() > 0,
        forall|i: int| 0 <= i < word.len() ==> inked(#[trigger] word[i]),
        rest.len() > 0 ==> !inked(rest[0]),
    ensures
        dependency::words(space) == Seq::<Seq<char>>::empty(),
        dependency::words(space + word + rest) == seq![word] + dependency::words(rest),
{
    assert(space =~= space + Seq::<char>::empty());
    law_space_in_front_is_left_out(space, Seq::empty());
    let all = word + rest;
    assert(space + word + rest =~= space + all);
    law_space_in_front_is_left_out(space, all);
    assert forall|i: int| 0 <= i < word.len() implies !syntax::is_space(#[trigger] all[i]) by {
        assert(all[i] == word[i]);
    }
    if rest.len() > 0 {
        assert(all[word.len() as int] == rest[0]);
    }
    dependency::lemma_word_len(all, word.len() as int);
    assert(all.take(word.len() as int) =~= word);
    assert(all.skip(word.len() as int) =~= rest);
}

/// The sign that writes a relationship.
pub open spec fn sign(relationship: VersionRelationship) -> Seq<char> {
    match relationship {
        VersionRelationship::StrictlyEarlier => seq!['<', '<'],
        VersionRelationship::EarlierOrEqual => seq!['<', '='],
        VersionRelationship::ExactlyEqual => seq!['='],
        VersionRelationship::LaterOrEqual => seq!['>', '='],
        VersionRelationship::StrictlyLater => seq!['>', '>'],
    }
}

/// Whether a text may be the name of a package: it is not empty, and holds
/// neither white space nor an opening parenthesis or bracket.
pub open spec fn package_name(name: Seq<char>) -> bool {
    &&& name.len() > 0
    &&& forall|i: int|
        0 <= i < name.len() ==> inked(#[trigger] name[i]) && name[i] != '(' && name[i] != '['
}

/// A text behind the name of a package is read where the name ends.
proof fn lemma_name_then(name: Seq<char>, space: Seq<char>, tail: Seq<char>)
    requires
        package_name(name),
        blank(space),
        tail.len() > 0 ==> inked(tail[0]),
        space.len() > 0 || tail.len() == 0 || tail[0] == '(' || tail[0] == '[',
    ensures
        dependency::dependency_parts(name + space + tail) == (match dependency::constraint(tail) {
            Some((relation, rest)) => match dependency::architectures(rest) {
                Some(restriction) => Some((name, relation, restriction)),
                None => None,
            },
            None => None,
        }),
{
    let text = name + space + tail;
    assert forall|i: int| 0 <= i < name.len() implies dependency::is_name_char(#[trigger] text[i])
        by {
        assert(text[i] == name[i]);
    }
    if space.len() > 0 {
        assert(text[name.len() as int] == space[0]);
    } else if tail.len() > 0 {
        assert(text[name.len() as int] == tail[0]);
    }
    dependency::lemma_name_len(text, name.len() as int);
    assert(text.take(name.len() as int) =~= name);
    assert(text.skip(name.len() as int) =~= space + tail);
    law_space_in_front_is_left_out(space, tail);
}

/// The text between the parentheses of a constraint is read up to the first
/// closing parenthesis.
proof fn lemma_parenthesis(inside: Seq<char>, behind: Seq<char>)
    requires
        !inside.contains(')'),
    ensures
        dependency::constraint(seq!['('] + inside + seq![')'] + behind) == (
        match dependency::relation(syntax::trim(inside)) {
            Some(relation) => Some((Some(relation), syntax::trim_start(behind))),
            None => None,
        }),
{
    let rest = seq!['('] + inside + seq![')'] + behind;
    let at = inside.len() + 1;
    rest.index_of_first_ensures(')');
    assert(rest[at as int] == ')');
    assert(rest.contains(')'));
    let i = rest.index_of_first(')')->0;
    if i < at {
        assert(i > 0);
        assert(inside[i - 1] == ')');
    }
    assert(i == at);
    assert(rest.subrange(1, i) =~= inside);
    assert(rest.skip(i + 1) =~= behind);
}

/// A relationship is read from its sign, and the version from what follows it.
proof fn lemma_relation(
    relationship: VersionRelationship,
    space: Seq<char>,
    version: Seq<char>,
)
    requires
        blank(space),
        version.len() > 0 ==> inked(version[0]),
    ensures
        dependency::relation(sign(relationship) + space + version) == (if version.len() == 0 {
            None
        } else {
            Some((relationship, version))
        }),
{
    let mark = sign(relationship);
    let inside = mark + space + version;
    assert(inside[0] == mark[0]);
    if mark.len() == 2 {
        assert(inside[1] == mark[1]);
    }
    assert(inside.skip(mark.len() as int) =~= space + version);
    law_space_in_front_is_left_out(space, version);
}

/// The text of a dependency with a version constraint: a name, a sign and a
/// version, with white space where there may be some.
pub open spec fn constrained(
    name: Seq<char>,
    relationship: VersionRelationship,
    version: Seq<char>,
    spaces: (Seq<char>, Seq<char>, Seq<char>, Seq<char>, Seq<char>),
    tail: Seq<char>,
) -> Seq<char> {
    name + spaces.0 + (seq!['('] + (spaces.1 + (sign(relationship) + spaces.2 + version) + spaces.3)
        + seq![')'] + (spaces.4 + tail))
}

/// Whether texts are white space.
pub open spec fn blanks(
    spaces: (Seq<char>, Seq<char>, Seq<char>, Seq<char>, Seq<char>),
) -> bool {
    blank(spaces.0) && blank(spaces.1) && blank(spaces.2) && blank(spaces.3) && blank(spaces.4)
}

/// The parts of a dependency with a version constraint.
proof fn lemma_constrained(
    name: Seq<char>,
    relationship: VersionRelationship,
    version: Seq<char>,
    spaces: (Seq<char>, Seq<char>, Seq<char>, Seq<char>, Seq<char>),
    tail: Seq<char>,
)
    requires
        package_name(name),
        blanks(spaces),
        version.len() > 0,
        inked(version[0]),
        inked(version.last()),
        !version.contains(')'),
        tail.len() > 0 ==> inked(tail[0]),
    ensures
        dependency::dependency_parts(constrained(name, relationship, version, spaces, tail)) == (
        match dependency::architectures(tail) {
            Some(restriction) => Some((name, Some((relationship, version)), restriction)),
            None => None,
        }),
{
    let core = sign(relationship) + spaces.2 + version;
    let inside = spaces.1 + core + spaces.3;
    let constraint = seq!['('] + inside + seq![')'] + (spaces.4 + tail);
    assert(core[0] == sign(relationship)[0]);
    assert(core.last() == version.last());
    law_space_around_is_left_out(spaces.1, core, spaces.3);
    if inside.contains(')') {
        let i = choose|i: int| 0 <= i < inside.len() && inside[i] == ')';
        let a = spaces.1.len();
        let b = a + sign(relationship).len();
        let c = b + spaces.2.len();
        let d = c + version.len();
        if i < a {
            assert(inside[i] == spaces.1[i]);
        } else if i < b {
            assert(inside[i] == sign(relationship)[i - a]);
        } else if i < c {
            assert(inside[i] == spaces.2[i - b]);
        } else if i < d {
            assert(inside[i] == version[i - c]);
            assert(version.contains(')'));
        } else {
            assert(inside[i] == spaces.3[i - d]);
        }
    }
    lemma_parenthesis(inside, spaces.4 + tail);
    lemma_relation(relationship, spaces.2, version);
    law_space_in_front_is_left_out(spaces.4, tail);
    assert(constraint[0] == '(');
    lemma_name_then(name, spaces.0, constraint);
}

/// A dependency with a version constraint is read as what it was written as: its
/// name, the relationship of its sign, and what its version is read as, with
/// white space wherever there may be some.
pub proof fn law_constrained_dependency_is_read(
    name: Seq<char>,
    relationship: VersionRelationship,
    version: Seq<char>,
    spaces: (Seq<char>, Seq<char>, Seq<char>, Seq<char>, Seq<char>),
)
    requires
        package_name(name),
        blanks(spaces),
        version.len() > 0,
        inked(version[0]),
        inked(version.last()),
        !version.contains(')'),
    ensures
        ({
            let text = constrained(name, relationship, version, spaces, Seq::empty());
            dependency::parse_single(text) == (match package_version::parse_version(version) {
                Ok(version) => Ok(
                    (name, Some((relationship, version)), None::<(bool, Seq<Seq<char>>)>),
                ),
                Err(problem) => Err(DependencyProblem::Version(problem)),
            })
        }),
{
    lemma_constrained(name, relationship, version, spaces, Seq::empty());
}

/// Names with spaces between them.
pub open spec fn spaced(names: Seq<Seq<char>>) -> Seq<char>
    decreases names.len(),
{
    if names.len() == 0 {
        Seq::empty()
    } else if names.len() == 1 {
        names[0]
    } else {
        names[0] + seq![' '] + spaced(names.drop_first())
    }
}

/// Whether texts are words: none of them is empty or holds white space or a
/// closing bracket.
pub open spec fn are_words(names: Seq<Seq<char>>) -> bool {
    forall|i: int| 0 <= i < names.len() ==> is_word(#[trigger] names[i])
}

/// Whether a text is not empty and holds neither white space nor a closing
/// bracket.
pub open spec fn is_word(name: Seq<char>) -> bool {
    name.len() > 0 && forall|i: int|
        0 <= i < name.len() ==> inked(#[trigger] name[i]) && name[i] != ']'
}

/// The words of names with spaces between them are the names.
proof fn lemma_spaced_words(names: Seq<Seq<char>>)
    requires
        are_words(names),
    ensures
        dependency::words(spaced(names)) == names,
        dependency::words(seq![' '] + spaced(names)) == names,
        !spaced(names).contains(']'),
    decreases names.len(),
{
    let one = seq![' '];
    let none = Seq::<char>::empty();
    let text = spaced(names);
    if names.len() == 0 {
        law_words_are_read(none, seq!['a'], none);
        law_words_are_read(one, seq!['a'], none);
        assert(one + text =~= one);
        assert(names =~= Seq::<Seq<char>>::empty());
    } else {
        let word = names[0];
        let rest = names.drop_first();
        assert(is_word(word));
        assert forall|i: int| 0 <= i < rest.len() implies is_word(#[trigger] rest[i]) by {
            assert(rest[i] == names[i + 1]);
        }
        lemma_spaced_words(rest);
        let tail = if names.len() == 1 {
            none
        } else {
            one + spaced(rest)
        };
        assert(text =~= none + word + tail);
        assert(one + text =~= one + word + tail);
        law_words_are_read(none, word, tail);
        law_words_are_read(one, word, tail);
        if names.len() == 1 {
            assert(dependency::words(tail) == Seq::<Seq<char>>::empty());
            assert(seq![word] + dependency::words(tail) =~= names);
        } else {
            assert(seq![word] + rest =~= names);
        }
        if text.contains(']') {
            let i = choose|i: int| 0 <= i < text.len() && text[i] == ']';
            if i < word.len() {
                assert(text[i] == word[i]);
            } else if i > word.len() {
                assert(spaced(rest)[i - word.len() - 1] == ']');
                assert(spaced(rest).contains(']'));
            }
        }
    }
}

/// The text between brackets is read as names.
proof fn lemma_brackets(inside: Seq<char>)
    requires
        !inside.contains(']'),
    ensures
        dependency::architectures(seq!['['] + inside + seq![']']) == (match dependency::restriction(
            dependency::words(inside),
        ) {
            Some(restriction) => Some(Some(restriction)),
            None => None,
        }),
{
    let rest = seq!['['] + inside + seq![']'];
    rest.index_of_first_ensures(']');
    assert(rest[rest.len() - 1] == ']');
    assert(rest.contains(']'));
    let i = rest.index_of_first(']')->0;
    if i < rest.len() - 1 {
        assert(inside[i - 1] == ']');
    }
    assert(rest.subrange(1, rest.len() - 1) =~= inside);
}

/// Names with an exclamation mark in front of each.
pub open spec fn marked(names: Seq<Seq<char>>) -> Seq<Seq<char>> {
    names.map_values(|name: Seq<char>| seq!['!'] + name)
}

/// The names of architectures, between brackets and with a space between each
/// two, restrict a dependency to these architectures, in order. With an
/// exclamation mark in front of each they exclude them.
proof fn lemma_restrictions(names: Seq<Seq<char>>)
    requires
        names.len() > 0,
        are_words(names),
        forall|i: int| 0 <= i < names.len() ==> (#[trigger] names[i])[0] != '!',
    ensures
        dependency::architectures(seq!['['] + spaced(names) + seq![']']) == Some(
            Some((false, names)),
        ),
        dependency::architectures(seq!['['] + spaced(marked(names)) + seq![']']) == Some(
            Some((true, names)),
        ),
{
    let not = marked(names);
    lemma_spaced_words(names);
    lemma_brackets(spaced(names));
    assert forall|i: int| 0 <= i < names.len() implies !dependency::is_negated(#[trigger] names[i])
        by {}
    assert(are_words(not)) by {
        assert forall|i: int| 0 <= i < not.len() implies is_word(#[trigger] not[i]) by {
            assert(is_word(names[i]));
            assert forall|k: int| 0 <= k < not[i].len() implies inked(#[trigger] not[i][k])
                && not[i][k] != ']' by {
                if k > 0 {
                    assert(not[i][k] == names[i][k - 1]);
                }
            }
        }
    }
    lemma_spaced_words(not);
    lemma_brackets(spaced(not));
    assert(dependency::is_negated(not[0]));
    assert forall|i: int| 0 <= i < not.len() implies dependency::is_negated(#[trigger] not[i])
        && not[i].len() > 1 by {
        assert(is_word(names[i]));
    }
    assert(not.map_values(|name: Seq<char>| name.skip(1)) =~= names) by {
        assert forall|i: int| 0 <= i < names.len() implies (#[trigger] not[i]).skip(1) == names[i]
            by {
            assert(not[i].skip(1) =~= names[i]);
        }
    }
}

/// A dependency that is written is read as what it was: the name of a package, a
/// relationship, a version with all of its parts, and the architectures that it
/// is for, or is not for.
pub proof fn law_written_dependency_is_read(
    name: Seq<char>,
    relationship: VersionRelationship,
    version: Version,
    names: Seq<Seq<char>>,
)
    requires
        package_name(name),
        upstream_text(version.1),
        version.0 is None ==> !version.1.contains(':'),
        version.2 is None ==> !version.1.contains('-'),
        version.2 matches Some(revision) ==> revision_text(revision),
        package_version::version_text(version).len() > 0,
        names.len() > 0,
        are_words(names),
        forall|i: int| 0 <= i < names.len() ==> (#[trigger] names[i])[0] != '!',
    ensures
        ({
            let plain = name + seq![' ', '('] + sign(relationship) + seq![' ']
                + package_version::version_text(version) + seq![')'];
            let relation = Some((relationship, version));
            &&& dependency::parse_single(plain) == Ok::<_, DependencyProblem<Seq<char>>>(
                (name, relation, None::<(bool, Seq<Seq<char>>)>),
            )
            &&& dependency::parse_single(plain + seq![' ', '['] + spaced(names) + seq![']']) == Ok::<
                _,
                DependencyProblem<Seq<char>>,
            >((name, relation, Some((false, names))))
            &&& dependency::parse_single(
                plain + seq![' ', '['] + spaced(marked(names)) + seq![']'],
            ) == Ok::<_, DependencyProblem<Seq<char>>>((name, relation, Some((true, names))))
        }),
{
    let written = package_version::version_text(version);
    let one = seq![' '];
    let none = Seq::<char>::empty();
    let plain = name + seq![' ', '('] + sign(relationship) + seq![' '] + written + seq![')'];
    let bracketed = seq!['['] + spaced(names) + seq![']'];
    let excluded = seq!['['] + spaced(marked(names)) + seq![']'];
    lemma_same_characters(version.1);
    if version.2 is Some {
        lemma_same_characters(version.2->0);
    }
    package_version::law_written_versions_are_read(version);
    lemma_version_text_characters(version);
    assert(inked(written[0]));
    assert(inked(written[written.len() - 1]));
    assert(constrained(name, relationship, written, (one, none, one, none, none), none) =~= plain);
    assert(constrained(name, relationship, written, (one, none, one, none, one), bracketed)
        =~= plain + seq![' ', '['] + spaced(names) + seq![']']);
    assert(constrained(name, relationship, written, (one, none, one, none, one), excluded)
        =~= plain + seq![' ', '['] + spaced(marked(names)) + seq![']']);
    lemma_restrictions(names);
    lemma_constrained(name, relationship, written, (one, none, one, none, none), none);
    lemma_constrained(name, relationship, written, (one, none, one, none, one), bracketed);
    lemma_constrained(name, relationship, written, (one, none, one, none, one), excluded);
}

/// The text of a version holds no white space and no parenthesis.
proof fn lemma_version_text_characters(version: Version)
    requires
        upstream_text(version.1),
        version.2 matches Some(revision) ==> revision_text(revision),
    ensures
        ({
            let text = package_version::version_text(version);
            &&& forall|i: int| 0 <= i < text.len() ==> inked(#[trigger] text[i])
            &&& !text.contains(')')
        }),
{
    let text = package_version::version_text(version);
    let front = match version.0 {
        Some(epoch) => text::decimal(epoch as nat) + seq![':'],
        None => Seq::empty(),
    };
    if version.0 is Some {
        lemma_decimal_digits(version.0->0 as nat);
    }
    assert forall|i: int| 0 <= i < text.len() implies inked(#[trigger] text[i]) && text[i] != ')' by {
        let a = front.len();
        let b = a + version.1.len();
        if i < a {
            assert(text[i] == front[i]);
            if i < a - 1 {
                assert(front[i] == text::decimal(version.0->0 as nat)[i]);
            }
        } else if i < b {
            assert(text[i] == version.1[i - a]);
        } else if i > b {
            assert(text[i] == version.2->0[i - b - 1]);
        }
    }
}

/// A name alone is a dependency on any version of the package; a restriction may
/// follow it without a version.
pub proof fn law_unconstrained_dependency_is_read(
    name: Seq<char>,
    space: Seq<char>,
    names: Seq<Seq<char>>,
)
    requires
        package_name(name),
        blank(space),
        names.len() > 0,
        are_words(names),
        forall|i: int| 0 <= i < names.len() ==> (#[trigger] names[i])[0] != '!',
    ensures
        ({
            let any = None::<(VersionRelationship, Version)>;
            &&& dependency::parse_single(name + space) == Ok::<_, DependencyProblem<Seq<char>>>(
                (name, any, None::<(bool, Seq<Seq<char>>)>),
            )
            &&& dependency::parse_single(
                name + space + (seq!['['] + spaced(names) + seq![']']),
            ) == Ok::<_, DependencyProblem<Seq<char>>>((name, any, Some((false, names))))
            &&& dependency::parse_single(
                name + space + (seq!['['] + spaced(marked(names)) + seq![']']),
            ) == Ok::<_, DependencyProblem<Seq<char>>>((name, any, Some((true, names))))
        }),
{
    lemma_restrictions(names);
    assert(name + space =~= name + space + Seq::<char>::empty());
    lemma_name_then(name, space, Seq::empty());
    let bracketed = seq!['['] + spaced(names) + seq![']'];
    let excluded = seq!['['] + spaced(marked(names)) + seq![']'];
    assert(bracketed[0] == '[' && excluded[0] == '[');
    lemma_name_then(name, space, bracketed);
    lemma_name_then(name, space, excluded);
}

/// A text that does not begin with a name is no dependency.
pub proof fn law_name_is_needed(text: Seq<char>)
    requires
        text.len() == 0 || !inked(text[0]) || text[0] == '(' || text[0] == '[',
    ensures
        dependency::parse_single(text) == Err::<Dependency, _>(
            DependencyProblem::DependencyParse(text),
        ),
{
}

/// A text that is refused as a whole.
pub open spec fn refused(text: Seq<char>) -> bool {
    dependency::parse_single(text) == Err::<Dependency, _>(DependencyProblem::DependencyParse(text))
}

/// Whether a text begins with the sign of a relationship.
pub open spec fn begins_with_sign(text: Seq<char>) -> bool {
    ||| text.len() >= 1 && text[0] == '='
    ||| text.len() >= 2 && text[0] == '<' && (text[1] == '<' || text[1] == '=')
    ||| text.len() >= 2 && text[0] == '>' && (text[1] == '>' || text[1] == '=')
}

/// Behind the name there is nothing but a constraint and a restriction: another
/// word, a parenthesis that is not closed, and a constraint without a sign or
/// without a version make a text no dependency.
pub proof fn law_malformed_constraints(
    name: Seq<char>,
    space: Seq<char>,
    tail: Seq<char>,
    inside: Seq<char>,
    relationship: VersionRelationship,
)
    requires
        package_name(name),
        blank(space),
    ensures
        space.len() > 0 && tail.len() > 0 && inked(tail[0]) && tail[0] != '(' && tail[0] != '['
            ==> refused(name + space + tail),
        tail.len() > 0 && tail[0] == '(' && !tail.contains(')') ==> refused(name + space + tail),
        !inside.contains(')') && inside.len() > 0 && inked(inside[0]) && inked(inside.last())
            && !begins_with_sign(inside) ==> refused(
            name + space + (seq!['('] + inside + seq![')'] + tail),
        ),
        refused(name + space + (seq!['('] + sign(relationship) + seq![')'] + tail)),
        refused(name + space + (seq!['('] + space + seq![')'] + tail)),
{
    if space.len() > 0 && tail.len() > 0 && inked(tail[0]) && tail[0] != '(' && tail[0] != '[' {
        lemma_name_then(name, space, tail);
    }
    if tail.len() > 0 && tail[0] == '(' && !tail.contains(')') {
        lemma_name_then(name, space, tail);
        tail.index_of_first_ensures(')');
    }
    let none = Seq::<char>::empty();
    if !inside.contains(')') && inside.len() > 0 && inked(inside[0]) && inked(inside.last())
        && !begins_with_sign(inside) {
        let constraint = seq!['('] + inside + seq![')'] + tail;
        assert(constraint[0] == '(');
        lemma_parenthesis(inside, tail);
        lemma_name_then(name, space, constraint);
        assert(inside =~= none + inside + none);
        law_space_around_is_left_out(none, inside, none);
    }
    let mark = sign(relationship);
    let constraint = seq!['('] + mark + seq![')'] + tail;
    assert(constraint[0] == '(');
    if mark.contains(')') {
        let i = choose|i: int| 0 <= i < mark.len() && mark[i] == ')';
    }
    lemma_parenthesis(mark, tail);
    assert(mark =~= none + mark + none);
    law_space_around_is_left_out(none, mark, none);
    assert(mark =~= mark + none + none);
    lemma_relation(relationship, none, none);
    lemma_name_then(name, space, constraint);
    let empty = seq!['('] + space + seq![')'] + tail;
    assert(empty[0] == '(');
    if space.contains(')') {
        let i = choose|i: int| 0 <= i < space.len() && space[i] == ')';
    }
    lemma_parenthesis(space, tail);
    assert(space =~= none + none + space);
    law_space_around_is_left_out(none, none, space);
    lemma_name_then(name, space, empty);
}

/// Whether a text can only be a restriction that is not well-formed: it is
/// something else, its bracket is not closed, or something follows the bracket.
pub open spec fn malformed_restriction(tail: Seq<char>, names: Seq<char>, behind: Seq<char>) -> bool {
    ||| tail.len() > 0 && inked(tail[0]) && tail[0] != '['
    ||| tail.len() > 0 && tail[0] == '[' && !tail.contains(']')
    ||| tail == seq!['['] + names + seq![']'] + behind && !names.contains(']') && behind.len() > 0
    ||| tail == seq!['['] + names + seq![']'] && blank(names)
}

/// Where a restriction would have to follow, with or without a constraint before
/// it, anything that is not a well-formed one makes a text no dependency.
pub proof fn law_malformed_restrictions(
    name: Seq<char>,
    relationship: VersionRelationship,
    version: Seq<char>,
    spaces: (Seq<char>, Seq<char>, Seq<char>, Seq<char>, Seq<char>),
    tail: Seq<char>,
    names: Seq<char>,
    behind: Seq<char>,
)
    requires
        package_name(name),
        blanks(spaces),
        version.len() > 0,
        inked(version[0]),
        inked(version.last()),
        !version.contains(')'),
        malformed_restriction(tail, names, behind),
    ensures
        refused(constrained(name, relationship, version, spaces, tail)),
        tail[0] == '[' ==> refused(name + spaces.0 + tail),
{
    tail.index_of_first_ensures(']');
    assert(dependency::architectures(tail) is None) by {
        if tail == seq!['['] + names + seq![']'] + behind && !names.contains(']') && behind.len()
            > 0 {
            let at = names.len() as int + 1;
            assert(tail[at] == ']');
            assert(tail.contains(']'));
            let i = tail.index_of_first(']')->0;
            assert(i <= at);
        } else if tail == seq!['['] + names + seq![']'] && blank(names) {
            if names.contains(']') {
                let i = choose|i: int| 0 <= i < names.len() && names[i] == ']';
            }
            lemma_brackets(names);
            law_words_are_read(names, seq!['a'], Seq::empty());
        }
    }
    lemma_constrained(name, relationship, version, spaces, tail);
    if tail[0] == '[' {
        lemma_name_then(name, spaces.0, tail);
    }
}

/// Names of which only some are negated, and a negation that names nothing,
/// restrict nothing.
pub proof fn law_negation_is_all_or_nothing(names: Seq<Seq<char>>, i: int, j: int)
    requires
        0 <= i < names.len(),
        0 <= j < names.len(),
    ensures
        names[i].len() > 0 && names[i][0] == '!' && !(names[j].len() > 0 && names[j][0] == '!')
            ==> dependency::restriction(names) is None,
        names[i] == seq!['!'] ==> dependency::restriction(names) is None,
        dependency::restriction(Seq::empty()) is None,
{
    assert(dependency::is_negated(names[i]) == (names[i].len() > 0 && names[i][0] == '!'));
    assert(dependency::is_negated(names[j]) == (names[j].len() > 0 && names[j][0] == '!'));
}

/// A list of dependencies is read variant by variant: commas separate its
/// dependencies, bars their variants, and white space around a variant does not
/// count. It is a list where every variant is a dependency.
pub proof fn law_list_is_read(texts: Seq<Seq<Seq<char>>>)
    requires
        texts.len() > 0,
        forall|i: int| 0 <= i < texts.len() ==> (#[trigger] texts[i]).len() > 0,
        forall|i: int, k: int|
            0 <= i < texts.len() && 0 <= k < texts[i].len() ==> !(#[trigger] texts[i][k]).contains(
                ',',
            ) && !texts[i][k].contains('|'),
    ensures
        ({
            let list = dependency::parse_list(
                syntax::joined(
                    texts.map_values(|variants: Seq<Seq<char>>| syntax::joined(variants, '|')),
                    ',',
                ),
            );
            &&& list is Ok <==> forall|i: int, k: int|
                0 <= i < texts.len() && 0 <= k < texts[i].len() ==> dependency::parse_single(
                    syntax::trim(#[trigger] texts[i][k]),
                ) is Ok
            &&& list matches Ok(list) ==> list.len() == texts.len() && forall|i: int|
                0 <= i < texts.len() ==> (#[trigger] list[i]).len() == texts[i].len() && forall|
                    k: int,
                |
                    0 <= k < texts[i].len() ==> dependency::parse_single(
                        syntax::trim(texts[i][k]),
                    ) == Ok::<_, DependencyProblem<Seq<char>>>(#[trigger] list[i][k])
        }),
{
    let bars = |variants: Seq<Seq<char>>| syntax::joined(variants, '|');
    let parts = texts.map_values(bars);
    assert forall|i: int| 0 <= i < parts.len() implies !(#[trigger] parts[i]).contains(',')
        && syntax::pieces(parts[i], '|') == texts[i] by {
        assert(parts[i] == syntax::joined(texts[i], '|'));
        assert forall|k: int| 0 <= k < texts[i].len() implies !(#[trigger] texts[i][k]).contains(',')
            && !texts[i][k].contains('|') by {}
        lemma_joined_without(texts[i], '|', ',');
        syntax::law_joined_texts_are_pieces(texts[i], '|');
    }
    syntax::law_joined_texts_are_pieces(parts, ',');
    dependency::law_every_dependency_is_parsed(parts);
    assert forall|i: int| 0 <= i < texts.len() implies #[trigger] dependency::parse_variants(
        syntax::pieces(parts[i], '|'),
    ) == dependency::parse_variants(texts[i]) by {}
    let list = dependency::parse_all(parts);
    assert forall|i: int| 0 <= i < texts.len() implies (dependency::parse_variants(
        #[trigger] texts[i],
    ) is Ok <==> forall|k: int|
        0 <= k < texts[i].len() ==> dependency::parse_single(
            syntax::trim(#[trigger] texts[i][k]),
        ) is Ok) by {
        dependency::law_every_variant_is_parsed(texts[i]);
    }
    if list is Ok {
        assert forall|i: int, k: int| 0 <= i < texts.len() && 0 <= k < texts[i].len() implies
            dependency::parse_single(syntax::trim(#[trigger] texts[i][k])) is Ok by {
            assert(parts[i] == syntax::joined(texts[i], '|'));
            assert(dependency::parse_variants(texts[i]) is Ok);
        }
        assert forall|i: int| 0 <= i < texts.len() implies (#[trigger] list->Ok_0[i]).len()
            == texts[i].len() && forall|k: int|
            0 <= k < texts[i].len() ==> dependency::parse_single(syntax::trim(texts[i][k])) == Ok::<
                _,
                DependencyProblem<Seq<char>>,
            >(#[trigger] list->Ok_0[i][k]) by {
            assert(parts[i] == syntax::joined(texts[i], '|'));
            dependency::law_every_variant_is_parsed(texts[i]);
        }
    } else {
        let i = choose|i: int|
            0 <= i < parts.len() && dependency::parse_variants(
                syntax::pieces(#[trigger] parts[i], '|'),
            ) is Err;
        assert(dependency::parse_variants(texts[i]) is Err);
    }
}

/// Joined texts hold a character only where a text or the separator does.
proof fn lemma_joined_without(parts: Seq<Seq<char>>, separator: char, c: char)
    requires
        separator != c,
        forall|i: int| 0 <= i < parts.len() ==> !(#[trigger] parts[i]).contains(c),
    ensures
        !syntax::joined(parts, separator).contains(c),
    decreases parts.len(),
{
    let text = syntax::joined(parts, separator);
    if parts.len() > 1 {
        let first = parts.drop_last();
        assert forall|i: int| 0 <= i < first.len() implies !(#[trigger] first[i]).contains(c) by {
            assert(first[i] == parts[i]);
        }
        lemma_joined_without(first, separator, c);
        let before = syntax::joined(first, separator);
        assert(parts.last() == parts[parts.len() - 1]);
        if text.contains(c) {
            let i = choose|i: int| 0 <= i < text.len() && text[i] == c;
            if i < before.len() {
                assert(before[i] == c);
            } else if i > before.len() {
                assert(parts.last()[i - before.len() - 1] == c);
            }
        }
    }
}

/// Where variants are wrong, the problem is that of the first one that is.
pub proof fn law_first_wrong_variant_is_reported(
    texts: Seq<Seq<char>>,
    at: int,
    problem: DependencyProblem<Seq<char>>,
)
    requires
        0 <= at < texts.len(),
        forall|i: int|
            0 <= i < at ==> dependency::parse_single(syntax::trim(#[trigger] texts[i])) is Ok,
        dependency::parse_single(syntax::trim(texts[at])) == Err::<Dependency, _>(problem),
    ensures
        dependency::parse_variants(texts) == Err::<Seq<Dependency>, _>(problem),
{
    let first = texts.take(at);
    let upto = texts.take(at + 1);
    dependency::law_every_variant_is_parsed(first);
    assert(upto.drop_last() =~= first);
    assert(upto.last() == texts[at]);
    assert(dependency::parse_variants(first) is Ok);
    assert(dependency::parse_variants(upto) == Err::<Seq<Dependency>, _>(problem));
    dependency::lemma_first_variant_problem(texts, at + 1);
}

/// Where dependencies are wrong, the problem is that of the first one that is.
pub proof fn law_first_wrong_dependency_is_reported(
    texts: Seq<Seq<char>>,
    at: int,
    problem: DependencyProblem<Seq<char>>,
)
    requires
        0 <= at < texts.len(),
        forall|i: int| 0 <= i < texts.len() ==> !(#[trigger] texts[i]).contains(','),
        forall|i: int|
            0 <= i < at ==> dependency::parse_variants(
                syntax::pieces(#[trigger] texts[i], '|'),
            ) is Ok,
        dependency::parse_variants(syntax::pieces(texts[at], '|')) == Err::<Seq<Dependency>, _>(
            problem,
        ),
    ensures
        dependency::parse_list(syntax::joined(texts, ',')) == Err::<Seq<Seq<Dependency>>, _>(
            problem,
        ),
{
    let first = texts.take(at);
    let upto = texts.take(at + 1);
    syntax::law_joined_texts_are_pieces(texts, ',');
    dependency::law_every_dependency_is_parsed(first);
    assert(upto.drop_last() =~= first);
    assert(upto.last() == texts[at]);
    assert(dependency::parse_all(first) is Ok);
    assert(dependency::parse_all(upto) == Err::<Seq<Seq<Dependency>>, _>(problem));
    dependency::lemma_first_problem(texts, at + 1);
}

/// Every field is read from the first field of its name: the text of a required
/// field, the version, the installed size and a list of dependencies.
pub proof fn law_fields_are_read_by_name(fields: Fields, i: int)
    requires
        0 <= i < fields.len(),
        forall|j: int| 0 <= j < i ==> (#[trigger] fields[j]).0 != fields[i].0,
    ensures
        ({
            let (name, value) = fields[i];
            &&& control::first_value(fields, name) == Some(value)
            &&& binary_package_control::required(fields, name) == Ok::<_, ControlProblem>(value)
            &&& name == "Version"@ ==> binary_package_control::version_field(fields) == (
            match package_version::parse_version(value) {
                Ok(version) => Ok(version),
                Err(problem) => Err(ControlProblem::Version(problem)),
            })
            &&& name == "Installed-Size"@ && number::is_unsigned(value) && number::number_value(
                number::without_plus(value),
            ) <= usize::MAX ==> binary_package_control::size_field(fields) == Some(
                Ok::<_, ControlProblem>(number::number_value(number::without_plus(value))),
            )
            &&& name == "Installed-Size"@ && !(number::is_unsigned(value) && number::number_value(
                number::without_plus(value),
            ) <= usize::MAX) ==> binary_package_control::size_field(fields) == Some(
                Err::<nat, _>(
                    ControlProblem::IntegerParse(number::usize_error(value, usize::MAX)),
                ),
            )
            &&& binary_package_control::dependency_field(fields, name) == Some(
                match dependency::parse_list(value) {
                    Ok(list) => Ok(list),
                    Err(problem) => Err(ControlProblem::Depends(problem)),
                },
            )
        }),
{
    control::law_first_field_is_first(fields, fields[i].0, i);
}

/// A field that is not there is missing where it is required, and absent
/// elsewhere.
pub proof fn law_absent_fields(fields: Fields, name: Seq<char>)
    requires
        forall|j: int| 0 <= j < fields.len() ==> (#[trigger] fields[j]).0 != name,
    ensures
        control::first_field(fields, name) is None,
        control::first_value(fields, name) is None,
        binary_package_control::required(fields, name) == Err::<Seq<char>, _>(
            ControlProblem::RequiredFieldMissing(name),
        ),
        name == "Version"@ ==> binary_package_control::version_field(fields) == Err::<Version, _>(
            ControlProblem::RequiredFieldMissing("Version"@),
        ),
        name == "Installed-Size"@ ==> binary_package_control::size_field(fields) is None,
        binary_package_control::dependency_field(fields, name) is None,
{
    control::law_field_is_found(fields, name);
}

/// Why an error explains that a text is no number that fits.
pub proof fn law_error_kinds(text: Seq<char>)
    ensures
        IntegerError::Empty.explains(text) <==> text.len() == 0,
        IntegerError::InvalidDigit.explains(text) <==> text.len() > 0 && !number::is_unsigned(text),
        number::is_unsigned(text) && number::number_value(number::without_plus(text)) <= usize::MAX
            ==> !IntegerError::PosOverflow.explains(text),
        text.len() > 0 && !number::is_digit(number::without_plus(text)[0])
            ==> !IntegerError::PosOverflow.explains(text),
        number::is_unsigned(text) && number::number_value(number::without_plus(text)) > usize::MAX
            ==> IntegerError::PosOverflow.explains(text),
{
    let rest = number::without_plus(text);
    if number::is_unsigned(text) {
        lemma_all_leading(rest);
    }
    if text.len() > 0 && !number::is_digit(rest[0]) {
        assert(number::leading_digits(rest) =~= Seq::<char>::empty());
        assert(number::number_value(Seq::<char>::empty()) == 0);
    }
}

/// Where there is nothing but digits, all of them come first.
proof fn lemma_all_leading(digits: Seq<char>)
    requires
        number::all_digits(digits),
    ensures
        number::leading_digits(digits) == digits,
    decreases digits.len(),
{
    if digits.len() > 0 {
        let rest = digits.drop_first();
        assert(number::is_digit(digits[0]));
        assert forall|i: int| 0 <= i < rest.len() implies number::is_digit(#[trigger] rest[i]) by {
            assert(rest[i] == digits[i + 1]);
        }
        lemma_all_leading(rest);
        assert(seq![digits[0]] + rest =~= digits);
    } else {
        assert(number::leading_digits(digits) =~= digits);
    }
}

/// What a problem with a control file says, with all that it holds.
pub proof fn law_control_problem_texts(
    field: Seq<char>,
    problem: DependencyProblem<Seq<char>>,
    version: VersionProblem<Seq<char>>,
)
    ensures
        ControlProblem::RequiredFieldMissing(field).text() == "required field missing: "@ + field,
        ControlProblem::IntegerParse(IntegerError::Empty).text() == "integer parsing error: "@
            + "cannot parse integer from empty string"@,
        ControlProblem::IntegerParse(IntegerError::InvalidDigit).text()
            == "integer parsing error: "@ + "invalid digit found in string"@,
        ControlProblem::IntegerParse(IntegerError::PosOverflow).text()
            == "integer parsing error: "@ + "number too large to fit in target type"@,
        ControlProblem::Depends(problem).text() == "dependency error: "@ + (match problem {
            DependencyProblem::DependencyParse(text) => "DependencyParse"@ + "("@
                + text::debug_form(text) + ")"@,
            DependencyProblem::Version(version) => "Version"@ + "("@ + version_debug(version)
                + ")"@,
        }),
        ControlProblem::Version(version).text() == "version error: "@ + version_debug(version),
{
}

/// A problem with a version as `Debug` writes it.
pub open spec fn version_debug(problem: VersionProblem<Seq<char>>) -> Seq<char> {
    match problem {
        VersionProblem::EpochNonNumeric(version) => "EpochNonNumeric"@ + "("@ + text::debug_form(
            version,
        ) + ")"@,
        VersionProblem::EpochOutOfRange(version) => "EpochOutOfRange"@ + "("@ + text::debug_form(
            version,
        ) + ")"@,
        VersionProblem::UpstreamVersionIllegalChar(version) => "UpstreamVersionIllegalChar"@ + "("@
            + text::debug_form(version) + ")"@,
        VersionProblem::DebianRevisionIllegalChar(version) => "DebianRevisionIllegalChar"@ + "("@
            + text::debug_form(version) + ")"@,
    }
}

/// A problem is seen as the problem that it is, with all that it holds.
pub proof fn law_problems_are_faithful(
    problem: BinaryPackageControlError,
    dependency: DependencyProblem<String>,
    version: VersionProblem<String>,
)
    ensures
        match problem {
            BinaryPackageControlError::RequiredFieldMissing(field) => problem@
                == ControlProblem::RequiredFieldMissing(field@),
            BinaryPackageControlError::IntegerParse(error) => problem@
                == ControlProblem::IntegerParse(error),
            BinaryPackageControlError::Depends(inner) => problem@ == ControlProblem::Depends(inner@),
            BinaryPackageControlError::Version(inner) => problem@ == ControlProblem::Version(inner@),
        },
        match dependency {
            DependencyProblem::DependencyParse(text) => dependency@
                == DependencyProblem::DependencyParse(text@),
            DependencyProblem::Version(inner) => dependency@ == DependencyProblem::Version(inner@),
        },
        match version {
            VersionProblem::EpochNonNumeric(text) => version@ == VersionProblem::EpochNonNumeric(
                text@,
            ),
            VersionProblem::EpochOutOfRange(text) => version@ == VersionProblem::EpochOutOfRange(
                text@,
            ),
            VersionProblem::UpstreamVersionIllegalChar(text) => version@
                == VersionProblem::UpstreamVersionIllegalChar(text@),
            VersionProblem::DebianRevisionIllegalChar(text) => version@
                == VersionProblem::DebianRevisionIllegalChar(text@),
        },
{
}

/// A version and a dependency are seen as what they are, with all their parts.
pub proof fn law_values_are_faithful(version: PackageVersion, single: SingleDependency)
    ensures
        version@.0 == version.epoch,
        version@.1 == version.upstream_version@,
        version@.2 is Some <==> version.debian_revision is Some,
        version.debian_revision matches Some(revision) ==> version@.2 == Some(revision@),
        single@.0 == single.package@,
        single@.1 is Some <==> single.version_constraint is Some,
        single.version_constraint matches Some(constraint) ==> single@.1 == Some(
            (constraint.relationship, constraint.version@),
        ),
        single@.2 is Some <==> single.architectures is Some,
        match (single.architectures, single@.2) {
            (Some(restriction), Some((negated, names))) => {
                &&& negated == restriction.negated
                &&& names.len() == restriction.names@.len()
                &&& forall|i: int|
                    0 <= i < names.len() ==> #[trigger] names[i] == restriction.names@[i]@
            },
            _ => true,
        },
{
}

/// A list of dependencies is seen as all its dependencies with all their
/// variants, in order.
pub proof fn law_lists_are_faithful(list: DependencyList, i: int, k: int)
    requires
        0 <= i < list.dependencies@.len(),
        0 <= k < list.dependencies@[i].variants@.len(),
    ensures
        list@.len() == list.dependencies@.len(),
        list@[i].len() == list.dependencies@[i].variants@.len(),
        list@[i] == list.dependencies@[i]@,
        list@[i][k] == list.dependencies@[i].variants@[k]@,
{
}

/// What is read of a field is what the result holds.
pub proof fn law_results_are_faithful(
    value: binary_package_control::Result<&str>,
    version: binary_package_control::Result<PackageVersion>,
    size: Option<binary_package_control::Result<usize>>,
    list: Option<binary_package_control::Result<DependencyList>>,
)
    ensures
        match value {
            Ok(text) => binary_package_control::text_result(value) == Ok::<_, ControlProblem>(text@),
            Err(problem) => binary_package_control::text_result(value) == Err::<Seq<char>, _>(
                problem@,
            ),
        },
        match version {
            Ok(parsed) => binary_package_control::version_result(version) == Ok::<_, ControlProblem>(
                parsed@,
            ),
            Err(problem) => binary_package_control::version_result(version) == Err::<Version, _>(
                problem@,
            ),
        },
        match size {
            Some(Ok(number)) => binary_package_control::size_result(size) == Some(
                Ok::<_, ControlProblem>(number as nat),
            ),
            Some(Err(problem)) => binary_package_control::size_result(size) == Some(
                Err::<nat, _>(problem@),
            ),
            None => binary_package_control::size_result(size) is None,
        },
        match list {
            Some(Ok(parsed)) => binary_package_control::dependency_result(list) == Some(
                Ok::<_, ControlProblem>(parsed@),
            ),
            Some(Err(problem)) => binary_package_control::dependency_result(list) == Some(
                Err::<Seq<Seq<Dependency>>, _>(problem@),
            ),
            None => binary_package_control::dependency_result(list) is None,
        },
{
}

/// The fields of a file are those of its paragraph.
pub proof fn law_file_has_the_fields_of_its_paragraph(file: &BinaryPackageControlFile)
    ensures
        file@ == file.paragraph()@,
{
}

} // verus!
