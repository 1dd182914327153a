//! Debian package versions.

use vstd::prelude::*;

use crate::debian::number;
use crate::debian::number::digits_to_u32;
use crate::debian::syntax::{find_first, find_last};
use crate::text;
use crate::text::{chars_of, string_variant_text};

verus! {

/// Why a text is not a version.
///
/// `T` is the type of text: `String` in executable code and `Seq<char>` in
/// specifications. Each variant holds the whole version.
#[derive(Debug, PartialEq, Eq)]
pub enum VersionProblem<T> {
    /// The epoch has a character that is not a digit.
    EpochNonNumeric(T),
    /// The epoch is empty or too large.
    EpochOutOfRange(T),
    /// The upstream version has a character that it may not have.
    UpstreamVersionIllegalChar(T),
    /// The Debian revision has a character that it may not have.
    DebianRevisionIllegalChar(T),
}

/// Why a text is not a version.
pub type VersionError = VersionProblem<String>;

impl View for VersionProblem<String> {
    type V = VersionProblem<Seq<char>>;

    open spec fn view(&self) -> VersionProblem<Seq<char>> {
        match *self {
            VersionProblem::EpochNonNumeric(version) => VersionProblem::EpochNonNumeric(version@),
            VersionProblem::EpochOutOfRange(version) => VersionProblem::EpochOutOfRange(version@),
            VersionProblem::UpstreamVersionIllegalChar(version) => {
                VersionProblem::UpstreamVersionIllegalChar(version@)
            },
            VersionProblem::DebianRevisionIllegalChar(version) => {
                VersionProblem::DebianRevisionIllegalChar(version@)
            },
        }
    }
}

impl VersionProblem<Seq<char>> {
    /// The problem as `Debug` writes it.
    pub open spec fn debug_form(self) -> Seq<char> {
        match self {
            VersionProblem::EpochNonNumeric(version) => text::variant_form(
                "EpochNonNumeric"@,
                text::debug_form(version),
            ),
            VersionProblem::EpochOutOfRange(version) => text::variant_form(
                "EpochOutOfRange"@,
                text::debug_form(version),
            ),
            VersionProblem::UpstreamVersionIllegalChar(version) => text::variant_form(
                "UpstreamVersionIllegalChar"@,
                text::debug_form(version),
            ),
            VersionProblem::DebianRevisionIllegalChar(version) => text::variant_form(
                "DebianRevisionIllegalChar"@,
                text::debug_form(version),
            ),
        }
    }
}

impl VersionProblem<String> {
    /// The problem as `Debug` writes it.
    pub fn debug_text(&self) -> (written: String)
        ensures
            written@ == self@.debug_form(),
    {
        match self {
            VersionProblem::EpochNonNumeric(version) => {
                string_variant_text("EpochNonNumeric", version.as_str())
            },
            VersionProblem::EpochOutOfRange(version) => {
                string_variant_text("EpochOutOfRange", version.as_str())
            },
            VersionProblem::UpstreamVersionIllegalChar(version) => {
                string_variant_text("UpstreamVersionIllegalChar", version.as_str())
            },
            VersionProblem::DebianRevisionIllegalChar(version) => {
                string_variant_text("DebianRevisionIllegalChar", version.as_str())
            },
        }
    }
}

/// A Debian package version: `[epoch:]upstream_version[-debian_revision]`.
///
/// See <https://www.debian.org/doc/debian-policy/ch-controlfields.html#version>.
#[derive(Debug, PartialEq, Eq)]
pub struct PackageVersion {
    /// The epoch.
    pub epoch: Option<u32>,
    /// The upstream version.
    pub upstream_version: String,
    /// The Debian revision.
    pub debian_revision: Option<String>,
}

/// The contents of a version: its epoch, its upstream version and its Debian
/// revision.
pub type Version = (Option<u32>, Seq<char>, Option<Seq<char>>);

impl View for PackageVersion {
    type V = Version;

    open spec fn view(&self) -> Version {
        (self.epoch, self.upstream_version@, text::optional_text(self.debian_revision))
    }
}

/// Whether a character may stand in a Debian revision.
pub open spec fn is_revision_char(c: char) -> bool {
    'a' <= c <= 'z' || 'A' <= c <= 'Z' || '0' <= c <= '9' || c == '+' || c == '.' || c == '~'
}

/// Whether a character may stand in an upstream version.
pub open spec fn is_upstream_char(c: char) -> bool {
    is_revision_char(c) || c == '-' || c == ':'
}

/// Whether a text may be a Debian revision.
pub open spec fn is_revision(text: Seq<char>) -> bool {
    forall|i: int| 0 <= i < text.len() ==> is_revision_char(#[trigger] text[i])
}

/// Whether a text may be an upstream version.
pub open spec fn is_upstream(text: Seq<char>) -> bool {
    forall|i: int| 0 <= i < text.len() ==> is_upstream_char(#[trigger] text[i])
}

/// The epoch of a version, which ends at the first colon, and the rest of it.
pub open spec fn split_epoch(version: Seq<char>) -> (Option<Seq<char>>, Seq<char>) {
    match version.index_of_first(':') {
        Some(i) => (Some(version.take(i)), version.skip(i + 1)),
        None => (None, version),
    }
}

/// The upstream version and the Debian revision, which begins after the last
/// hyphen.
pub open spec fn split_revision(rest: Seq<char>) -> (Seq<char>, Option<Seq<char>>) {
    match rest.index_of_last('-') {
        Some(i) => (rest.take(i), Some(rest.skip(i + 1))),
        None => (rest, None),
    }
}

/// The number of an epoch, or why it has none.
pub open spec fn epoch_number(epoch: Option<Seq<char>>, version: Seq<char>) -> Result<
    Option<u32>,
    VersionProblem<Seq<char>>,
> {
    match epoch {
        Some(digits) => if !number::all_digits(digits) {
            Err(VersionProblem::EpochNonNumeric(version))
        } else if digits.len() == 0 || number::number_value(digits) > u32::MAX {
            Err(VersionProblem::EpochOutOfRange(version))
        } else {
            Ok(Some(number::number_value(digits) as u32))
        },
        None => Ok(None),
    }
}

/// What a version says, or why it is none.
pub open spec fn parse_version(version: Seq<char>) -> Result<
    Version,
    VersionProblem<Seq<char>>,
> {
    let (epoch, rest) = split_epoch(version);
    let (upstream, revision) = split_revision(rest);
    match epoch_number(epoch, version) {
        Err(problem) => Err(problem),
        Ok(number) => if !is_upstream(upstream) {
            Err(VersionProblem::UpstreamVersionIllegalChar(version))
        } else if revision matches Some(text) && !is_revision(text) {
            Err(VersionProblem::DebianRevisionIllegalChar(version))
        } else {
            Ok((number, upstream, revision))
        },
    }
}

/// Whether a text holds nothing but digits.
fn only_digits(text: &str) -> (yes: bool)
    ensures
        yes == number::all_digits(text@),
{
    let chars = chars_of(text);
    for i in 0..chars.len()
        invariant
            chars@ == text@,
            forall|j: int| 0 <= j < i ==> number::is_digit(#[trigger] text@[j]),
    {
        let c = chars[i];
        if c < '0' || c > '9' {
            assert(!number::is_digit(text@[i as int]));
            return false;
        }
    }
    true
}

/// Whether a character may stand in a Debian revision.
fn revision_char(c: char) -> (yes: bool)
    ensures
        yes == is_revision_char(c),
{
    ('a' <= c && c <= 'z') || ('A' <= c && c <= 'Z') || ('0' <= c && c <= '9') || c == '+' || c
        == '.' || c == '~'
}

/// Whether a text may be a Debian revision.
fn may_be_revision(text: &str) -> (yes: bool)
    ensures
        yes == is_revision(text@),
{
    let chars = chars_of(text);
    for i in 0..chars.len()
        invariant
            chars@ == text@,
            forall|j: int| 0 <= j < i ==> is_revision_char(#[trigger] text@[j]),
    {
        if !revision_char(chars[i]) {
            assert(!is_revision_char(text@[i as int]));
            return false;
        }
    }
    true
}

/// Whether a text may be an upstream version.
fn may_be_upstream(text: &str) -> (yes: bool)
    ensures
        yes == is_upstream(text@),
{
    let chars = chars_of(text);
    for i in 0..chars.len()
        invariant
            chars@ == text@,
            forall|j: int| 0 <= j < i ==> is_upstream_char(#[trigger] text@[j]),
    {
        let c = chars[i];
        if !revision_char(c) && c != '-' && c != ':' {
            assert(!is_upstream_char(text@[i as int]));
            return false;
        }
    }
    true
}

impl PackageVersion {
    /// Construct an instance by parsing a version string.
    pub fn parse(version: &str) -> (result: Result<PackageVersion, VersionError>)
        ensures
            match result {
                Ok(parsed) => parse_version(version@) == Ok::<_, VersionProblem<Seq<char>>>(
                    parsed@,
                ),
                Err(problem) => parse_version(version@) == Err::<Version, _>(problem@),
            },
    {
        let len = version.unicode_len();
        proof {
            version@.index_of_first_ensures(':');
        }
        let (epoch, rest) = match find_first(version, ':') {
            Some(i) => {
                let digits = version.substring_char(0, i);
                let rest = version.substring_char(i + 1, len);
                assert(digits@ =~= version@.take(i as int));
                assert(rest@ =~= version@.skip(i + 1));
                (Some(digits), rest)
            },
            None => (None, version),
        };
        assert(split_epoch(version@) == (text::optional_slice(epoch), rest@));
        let rest_len = rest.unicode_len();
        proof {
            rest@.index_of_last_ensures('-');
        }
        let (upstream, revision) = match find_last(rest, '-') {
            Some(i) => {
                let upstream = rest.substring_char(0, i);
                let revision = rest.substring_char(i + 1, rest_len);
                assert(upstream@ =~= rest@.take(i as int));
                assert(revision@ =~= rest@.skip(i + 1));
                (upstream, Some(revision))
            },
            None => (rest, None),
        };
        assert(split_revision(rest@) == (upstream@, text::optional_slice(revision)));
        let epoch = match epoch {
            Some(digits) => {
                if !only_digits(digits) {
                    return Err(VersionProblem::EpochNonNumeric(version.to_owned()));
                }
                match digits_to_u32(digits) {
                    Some(number) => Some(number),
                    None => {
                        return Err(VersionProblem::EpochOutOfRange(version.to_owned()));
                    },
                }
            },
            None => None,
        };
        if !may_be_upstream(upstream) {
            return Err(VersionProblem::UpstreamVersionIllegalChar(version.to_owned()));
        }
        let debian_revision = match revision {
            Some(text) => {
                if !may_be_revision(text) {
                    return Err(VersionProblem::DebianRevisionIllegalChar(version.to_owned()));
                }
                Some(text.to_owned())
            },
            None => None,
        };
        Ok(
            PackageVersion {
                epoch,
                upstream_version: upstream.to_owned(),
                debian_revision,
            },
        )
    }
}

/// The text of a version.
pub open spec fn version_text(version: Version) -> Seq<char> {
    (match version.0 {
        Some(epoch) => text::decimal(epoch as nat) + seq![':'],
        None => Seq::empty(),
    }) + version.1 + (match version.2 {
        Some(revision) => seq!['-'] + revision,
        None => Seq::empty(),
    })
}

/// Whether a version may be written: its parts hold no other characters than
/// they may, and no part would be taken for another.
pub open spec fn may_be_written(version: Version) -> bool {
    &&& is_upstream(version.1)
    &&& version.0 is None ==> !version.1.contains(':')
    &&& version.2 is None ==> !version.1.contains('-')
    &&& version.2 matches Some(revision) ==> is_revision(revision)
}

/// A version that is written is read as the version that it was.
pub proof fn law_written_versions_are_read(version: Version)
    requires
        may_be_written(version),
    ensures
        parse_version(version_text(version)) == Ok::<_, VersionProblem<Seq<char>>>(version),
{
    let (epoch, upstream, revision) = version;
    let written = version_text(version);
    let tail = match revision {
        Some(revision) => upstream + seq!['-'] + revision,
        None => upstream,
    };
    assert(tail =~= upstream + (match revision {
        Some(revision) => seq!['-'] + revision,
        None => Seq::empty(),
    }));
    written.index_of_first_ensures(':');
    tail.index_of_last_ensures('-');
    // The epoch ends at the first colon.
    match epoch {
        Some(n) => {
            let digits = text::decimal(n as nat);
            number::law_written_numbers_are_read(n as nat);
            assert(written =~= digits + seq![':'] + tail);
            assert(written[digits.len() as int] == ':');
            assert(written.contains(':'));
            let i = written.index_of_first(':')->0;
            assert(i <= digits.len());
            if i < digits.len() {
                assert(number::is_digit(digits[i]));
            }
            assert(written.take(i) =~= digits);
            assert(written.skip(i + 1) =~= tail);
        },
        None => {
            assert(written =~= tail);
            if written.contains(':') {
                let i = written.index_of_first(':')->0;
                if i < upstream.len() {
                    assert(upstream[i] == ':');
                } else if revision is Some && i > upstream.len() {
                    assert(is_revision_char(revision->0[i - upstream.len() - 1]));
                }
            }
        },
    }
    assert(split_epoch(written).1 == tail);
    // The revision begins after the last hyphen.
    match revision {
        Some(r) => {
            assert(tail[upstream.len() as int] == '-');
            assert(tail.contains('-'));
            let i = tail.index_of_last('-')->0;
            assert(i >= upstream.len());
            if i > upstream.len() {
                assert(is_revision_char(r[i - upstream.len() - 1]));
            }
            assert(tail.take(i) =~= upstream);
            assert(tail.skip(i + 1) =~= r);
        },
        None => {},
    }
}

} // verus!
