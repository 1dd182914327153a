//! Debian package dependencies.

use vstd::prelude::*;

use crate::debian::package_version;
use crate::debian::package_version::{PackageVersion, Version, VersionProblem};
use crate::debian::syntax;
use crate::debian::syntax::{find_first, space, split, trimmed, trimmed_start};
use crate::text;
use crate::text::{chars_of, string_variant_text, variant_text};

verus! {

/// Why a text is not a list of dependencies.
///
/// `T` is the type of text: `String` in executable code and `Seq<char>` in
/// specifications.
#[derive(Debug, PartialEq, Eq)]
pub enum DependencyProblem<T> {
    /// This dependency could not be parsed.
    DependencyParse(T),
    /// The version of a dependency could not be parsed.
    Version(VersionProblem<T>),
}

/// Why a text is not a list of dependencies.
pub type DependencyError = DependencyProblem<String>;

impl View for DependencyProblem<String> {
    type V = DependencyProblem<Seq<char>>;

    open spec fn view(&self) -> DependencyProblem<Seq<char>> {
        match *self {
            DependencyProblem::DependencyParse(dependency) => {
                DependencyProblem::DependencyParse(dependency@)
            },
            DependencyProblem::Version(problem) => DependencyProblem::Version(problem@),
        }
    }
}

impl DependencyProblem<Seq<char>> {
    /// The problem as `Debug` writes it.
    pub open spec fn debug_form(self) -> Seq<char> {
        match self {
            DependencyProblem::DependencyParse(dependency) => text::variant_form(
                "DependencyParse"@,
                text::debug_form(dependency),
            ),
            DependencyProblem::Version(problem) => text::variant_form(
                "Version"@,
                problem.debug_form(),
            ),
        }
    }
}

impl DependencyProblem<String> {
    /// The problem as `Debug` writes it.
    pub fn debug_text(&self) -> (written: String)
        ensures
            written@ == self@.debug_form(),
    {
        match self {
            DependencyProblem::DependencyParse(dependency) => {
                string_variant_text("DependencyParse", dependency.as_str())
            },
            DependencyProblem::Version(problem) => {
                let written = problem.debug_text();
                variant_text("Version", written.as_str())
            },
        }
    }
}

/// How a version has to relate to the one of a dependency.
#[derive(Clone, Copy, Debug, PartialEq, Eq, Structural)]
pub enum VersionRelationship {
    /// `<<`
    StrictlyEarlier,
    /// `<=`
    EarlierOrEqual,
    /// `=`
    ExactlyEqual,
    /// `>=`
    LaterOrEqual,
    /// `>>`
    StrictlyLater,
}

/// The versions that satisfy a dependency.
#[derive(Debug, PartialEq, Eq)]
pub struct VersionConstraint {
    /// How a version has to relate to `version`.
    pub relationship: VersionRelationship,
    /// The version to compare with.
    pub version: PackageVersion,
}

/// The architectures that a dependency is for.
#[derive(Debug, PartialEq, Eq)]
pub struct ArchitectureRestriction {
    /// Whether the dependency is for all architectures but those named.
    pub negated: bool,
    /// The architectures that are named.
    pub names: Vec<String>,
}

/// A dependency on one package.
#[derive(Debug, PartialEq, Eq)]
pub struct SingleDependency {
    /// The package.
    pub package: String,
    /// The versions of the package that satisfy the dependency.
    pub version_constraint: Option<VersionConstraint>,
    /// The architectures that the dependency is for.
    pub architectures: Option<ArchitectureRestriction>,
}

/// Dependencies of which any one has to be satisfied.
#[derive(Debug, PartialEq, Eq)]
pub struct DependencyVariants {
    /// The dependencies, the preferred one first.
    pub variants: Vec<SingleDependency>,
}

/// Dependencies all of which have to be satisfied.
///
/// See <https://www.debian.org/doc/debian-policy/ch-relationships.html>.
#[derive(Debug, PartialEq, Eq)]
pub struct DependencyList {
    /// The dependencies, in order.
    pub dependencies: Vec<DependencyVariants>,
}

/// A dependency on one package: the name of the package, how versions have to
/// relate to which version, and which architectures the dependency is for or,
/// where the condition holds, is not for.
pub type Dependency = (
    Seq<char>,
    Option<(VersionRelationship, Version)>,
    Option<(bool, Seq<Seq<char>>)>,
);

impl View for SingleDependency {
    type V = Dependency;

    open spec fn view(&self) -> Dependency {
        (
            self.package@,
            match self.version_constraint {
                Some(constraint) => Some((constraint.relationship, constraint.version@)),
                None => None,
            },
            match self.architectures {
                Some(restriction) => Some((restriction.negated, text::texts(restriction.names@))),
                None => None,
            },
        )
    }
}

impl View for DependencyVariants {
    type V = Seq<Dependency>;

    open spec fn view(&self) -> Seq<Dependency> {
        self.variants@.map_values(|single: SingleDependency| single@)
    }
}

impl View for DependencyList {
    type V = Seq<Seq<Dependency>>;

    open spec fn view(&self) -> Seq<Seq<Dependency>> {
        self.dependencies@.map_values(|variants: DependencyVariants| variants@)
    }
}

/// Whether a character may stand in the name of a package.
pub open spec fn is_name_char(c: char) -> bool {
    !syntax::is_space(c) && c != '(' && c != '['
}

/// The length of the name that a text begins with.
pub open spec fn name_len(text: Seq<char>) -> int
    decreases text.len(),
{
    if text.len() == 0 || !is_name_char(text[0]) {
        0
    } else {
        1 + name_len(text.drop_first())
    }
}

/// The length of the word that a text begins with.
pub open spec fn word_len(text: Seq<char>) -> int
    decreases text.len(),
{
    if text.len() == 0 || syntax::is_space(text[0]) {
        0
    } else {
        1 + word_len(text.drop_first())
    }
}

/// The relationship that a text begins with, and the number of its characters.
pub open spec fn relationship(text: Seq<char>) -> Option<(VersionRelationship, int)> {
    if text.len() >= 2 && text[0] == '<' && text[1] == '<' {
        Some((VersionRelationship::StrictlyEarlier, 2))
    } else if text.len() >= 2 && text[0] == '<' && text[1] == '=' {
        Some((VersionRelationship::EarlierOrEqual, 2))
    } else if text.len() >= 1 && text[0] == '=' {
        Some((VersionRelationship::ExactlyEqual, 1))
    } else if text.len() >= 2 && text[0] == '>' && text[1] == '=' {
        Some((VersionRelationship::LaterOrEqual, 2))
    } else if text.len() >= 2 && text[0] == '>' && text[1] == '>' {
        Some((VersionRelationship::StrictlyLater, 2))
    } else {
        None
    }
}

/// The relationship and the version between the parentheses of a constraint.
pub open spec fn relation(inside: Seq<char>) -> Option<(VersionRelationship, Seq<char>)> {
    match relationship(inside) {
        Some((relationship, len)) => {
            let version = syntax::trim_start(inside.skip(len));
            if version.len() == 0 {
                None
            } else {
                Some((relationship, version))
            }
        },
        None => None,
    }
}

/// The version constraint that a text begins with, if any, and the text behind
/// it. There is none where a constraint begins and is not well-formed.
pub open spec fn constraint(rest: Seq<char>) -> Option<
    (Option<(VersionRelationship, Seq<char>)>, Seq<char>),
> {
    if rest.len() > 0 && rest[0] == '(' {
        match rest.index_of_first(')') {
            Some(i) => match relation(syntax::trim(rest.subrange(1, i))) {
                Some(relation) => Some((Some(relation), syntax::trim_start(rest.skip(i + 1)))),
                None => None,
            },
            None => None,
        }
    } else {
        Some((None, rest))
    }
}

/// The words of a text, with white space between them.
pub open spec fn words(text: Seq<char>) -> Seq<Seq<char>>
    decreases text.len(),
    via words_decreases
{
    let rest = syntax::trim_start(text);
    if rest.len() == 0 {
        Seq::empty()
    } else {
        seq![rest.take(word_len(rest))] + words(rest.skip(word_len(rest)))
    }
}

#[via_fn]
proof fn words_decreases(text: Seq<char>) {
    syntax::lemma_trim_start(text);
    let rest = syntax::trim_start(text);
    if rest.len() > 0 {
        lemma_word_len_bounds(rest);
    }
}

/// A word is not longer than its text, and not empty where the text does not
/// begin with white space.
proof fn lemma_word_len_bounds(text: Seq<char>)
    ensures
        0 <= word_len(text) <= text.len(),
        text.len() > 0 && !syntax::is_space(text[0]) ==> word_len(text) > 0,
    decreases text.len(),
{
    if text.len() > 0 {
        lemma_word_len_bounds(text.drop_first());
    }
}

/// Whether a name is negated.
pub open spec fn is_negated(name: Seq<char>) -> bool {
    name.len() > 0 && name[0] == '!'
}

/// The restriction to named architectures. There is none where no architecture
/// is named, where only some of the names are negated, or where a negation
/// names nothing.
pub open spec fn restriction(names: Seq<Seq<char>>) -> Option<(bool, Seq<Seq<char>>)> {
    if names.len() == 0 {
        None
    } else if forall|i: int| 0 <= i < names.len() ==> !is_negated(#[trigger] names[i]) {
        Some((false, names))
    } else if forall|i: int|
        0 <= i < names.len() ==> is_negated(#[trigger] names[i]) && names[i].len() > 1 {
        Some((true, names.map_values(|name: Seq<char>| name.skip(1))))
    } else {
        None
    }
}

/// The architecture restriction that a text holds, if any. There is none where
/// the text is something else.
pub open spec fn architectures(rest: Seq<char>) -> Option<Option<(bool, Seq<Seq<char>>)>> {
    if rest.len() == 0 {
        Some(None)
    } else if rest[0] == '[' && rest.index_of_first(']') == Some(rest.len() - 1) {
        match restriction(words(rest.subrange(1, rest.len() - 1))) {
            Some(restriction) => Some(Some(restriction)),
            None => None,
        }
    } else {
        None
    }
}

/// The parts of a dependency: the name of the package, the version constraint
/// with the text of its version, and the architecture restriction.
pub open spec fn dependency_parts(text: Seq<char>) -> Option<
    (Seq<char>, Option<(VersionRelationship, Seq<char>)>, Option<(bool, Seq<Seq<char>>)>),
> {
    let len = name_len(text);
    if len == 0 {
        None
    } else {
        match constraint(syntax::trim_start(text.skip(len))) {
            Some((relation, rest)) => match architectures(rest) {
                Some(restriction) => Some((text.take(len), relation, restriction)),
                None => None,
            },
            None => None,
        }
    }
}

/// The dependency on one package that a text writes, or why there is none.
pub open spec fn parse_single(text: Seq<char>) -> Result<
    Dependency,
    DependencyProblem<Seq<char>>,
> {
    match dependency_parts(text) {
        Some((package, Some((relationship, version)), restriction)) => {
            match package_version::parse_version(version) {
                Ok(version) => Ok((package, Some((relationship, version)), restriction)),
                Err(problem) => Err(DependencyProblem::Version(problem)),
            }
        },
        Some((package, None, restriction)) => Ok((package, None, restriction)),
        None => Err(DependencyProblem::DependencyParse(text)),
    }
}

/// The dependencies that texts write, or why the first one that is none is
/// none.
pub open spec fn parse_variants(texts: Seq<Seq<char>>) -> Result<
    Seq<Dependency>,
    DependencyProblem<Seq<char>>,
>
    decreases texts.len(),
{
    if texts.len() == 0 {
        Ok(Seq::empty())
    } else {
        match parse_variants(texts.drop_last()) {
            Ok(first) => match parse_single(syntax::trim(texts.last())) {
                Ok(last) => Ok(first.push(last)),
                Err(problem) => Err(problem),
            },
            Err(problem) => Err(problem),
        }
    }
}

/// The lists of variants, with bars between them, that texts write, or why the
/// first one that is none is none.
pub open spec fn parse_all(texts: Seq<Seq<char>>) -> Result<
    Seq<Seq<Dependency>>,
    DependencyProblem<Seq<char>>,
>
    decreases texts.len(),
{
    if texts.len() == 0 {
        Ok(Seq::empty())
    } else {
        match parse_all(texts.drop_last()) {
            Ok(first) => match parse_variants(syntax::pieces(texts.last(), '|')) {
                Ok(last) => Ok(first.push(last)),
                Err(problem) => Err(problem),
            },
            Err(problem) => Err(problem),
        }
    }
}

/// The list of dependencies, with commas between them, that a text writes, or
/// why there is none.
pub open spec fn parse_list(text: Seq<char>) -> Result<
    Seq<Seq<Dependency>>,
    DependencyProblem<Seq<char>>,
> {
    parse_all(syntax::pieces(text, ','))
}

/// Where a text is known to begin with a name of exactly this length.
pub proof fn lemma_name_len(text: Seq<char>, len: int)
    requires
        0 <= len <= text.len(),
        forall|i: int| 0 <= i < len ==> is_name_char(#[trigger] text[i]),
        len < text.len() ==> !is_name_char(text[len]),
    ensures
        name_len(text) == len,
    decreases text.len(),
{
    if len > 0 {
        assert(is_name_char(text[0]));
        assert forall|i: int| 0 <= i < len - 1 implies is_name_char(
            #[trigger] text.drop_first()[i],
        ) by {
            assert(text.drop_first()[i] == text[i + 1]);
        }
        lemma_name_len(text.drop_first(), len - 1);
    }
}

/// Where a text is known to begin with a word of exactly this length.
pub proof fn lemma_word_len(text: Seq<char>, len: int)
    requires
        0 <= len <= text.len(),
        forall|i: int| 0 <= i < len ==> !syntax::is_space(#[trigger] text[i]),
        len < text.len() ==> syntax::is_space(text[len]),
    ensures
        word_len(text) == len,
    decreases text.len(),
{
    if len > 0 {
        assert(!syntax::is_space(text[0]));
        assert forall|i: int| 0 <= i < len - 1 implies !syntax::is_space(
            #[trigger] text.drop_first()[i],
        ) by {
            assert(text.drop_first()[i] == text[i + 1]);
        }
        lemma_word_len(text.drop_first(), len - 1);
    }
}

/// The length of the name that a text begins with.
fn length_of_name(text: &str) -> (len: usize)
    ensures
        len == name_len(text@),
        len <= text@.len(),
{
    let chars = chars_of(text);
    let mut len: usize = 0;
    while len < chars.len() && !space(chars[len]) && chars[len] != '(' && chars[len] != '['
        invariant
            chars@ == text@,
            len <= chars@.len(),
            forall|i: int| 0 <= i < len ==> is_name_char(#[trigger] text@[i]),
        decreases chars@.len() - len,
    {
        len = len + 1;
    }
    proof {
        lemma_name_len(text@, len as int);
    }
    len
}

/// The length of the word that a text begins with.
fn length_of_word(text: &str) -> (len: usize)
    ensures
        len == word_len(text@),
        len <= text@.len(),
{
    let chars = chars_of(text);
    let mut len: usize = 0;
    while len < chars.len() && !space(chars[len])
        invariant
            chars@ == text@,
            len <= chars@.len(),
            forall|i: int| 0 <= i < len ==> !syntax::is_space(#[trigger] text@[i]),
        decreases chars@.len() - len,
    {
        len = len + 1;
    }
    proof {
        lemma_word_len(text@, len as int);
    }
    len
}

/// The words of a text, with white space between them.
fn words_of(text: &str) -> (list: Vec<&str>)
    ensures
        syntax::slices(list@) == words(text@),
{
    let mut list: Vec<&str> = Vec::new();
    let mut rest = text;
    assert(syntax::slices(list@) + words(rest@) =~= words(text@));
    loop
        invariant
            syntax::slices(list@) + words(rest@) == words(text@),
        decreases rest@.len(),
    {
        let ghost before = list@;
        let ghost ahead = rest@;
        proof {
            syntax::lemma_trim_start(rest@);
        }
        rest = trimmed_start(rest);
        if rest.is_empty() {
            assert(words(ahead) =~= Seq::<Seq<char>>::empty());
            assert(syntax::slices(list@) =~= words(text@));
            return list;
        }
        proof {
            lemma_word_len_bounds(rest@);
        }
        let len = length_of_word(rest);
        let total = rest.unicode_len();
        let word = rest.substring_char(0, len);
        let behind = rest.substring_char(len, total);
        assert(word@ =~= rest@.take(len as int));
        assert(behind@ =~= rest@.skip(len as int));
        list.push(word);
        assert(words(ahead) == seq![word@] + words(behind@));
        assert(syntax::slices(list@) =~= syntax::slices(before).push(word@));
        assert(syntax::slices(list@) + words(behind@) =~= syntax::slices(before) + words(ahead));
        rest = behind;
    }
}

/// The relationship and the version between the parentheses of a constraint.
fn relation_of(inside: &str) -> (result: Option<(VersionRelationship, &str)>)
    ensures
        match result {
            Some((relationship, version)) => relation(inside@) == Some((relationship, version@)),
            None => relation(inside@) is None,
        },
{
    let total = inside.unicode_len();
    let first = if total >= 1 {
        inside.get_char(0)
    } else {
        return None;
    };
    let second = if total >= 2 {
        inside.get_char(1)
    } else {
        ' '
    };
    let relationship;
    let len: usize;
    if first == '<' && second == '<' {
        relationship = VersionRelationship::StrictlyEarlier;
        len = 2;
    } else if first == '<' && second == '=' {
        relationship = VersionRelationship::EarlierOrEqual;
        len = 2;
    } else if first == '=' {
        relationship = VersionRelationship::ExactlyEqual;
        len = 1;
    } else if first == '>' && second == '=' {
        relationship = VersionRelationship::LaterOrEqual;
        len = 2;
    } else if first == '>' && second == '>' {
        relationship = VersionRelationship::StrictlyLater;
        len = 2;
    } else {
        return None;
    }
    let behind = inside.substring_char(len, total);
    assert(behind@ =~= inside@.skip(len as int));
    let version = trimmed_start(behind);
    if version.is_empty() {
        None
    } else {
        Some((relationship, version))
    }
}

/// The version constraint that a text begins with, if any, and the text behind
/// it.
fn constraint_of(rest: &str) -> (result: Option<(Option<(VersionRelationship, &str)>, &str)>)
    ensures
        match result {
            Some((Some((relationship, version)), behind)) => constraint(rest@) == Some(
                (Some((relationship, version@)), behind@),
            ),
            Some((None, behind)) => constraint(rest@) == Some(
                (None::<(VersionRelationship, Seq<char>)>, behind@),
            ),
            None => constraint(rest@) is None,
        },
{
    let total = rest.unicode_len();
    if total == 0 || rest.get_char(0) != '(' {
        return Some((None, rest));
    }
    proof {
        rest@.index_of_first_ensures(')');
    }
    match find_first(rest, ')') {
        Some(i) => {
            let inside = rest.substring_char(1, i);
            let behind = rest.substring_char(i + 1, total);
            assert(inside@ =~= rest@.subrange(1, i as int));
            assert(behind@ =~= rest@.skip(i + 1));
            match relation_of(trimmed(inside)) {
                Some(relation) => Some((Some(relation), trimmed_start(behind))),
                None => None,
            }
        },
        None => None,
    }
}

/// Whether a name is negated.
fn negated(name: &str) -> (yes: bool)
    ensures
        yes == is_negated(name@),
{
    !name.is_empty() && name.get_char(0) == '!'
}

/// The restriction to named architectures.
fn restriction_of(names: &Vec<&str>) -> (result: Option<ArchitectureRestriction>)
    ensures
        match result {
            Some(found) => restriction(syntax::slices(names@)) == Some(
                (found.negated, text::texts(found.names@)),
            ),
            None => restriction(syntax::slices(names@)) is None,
        },
{
    let ghost all = syntax::slices(names@);
    if names.len() == 0 {
        return None;
    }
    let negative = negated(names[0]);
    assert(all[0] == names@[0]@);
    let mut kept: Vec<String> = Vec::new();
    for i in 0..names.len()
        invariant
            names@.len() > 0,
            all == syntax::slices(names@),
            negative == is_negated(all[0]),
            kept@.len() == i,
            forall|j: int|
                0 <= j < i ==> is_negated(#[trigger] all[j]) == negative && (negative
                    ==> all[j].len() > 1),
            forall|j: int|
                0 <= j < i ==> (#[trigger] kept@[j])@ == (if negative {
                    all[j].skip(1)
                } else {
                    all[j]
                }),
    {
        let name = names[i];
        assert(all[i as int] == name@);
        if negated(name) != negative {
            assert(is_negated(all[i as int]) != is_negated(all[0]));
            return None;
        }
        let len = name.unicode_len();
        if negative {
            if len < 2 {
                assert(all[i as int].len() <= 1);
                return None;
            }
            let bare = name.substring_char(1, len);
            assert(bare@ =~= name@.skip(1));
            kept.push(bare.to_owned());
        } else {
            kept.push(name.to_owned());
        }
    }
    proof {
        if negative {
            assert(is_negated(all[0]));
            assert(text::texts(kept@) =~= all.map_values(|name: Seq<char>| name.skip(1)));
        } else {
            assert(text::texts(kept@) =~= all);
        }
    }
    Some(ArchitectureRestriction { negated: negative, names: kept })
}

/// The architecture restriction that a text holds, if any.
fn architectures_of(rest: &str) -> (result: Option<Option<ArchitectureRestriction>>)
    ensures
        match result {
            Some(Some(found)) => architectures(rest@) == Some(
                Some((found.negated, text::texts(found.names@))),
            ),
            Some(None) => architectures(rest@) == Some(None::<(bool, Seq<Seq<char>>)>),
            None => architectures(rest@) is None,
        },
{
    let total = rest.unicode_len();
    if total == 0 {
        return Some(None);
    }
    if rest.get_char(0) != '[' {
        return None;
    }
    proof {
        rest@.index_of_first_ensures(']');
    }
    match find_first(rest, ']') {
        Some(i) => {
            if i != total - 1 {
                return None;
            }
            let inside = rest.substring_char(1, i);
            assert(inside@ =~= rest@.subrange(1, rest@.len() - 1));
            match restriction_of(&words_of(inside)) {
                Some(found) => Some(Some(found)),
                None => None,
            }
        },
        None => None,
    }
}

impl SingleDependency {
    /// Construct an instance by parsing a dependency on one package.
    pub fn parse(dependency: &str) -> (result: Result<SingleDependency, DependencyError>)
        ensures
            match result {
                Ok(single) => parse_single(dependency@) == Ok::<_, DependencyProblem<Seq<char>>>(
                    single@,
                ),
                Err(problem) => parse_single(dependency@) == Err::<Dependency, _>(problem@),
            },
    {
        let total = dependency.unicode_len();
        let len = length_of_name(dependency);
        if len == 0 {
            return Err(DependencyProblem::DependencyParse(dependency.to_owned()));
        }
        let package = dependency.substring_char(0, len);
        let behind = dependency.substring_char(len, total);
        assert(package@ =~= dependency@.take(len as int));
        assert(behind@ =~= dependency@.skip(len as int));
        let (relation, rest) = match constraint_of(trimmed_start(behind)) {
            Some(found) => found,
            None => {
                return Err(DependencyProblem::DependencyParse(dependency.to_owned()));
            },
        };
        let architectures = match architectures_of(rest) {
            Some(found) => found,
            None => {
                return Err(DependencyProblem::DependencyParse(dependency.to_owned()));
            },
        };
        let version_constraint = match relation {
            Some((relationship, version)) => match PackageVersion::parse(version) {
                Ok(version) => Some(VersionConstraint { relationship, version }),
                Err(problem) => {
                    return Err(DependencyProblem::Version(problem));
                },
            },
            None => None,
        };
        Ok(SingleDependency { package: package.to_owned(), version_constraint, architectures })
    }
}

impl DependencyVariants {
    /// Construct an instance by parsing dependencies with bars between them.
    pub fn parse(variants: &str) -> (result: Result<DependencyVariants, DependencyError>)
        ensures
            match result {
                Ok(parsed) => parse_variants(syntax::pieces(variants@, '|')) == Ok::<
                    _,
                    DependencyProblem<Seq<char>>,
                >(parsed@),
                Err(problem) => parse_variants(syntax::pieces(variants@, '|')) == Err::<
                    Seq<Dependency>,
                    _,
                >(problem@),
            },
    {
        let parts = split(variants, '|');
        let ghost all = syntax::slices(parts@);
        let mut parsed = DependencyVariants { variants: Vec::new() };
        assert(parsed@ =~= Seq::<Dependency>::empty());
        for i in 0..parts.len()
            invariant
                all == syntax::slices(parts@),
                all == syntax::pieces(variants@, '|'),
                parse_variants(all.take(i as int)) == Ok::<_, DependencyProblem<Seq<char>>>(
                    parsed@,
                ),
        {
            let ghost before = parsed@;
            assert(all.take(i + 1).drop_last() =~= all.take(i as int));
            assert(all.take(i + 1).last() == parts@[i as int]@);
            match SingleDependency::parse(trimmed(parts[i])) {
                Ok(single) => {
                    parsed.variants.push(single);
                    assert(parsed@ =~= before.push(single@));
                },
                Err(problem) => {
                    proof {
                        lemma_first_variant_problem(all, i + 1);
                    }
                    return Err(problem);
                },
            }
        }
        assert(all.take(parts@.len() as int) =~= all);
        Ok(parsed)
    }
}

/// A problem among the first texts is that of all of them.
pub proof fn lemma_first_variant_problem(texts: Seq<Seq<char>>, count: int)
    requires
        0 <= count <= texts.len(),
        parse_variants(texts.take(count)) is Err,
    ensures
        parse_variants(texts) == parse_variants(texts.take(count)),
    decreases texts.len(),
{
    if count < texts.len() {
        assert(texts.drop_last().take(count) =~= texts.take(count));
        lemma_first_variant_problem(texts.drop_last(), count);
    } else {
        assert(texts.take(count) =~= texts);
    }
}

/// A problem among the first texts is that of all of them.
pub proof fn lemma_first_problem(texts: Seq<Seq<char>>, count: int)
    requires
        0 <= count <= texts.len(),
        parse_all(texts.take(count)) is Err,
    ensures
        parse_all(texts) == parse_all(texts.take(count)),
    decreases texts.len(),
{
    if count < texts.len() {
        assert(texts.drop_last().take(count) =~= texts.take(count));
        lemma_first_problem(texts.drop_last(), count);
    } else {
        assert(texts.take(count) =~= texts);
    }
}

impl DependencyList {
    /// Construct an instance by parsing a string.
    ///
    /// The string is a list of dependencies with commas between them. Each of
    /// them is a list of variants with bars between them. Each variant is the
    /// name of a package, with a version constraint in parentheses and an
    /// architecture restriction in brackets behind it where there are any.
    pub fn parse(list: &str) -> (result: Result<DependencyList, DependencyError>)
        ensures
            match result {
                Ok(parsed) => parse_list(list@) == Ok::<_, DependencyProblem<Seq<char>>>(parsed@),
                Err(problem) => parse_list(list@) == Err::<Seq<Seq<Dependency>>, _>(problem@),
            },
    {
        let parts = split(list, ',');
        let ghost all = syntax::slices(parts@);
        let mut parsed = DependencyList { dependencies: Vec::new() };
        assert(parsed@ =~= Seq::<Seq<Dependency>>::empty());
        for i in 0..parts.len()
            invariant
                all == syntax::slices(parts@),
                all == syntax::pieces(list@, ','),
                parse_all(all.take(i as int)) == Ok::<_, DependencyProblem<Seq<char>>>(parsed@),
        {
            let ghost before = parsed@;
            assert(all.take(i + 1).drop_last() =~= all.take(i as int));
            assert(all.take(i + 1).last() == parts@[i as int]@);
            match DependencyVariants::parse(parts[i]) {
                Ok(variants) => {
                    parsed.dependencies.push(variants);
                    assert(parsed@ =~= before.push(variants@));
                },
                Err(problem) => {
                    proof {
                        lemma_first_problem(all, i + 1);
                    }
                    return Err(problem);
                },
            }
        }
        assert(all.take(parts@.len() as int) =~= all);
        Ok(parsed)
    }
}

/// Variants are parsed one by one, in order: there is one for each text, and a
/// problem exactly where a text has one.
pub proof fn law_every_variant_is_parsed(texts: Seq<Seq<char>>)
    ensures
        parse_variants(texts) matches Ok(variants) ==> variants.len() == texts.len()
            && forall|i: int|
            0 <= i < texts.len() ==> parse_single(syntax::trim(#[trigger] texts[i])) == Ok::<
                _,
                DependencyProblem<Seq<char>>,
            >(variants[i]),
        parse_variants(texts) is Err <==> exists|i: int|
            0 <= i < texts.len() && parse_single(syntax::trim(#[trigger] texts[i])) is Err,
    decreases texts.len(),
{
    if texts.len() > 0 {
        let first = texts.drop_last();
        law_every_variant_is_parsed(first);
        assert(texts.last() == texts[texts.len() - 1]);
        assert forall|i: int| 0 <= i < first.len() implies first[i] == texts[i] by {}
        if exists|i: int|
            0 <= i < first.len() && parse_single(syntax::trim(#[trigger] first[i])) is Err {
            let i = choose|i: int|
                0 <= i < first.len() && parse_single(syntax::trim(#[trigger] first[i])) is Err;
            assert(parse_single(syntax::trim(texts[i])) is Err);
        }
        if exists|i: int|
            0 <= i < texts.len() && parse_single(syntax::trim(#[trigger] texts[i])) is Err {
            let i = choose|i: int|
                0 <= i < texts.len() && parse_single(syntax::trim(#[trigger] texts[i])) is Err;
            if i < first.len() {
                assert(parse_single(syntax::trim(first[i])) is Err);
            }
        }
    }
}

/// Dependencies are parsed one by one, in order: there is one for each text, and
/// a problem exactly where a text has one.
pub proof fn law_every_dependency_is_parsed(texts: Seq<Seq<char>>)
    ensures
        parse_all(texts) matches Ok(list) ==> list.len() == texts.len() && forall|i: int|
            0 <= i < texts.len() ==> parse_variants(syntax::pieces(#[trigger] texts[i], '|'))
                == Ok::<_, DependencyProblem<Seq<char>>>(list[i]),
        parse_all(texts) is Err <==> exists|i: int|
            0 <= i < texts.len() && parse_variants(
                syntax::pieces(#[trigger] texts[i], '|'),
            ) is Err,
    decreases texts.len(),
{
    if texts.len() > 0 {
        let first = texts.drop_last();
        law_every_dependency_is_parsed(first);
        assert(texts.last() == texts[texts.len() - 1]);
        assert forall|i: int| 0 <= i < first.len() implies first[i] == texts[i] by {}
        if exists|i: int|
            0 <= i < first.len() && parse_variants(
                syntax::pieces(#[trigger] first[i], '|'),
            ) is Err {
            let i = choose|i: int|
                0 <= i < first.len() && parse_variants(
                    syntax::pieces(#[trigger] first[i], '|'),
                ) is Err;
            assert(parse_variants(syntax::pieces(texts[i], '|')) is Err);
        }
        if exists|i: int|
            0 <= i < texts.len() && parse_variants(
                syntax::pieces(#[trigger] texts[i], '|'),
            ) is Err {
            let i = choose|i: int|
                0 <= i < texts.len() && parse_variants(
                    syntax::pieces(#[trigger] texts[i], '|'),
                ) is Err;
            if i < first.len() {
                assert(parse_variants(syntax::pieces(first[i], '|')) is Err);
            }
        }
    }
}

/// The bare name of a package is a dependency on any version of it, on every
/// architecture.
pub proof fn law_name_is_a_dependency(name: Seq<char>)
    requires
        name.len() > 0,
        forall|i: int| 0 <= i < name.len() ==> is_name_char(#[trigger] name[i]),
    ensures
        parse_single(name) == Ok::<_, DependencyProblem<Seq<char>>>(
            (
                name,
                None::<(VersionRelationship, Version)>,
                None::<(bool, Seq<Seq<char>>)>,
            ),
        ),
{
    lemma_name_len(name, name.len() as int);
    let behind = name.skip(name.len() as int);
    assert(behind =~= Seq::<char>::empty());
    syntax::lemma_trim_start(behind);
    assert(syntax::trim_start(behind) =~= Seq::<char>::empty());
    assert(name.take(name.len() as int) =~= name);
}

} // verus!
