//! The versions of installed components.

use vstd::prelude::*;

verus! {

/// How one version compares to another.
#[derive(Clone, Copy, Debug, PartialEq, Eq, Structural)]
pub enum VersionOrder {
    /// The first version is older.
    Older,
    /// The versions are the same.
    Same,
    /// The first version is newer.
    Newer,
}

/// The lexicographic order of two keys.
pub open spec fn key_order(a: Seq<int>, b: Seq<int>) -> VersionOrder
    decreases a.len(),
{
    if a.len() == 0 && b.len() == 0 {
        VersionOrder::Same
    } else if a.len() == 0 {
        VersionOrder::Older
    } else if b.len() == 0 {
        VersionOrder::Newer
    } else if a[0] < b[0] {
        VersionOrder::Older
    } else if a[0] > b[0] {
        VersionOrder::Newer
    } else {
        key_order(a.drop_first(), b.drop_first())
    }
}

/// Two keys are the same in the order only where they are equal.
pub proof fn lemma_key_order_same(a: Seq<int>, b: Seq<int>)
    ensures
        key_order(a, b) == VersionOrder::Same <==> a == b,
    decreases a.len(),
{
    if a.len() == 0 && b.len() == 0 {
        assert(a =~= b);
    } else if a.len() > 0 && b.len() > 0 {
        lemma_key_order_same(a.drop_first(), b.drop_first());
        assert(a =~= seq![a[0]] + a.drop_first());
        assert(b =~= seq![b[0]] + b.drop_first());
    }
}

/// One key is newer than another where the other is older.
pub proof fn lemma_key_order_swap(a: Seq<int>, b: Seq<int>)
    ensures
        key_order(a, b) == VersionOrder::Newer <==> key_order(b, a) == VersionOrder::Older,
    decreases a.len(),
{
    if a.len() > 0 && b.len() > 0 {
        lemma_key_order_swap(a.drop_first(), b.drop_first());
    }
}

/// The order of keys is transitive.
pub proof fn lemma_key_order_transitive(a: Seq<int>, b: Seq<int>, c: Seq<int>)
    requires
        key_order(a, b) != VersionOrder::Newer,
        key_order(b, c) != VersionOrder::Newer,
    ensures
        key_order(a, c) != VersionOrder::Newer,
    decreases a.len(),
{
    if a.len() > 0 && b.len() > 0 && c.len() > 0 && a[0] == b[0] && b[0] == c[0] {
        lemma_key_order_transitive(a.drop_first(), b.drop_first(), c.drop_first());
    }
}

/// Three numbers with dots between them.
pub open spec fn dotted(major: u64, minor: u64, patch: u64) -> Seq<char> {
    crate::text::decimal(major as nat) + seq!['.'] + crate::text::decimal(minor as nat) + seq!['.']
        + crate::text::decimal(patch as nat)
}

/// The text of a version: its three numbers, its pre-release identifier and its
/// build metadata.
pub open spec fn version_text(fields: (u64, u64, u64, Seq<char>, Seq<char>)) -> Seq<char> {
    dotted(fields.0, fields.1, fields.2) + (if fields.3.len() == 0 {
        Seq::empty()
    } else {
        seq!['-'] + fields.3
    }) + (if fields.4.len() == 0 {
        Seq::empty()
    } else {
        seq!['+'] + fields.4
    })
}

/// The numbers of a version, before what orders versions with the same numbers.
pub open spec fn numbers_key(major: u64, minor: u64, patch: u64) -> Seq<int> {
    seq![major as int, minor as int, patch as int]
}

/// What `semver::Version::parse` makes of a text: the major, minor and patch
/// numbers, the pre-release identifier and the build metadata, or what its
/// error says.
pub uninterp spec fn semver_parse(text: Seq<char>) -> Result<
    (u64, u64, u64, Seq<char>, Seq<char>),
    Seq<char>,
>;

/// The place that `semver::Version::cmp` gives a version among those with the
/// same three numbers, by its pre-release identifier and its build metadata.
pub uninterp spec fn semver_suffix_key(pre: Seq<char>, build: Seq<char>) -> Seq<int>;

/// A version of an installed component.
#[derive(Debug)]
pub struct InstalledVersion {
    major: u64,
    minor: u64,
    patch: u64,
    pre: String,
    build: String,
}

impl InstalledVersion {
    /// The numbers, the pre-release identifier and the build metadata.
    pub closed spec fn fields(&self) -> (u64, u64, u64, Seq<char>, Seq<char>) {
        (self.major, self.minor, self.patch, self.pre@, self.build@)
    }

    /// The place of the version among all versions: its numbers count first.
    pub open spec fn key(&self) -> Seq<int> {
        version_key(self.fields())
    }

    /// A version is what its text parses to.
    #[verifier::type_invariant]
    spec fn parsed(&self) -> bool {
        semver_parse(version_text(self.fields()))
            == Ok::<_, Seq<char>>(self.fields())
    }

    /// Parses a version.
    ///
    /// A text of three numbers without leading zeros is a version with these
    /// numbers and nothing else.
    pub fn parse(text: &str) -> (result: Result<InstalledVersion, String>)
        ensures
            match result {
                Ok(version) => semver_parse(text@) == Ok::<_, Seq<char>>(version.fields()) && text@
                    == version_text(version.fields()),
                Err(reason) => semver_parse(text@)
                    == Err::<(u64, u64, u64, Seq<char>, Seq<char>), _>(reason@),
            },
            forall|major: u64, minor: u64, patch: u64|
                text@ == #[trigger] dotted(major, minor, patch) ==> result is Ok
                    && result->Ok_0.fields() == (
                    major,
                    minor,
                    patch,
                    Seq::<char>::empty(),
                    Seq::<char>::empty(),
                ),
    {
        let (major, minor, patch, pre, build) = match parse_semver(text) {
            Ok(fields) => fields,
            Err(reason) => {
                return Err(reason);
            },
        };
        Ok(InstalledVersion { major, minor, patch, pre, build })
    }

    /// How this version compares to another.
    pub fn compare(&self, other: &InstalledVersion) -> (order: VersionOrder)
        ensures
            order == key_order(self.key(), other.key()),
    {
        proof {
            use_type_invariant(self);
            use_type_invariant(other);
        }
        order_of_versions(self, other)
    }
}

/// The place of a version with these fields among all versions.
pub open spec fn version_key(fields: (u64, u64, u64, Seq<char>, Seq<char>)) -> Seq<int> {
    numbers_key(fields.0, fields.1, fields.2) + semver_suffix_key(fields.3, fields.4)
}

/// Calls `semver::Version::parse` and takes the result apart: the fields of the
/// version, or what the error's `Display` writes.
///
/// The parser takes the text apart without a rest, and accepts no number with a
/// leading zero, so that the text is that of the fields. Three numbers without
/// leading zeros that fit in 64 bits, with dots between them, are accepted.
/// Which other texts are accepted, and what an error says, goes by the name
/// `semver_parse`.
#[verifier::external_body]
fn parse_semver(text: &str) -> (result: Result<(u64, u64, u64, String, String), String>)
    ensures
        match result {
            Ok((major, minor, patch, pre, build)) => semver_parse(text@) == Ok::<_, Seq<char>>(
                (major, minor, patch, pre@, build@),
            ) && text@ == version_text((major, minor, patch, pre@, build@)),
            Err(reason) => semver_parse(text@)
                == Err::<(u64, u64, u64, Seq<char>, Seq<char>), _>(reason@),
        },
        forall|major: u64, minor: u64, patch: u64|
            text@ == #[trigger] dotted(major, minor, patch) ==> result is Ok && result->Ok_0.0
                == major && result->Ok_0.1 == minor && result->Ok_0.2 == patch
                && result->Ok_0.3@.len() == 0 && result->Ok_0.4@.len() == 0,
{
    match semver::Version::parse(text) {
        Ok(version) => Ok((
            version.major,
            version.minor,
            version.patch,
            version.pre.as_str().to_string(),
            version.build.as_str().to_string(),
        )),
        Err(error) => Err(error.to_string()),
    }
}

/// Calls `semver::Version::cmp` on two versions with these fields.
///
/// That is a total order which looks at the major, minor and patch numbers in
/// turn, and only where they are all equal at the pre-release identifier and
/// the build metadata. The place of these two in the order goes by the name
/// `semver_suffix_key`: the order is the lexicographic one of the numbers with
/// that key behind them. (Any total order of texts is that of such a key.) The
/// pre-release identifier and the build metadata have
/// to be such that `semver` accepts them, as those of a parsed version are.
#[verifier::external_body]
fn order_of_versions(a: &InstalledVersion, b: &InstalledVersion) -> (order: VersionOrder)
    requires
        semver_parse(version_text(a.fields())) == Ok::<_, Seq<char>>(a.fields()),
        semver_parse(version_text(b.fields())) == Ok::<_, Seq<char>>(b.fields()),
    ensures
        order == key_order(
            numbers_key(a.fields().0, a.fields().1, a.fields().2) + semver_suffix_key(
                a.fields().3,
                a.fields().4,
            ),
            numbers_key(b.fields().0, b.fields().1, b.fields().2) + semver_suffix_key(
                b.fields().3,
                b.fields().4,
            ),
        ),
{
    let version = |v: &InstalledVersion| semver::Version {
        major: v.major,
        minor: v.minor,
        patch: v.patch,
        pre: semver::Prerelease::new(v.pre.as_str()).unwrap(),
        build: semver::BuildMetadata::new(v.build.as_str()).unwrap(),
    };
    match version(a).cmp(&version(b)) {
        std::cmp::Ordering::Less => VersionOrder::Older,
        std::cmp::Ordering::Equal => VersionOrder::Same,
        std::cmp::Ordering::Greater => VersionOrder::Newer,
    }
}

/// A version with greater numbers is newer, whatever its pre-release identifier
/// and build metadata say.
pub proof fn law_numbers_count_first(
    a: (u64, u64, u64, Seq<char>, Seq<char>),
    b: (u64, u64, u64, Seq<char>, Seq<char>),
)
    requires
        a.0 > b.0 || (a.0 == b.0 && (a.1 > b.1 || (a.1 == b.1 && a.2 > b.2))),
    ensures
        key_order(version_key(a), version_key(b)) == VersionOrder::Newer,
{
    let left = version_key(a);
    let right = version_key(b);
    assert(left[0] == a.0 && right[0] == b.0);
    if a.0 == b.0 {
        assert(left.drop_first()[0] == a.1 && right.drop_first()[0] == b.1);
        if a.1 == b.1 {
            assert(left.drop_first().drop_first()[0] == a.2);
            assert(right.drop_first().drop_first()[0] == b.2);
            reveal_with_fuel(key_order, 3);
        } else {
            reveal_with_fuel(key_order, 2);
        }
    }
}

/// Whether no version is newer than the one at `i`.
pub open spec fn is_newest(versions: Seq<InstalledVersion>, i: int) -> bool {
    forall|j: int|
        0 <= j < versions.len() ==> key_order(#[trigger] versions[j].key(), versions[i].key())
            != VersionOrder::Newer
}

/// The indices of the newest versions, in ascending order.
pub fn newest_versions(versions: &Vec<InstalledVersion>) -> (newest: Vec<usize>)
    ensures
        forall|i: usize| #[trigger]
            newest@.contains(i) <==> i < versions@.len() && is_newest(versions@, i as int),
        forall|j: int, k: int| 0 <= j < k < newest@.len() ==> newest@[j] < newest@[k],
        versions@.len() > 0 ==> newest@.len() > 0,
{
    let mut newest: Vec<usize> = Vec::new();
    if versions.len() == 0 {
        return newest;
    }
    let mut best: usize = 0;
    proof {
        lemma_key_order_same(versions@[0].key(), versions@[0].key());
    }
    for i in 1..versions.len()
        invariant
            best < i <= versions@.len(),
            forall|j: int|
                0 <= j < i ==> key_order(#[trigger] versions@[j].key(), versions@[best as int].key())
                    != VersionOrder::Newer,
    {
        let order = versions[i].compare(&versions[best]);
        proof {
            lemma_key_order_same(versions@[i as int].key(), versions@[i as int].key());
        }
        if order == VersionOrder::Newer {
            proof {
                lemma_key_order_swap(versions@[i as int].key(), versions@[best as int].key());
                assert forall|j: int| 0 <= j < i implies key_order(
                    #[trigger] versions@[j].key(),
                    versions@[i as int].key(),
                ) != VersionOrder::Newer by {
                    lemma_key_order_transitive(
                        versions@[j].key(),
                        versions@[best as int].key(),
                        versions@[i as int].key(),
                    );
                }
            }
            best = i;
        }
    }
    proof {
        assert forall|i: int| 0 <= i < versions@.len() implies (is_newest(versions@, i) <==> key_order(
            versions@[i].key(),
            versions@[best as int].key(),
        ) == VersionOrder::Same) by {
            lemma_key_order_same(versions@[i].key(), versions@[best as int].key());
            lemma_key_order_swap(versions@[best as int].key(), versions@[i].key());
            lemma_key_order_swap(versions@[i].key(), versions@[best as int].key());
            if is_newest(versions@, i) {
                assert(key_order(versions@[best as int].key(), versions@[i].key())
                    != VersionOrder::Newer);
            }
        }
    }
    for i in 0..versions.len()
        invariant
            best < versions@.len(),
            forall|k: int| 0 <= k < newest@.len() ==> (#[trigger] newest@[k]) < i,
            forall|j: int, k: int| 0 <= j < k < newest@.len() ==> newest@[j] < newest@[k],
            forall|j: int|
                0 <= j < i ==> (newest@.contains(j as usize) <==> key_order(
                    #[trigger] versions@[j].key(),
                    versions@[best as int].key(),
                ) == VersionOrder::Same),
    {
        let ghost before = newest@;
        if versions[i].compare(&versions[best]) == VersionOrder::Same {
            newest.push(i);
            proof {
                assert(newest@[newest@.len() - 1] == i);
                assert forall|j: usize| before.contains(j) implies newest@.contains(j) by {
                    let k = choose|k: int| 0 <= k < before.len() && before[k] == j;
                    assert(newest@[k] == j);
                }
                assert forall|j: usize| newest@.contains(j) implies before.contains(j) || j
                    == i by {}
            }
        }
    }
    proof {
        lemma_key_order_same(versions@[best as int].key(), versions@[best as int].key());
        assert(newest@.contains(best));
    }
    newest
}

} // verus!
