//! What holds of the search for the Visual C++ Redistributable as a whole.

use vstd::prelude::*;

use crate::windows::error::Problem;
use crate::windows::installed_version;
use crate::windows::installed_version::{InstalledVersion, VersionOrder};
use crate::windows::known_folder;
use crate::windows::known_folder::KnownFolder;
use crate::windows::platform;
use crate::windows::platform::VCRedistributablePlatform;
use crate::windows::redistributable;
use crate::windows::vswhere;
use crate::windows::vswhere::{Candidate, Probe, Search};

verus! {

/// The fields of a version: its three numbers, its pre-release identifier and
/// its build metadata.
pub type VersionFields = (u64, u64, u64, Seq<char>, Seq<char>);

/// Whether three numbers come before three others: the first two that differ
/// decide.
pub open spec fn numbers_before(a: VersionFields, b: VersionFields) -> bool {
    a.0 < b.0 || (a.0 == b.0 && (a.1 < b.1 || (a.1 == b.1 && a.2 < b.2)))
}

/// vswhere.exe is asked for any product with the latest Redistributable of the
/// version, and for the path of the latest installation, in UTF-8.
pub proof fn law_vswhere_is_asked_for_the_version(version: Seq<char>)
    ensures
        ({
            let arguments = redistributable::arguments(version);
            &&& arguments.len() == 8
            &&& arguments[0] == "-products"@ && arguments[1] == "*"@
            &&& arguments[2] == "-requires"@
            &&& arguments[3] == "Microsoft.VisualCPP.Redist."@ + version + ".Latest"@
            &&& arguments[4] == "-latest"@
            &&& arguments[5] == "-property"@ && arguments[6] == "installationPath"@
            &&& arguments[7] == "-utf8"@
        }),
{
}

/// The installation path is what vswhere.exe writes before a final `\r\n`, all of
/// it, whatever else it holds.
pub proof fn law_line_is_the_installation_path(stdout: Seq<u8>, path: Seq<char>)
    requires
        vstd::utf8::valid_utf8(stdout),
        vstd::utf8::decode_utf8(stdout) == path + seq!['\r', '\n'],
    ensures
        redistributable::installation(stdout) == Ok::<_, Problem<Seq<char>>>(path),
{
    let text = path + seq!['\r', '\n'];
    assert(text.take(text.len() - 2) =~= path);
}

/// Output that does not end in `\r\n`, or is not UTF-8, gives no path.
pub proof fn law_other_output_gives_no_path(stdout: Seq<u8>)
    ensures
        !vstd::utf8::valid_utf8(stdout) ==> redistributable::installation(stdout) == Err::<
            Seq<char>,
            _,
        >(Problem::OutputNotUtf8(redistributable::utf8_error(stdout))),
        ({
            let text = vstd::utf8::decode_utf8(stdout);
            vstd::utf8::valid_utf8(stdout) && (text.len() < 2 || text[text.len() - 1] != '\n'
                || text[text.len() - 2] != '\r') ==> redistributable::installation(stdout) == Err::<
                Seq<char>,
                _,
            >(Problem::<Seq<char>>::UnterminatedOutput)
        }),
{
}

/// The DLLs are looked for below the directory of any version that begins with
/// the wanted one, for the platform.
pub proof fn law_pattern_names_version_and_platform(
    version: Seq<char>,
    platform: VCRedistributablePlatform,
)
    ensures
        redistributable::pattern(version, platform.name()) == "VC/Redist/MSVC/"@ + version + ".*/"@
            + (match platform {
            VCRedistributablePlatform::X86 => "x86"@,
            VCRedistributablePlatform::X64 => "x64"@,
            VCRedistributablePlatform::Arm64 => "arm64"@,
        }) + "/Microsoft.VC*.CRT/vcruntime*.dll"@,
{
}

/// Three names are those of platforms, and any other name is refused with a
/// reason that begins with it.
pub proof fn law_three_platforms(name: Seq<char>)
    ensures
        platform::platform_named("x86"@) == Ok::<_, Seq<char>>(VCRedistributablePlatform::X86),
        platform::platform_named("x64"@) == Ok::<_, Seq<char>>(VCRedistributablePlatform::X64),
        platform::platform_named("arm64"@) == Ok::<_, Seq<char>>(VCRedistributablePlatform::Arm64),
        name != "x86"@ && name != "x64"@ && name != "arm64"@ ==> platform::platform_named(name)
            == Err::<VCRedistributablePlatform, _>(
            name + " is not a valid platform; use 'x86', 'x64', or 'arm64'"@,
        ),
{
    platform::law_platform_names("x86"@, VCRedistributablePlatform::X86);
    platform::law_platform_names("x64"@, VCRedistributablePlatform::X64);
    platform::law_platform_names("arm64"@, VCRedistributablePlatform::Arm64);
}

/// The version of a path is what its component right behind
/// `<install>/VC/Redist/MSVC` parses to, the whole of that component.
pub proof fn law_component_is_the_version(
    install: Seq<Seq<char>>,
    component: Seq<char>,
    rest: Seq<Seq<char>>,
)
    ensures
        ({
            let path = install + seq!["VC"@, "Redist"@, "MSVC"@, component] + rest;
            let version = redistributable::path_version(
                redistributable::versions_root(install),
                path,
            );
            match installed_version::semver_parse(component) {
                Ok(fields) => version == Ok::<_, Problem<Seq<char>>>(fields),
                Err(reason) => version == Err::<VersionFields, _>(Problem::Version(reason)),
            }
        }),
{
    let path = install + seq!["VC"@, "Redist"@, "MSVC"@, component] + rest;
    let root = redistributable::versions_root(install);
    assert(root =~= path.subrange(0, root.len() as int));
    assert(path[root.len() as int] == component);
}

/// A path without a component behind `<install>/VC/Redist/MSVC` has no version,
/// and neither has one that does not lie below it.
pub proof fn law_other_paths_have_no_version(install: Seq<Seq<char>>, path: Seq<Seq<char>>)
    ensures
        ({
            let root = redistributable::versions_root(install);
            let below = install + seq!["VC"@, "Redist"@, "MSVC"@];
            &&& path == below ==> redistributable::path_version(root, path) == Err::<
                VersionFields,
                _,
            >(Problem::<Seq<char>>::NoVersionComponent)
            &&& !below.is_prefix_of(path) ==> redistributable::path_version(root, path) == Err::<
                VersionFields,
                _,
            >(Problem::<Seq<char>>::PrefixNotFound)
        }),
{
    let below = install + seq!["VC"@, "Redist"@, "MSVC"@];
    assert(below.subrange(0, below.len() as int) =~= below);
}

/// A path is not chosen where the component of another path parses to a version
/// with greater numbers.
pub proof fn law_older_path_is_not_chosen(
    install: Seq<Seq<char>>,
    found: Seq<Result<Seq<Seq<char>>, Seq<char>>>,
    older: int,
    newer: int,
    components: (Seq<char>, Seq<char>),
    rests: (Seq<Seq<char>>, Seq<Seq<char>>),
)
    requires
        0 <= older < found.len(),
        0 <= newer < found.len(),
        found[older] == Ok::<_, Seq<char>>(
            install + seq!["VC"@, "Redist"@, "MSVC"@, components.0] + rests.0,
        ),
        found[newer] == Ok::<_, Seq<char>>(
            install + seq!["VC"@, "Redist"@, "MSVC"@, components.1] + rests.1,
        ),
        installed_version::semver_parse(components.0) is Ok,
        installed_version::semver_parse(components.1) is Ok,
        numbers_before(
            installed_version::semver_parse(components.0)->Ok_0,
            installed_version::semver_parse(components.1)->Ok_0,
        ),
    ensures
        !redistributable::has_newest_version(redistributable::versions_root(install), found, older),
{
    let root = redistributable::versions_root(install);
    law_component_is_the_version(install, components.0, rests.0);
    law_component_is_the_version(install, components.1, rests.1);
    installed_version::law_numbers_count_first(
        installed_version::semver_parse(components.1)->Ok_0,
        installed_version::semver_parse(components.0)->Ok_0,
    );
    assert(installed_version::key_order(
        redistributable::path_key(root, found, newer),
        redistributable::path_key(root, found, older),
    ) == VersionOrder::Newer);
}

/// Paths whose components are the same are chosen together or not at all.
pub proof fn law_same_component_is_chosen_alike(
    install: Seq<Seq<char>>,
    found: Seq<Result<Seq<Seq<char>>, Seq<char>>>,
    i: int,
    j: int,
    component: Seq<char>,
    rests: (Seq<Seq<char>>, Seq<Seq<char>>),
)
    requires
        0 <= i < found.len(),
        0 <= j < found.len(),
        found[i] == Ok::<_, Seq<char>>(
            install + seq!["VC"@, "Redist"@, "MSVC"@, component] + rests.0,
        ),
        found[j] == Ok::<_, Seq<char>>(
            install + seq!["VC"@, "Redist"@, "MSVC"@, component] + rests.1,
        ),
        installed_version::semver_parse(component) is Ok,
    ensures
        ({
            let root = redistributable::versions_root(install);
            redistributable::has_newest_version(root, found, i)
                == redistributable::has_newest_version(root, found, j)
        }),
{
    let root = redistributable::versions_root(install);
    law_component_is_the_version(install, component, rests.0);
    law_component_is_the_version(install, component, rests.1);
    assert(redistributable::path_key(root, found, i) == redistributable::path_key(root, found, j));
}

/// A path is chosen where no path has a version that `semver` orders behind its
/// own, by their numbers first and by what stands behind them last.
pub proof fn law_newest_path_is_chosen(
    root: Seq<Seq<char>>,
    found: Seq<Result<Seq<Seq<char>>, Seq<char>>>,
    versions: Seq<VersionFields>,
    i: int,
)
    requires
        0 <= i < found.len(),
        versions.len() == found.len(),
        forall|j: int|
            0 <= j < found.len() ==> redistributable::path_version(root, (#[trigger] found[j])->Ok_0)
                == Ok::<_, Problem<Seq<char>>>(versions[j]),
    ensures
        redistributable::has_newest_version(root, found, i) <==> forall|j: int|
            0 <= j < found.len() ==> !numbers_before(versions[i], #[trigger] versions[j])
                && (numbers_before(versions[j], versions[i]) || installed_version::key_order(
                installed_version::semver_suffix_key(versions[j].3, versions[j].4),
                installed_version::semver_suffix_key(versions[i].3, versions[i].4),
            ) != VersionOrder::Newer),
{
    assert forall|j: int| 0 <= j < found.len() implies (installed_version::key_order(
        #[trigger] redistributable::path_key(root, found, j),
        redistributable::path_key(root, found, i),
    ) == VersionOrder::Newer) == (numbers_before(versions[i], versions[j]) || (!numbers_before(
        versions[j],
        versions[i],
    ) && installed_version::key_order(
        installed_version::semver_suffix_key(versions[j].3, versions[j].4),
        installed_version::semver_suffix_key(versions[i].3, versions[i].4),
    ) == VersionOrder::Newer)) by {
        let (left, right) = (found[j], found[i]);
        law_order_of_versions(versions[j], versions[i]);
    }
    if redistributable::has_newest_version(root, found, i) {
        assert forall|j: int| 0 <= j < found.len() implies !numbers_before(
            versions[i],
            #[trigger] versions[j],
        ) && (numbers_before(versions[j], versions[i]) || installed_version::key_order(
            installed_version::semver_suffix_key(versions[j].3, versions[j].4),
            installed_version::semver_suffix_key(versions[i].3, versions[i].4),
        ) != VersionOrder::Newer) by {
            let key = redistributable::path_key(root, found, j);
        }
    }
}

/// Versions are ordered by their major, minor and patch numbers in turn, and by
/// what stands behind them only where these are all the same.
pub proof fn law_order_of_versions(a: VersionFields, b: VersionFields)
    ensures
        ({
            let order = installed_version::key_order(
                installed_version::version_key(a),
                installed_version::version_key(b),
            );
            &&& numbers_before(a, b) ==> order == VersionOrder::Older
            &&& numbers_before(b, a) ==> order == VersionOrder::Newer
            &&& !numbers_before(a, b) && !numbers_before(b, a) ==> order
                == installed_version::key_order(
                installed_version::semver_suffix_key(a.3, a.4),
                installed_version::semver_suffix_key(b.3, b.4),
            )
        }),
{
    let left = installed_version::version_key(a);
    let right = installed_version::version_key(b);
    if numbers_before(b, a) {
        installed_version::law_numbers_count_first(a, b);
    } else if numbers_before(a, b) {
        installed_version::law_numbers_count_first(b, a);
        installed_version::lemma_key_order_swap(right, left);
    } else {
        reveal_with_fuel(installed_version::key_order, 4);
        assert(left.drop_first().drop_first().drop_first()
            =~= installed_version::semver_suffix_key(a.3, a.4));
        assert(right.drop_first().drop_first().drop_first()
            =~= installed_version::semver_suffix_key(b.3, b.4));
    }
}

/// Keys are ordered by the first place where they differ; a key comes before any
/// that goes on behind it, and only equal keys are the same.
pub proof fn law_first_difference_decides(a: Seq<int>, b: Seq<int>, i: int)
    requires
        0 <= i <= a.len(),
        i <= b.len(),
        forall|j: int| 0 <= j < i ==> a[j] == #[trigger] b[j],
    ensures
        i < a.len() && i < b.len() && a[i] < b[i] ==> installed_version::key_order(a, b)
            == VersionOrder::Older,
        i < a.len() && i < b.len() && a[i] > b[i] ==> installed_version::key_order(a, b)
            == VersionOrder::Newer,
        i == a.len() && i < b.len() ==> installed_version::key_order(a, b) == VersionOrder::Older,
        i < a.len() && i == b.len() ==> installed_version::key_order(a, b) == VersionOrder::Newer,
        i == a.len() && i == b.len() ==> installed_version::key_order(a, b) == VersionOrder::Same,
    decreases i,
{
    if i > 0 {
        assert(a[0] == b[0]);
        assert forall|j: int| 0 <= j < i - 1 implies a.drop_first()[j] == #[trigger] b.drop_first()[j] by {
            assert(a[j + 1] == b[j + 1]);
        }
        law_first_difference_decides(a.drop_first(), b.drop_first(), i - 1);
    }
}

/// A version is not among the newest where another one has greater numbers, and
/// it is where none is ordered behind it.
pub proof fn law_newest_of_versions(versions: Seq<InstalledVersion>, i: int)
    requires
        0 <= i < versions.len(),
    ensures
        forall|j: int|
            0 <= j < versions.len() && numbers_before(
                versions[i].fields(),
                (#[trigger] versions[j]).fields(),
            ) ==> !installed_version::is_newest(versions, i),
        (forall|j: int|
            0 <= j < versions.len() ==> installed_version::key_order(
                installed_version::version_key((#[trigger] versions[j]).fields()),
                installed_version::version_key(versions[i].fields()),
            ) != VersionOrder::Newer) <==> installed_version::is_newest(versions, i),
{
    assert forall|j: int| 0 <= j < versions.len() && numbers_before(
        versions[i].fields(),
        (#[trigger] versions[j]).fields(),
    ) implies !installed_version::is_newest(versions, i) by {
        law_order_of_versions(versions[j].fields(), versions[i].fields());
        assert(installed_version::key_order(versions[j].key(), versions[i].key())
            == VersionOrder::Newer);
    }
    if forall|j: int|
        0 <= j < versions.len() ==> installed_version::key_order(
            installed_version::version_key((#[trigger] versions[j]).fields()),
            installed_version::version_key(versions[i].fields()),
        ) != VersionOrder::Newer {
        assert forall|j: int| 0 <= j < versions.len() implies installed_version::key_order(
            #[trigger] versions[j].key(),
            versions[i].key(),
        ) != VersionOrder::Newer by {
            assert(versions[j].fields() == versions[j].fields());
        }
    }
    if installed_version::is_newest(versions, i) {
        assert forall|j: int| 0 <= j < versions.len() implies installed_version::key_order(
            installed_version::version_key((#[trigger] versions[j]).fields()),
            installed_version::version_key(versions[i].fields()),
        ) != VersionOrder::Newer by {
            assert(installed_version::key_order(versions[j].key(), versions[i].key())
                != VersionOrder::Newer);
        }
    }
}

/// The first path that could not be read is the obstacle, wherever it stands.
pub proof fn law_first_unreadable_path_is_reported(
    root: Seq<Seq<char>>,
    before: Seq<Result<Seq<Seq<char>>, Seq<char>>>,
    reason: Seq<char>,
    rest: Seq<Result<Seq<Seq<char>>, Seq<char>>>,
)
    requires
        forall|i: int| 0 <= i < before.len() ==> (#[trigger] before[i]) is Ok,
    ensures
        redistributable::obstacle(root, before + seq![Err(reason)] + rest) == Some(
            Problem::Glob(reason),
        ),
    decreases before.len(),
{
    let found = before + seq![Err(reason)] + rest;
    if before.len() > 0 {
        let tail = before.drop_first();
        assert forall|i: int| 0 <= i < tail.len() implies (#[trigger] tail[i]) is Ok by {
            assert(tail[i] == before[i + 1]);
        }
        law_first_unreadable_path_is_reported(root, tail, reason, rest);
        assert(found.drop_first() =~= tail + seq![Err(reason)] + rest);
        assert(found[0] == before[0]);
        match redistributable::first_unreadable(found.drop_first()) {
            Some(_) => {},
            None => {
                redistributable::law_obstacles(root, found.drop_first());
            },
        }
        lemma_glob_comes_from_unreadable(root, found.drop_first());
    } else {
        assert(found[0] == Err::<Seq<Seq<char>>, _>(reason));
    }
}

/// Only a path that could not be read is reported as one.
proof fn lemma_glob_comes_from_unreadable(
    root: Seq<Seq<char>>,
    found: Seq<Result<Seq<Seq<char>>, Seq<char>>>,
)
    ensures
        redistributable::obstacle(root, found) matches Some(Problem::Glob(reason))
            ==> redistributable::first_unreadable(found) == Some(reason),
{
    redistributable::lemma_first_without_version(root, found);
}

/// Where every path was read, the first one without a version is the obstacle,
/// for its own reason.
pub proof fn law_first_path_without_version_is_reported(
    root: Seq<Seq<char>>,
    paths: Seq<Seq<Seq<char>>>,
    at: int,
    problem: Problem<Seq<char>>,
)
    requires
        0 <= at < paths.len(),
        forall|i: int|
            0 <= i < at ==> redistributable::path_version(root, #[trigger] paths[i]) is Ok,
        redistributable::path_version(root, paths[at]) == Err::<VersionFields, _>(problem),
    ensures
        redistributable::obstacle(
            root,
            paths.map_values(
                |path: Seq<Seq<char>>| Ok::<Seq<Seq<char>>, Seq<char>>(path),
            ),
        ) == Some(problem),
{
    let read = |path: Seq<Seq<char>>| Ok::<Seq<Seq<char>>, Seq<char>>(path);
    let found = paths.map_values(read);
    redistributable::lemma_first_unreadable(found);
    lemma_first_without_version_is(root, paths, at, problem);
}

/// The first path without a version is the one that none without a version
/// precedes.
proof fn lemma_first_without_version_is(
    root: Seq<Seq<char>>,
    paths: Seq<Seq<Seq<char>>>,
    at: int,
    problem: Problem<Seq<char>>,
)
    requires
        0 <= at < paths.len(),
        forall|i: int|
            0 <= i < at ==> redistributable::path_version(root, #[trigger] paths[i]) is Ok,
        redistributable::path_version(root, paths[at]) == Err::<VersionFields, _>(problem),
    ensures
        redistributable::first_without_version(
            root,
            paths.map_values(
                |path: Seq<Seq<char>>| Ok::<Seq<Seq<char>>, Seq<char>>(path),
            ),
        ) == Some(problem),
    decreases at,
{
    let read = |path: Seq<Seq<char>>| Ok::<Seq<Seq<char>>, Seq<char>>(path);
    let found = paths.map_values(read);
    assert(found[0]->Ok_0 == paths[0]);
    if at > 0 {
        let rest = paths.drop_first();
        assert forall|i: int| 0 <= i < at - 1 implies redistributable::path_version(
            root,
            #[trigger] rest[i],
        ) is Ok by {
            assert(rest[i] == paths[i + 1]);
        }
        lemma_first_without_version_is(root, rest, at - 1, problem);
        assert(found.drop_first() =~= rest.map_values(read));
    }
}

/// Where nothing was found, that is the obstacle.
pub proof fn law_nothing_found(root: Seq<Seq<char>>)
    ensures
        redistributable::obstacle(root, Seq::empty()) == Some(
            Problem::<Seq<char>>::RedistributableNotFound,
        ),
{
}

/// A path that is read ends before its first NUL, and goes on as long as none
/// has been read.
pub proof fn law_path_goes_up_to_a_nul(path: Seq<u16>, rest: Seq<u16>)
    requires
        forall|i: int| 0 <= i < path.len() ==> #[trigger] path[i] != 0,
    ensures
        known_folder::after_units(path) == (path, false),
        known_folder::after_units(path + seq![0u16] + rest) == (path, true),
    decreases path.len() + rest.len(),
{
    if rest.len() > 0 {
        law_path_goes_up_to_a_nul(path, rest.drop_last());
        assert((path + seq![0u16] + rest).drop_last() =~= path + seq![0u16] + rest.drop_last());
    } else {
        assert((path + seq![0u16] + rest).drop_last() =~= path);
        assert((path + seq![0u16] + rest).last() == 0u16);
        if path.len() > 0 {
            assert forall|i: int| 0 <= i < path.len() - 1 implies #[trigger] path.drop_last()[i]
                != 0 by {
                assert(path.drop_last()[i] == path[i]);
            }
            law_path_goes_up_to_a_nul(path.drop_last(), rest);
            assert(path.last() == path[path.len() - 1]);
            assert(path.drop_last().push(path.last()) =~= path);
        } else {
            assert(known_folder::after_units(path).0 =~= path);
        }
    }
}

/// One unit more is kept until a NUL was read, and a NUL completes the path.
pub proof fn law_one_more_unit(units: Seq<u16>, unit: u16)
    ensures
        unit != 0 ==> known_folder::after_unit(units, false, unit) == (units.push(unit), false),
        known_folder::after_unit(units, false, 0) == (units, true),
        known_folder::after_unit(units, true, unit) == (units, true),
{
}

/// vswhere.exe is looked for in the installer directory of Visual Studio, below
/// the 32-bit program files first and below the program data last. The search
/// goes on only where a candidate is missing.
pub proof fn law_candidates_are_tried_in_turn(number: int)
    requires
        number == 0 || number == 1,
    ensures
        ({
            let path = "Microsoft Visual Studio\\Installer\\vswhere.exe"@;
            &&& vswhere::candidates().len() == 2
            &&& vswhere::candidates()[0] == (Candidate {
                folder: KnownFolder::ProgramFilesX86,
                path,
            })
            &&& vswhere::candidates()[1] == (Candidate { folder: KnownFolder::ProgramData, path })
            &&& vswhere::search_from(0) == Search::<Seq<char>>::Look(0)
            &&& vswhere::search_after(number, Probe::Exists) == Search::<Seq<char>>::Found(
                number as usize,
            )
            &&& vswhere::search_after(number, Probe::FolderError) == Search::<
                Seq<char>,
            >::FolderError(number as usize)
            &&& vswhere::search_after(0, Probe::Missing) == Search::<Seq<char>>::Look(1)
            &&& vswhere::search_after(1, Probe::Missing) == Search::Failed(
                Problem::<Seq<char>>::VswhereNotFound,
            )
        }),
{
}

/// What a problem says, in its own words and with all of the reason it holds.
pub proof fn law_problem_texts(reason: Seq<char>)
    ensures
        Problem::<Seq<char>>::VswhereUnsupported.text()
            == "finding vswhere.exe only supported on Windows"@,
        Problem::<Seq<char>>::RedistributableUnsupported.text()
            == "Finding the Visual C++ Redistributable is not supported outside of Windows"@,
        Problem::<Seq<char>>::VswhereNotFound.text() == "could not find vswhere.exe"@,
        Problem::OutputNotUtf8(reason).text() == reason,
        Problem::<Seq<char>>::UnterminatedOutput.text() == "unable to strip string"@,
        Problem::Glob(reason).text() == "glob error: "@ + reason,
        Problem::<Seq<char>>::PrefixNotFound.text() == "prefix not found"@,
        Problem::<Seq<char>>::NoVersionComponent.text()
            == "unable to determine version component (this should not happen)"@,
        Problem::Version(reason).text() == reason,
        Problem::<Seq<char>>::RedistributableNotFound.text()
            == "unable to find install VC++ Redistributable"@,
{
}

/// A problem is seen as the problem that it is, with all of the reason it holds.
pub proof fn law_problems_are_faithful(problem: Problem<String>)
    ensures
        match problem {
            Problem::VswhereUnsupported => problem@ is VswhereUnsupported,
            Problem::RedistributableUnsupported => problem@ is RedistributableUnsupported,
            Problem::VswhereNotFound => problem@ is VswhereNotFound,
            Problem::OutputNotUtf8(reason) => problem@ == Problem::OutputNotUtf8(reason@),
            Problem::UnterminatedOutput => problem@ is UnterminatedOutput,
            Problem::Glob(reason) => problem@ == Problem::Glob(reason@),
            Problem::PrefixNotFound => problem@ is PrefixNotFound,
            Problem::NoVersionComponent => problem@ is NoVersionComponent,
            Problem::Version(reason) => problem@ == Problem::Version(reason@),
            Problem::RedistributableNotFound => problem@ is RedistributableNotFound,
        },
{
}

/// A candidate and a search are seen as what they are.
pub proof fn law_searches_are_faithful(candidate: Candidate<String>, search: Search<String>)
    ensures
        candidate@.folder == candidate.folder,
        candidate@.path == candidate.path@,
        match search {
            Search::Look(number) => search@ == Search::<Seq<char>>::Look(number),
            Search::Found(number) => search@ == Search::<Seq<char>>::Found(number),
            Search::FolderError(number) => search@ == Search::<Seq<char>>::FolderError(number),
            Search::Failed(problem) => search@ == Search::Failed(problem@),
        },
{
}

/// What globbing has found is all of it, in order: the components of each path
/// that was read, with all their texts, and the reason of each that was not.
pub proof fn law_found_paths_are_faithful(found: Seq<Result<Vec<String>, String>>, i: int)
    requires
        0 <= i < found.len(),
    ensures
        redistributable::found_view(found).len() == found.len(),
        match found[i] {
            Ok(components) => {
                &&& redistributable::found_view(found)[i] is Ok
                &&& redistributable::found_view(found)[i]->Ok_0.len() == components@.len()
                &&& forall|k: int|
                    0 <= k < components@.len() ==> (#[trigger] redistributable::found_view(
                        found,
                    )[i]->Ok_0[k]) == components@[k]@
            },
            Err(reason) => redistributable::found_view(found)[i] == Err::<Seq<Seq<char>>, _>(
                reason@,
            ),
        },
{
}

/// A query has succeeded where its status is 0.
pub proof fn law_success_is_zero()
    ensures
        known_folder::S_OK == 0,
{
}

/// A text is terminated where it ends in `\r\n`, and only there.
pub proof fn law_terminated_texts(line: Seq<char>, text: Seq<char>)
    ensures
        redistributable::is_terminated(line + seq!['\r', '\n']),
        redistributable::is_terminated(text) ==> text == text.take(text.len() - 2) + seq![
            '\r',
            '\n',
        ],
{
    if redistributable::is_terminated(text) {
        assert(text =~= text.take(text.len() - 2) + seq!['\r', '\n']);
    }
}

} // verus!
