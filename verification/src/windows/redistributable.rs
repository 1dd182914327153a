//! Locating the Visual C++ Redistributable.

use vstd::prelude::*;

use crate::text;
use crate::text::same_text;
use crate::windows::error::{Problem, WindowsError};
use crate::windows::installed_version;
use crate::windows::installed_version::{newest_versions, InstalledVersion};
use crate::windows::platform::VCRedistributablePlatform;

verus! {

/// The arguments with which vswhere.exe tells where a version of the
/// Redistributable is installed.
pub open spec fn arguments(redist_version: Seq<char>) -> Seq<Seq<char>> {
    seq![
        "-products"@,
        "*"@,
        "-requires"@,
        "Microsoft.VisualCPP.Redist."@ + redist_version + ".Latest"@,
        "-latest"@,
        "-property"@,
        "installationPath"@,
        "-utf8"@,
    ]
}

/// The arguments with which vswhere.exe tells where a version of the
/// Redistributable is installed.
pub fn vswhere_arguments(redist_version: &str) -> (args: Vec<String>)
    ensures
        text::texts(args@) == arguments(redist_version@),
{
    let mut component = "Microsoft.VisualCPP.Redist.".to_owned();
    component.append(redist_version);
    component.append(".Latest");
    let mut args: Vec<String> = Vec::new();
    args.push("-products".to_owned());
    args.push("*".to_owned());
    args.push("-requires".to_owned());
    args.push(component);
    args.push("-latest".to_owned());
    args.push("-property".to_owned());
    args.push("installationPath".to_owned());
    args.push("-utf8".to_owned());
    assert(text::texts(args@) =~= arguments(redist_version@));
    args
}

/// What the error of `String::from_utf8` says about bytes that are not UTF-8.
pub uninterp spec fn utf8_error(bytes: Seq<u8>) -> Seq<char>;

/// Calls `String::from_utf8`, which decodes bytes that are valid UTF-8 and
/// refuses all others. What its error says goes by the name `utf8_error`.
#[verifier::external_body]
fn text_from_utf8(bytes: Vec<u8>) -> (result: Result<String, String>)
    ensures
        match result {
            Ok(text) => vstd::utf8::valid_utf8(bytes@) && text@ == vstd::utf8::decode_utf8(bytes@),
            Err(reason) => !vstd::utf8::valid_utf8(bytes@) && reason@ == utf8_error(bytes@),
        },
{
    String::from_utf8(bytes).map_err(|error| error.to_string())
}

/// Whether a text ends with a Windows line break.
pub open spec fn is_terminated(text: Seq<char>) -> bool {
    text.len() >= 2 && text[text.len() - 2] == '\r' && text[text.len() - 1] == '\n'
}

/// A text without the Windows line break at its end, which it has to have.
pub fn strip_line_break(text: &str) -> (line: Option<&str>)
    ensures
        match line {
            Some(line) => is_terminated(text@) && line@ == text@.take(text@.len() - 2),
            None => !is_terminated(text@),
        },
{
    let len = text.unicode_len();
    if len >= 2 && text.get_char(len - 2) == '\r' && text.get_char(len - 1) == '\n' {
        let line = text.substring_char(0, len - 2);
        assert(line@ =~= text@.take(text@.len() - 2));
        Some(line)
    } else {
        None
    }
}

/// The installation path that vswhere.exe has written, or why there is none.
pub open spec fn installation(stdout: Seq<u8>) -> Result<Seq<char>, Problem<Seq<char>>> {
    let text = vstd::utf8::decode_utf8(stdout);
    if !vstd::utf8::valid_utf8(stdout) {
        Err(Problem::OutputNotUtf8(utf8_error(stdout)))
    } else if is_terminated(text) {
        Ok(text.take(text.len() - 2))
    } else {
        Err(Problem::UnterminatedOutput)
    }
}

/// The path to the Visual Studio installation root that vswhere.exe has
/// written.
pub fn installation_path(stdout: Vec<u8>) -> (result: Result<String, WindowsError>)
    ensures
        match result {
            Ok(path) => installation(stdout@) == Ok::<_, Problem<Seq<char>>>(path@),
            Err(problem) => installation(stdout@) == Err::<Seq<char>, _>(problem@),
        },
{
    match text_from_utf8(stdout) {
        Ok(text) => match strip_line_break(text.as_str()) {
            Some(path) => Ok(path.to_owned()),
            None => Err(Problem::UnterminatedOutput),
        },
        Err(reason) => Err(Problem::OutputNotUtf8(reason)),
    }
}

/// The pattern, below the installation root, of the runtime DLLs.
pub open spec fn pattern(redist_version: Seq<char>, platform: Seq<char>) -> Seq<char> {
    "VC/Redist/MSVC/"@ + redist_version + ".*/"@ + platform
        + "/Microsoft.VC*.CRT/vcruntime*.dll"@
}

/// The pattern, below the installation root, of the runtime DLLs of a version
/// of the Redistributable.
///
/// They are under a path like
/// `VC\Redist\MSVC\<version>\<arch>\Microsoft.VCXXX.CRT\vcruntimeXXX.dll`.
pub fn redistributable_pattern(
    redist_version: &str,
    platform: &VCRedistributablePlatform,
) -> (glob: String)
    ensures
        glob@ == pattern(redist_version@, platform.name()),
{
    let mut glob = "VC/Redist/MSVC/".to_owned();
    glob.append(redist_version);
    glob.append(".*/");
    glob.append(platform.to_string().as_str());
    glob.append("/Microsoft.VC*.CRT/vcruntime*.dll");
    glob
}

/// The directory below which there is one directory for each version.
pub open spec fn versions_root(install: Seq<Seq<char>>) -> Seq<Seq<char>> {
    install + seq!["VC"@, "Redist"@, "MSVC"@]
}

/// The component of a path that tells its version, or why there is none.
pub open spec fn version_component(
    root: Seq<Seq<char>>,
    path: Seq<Seq<char>>,
) -> Result<Seq<char>, Problem<Seq<char>>> {
    if !root.is_prefix_of(path) {
        Err(Problem::PrefixNotFound)
    } else if path.len() == root.len() {
        Err(Problem::NoVersionComponent)
    } else {
        Ok(path[root.len() as int])
    }
}

/// The version of a path, or why there is none.
pub open spec fn path_version(root: Seq<Seq<char>>, path: Seq<Seq<char>>) -> Result<
    (u64, u64, u64, Seq<char>, Seq<char>),
    Problem<Seq<char>>,
> {
    match version_component(root, path) {
        Ok(component) => match installed_version::semver_parse(component) {
            Ok(fields) => Ok(fields),
            Err(reason) => Err(Problem::Version(reason)),
        },
        Err(problem) => Err(problem),
    }
}

/// Whether a path lies below the installation root, in the directory of the
/// version with these three numbers.
pub open spec fn is_numbered(
    install: Seq<Seq<char>>,
    path: Seq<Seq<char>>,
    major: u64,
    minor: u64,
    patch: u64,
) -> bool {
    let at = install.len() as int;
    &&& path.len() > at + 3
    &&& path.take(at) == install
    &&& path[at] == "VC"@
    &&& path[at + 1] == "Redist"@
    &&& path[at + 2] == "MSVC"@
    &&& path[at + 3] == text::decimal(major as nat) + seq!['.'] + text::decimal(minor as nat)
        + seq!['.'] + text::decimal(patch as nat)
}

/// What globbing has found: the components of each path, or why a path could
/// not be read.
pub open spec fn found_view(found: Seq<Result<Vec<String>, String>>) -> Seq<
    Result<Seq<Seq<char>>, Seq<char>>,
> {
    found.map_values(
        |item: Result<Vec<String>, String>|
            match item {
                Ok(components) => Ok(text::texts(components@)),
                Err(reason) => Err(reason@),
            },
    )
}

/// Why the first path that could not be read could not be read.
pub open spec fn first_unreadable(found: Seq<Result<Seq<Seq<char>>, Seq<char>>>) -> Option<
    Seq<char>,
>
    decreases found.len(),
{
    if found.len() == 0 {
        None
    } else {
        match found[0] {
            Ok(_) => first_unreadable(found.drop_first()),
            Err(reason) => Some(reason),
        }
    }
}

/// Why the first path without a version has none.
pub open spec fn first_without_version(
    root: Seq<Seq<char>>,
    found: Seq<Result<Seq<Seq<char>>, Seq<char>>>,
) -> Option<Problem<Seq<char>>>
    decreases found.len(),
{
    if found.len() == 0 {
        None
    } else {
        match path_version(root, found[0]->Ok_0) {
            Ok(_) => first_without_version(root, found.drop_first()),
            Err(problem) => Some(problem),
        }
    }
}

/// Why no path can be chosen, if so. A path that could not be read counts
/// before one that has no version, wherever it stands.
pub open spec fn obstacle(
    root: Seq<Seq<char>>,
    found: Seq<Result<Seq<Seq<char>>, Seq<char>>>,
) -> Option<Problem<Seq<char>>> {
    match first_unreadable(found) {
        Some(reason) => Some(Problem::Glob(reason)),
        None => match first_without_version(root, found) {
            Some(problem) => Some(problem),
            None => if found.len() == 0 {
                Some(Problem::RedistributableNotFound)
            } else {
                None
            },
        },
    }
}

/// The place of a path among all versions.
pub open spec fn path_key(
    root: Seq<Seq<char>>,
    found: Seq<Result<Seq<Seq<char>>, Seq<char>>>,
    i: int,
) -> Seq<int> {
    installed_version::version_key(path_version(root, found[i]->Ok_0)->Ok_0)
}

/// Whether no path has a newer version than the one at `i`.
pub open spec fn has_newest_version(
    root: Seq<Seq<char>>,
    found: Seq<Result<Seq<Seq<char>>, Seq<char>>>,
    i: int,
) -> bool {
    forall|j: int|
        0 <= j < found.len() ==> installed_version::key_order(
            #[trigger] path_key(root, found, j),
            path_key(root, found, i),
        ) != installed_version::VersionOrder::Newer
}

/// Whether the components of a path begin with those of the directory below
/// which there is one directory for each version.
fn is_below_root(install: &Vec<String>, components: &Vec<String>) -> (below: bool)
    ensures
        below == versions_root(text::texts(install@)).is_prefix_of(text::texts(components@)),
{
    let ghost root = versions_root(text::texts(install@));
    let ghost path = text::texts(components@);
    if components.len() < 3 || components.len() - 3 < install.len() {
        return false;
    }
    for i in 0..install.len()
        invariant
            install@.len() + 3 <= components@.len(),
            root == versions_root(text::texts(install@)),
            path == text::texts(components@),
            forall|j: int| 0 <= j < i ==> root[j] == path[j],
    {
        if !same_text(install[i].as_str(), components[i].as_str()) {
            assert(root[i as int] != path[i as int]);
            assert(path.subrange(0, root.len() as int)[i as int] == path[i as int]);
            return false;
        }
    }
    let len = install.len();
    assert(root[len as int] == "VC"@);
    assert(root[len + 1] == "Redist"@);
    assert(root[len + 2] == "MSVC"@);
    let below = same_text(components[len].as_str(), "VC") && same_text(
        components[len + 1].as_str(),
        "Redist",
    ) && same_text(components[len + 2].as_str(), "MSVC");
    proof {
        let start = path.subrange(0, root.len() as int);
        assert(start[len as int] == path[len as int]);
        assert(start[len + 1] == path[len + 1]);
        assert(start[len + 2] == path[len + 2]);
        if below {
            assert(root =~= start);
        }
    }
    below
}

/// The version of a path below an installation root, both given by their
/// components.
pub fn version_of_path(install: &Vec<String>, components: &Vec<String>) -> (result: Result<
    InstalledVersion,
    WindowsError,
>)
    ensures
        match result {
            Ok(version) => path_version(
                versions_root(text::texts(install@)),
                text::texts(components@),
            ) == Ok::<_, Problem<Seq<char>>>(version.fields()),
            Err(problem) => path_version(
                versions_root(text::texts(install@)),
                text::texts(components@),
            ) == Err::<(u64, u64, u64, Seq<char>, Seq<char>), _>(problem@),
        },
        forall|major: u64, minor: u64, patch: u64| #[trigger]
            is_numbered(text::texts(install@), text::texts(components@), major, minor, patch)
                ==> result is Ok && result->Ok_0.fields() == (
                major,
                minor,
                patch,
                Seq::<char>::empty(),
                Seq::<char>::empty(),
            ),
{
    proof {
        assert forall|major: u64, minor: u64, patch: u64| #[trigger]
            is_numbered(
                text::texts(install@),
                text::texts(components@),
                major,
                minor,
                patch,
            ) implies versions_root(text::texts(install@)).is_prefix_of(text::texts(components@))
            && components@[install@.len() as int + 3]@ == installed_version::dotted(
            major,
            minor,
            patch,
        ) by {
            let install = text::texts(install@);
            let path = text::texts(components@);
            let root = versions_root(install);
            assert forall|i: int| 0 <= i < install.len() implies install[i] == path[i] by {
                assert(path.take(install.len() as int)[i] == path[i]);
            }
            assert(root =~= path.subrange(0, root.len() as int));
        }
    }
    if !is_below_root(install, components) {
        return Err(Problem::PrefixNotFound);
    }
    assert(versions_root(text::texts(install@)).len() == install@.len() + 3);
    if components.len() - 3 == install.len() {
        return Err(Problem::NoVersionComponent);
    }
    match InstalledVersion::parse(components[install.len() + 3].as_str()) {
        Ok(version) => Ok(version),
        Err(reason) => Err(Problem::Version(reason)),
    }
}

/// Why the first path that could not be read could not be read.
fn unreadable(found: &Vec<Result<Vec<String>, String>>) -> (reason: Option<String>)
    ensures
        match reason {
            Some(reason) => first_unreadable(found_view(found@)) == Some(reason@),
            None => first_unreadable(found_view(found@)) is None && forall|i: int|
                0 <= i < found@.len() ==> (#[trigger] found@[i]) is Ok,
        },
{
    let ghost all = found_view(found@);
    assert(all.skip(0) =~= all);
    for i in 0..found.len()
        invariant
            all == found_view(found@),
            first_unreadable(all) == first_unreadable(all.skip(i as int)),
            forall|j: int| 0 <= j < i ==> (#[trigger] found@[j]) is Ok,
    {
        assert(all.skip(i as int)[0] == all[i as int]);
        assert(all.skip(i as int).drop_first() =~= all.skip(i + 1));
        if let Err(reason) = &found[i] {
            return Some(reason.clone());
        }
    }
    assert(all.skip(found@.len() as int).len() == 0);
    None
}

/// The runtime DLLs of the newest version that is installed.
///
/// `install` are the components of the installation root. `found` is what
/// globbing for `redistributable_pattern` below it gives: the components of
/// each path, or what the error says about a path that could not be read. The
/// result are the indices in `found` of the paths to use, in ascending order.
pub fn newest_redistributable(
    install: &Vec<String>,
    found: &Vec<Result<Vec<String>, String>>,
) -> (result: Result<Vec<usize>, WindowsError>)
    ensures
        ({
            let root = versions_root(text::texts(install@));
            let paths = found_view(found@);
            match result {
                Ok(chosen) => {
                    &&& obstacle(root, paths) is None
                    &&& forall|i: usize| #[trigger]
                        chosen@.contains(i) <==> i < paths.len() && has_newest_version(
                            root,
                            paths,
                            i as int,
                        )
                    &&& forall|j: int, k: int|
                        0 <= j < k < chosen@.len() ==> chosen@[j] < chosen@[k]
                    &&& chosen@.len() > 0
                },
                Err(problem) => obstacle(root, paths) == Some(problem@),
            }
        }),
        ({
            let install = text::texts(install@);
            let paths = found_view(found@);
            // Of two paths with three numbers each, the one with the smaller
            // numbers is not chosen.
            forall|i: int, j: int, a: u64, b: u64, c: u64, x: u64, y: u64, z: u64|
                0 <= i < paths.len() && 0 <= j < paths.len() && paths[i] is Ok && paths[j] is Ok
                    && #[trigger] is_numbered(install, paths[i]->Ok_0, a, b, c)
                    && #[trigger] is_numbered(install, paths[j]->Ok_0, x, y, z) && (a < x || (a == x
                    && (b < y || (b == y && c < z)))) && result is Ok
                    ==> !result->Ok_0@.contains(i as usize)
        }),
{
    let ghost root = versions_root(text::texts(install@));
    let ghost paths = found_view(found@);
    if let Some(reason) = unreadable(found) {
        return Err(Problem::Glob(reason));
    }
    let mut versions: Vec<InstalledVersion> = Vec::new();
    assert(paths.skip(0) =~= paths);
    for i in 0..found.len()
        invariant
            root == versions_root(text::texts(install@)),
            paths == found_view(found@),
            first_unreadable(paths) is None,
            forall|j: int| 0 <= j < found@.len() ==> (#[trigger] found@[j]) is Ok,
            first_without_version(root, paths) == first_without_version(
                root,
                paths.skip(i as int),
            ),
            versions@.len() == i,
            forall|j: int|
                0 <= j < i ==> path_key(root, paths, j) == (#[trigger] versions@[j]).key(),
            forall|j: int, major: u64, minor: u64, patch: u64|
                0 <= j < i && #[trigger] is_numbered(
                    text::texts(install@),
                    paths[j]->Ok_0,
                    major,
                    minor,
                    patch,
                ) ==> versions@[j].fields() == (
                    major,
                    minor,
                    patch,
                    Seq::<char>::empty(),
                    Seq::<char>::empty(),
                ),
    {
        assert(found@[i as int] is Ok);
        assert(paths.skip(i as int)[0] == paths[i as int]);
        assert(paths.skip(i as int).drop_first() =~= paths.skip(i + 1));
        if let Ok(components) = &found[i] {
            match version_of_path(install, components) {
                Ok(version) => {
                    versions.push(version);
                },
                Err(problem) => {
                    return Err(problem);
                },
            }
        }
    }
    assert(paths.skip(found@.len() as int).len() == 0);
    if found.len() == 0 {
        return Err(Problem::RedistributableNotFound);
    }
    let chosen = newest_versions(&versions);
    proof {
        assert forall|i: int| 0 <= i < paths.len() implies (has_newest_version(root, paths, i)
            <==> installed_version::is_newest(versions@, i)) by {
            assert(path_key(root, paths, i) == versions@[i].key());
            if has_newest_version(root, paths, i) {
                assert forall|j: int| 0 <= j < versions@.len() implies
                    installed_version::key_order(
                    #[trigger] versions@[j].key(),
                    versions@[i].key(),
                ) != installed_version::VersionOrder::Newer by {
                    assert(path_key(root, paths, j) == versions@[j].key());
                }
            }
            if installed_version::is_newest(versions@, i) {
                assert forall|j: int| 0 <= j < paths.len() implies installed_version::key_order(
                    #[trigger] path_key(root, paths, j),
                    path_key(root, paths, i),
                ) != installed_version::VersionOrder::Newer by {
                    assert(path_key(root, paths, j) == versions@[j].key());
                }
            }
        }
        let install = text::texts(install@);
        assert forall|i: int, j: int, a: u64, b: u64, c: u64, x: u64, y: u64, z: u64|
            0 <= i < paths.len() && 0 <= j < paths.len() && #[trigger] is_numbered(
                install,
                paths[i]->Ok_0,
                a,
                b,
                c,
            ) && #[trigger] is_numbered(install, paths[j]->Ok_0, x, y, z) && (a < x || (a == x && (b
                < y || (b == y && c < z)))) implies !chosen@.contains(i as usize) by {
            let older = versions@[i];
            let newer = versions@[j];
            installed_version::law_numbers_count_first(newer.fields(), older.fields());
            assert(installed_version::key_order(newer.key(), older.key())
                == installed_version::VersionOrder::Newer);
            assert(!installed_version::is_newest(versions@, i));
        }
    }
    Ok(chosen)
}

/// All the paths that are chosen have the same version, and no path with that
/// version is left out.
pub proof fn law_chosen_paths_share_a_version(
    root: Seq<Seq<char>>,
    found: Seq<Result<Seq<Seq<char>>, Seq<char>>>,
    i: int,
    j: int,
)
    requires
        0 <= i < found.len(),
        0 <= j < found.len(),
        has_newest_version(root, found, i),
    ensures
        has_newest_version(root, found, j) <==> path_key(root, found, i) == path_key(
            root,
            found,
            j,
        ),
{
    let left = path_key(root, found, i);
    let right = path_key(root, found, j);
    installed_version::lemma_key_order_same(left, right);
    installed_version::lemma_key_order_swap(left, right);
    installed_version::lemma_key_order_swap(right, left);
}

/// A path that could not be read is reported before anything else, and a path
/// without a version before an empty result. Where every path was read and has
/// a version, and there is at least one, paths are chosen.
pub proof fn law_obstacles(
    root: Seq<Seq<char>>,
    found: Seq<Result<Seq<Seq<char>>, Seq<char>>>,
)
    ensures
        (exists|i: int| 0 <= i < found.len() && (#[trigger] found[i]) is Err) <==> obstacle(
            root,
            found,
        ) matches Some(Problem::Glob(_)),
        obstacle(root, found) is None <==> found.len() > 0 && forall|i: int|
            0 <= i < found.len() ==> (#[trigger] found[i]) is Ok && path_version(
                root,
                found[i]->Ok_0,
            ) is Ok,
{
    lemma_first_unreadable(found);
    lemma_first_without_version(root, found);
}

/// There is a first unreadable path where there is an unreadable path.
pub proof fn lemma_first_unreadable(found: Seq<Result<Seq<Seq<char>>, Seq<char>>>)
    ensures
        first_unreadable(found) is Some <==> exists|i: int|
            0 <= i < found.len() && (#[trigger] found[i]) is Err,
    decreases found.len(),
{
    if found.len() > 0 {
        let rest = found.drop_first();
        lemma_first_unreadable(rest);
        if found[0] is Ok {
            if exists|i: int| 0 <= i < found.len() && (#[trigger] found[i]) is Err {
                let i = choose|i: int| 0 <= i < found.len() && (#[trigger] found[i]) is Err;
                assert(rest[i - 1] is Err);
            }
            if exists|i: int| 0 <= i < rest.len() && (#[trigger] rest[i]) is Err {
                let i = choose|i: int| 0 <= i < rest.len() && (#[trigger] rest[i]) is Err;
                assert(found[i + 1] is Err);
            }
        }
    }
}

/// There is a first path without a version where there is one without a
/// version, and the reason is never that a path could not be read.
pub proof fn lemma_first_without_version(
    root: Seq<Seq<char>>,
    found: Seq<Result<Seq<Seq<char>>, Seq<char>>>,
)
    ensures
        first_without_version(root, found) is None <==> forall|i: int|
            0 <= i < found.len() ==> path_version(root, (#[trigger] found[i])->Ok_0) is Ok,
        !(first_without_version(root, found) matches Some(Problem::Glob(_))),
    decreases found.len(),
{
    if found.len() > 0 {
        let rest = found.drop_first();
        lemma_first_without_version(root, rest);
        if forall|i: int|
            0 <= i < rest.len() ==> path_version(root, (#[trigger] rest[i])->Ok_0) is Ok {
            assert forall|i: int| 0 < i < found.len() implies path_version(
                root,
                (#[trigger] found[i])->Ok_0,
            ) is Ok by {
                assert(rest[i - 1] == found[i]);
            }
        }
        if forall|i: int|
            0 <= i < found.len() ==> path_version(root, (#[trigger] found[i])->Ok_0) is Ok {
            assert forall|i: int| 0 <= i < rest.len() implies path_version(
                root,
                (#[trigger] rest[i])->Ok_0,
            ) is Ok by {
                assert(rest[i] == found[i + 1]);
            }
        }
    }
}

/// Find the paths to the Visual C++ Redistributable DLLs, on a host other than
/// Windows.
pub fn find_visual_cpp_redistributable(
    _version: &str,
    _platform: VCRedistributablePlatform,
) -> (result: Result<Vec<String>, WindowsError>)
    ensures
        result is Err,
        result->Err_0@ == Problem::<Seq<char>>::RedistributableUnsupported,
{
    Err(Problem::RedistributableUnsupported)
}

} // verus!
