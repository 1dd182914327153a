//! Locating vswhere.exe.

use vstd::prelude::*;

use crate::windows::error::{Problem, WindowsError};
use crate::windows::known_folder::KnownFolder;

verus! {

/// A place where vswhere.exe may be installed: a path below a known folder.
#[derive(Debug, PartialEq, Eq)]
pub struct Candidate<T> {
    /// The known folder.
    pub folder: KnownFolder,
    /// The path below it.
    pub path: T,
}

impl View for Candidate<String> {
    type V = Candidate<Seq<char>>;

    open spec fn view(&self) -> Candidate<Seq<char>> {
        Candidate { folder: self.folder, path: self.path@ }
    }
}

/// The candidates for vswhere.exe, the preferred one first.
pub open spec fn candidates() -> Seq<Candidate<Seq<char>>> {
    seq![
        Candidate {
            folder: KnownFolder::ProgramFilesX86,
            path: "Microsoft Visual Studio\\Installer\\vswhere.exe"@,
        },
        Candidate {
            folder: KnownFolder::ProgramData,
            path: "Microsoft Visual Studio\\Installer\\vswhere.exe"@,
        },
    ]
}

/// The candidate with this number.
pub fn vswhere_candidate(number: usize) -> (candidate: Option<Candidate<String>>)
    ensures
        match candidate {
            Some(candidate) => number < candidates().len() && candidate@ == candidates()[number as int],
            None => number >= candidates().len(),
        },
{
    if number == 0 {
        Some(
            Candidate {
                folder: KnownFolder::ProgramFilesX86,
                path: "Microsoft Visual Studio\\Installer\\vswhere.exe".to_owned(),
            },
        )
    } else if number == 1 {
        Some(
            Candidate {
                folder: KnownFolder::ProgramData,
                path: "Microsoft Visual Studio\\Installer\\vswhere.exe".to_owned(),
            },
        )
    } else {
        None
    }
}

/// What became of a candidate.
#[derive(Clone, Copy, Debug, PartialEq, Eq, Structural)]
pub enum Probe {
    /// The path of the known folder could not be obtained.
    FolderError,
    /// There is no such file.
    Missing,
    /// The file exists.
    Exists,
}

/// What a search for vswhere.exe has come to.
#[derive(Debug, PartialEq, Eq)]
pub enum Search<T> {
    /// The candidate with this number is to be looked at.
    Look(usize),
    /// The candidate with this number is the one.
    Found(usize),
    /// The search fails with the error of the known folder of the candidate
    /// with this number.
    FolderError(usize),
    /// The search fails.
    Failed(Problem<T>),
}

impl View for Search<String> {
    type V = Search<Seq<char>>;

    open spec fn view(&self) -> Search<Seq<char>> {
        match *self {
            Search::Look(number) => Search::Look(number),
            Search::Found(number) => Search::Found(number),
            Search::FolderError(number) => Search::FolderError(number),
            Search::Failed(problem) => Search::Failed(problem@),
        }
    }
}

/// What a search for vswhere.exe has come to before the candidate with this
/// number.
pub open spec fn search_from(number: int) -> Search<Seq<char>> {
    if 0 <= number < candidates().len() {
        Search::Look(number as usize)
    } else {
        Search::Failed(Problem::VswhereNotFound)
    }
}

/// What a search for vswhere.exe has come to after a candidate.
pub open spec fn search_after(number: int, probe: Probe) -> Search<Seq<char>> {
    match probe {
        Probe::FolderError => Search::FolderError(number as usize),
        Probe::Missing => search_from(number + 1),
        Probe::Exists => Search::Found(number as usize),
    }
}

/// Starts a search for vswhere.exe.
pub fn start_vswhere_search() -> (search: Search<String>)
    ensures
        search@ == search_from(0),
{
    Search::Look(0)
}

/// Goes on with a search for vswhere.exe after a candidate was looked at.
pub fn continue_vswhere_search(number: usize, probe: Probe) -> (search: Search<String>)
    requires
        number < candidates().len(),
    ensures
        search@ == search_after(number as int, probe),
{
    match probe {
        Probe::FolderError => Search::FolderError(number),
        Probe::Exists => Search::Found(number),
        Probe::Missing => if number == 0 {
            Search::Look(1)
        } else {
            Search::Failed(Problem::VswhereNotFound)
        },
    }
}

/// What a whole search comes to, where `probes` says what becomes of each
/// candidate.
pub open spec fn search_result(probes: spec_fn(int) -> Probe, from: int) -> Search<Seq<char>>
    decreases candidates().len() - from,
{
    if 0 <= from < candidates().len() {
        if probes(from) == Probe::Missing {
            search_result(probes, from + 1)
        } else {
            search_after(from, probes(from))
        }
    } else {
        search_from(from)
    }
}

/// Whether the first `count` candidates are missing.
pub open spec fn first_missing(probes: spec_fn(int) -> Probe, count: int) -> bool {
    forall|i: int| 0 <= i < count ==> #[trigger] probes(i) == Probe::Missing
}

/// A search finds the first candidate that exists, fails at the first known
/// folder that has no path before that, and finds nothing only where every
/// candidate is missing.
pub proof fn law_first_candidate_wins(probes: spec_fn(int) -> Probe, number: int)
    requires
        0 <= number < candidates().len(),
    ensures
        search_result(probes, 0) == Search::<Seq<char>>::Found(number as usize) <==> probes(number)
            == Probe::Exists && first_missing(probes, number),
        search_result(probes, 0) == Search::<Seq<char>>::FolderError(number as usize) <==> probes(
            number,
        ) == Probe::FolderError && first_missing(probes, number),
        search_result(probes, 0) == Search::<Seq<char>>::Failed(Problem::VswhereNotFound)
            <==> first_missing(probes, candidates().len() as int),
{
    reveal_with_fuel(search_result, 3);
    assert(candidates().len() == 2);
    let first = probes(0);
    let second = probes(1);
}

/// Attempt to locate vswhere.exe, on a host other than Windows.
pub fn find_vswhere() -> (result: Result<String, WindowsError>)
    ensures
        result is Err,
        result->Err_0@ == Problem::<Seq<char>>::VswhereUnsupported,
{
    Err(Problem::VswhereUnsupported)
}

} // verus!
