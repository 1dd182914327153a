//! The paths of well-known folders.

use vstd::prelude::*;

verus! {

/// A folder that Windows knows the path of.
#[derive(Clone, Copy, Debug, PartialEq, Eq, Structural)]
pub enum KnownFolder {
    /// `FOLDERID_ProgramFilesX86`
    ProgramFilesX86,
    /// `FOLDERID_ProgramData`
    ProgramData,
}

/// The status of a query that succeeded.
pub const S_OK: i32 = 0;

/// The place of the first NUL in a string of UTF-16 code units, or its length.
pub open spec fn terminator(units: Seq<u16>) -> int
    decreases units.len(),
{
    if units.len() == 0 || units[0] == 0 {
        0
    } else {
        1 + terminator(units.drop_first())
    }
}

/// What has been read of a string after one more unit, and whether its end has
/// been read. A NUL ends the string, and nothing counts behind it.
pub open spec fn after_unit(units: Seq<u16>, complete: bool, unit: u16) -> (Seq<u16>, bool) {
    if complete {
        (units, true)
    } else if unit == 0 {
        (units, true)
    } else {
        (units.push(unit), false)
    }
}

/// What has been read of a string after all these units, and whether its end
/// has been read.
pub open spec fn after_units(string: Seq<u16>) -> (Seq<u16>, bool)
    decreases string.len(),
{
    if string.len() == 0 {
        (Seq::empty(), false)
    } else {
        let (units, complete) = after_units(string.drop_last());
        after_unit(units, complete, string.last())
    }
}

/// The path of a known folder, as far as it has been read.
#[derive(Debug)]
pub struct KnownFolderPath {
    units: Vec<u16>,
    complete: bool,
}

impl KnownFolderPath {
    /// The UTF-16 code units of the path that have been read.
    pub closed spec fn units(&self) -> Seq<u16> {
        self.units@
    }

    /// Whether the end of the path has been read.
    pub closed spec fn complete(&self) -> bool {
        self.complete
    }

    /// Starts to read the path that a query with this status has returned.
    /// There is one where the query succeeded.
    pub fn from_status(status: i32) -> (path: Option<KnownFolderPath>)
        ensures
            path is Some <==> status == S_OK,
            path is Some ==> path->0.units() == Seq::<u16>::empty() && !path->0.complete(),
    {
        if status == S_OK {
            Some(KnownFolderPath { units: Vec::new(), complete: false })
        } else {
            None
        }
    }

    /// The unit of the string that has to be read next, unless its end has been
    /// read.
    pub fn next_unit(&self) -> (next: Option<usize>)
        ensures
            next == (if self.complete() {
                None
            } else {
                Some(self.units().len() as usize)
            }),
    {
        if self.complete {
            None
        } else {
            Some(self.units.len())
        }
    }

    /// Takes the next unit of the string. A NUL ends it.
    pub fn read(&mut self, unit: u16)
        ensures
            (final(self).units(), final(self).complete()) == after_unit(
                old(self).units(),
                old(self).complete(),
                unit,
            ),
    {
        if !self.complete {
            if unit == 0 {
                self.complete = true;
            } else {
                self.units.push(unit);
            }
        }
    }

    /// The UTF-16 code units of the path.
    pub fn into_units(self) -> (units: Vec<u16>)
        ensures
            units@ == self.units(),
    {
        self.units
    }
}

/// Where the first NUL of a string stands after one unit was added to it.
proof fn lemma_terminator_push(string: Seq<u16>, unit: u16)
    ensures
        0 <= terminator(string) <= string.len(),
        terminator(string.push(unit)) == (if terminator(string) < string.len() || unit == 0 {
            terminator(string)
        } else {
            terminator(string) + 1
        }),
    decreases string.len(),
{
    if string.len() > 0 {
        assert(string.push(unit).drop_first() =~= string.drop_first().push(unit));
        lemma_terminator_push(string.drop_first(), unit);
    } else {
        assert(string.push(unit).drop_first() =~= Seq::<u16>::empty());
        assert(terminator(string.push(unit).drop_first()) == 0);
    }
}

/// However many units of a string are read, the path is the string up to its
/// first NUL, and it is complete once that NUL was read.
pub proof fn law_path_ends_at_first_nul(string: Seq<u16>)
    ensures
        after_units(string) == (
            string.take(terminator(string)),
            terminator(string) < string.len(),
        ),
    decreases string.len(),
{
    if string.len() == 0 {
        assert(string.take(0) =~= Seq::<u16>::empty());
    } else {
        let before = string.drop_last();
        law_path_ends_at_first_nul(before);
        lemma_terminator_push(before, string.last());
        assert(before.push(string.last()) =~= string);
        assert(after_units(string).0 =~= string.take(terminator(string)));
    }
}

} // verus!
