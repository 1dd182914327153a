//! What can go wrong while looking for files on Windows.

use vstd::prelude::*;

verus! {

/// A reason for which a file could not be found.
///
/// `T` is the type of text: `String` in executable code and `Seq<char>` in
/// specifications.
#[derive(Debug, PartialEq, Eq)]
pub enum Problem<T> {
    /// There is no vswhere.exe outside of Windows.
    VswhereUnsupported,
    /// There is no Visual C++ Redistributable outside of Windows.
    RedistributableUnsupported,
    /// No candidate for vswhere.exe exists.
    VswhereNotFound,
    /// The output of vswhere.exe is not UTF-8, for this reason.
    OutputNotUtf8(T),
    /// The output of vswhere.exe does not end with a line break.
    UnterminatedOutput,
    /// A path could not be read, for this reason.
    Glob(T),
    /// A path does not lie below the directory that was searched.
    PrefixNotFound,
    /// A path has no component for a version.
    NoVersionComponent,
    /// A version could not be parsed, for this reason.
    Version(T),
    /// No Redistributable is installed.
    RedistributableNotFound,
}

/// A reason for which a file could not be found.
pub type WindowsError = Problem<String>;

impl View for Problem<String> {
    type V = Problem<Seq<char>>;

    open spec fn view(&self) -> Problem<Seq<char>> {
        match *self {
            Problem::VswhereUnsupported => Problem::VswhereUnsupported,
            Problem::RedistributableUnsupported => Problem::RedistributableUnsupported,
            Problem::VswhereNotFound => Problem::VswhereNotFound,
            Problem::OutputNotUtf8(reason) => Problem::OutputNotUtf8(reason@),
            Problem::UnterminatedOutput => Problem::UnterminatedOutput,
            Problem::Glob(reason) => Problem::Glob(reason@),
            Problem::PrefixNotFound => Problem::PrefixNotFound,
            Problem::NoVersionComponent => Problem::NoVersionComponent,
            Problem::Version(reason) => Problem::Version(reason@),
            Problem::RedistributableNotFound => Problem::RedistributableNotFound,
        }
    }
}

impl Problem<Seq<char>> {
    /// What the problem says.
    pub open spec fn text(self) -> Seq<char> {
        match self {
            Problem::VswhereUnsupported => "finding vswhere.exe only supported on Windows"@,
            Problem::RedistributableUnsupported => {
                "Finding the Visual C++ Redistributable is not supported outside of Windows"@
            },
            Problem::VswhereNotFound => "could not find vswhere.exe"@,
            Problem::OutputNotUtf8(reason) => reason,
            Problem::UnterminatedOutput => "unable to strip string"@,
            Problem::Glob(reason) => "glob error: "@ + reason,
            Problem::PrefixNotFound => "prefix not found"@,
            Problem::NoVersionComponent => {
                "unable to determine version component (this should not happen)"@
            },
            Problem::Version(reason) => reason,
            Problem::RedistributableNotFound => "unable to find install VC++ Redistributable"@,
        }
    }
}

impl Problem<String> {
    /// What the problem says.
    pub fn message(&self) -> (message: String)
        ensures
            message@ == self@.text(),
    {
        match self {
            Problem::VswhereUnsupported => {
                "finding vswhere.exe only supported on Windows".to_owned()
            },
            Problem::RedistributableUnsupported => {
                "Finding the Visual C++ Redistributable is not supported outside of Windows".to_owned()
            },
            Problem::VswhereNotFound => "could not find vswhere.exe".to_owned(),
            Problem::OutputNotUtf8(reason) => reason.clone(),
            Problem::UnterminatedOutput => "unable to strip string".to_owned(),
            Problem::Glob(reason) => {
                let mut message = "glob error: ".to_owned();
                message.append(reason.as_str());
                message
            },
            Problem::PrefixNotFound => "prefix not found".to_owned(),
            Problem::NoVersionComponent => {
                "unable to determine version component (this should not happen)".to_owned()
            },
            Problem::Version(reason) => reason.clone(),
            Problem::RedistributableNotFound => {
                "unable to find install VC++ Redistributable".to_owned()
            },
        }
    }
}

} // verus!
