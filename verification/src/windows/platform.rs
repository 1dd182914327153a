//! The platforms of the Visual C++ Redistributable.

use vstd::prelude::*;

use crate::text::same_text;

verus! {

/// Available VC++ Redistributable platforms we can add to the bundle.
#[derive(Debug, PartialEq, Eq)]
pub enum VCRedistributablePlatform {
    X86,
    X64,
    Arm64,
}

impl VCRedistributablePlatform {
    /// The name of the platform.
    pub open spec fn name(&self) -> Seq<char> {
        match self {
            VCRedistributablePlatform::X86 => "x86"@,
            VCRedistributablePlatform::X64 => "x64"@,
            VCRedistributablePlatform::Arm64 => "arm64"@,
        }
    }

    /// The name of the platform.
    pub fn to_string(&self) -> (name: String)
        ensures
            name@ == self.name(),
    {
        match self {
            VCRedistributablePlatform::X86 => "x86".to_owned(),
            VCRedistributablePlatform::X64 => "x64".to_owned(),
            VCRedistributablePlatform::Arm64 => "arm64".to_owned(),
        }
    }
}

/// The platform of this name, or why there is none.
pub open spec fn platform_named(name: Seq<char>) -> Result<VCRedistributablePlatform, Seq<char>> {
    if name == "x86"@ {
        Ok(VCRedistributablePlatform::X86)
    } else if name == "x64"@ {
        Ok(VCRedistributablePlatform::X64)
    } else if name == "arm64"@ {
        Ok(VCRedistributablePlatform::Arm64)
    } else {
        Err(name + " is not a valid platform; use 'x86', 'x64', or 'arm64'"@)
    }
}

impl TryFrom<&str> for VCRedistributablePlatform {
    type Error = String;

    fn try_from(value: &str) -> (result: Result<Self, String>)
        ensures
            match result {
                Ok(platform) => platform_named(value@) == Ok::<_, Seq<char>>(platform),
                Err(reason) => platform_named(value@)
                    == Err::<VCRedistributablePlatform, _>(reason@),
            },
    {
        if same_text(value, "x86") {
            Ok(VCRedistributablePlatform::X86)
        } else if same_text(value, "x64") {
            Ok(VCRedistributablePlatform::X64)
        } else if same_text(value, "arm64") {
            Ok(VCRedistributablePlatform::Arm64)
        } else {
            let mut reason = value.to_owned();
            reason.append(" is not a valid platform; use 'x86', 'x64', or 'arm64'");
            Err(reason)
        }
    }
}

/// What `try_from` returns is stated by its own contract, over the text of the
/// error; no value of `String` is singled out here.
impl vstd::std_specs::convert::TryFromSpecImpl<&str> for VCRedistributablePlatform {
    open spec fn obeys_try_from_spec() -> bool {
        false
    }

    open spec fn try_from_spec(value: &str) -> Result<Self, String> {
        arbitrary()
    }
}

/// A platform is found again under its name, and under no other.
pub proof fn law_platform_names(name: Seq<char>, platform: VCRedistributablePlatform)
    ensures
        platform_named(name) == Ok::<_, Seq<char>>(platform) <==> name == platform.name(),
{
    reveal_strlit("x86");
    reveal_strlit("x64");
    reveal_strlit("arm64");
    assert("x86"@[1] == '8');
    assert("x64"@[1] == '6');
    assert("arm64"@.len() == 5);
}

} // verus!
