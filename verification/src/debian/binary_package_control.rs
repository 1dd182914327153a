//! Debian binary package control files.

use vstd::prelude::*;

use crate::debian::control;
use crate::debian::control::{ControlField, ControlParagraph, Fields};
use crate::debian::dependency;
use crate::debian::dependency::{Dependency, DependencyError, DependencyList, DependencyProblem};
use crate::debian::number;
use crate::debian::number::{parse_usize, IntegerError};
use crate::debian::package_version;
use crate::debian::package_version::{PackageVersion, Version, VersionError, VersionProblem};
use crate::text;
use crate::text::same_text;

verus! {

/// What is wrong with a control file.
#[derive(Debug, PartialEq, Eq)]
pub enum BinaryPackageControlError {
    /// A required field is missing.
    RequiredFieldMissing(&'static str),
    /// A number could not be parsed.
    IntegerParse(IntegerError),
    /// A list of dependencies could not be parsed.
    Depends(DependencyError),
    /// A version could not be parsed.
    Version(VersionError),
}

/// The outcome of reading a control file.
pub type Result<T> = core::result::Result<T, BinaryPackageControlError>;

impl From<IntegerError> for BinaryPackageControlError {
    fn from(error: IntegerError) -> (problem: BinaryPackageControlError) {
        BinaryPackageControlError::IntegerParse(error)
    }
}

impl vstd::std_specs::convert::FromSpecImpl<IntegerError> for BinaryPackageControlError {
    open spec fn obeys_from_spec() -> bool {
        true
    }

    open spec fn from_spec(error: IntegerError) -> BinaryPackageControlError {
        BinaryPackageControlError::IntegerParse(error)
    }
}

impl From<DependencyError> for BinaryPackageControlError {
    fn from(error: DependencyError) -> (problem: BinaryPackageControlError) {
        BinaryPackageControlError::Depends(error)
    }
}

impl vstd::std_specs::convert::FromSpecImpl<DependencyError> for BinaryPackageControlError {
    open spec fn obeys_from_spec() -> bool {
        true
    }

    open spec fn from_spec(error: DependencyError) -> BinaryPackageControlError {
        BinaryPackageControlError::Depends(error)
    }
}

impl From<VersionError> for BinaryPackageControlError {
    fn from(error: VersionError) -> (problem: BinaryPackageControlError) {
        BinaryPackageControlError::Version(error)
    }
}

impl vstd::std_specs::convert::FromSpecImpl<VersionError> for BinaryPackageControlError {
    open spec fn obeys_from_spec() -> bool {
        true
    }

    open spec fn from_spec(error: VersionError) -> BinaryPackageControlError {
        BinaryPackageControlError::Version(error)
    }
}

/// What is wrong with a control file, with texts as sequences of characters.
pub enum ControlProblem {
    /// A required field is missing.
    RequiredFieldMissing(Seq<char>),
    /// A number could not be parsed.
    IntegerParse(IntegerError),
    /// A list of dependencies could not be parsed.
    Depends(DependencyProblem<Seq<char>>),
    /// A version could not be parsed.
    Version(VersionProblem<Seq<char>>),
}

/// The outcome of reading a control file, with texts as sequences of characters.
pub type Reading<T> = core::result::Result<T, ControlProblem>;

impl View for BinaryPackageControlError {
    type V = ControlProblem;

    open spec fn view(&self) -> ControlProblem {
        match *self {
            BinaryPackageControlError::RequiredFieldMissing(field) => {
                ControlProblem::RequiredFieldMissing(field@)
            },
            BinaryPackageControlError::IntegerParse(error) => ControlProblem::IntegerParse(error),
            BinaryPackageControlError::Depends(problem) => ControlProblem::Depends(problem@),
            BinaryPackageControlError::Version(problem) => ControlProblem::Version(problem@),
        }
    }
}

impl ControlProblem {
    /// What the problem says.
    pub open spec fn text(self) -> Seq<char> {
        match self {
            ControlProblem::RequiredFieldMissing(field) => "required field missing: "@ + field,
            ControlProblem::IntegerParse(error) => "integer parsing error: "@ + error.text(),
            ControlProblem::Depends(problem) => "dependency error: "@ + problem.debug_form(),
            ControlProblem::Version(problem) => "version error: "@ + problem.debug_form(),
        }
    }
}

/// Two texts in a row.
fn joined(first: &str, second: &str) -> (text: String)
    ensures
        text@ == first@ + second@,
{
    let mut text = first.to_owned();
    text.append(second);
    text
}

impl BinaryPackageControlError {
    /// What the problem says.
    pub fn message(&self) -> (message: String)
        ensures
            message@ == self@.text(),
    {
        match self {
            BinaryPackageControlError::RequiredFieldMissing(field) => {
                joined("required field missing: ", field)
            },
            BinaryPackageControlError::IntegerParse(error) => {
                joined("integer parsing error: ", error.message())
            },
            BinaryPackageControlError::Depends(problem) => {
                joined("dependency error: ", problem.debug_text().as_str())
            },
            BinaryPackageControlError::Version(problem) => {
                joined("version error: ", problem.debug_text().as_str())
            },
        }
    }
}

/// The value of a required field, or that it is missing.
pub open spec fn required(fields: Fields, name: Seq<char>) -> Reading<Seq<char>> {
    match control::first_value(fields, name) {
        Some(value) => Ok(value),
        None => Err(ControlProblem::RequiredFieldMissing(name)),
    }
}

/// The text of a field, or what is wrong.
pub open spec fn text_result(result: Result<&str>) -> Reading<Seq<char>> {
    match result {
        Ok(value) => Ok(value@),
        Err(problem) => Err(problem@),
    }
}

/// The version of a package, or what is wrong with it.
pub open spec fn version_field(fields: Fields) -> Reading<Version> {
    match control::first_value(fields, "Version"@) {
        Some(value) => match package_version::parse_version(value) {
            Ok(version) => Ok(version),
            Err(problem) => Err(ControlProblem::Version(problem)),
        },
        None => Err(ControlProblem::RequiredFieldMissing("Version"@)),
    }
}

/// The contents of a version, or what is wrong.
pub open spec fn version_result(
    result: Result<PackageVersion>,
) -> Reading<Version> {
    match result {
        Ok(version) => Ok(version@),
        Err(problem) => Err(problem@),
    }
}

/// The installed size of a package, where there is such a field, or why it is
/// not a number.
pub open spec fn size_field(fields: Fields) -> Option<Reading<nat>> {
    match control::first_value(fields, "Installed-Size"@) {
        Some(value) => Some(
            if number::is_unsigned(value) && number::number_value(number::without_plus(value))
                <= usize::MAX {
                Ok(number::number_value(number::without_plus(value)))
            } else {
                Err(ControlProblem::IntegerParse(number::usize_error(value, usize::MAX)))
            },
        ),
        None => None,
    }
}

/// The installed size, or what is wrong.
pub open spec fn size_result(
    result: Option<Result<usize>>,
) -> Option<Reading<nat>> {
    match result {
        Some(Ok(size)) => Some(Ok(size as nat)),
        Some(Err(problem)) => Some(Err(problem@)),
        None => None,
    }
}

/// The dependencies in the field of this name, where there is such a field, or
/// what is wrong with them.
pub open spec fn dependency_field(
    fields: Fields,
    name: Seq<char>,
) -> Option<Reading<Seq<Seq<Dependency>>>> {
    match control::first_value(fields, name) {
        Some(value) => Some(
            match dependency::parse_list(value) {
                Ok(dependencies) => Ok(dependencies),
                Err(problem) => Err(ControlProblem::Depends(problem)),
            },
        ),
        None => None,
    }
}

/// The contents of a list of dependencies, or what is wrong.
pub open spec fn dependency_result(
    result: Option<Result<DependencyList>>,
) -> Option<Reading<Seq<Seq<Dependency>>>> {
    match result {
        Some(Ok(list)) => Some(Ok(list@)),
        Some(Err(problem)) => Some(Err(problem@)),
        None => None,
    }
}

/// A Debian binary package control file.
///
/// See [https://www.debian.org/doc/debian-policy/ch-controlfields.html#binary-package-control-files-debian-control].
///
/// Binary package control files are defined by a single paragraph with well-defined
/// fields. This type is a low-level wrapper around an inner [ControlParagraph].
#[derive(Debug)]
pub struct BinaryPackageControlFile<'a> {
    paragraph: ControlParagraph<'a>,
}

impl<'a> View for BinaryPackageControlFile<'a> {
    type V = Fields;

    open spec fn view(&self) -> Fields {
        self.paragraph()@
    }
}

impl<'a> Clone for BinaryPackageControlFile<'a> {
    fn clone(&self) -> (copy: BinaryPackageControlFile<'a>)
        ensures
            copy@ == self@,
    {
        BinaryPackageControlFile { paragraph: self.paragraph.clone() }
    }
}

impl<'a> AsRef<ControlParagraph<'a>> for BinaryPackageControlFile<'a> {
    fn as_ref(&self) -> (paragraph: &ControlParagraph<'a>)
        ensures
            *paragraph == self.paragraph(),
    {
        &self.paragraph
    }
}

impl<'a> AsMut<ControlParagraph<'a>> for BinaryPackageControlFile<'a> {
    fn as_mut(&mut self) -> (paragraph: &mut ControlParagraph<'a>)
        ensures
            *paragraph == old(self).paragraph(),
            final(self).paragraph() == *final(paragraph),
    {
        &mut self.paragraph
    }
}

impl<'a> From<ControlParagraph<'a>> for BinaryPackageControlFile<'a> {
    fn from(paragraph: ControlParagraph<'a>) -> (file: BinaryPackageControlFile<'a>)
        ensures
            file.paragraph() == paragraph,
    {
        BinaryPackageControlFile { paragraph }
    }
}

impl<'a> vstd::std_specs::convert::FromSpecImpl<ControlParagraph<'a>> for BinaryPackageControlFile<'a> {
    open spec fn obeys_from_spec() -> bool {
        true
    }

    closed spec fn from_spec(paragraph: ControlParagraph<'a>) -> BinaryPackageControlFile<'a> {
        BinaryPackageControlFile { paragraph }
    }
}

impl<'a> BinaryPackageControlFile<'a> {
    /// The paragraph of the file.
    pub closed spec fn paragraph(&self) -> ControlParagraph<'a> {
        self.paragraph
    }

    /// Obtain the first occurrence of the given field.
    pub fn first_field(&self, name: &str) -> (field: Option<&ControlField<'a>>)
        ensures
            match field {
                Some(field) => control::first_field(self@, name@) == Some(field@),
                None => control::first_field(self@, name@) is None,
            },
    {
        self.paragraph.first_field(name)
    }

    /// Obtain the string value of the first occurrence of the given field.
    pub fn first_field_str(&self, name: &str) -> (value: Option<&str>)
        ensures
            text::optional_slice(value) == control::first_value(self@, name@),
    {
        self.paragraph.first_field_str(name)
    }

    /// Obtain the first value of a field, evaluated as a boolean.
    ///
    /// The field is [true] iff its string value is `yes`.
    pub fn first_field_bool(&self, name: &str) -> (value: Option<bool>)
        ensures
            value == (match control::first_value(self@, name@) {
                Some(text) => Some(text == "yes"@),
                None => None,
            }),
    {
        match self.paragraph.first_field_str(name) {
            Some(text) => Some(same_text(text, "yes")),
            None => None,
        }
    }

    /// Obtain the string value of a field that has to be there.
    fn required_field(&self, field: &'static str) -> (value: Result<&str>)
        ensures
            text_result(value) == required(self@, field@),
    {
        match self.paragraph.first_field_str(field) {
            Some(value) => Ok(value),
            None => Err(BinaryPackageControlError::RequiredFieldMissing(field)),
        }
    }

    /// The `Package` field.
    pub fn package(&self) -> (value: Result<&str>)
        ensures
            text_result(value) == required(self@, "Package"@),
    {
        self.required_field("Package")
    }

    /// The `Version` field as its original string.
    pub fn version_str(&self) -> (value: Result<&str>)
        ensures
            text_result(value) == required(self@, "Version"@),
    {
        self.required_field("Version")
    }

    /// The `Version` field parsed into a [PackageVersion].
    pub fn version(&self) -> (version: Result<PackageVersion>)
        ensures
            version_result(version) == version_field(self@),
    {
        match self.version_str() {
            Ok(value) => match PackageVersion::parse(value) {
                Ok(version) => Ok(version),
                Err(problem) => Err(BinaryPackageControlError::from(problem)),
            },
            Err(problem) => Err(problem),
        }
    }

    /// The `Architecture` field.
    pub fn architecture(&self) -> (value: Result<&str>)
        ensures
            text_result(value) == required(self@, "Architecture"@),
    {
        self.required_field("Architecture")
    }

    /// The `Maintainer` field.
    pub fn maintainer(&self) -> (value: Result<&str>)
        ensures
            text_result(value) == required(self@, "Maintainer"@),
    {
        self.required_field("Maintainer")
    }

    /// The `Description` field.
    pub fn description(&self) -> (value: Result<&str>)
        ensures
            text_result(value) == required(self@, "Description"@),
    {
        self.required_field("Description")
    }

    /// The `Source` field.
    pub fn source(&self) -> (value: Option<&str>)
        ensures
            text::optional_slice(value) == control::first_value(self@, "Source"@),
    {
        self.paragraph.first_field_str("Source")
    }

    /// The `Section` field.
    pub fn section(&self) -> (value: Option<&str>)
        ensures
            text::optional_slice(value) == control::first_value(self@, "Section"@),
    {
        self.paragraph.first_field_str("Section")
    }

    /// The `Priority` field.
    pub fn priority(&self) -> (value: Option<&str>)
        ensures
            text::optional_slice(value) == control::first_value(self@, "Priority"@),
    {
        self.paragraph.first_field_str("Priority")
    }

    /// The `Essential` field.
    pub fn essential(&self) -> (value: Option<&str>)
        ensures
            text::optional_slice(value) == control::first_value(self@, "Essential"@),
    {
        self.paragraph.first_field_str("Essential")
    }

    /// The `Homepage` field.
    pub fn homepage(&self) -> (value: Option<&str>)
        ensures
            text::optional_slice(value) == control::first_value(self@, "Homepage"@),
    {
        self.paragraph.first_field_str("Homepage")
    }

    /// The `Installed-Size` field, parsed into a number.
    pub fn installed_size(&self) -> (size: Option<Result<usize>>)
        ensures
            size_result(size) == size_field(self@),
            size matches Some(Err(problem)) ==> problem is IntegerParse
                && problem->IntegerParse_0.explains(
                control::first_value(self@, "Installed-Size"@)->0,
            ),
    {
        match self.paragraph.first_field_str("Installed-Size") {
            Some(value) => Some(
                match parse_usize(value) {
                    Ok(size) => Ok(size),
                    Err(error) => Err(BinaryPackageControlError::from(error)),
                },
            ),
            None => None,
        }
    }

    /// The `Built-Using` field.
    pub fn built_using(&self) -> (value: Option<&str>)
        ensures
            text::optional_slice(value) == control::first_value(self@, "Built-Using"@),
    {
        self.paragraph.first_field_str("Built-Using")
    }

    /// The dependencies in the field of this name.
    fn dependency_field(&self, name: &str) -> (list: Option<Result<DependencyList>>)
        ensures
            dependency_result(list) == dependency_field(self@, name@),
    {
        match self.paragraph.first_field_str(name) {
            Some(value) => Some(
                match DependencyList::parse(value) {
                    Ok(list) => Ok(list),
                    Err(problem) => Err(BinaryPackageControlError::from(problem)),
                },
            ),
            None => None,
        }
    }

    /// The `Depends` field, parsed into a [DependencyList].
    pub fn depends(&self) -> (list: Option<Result<DependencyList>>)
        ensures
            dependency_result(list) == dependency_field(self@, "Depends"@),
    {
        self.dependency_field("Depends")
    }

    /// The `Recommends` field, parsed into a [DependencyList].
    pub fn recommended(&self) -> (list: Option<Result<DependencyList>>)
        ensures
            dependency_result(list) == dependency_field(self@, "Recommends"@),
    {
        self.dependency_field("Recommends")
    }

    /// The `Suggests` field, parsed into a [DependencyList].
    pub fn suggests(&self) -> (list: Option<Result<DependencyList>>)
        ensures
            dependency_result(list) == dependency_field(self@, "Suggests"@),
    {
        self.dependency_field("Suggests")
    }

    /// The `Enhances` field, parsed into a [DependencyList].
    pub fn enhances(&self) -> (list: Option<Result<DependencyList>>)
        ensures
            dependency_result(list) == dependency_field(self@, "Enhances"@),
    {
        self.dependency_field("Enhances")
    }

    /// The `Pre-Depends` field, parsed into a [DependencyList].
    pub fn pre_depends(&self) -> (list: Option<Result<DependencyList>>)
        ensures
            dependency_result(list) == dependency_field(self@, "Pre-Depends"@),
    {
        self.dependency_field("Pre-Depends")
    }
}

/// A required field is reported as missing exactly where there is no field of
/// its name.
pub proof fn law_required_field(fields: Fields, name: Seq<char>)
    ensures
        required(fields, name) is Ok <==> exists|i: int|
            0 <= i < fields.len() && (#[trigger] fields[i]).0 == name,
        required(fields, name) is Err ==> required(fields, name)->Err_0
            == ControlProblem::RequiredFieldMissing(name),
{
    control::law_field_is_found(fields, name);
}

/// The parsed version comes from the version string: there is one exactly where
/// there is a string that is a version.
pub proof fn law_version_is_parsed_version_str(fields: Fields)
    ensures
        version_field(fields) == (match required(fields, "Version"@) {
            Ok(value) => match package_version::parse_version(value) {
                Ok(version) => Ok(version),
                Err(problem) => Err(ControlProblem::Version(problem)),
            },
            Err(problem) => Err(problem),
        }),
{
}

/// A field that is added behind the others changes the value of no field that
/// was there before.
pub proof fn law_added_field_keeps_values(
    fields: Fields,
    field: (Seq<char>, Seq<char>),
    name: Seq<char>,
)
    requires
        control::first_value(fields, name) is Some,
    ensures
        control::first_value(fields.push(field), name) == control::first_value(fields, name),
        required(fields.push(field), name) == required(fields, name),
        dependency_field(fields.push(field), name) == dependency_field(fields, name),
        name == "Version"@ ==> version_field(fields.push(field)) == version_field(fields),
        name == "Installed-Size"@ ==> size_field(fields.push(field)) == size_field(fields),
{
    control::law_added_field(fields, field, name);
}

} // verus!
