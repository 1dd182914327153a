use pyoxidizer::debian::binary_package_control::{
    BinaryPackageControlError, BinaryPackageControlFile,
};
use pyoxidizer::debian::binary_package_control as control_file;
use pyoxidizer::debian::control::{ControlField, ControlParagraph};
use pyoxidizer::debian::dependency::{
    DependencyError, DependencyList, SingleDependency, VersionRelationship,
};
use pyoxidizer::debian::number::{digits_to_u32, IntegerError};
use pyoxidizer::debian::package_version::{PackageVersion, VersionError};
use pyoxidizer::debian::syntax::{split, trimmed};

fn file(fields: &[(&'static str, &'static str)]) -> BinaryPackageControlFile<'static> {
    let mut paragraph = ControlParagraph::new();
    for (name, value) in fields {
        paragraph.add_field(ControlField::new(name, value));
    }
    BinaryPackageControlFile::from(paragraph)
}

fn parsed(version: &str) -> (Option<u32>, String, Option<String>) {
    let version = PackageVersion::parse(version).unwrap();
    (version.epoch, version.upstream_version, version.debian_revision)
}

#[test]
fn first_occurrence_of_a_field_counts() {
    let file = file(&[("Package", "zlib"), ("X", "1"), ("X", "2")]);
    assert_eq!(file.first_field_str("X"), Some("1"));
    assert_eq!(file.first_field_str("Y"), None);
    assert_eq!(file.first_field("X").unwrap().name(), "X");
    assert_eq!(file.first_field("X").unwrap().as_str(), "1");
    assert!(file.first_field("x").is_none());
}

#[test]
fn added_field_hides_nothing() {
    let mut file = file(&[("X", "1")]);
    file.as_mut().add_field(ControlField::new("X", "2"));
    file.as_mut().add_field(ControlField::new("Y", "3"));
    assert_eq!(file.first_field_str("X"), Some("1"));
    assert_eq!(file.first_field_str("Y"), Some("3"));
    assert_eq!(file.as_ref().first_field_str("Y"), Some("3"));
    assert_eq!(file.clone().first_field_str("Y"), Some("3"));
}

#[test]
fn booleans_are_true_iff_yes() {
    let file = file(&[("A", "yes"), ("B", "no"), ("C", "Yes"), ("D", "")]);
    assert_eq!(file.first_field_bool("A"), Some(true));
    assert_eq!(file.first_field_bool("B"), Some(false));
    assert_eq!(file.first_field_bool("C"), Some(false));
    assert_eq!(file.first_field_bool("D"), Some(false));
    assert_eq!(file.first_field_bool("E"), None);
}

#[test]
fn required_fields() {
    let full = file(&[
        ("Package", "p"),
        ("Version", "1.0"),
        ("Architecture", "amd64"),
        ("Maintainer", "m"),
        ("Description", "d"),
    ]);
    assert_eq!(full.package(), Ok("p"));
    assert_eq!(full.version_str(), Ok("1.0"));
    assert_eq!(full.architecture(), Ok("amd64"));
    assert_eq!(full.maintainer(), Ok("m"));
    assert_eq!(full.description(), Ok("d"));
    let empty = file(&[]);
    let missing = BinaryPackageControlError::RequiredFieldMissing;
    assert_eq!(empty.package(), Err(missing("Package")));
    assert_eq!(empty.version_str(), Err(missing("Version")));
    assert_eq!(empty.version(), Err(missing("Version")));
    assert_eq!(empty.architecture(), Err(missing("Architecture")));
    assert_eq!(empty.maintainer(), Err(missing("Maintainer")));
    assert_eq!(empty.description(), Err(missing("Description")));
}

#[test]
fn optional_fields() {
    let full = file(&[
        ("Source", "s"),
        ("Section", "t"),
        ("Priority", "u"),
        ("Essential", "yes"),
        ("Homepage", "w"),
        ("Built-Using", "x"),
    ]);
    assert_eq!(full.source(), Some("s"));
    assert_eq!(full.section(), Some("t"));
    assert_eq!(full.priority(), Some("u"));
    assert_eq!(full.essential(), Some("yes"));
    assert_eq!(full.homepage(), Some("w"));
    assert_eq!(full.built_using(), Some("x"));
    let empty = file(&[]);
    assert_eq!(empty.source(), None);
    assert_eq!(empty.section(), None);
    assert_eq!(empty.priority(), None);
    assert_eq!(empty.essential(), None);
    assert_eq!(empty.homepage(), None);
    assert_eq!(empty.built_using(), None);
}

#[test]
fn installed_size_is_a_number() {
    let size = |value: &'static str| file(&[("Installed-Size", value)]).installed_size();
    assert_eq!(size("1234"), Some(Ok(1234)));
    assert_eq!(size("+7"), Some(Ok(7)));
    assert_eq!(size("007"), Some(Ok(7)));
    assert_eq!(size("18446744073709551615"), Some(Ok(18446744073709551615)));
    let error = |kind| Some(Err(BinaryPackageControlError::IntegerParse(kind)));
    assert_eq!(size(""), error(IntegerError::Empty));
    assert_eq!(size("+"), error(IntegerError::InvalidDigit));
    assert_eq!(size(" 1"), error(IntegerError::InvalidDigit));
    assert_eq!(size("-1"), error(IntegerError::InvalidDigit));
    assert_eq!(size("12k"), error(IntegerError::InvalidDigit));
    assert_eq!(size("18446744073709551616"), error(IntegerError::PosOverflow));
    assert_eq!(file(&[]).installed_size(), None);
}

#[test]
fn problems_have_texts() {
    let error = |field, value| file(&[(field, value)]);
    assert_eq!(
        error("Package", "a").architecture().unwrap_err().message(),
        "required field missing: Architecture"
    );
    let size = |value| error("Installed-Size", value).installed_size().unwrap().unwrap_err();
    assert_eq!(
        size("").message(),
        "integer parsing error: cannot parse integer from empty string"
    );
    assert_eq!(size(" 5").message(), "integer parsing error: invalid digit found in string");
    assert_eq!(
        size("18446744073709551616").message(),
        "integer parsing error: number too large to fit in target type"
    );
    let depends = |value| error("Depends", value).depends().unwrap().unwrap_err().message();
    assert_eq!(depends("a \"b"), "dependency error: DependencyParse(\"a \\\"b\")");
    assert_eq!(
        depends("a (= 1_0)"),
        "dependency error: Version(UpstreamVersionIllegalChar(\"1_0\"))"
    );
    let version = |value| error("Version", value).version().unwrap_err();
    assert_eq!(version("1-2_3").message(), "version error: DebianRevisionIllegalChar(\"1-2_3\")");
    for value in ["x:1", ":1", "1_0", "1-\t"] {
        match version(value) {
            BinaryPackageControlError::Version(problem) => {
                assert_eq!(problem.debug_text(), format!("{:?}", problem));
            }
            other => panic!("{:?}", other),
        }
    }
    for (kind, value) in [(IntegerError::Empty, ""), (IntegerError::InvalidDigit, "x")] {
        let std_error = value.parse::<usize>().unwrap_err();
        assert_eq!(kind.message(), std_error.to_string());
    }
}

#[test]
fn wrapped_errors_convert() {
    let version = || VersionError::EpochNonNumeric("a:1".to_string());
    let dependency = || DependencyError::DependencyParse("a b".to_string());
    assert_eq!(
        BinaryPackageControlError::from(IntegerError::Empty),
        BinaryPackageControlError::IntegerParse(IntegerError::Empty)
    );
    assert_eq!(
        BinaryPackageControlError::from(dependency()),
        BinaryPackageControlError::Depends(dependency())
    );
    assert_eq!(
        BinaryPackageControlError::from(version()),
        BinaryPackageControlError::Version(version())
    );
    let parse = |text: &str| -> control_file::Result<PackageVersion> {
        Ok(PackageVersion::parse(text)?)
    };
    assert_eq!(parse("a:1"), Err(BinaryPackageControlError::Version(version())));
    assert_eq!(parse("1").unwrap().upstream_version, "1");
}

#[test]
fn paragraph_round_trips() {
    let mut first = file(&[("Package", "a"), ("Installed-Size", "12 kB")]);
    let mut other = ControlParagraph::new();
    other.add_field(ControlField::new("Installed-Size", "x"));
    other.add_field(ControlField::new("Package", "b"));
    *first.as_mut() = other.clone();
    let second = BinaryPackageControlFile::from(other);
    assert_eq!(first.package(), second.package());
    assert_eq!(first.installed_size(), second.installed_size());
    assert_eq!(first.architecture(), second.architecture());
}

#[test]
fn version_is_parsed() {
    let file = file(&[("Version", "1:2.3-4")]);
    let version = file.version().unwrap();
    assert_eq!(version.epoch, Some(1));
    assert_eq!(version.upstream_version, "2.3");
    assert_eq!(version.debian_revision, Some("4".to_string()));
}

#[test]
fn invalid_version_is_reported() {
    let file = file(&[("Version", "1.0_1")]);
    assert_eq!(file.version_str(), Ok("1.0_1"));
    assert_eq!(
        file.version(),
        Err(BinaryPackageControlError::Version(
            VersionError::UpstreamVersionIllegalChar("1.0_1".to_string())
        ))
    );
}

#[test]
fn versions_fall_into_parts() {
    assert_eq!(parsed("1.0"), (None, "1.0".to_string(), None));
    assert_eq!(parsed("0:1.0"), (Some(0), "1.0".to_string(), None));
    assert_eq!(parsed("1.0-2"), (None, "1.0".to_string(), Some("2".to_string())));
    assert_eq!(parsed("1.0-rc1-2"), (None, "1.0-rc1".to_string(), Some("2".to_string())));
    assert_eq!(parsed("3:a:b-1~x+y.z"), (
        Some(3),
        "a:b".to_string(),
        Some("1~x+y.z".to_string())
    ));
}

#[test]
fn versions_that_are_none_are_refused() {
    let error = |version: &str| PackageVersion::parse(version).unwrap_err();
    assert_eq!(error("a:1.0"), VersionError::EpochNonNumeric("a:1.0".to_string()));
    assert_eq!(error(":1.0"), VersionError::EpochOutOfRange(":1.0".to_string()));
    assert_eq!(
        error("4294967296:1"),
        VersionError::EpochOutOfRange("4294967296:1".to_string())
    );
    assert_eq!(error("1 0"), VersionError::UpstreamVersionIllegalChar("1 0".to_string()));
    assert_eq!(error("1-2_3"), VersionError::DebianRevisionIllegalChar("1-2_3".to_string()));
    assert_eq!(parsed("4294967295:1").0, Some(4294967295));
}

#[test]
fn dependencies_are_parsed() {
    let file = file(&[("Depends", "libc6 (>= 2.14), default-mta | mail-transport-agent")]);
    let list = file.depends().unwrap().unwrap();
    assert_eq!(list.dependencies.len(), 2);
    let first = &list.dependencies[0].variants;
    assert_eq!(first.len(), 1);
    assert_eq!(first[0].package, "libc6");
    let constraint = first[0].version_constraint.as_ref().unwrap();
    assert_eq!(constraint.relationship, VersionRelationship::LaterOrEqual);
    assert_eq!(constraint.version, PackageVersion::parse("2.14").unwrap());
    assert!(first[0].architectures.is_none());
    let second = &list.dependencies[1].variants;
    assert_eq!(second.len(), 2);
    assert_eq!(second[0].package, "default-mta");
    assert_eq!(second[1].package, "mail-transport-agent");
    assert!(second[1].version_constraint.is_none());
}

#[test]
fn each_dependency_field_has_its_name() {
    let file = file(&[
        ("Depends", "a"),
        ("Recommends", "b"),
        ("Suggests", "c"),
        ("Enhances", "d"),
        ("Pre-Depends", "e"),
    ]);
    let name = |list: Option<Result<DependencyList, BinaryPackageControlError>>| {
        list.unwrap().unwrap().dependencies[0].variants[0].package.clone()
    };
    assert_eq!(name(file.depends()), "a");
    assert_eq!(name(file.recommended()), "b");
    assert_eq!(name(file.suggests()), "c");
    assert_eq!(name(file.enhances()), "d");
    assert_eq!(name(file.pre_depends()), "e");
}

#[test]
fn missing_dependency_fields() {
    let file = file(&[]);
    assert!(file.depends().is_none());
    assert!(file.recommended().is_none());
    assert!(file.suggests().is_none());
    assert!(file.enhances().is_none());
    assert!(file.pre_depends().is_none());
}

#[test]
fn dependency_problems_are_reported() {
    let problem = |value: &'static str| match file(&[("Depends", value)]).depends() {
        Some(Err(BinaryPackageControlError::Depends(problem))) => problem,
        other => panic!("{:?}", other),
    };
    let parse = |text: &str| DependencyError::DependencyParse(text.to_string());
    assert_eq!(problem(""), parse(""));
    assert_eq!(problem("a,"), parse(""));
    assert_eq!(problem("a, b |"), parse(""));
    assert_eq!(problem("a (>= 1"), parse("a (>= 1"));
    assert_eq!(problem("a (> 1)"), parse("a (> 1)"));
    assert_eq!(problem("a (>=)"), parse("a (>=)"));
    assert_eq!(problem("a b"), parse("a b"));
    assert_eq!(problem("a [i386 !amd64]"), parse("a [i386 !amd64]"));
    assert_eq!(problem("a [!]"), parse("a [!]"));
    assert_eq!(problem("a []"), parse("a []"));
    assert_eq!(problem("a [i386] x"), parse("a [i386] x"));
    assert_eq!(
        problem("a (= 1_0)"),
        DependencyError::Version(VersionError::UpstreamVersionIllegalChar("1_0".to_string()))
    );
}

#[test]
fn relationships_and_restrictions() {
    let relationship = |text: &str| {
        SingleDependency::parse(text).unwrap().version_constraint.unwrap().relationship
    };
    assert_eq!(relationship("a(<<1)"), VersionRelationship::StrictlyEarlier);
    assert_eq!(relationship("a ( <= 1 )"), VersionRelationship::EarlierOrEqual);
    assert_eq!(relationship("a (= 1)"), VersionRelationship::ExactlyEqual);
    assert_eq!(relationship("a (>=\t1)"), VersionRelationship::LaterOrEqual);
    assert_eq!(relationship("a (>> 1)"), VersionRelationship::StrictlyLater);
    let restriction = |text: &str| {
        let found = SingleDependency::parse(text).unwrap().architectures.unwrap();
        (found.negated, found.names)
    };
    assert_eq!(
        restriction("a [i386  amd64]"),
        (false, vec!["i386".to_string(), "amd64".to_string()])
    );
    assert_eq!(
        restriction("a (= 1) [ !i386 !amd64 ]"),
        (true, vec!["i386".to_string(), "amd64".to_string()])
    );
}

#[test]
fn pieces_and_trimming() {
    assert_eq!(split("a,b,,c", ','), vec!["a", "b", "", "c"]);
    assert_eq!(split("", ','), vec![""]);
    assert_eq!(split("a,b,,c", ',').join(","), "a,b,,c");
    assert_eq!(trimmed(" \t a b\n\r"), "a b");
    assert_eq!(trimmed("  "), "");
}

#[test]
fn digits_become_numbers() {
    assert_eq!(digits_to_u32("0"), Some(0));
    assert_eq!(digits_to_u32("0042"), Some(42));
    assert_eq!(digits_to_u32("4294967295"), Some(4294967295));
    assert_eq!(digits_to_u32("4294967296"), None);
    assert_eq!(digits_to_u32("99999999999999999999999"), None);
    assert_eq!(digits_to_u32("1x"), None);
    assert_eq!(digits_to_u32(""), None);
}
