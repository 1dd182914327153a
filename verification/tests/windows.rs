use pyoxidizer::windows::error::{Problem, WindowsError};
use pyoxidizer::windows::installed_version::{newest_versions, InstalledVersion, VersionOrder};
use pyoxidizer::windows::known_folder::{KnownFolder, KnownFolderPath, S_OK};
use pyoxidizer::windows::platform::VCRedistributablePlatform;
use pyoxidizer::windows::redistributable::{
    find_visual_cpp_redistributable, installation_path, newest_redistributable,
    redistributable_pattern, strip_line_break, version_of_path, vswhere_arguments,
};
use pyoxidizer::windows::vswhere::{
    continue_vswhere_search, find_vswhere, start_vswhere_search, vswhere_candidate, Probe, Search,
};

fn components(path: &str) -> Vec<String> {
    path.split('\\').map(|part| part.to_string()).collect()
}

fn version(text: &str) -> InstalledVersion {
    match InstalledVersion::parse(text) {
        Ok(version) => version,
        Err(reason) => panic!("{}: {}", text, reason),
    }
}

#[test]
fn test_find_visual_cpp_redistributable_14() {
    let platforms = vec![
        VCRedistributablePlatform::X86,
        VCRedistributablePlatform::X64,
        VCRedistributablePlatform::Arm64,
    ];
    let on_windows = std::path::MAIN_SEPARATOR == '\\';

    for platform in platforms {
        let res = find_visual_cpp_redistributable("14", platform);

        if on_windows {
            if res.is_ok() {
                println!("found vcruntime files: {:?}", res.unwrap());
            }
        } else {
            assert!(res.is_err());
        }
    }
}

#[test]
fn unsupported_hosts_say_so() {
    let error = find_vswhere().unwrap_err();
    assert_eq!(error, WindowsError::VswhereUnsupported);
    assert_eq!(error.message(), "finding vswhere.exe only supported on Windows");
    let error = find_visual_cpp_redistributable("14", VCRedistributablePlatform::X64).unwrap_err();
    assert_eq!(error, WindowsError::RedistributableUnsupported);
    assert_eq!(
        error.message(),
        "Finding the Visual C++ Redistributable is not supported outside of Windows"
    );
}

#[test]
fn platforms_are_found_under_their_names() {
    assert_eq!(VCRedistributablePlatform::X86.to_string(), "x86");
    assert_eq!(VCRedistributablePlatform::X64.to_string(), "x64");
    assert_eq!(VCRedistributablePlatform::Arm64.to_string(), "arm64");
    for platform in [
        VCRedistributablePlatform::X86,
        VCRedistributablePlatform::X64,
        VCRedistributablePlatform::Arm64,
    ] {
        let name = platform.to_string();
        assert_eq!(VCRedistributablePlatform::try_from(name.as_str()), Ok(platform));
    }
}

#[test]
fn unknown_platforms_are_refused() {
    assert_eq!(
        VCRedistributablePlatform::try_from("mips"),
        Err("mips is not a valid platform; use 'x86', 'x64', or 'arm64'".to_string())
    );
    assert_eq!(
        VCRedistributablePlatform::try_from("X86"),
        Err("X86 is not a valid platform; use 'x86', 'x64', or 'arm64'".to_string())
    );
}

#[test]
fn known_folder_path_ends_at_first_nul() {
    let mut path = KnownFolderPath::from_status(S_OK).unwrap();
    assert_eq!(path.next_unit(), Some(0));
    for unit in [67u16, 58, 92, 0, 88, 89] {
        path.read(unit);
    }
    assert_eq!(path.next_unit(), None);
    assert_eq!(path.into_units(), vec![67u16, 58, 92]);
}

#[test]
fn known_folder_path_is_read_in_order() {
    let mut path = KnownFolderPath::from_status(0).unwrap();
    path.read(67);
    assert_eq!(path.next_unit(), Some(1));
    path.read(58);
    assert_eq!(path.next_unit(), Some(2));
    path.read(0);
    assert_eq!(path.next_unit(), None);
}

#[test]
fn failed_query_has_no_path() {
    assert!(KnownFolderPath::from_status(-2147024894).is_none());
    assert!(KnownFolderPath::from_status(1).is_none());
}

#[test]
fn vswhere_candidates_in_order() {
    let first = vswhere_candidate(0).unwrap();
    assert_eq!(first.folder, KnownFolder::ProgramFilesX86);
    assert_eq!(first.path, r"Microsoft Visual Studio\Installer\vswhere.exe");
    let second = vswhere_candidate(1).unwrap();
    assert_eq!(second.folder, KnownFolder::ProgramData);
    assert_eq!(second.path, r"Microsoft Visual Studio\Installer\vswhere.exe");
    assert!(vswhere_candidate(2).is_none());
}

#[test]
fn vswhere_search_takes_first_that_exists() {
    assert_eq!(start_vswhere_search(), Search::Look(0));
    assert_eq!(continue_vswhere_search(0, Probe::Exists), Search::Found(0));
    assert_eq!(continue_vswhere_search(0, Probe::Missing), Search::Look(1));
    assert_eq!(continue_vswhere_search(1, Probe::Exists), Search::Found(1));
    assert_eq!(continue_vswhere_search(0, Probe::FolderError), Search::FolderError(0));
    assert_eq!(continue_vswhere_search(1, Probe::FolderError), Search::FolderError(1));
}

#[test]
fn vswhere_search_fails_after_last_candidate() {
    match continue_vswhere_search(1, Probe::Missing) {
        Search::Failed(problem) => assert_eq!(problem.message(), "could not find vswhere.exe"),
        other => panic!("{:?}", other),
    }
}

#[test]
fn vswhere_arguments_name_the_component() {
    assert_eq!(
        vswhere_arguments("14"),
        vec![
            "-products",
            "*",
            "-requires",
            "Microsoft.VisualCPP.Redist.14.Latest",
            "-latest",
            "-property",
            "installationPath",
            "-utf8",
        ]
    );
}

#[test]
fn installation_path_is_the_line() {
    assert_eq!(
        installation_path(b"C:\\VS\\2019\r\n".to_vec()),
        Ok("C:\\VS\\2019".to_string())
    );
    assert_eq!(
        installation_path("C:\\Prográmmes\r\n".as_bytes().to_vec()),
        Ok("C:\\Prográmmes".to_string())
    );
    assert_eq!(installation_path(b"\r\n".to_vec()), Ok(String::new()));
    assert_eq!(installation_path(b"a\r\nb\r\n".to_vec()), Ok("a\r\nb".to_string()));
}

#[test]
fn unterminated_output_is_refused() {
    for output in [&b""[..], &b"C:\\VS\n"[..], &b"C:\\VS"[..], &b"\r\nx"[..]] {
        let error = installation_path(output.to_vec()).unwrap_err();
        assert_eq!(error, Problem::UnterminatedOutput);
        assert_eq!(error.message(), "unable to strip string");
    }
    assert_eq!(strip_line_break("a\r\n"), Some("a"));
    assert_eq!(strip_line_break("a\n"), None);
}

#[test]
fn output_that_is_not_utf8_is_refused() {
    let error = installation_path(vec![0x43, 0xff, 0x0d, 0x0a]).unwrap_err();
    assert_eq!(error.message(), "invalid utf-8 sequence of 1 bytes from index 1");
}

#[test]
fn pattern_names_version_and_platform() {
    assert_eq!(
        redistributable_pattern("14", &VCRedistributablePlatform::Arm64),
        "VC/Redist/MSVC/14.*/arm64/Microsoft.VC*.CRT/vcruntime*.dll"
    );
}

#[test]
fn versions_are_ordered() {
    let order = |a: &str, b: &str| version(a).compare(&version(b));
    assert_eq!(order("14.16.27012", "14.9.30133"), VersionOrder::Newer);
    assert_eq!(order("14.9.30133", "14.16.27012"), VersionOrder::Older);
    assert_eq!(order("14.16.27012", "14.16.27012"), VersionOrder::Same);
    assert_eq!(order("2.0.0", "10.0.0"), VersionOrder::Older);
    assert_eq!(order("1.0.0-alpha", "1.0.0"), VersionOrder::Older);
    assert_eq!(order("1.0.0-alpha.10", "1.0.0-alpha.9"), VersionOrder::Newer);
    assert_eq!(order("1.0.0+1", "1.0.0"), VersionOrder::Newer);
}

#[test]
fn texts_that_are_no_versions_are_refused() {
    for text in ["", "14", "14.16", "14.16.x", "14.16.027012", "14.16.27012.1"] {
        assert!(InstalledVersion::parse(text).is_err());
    }
    assert_eq!(
        InstalledVersion::parse("v142").err().unwrap(),
        "unexpected character 'v' while parsing major version number"
    );
}

#[test]
fn newest_versions_are_all_found() {
    let versions = vec![
        version("14.16.27012"),
        version("14.29.30133"),
        version("14.20.27508"),
        version("14.29.30133"),
    ];
    assert_eq!(newest_versions(&versions), vec![1, 3]);
    assert_eq!(newest_versions(&vec![]), Vec::<usize>::new());
}

#[test]
fn newest_redistributable_is_chosen() {
    let install = components(r"C:\VS");
    let found = vec![
        Ok(components(r"C:\VS\VC\Redist\MSVC\14.9.1\x64\Microsoft.VC142.CRT\vcruntime140.dll")),
        Ok(components(r"C:\VS\VC\Redist\MSVC\14.16.2\x64\Microsoft.VC141.CRT\vcruntime140.dll")),
        Ok(components(r"C:\VS\VC\Redist\MSVC\14.16.2\x64\Microsoft.VC141.CRT\vcruntime140_1.dll")),
    ];
    assert_eq!(newest_redistributable(&install, &found), Ok(vec![1, 2]));
}

#[test]
fn nothing_installed_is_an_error() {
    let error = newest_redistributable(&components(r"C:\VS"), &vec![]).unwrap_err();
    assert_eq!(error.message(), "unable to find install VC++ Redistributable");
}

#[test]
fn unreadable_path_counts_first() {
    let install = components(r"C:\VS");
    let found = vec![
        Ok(components(r"D:\elsewhere")),
        Err("no access".to_string()),
        Err("no medium".to_string()),
    ];
    let error = newest_redistributable(&install, &found).unwrap_err();
    assert_eq!(error, Problem::Glob("no access".to_string()));
    assert_eq!(error.message(), "glob error: no access");
}

#[test]
fn paths_without_versions_are_errors() {
    let install = components(r"C:\VS");
    let choose = |path: &str| newest_redistributable(&install, &vec![Ok(components(path))]);
    assert_eq!(choose(r"C:\VX\VC\Redist\MSVC\14.9.1").unwrap_err().message(), "prefix not found");
    assert_eq!(choose(r"C:\VS\VC\Redist").unwrap_err(), Problem::PrefixNotFound);
    assert_eq!(
        choose(r"C:\VS\VC\Redist\MSVC").unwrap_err().message(),
        "unable to determine version component (this should not happen)"
    );
    assert_eq!(
        choose(r"C:\VS\VC\Redist\MSVC\v142\x64").unwrap_err().message(),
        "unexpected character 'v' while parsing major version number"
    );
    assert!(version_of_path(&install, &components(r"C:\VS\VC\Redist\MSVC\14.9.1\x64")).is_ok());
}
