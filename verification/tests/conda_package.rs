use ret::arch::Architecture;
use ret::conda::package::{filename_version, history_line_captures, parse_arch, CondaMetaPackage, MetaFile, RCondaPackageInfo};

#[test]
fn parse_arch_x86_64() {
    let pkg = CondaMetaPackage {
        version: Some("4.5.3".into()),
        channel: Some("conda-forge".into()),
        subdir: Some("linux-64".into()),
        arch: Some("x86_64".into()),
    };
    assert_eq!(parse_arch(&pkg), Some(Architecture::X64));
}

#[test]
fn parse_arch_arm64_from_arch_field() {
    let pkg = CondaMetaPackage {
        version: Some("4.5.3".into()),
        channel: Some("conda-forge".into()),
        subdir: Some("osx-arm64".into()),
        arch: Some("aarch64".into()),
    };
    assert_eq!(parse_arch(&pkg), Some(Architecture::Arm64));
}

#[test]
fn parse_arch_arm64_from_subdir_fallback() {
    let pkg = CondaMetaPackage {
        version: Some("4.5.3".into()),
        channel: Some("conda-forge".into()),
        subdir: Some("osx-arm64".into()),
        arch: None,
    };
    assert_eq!(parse_arch(&pkg), Some(Architecture::Arm64));
}

#[test]
fn parse_arch_linux_aarch64() {
    let pkg = CondaMetaPackage { version: None, channel: None, subdir: Some("linux-aarch64".into()), arch: None };
    assert_eq!(parse_arch(&pkg), Some(Architecture::Arm64));
}

#[test]
fn parse_arch_none() {
    let pkg = CondaMetaPackage { version: None, channel: None, subdir: None, arch: None };
    assert_eq!(parse_arch(&pkg), None);
}

#[test]
fn regex_matches_history_line() {
    let line = "+https://conda.anaconda.org/conda-forge/linux-64::r-base-4.5.3-h1a7235e_0";
    let (version, build) = history_line_captures(line).unwrap();
    assert_eq!(version, "4.5.3");
    assert_eq!(build, "h1a7235e_0");
}

#[test]
fn regex_matches_filename() {
    let filename = "r-base-4.5.3-h1a7235e_0.json";
    assert_eq!(filename_version(filename).as_deref(), Some("4.5.3"));
}

fn meta(path: &str, record: Option<CondaMetaPackage>) -> MetaFile {
    MetaFile { path: path.to_string(), record }
}

fn record(version: Option<&str>, channel: Option<&str>, subdir: Option<&str>, arch: Option<&str>) -> Option<CondaMetaPackage> {
    Some(CondaMetaPackage {
        version: version.map(|v| v.to_string()),
        channel: channel.map(|v| v.to_string()),
        subdir: subdir.map(|v| v.to_string()),
        arch: arch.map(|v| v.to_string()),
    })
}

#[test]
fn from_synthetic_conda_meta() {
    let history = Some(
        "==> 2024-01-01 00:00:00 <==\n# cmd: conda create -n test r-base\n+conda-forge/linux-64::r-base-4.3.1-h1a7235e_0\n".to_string(),
    );
    let files = vec![
        meta("/env/conda-meta/history", None),
        meta(
            "/env/conda-meta/r-base-4.3.1-h1a7235e_0.json",
            record(Some("4.3.1"), Some("conda-forge"), Some("linux-64"), Some("x86_64")),
        ),
    ];
    let info = RCondaPackageInfo::from("/env", &history, &files).unwrap();
    assert_eq!(info.version, "4.3.1");
    assert_eq!(info.arch, Some(Architecture::X64));
}

#[test]
fn from_history_without_json() {
    let history = Some("+conda-forge/osx-arm64::r-base-4.5.0-hbadge_0\n".to_string());
    let info = RCondaPackageInfo::from("/env", &history, &Vec::new()).unwrap();
    assert_eq!(info.version, "4.5.0");
    assert_eq!(info.arch, None);
}

#[test]
fn history_without_exact_json_falls_back_to_matching_file_scan() {
    let history = Some("+conda-forge/osx-arm64::r-base-4.5.0-hmissing_0\n".to_string());
    let files = vec![meta(
        "/env/conda-meta/r-base-4.5.0-hpresent_1.json",
        record(Some("4.5.0"), None, Some("osx-arm64"), None),
    )];
    let info = RCondaPackageInfo::from("/env", &history, &files).unwrap();
    assert_eq!(info.version, "4.5.0");
    assert_eq!(info.arch, Some(Architecture::Arm64));
}

#[test]
fn fallback_to_file_enumeration() {
    let files = vec![
        meta("/env/conda-meta/r-base-4.2.0-habc123_1.json", record(Some("4.2.0"), None, Some("osx-arm64"), None)),
        meta("/env/conda-meta/r-base-4.3.0-hxyz_1.json", None),
    ];
    let info = RCondaPackageInfo::from("/env", &None, &files).unwrap();
    assert_eq!(info.version, "4.2.0");
    assert_eq!(info.arch, Some(Architecture::Arm64));
}

#[test]
fn no_r_base_returns_none() {
    let info = RCondaPackageInfo::from("/env", &Some("# empty\n".to_string()), &vec![meta("/env/conda-meta/history", None)]);
    assert!(info.is_none());
}

#[test]
fn record_without_version_takes_the_file_name_version() {
    let files = vec![meta("/env/conda-meta/r-base-4.1.0-hq_0.json", record(None, None, Some("win-64"), None))];
    let info = RCondaPackageInfo::from("/env", &None, &files).unwrap();
    assert_eq!(info.version, "4.1.0");
    assert_eq!(info.arch, Some(Architecture::X64));
}
