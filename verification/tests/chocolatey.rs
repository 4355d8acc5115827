use ret::arch::Architecture;
use ret::environment::Environment;
use ret::locator::Host;
use ret::locators::chocolatey::{chocolatey_r_search_roots, chocolatey_r_tools_dirs, looks_like_chocolatey_path, Chocolatey};
use ret::r_installation::RInstallationKind;
use ret::renv::REnv;

#[test]
fn recognizes_chocolatey_paths() {
    assert!(looks_like_chocolatey_path(r"C:\ProgramData\chocolatey\shims\R.exe"));
    assert!(looks_like_chocolatey_path(r"C:\ProgramData\chocolatey\lib\R\tools\R-4.4.1\bin\R.exe"));
    assert!(!looks_like_chocolatey_path(r"C:\Program Files\R\R-4.4.1\bin\R.exe"));
}

#[test]
fn standard_bin_and_package_version_layouts_are_scanned() {
    let root = "/tmp/choco";
    let tools = chocolatey_r_tools_dirs(&vec![format!("{root}/lib/r.project"), format!("{root}/lib/git")]);
    assert_eq!(tools, vec![format!("{root}/lib/r.project/tools")]);
    let version = format!("{root}/lib/r.project/tools/R-4.4");
    let roots = chocolatey_r_search_roots(root, &tools, &vec![version.clone()]);
    assert!(roots.contains(&format!("{root}/bin")));
    assert!(roots.contains(&version));
}

#[test]
fn custom_root_shim_retains_chocolatey_ownership() {
    let environment = Environment {
        user_home: None,
        root: None,
        variables: vec![("ChocolateyInstall".to_string(), "/tmp/choco".to_string())],
        global_search_locations: Vec::new(),
    };
    let locator = Chocolatey::from(&environment, true, false, false);
    let windows = Host { windows: true, unix: false, macos: false, arch: Architecture::X64 };
    let raw = REnv::new("/tmp/choco/bin/R.exe".to_string(), Some(r"C:\Program Files\R\R-4.4".to_string()), Some("4.4.0".into()));
    assert_eq!(locator.try_from(&raw, windows).unwrap().kind, Some(RInstallationKind::Chocolatey));
    let unrelated = REnv::new(r"C:\unrelated\bin\R.exe".to_string(), raw.home.clone(), raw.version.clone());
    assert!(locator.try_from(&unrelated, windows).is_none());
}
