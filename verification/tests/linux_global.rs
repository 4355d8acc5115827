use ret::arch::Architecture;
use ret::locator::Host;
use ret::locators::linux_global::{global_scan_dirs, is_global_bin, server_library_dirs, LinuxGlobalR};
use ret::r_installation::RInstallationKind;
use ret::renv::{looks_like_homebrew_path, REnv};

#[test]
fn recognizes_standard_bin_dirs() {
    assert!(is_global_bin("/bin"));
    assert!(is_global_bin("/usr/bin"));
    assert!(is_global_bin("/usr/local/bin"));
    assert!(is_global_bin("/opt/bin"));
}

#[test]
fn recognizes_server_library_dirs() {
    assert!(is_global_bin("/usr/lib/R/bin"));
    assert!(is_global_bin("/usr/lib64/R/bin"));
    assert!(is_global_bin("/usr/local/lib/R/bin"));
    assert!(is_global_bin("/opt/R/4.4.1/bin"));
    assert!(is_global_bin("/opt/local/R/4.3.2/bin"));
    assert!(is_global_bin("/opt/local/lib/R/R-4.3.0/lib/R/bin"));
}

#[test]
fn rejects_non_global_bins() {
    assert!(!is_global_bin("/home/user/bin"));
    assert!(!is_global_bin("/tmp/R/bin"));
    assert!(!is_global_bin("/opt/homebrew/Cellar/r/4.4.1/bin"));
    assert!(!is_global_bin("/nix/store/hash/bin"));
}

#[test]
fn homebrew_exclusion_works() {
    assert!(looks_like_homebrew_path("/opt/homebrew/Cellar/r/4.4.1/lib/R/bin/R"));
    assert!(!looks_like_homebrew_path("/usr/bin/R"));
}

#[test]
fn system_r_is_classified_only_on_linux_hosts() {
    let linux = Host { windows: false, unix: true, macos: false, arch: Architecture::X64 };
    let mac = Host { windows: false, unix: true, macos: true, arch: Architecture::Arm64 };
    let locator = LinuxGlobalR::new();
    let env = REnv::new("/usr/bin/R".to_string(), Some("/usr/lib/R".to_string()), Some("4.3.3".to_string()));
    let installation = locator.try_from(&env, linux).unwrap();
    assert_eq!(installation.kind, Some(RInstallationKind::LinuxGlobal));
    assert_eq!(installation.display_name.as_deref(), Some("System R"));
    assert_eq!(installation.arch, Some(Architecture::X64));
    assert!(locator.try_from(&env, mac).is_none());
    let unversioned = REnv::new("/usr/bin/R".to_string(), None, None);
    assert!(locator.try_from(&unversioned, linux).is_none());
}

#[test]
fn scan_dirs_cover_server_trees_and_versions() {
    assert_eq!(server_library_dirs().len(), 8);
    assert_eq!(server_library_dirs()[7], "/opt/R");
    let dirs = global_scan_dirs(&vec!["/opt/R".to_string()], &vec!["/opt/R/4.4.1".to_string()]);
    assert_eq!(
        dirs,
        vec![
            "/bin".to_string(),
            "/opt/R/4.4.1/bin".to_string(),
            "/opt/R/4.4.1/lib/R/bin".to_string(),
            "/opt/R/bin".to_string(),
            "/opt/bin".to_string(),
            "/usr/bin".to_string(),
            "/usr/local/bin".to_string(),
        ]
    );
}
