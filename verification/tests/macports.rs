use ret::arch::Architecture;
use ret::locator::Host;
use ret::locators::macports::{candidate_install_roots, looks_like_macports_path, MacPorts};
use ret::r_installation::RInstallationKind;
use ret::renv::REnv;

#[test]
fn recognizes_macports_paths() {
    assert!(looks_like_macports_path("/opt/local/lib/R"));
    assert!(looks_like_macports_path(
        "/opt/local/Library/Frameworks/R.framework/Versions/4.4/Resources"
    ));
    assert!(!looks_like_macports_path("/usr/local/lib/R"));
}

#[test]
fn macports_roots_skip_the_current_alias() {
    let versions = vec![
        "/opt/local/Library/Frameworks/R.framework/Versions/4.4".to_string(),
        "/opt/local/Library/Frameworks/R.framework/Versions/Current".to_string(),
    ];
    assert_eq!(
        candidate_install_roots(&versions),
        vec![
            "/opt/local".to_string(),
            "/opt/local/Library/Frameworks/R.framework/Versions/4.4/Resources".to_string(),
            "/opt/local/lib/R".to_string(),
        ]
    );
}

#[test]
fn macports_installation_needs_a_mac_host_and_a_version() {
    let mac = Host { windows: false, unix: true, macos: true, arch: Architecture::Arm64 };
    let locator = MacPorts::new(true);
    let env = REnv::new("/opt/local/bin/R".to_string(), Some("/opt/local/lib/R".to_string()), Some("4.4.1".into()));
    let installation = locator.try_from(&env, mac).unwrap();
    assert_eq!(installation.kind, Some(RInstallationKind::MacPorts));
    assert_eq!(installation.manager.unwrap().executable, "/opt/local/bin/port");
    let linux = Host { windows: false, unix: true, macos: false, arch: Architecture::X64 };
    assert!(locator.try_from(&env, linux).is_none());
}
