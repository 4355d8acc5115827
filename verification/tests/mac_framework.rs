use ret::arch::Architecture;
use ret::environment::Environment;
use ret::locator::Host;
use ret::locators::mac_framework::{framework_version_roots, is_framework_home, MacFramework, MacFrameworkProbe};
use ret::r_installation::RInstallationKind;
use ret::renv::REnv;

fn env_with_r_home() -> Environment {
    Environment {
        user_home: Some("/users/tester".to_string()),
        root: None,
        variables: vec![(
            "R_HOME".to_string(),
            "/custom/R.framework/Versions/4.4-arm64/Resources".to_string(),
        )],
        global_search_locations: Vec::new(),
    }
}

#[test]
fn user_and_custom_framework_roots_are_discovered_and_classifiable() {
    let roots = framework_version_roots(&env_with_r_home());
    assert!(roots.contains(&"/users/tester/Library/Frameworks/R.framework/Versions".to_string()));
    assert!(roots.contains(&"/custom/R.framework/Versions".to_string()));
    assert!(is_framework_home("/custom/R.framework/Versions/4.4-arm64/Resources"));
    assert!(!is_framework_home("/custom/Other.framework/Versions/4.4/Resources"));
}

#[test]
fn framework_version_defaults_to_the_version_directory() {
    let home = "/Library/Frameworks/R.framework/Versions/4.4-arm64/Resources".to_string();
    let env = REnv::new(format!("{home}/bin/R"), Some(home.clone()), None);
    let probe = MacFrameworkProbe {
        resolved_executable: None,
        home_bin_executables: Vec::new(),
        current_target: Some(format!("{home}/bin/R")),
        symlinked_executables: Vec::new(),
    };
    let mac = Host { windows: false, unix: true, macos: true, arch: Architecture::X64 };
    let installation = MacFramework::from(&env_with_r_home()).try_from(&env, mac, &probe).unwrap();
    assert_eq!(installation.kind, Some(RInstallationKind::MacFramework));
    assert_eq!(installation.version.as_deref(), Some("4.4-arm64"));
    assert_eq!(installation.orthogonal, Some(true));
    assert!(installation
        .known_executables
        .unwrap()
        .contains(&"/Library/Frameworks/R.framework/Versions/Current/Resources/bin/R".to_string()));
    assert!(!is_framework_home("/usr/local/Cellar/r/4.4/R.framework/Versions/4.4/Resources"));
}
