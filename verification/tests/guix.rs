use ret::arch::Architecture;
use ret::environment::Environment;
use ret::locator::Host;
use ret::locators::guix::{guix_profile_bins, looks_like_guix_path, Guix, GuixProbe};
use ret::r_installation::RInstallationKind;
use ret::renv::REnv;

#[test]
fn recognizes_guix_paths() {
    assert!(looks_like_guix_path("/gnu/store/abc123-r-4.4.1/lib/R"));
    assert!(looks_like_guix_path("/home/user/.guix-profile/bin/R"));
    assert!(looks_like_guix_path("/var/guix/profiles/per-user/alice/bin/R"));
    assert!(looks_like_guix_path("/run/current-system/profile/bin/R"));
    assert!(!looks_like_guix_path("/usr/local/bin/R"));
    assert!(!looks_like_guix_path("/nix/store/hash-R/bin/R"));
}

#[test]
fn try_from_classifies_guix_installation() {
    let environment = Environment { user_home: None, root: None, variables: Vec::new(), global_search_locations: Vec::new() };
    let locator = Guix::from(&environment, &Vec::new());
    let env = REnv::new(
        "/home/user/.guix-profile/bin/R".to_string(),
        Some("/gnu/store/abc123-r-4.4.1/lib/R".to_string()),
        Some("4.4.1".to_string()),
    );
    let host = Host { windows: false, unix: true, macos: false, arch: Architecture::X64 };
    let probe = GuixProbe { resolved_executable: None, sibling_executables: Vec::new() };
    let installation = locator.try_from(&env, host, &probe).expect("expected guix installation");
    assert_eq!(installation.kind, Some(RInstallationKind::Guix));
    assert_eq!(installation.version.as_deref(), Some("4.4.1"));
    assert_eq!(installation.symlinks, Some(vec!["/home/user/.guix-profile/bin/R".to_string()]));
}

#[test]
fn profile_bins_include_the_users_profiles() {
    let environment = Environment {
        user_home: Some("/home/alice".to_string()),
        root: None,
        variables: vec![("USER".to_string(), "alice".to_string())],
        global_search_locations: Vec::new(),
    };
    let bins = guix_profile_bins(&environment);
    assert_eq!(
        bins,
        vec![
            "/home/alice/.guix-home/profile/bin".to_string(),
            "/home/alice/.guix-profile/bin".to_string(),
            "/run/current-system/profile/bin".to_string(),
            "/var/guix/profiles/default/bin".to_string(),
            "/var/guix/profiles/per-user/alice/bin".to_string(),
        ]
    );
}
