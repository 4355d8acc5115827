use ret::arch::Architecture;
use ret::environment::Environment;
use ret::locator::{Configuration, Host};
use ret::locators::rig::{find_rig_executable, rig_executable_candidates, rig_roots, Rig};
use ret::manager::EnvManagerType;
use ret::r_installation::RInstallationKind;
use ret::renv::REnv;

fn host() -> Host {
    Host { windows: false, unix: true, macos: false, arch: Architecture::X64 }
}

fn test_environment() -> Environment {
    Environment {
        user_home: Some("/home/tester".to_string()),
        root: None,
        variables: vec![("RIG_R_INSTALL_DIR".to_string(), "/srv/managed-r".to_string())],
        global_search_locations: Vec::new(),
    }
}

fn empty_environment() -> Environment {
    Environment { user_home: None, root: None, variables: Vec::new(), global_search_locations: Vec::new() }
}

#[test]
fn shared_install_roots_do_not_prove_rig_ownership() {
    let locator = Rig::from(&test_environment(), false, None);
    for executable in ["/opt/R/4.4.1/bin/R", "/Library/Frameworks/R.framework/Versions/4.4/Resources/bin/R"] {
        let env = REnv::new(executable.to_string(), None, Some("4.4.1".to_string()));
        assert!(locator.try_from(&env, host()).is_none());
    }
}

#[test]
fn rig_roots_contains_expected_paths() {
    let (roots, classification_roots) = rig_roots(&test_environment(), false);
    assert!(roots.contains(&"/opt/R".to_string()));
    assert!(roots.contains(&"/Library/Frameworks/R.framework/Versions".to_string()));
    assert!(roots.contains(&r"C:\Program Files\R".to_string()));
    assert!(roots.contains(&"/home/tester/.local/share/rig/r".to_string()));
    assert!(roots.contains(&"/srv/managed-r".to_string()));
    assert!(classification_roots.contains(&"/srv/managed-r".to_string()));
}

#[test]
fn try_from_accepts_custom_rig_root() {
    let locator = Rig::from(&test_environment(), false, None);
    let env = REnv::new(
        "/srv/managed-r/4.4.1/bin/R".to_string(),
        Some("/srv/managed-r/4.4.1/lib/R".to_string()),
        Some("4.4.1".to_string()),
    );
    assert_eq!(locator.try_from(&env, host()).and_then(|value| value.kind), Some(RInstallationKind::Rig));
}

#[test]
fn explicitly_configured_rig_can_classify_a_shared_root() {
    let mut locator = Rig::from(&test_environment(), false, None);
    let mut config = Configuration::empty();
    config.rig_executable = Some("rig".to_string());
    locator.configure(&config, None);
    let env = REnv::new("/opt/R/4.4.1/bin/R".to_string(), Some("/opt/R/4.4.1/lib/R".to_string()), Some("4.4.1".to_string()));
    assert_eq!(locator.try_from(&env, host()).unwrap().kind, Some(RInstallationKind::Rig));
}

#[test]
fn try_from_rejects_non_rig_path() {
    let locator = Rig::from(&empty_environment(), false, None);
    let env = REnv::new("/usr/bin/R".to_string(), Some("/usr/lib/R".to_string()), Some("4.4.1".to_string()));
    assert!(locator.try_from(&env, host()).is_none());
}

#[test]
fn try_from_classifies_rig_managed_installation() {
    let mut locator = Rig::from(&empty_environment(), false, None);
    let mut config = Configuration::empty();
    config.rig_executable = Some("/usr/local/bin/rig".to_string());
    locator.configure(&config, None);
    let env = REnv::new("/opt/R/4.4.1/bin/R".to_string(), Some("/opt/R/4.4.1".to_string()), Some("4.4.1".to_string()));
    let installation = locator.try_from(&env, host()).expect("rig path should be classified");
    assert_eq!(installation.kind, Some(RInstallationKind::Rig));
    assert_eq!(installation.home, Some("/opt/R/4.4.1".to_string()));
    assert_eq!(installation.executable, Some("/opt/R/4.4.1/bin/R".to_string()));
    assert_eq!(installation.version.as_deref(), Some("4.4.1"));
    let manager = installation.manager.expect("rig manager should be present");
    assert_eq!(manager.tool, EnvManagerType::Rig);
    assert_eq!(manager.executable, "/usr/local/bin/rig".to_string());
}

#[test]
fn try_from_ignores_non_rig_paths() {
    let locator = Rig::from(&empty_environment(), false, None);
    let env = REnv::new("/tmp/fake-r/bin/R".to_string(), Some("/tmp/fake-r".to_string()), Some("4.4.1".to_string()));
    assert!(locator.try_from(&env, host()).is_none());
}

#[test]
fn rig_found_on_the_path_comes_first() {
    let environment = Environment {
        user_home: None,
        root: None,
        variables: vec![("PATH".to_string(), "/a:/b".to_string())],
        global_search_locations: Vec::new(),
    };
    let candidates = rig_executable_candidates(&environment, false);
    assert_eq!(candidates[0], "/a/rig");
    assert_eq!(candidates[1], "/b/rig");
    assert_eq!(
        find_rig_executable(&candidates, &vec!["/usr/bin/rig".to_string(), "/b/rig".to_string()]).as_deref(),
        Some("/b/rig")
    );
}
