use ret::arch::Architecture;
use ret::environment::Environment;
use ret::locator::Host;
use ret::facts::FileFacts;
use ret::locators::homebrew::{brew_for_home, cellar_roots, configured_cellar_roots, find_brew_manager, Homebrew, HomebrewProbe};
use ret::r_installation::RInstallationKind;
use ret::renv::{looks_like_homebrew_path, REnv};

fn unix_host() -> Host {
    Host { windows: false, unix: true, macos: false, arch: Architecture::X64 }
}

fn empty_environment() -> Environment {
    Environment { user_home: None, root: None, variables: Vec::new(), global_search_locations: Vec::new() }
}

fn no_probe() -> HomebrewProbe {
    HomebrewProbe {
        resolved_executable: None,
        home_bin_executables: Vec::new(),
        symlinked_executables: Vec::new(),
        home_brew: None,
    }
}

#[test]
fn recognizes_cellar_paths() {
    assert!(looks_like_homebrew_path("/opt/homebrew/Cellar/r/4.4.1/lib/R"));
    assert!(looks_like_homebrew_path("/usr/local/Cellar/r@4.3/4.3.3/lib/R"));
    assert!(looks_like_homebrew_path("/opt/homebrew/bin/R"));
}

#[test]
fn recognizes_linuxbrew_paths() {
    assert!(looks_like_homebrew_path("/home/linuxbrew/.linuxbrew/Cellar/r/4.4.1/lib/R/bin/R"));
    assert!(looks_like_homebrew_path("/home/linuxbrew/.linuxbrew/bin/R"));
}

#[test]
fn rejects_non_homebrew_paths() {
    assert!(!looks_like_homebrew_path("/usr/bin/R"));
    assert!(!looks_like_homebrew_path("/usr/local/bin/R"));
    assert!(!looks_like_homebrew_path("/opt/R/4.4.1/bin/R"));
    assert!(!looks_like_homebrew_path("/nix/store/hash-R/bin/R"));
}

#[test]
fn cellar_roots_contains_expected_paths() {
    let roots = cellar_roots();
    assert!(roots.contains(&"/opt/homebrew/Cellar".to_string()));
    assert!(roots.contains(&"/usr/local/Cellar".to_string()));
    assert!(roots.contains(&"/home/linuxbrew/.linuxbrew/Cellar".to_string()));
}

#[test]
fn try_from_classifies_homebrew_installation() {
    let locator = Homebrew::from(&empty_environment(), &Vec::new());
    let env = REnv::new(
        "/opt/homebrew/Cellar/r/4.4.1/lib/R/bin/R".to_string(),
        Some("/opt/homebrew/Cellar/r/4.4.1/lib/R".to_string()),
        Some("4.4.1".to_string()),
    );
    let installation = locator
        .try_from(&env, unix_host(), &no_probe())
        .expect("expected homebrew installation");
    assert_eq!(installation.kind, Some(RInstallationKind::Homebrew));
    assert_eq!(installation.version.as_deref(), Some("4.4.1"));
}

#[test]
fn try_from_rejects_non_homebrew_path() {
    let locator = Homebrew::from(&empty_environment(), &Vec::new());
    let env = REnv::new(
        "/usr/bin/R".to_string(),
        Some("/usr/lib/R".to_string()),
        Some("4.4.1".to_string()),
    );
    assert!(locator.try_from(&env, unix_host(), &no_probe()).is_none());
}

#[test]
fn custom_cellar_prefix_and_path_brew_are_discovery_roots() {
    let prefix = "/tmp/t/custom brew".to_string();
    let cellar = "/tmp/t/packages".to_string();
    let bin = format!("{prefix}/bin");
    let env = Environment {
        user_home: None,
        root: None,
        variables: vec![
            ("HOMEBREW_PREFIX".to_string(), prefix.clone()),
            ("HOMEBREW_CELLAR".to_string(), cellar.clone()),
            ("PATH".to_string(), bin.clone()),
        ],
        global_search_locations: Vec::new(),
    };
    let files = vec![format!("{bin}/brew")];
    let roots = configured_cellar_roots(&env, &files);
    assert!(roots.contains(&cellar));
    assert!(roots.contains(&format!("{prefix}/Cellar")));
    assert_eq!(find_brew_manager(&env, &files).unwrap().executable, format!("{bin}/brew"));
    let locator = Homebrew::from(&env, &files);
    let home = format!("{cellar}/r/4.4/lib/R");
    let raw = REnv::new(format!("{home}/bin/R"), Some(home), Some("4.4.0".into()));
    assert_eq!(
        locator.try_from(&raw, unix_host(), &no_probe()).unwrap().kind,
        Some(RInstallationKind::Homebrew)
    );
}

#[test]
fn homebrew_installation_lists_the_executable_and_infers_the_script() {
    let locator = Homebrew::from(&empty_environment(), &Vec::new());
    let env = REnv::new(
        "/opt/homebrew/Cellar/r/4.4.1/lib/R/bin/R".to_string(),
        None,
        Some("4.4.1".to_string()),
    );
    assert_eq!(env.home.as_deref(), Some("/opt/homebrew/Cellar/r/4.4.1/lib/R"));
    let installation = locator.try_from(&env, unix_host(), &no_probe()).unwrap();
    assert_eq!(
        installation.known_executables,
        Some(vec!["/opt/homebrew/Cellar/r/4.4.1/lib/R/bin/R".to_string()])
    );
    assert_eq!(installation.display_name.as_deref(), Some("Homebrew R"));
    assert_eq!(
        installation.script_path.as_deref(),
        Some("/opt/homebrew/Cellar/r/4.4.1/lib/R/bin/Rscript")
    );
    assert!(locator.try_from(&env, Host { windows: true, unix: false, macos: false, arch: Architecture::X64 }, &no_probe()).is_none());
}

#[test]
fn brew_of_the_nearest_prefix_manages_a_home() {
    let facts = FileFacts {
        existing: vec!["/opt/homebrew/bin/brew".to_string(), "/bin/brew".to_string()],
        dirs: vec![],
        files: vec!["/opt/homebrew/bin/brew".to_string(), "/bin/brew".to_string()],
    };
    assert_eq!(
        brew_for_home("/opt/homebrew/Cellar/r/4.4.1/lib/R", &facts),
        Some("/opt/homebrew/bin/brew".to_string())
    );
    let none = FileFacts { existing: vec![], dirs: vec![], files: vec![] };
    assert_eq!(brew_for_home("/opt/homebrew/Cellar/r/4.4.1/lib/R", &none), None);
}
