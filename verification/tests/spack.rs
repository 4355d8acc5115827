use ret::arch::Architecture;
use ret::environment::Environment;
use ret::locator::Host;
use ret::locators::spack::{looks_like_spack_path, parse_spack_find_paths, spack_opt_dirs, Spack, SpackProbe};
use ret::r_installation::RInstallationKind;
use ret::renv::REnv;

#[test]
fn recognizes_spack_paths() {
    assert!(looks_like_spack_path(
        "/home/user/spack/opt/spack/linux-ubuntu22.04-x86_64/gcc-12/r-4.4.1-abcdef/lib/R"
    ));
    assert!(looks_like_spack_path("/opt/spack/opt/spack/linux-rhel8-zen3/gcc-11/r-4.3.2-xyz123/bin/R"));
    assert!(!looks_like_spack_path("/usr/local/bin/R"));
    assert!(!looks_like_spack_path("/opt/R/4.4.1/bin/R"));
}

#[test]
fn parses_custom_prefixes_reported_by_spack() {
    let paths = parse_spack_find_paths(
        "-- linux-ubuntu22.04-x86_64 / gcc@13 --\nr@4.4.1  abcdefg  /srv/runtimes/R/4.4.1\n",
    );
    assert_eq!(paths, vec!["/srv/runtimes/R/4.4.1".to_string()]);
}

#[test]
fn spack_trees_include_root_home_and_default() {
    let environment = Environment {
        user_home: Some("/home/u".to_string()),
        root: None,
        variables: vec![("SPACK_ROOT".to_string(), "/sw/spack".to_string())],
        global_search_locations: Vec::new(),
    };
    assert_eq!(
        spack_opt_dirs(&environment),
        vec![
            "/home/u/.spack/opt/spack".to_string(),
            "/home/u/spack/opt/spack".to_string(),
            "/opt/spack/opt/spack".to_string(),
            "/sw/spack/opt/spack".to_string(),
        ]
    );
}

#[test]
fn spack_runtime_is_reported_with_its_resolved_executable() {
    let environment = Environment { user_home: None, root: None, variables: Vec::new(), global_search_locations: Vec::new() };
    let locator = Spack::from(&environment, &Vec::new());
    let exe = "/opt/spack/opt/spack/linux/gcc/r-4.4.1-abc/bin/R".to_string();
    let env = REnv::new(exe.clone(), None, Some("4.4.1".into()));
    let probe = SpackProbe {
        resolved_executable: Some("/opt/spack/opt/spack/linux/gcc/r-4.4.1-abc/rlib/R/bin/R".into()),
        sibling_executables: Vec::new(),
        symlinked_executables: vec![exe.clone()],
    };
    let host = Host { windows: false, unix: true, macos: false, arch: Architecture::X64 };
    let installation = locator.try_from(&env, host, &probe).unwrap();
    assert_eq!(installation.kind, Some(RInstallationKind::Spack));
    assert_eq!(installation.executable.as_deref(), Some("/opt/spack/opt/spack/linux/gcc/r-4.4.1-abc/rlib/R/bin/R"));
    assert_eq!(installation.symlinks, Some(vec![exe.clone()]));
    assert_eq!(installation.known_executables.as_ref().map(|k| k.len()), Some(2));
}
