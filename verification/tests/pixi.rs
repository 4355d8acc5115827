use ret::arch::Architecture;
use ret::environment::Environment;
use ret::locator::Host;
use ret::locators::pixi::{get_pixi_prefix, infer_manifest_path, is_pixi_env, pixi_global_env_dirs, pixi_marker, Pixi, PixiProbe};
use ret::r_installation::{LocatorMetadata, RInstallationKind};
use ret::renv::REnv;

fn tester(pixi_home: Option<&str>) -> Environment {
    Environment {
        user_home: Some("/home/tester".to_string()),
        root: None,
        variables: pixi_home.map(|h| vec![("PIXI_HOME".to_string(), h.to_string())]).unwrap_or_default(),
        global_search_locations: Vec::new(),
    }
}

#[test]
fn global_env_dirs_use_pixi_home_or_user_default() {
    assert_eq!(pixi_global_env_dirs(&tester(Some("/srv/pixi"))), vec!["/srv/pixi/envs".to_string()]);
    assert_eq!(pixi_global_env_dirs(&tester(None)), vec!["/home/tester/.pixi/envs".to_string()]);
}

#[test]
fn non_pixi_path_returns_none() {
    let env = REnv::new("/usr/bin/R".to_string(), None, None);
    assert_eq!(get_pixi_prefix(&env, &Vec::new()), None);
}

#[test]
fn pixi_env_detection() {
    let prefix = "/tmp/p/.pixi/envs/default";
    assert!(!is_pixi_env(prefix, &Vec::new()));
    assert!(is_pixi_env(prefix, &vec![pixi_marker(prefix)]));
}

#[test]
fn get_prefix_from_executable() {
    let prefix = "/tmp/p/.pixi/envs/default".to_string();
    let env = REnv::new(format!("{prefix}/lib/R/bin/R"), None, None);
    assert_eq!(get_pixi_prefix(&env, &vec![pixi_marker(&prefix)]), Some(prefix));
}

#[test]
fn infer_manifest_path_prefers_pixi_toml() {
    let prefix = "/tmp/project/.pixi/envs/default";
    assert_eq!(infer_manifest_path(prefix, true, &None).as_deref(), Some("/tmp/project/pixi.toml"));
    assert_eq!(
        infer_manifest_path(prefix, false, &Some("[tool.pixi]\nchannels=[]\n".to_string())).as_deref(),
        Some("/tmp/project/pyproject.toml")
    );
    assert_eq!(infer_manifest_path(prefix, false, &Some("[project]\n".to_string())), None);
    assert_eq!(infer_manifest_path("/tmp/envs/default", true, &None), None);
}

#[test]
fn pixi_installation_is_named_after_its_environment() {
    let prefix = "/tmp/p/.pixi/envs/analysis".to_string();
    let env = REnv::new(format!("{prefix}/lib/R/bin/R"), Some(format!("{prefix}/lib/R")), Some("4.4.2".into()));
    let probe = PixiProbe {
        markers: vec![pixi_marker(&prefix)],
        prefix_executables: Vec::new(),
        symlinked_executables: Vec::new(),
        pixi_toml_is_file: true,
        pyproject_text: None,
    };
    let host = Host { windows: false, unix: true, macos: false, arch: Architecture::X64 };
    let installation = Pixi::from(&tester(None)).try_from(&env, host, &probe).unwrap();
    assert_eq!(installation.kind, Some(RInstallationKind::Pixi));
    assert_eq!(installation.display_name.as_deref(), Some("R 4.4.2 (Pixi: analysis)"));
    assert_eq!(installation.name.as_deref(), Some("analysis"));
    assert_eq!(installation.version.as_deref(), Some("4.4.2"));
    match installation.locator_metadata {
        Some(LocatorMetadata::Pixi { environment_path, manifest_path, environment_name }) => {
            assert_eq!(environment_path, prefix);
            assert_eq!(manifest_path.as_deref(), Some("/tmp/p/pixi.toml"));
            assert_eq!(environment_name.as_deref(), Some("analysis"));
        }
        other => panic!("unexpected metadata {other:?}"),
    }
}

#[test]
fn pixi_identity_generates_display_name_from_structured_fields() {
    let prefix = "/tmp/t/.pixi/envs/analysis".to_string();
    let env = REnv::new(format!("{prefix}/lib/R/bin/R"), Some(format!("{prefix}/lib/R")), Some("4.4.2".to_string()));
    let probe = PixiProbe {
        markers: vec![pixi_marker(&prefix)],
        prefix_executables: Vec::new(),
        symlinked_executables: Vec::new(),
        pixi_toml_is_file: false,
        pyproject_text: None,
    };
    let host = Host { windows: false, unix: true, macos: false, arch: Architecture::X64 };
    let installation = Pixi::from(&tester(None)).try_from(&env, host, &probe).expect("expected a Pixi R installation");
    assert_eq!(installation.display_name.as_deref(), Some("R 4.4.2 (Pixi: analysis)"));
    assert_eq!(installation.name.as_deref(), Some("analysis"));
    assert_eq!(installation.version.as_deref(), Some("4.4.2"));
}
