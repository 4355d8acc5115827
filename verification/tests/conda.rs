use ret::arch::Architecture;
use ret::conda::locator::{build_conda_startup_command, pick_preferred_executable, Conda, CondaPrefixProbe};
use ret::conda::manager::{is_mamba_executable, CondaInfo, CondaManager};
use ret::conda::package::{CondaMetaPackage, MetaFile};
use ret::conda::utils::{get_conda_creation_line_from_history, get_conda_dir_from_cmd, get_conda_env_name, is_conda_env, is_conda_install};
use ret::environment::Environment;
use ret::facts::FileFacts;
use ret::locator::RefreshStateSyncScope;
use ret::manager::EnvManagerType;
use ret::r_installation::{LocatorMetadata, RInstallation, RInstallationBuilder, RInstallationKind};
use ret::resolved::ResolvedRInstallation;

fn no_facts() -> FileFacts {
    FileFacts { existing: Vec::new(), dirs: Vec::new(), files: Vec::new() }
}

fn empty_probe() -> CondaPrefixProbe {
    CondaPrefixProbe { facts: no_facts(), history: None, meta_files: Vec::new(), resolved_history_executable: None }
}

fn environment() -> Environment {
    Environment { user_home: None, root: None, variables: Vec::new(), global_search_locations: Vec::new() }
}

#[test]
fn detects_mamba_and_micromamba_binaries() {
    assert!(is_mamba_executable("/tmp/mamba"));
    assert!(is_mamba_executable("/tmp/micromamba"));
    assert!(!is_mamba_executable("/tmp/conda"));
}

#[test]
fn parses_conda_dir_from_history_command() {
    let result = get_conda_dir_from_cmd("# cmd: /opt/miniconda3/bin/conda create -n analysis", &None);
    assert_eq!(result.as_deref(), Some("/opt/miniconda3"));
}

#[test]
fn parses_conda_dir_from_condabin_history() {
    let result = get_conda_dir_from_cmd("# cmd: /home/user/miniconda3/condabin/conda create -n test", &None);
    assert_eq!(result.as_deref(), Some("/home/user/miniconda3"));
}

#[test]
fn parses_conda_dir_from_scripts_history() {
    let result = get_conda_dir_from_cmd(r"# cmd: C:\Users\user\miniconda3\Scripts\conda.exe create -n env1", &None);
    assert_eq!(result.as_deref(), Some(r"C:\Users\user\miniconda3"));
}

#[test]
fn is_conda_env_requires_conda_meta() {
    let path = "/tmp/env";
    assert!(!is_conda_env(path, &no_facts()));
    let with_meta = FileFacts { existing: vec!["/tmp/env/conda-meta".into()], dirs: vec!["/tmp/env/conda-meta".into()], files: Vec::new() };
    assert!(is_conda_env(path, &with_meta));
    let pixi = FileFacts {
        existing: vec!["/tmp/env/conda-meta".into()],
        dirs: vec!["/tmp/env/conda-meta".into()],
        files: vec!["/tmp/env/conda-meta/pixi".into()],
    };
    assert!(!is_conda_env(path, &pixi));
}

#[test]
fn is_conda_install_requires_condabin_and_conda_meta() {
    let path = "/tmp/conda";
    assert!(!is_conda_install(path, &no_facts()));
    let only_condabin = FileFacts { existing: vec!["/tmp/conda/condabin".into()], dirs: Vec::new(), files: Vec::new() };
    assert!(!is_conda_install(path, &only_condabin));
    let both = FileFacts {
        existing: vec!["/tmp/conda/condabin".into(), "/tmp/conda/conda-meta".into()],
        dirs: Vec::new(),
        files: Vec::new(),
    };
    assert!(is_conda_install(path, &both));
}

#[test]
fn creation_line_and_env_name_come_from_history() {
    let history = "==> 2024 <==\n# cmd: /opt/conda/bin/conda create -n analysis r-base\n".to_string();
    assert_eq!(
        get_conda_creation_line_from_history(&history).as_deref(),
        Some("# cmd: /opt/conda/bin/conda create -n analysis r-base")
    );
    let name = get_conda_env_name("/elsewhere/analysis", &Some("/opt/conda".to_string()), &no_facts(), &Some(history));
    assert_eq!(name.as_deref(), Some("analysis"));
    let inside = get_conda_env_name("/opt/conda/envs/analysis", &Some("/opt/conda".to_string()), &no_facts(), &None);
    assert_eq!(inside.as_deref(), Some("analysis"));
}

#[test]
fn conda_identity_uses_structured_fields_instead_of_a_synthetic_display_name() {
    let prefix = "/opt/conda/envs/seurat4";
    let resolved = ResolvedRInstallation {
        executable: format!("{prefix}/bin/R"),
        home: format!("{prefix}/lib/R"),
        version: "4.3.3".to_string(),
        arch: Architecture::X64,
        known_executables: None,
        symlinks: None,
    };
    let installation = Conda::from(&environment()).build_installation(prefix, resolved, None, &empty_probe(), false);
    assert_eq!(installation.display_name, None);
    assert_eq!(installation.name.as_deref(), Some("seurat4"));
    assert_eq!(installation.version.as_deref(), Some("4.3.3"));
    assert_eq!(installation.kind, Some(RInstallationKind::Conda));
    assert_eq!(installation.startup_command.as_deref(), Some("conda activate /opt/conda/envs/seurat4"));
    assert!(matches!(installation.locator_metadata, Some(LocatorMetadata::Conda { .. })));
}

#[test]
fn conda_refresh_state_respects_sync_scope() {
    let mut target = Conda::from(&environment());
    let prefix = "/tmp/ret-conda-state/env".to_string();
    let mut source = Conda::from_shared_environment_cache(&environment(), &target);
    source.environments.insert(prefix.clone(), RInstallationBuilder::new(None).build());
    target.sync_refresh_state_from(source, &RefreshStateSyncScope::Workspace);
    assert!(!target.environments.contains_key(&prefix));

    let mut source = Conda::from_shared_environment_cache(&environment(), &target);
    source.environments.insert(prefix.clone(), RInstallationBuilder::new(None).build());
    target.sync_refresh_state_from(source, &RefreshStateSyncScope::Full);
    assert!(target.environments.contains_key(&prefix));
}

#[test]
fn manager_from_conda_info_prefers_the_root_prefix() {
    let info = CondaInfo::from(
        "/opt/conda/bin/conda".to_string(),
        None,
        Some("/opt/conda/envs/x".to_string()),
        Some(String::new()),
        Some("/opt/conda".to_string()),
    );
    let manager = CondaManager::from_info("/opt/conda/bin/conda", &info, EnvManagerType::Conda).unwrap();
    assert_eq!(manager.conda_dir.as_deref(), Some("/opt/conda"));
    assert_eq!(manager.version, None);
    assert_eq!(manager.to_manager().tool, EnvManagerType::Conda);
    assert_eq!(info.all_envs(), vec!["/opt/conda".to_string(), "/opt/conda/envs/x".to_string()]);
}

#[test]
fn preferred_executable_is_r_in_bin() {
    let known = vec!["/env/bin/R".to_string(), "/env/bin/Rscript".to_string()];
    assert_eq!(pick_preferred_executable("/env/lib/R/bin/exec/R", &known, false), "/env/bin/R");
    assert_eq!(pick_preferred_executable("/env/found/R", &Vec::new(), false), "/env/found/R");
    assert_eq!(build_conda_startup_command("/env", true), None);
}

fn strings(v: &[&str]) -> Vec<String> {
    v.iter().map(|s| s.to_string()).collect()
}

#[test]
fn environment_manager_prefers_conda_unless_mamba_is_configured() {
    let facts = FileFacts {
        existing: strings(&["/opt/conda/condabin", "/opt/conda/conda-meta", "/opt/conda/bin/conda", "/opt/conda/bin/mamba"]),
        dirs: strings(&["/opt/conda/condabin", "/opt/conda/conda-meta"]),
        files: strings(&["/opt/conda/bin/conda", "/opt/conda/bin/mamba"]),
    };
    let probe = CondaPrefixProbe { facts, history: None, meta_files: Vec::new(), resolved_history_executable: None };
    let mut conda = Conda::from(&environment());
    let m = conda.get_manager_for_prefix("/opt/conda/envs/a", false, &probe).unwrap();
    assert_eq!(m.executable, "/opt/conda/bin/conda");
    assert_eq!(m.manager_type, EnvManagerType::Conda);
    assert_eq!(m.conda_dir.as_deref(), Some("/opt/conda"));
    conda.conda_executable = Some("/usr/bin/mamba".to_string());
    let m = conda.get_manager_for_prefix("/opt/conda/envs/a", false, &probe).unwrap();
    assert_eq!(m.executable, "/opt/conda/bin/mamba");
    assert_eq!(m.manager_type, EnvManagerType::Mamba);
    assert!(conda.get_manager_for_prefix("/elsewhere/envs/a", false, &empty_probe()).is_none());
}

#[test]
fn installation_is_read_from_environment_metadata() {
    let prefix = "/opt/conda/envs/stats";
    let facts = FileFacts {
        existing: strings(&["/opt/conda/envs/stats/lib/R", "/opt/conda/envs/stats/bin/R"]),
        dirs: strings(&["/opt/conda/envs/stats/lib/R"]),
        files: strings(&["/opt/conda/envs/stats/bin/R"]),
    };
    let probe = CondaPrefixProbe {
        facts,
        history: Some("+conda-forge/linux-64::r-base-4.3.1-h1a7235e_0\n".to_string()),
        meta_files: vec![MetaFile {
            path: "/opt/conda/envs/stats/conda-meta/r-base-4.3.1-h1a7235e_0.json".to_string(),
            record: Some(CondaMetaPackage {
                version: Some("4.3.1".to_string()),
                channel: None,
                subdir: Some("linux-64".to_string()),
                arch: Some("x86_64".to_string()),
            }),
        }],
        resolved_history_executable: None,
    };
    let conda = Conda::from(&environment());
    let i = conda
        .installation_from_metadata(prefix, "/opt/conda/envs/stats/lib/R/bin/exec/R", None, &probe, false)
        .unwrap();
    assert_eq!(i.kind, Some(RInstallationKind::Conda));
    assert_eq!(i.version.as_deref(), Some("4.3.1"));
    assert_eq!(i.arch, Some(Architecture::X64));
    assert_eq!(i.home.as_deref(), Some("/opt/conda/envs/stats/lib/R"));
    assert_eq!(i.executable.as_deref(), Some("/opt/conda/envs/stats/bin/R"));
    assert_eq!(i.startup_command.as_deref(), Some("conda activate /opt/conda/envs/stats"));
    assert!(conda.installation_from_metadata(prefix, "/x/R", None, &empty_probe(), false).is_none());
}

#[allow(dead_code)]
fn unused(_: RInstallation) {}
