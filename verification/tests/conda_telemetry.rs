use ret::arch::Architecture;
use ret::conda::locator::Conda;
use ret::conda::manager::CondaInfo;
use ret::environment::Environment;
use ret::facts::FileFacts;
use ret::locator::Host;

fn strings(v: &[&str]) -> Vec<String> {
    v.iter().map(|s| s.to_string()).collect()
}

fn linux() -> Host {
    Host { windows: false, unix: true, macos: false, arch: Architecture::X64 }
}

fn environment() -> Environment {
    Environment {
        user_home: Some("/home/u".to_string()),
        root: None,
        variables: Vec::new(),
        global_search_locations: Vec::new(),
    }
}

#[test]
fn telemetry_reports_what_conda_and_the_disk_show() {
    let env = environment();
    let conda = Conda::from(&env);
    let facts = FileFacts {
        existing: strings(&[
            "/home/u/.condarc",
            "/home/u/.conda/environments.txt",
            "/home/u/miniconda3/envs/a",
            "/home/u/miniconda3/bin/conda",
            "/home/u/miniconda3/conda-meta",
        ]),
        dirs: strings(&["/home/u/miniconda3/envs/a", "/home/u/miniconda3/conda-meta"]),
        files: strings(&["/home/u/.condarc", "/home/u/miniconda3/bin/conda"]),
    };
    let info = CondaInfo {
        executable: "/home/u/miniconda3/bin/conda".to_string(),
        envs: Vec::new(),
        conda_prefix: Some("/home/u/miniconda3".to_string()),
        conda_version: String::new(),
        root_prefix: None,
    };
    let t = conda.get_info_for_telemetry(
        &env,
        linux(),
        &Some("/home/u/miniconda3/bin/conda".to_string()),
        &Some(info),
        &facts,
        &strings(&["envs_dirs:\n  - /data/envs\n"]),
        "/home/u/miniconda3/envs/a\n/gone\n",
        &strings(&["/home/u/miniconda3"]),
    );
    assert!(t.can_spawn_conda);
    assert_eq!(t.conda_rcs, strings(&["/home/u/.condarc"]));
    assert_eq!(t.env_dirs, strings(&["/data/envs"]));
    assert_eq!(t.environments_txt.as_deref(), Some("/home/u/.conda/environments.txt"));
    assert_eq!(t.environments_txt_exists, Some(true));
    assert_eq!(t.environments_from_txt, strings(&["/home/u/miniconda3/envs/a"]));
    assert_eq!(t.user_provided_env_found, Some(true));
    assert_eq!(t.executable.as_deref(), Some("/home/u/miniconda3/bin/conda"));
    assert!(t.conda_version.is_none());
    assert!(t.root_prefix.is_none());
    assert_eq!(t.conda_prefix.as_deref(), Some("/home/u/miniconda3"));
}

#[test]
fn telemetry_without_conda_or_home() {
    let env = Environment { user_home: None, root: None, variables: Vec::new(), global_search_locations: Vec::new() };
    let conda = Conda::from(&env);
    let facts = FileFacts { existing: Vec::new(), dirs: Vec::new(), files: Vec::new() };
    let t = conda.get_info_for_telemetry(&env, linux(), &None, &None, &facts, &Vec::new(), "", &Vec::new());
    assert!(!t.can_spawn_conda);
    assert!(t.environments_txt.is_none());
    assert!(t.environments_txt_exists.is_none());
    assert!(t.user_provided_env_found.is_none());
    assert!(t.executable.is_none());
    assert!(t.conda_prefix.is_none());
}
