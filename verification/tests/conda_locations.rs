use ret::arch::Architecture;
use ret::conda::conda_rc::{get_conda_rc_env_dirs, get_conda_rc_files, get_conda_rc_search_paths, is_condarc_file, parse_conda_rc_contents};
use ret::conda::environment_locations::{
    get_conda_dir_from_exe_path, get_conda_environment_paths, get_conda_envs_from_environment_txt,
    get_environments, get_known_conda_install_locations, known_conda_install_candidates,
};
use ret::environment::Environment;
use ret::facts::FileFacts;
use ret::locator::Host;

fn s(v: &[&str]) -> Vec<String> {
    v.iter().map(|x| x.to_string()).collect()
}

fn linux() -> Host {
    Host { windows: false, unix: true, macos: false, arch: Architecture::X64 }
}

#[test]
fn parse_envs_dirs() {
    let contents = "\nchannels:\n  - conda-forge\nenvs_dirs:\n  - /opt/conda/envs\n  - ~/my-envs\n";
    let result = parse_conda_rc_contents(contents, &Some("/home/user".to_string())).unwrap();
    assert_eq!(result.env_dirs.len(), 2);
    assert_eq!(result.env_dirs[0], "/opt/conda/envs");
}

#[test]
fn parse_envs_path() {
    let result = parse_conda_rc_contents("\nenvs_path:\n  - /custom/path/envs\n", &None).unwrap();
    assert_eq!(result.env_dirs, s(&["/custom/path/envs"]));
}

#[test]
fn parse_empty_rc() {
    let result = parse_conda_rc_contents("\nchannels:\n  - defaults\n", &None).unwrap();
    assert!(result.env_dirs.is_empty());
}

#[test]
fn parse_both_keys() {
    let result = parse_conda_rc_contents("\nenvs_dirs:\n  - /dir1\nenvs_path:\n  - /dir2\n", &None).unwrap();
    assert_eq!(result.env_dirs.len(), 2);
    assert!(result.env_dirs.contains(&"/dir1".to_string()));
    assert!(result.env_dirs.contains(&"/dir2".to_string()));
}

#[test]
fn invalid_yaml_and_blank_items() {
    assert!(parse_conda_rc_contents("envs_dirs: [unclosed", &None).is_none());
    let result = parse_conda_rc_contents("envs_dirs:\n  - '  '\n  - 3\n  - ' /x '\n", &None).unwrap();
    assert_eq!(result.env_dirs, s(&["/x"]));
    assert_eq!(get_conda_rc_env_dirs(&s(&["envs_dirs: [/b, /a]", "envs_path: [/a]", ": ["]), &None), s(&["/a", "/b"]));
    assert!(is_condarc_file("/home/u/.config/conda/condarc.d/extra.YML"));
    assert!(!is_condarc_file("/home/u/.config/conda/condarc.d/readme.txt"));
}

#[test]
fn condarc_search_paths_cover_system_home_and_variables() {
    let env = Environment {
        user_home: Some("/home/u".to_string()),
        root: None,
        variables: vec![("CONDARC".to_string(), "/custom/rc".to_string())],
        global_search_locations: vec![],
    };
    let paths = get_conda_rc_search_paths(&env, linux());
    for expected in ["/etc/conda/.condarc", "/var/lib/conda/condarc", "/home/u/.mambarc", "/home/u/.config/conda/condarc.d", "/custom/rc"] {
        assert!(paths.contains(&expected.to_string()), "missing {expected}");
    }
    assert_eq!(paths.len(), 12);
}

#[test]
fn known_locations_include_home_prefixes_and_variables() {
    let env = Environment {
        user_home: Some("/home/u".to_string()),
        root: None,
        variables: vec![("CONDA_PREFIX".to_string(), "/envs/x".to_string())],
        global_search_locations: vec![],
    };
    let c = known_conda_install_candidates(&env, linux(), &Some("/opt/miniforge".to_string()));
    for expected in ["/opt/conda", "/home/u/miniforge3", "/usr/share/micromamba", "/home/u/.conda", "/envs/x", "/opt/miniforge", "/home/linuxbrew/.linuxbrew/miniforge3"] {
        assert!(c.contains(&expected.to_string()), "missing {expected}");
    }
    let existing = s(&["/home/u/miniforge3", "/nothing"]);
    assert_eq!(get_known_conda_install_locations(&env, linux(), &None, &existing), s(&["/home/u/miniforge3"]));
}

fn install_facts() -> FileFacts {
    FileFacts {
        existing: s(&["/r/conda-meta", "/r/condabin", "/r/envs", "/r", "/r/envs/myenv"]),
        dirs: s(&["/r/conda-meta", "/r/condabin", "/r/envs", "/r/envs/myenv/conda-meta"]),
        files: s(&["/r/condabin/conda"]),
    }
}

fn listings() -> Vec<(String, Vec<String>)> {
    vec![("/r/envs".to_string(), s(&["/r/envs/myenv", "/r/envs/notes"]))]
}

#[test]
fn get_environments_includes_base_env() {
    let envs = get_environments("/r", &install_facts(), &listings());
    assert_eq!(envs, s(&["/r", "/r/envs/myenv"]));
}

#[test]
fn get_environments_from_child_discovers_base() {
    let envs = get_environments("/r/envs/myenv", &install_facts(), &listings());
    assert!(envs.contains(&"/r".to_string()));
    assert!(envs.contains(&"/r/envs/myenv".to_string()));
}

#[test]
fn get_environments_non_conda_dir_empty() {
    let envs = get_environments("/tmp/plain", &install_facts(), &listings());
    assert!(envs.is_empty());
}

#[test]
fn conda_dir_from_executable_climbs_to_the_environment() {
    assert_eq!(get_conda_dir_from_exe_path("/r/condabin/conda", &install_facts()).as_deref(), Some("/r"));
    assert_eq!(get_conda_dir_from_exe_path("/r/envs/myenv", &install_facts()).as_deref(), Some("/r/envs/myenv"));
    assert_eq!(get_conda_dir_from_exe_path("/elsewhere/conda", &install_facts()), None);
}

#[test]
fn environment_paths_combine_sources() {
    let mut facts = install_facts();
    facts.existing.push("/r/envs/myenv".to_string());
    let txt = get_conda_envs_from_environment_txt("  /r/envs/myenv  \n\n/missing\n", &facts);
    assert_eq!(txt, s(&["/r/envs/myenv"]));
    let mut sources = txt.clone();
    sources.push("/r".to_string());
    sources.push("/missing".to_string());
    let all = get_conda_environment_paths(sources, &facts, &listings());
    assert_eq!(all, s(&["/r", "/r/envs/myenv"]));
}

#[test]
fn rc_member_that_is_not_a_list_or_empty_text_lists_nothing() {
    assert!(parse_conda_rc_contents("envs_dirs: /single/dir\n", &None).unwrap().env_dirs.is_empty());
    assert!(parse_conda_rc_contents("", &None).unwrap().env_dirs.is_empty());
    assert!(parse_conda_rc_contents("envs_dirs: [unclosed\n", &None).is_none());
}

#[test]
fn rc_entries_expand_a_leading_tilde_with_the_home_directory() {
    let home = Some("/home/user".to_string());
    let result = parse_conda_rc_contents("envs_dirs:\n  - ~/my-envs\n  - '~'\n  - ~other/envs\n  - /a/~/b\n", &home).unwrap();
    assert_eq!(result.env_dirs, s(&["/home/user/my-envs", "/home/user/", "~other/envs", "/a/~/b"]));
    let unexpanded = parse_conda_rc_contents("envs_dirs:\n  - ~/my-envs\n", &None).unwrap();
    assert_eq!(unexpanded.env_dirs, s(&["~/my-envs"]));
    assert_eq!(get_conda_rc_env_dirs(&s(&["envs_path: ['~/x']"]), &home), s(&["/home/user/x"]));
}

#[test]
fn condarc_directories_contribute_their_configuration_files() {
    let paths = s(&["/etc/conda/.condarc", "/home/u/.config/conda/condarc.d", "/missing/condarc"]);
    let facts = FileFacts {
        existing: s(&["/etc/conda/.condarc", "/home/u/.config/conda/condarc.d", "/home/u/.config/conda/condarc.d/a.yml", "/home/u/.config/conda/condarc.d/notes.txt"]),
        dirs: s(&["/home/u/.config/conda/condarc.d"]),
        files: s(&["/etc/conda/.condarc", "/home/u/.config/conda/condarc.d/a.yml", "/home/u/.config/conda/condarc.d/notes.txt"]),
    };
    let listings = vec![(
        "/home/u/.config/conda/condarc.d".to_string(),
        s(&["/home/u/.config/conda/condarc.d/a.yml", "/home/u/.config/conda/condarc.d/notes.txt"]),
    )];
    assert_eq!(
        get_conda_rc_files(&paths, &facts, &listings),
        s(&["/etc/conda/.condarc", "/home/u/.config/conda/condarc.d/a.yml"])
    );
}

#[test]
fn conda_variables_expand_a_leading_tilde() {
    let env = Environment {
        user_home: Some("/home/u".to_string()),
        root: None,
        variables: vec![("CONDA_ROOT".to_string(), "~/miniconda3".to_string()), ("CONDARC".to_string(), "~/rc".to_string())],
        global_search_locations: vec![],
    };
    let paths = get_conda_rc_search_paths(&env, linux());
    assert!(paths.contains(&"/home/u/miniconda3/.condarc".to_string()));
    assert!(paths.contains(&"/home/u/rc".to_string()));
    let c = known_conda_install_candidates(&env, linux(), &None);
    assert!(c.contains(&"/home/u/miniconda3".to_string()));
    assert!(!c.iter().any(|p| p.starts_with('~')));
}
