use ret::environment::Environment;
use ret::locators::scoop::{looks_like_scoop_path, scoop_base_roots, scoop_config_path, scoop_install_roots, scoop_manager};

#[test]
fn recognizes_scoop_paths() {
    assert!(looks_like_scoop_path(r"C:\Users\me\scoop\apps\r\current\bin\R.exe"));
    assert!(looks_like_scoop_path(r"C:\Users\me\scoop\apps\r-base\4.4.1\bin\R.exe"));
    assert!(!looks_like_scoop_path(r"C:\Program Files\R\R-4.4.1\bin\R.exe"));
}

#[test]
fn includes_user_global_environment_and_configured_roots() {
    let environment = Environment {
        user_home: Some("/tmp/t/home".to_string()),
        root: None,
        variables: vec![
            ("SCOOP".to_string(), "/env/user".to_string()),
            ("SCOOP_GLOBAL".to_string(), "/env/global".to_string()),
            ("XDG_CONFIG_HOME".to_string(), "/tmp/t/config".to_string()),
            ("ProgramData".to_string(), "/program-data".to_string()),
        ],
        global_search_locations: Vec::new(),
    };
    assert_eq!(scoop_config_path(&environment).as_deref(), Some("/tmp/t/config/scoop/config.json"));
    let config = Some(r#"{"root_path":"/configured/user","global_path":"/configured/global"}"#.to_string());
    let roots = scoop_base_roots(&environment, &config);
    assert!(roots.contains(&"/env/user".to_string()));
    assert!(roots.contains(&"/env/global".to_string()));
    assert!(roots.contains(&"/configured/user".to_string()));
    assert!(roots.contains(&"/configured/global".to_string()));
    assert!(roots.contains(&"/program-data/scoop".to_string()));
    let install_roots = scoop_install_roots(&roots);
    assert!(install_roots.contains(&"/configured/global/apps/r".to_string()));
    assert!(install_roots.contains(&"/env/user/apps/r-base".to_string()));
    let manager = scoop_manager(&roots, &vec!["/env/user/shims/scoop.ps1".to_string()]).unwrap();
    assert_eq!(manager.executable, "/env/user/shims/scoop.ps1");
}

#[test]
fn unreadable_scoop_config_adds_no_roots() {
    let environment = Environment {
        user_home: Some("/home/me".to_string()),
        root: None,
        variables: Vec::new(),
        global_search_locations: Vec::new(),
    };
    let roots = scoop_base_roots(&environment, &Some("not json".to_string()));
    assert_eq!(roots, vec!["/home/me/scoop".to_string()]);
}
