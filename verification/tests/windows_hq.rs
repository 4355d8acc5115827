use ret::environment::Environment;
use ret::locators::windows_hq::{is_windows_hq_path, windows_hq_dirs};

#[test]
fn recognizes_hq_paths() {
    let hq_dirs = vec![
        r"C:\Program Files\R".to_string(),
        r"C:\Users\me\AppData\Local\Programs\R".to_string(),
    ];
    assert!(is_windows_hq_path(r"C:\Program Files\R\R-4.4.1\bin\R.exe", &hq_dirs));
    assert!(is_windows_hq_path(r"C:\Users\me\AppData\Local\Programs\R\R-4.4.1\bin\R.exe", &hq_dirs));
    assert!(!is_windows_hq_path(r"C:\ProgramData\chocolatey\shims\R.exe", &hq_dirs));
}

#[test]
fn arm64_and_x86_roots_are_included_independently_of_ret_architecture() {
    let environment = Environment {
        user_home: None,
        root: None,
        variables: vec![
            ("PROGRAMFILES".to_string(), "programs".to_string()),
            ("ProgramFiles".to_string(), "programs".to_string()),
            ("ProgramW6432".to_string(), "programs".to_string()),
            ("ProgramFiles(x86)".to_string(), "programs-x86".to_string()),
            ("LOCALAPPDATA".to_string(), "user-local".to_string()),
        ],
        global_search_locations: Vec::new(),
    };
    let roots = windows_hq_dirs(&environment);
    for path in ["programs/R", "programs/R-aarch64", "programs-x86/R", "user-local/Programs/R-aarch64"] {
        assert!(roots.contains(&path.to_string()), "missing {path}");
    }
}

#[test]
fn default_program_directories_are_used_without_variables() {
    let environment = Environment { user_home: None, root: None, variables: Vec::new(), global_search_locations: Vec::new() };
    assert_eq!(windows_hq_dirs(&environment).len(), 3);
}
