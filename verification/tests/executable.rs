use ret::executable::{
    executable_candidates_for_platform, find_executable, find_executable_or_broken, find_executables,
    is_r_executable_name, should_search_for_installations_in_path, ExecutableResult,
};
use ret::facts::FileFacts;
use ret::locator::is_path_within;

#[test]
fn windows_layouts_include_every_architecture_and_conda_entrypoint() {
    let root = "prefix";
    for architecture in ["x86_64", "aarch64", "x86"] {
        let candidates = executable_candidates_for_platform(root, true, architecture);
        for layout in [
            "bin/x64/R.exe",
            "bin/i386/R.exe",
            "bin/aarch64/R.exe",
            "bin/arm64/R.exe",
            "Scripts/R.exe",
            "Library/bin/R.exe",
        ] {
            let expected = format!("{root}/{layout}");
            assert!(candidates.contains(&expected), "missing {layout}");
        }
        let preferred = match architecture {
            "aarch64" => "aarch64",
            "x86" => "i386",
            _ => "x64",
        };
        let position = |dir: &str| {
            candidates
                .iter()
                .position(|path| path == &format!("{root}/bin/{dir}/R.exe"))
                .unwrap()
        };
        let first = position(preferred);
        for other in ["x64", "i386", "aarch64"] {
            if other != preferred {
                assert!(first < position(other));
            }
        }
    }
}

#[test]
fn path_within_accepts_nonexistent_descendant() {
    let root = "/tmp/ret-test-root";
    let child = "/tmp/ret-test-root/bin/R";
    assert!(is_path_within(child, root));
    assert!(!is_path_within("/tmp/sibling/R", root));
}

#[test]
fn only_r_binaries_count_as_executables() {
    assert!(is_r_executable_name("R", false));
    assert!(is_r_executable_name("rscript", false));
    assert!(!is_r_executable_name("python", false));
    assert!(is_r_executable_name("C:/R/bin/R.exe", true));
}

#[test]
fn unix_layouts_are_all_candidates() {
    let candidates = executable_candidates_for_platform("/tmp/root", false, "x86_64");
    for layout in ["bin/R", "lib/R/bin/R", "lib64/R/bin/R", "Resources/bin/R", "R"] {
        let executable = format!("/tmp/root/{layout}");
        assert!(candidates.contains(&executable), "{layout}");
    }
}

#[test]
fn dependency_trees_are_not_searched() {
    assert!(!should_search_for_installations_in_path("/tmp/project/node_modules"));
    assert!(!should_search_for_installations_in_path("/tmp/project/.git"));
    assert!(should_search_for_installations_in_path("/tmp/project/toolchains"));
}

#[test]
fn first_executable_else_broken_link_is_reported() {
    let found = vec!["/opt/R/bin/R".to_string(), "/opt/R/R".to_string()];
    assert_eq!(find_executable(&found), Some("/opt/R/bin/R".to_string()));
    assert_eq!(find_executable(&Vec::new()), None);
    assert!(matches!(
        find_executable_or_broken("/opt/R", false, &found, &Vec::new()),
        ExecutableResult::Found(p) if p == "/opt/R/bin/R"
    ));
    assert!(matches!(
        find_executable_or_broken("/opt/R", false, &Vec::new(), &vec!["/opt/R/bin/R".to_string()]),
        ExecutableResult::Broken(p) if p == "/opt/R/bin/R"
    ));
    assert!(matches!(find_executable_or_broken("/opt/R", true, &found, &Vec::new()), ExecutableResult::Broken(p) if p == "/opt/R"));
    assert!(matches!(find_executable_or_broken("/opt/R", false, &Vec::new(), &Vec::new()), ExecutableResult::NotFound));
}

fn facts_of(files: &[&str]) -> FileFacts {
    let files: Vec<String> = files.iter().map(|f| f.to_string()).collect();
    FileFacts { existing: files.clone(), dirs: Vec::new(), files }
}

#[test]
fn find_executable_prefers_r_binary_in_bin_directory() {
    let home = "/tmp/ret-r-utils-exe/R";
    let r = "/tmp/ret-r-utils-exe/R/bin/R".to_string();
    let rscript = "/tmp/ret-r-utils-exe/R/bin/Rscript".to_string();
    let facts = facts_of(&[&r, &rscript]);
    let listings = vec![("/tmp/ret-r-utils-exe/R/bin".to_string(), vec![r.clone(), rscript.clone()])];
    let executables = find_executables(home, false, "x86_64", &facts, &listings);
    assert_eq!(find_executable(&executables), Some(r.clone()));
    assert!(executables.contains(&r));
    assert!(executables.contains(&rscript));
}

#[test]
fn find_executables_adds_case_variants_after_the_candidates() {
    let facts = facts_of(&["/opt/R/bin/Rscript", "/opt/R/bin/r", "/opt/R/bin/README"]);
    let listings = vec![(
        "/opt/R/bin".to_string(),
        vec!["/opt/R/bin/r".to_string(), "/opt/R/bin/README".to_string(), "/opt/R/bin/Rscript".to_string()],
    )];
    let executables = find_executables("/opt/R", false, "x86_64", &facts, &listings);
    assert_eq!(executables, vec!["/opt/R/bin/Rscript".to_string(), "/opt/R/bin/r".to_string()]);
}

#[test]
fn find_executables_of_a_file_is_the_file_when_named_like_r() {
    let facts = facts_of(&["/usr/bin/R", "/usr/bin/python"]);
    assert_eq!(find_executables("/usr/bin/R", false, "x86_64", &facts, &Vec::new()), vec!["/usr/bin/R".to_string()]);
    assert!(find_executables("/usr/bin/python", false, "x86_64", &facts, &Vec::new()).is_empty());
}
