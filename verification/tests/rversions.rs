use ret::arch::Architecture;
use ret::environment::Environment;
use ret::locator::Host;
use ret::locators::rversions::{merge_optional_paths, RVersions};
use ret::r_installation::{DiscoverySource, RInstallationKind};
use ret::renv::REnv;
use ret::resolved::ResolvedRInstallation;
use ret::rversions::{
    combine_startup_command, entry_executable, find_rversions_file, parse_rversions_file,
    rversions_file_candidates,
};

#[test]
fn parses_path_only_entries() {
    let entries = parse_rversions_file("Path: /opt/R/4.3.0/lib/R");

    assert_eq!(entries.len(), 1);
    assert_eq!(entries[0].path.as_deref(), Some("/opt/R/4.3.0/lib/R"));
    assert_eq!(entries[0].label, None);
}

#[test]
fn parses_multiple_entries_with_multiple_blank_lines() {
    let entries = parse_rversions_file(
        "Path: /opt/R/4.3.0/lib/R\n\n\nPath: /opt/R/4.4.0/lib/R\nLabel: Production\n",
    );

    assert_eq!(entries.len(), 2);
    assert_eq!(entries[1].path.as_deref(), Some("/opt/R/4.4.0/lib/R"));
    assert_eq!(entries[1].label.as_deref(), Some("Production"));
}

#[test]
fn parses_module_only_entries() {
    let entries = parse_rversions_file("Module: R/4.3.0\nLabel: Production");

    assert_eq!(entries.len(), 1);
    assert_eq!(entries[0].module.as_deref(), Some("R/4.3.0"));
    assert_eq!(entries[0].label.as_deref(), Some("Production"));
}

#[test]
fn parses_all_supported_fields() {
    let entries = parse_rversions_file(
        "Path: /opt/R/4.3.0/lib/R\nLabel: Production\nModule: R/4.3.0\nScript: /opt/load.sh\nRepo: https://ppm.example.com/cran/latest\nLibrary: /opt/R-libs",
    );

    assert_eq!(entries.len(), 1);
    let entry = &entries[0];
    assert_eq!(entry.label.as_deref(), Some("Production"));
    assert_eq!(entry.module.as_deref(), Some("R/4.3.0"));
    assert_eq!(entry.script.as_deref(), Some("/opt/load.sh"));
    assert_eq!(entry.repo.as_deref(), Some("https://ppm.example.com/cran/latest"));
    assert_eq!(entry.library.as_deref(), Some("/opt/R-libs"));
}

#[test]
fn trims_whitespace_and_keeps_values_with_colons() {
    let entries = parse_rversions_file(
        "  Path  :   /opt/R/4.3.0/lib/R\n  Library : /path/one:/path/two:/path/three  ",
    );

    assert_eq!(entries.len(), 1);
    assert_eq!(entries[0].path.as_deref(), Some("/opt/R/4.3.0/lib/R"));
    assert_eq!(entries[0].library.as_deref(), Some("/path/one:/path/two:/path/three"));
}

#[test]
fn skips_entries_without_path_or_module() {
    let entries = parse_rversions_file("Label: orphan\n\nPath: /opt/R/4.3.0/lib/R");

    assert_eq!(entries.len(), 1);
    assert_eq!(entries[0].path.as_deref(), Some("/opt/R/4.3.0/lib/R"));
}

#[test]
fn ignores_comments_and_invalid_lines() {
    let entries = parse_rversions_file(
        "# comment\nPath: /opt/R/4.3.0/lib/R\nThis line has no colon\n\n# another\nModule: R/4.4.0",
    );

    assert_eq!(entries.len(), 2);
}

#[test]
fn finds_rversions_file_using_xdg_search_order() {
    let home = Some("/tmp/t/home".to_string());
    let xdg_config_home = Some("/tmp/t/xdg-home".to_string());
    let xdg_config_dirs = vec!["/tmp/t/xdg-dir".to_string()];
    let expected = "/tmp/t/xdg-home/rstudio/r-versions".to_string();
    let files = vec![
        "/tmp/t/xdg-dir/rstudio/r-versions".to_string(),
        expected.clone(),
    ];

    let found = find_rversions_file(&home, &xdg_config_home, &xdg_config_dirs, &files);

    assert_eq!(found, Some(expected));
}

#[test]
fn keys_are_case_insensitive_and_unknown_keys_ignored() {
    let entries = parse_rversions_file("PATH: /opt/R\nColor: blue\nlAbEl: x");
    assert_eq!(entries.len(), 1);
    assert_eq!(entries[0].path.as_deref(), Some("/opt/R"));
    assert_eq!(entries[0].label.as_deref(), Some("x"));
    assert_eq!(entries[0].repo, None);
}

#[test]
fn candidates_fall_back_to_home_config_and_etc_and_are_deduplicated() {
    let c = rversions_file_candidates(&Some("/home/u".to_string()), &None, &vec!["/etc".to_string()]);
    assert_eq!(
        c,
        vec![
            "/home/u/.config/rstudio/r-versions".to_string(),
            "/etc/rstudio/r-versions".to_string(),
        ]
    );
    let d = rversions_file_candidates(&None, &None, &vec![]);
    assert_eq!(
        d,
        vec!["/etc/xdg/rstudio/r-versions".to_string(), "/etc/rstudio/r-versions".to_string()]
    );
}

#[test]
fn merge_optional_paths_concatenates_and_drops_empty() {
    assert_eq!(merge_optional_paths(&None, &Some(vec![])), None);
    assert_eq!(
        merge_optional_paths(&Some(vec!["/a".to_string()]), &Some(vec!["/b".to_string()])),
        Some(vec!["/a".to_string(), "/b".to_string()])
    );
}

fn linux() -> Host {
    Host { windows: false, unix: true, macos: false, arch: Architecture::X64 }
}

fn resolved(exe: &str, home: &str) -> ResolvedRInstallation {
    ResolvedRInstallation {
        executable: exe.to_string(),
        home: home.to_string(),
        version: "4.4.1".to_string(),
        arch: Architecture::X64,
        known_executables: Some(vec![exe.to_string()]),
        symlinks: None,
    }
}

#[test]
fn rversions_locator_reads_xdg_variables() {
    let environment = Environment {
        user_home: Some("/home/u".to_string()),
        root: None,
        variables: vec![
            ("XDG_CONFIG_HOME".to_string(), "/cfg".to_string()),
            ("XDG_CONFIG_DIRS".to_string(), "/a:/b".to_string()),
        ],
        global_search_locations: vec![],
    };
    let locator = RVersions::from(&environment, &vec![]);
    assert_eq!(locator.user_home.as_deref(), Some("/home/u"));
    assert_eq!(locator.xdg_config_home.as_deref(), Some("/cfg"));
    assert_eq!(locator.xdg_config_dirs, vec!["/a".to_string(), "/b".to_string()]);
    assert_eq!(locator.modulecmd, None);
}

#[test]
fn resolved_entries_carry_label_script_library_and_module() {
    let locator = RVersions {
        user_home: None,
        modulecmd: Some("/usr/bin/modulecmd".to_string()),
        xdg_config_home: None,
        xdg_config_dirs: vec![],
    };
    let entries = parse_rversions_file(
        "Path: /opt/R/4.4.1/lib/R\nLabel: Production\nScript: /opt/load.sh\nLibrary: /opt/libs\n\nModule: R/4.3.0\n\nPath: /opt/R/missing",
    );
    assert_eq!(entry_executable(&entries[0]).as_deref(), Some("/opt/R/4.4.1/lib/R/bin/R"));
    assert_eq!(entry_executable(&entries[1]), None);
    let probes = vec![
        Some(resolved("/opt/R/4.4.1/lib/R/bin/R", "/opt/R/4.4.1/lib/R")),
        Some(resolved("/apps/R/4.3.0/bin/R", "/apps/R/4.3.0/lib/R")),
        None,
    ];
    let loaded = locator.load_entries(entries, probes, linux());
    assert_eq!(loaded.len(), 2);
    assert_eq!(loaded[0].label.as_deref(), Some("Production"));
    assert_eq!(loaded[0].startup_command.as_deref(), Some(". /opt/load.sh"));
    assert_eq!(
        loaded[0].environment_variables,
        Some(vec![("R_LIBS".to_string(), "/opt/libs".to_string())])
    );
    assert_eq!(
        loaded[1].startup_command.as_deref(),
        Some("eval $(/usr/bin/modulecmd sh load R/4.3.0)")
    );
    let overlay = loaded[1].rversions_overlay.as_ref().unwrap();
    assert_eq!(overlay.module.as_deref(), Some("R/4.3.0"));

    let found = locator.find(&loaded, linux());
    assert_eq!(found.len(), 2);
    assert_eq!(found[0].display_name.as_deref(), Some("Production"));
    assert_eq!(found[0].kind, Some(RInstallationKind::LinuxGlobal));
    assert_eq!(found[1].kind, Some(RInstallationKind::EnvironmentModule));
    assert_eq!(
        found[0].discovered_by,
        vec![DiscoverySource::Locator, DiscoverySource::RVersions]
    );

    let env = REnv::new("/other/bin/R".to_string(), Some("/opt/R/4.4.1/lib/R".to_string()), None);
    let matched = locator.try_from(&env, &loaded, linux()).unwrap();
    assert_eq!(matched.executable.as_deref(), Some("/other/bin/R"));
    assert_eq!(matched.version.as_deref(), Some("4.4.1"));
    assert_eq!(matched.startup_command.as_deref(), Some(". /opt/load.sh"));
    let unknown = REnv::new("/x/bin/R".to_string(), None, None);
    assert!(locator.try_from(&unknown, &loaded, linux()).is_none());
    assert!(locator.find(&loaded, Host { windows: true, ..linux() }).is_empty());
}

#[test]
fn module_and_script_startup_commands_combine() {
    assert_eq!(
        combine_startup_command(&Some("eval $(m sh load R)".to_string()), &Some("/s.sh".to_string())),
        Some("eval $(m sh load R) && . /s.sh".to_string())
    );
    assert_eq!(combine_startup_command(&None, &None), None);
}

#[test]
fn each_block_with_a_path_or_module_is_one_entry_in_file_order() {
    let entries = parse_rversions_file(
        "Path: /a\nLabel: A\n\nLabel: orphan\n\nmodule: m1\n# comment\nno colon here\nScript : /s:x \n",
    );
    assert_eq!(entries.len(), 2);
    assert_eq!(entries[0].path.as_deref(), Some("/a"));
    assert_eq!(entries[0].label.as_deref(), Some("A"));
    assert_eq!(entries[1].path, None);
    assert_eq!(entries[1].module.as_deref(), Some("m1"));
    assert_eq!(entries[1].script.as_deref(), Some("/s:x"));
    assert_eq!(entries[1].label, None);
}
