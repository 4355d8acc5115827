use ret::arch::Architecture;
use ret::cli::{create_config, create_locators, default_command, find_options, request_methods, Commands};
use ret::facts::FileFacts;
use ret::locator::{Host, LocatorKind};
use ret::output::OutputSchema;
use ret::r_installation::RInstallationKind;

fn strings(v: &[&str]) -> Vec<String> {
    v.iter().map(|s| s.to_string()).collect()
}

fn host(windows: bool, unix: bool, macos: bool) -> Host {
    Host { windows, unix, macos, arch: Architecture::X64 }
}

#[test]
fn default_command_lists_everything() {
    match default_command() {
        Commands::Find {
            search_paths,
            list,
            cache_directory,
            verbose,
            kind,
            json,
            rig_executable,
            conda_executable,
            output_schema,
        } => {
            assert!(search_paths.is_none());
            assert!(list);
            assert!(cache_directory.is_none());
            assert!(!verbose);
            assert!(kind.is_none());
            assert!(!json);
            assert!(rig_executable.is_none());
            assert!(conda_executable.is_none());
            assert_eq!(output_schema, OutputSchema::Ret);
        }
        _ => panic!("default command is not find"),
    }
}

#[test]
fn find_options_always_print_summary() {
    let options = find_options(
        Some(strings(&["/opt"])),
        false,
        Some("/tmp/cache".to_string()),
        true,
        Some(RInstallationKind::Conda),
        true,
        None,
        Some("/usr/bin/conda".to_string()),
    );
    assert!(options.print_summary);
    assert!(!options.print_list);
    assert!(options.verbose);
    assert!(options.json);
    assert_eq!(options.search_paths, Some(strings(&["/opt"])));
    assert_eq!(options.cache_directory.as_deref(), Some("/tmp/cache"));
    assert_eq!(options.conda_executable.as_deref(), Some("/usr/bin/conda"));
    assert!(options.rig_executable.is_none());
}

#[test]
fn create_config_sorts_and_splits_search_paths() {
    let options = find_options(None, true, Some("/c".to_string()), false, None, false, Some("/rig".to_string()), None);
    let facts = FileFacts {
        existing: strings(&["/b", "/a", "/bin/R"]),
        dirs: strings(&["/b", "/a"]),
        files: strings(&["/bin/R"]),
    };
    let expanded = strings(&["/b", "/bin/R", "/a", "/b", "/missing"]);
    let config = create_config(&options, &expanded, &facts);
    assert_eq!(config.search_directories, Some(strings(&["/a", "/b"])));
    assert_eq!(config.executables, Some(strings(&["/bin/R"])));
    assert!(config.workspace_directories.is_none());
    assert!(config.environment_directories.is_none());
    assert_eq!(config.cache_directory.as_deref(), Some("/c"));
    assert_eq!(config.rig_executable.as_deref(), Some("/rig"));
    assert!(config.conda_executable.is_none());
}

#[test]
fn linux_locators_in_order() {
    assert_eq!(
        create_locators(host(false, true, false)),
        vec![
            LocatorKind::Pixi,
            LocatorKind::Conda,
            LocatorKind::Rig,
            LocatorKind::Homebrew,
            LocatorKind::Nix,
            LocatorKind::Guix,
            LocatorKind::Spack,
            LocatorKind::RVersions,
            LocatorKind::EnvironmentModule,
            LocatorKind::LinuxGlobal,
        ]
    );
}

#[test]
fn macos_locators_in_order() {
    let v = create_locators(host(false, true, true));
    assert_eq!(v.len(), 11);
    assert_eq!(&v[9..], &[LocatorKind::MacPorts, LocatorKind::MacFramework]);
    assert!(!v.contains(&LocatorKind::LinuxGlobal));
}

#[test]
fn windows_locators_in_order() {
    assert_eq!(
        create_locators(host(true, false, false)),
        vec![
            LocatorKind::WindowsRegistry,
            LocatorKind::WindowsHq,
            LocatorKind::Scoop,
            LocatorKind::Chocolatey,
            LocatorKind::Pixi,
            LocatorKind::Conda,
            LocatorKind::Rig,
        ]
    );
}

#[test]
fn pixi_comes_before_conda_everywhere() {
    for h in [host(true, false, false), host(false, true, false), host(false, true, true)] {
        let v = create_locators(h);
        let pixi = v.iter().position(|k| *k == LocatorKind::Pixi).unwrap();
        let conda = v.iter().position(|k| *k == LocatorKind::Conda).unwrap();
        assert!(pixi < conda);
    }
}

#[test]
fn server_methods() {
    assert_eq!(
        request_methods(),
        strings(&["configure", "refresh", "find", "resolve", "condaInfo", "clear", "clearCache"])
    );
}

#[test]
fn default_output_schema_is_ret() {
    assert_eq!(OutputSchema::default(), OutputSchema::Ret);
}
