use ret::conda::locator::Conda;
use ret::environment::Environment;
use ret::facts::FileFacts;
use ret::locators::linux_global::LinuxGlobalR;
use ret::locators::pixi::Pixi;
use ret::locators::rig::Rig;
use ret::locators::rversions::RVersions;
use ret::locator::{Configuration, Locator, RefreshStatePersistence, RefreshStateSyncScope};
use ret::manager::{EnvManager, EnvManagerType};
use ret::r_installation::{RInstallation, RInstallationKind};
use ret::refresh::{
    build_refresh_config, configured_directories, count_configured_search_paths, keys_equal,
    next_configuration, refresh_sync_scope, ConfigurationState, RefreshCoordinator, RefreshKey,
    RefreshOptions, RefreshRegistration, RefreshResult, SearchScope,
};
use ret::reporter::collect::CollectReporter;
use ret::reporter::GenerationGuardedReporter;

fn strings(v: &[&str]) -> Vec<String> {
    v.iter().map(|s| s.to_string()).collect()
}

fn installation() -> RInstallation {
    RInstallation {
        display_name: None,
        name: None,
        executable: Some("/opt/R/bin/R".to_string()),
        kind: None,
        version: None,
        home: None,
        manager: None,
        arch: None,
        known_executables: None,
        symlinks: None,
        discovered_by: vec![],
        locator_metadata: None,
        rversions_overlay: None,
        script_path: None,
        startup_command: None,
        environment_variables: None,
        orthogonal: None,
        error: None,
    }
}

#[test]
fn count_configured_search_paths_includes_directories_and_executables() {
    let mut config = Configuration::empty();
    config.workspace_directories = Some(strings(&["/tmp/workspace"]));
    config.environment_directories = Some(strings(&["/tmp/envs-a", "/tmp/envs-b"]));
    config.search_directories = Some(strings(&["/tmp/search"]));
    config.executables = Some(strings(&["/tmp/R/bin/R"]));

    assert_eq!(count_configured_search_paths(&config), 5);
    assert_eq!(count_configured_search_paths(&Configuration::empty()), 0);
}

#[test]
fn stale_generation_reporter_drops_installations() {
    let mut configuration = ConfigurationState::new();
    configuration.advance(Configuration::empty());
    configuration.advance(Configuration::empty());
    assert_eq!(configuration.generation, 2);
    let mut reporter = GenerationGuardedReporter { reporter: CollectReporter::new(), generation: 1 };

    assert!(!reporter.report_installation_if_current(&configuration, &installation()));
    assert_eq!(reporter.reporter.installations.len(), 0);

    configuration.generation = 1;
    assert!(reporter.report_installation_if_current(&configuration, &installation()));
    assert_eq!(reporter.reporter.installations.len(), 1);

    let manager = EnvManager::new("/usr/bin/conda".to_string(), EnvManagerType::Conda, None);
    assert!(reporter.report_manager_if_current(&configuration, &manager));
    assert_eq!(reporter.reporter.managers.len(), 1);
}

fn key(generation: u64) -> RefreshKey {
    RefreshKey {
        options: RefreshOptions { search_kind: None, search_paths: None },
        configuration_generation: generation,
    }
}

#[test]
fn refresh_coordinator_joins_identical_requests_and_recovers() {
    let mut coordinator = RefreshCoordinator::new();
    assert_eq!(coordinator.register(10, key(4)), RefreshRegistration::Start);
    assert_eq!(coordinator.register(11, key(4)), RefreshRegistration::Joined);
    assert_eq!(coordinator.register(12, key(5)), RefreshRegistration::Wait);
    coordinator.begin_completion(&key(4));
    assert_eq!(coordinator.drain_request_ids(&key(4)), vec![10, 11]);
    assert!(coordinator.complete_if_empty(&key(4)));
    assert!(coordinator.is_idle());

    assert_eq!(coordinator.register(12, key(4)), RefreshRegistration::Start);
    coordinator.force_idle(&key(4));
    assert!(coordinator.is_idle());
    assert_eq!(coordinator.register(13, key(4)), RefreshRegistration::Start);
}

#[test]
fn completing_refresh_still_accepts_identical_requests() {
    let mut coordinator = RefreshCoordinator::new();
    coordinator.register(1, key(1));
    coordinator.begin_completion(&key(1));
    assert_eq!(coordinator.drain_request_ids(&key(1)), vec![1]);
    assert_eq!(coordinator.register(2, key(1)), RefreshRegistration::Joined);
    assert!(!coordinator.complete_if_empty(&key(1)));
    assert_eq!(coordinator.drain_request_ids(&key(1)), vec![2]);
    assert!(coordinator.complete_if_empty(&key(1)));
}

#[test]
fn keys_compare_options_and_generation() {
    let a = RefreshKey {
        options: RefreshOptions { search_kind: Some(RInstallationKind::Conda), search_paths: Some(strings(&["/a"])) },
        configuration_generation: 1,
    };
    let b = RefreshKey {
        options: RefreshOptions { search_kind: Some(RInstallationKind::Conda), search_paths: Some(strings(&["/a"])) },
        configuration_generation: 1,
    };
    let c = RefreshKey {
        options: RefreshOptions { search_kind: Some(RInstallationKind::Conda), search_paths: Some(strings(&["/b"])) },
        configuration_generation: 1,
    };
    assert!(keys_equal(&a, &b));
    assert!(!keys_equal(&a, &c));
    assert!(!keys_equal(&a, &key(1)));
}

#[test]
fn build_refresh_config_preserves_configured_directories_when_only_kind_changes() {
    let mut config = Configuration::empty();
    config.search_directories = Some(strings(&["/tmp/workspace"]));
    let refresh = RefreshOptions { search_kind: Some(RInstallationKind::Conda), search_paths: None };
    let facts = FileFacts { existing: vec![], dirs: vec![], files: vec![] };

    let (config, scope) = build_refresh_config(&refresh, config, &vec![], &facts);
    assert_eq!(config.search_directories, Some(strings(&["/tmp/workspace"])));
    assert_eq!(scope, Some(SearchScope::Global(RInstallationKind::Conda)));
}

#[test]
fn build_refresh_config_uses_search_paths_scope_when_paths_are_provided() {
    let refresh = RefreshOptions {
        search_kind: Some(RInstallationKind::Conda),
        search_paths: Some(strings(&["/tmp/workspace", "/tmp/R/bin/R"])),
    };
    let facts = FileFacts {
        existing: strings(&["/tmp/workspace", "/tmp/R/bin/R"]),
        dirs: strings(&["/tmp/workspace"]),
        files: strings(&["/tmp/R/bin/R"]),
    };
    let mut config = Configuration::empty();
    config.workspace_directories = Some(strings(&["/w"]));

    let (config, scope) =
        build_refresh_config(&refresh, config, &strings(&["/tmp/workspace", "/tmp/R/bin/R"]), &facts);
    assert_eq!(scope, Some(SearchScope::SearchPaths));
    assert_eq!(config.workspace_directories, None);
    assert_eq!(config.search_directories, Some(strings(&["/tmp/workspace"])));
    assert_eq!(config.executables, Some(strings(&["/tmp/R/bin/R"])));
}

#[test]
fn sync_scope_follows_search_scope() {
    assert_eq!(refresh_sync_scope(None), RefreshStateSyncScope::Full);
    assert_eq!(refresh_sync_scope(Some(SearchScope::SearchPaths)), RefreshStateSyncScope::Workspace);
    assert_eq!(
        refresh_sync_scope(Some(SearchScope::Global(RInstallationKind::Pixi))),
        RefreshStateSyncScope::GlobalFiltered(RInstallationKind::Pixi)
    );
}

#[test]
fn configure_keeps_cache_directory_unless_replaced() {
    let mut previous = Configuration::empty();
    previous.cache_directory = Some("/cache".to_string());
    let next = next_configuration(&previous, None, None, Some(strings(&["/s"])), None, None, None, None);
    assert_eq!(next.cache_directory.as_deref(), Some("/cache"));
    assert_eq!(next.search_directories, Some(strings(&["/s"])));
    let replaced = next_configuration(&previous, None, None, None, None, None, None, Some("/new".to_string()));
    assert_eq!(replaced.cache_directory.as_deref(), Some("/new"));
}

#[test]
fn configured_directories_keep_existing_sorted_unique() {
    let facts = FileFacts { existing: vec![], dirs: strings(&["/b", "/a"]), files: vec![] };
    assert_eq!(
        configured_directories(&strings(&["/b", "/x", "/a", "/b"]), &facts),
        Some(strings(&["/a", "/b"]))
    );
    assert_eq!(configured_directories(&strings(&["/x"]), &facts), None);
}

#[test]
fn normalized_options_sort_and_dedup_paths() {
    let options = RefreshOptions { search_kind: None, search_paths: Some(strings(&["/b", "/a", "/b"])) };
    assert_eq!(options.normalized().search_paths, Some(strings(&["/a", "/b"])));
    assert_eq!(RefreshResult::new(12, 3), RefreshResult { duration: 12, refresh_id: 3 });
}

#[test]
fn locator_graph_pins_refresh_state_contracts() {
    let environment = Environment {
        user_home: Some("/home/u".to_string()),
        root: Some("/".to_string()),
        variables: Vec::new(),
        global_search_locations: Vec::new(),
    };
    assert_eq!(
        Conda::from(&environment).refresh_state(),
        RefreshStatePersistence::SyncedDiscoveryState
    );
    assert_eq!(
        Rig::from(&environment, false, None).refresh_state(),
        RefreshStatePersistence::ConfiguredOnly
    );
    assert_eq!(
        Pixi::from(&environment).refresh_state(),
        RefreshStatePersistence::Stateless
    );
    assert_eq!(
        LinuxGlobalR::new().refresh_state(),
        RefreshStatePersistence::SelfHydratingCache
    );
    assert_eq!(
        RVersions::from(&environment, &Vec::new()).refresh_state(),
        RefreshStatePersistence::Stateless
    );
}
