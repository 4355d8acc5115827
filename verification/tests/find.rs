use ret::find::{
    directories_to_search, directory_search_paths, recursive_search_paths, refresh_telemetry_events,
    identify_r_executables_using_locators, recursive_search_step, retain_kind, search_global, with_discovery_source, SearchPhase,
    Summary,
};
use ret::locator::{Configuration, LocatorKind};
use ret::r_installation::{DiscoverySource, RInstallationBuilder, RInstallationKind};
use ret::refresh::SearchScope;
use ret::telemetry::TelemetryEvent;

#[test]
fn directory_search_probes_bin_and_lib_layouts() {
    assert_eq!(
        directory_search_paths("/w"),
        vec!["/w", "/w/bin", "/w/lib/R", "/w/lib/R/bin", "/w/Resources", "/w/Resources/bin"]
    );
    let paths = recursive_search_paths(&vec!["/w".to_string(), "/w".to_string()]);
    assert_eq!(paths.len(), 6);
}

#[test]
fn search_paths_scope_skips_global_directories() {
    let mut config = Configuration::empty();
    config.workspace_directories = Some(vec!["/b".to_string()]);
    config.search_directories = Some(vec!["/a".to_string(), "/b".to_string()]);
    assert_eq!(directories_to_search(&config, true), vec!["/a".to_string(), "/b".to_string()]);
    assert_eq!(directories_to_search(&config, false), vec!["/a".to_string(), "/b".to_string()]);
    assert!(!search_global(Some(SearchScope::SearchPaths)));
    assert!(search_global(None));
}

#[test]
fn summary_records_replace_earlier_ones() {
    let mut summary = Summary::new();
    summary.record_phase(SearchPhase::Path, 5);
    summary.record_phase(SearchPhase::Path, 7);
    summary.record_phase(SearchPhase::Locators, 3);
    summary.record_locator(LocatorKind::Conda, 9);
    assert_eq!(summary.phase(SearchPhase::Path), 7);
    assert_eq!(summary.phase(SearchPhase::SearchPaths), 0);
    assert_eq!(summary.breakdown.len(), 2);
}

#[test]
fn refresh_telemetry_reports_global_durations_and_performance() {
    let mut summary = Summary::new();
    summary.total = 20;
    summary.record_phase(SearchPhase::Path, 5);
    summary.record_phase(SearchPhase::Locators, 3);
    summary.record_locator(LocatorKind::Conda, 2);
    let events = refresh_telemetry_events(&summary, &Configuration::empty(), None);
    assert_eq!(events.len(), 4);
    assert!(matches!(events[0], TelemetryEvent::GlobalEnvironmentsSearchCompleted(8)));
    assert!(matches!(events[1], TelemetryEvent::GlobalPathVariableEnvironmentsSearchCompleted(5)));
    assert!(matches!(events[2], TelemetryEvent::SearchCompleted(20)));
    match &events[3] {
        TelemetryEvent::RefreshPerformance(p) => {
            assert_eq!(p.total, 20);
            assert_eq!(p.locators, vec![("Conda".to_string(), 2)]);
        }
        _ => panic!("expected performance"),
    }
    let mut config = Configuration::empty();
    config.executables = Some(vec!["/x/bin/R".to_string()]);
    let scoped = refresh_telemetry_events(&summary, &config, Some(SearchScope::SearchPaths));
    assert!(matches!(scoped[0], TelemetryEvent::AllSearchPathsEnvironmentsSearchCompleted(0, 1)));
    assert_eq!(scoped.len(), 3);
}

#[test]
fn retain_kind_keeps_matching_installations() {
    let a = RInstallationBuilder::new(Some(RInstallationKind::Conda)).build();
    let b = RInstallationBuilder::new(Some(RInstallationKind::Pixi)).build();
    assert_eq!(retain_kind(vec![a.clone(), b.clone()], Some(RInstallationKind::Pixi)), vec![b.clone()]);
    assert_eq!(retain_kind(vec![a.clone(), b.clone()], None).len(), 2);
}

#[test]
fn discovery_source_is_added_once_and_fields_kept() {
    let base = RInstallationBuilder::new(Some(RInstallationKind::Conda))
        .executable(Some("/opt/conda/bin/R".to_string()))
        .startup_command(Some("conda activate /opt/conda".to_string()))
        .build();
    let marked = with_discovery_source(base.clone(), Some(DiscoverySource::ExplicitSearch));
    assert_eq!(marked.discovered_by, vec![DiscoverySource::Locator, DiscoverySource::ExplicitSearch]);
    assert_eq!(marked.startup_command, base.startup_command);
    assert_eq!(marked.executable, base.executable);
    let again = with_discovery_source(marked.clone(), Some(DiscoverySource::ExplicitSearch));
    assert_eq!(again.discovered_by, marked.discovered_by);
    assert_eq!(with_discovery_source(base.clone(), None), base);
}

#[test]
fn recursive_search_covers_every_directory_layout() {
    let paths = recursive_search_paths(&vec!["/w/b".to_string(), "/w/a".to_string()]);
    assert_eq!(paths.len(), 12);
    assert_eq!(paths[0], "/w/a");
    assert!(paths.contains(&"/w/b/lib/R/bin".to_string()));
    assert!(paths.contains(&"/w/a/Resources/bin".to_string()));
}

#[test]
fn unrecognized_executables_are_not_reported() {
    let a = RInstallationBuilder::new(Some(RInstallationKind::LinuxGlobal))
        .executable(Some("/usr/bin/R".to_string()))
        .build();
    let b = RInstallationBuilder::new(Some(RInstallationKind::GlobalPaths))
        .executable(Some("/opt/bin/R".to_string()))
        .build();
    let reported = identify_r_executables_using_locators(
        vec![Some(a.clone()), None, Some(b.clone())],
        Some(DiscoverySource::GlobalPaths),
    );
    assert_eq!(reported.len(), 2);
    assert_eq!(reported[0].executable, a.executable);
    assert!(reported[0].discovered_by.contains(&DiscoverySource::GlobalPaths));
    assert_eq!(reported[1].executable, b.executable);
    assert_eq!(reported[1].discovered_by, vec![DiscoverySource::GlobalPaths]);
    let unmarked = identify_r_executables_using_locators(vec![Some(a.clone())], None);
    assert_eq!(unmarked, vec![a]);
}

#[test]
fn recursive_search_skips_dependency_trees_and_environments() {
    let subdirectories = vec!["/w/node_modules".to_string(), "/w/toolchains".to_string(), "/w/.git".to_string()];
    let (paths, enter) = recursive_search_step("/w", false, &subdirectories);
    assert_eq!(paths, directory_search_paths("/w"));
    assert_eq!(enter, vec!["/w/toolchains".to_string()]);
    let (env_paths, env_enter) = recursive_search_step("/w/envs/r", true, &subdirectories);
    assert_eq!(env_paths.len(), 6);
    assert!(env_enter.is_empty());
}
