use ret::manager::{EnvManager, EnvManagerType};
use ret::r_installation::{RInstallationBuilder, RInstallationKind};
use ret::reporter::collect::{self, CollectReporter};
use ret::reporter::jsonrpc::{self, LogLevel};
use ret::reporter::stdio;
use ret::reporter::{CacheReporter, Reporter};

fn installation(kind: RInstallationKind, home: &str) -> ret::r_installation::RInstallation {
    RInstallationBuilder::new(Some(kind))
        .executable(Some(format!("{home}/bin/R")))
        .home(Some(home.to_string()))
        .build()
}

#[test]
fn cache_reporter_passes_each_installation_and_manager_once() {
    let mut reporter = CacheReporter::new(collect::create_reporter());
    let a = installation(RInstallationKind::Conda, "/opt/a");
    let b = installation(RInstallationKind::Conda, "/opt/b");
    reporter.report_installation(&a);
    reporter.report_installation(&b);
    reporter.report_installation(&a);
    assert_eq!(reporter.reporter.installations.len(), 2);
    let manager = EnvManager::new("/usr/bin/conda".to_string(), EnvManagerType::Conda, None);
    reporter.report_manager(&manager);
    reporter.report_manager(&manager);
    assert_eq!(reporter.reporter.managers.len(), 1);

    let nameless = RInstallationBuilder::new(None).build();
    reporter.report_installation(&nameless);
    assert_eq!(reporter.reporter.installations.len(), 2);
}

#[test]
fn stdio_reporter_counts_by_kind_and_filters() {
    let mut reporter = stdio::create_reporter(false, Some(RInstallationKind::Conda));
    reporter.report_installation(&installation(RInstallationKind::Conda, "/opt/a"));
    reporter.report_installation(&installation(RInstallationKind::Conda, "/opt/b"));
    reporter.report_installation(&installation(RInstallationKind::Homebrew, "/opt/c"));
    let manager = EnvManager::new("/usr/bin/conda".to_string(), EnvManagerType::Conda, None);
    reporter.report_manager(&manager);
    let summary = reporter.get_summary();
    assert_eq!(summary.installations, vec![(Some(RInstallationKind::Conda), 2)]);
    assert_eq!(summary.managers, vec![(EnvManagerType::Conda, 1)]);
    assert_eq!(summary.installation_paths.len(), 1);
    assert_eq!(summary.installation_paths[0].1.len(), 2);
}

#[test]
fn jsonrpc_reporter_filters_by_kind() {
    let only = jsonrpc::create_reporter(Some(RInstallationKind::Pixi));
    assert!(!only.should_report(&installation(RInstallationKind::Conda, "/a")));
    assert!(only.should_report(&installation(RInstallationKind::Pixi, "/a")));
    assert!(jsonrpc::create_reporter(None).should_report(&installation(RInstallationKind::Conda, "/a")));
    assert_eq!(LogLevel::Warning.as_str(), "warning");
}

#[test]
fn collect_reporter_keeps_order() {
    let mut reporter = CollectReporter::new();
    reporter.report_installation(&installation(RInstallationKind::Conda, "/b"));
    reporter.report_installation(&installation(RInstallationKind::Conda, "/a"));
    assert_eq!(reporter.installations[0].home.as_deref(), Some("/b"));
    assert_eq!(reporter.installations[1].home.as_deref(), Some("/a"));
}

#[test]
fn stdio_summary_groups_reports_by_kind_in_order() {
    let mut reporter = stdio::create_reporter(false, None);
    let a = installation(RInstallationKind::Conda, "/opt/a");
    let b = installation(RInstallationKind::Homebrew, "/opt/b");
    let c = installation(RInstallationKind::Conda, "/opt/c");
    assert!(reporter.count_installation(&a));
    assert!(reporter.count_installation(&b));
    assert!(reporter.count_installation(&c));
    let summary = reporter.get_summary();
    let again = reporter.get_summary();
    assert_eq!(again.installations, summary.installations);
    assert_eq!(again.installation_paths, summary.installation_paths);
    assert_eq!(again.managers, summary.managers);
    assert_eq!(
        summary.installations,
        vec![(Some(RInstallationKind::Conda), 2), (Some(RInstallationKind::Homebrew), 1)]
    );
    assert_eq!(summary.installation_paths[0].0, Some(RInstallationKind::Conda));
    assert_eq!(summary.installation_paths[0].1, vec![a, c]);
    assert_eq!(summary.installation_paths[1].1, vec![b]);
    assert!(summary.managers.is_empty());
}
