use ret::arch::Architecture;
use ret::r_installation::{RInstallationBuilder, RInstallationKind};
use ret::telemetry::{detect_inaccurate_environment, get_telemetry_event_name, TelemetryEvent};

#[test]
fn detect_inaccurate_environment_reports_prefix_mismatch() {
    let discovered = RInstallationBuilder::new(Some(RInstallationKind::GlobalPaths))
        .executable(Some("/tmp/discovered/bin/R".to_string()))
        .home(Some("/tmp/discovered".to_string()))
        .build();
    let resolved = RInstallationBuilder::new(Some(RInstallationKind::GlobalPaths))
        .executable(Some("/tmp/discovered/bin/R".to_string()))
        .home(Some("/tmp/resolved".to_string()))
        .symlinks(Some(vec!["/tmp/discovered/bin/R".to_string()]))
        .build();

    let inaccuracy = detect_inaccurate_environment(&discovered, &resolved).expect("expected telemetry");
    assert_eq!(inaccuracy.kind, Some(RInstallationKind::GlobalPaths));
    assert_eq!(inaccuracy.invalid_prefix, Some(true));
    assert_eq!(inaccuracy.invalid_executable, Some(false));
    assert_eq!(inaccuracy.executable_not_in_symlinks, Some(false));
    assert_eq!(inaccuracy.invalid_version, None);
}

#[test]
fn accurate_guess_reports_nothing() {
    let guess = RInstallationBuilder::new(Some(RInstallationKind::Homebrew))
        .executable(Some("/opt/R/bin/R".to_string()))
        .home(Some("/opt/R".to_string()))
        .version(Some("4.4.1".to_string()))
        .arch(Some(Architecture::X64))
        .build();
    let resolved = RInstallationBuilder::new(Some(RInstallationKind::Homebrew))
        .executable(Some("/opt/R/bin/R".to_string()))
        .home(Some("/opt/R".to_string()))
        .version(Some("4.4.1".to_string()))
        .arch(Some(Architecture::X64))
        .build();
    assert!(detect_inaccurate_environment(&guess, &resolved).is_none());

    let arm = RInstallationBuilder::new(None)
        .executable(Some("/opt/R/bin/R".to_string()))
        .arch(Some(Architecture::Arm64))
        .build();
    let info = detect_inaccurate_environment(&arm, &resolved).unwrap();
    assert_eq!(info.invalid_arch, Some(true));
    assert_eq!(info.kind, Some(RInstallationKind::Homebrew));
}

#[test]
fn event_names_match_their_variants() {
    assert_eq!(get_telemetry_event_name(&TelemetryEvent::SearchCompleted(3)), "SearchCompleted");
    assert_eq!(
        get_telemetry_event_name(&TelemetryEvent::AllSearchPathsEnvironmentsSearchCompleted(1, 2)),
        "AllSearchPathsEnvironmentsSearchCompleted"
    );
    assert_eq!(
        get_telemetry_event_name(&TelemetryEvent::GlobalPathVariableEnvironmentsSearchCompleted(1)),
        "GlobalPathVariableEnvironmentsSearchCompleted"
    );
}

#[test]
fn installation_compared_with_itself_is_accurate() {
    let installation = RInstallationBuilder::new(Some(RInstallationKind::Conda))
        .executable(Some("/opt/conda/bin/R".to_string()))
        .home(Some("/opt/conda/lib/R".to_string()))
        .version(Some("4.4.1".to_string()))
        .arch(Some(Architecture::X64))
        .build();
    assert!(detect_inaccurate_environment(&installation, &installation).is_none());
}
