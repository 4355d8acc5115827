use ret::manager::{EnvManager, EnvManagerType};
use ret::merge::merge_installations;
use ret::r_installation::{DiscoverySource, LocatorMetadata, RInstallationBuilder, RInstallationKind, RVersionsOverlay};

#[test]
fn builder_derives_script_path_from_r_binary() {
    let installation = RInstallationBuilder::new(Some(RInstallationKind::LinuxGlobal))
        .executable(Some("/opt/R/4.4.1/bin/R".to_string()))
        .build();
    assert_eq!(installation.script_path, Some("/opt/R/4.4.1/bin/Rscript".to_string()));
}

#[test]
fn builder_derives_orthogonal_from_framework_home() {
    let orthogonal = RInstallationBuilder::new(Some(RInstallationKind::MacFramework))
        .home(Some("/Library/Frameworks/R.framework/Versions/4.4-arm64/Resources".to_string()))
        .build();
    let non_orthogonal = RInstallationBuilder::new(Some(RInstallationKind::MacFramework))
        .home(Some("/Library/Frameworks/R.framework/Resources".to_string()))
        .build();
    assert_eq!(orthogonal.orthogonal, Some(true));
    assert_eq!(non_orthogonal.orthogonal, Some(false));
}

#[test]
fn builder_defaults_locator_discovery_for_locator_kinds() {
    let installation = RInstallationBuilder::new(Some(RInstallationKind::Conda)).build();
    let global_paths = RInstallationBuilder::new(Some(RInstallationKind::GlobalPaths)).build();
    assert_eq!(installation.discovered_by, vec![DiscoverySource::Locator]);
    assert!(global_paths.discovered_by.is_empty());
}

#[test]
fn builder_tracks_executable_as_known_executable_but_not_symlink() {
    let installation = RInstallationBuilder::new(Some(RInstallationKind::LinuxGlobal))
        .executable(Some("/opt/R/4.4.1/bin/R".to_string()))
        .build();
    assert_eq!(installation.known_executables, Some(vec!["/opt/R/4.4.1/bin/R".to_string()]));
    assert_eq!(installation.symlinks, None);
}

#[test]
fn builder_preserves_startup_command_and_environment_variables() {
    let environment_variables = vec![("R_LIBS".to_string(), "/opt/r-libs".to_string())];
    let installation = RInstallationBuilder::new(Some(RInstallationKind::LinuxGlobal))
        .startup_command(Some(". /opt/scripts/load-r.sh".to_string()))
        .environment_variables(Some(environment_variables.clone()))
        .build();
    assert_eq!(installation.startup_command, Some(". /opt/scripts/load-r.sh".to_string()));
    assert_eq!(installation.environment_variables, Some(environment_variables));
}

#[test]
fn merge_installations_unions_sources_and_prefers_higher_priority_metadata() {
    let existing = RInstallationBuilder::new(Some(RInstallationKind::Conda))
        .executable(Some("/usr/bin/R".to_string()))
        .known_executables(Some(vec!["/usr/bin/R".to_string()]))
        .discovered_by(vec![DiscoverySource::Locator])
        .locator_metadata(Some(LocatorMetadata::Conda { environment_path: "/tmp/conda".to_string() }))
        .symlinks(Some(vec!["/usr/bin/R".to_string()]))
        .build();
    let merged = merge_installations(
        &existing,
        &RInstallationBuilder::new(Some(RInstallationKind::Pixi))
            .executable(Some("/usr/local/bin/R".to_string()))
            .known_executables(Some(vec!["/usr/local/bin/Rscript".to_string()]))
            .discovered_by(vec![DiscoverySource::ExplicitSearch])
            .locator_metadata(Some(LocatorMetadata::Pixi {
                environment_path: "/tmp/pixi".to_string(),
                manifest_path: None,
                environment_name: Some("default".to_string()),
            }))
            .symlinks(Some(vec!["/usr/local/bin/R".to_string()]))
            .build(),
    );
    assert_eq!(merged.discovered_by, vec![DiscoverySource::Locator, DiscoverySource::ExplicitSearch]);
    assert_eq!(merged.known_executables.unwrap().len(), 3);
    assert_eq!(merged.symlinks.unwrap().len(), 2);
    assert!(matches!(merged.locator_metadata, Some(LocatorMetadata::Pixi { .. })));
}

fn var<'a>(vars: &'a Option<Vec<(String, String)>>, name: &str) -> Option<&'a str> {
    vars.as_ref().and_then(|v| v.iter().rev().find(|(k, _)| k == name)).map(|(_, value)| value.as_str())
}

#[test]
fn merge_installations_keeps_rversions_overlay_and_prefers_overlay_label() {
    let existing = RInstallationBuilder::new(Some(RInstallationKind::Conda))
        .display_name(Some("Conda R".to_string()))
        .executable(Some("/tmp/conda/bin/R".to_string()))
        .home(Some("/tmp/conda/lib/R".to_string()))
        .startup_command(Some("conda activate /tmp/conda".to_string()))
        .environment_variables(Some(vec![("BASE".to_string(), "1".to_string())]))
        .discovered_by(vec![DiscoverySource::Locator])
        .locator_metadata(Some(LocatorMetadata::Conda { environment_path: "/tmp/conda".to_string() }))
        .build();
    let merged = merge_installations(
        &existing,
        &RInstallationBuilder::new(Some(RInstallationKind::LinuxGlobal))
            .display_name(Some("Production R".to_string()))
            .executable(Some("/tmp/conda/bin/R".to_string()))
            .home(Some("/tmp/conda/lib/R".to_string()))
            .startup_command(Some(". /opt/r/setup.sh".to_string()))
            .environment_variables(Some(vec![("R_LIBS".to_string(), "/opt/R-libs".to_string())]))
            .discovered_by(vec![DiscoverySource::Locator, DiscoverySource::RVersions])
            .rversions_overlay(Some(RVersionsOverlay {
                label: Some("Production R".to_string()),
                script: Some("/opt/r/setup.sh".to_string()),
                repo: Some("https://ppm.example.com/cran/latest".to_string()),
                library: Some("/opt/R-libs".to_string()),
                module: None,
                module_startup_command: None,
            }))
            .build(),
    );
    assert_eq!(merged.display_name.as_deref(), Some("Production R"));
    assert_eq!(merged.startup_command.as_deref(), Some("conda activate /tmp/conda"));
    assert!(matches!(merged.locator_metadata, Some(LocatorMetadata::Conda { .. })));
    assert_eq!(
        merged.rversions_overlay.as_ref().and_then(|overlay| overlay.repo.as_deref()),
        Some("https://ppm.example.com/cran/latest")
    );
    assert_eq!(var(&merged.environment_variables, "BASE"), Some("1"));
    assert_eq!(var(&merged.environment_variables, "R_LIBS"), Some("/opt/R-libs"));
}

#[test]
fn merge_prefers_the_manager_of_the_preferred_installation() {
    let conda = EnvManager::new("/opt/conda/bin/conda".to_string(), EnvManagerType::Conda, None);
    let a = RInstallationBuilder::new(Some(RInstallationKind::GlobalPaths))
        .executable(Some("/usr/bin/R".to_string()))
        .build();
    let b = RInstallationBuilder::new(Some(RInstallationKind::Conda))
        .executable(Some("/usr/bin/R".to_string()))
        .manager(Some(conda.clone()))
        .build();
    let merged = merge_installations(&a, &b);
    assert_eq!(merged.kind, Some(RInstallationKind::Conda));
    assert_eq!(merged.manager, Some(conda));
}

fn sample_builder() -> RInstallationBuilder {
    RInstallationBuilder::new(Some(RInstallationKind::LinuxGlobal))
        .executable(Some("/opt/R/4.4.1/bin/R".to_string()))
        .home(Some("/opt/R/4.4.1/lib/R".to_string()))
        .known_executables(Some(vec!["/usr/bin/R".to_string(), "/opt/R/4.4.1/bin/R".to_string()]))
        .symlinks(Some(vec!["/usr/local/bin/R".to_string(), "/usr/bin/R".to_string(), "/usr/bin/R".to_string()]))
        .version(Some("4.4.1".to_string()))
}

#[test]
fn rebuilding_a_built_installation_gives_it_back() {
    let built = sample_builder().build();
    let again = RInstallationBuilder::from_installation(built.clone()).build();
    assert_eq!(again, built);
    assert_eq!(built.known_executables, Some(vec!["/opt/R/4.4.1/bin/R".to_string(), "/usr/bin/R".to_string()]));
}

#[test]
fn setting_a_field_before_building_changes_only_that_field() {
    let base = sample_builder().build();
    let named = sample_builder().display_name(Some("R 4.4.1".to_string())).build();
    let mut expected = base.clone();
    expected.display_name = Some("R 4.4.1".to_string());
    assert_eq!(named, expected);

    let versioned = sample_builder().version(Some("4.4.2".to_string())).build();
    let mut expected = base.clone();
    expected.version = Some("4.4.2".to_string());
    assert_eq!(versioned, expected);

    let kinded = sample_builder().kind(Some(RInstallationKind::Conda)).build();
    let mut expected = base.clone();
    expected.kind = Some(RInstallationKind::Conda);
    expected.discovered_by = vec![DiscoverySource::Locator];
    assert_eq!(kinded, expected);
}

#[test]
fn adding_a_source_twice_is_adding_it_once() {
    let once = sample_builder()
        .add_discovery_source(DiscoverySource::RVersions)
        .add_discovery_source(DiscoverySource::GlobalPaths)
        .build();
    let twice = sample_builder()
        .add_discovery_source(DiscoverySource::RVersions)
        .add_discovery_source(DiscoverySource::GlobalPaths)
        .add_discovery_source(DiscoverySource::GlobalPaths)
        .build();
    assert_eq!(once, twice);
    assert_eq!(once.discovered_by, vec![DiscoverySource::GlobalPaths, DiscoverySource::RVersions]);
}
