use ret::arch::Architecture;
use ret::identify::{
    identify_installation_without_resolution, identify_r_installation_using_locators,
    infer_home_from_executable, mark_locator_discovery, resolve_installation,
};
use ret::r_installation::{DiscoverySource, RInstallationBuilder, RInstallationKind, RVersionsOverlay};
use ret::resolved::ResolvedRInstallation;

fn runtime(exe: &str, home: &str, arch: Architecture) -> ResolvedRInstallation {
    ResolvedRInstallation {
        executable: exe.to_string(),
        home: home.to_string(),
        version: "4.4.1".to_string(),
        arch,
        known_executables: Some(vec![exe.to_string()]),
        symlinks: None,
    }
}

fn homebrew(exe: &str) -> ret::r_installation::RInstallation {
    RInstallationBuilder::new(Some(RInstallationKind::Homebrew))
        .executable(Some(exe.to_string()))
        .home(Some("/guess".to_string()))
        .arch(Some(Architecture::X64))
        .build()
}

#[test]
fn identify_installation_prefers_resolved_arch_over_raw_inference() {
    let res = runtime("/opt/R/bin/R", "/opt/R", Architecture::Arm64);
    let installation =
        identify_r_installation_using_locators(Some(homebrew("/opt/R/bin/R")), Some(res), None, &vec![])
            .expect("expected match");
    assert_eq!(installation.version.as_deref(), Some("4.4.1"));
    assert_eq!(installation.arch, Some(Architecture::Arm64));
    assert_eq!(installation.home.as_deref(), Some("/opt/R"));
    assert_eq!(installation.kind, Some(RInstallationKind::Homebrew));
    assert_eq!(installation.discovered_by, vec![DiscoverySource::Locator]);
}

#[test]
fn identify_installation_merges_multiple_matching_locators() {
    let first = homebrew("/opt/R/bin/R");
    let overlay = RInstallationBuilder::new(Some(RInstallationKind::LinuxGlobal))
        .display_name(Some("Production R".to_string()))
        .executable(Some("/opt/R/bin/R".to_string()))
        .discovered_by(vec![DiscoverySource::Locator, DiscoverySource::RVersions])
        .rversions_overlay(Some(RVersionsOverlay {
            label: Some("Production R".to_string()),
            script: None,
            repo: Some("https://ppm.example.com/cran/latest".to_string()),
            library: Some("/opt/R-libs".to_string()),
            module: None,
            module_startup_command: None,
        }))
        .build();
    let merged = identify_installation_without_resolution(vec![first, overlay]).unwrap();
    let res = runtime("/opt/R/bin/R", "/opt/R", Architecture::X64);
    let installation = identify_r_installation_using_locators(Some(merged), Some(res), None, &vec![]).unwrap();

    assert_eq!(installation.display_name.as_deref(), Some("Production R"));
    assert_eq!(installation.kind, Some(RInstallationKind::Homebrew));
    assert!(installation.locator_metadata.is_none());
    assert_eq!(
        installation.rversions_overlay.as_ref().and_then(|o| o.repo.as_deref()),
        Some("https://ppm.example.com/cran/latest")
    );
    assert_eq!(installation.discovered_by, vec![DiscoverySource::Locator, DiscoverySource::RVersions]);
}

#[test]
fn unrecognized_runtime_in_global_location_is_global() {
    let res = runtime("/usr/bin/R", "/usr/lib/R", Architecture::X64);
    let installation =
        identify_r_installation_using_locators(None, Some(res), None, &vec!["/usr/bin".to_string()]).unwrap();
    assert_eq!(installation.kind, Some(RInstallationKind::GlobalPaths));
    assert_eq!(installation.discovered_by, Vec::<DiscoverySource>::new());
    let elsewhere = runtime("/opt/x/bin/R", "/opt/x", Architecture::X64);
    let other = identify_r_installation_using_locators(None, Some(elsewhere), None, &vec!["/usr/bin".to_string()]).unwrap();
    assert_eq!(other.kind, None);
}

#[test]
fn without_runtime_the_guess_stands() {
    let guess = homebrew("/opt/R/bin/R");
    let r = identify_r_installation_using_locators(Some(guess.clone()), None, None, &vec![]);
    assert_eq!(r, Some(guess));
    assert_eq!(identify_r_installation_using_locators(None, None, None, &vec![]), None);
    assert_eq!(identify_installation_without_resolution(vec![]), None);
}

#[test]
fn marking_adds_the_locator_source() {
    let plain = RInstallationBuilder::new(None).executable(Some("/x/bin/R".to_string())).build();
    assert_eq!(mark_locator_discovery(plain).discovered_by, vec![DiscoverySource::Locator]);
}

#[test]
fn home_is_inferred_from_bin_directories() {
    assert_eq!(infer_home_from_executable("/opt/R/bin/R").as_deref(), Some("/opt/R"));
    assert_eq!(infer_home_from_executable("C:/R/R-4.4.1/BIN/x64/R.exe").as_deref(), Some("C:/R/R-4.4.1"));
    assert_eq!(infer_home_from_executable("/opt/R/R"), None);
}

#[test]
fn resolving_completes_the_guess_with_the_runtime() {
    let exe = "/opt/R/bin/R".to_string();
    let res = runtime("/opt/R/bin/R", "/opt/R", Architecture::X64);
    let resolved = resolve_installation(&exe, Some(homebrew(&exe)), Some(res), None, &vec![]).unwrap();
    assert_eq!(resolved.discovered.home.as_deref(), Some("/guess"));
    let completed = resolved.resolved.unwrap();
    assert_eq!(completed.home.as_deref(), Some("/opt/R"));
    assert_eq!(completed.symlinks, Some(vec!["/opt/R/bin/R".to_string()]));

    let unknown = resolve_installation(&exe, None, Some(runtime(&exe, "/opt/R", Architecture::X64)), None, &vec![]).unwrap();
    assert_eq!(unknown.discovered.home.as_deref(), Some("/opt/R"));
    assert!(resolve_installation(&exe, None, None, None, &vec![]).is_none());
    let guess_only = resolve_installation(&exe, Some(homebrew(&exe)), None, None, &vec![]).unwrap();
    assert!(guess_only.resolved.is_none());
}
