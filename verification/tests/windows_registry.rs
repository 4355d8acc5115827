use ret::arch::Architecture;
use ret::locator::{Host, RefreshStateSyncScope};
use ret::locators::windows_registry::WindowsRegistry;
use ret::r_installation::RInstallationKind;
use ret::renv::REnv;

fn windows() -> Host {
    Host { windows: true, unix: false, macos: false, arch: Architecture::X64 }
}

#[test]
fn registry_entries_accept_custom_install_paths() {
    let locator = WindowsRegistry::new();
    let env = REnv::new(
        r"D:\Apps\R-4.4.1\bin\x64\R.exe".to_string(),
        Some(r"D:\Apps\R-4.4.1".to_string()),
        Some("4.4.1".to_string()),
    );
    let installation = locator.installation_from_env(&env, windows()).expect("registry entry should be authoritative");
    assert_eq!(installation.kind, Some(RInstallationKind::WindowsRegistry));
    assert_eq!(installation.home, env.home);
}

#[test]
fn registered_homes_match_their_executables() {
    let locator = WindowsRegistry::new();
    let env = REnv::new(
        r"D:\Apps\R-4.4.1\bin\R.exe".to_string(),
        Some(r"D:\Apps\R-4.4.1".to_string()),
        Some("4.4.1".to_string()),
    );
    let registered = vec![r"D:\Apps\R-4.4.1\bin\x64\R.exe".to_string()];
    assert!(locator.try_from(&env, windows(), &registered).is_some());
    assert!(locator.try_from(&env, windows(), &Vec::new()).is_none());
    let linux = Host { windows: false, unix: true, macos: false, arch: Architecture::X64 };
    assert!(locator.try_from(&env, linux, &registered).is_none());
}

#[test]
fn workspace_refresh_keeps_registry_state() {
    let mut locator = WindowsRegistry::new();
    let source = WindowsRegistry::new();
    locator.sync_refresh_state_from(source, &RefreshStateSyncScope::Workspace);
    assert!(!locator.reported_executables.contains_key("x"));
}
