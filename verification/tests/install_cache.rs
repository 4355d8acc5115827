use ret::arch::Architecture;
use ret::install_cache::{
    cache_file_is_usable, clear_cache, create_cache, generate_cache_file, get_cache_directory,
    set_cache_directory, CacheImpl, FileMeta,
};
use ret::r_installation::{RInstallationBuilder, RInstallationKind};
use ret::resolved::ResolvedRInstallation;
use sha2::Digest;

fn runtime(executable: &str) -> ResolvedRInstallation {
    ResolvedRInstallation {
        executable: executable.to_string(),
        home: "/opt/R".to_string(),
        version: "4.4.0".to_string(),
        arch: Architecture::X64,
        known_executables: Some(vec![executable.to_string()]),
        symlinks: None,
    }
}

fn meta(path: &str, modified: u128) -> FileMeta {
    FileMeta { path: path.to_string(), is_file: true, modified: Some(modified), created: None }
}

#[test]
fn deleted_executable_invalidates_memory_cache() {
    let mut cache = CacheImpl::new(Some("/cache".to_string()));
    let i = create_cache(&mut cache, "/opt/R/bin/R".to_string());
    let entry = &mut cache.entries[i];
    let present = vec![meta("/opt/R/bin/R", 1)];
    let stamps = entry.store(runtime("/opt/R/bin/R"), &present);
    assert_eq!(stamps, vec![("/opt/R/bin/R".to_string(), 1, None)]);
    assert!(entry.get(&present, None).is_some());
    assert!(entry.get(&vec![], None).is_none());
}

#[test]
fn deleted_alias_invalidates_cache_even_when_primary_still_exists() {
    let mut cache = CacheImpl::new(None);
    let i = create_cache(&mut cache, "/opt/R/bin/R".to_string());
    let entry = &mut cache.entries[i];
    let mut info = runtime("/opt/R/bin/R");
    info.known_executables.as_mut().unwrap().push("/opt/R/bin/Rscript".to_string());
    let both = vec![meta("/opt/R/bin/R", 1), meta("/opt/R/bin/Rscript", 1)];
    entry.store(info, &both);
    assert!(entry.get(&both, None).is_some());
    assert!(entry.get(&vec![meta("/opt/R/bin/R", 1)], None).is_none());
}

#[test]
fn cache_can_be_repopulated_after_reinstallation() {
    let mut cache = CacheImpl::new(None);
    let i = create_cache(&mut cache, "/opt/R/bin/R".to_string());
    let entry = &mut cache.entries[i];
    entry.store(runtime("/opt/R/bin/R"), &vec![meta("/opt/R/bin/R", 1)]);
    assert!(entry.get(&vec![meta("/opt/R/bin/R", 2)], None).is_none());
    let mut updated = runtime("/opt/R/bin/R");
    updated.version = "4.5.0".to_string();
    entry.store(updated, &vec![meta("/opt/R/bin/R", 2)]);
    assert_eq!(entry.get(&vec![meta("/opt/R/bin/R", 2)], None).unwrap().version, "4.5.0");
}

#[test]
fn disk_entries_are_used_only_with_a_cache_directory() {
    let present = vec![meta("/opt/R/bin/R", 1)];
    let mut with_dir = CacheImpl::new(Some("/cache".to_string()));
    let i = create_cache(&mut with_dir, "/opt/R/bin/R".to_string());
    let stamps = vec![("/opt/R/bin/R".to_string(), 1u128, None)];
    assert!(cache_file_is_usable(&runtime("/opt/R/bin/R"), &stamps, "/opt/R/bin/R", &present));
    assert!(!cache_file_is_usable(&runtime("/opt/R/bin/R"), &stamps, "/other/R", &present));
    assert!(!cache_file_is_usable(&runtime("/opt/R/bin/R"), &stamps, "/opt/R/bin/R", &vec![meta("/opt/R/bin/R", 9)]));
    let got = with_dir.entries[i].get(&present, Some((runtime("/opt/R/bin/R"), stamps.clone())));
    assert_eq!(got.unwrap().version, "4.4.0");

    let mut without = CacheImpl::new(None);
    let j = create_cache(&mut without, "/opt/R/bin/R".to_string());
    assert!(without.entries[j].get(&present, Some((runtime("/opt/R/bin/R"), stamps))).is_none());
}

#[test]
fn entries_are_shared_per_executable_and_cleared_with_a_new_directory() {
    let mut cache = CacheImpl::new(None);
    let a = create_cache(&mut cache, "/a/bin/R".to_string());
    let b = create_cache(&mut cache, "/a/bin/R".to_string());
    assert_eq!(a, b);
    assert_eq!(cache.entries.len(), 1);
    set_cache_directory(&mut cache, "/cache".to_string());
    assert_eq!(cache.entries.len(), 0);
    assert_eq!(get_cache_directory(&cache).as_deref(), Some("/cache"));
    create_cache(&mut cache, "/a/bin/R".to_string());
    set_cache_directory(&mut cache, "/cache".to_string());
    assert_eq!(cache.entries.len(), 1);
    assert_eq!(clear_cache(&mut cache).as_deref(), Some("/cache"));
    assert_eq!(cache.entries.len(), 0);
}

#[test]
fn tracking_adds_only_new_executables() {
    let mut cache = CacheImpl::new(None);
    let i = create_cache(&mut cache, "/opt/R/bin/R".to_string());
    let entry = &mut cache.entries[i];
    let metas = vec![meta("/opt/R/bin/R", 1), meta("/opt/R/bin/Rscript", 3)];
    entry.store(runtime("/opt/R/bin/R"), &metas);
    entry.track_executables(&vec!["/opt/R/bin/R".to_string(), "/opt/R/bin/Rscript".to_string(), "/gone".to_string()], &metas);
    assert_eq!(entry.executables.len(), 2);
    assert_eq!(entry.executables[1], ("/opt/R/bin/Rscript".to_string(), 3, None));
}

#[test]
fn cache_file_is_named_by_the_executable_digest() {
    let digest = format!("{:x}", sha2::Sha256::digest(b"/usr/bin/R"));
    assert_eq!(generate_cache_file("/cache", "/usr/bin/R"), format!("/cache/{}.5.json", &digest[..16]));
}

#[test]
fn cacheable_installation_tracks_its_executables() {
    let resolved = runtime("/opt/R/bin/R");
    let installation = RInstallationBuilder::new(Some(RInstallationKind::LinuxGlobal))
        .executable(Some("/opt/R/bin/R".to_string()))
        .known_executables(Some(vec!["/usr/bin/R".to_string()]))
        .home(Some("/opt/R".to_string()))
        .version(Some("4.4.0".to_string()))
        .arch(Some(Architecture::X64))
        .build();
    let mut cache = CacheImpl::new(None);
    let metas = vec![meta("/opt/R/bin/R", 1), meta("/usr/bin/R", 2)];
    assert!(resolved.add_to_cache(&installation, &mut cache, &metas));
    assert_eq!(cache.entries.len(), 1);
    assert_eq!(cache.entries[0].executable, "/opt/R/bin/R");
    let stamped: Vec<&str> = cache.entries[0].executables.iter().map(|s| s.0.as_str()).collect();
    assert_eq!(stamped, vec!["/opt/R/bin/R", "/usr/bin/R"]);

    let mut other = installation.clone();
    other.version = Some("4.5.0".to_string());
    let mut untouched = CacheImpl::new(None);
    assert!(!resolved.add_to_cache(&other, &mut untouched, &metas));
    assert!(untouched.entries.is_empty());
}

#[test]
fn removed_executable_clears_memory_and_spoils_the_cache_file() {
    let mut cache = CacheImpl::new(Some("/cache".to_string()));
    let i = create_cache(&mut cache, "/opt/R/bin/R".to_string());
    let entry = &mut cache.entries[i];
    let present = vec![meta("/opt/R/bin/R", 1)];
    let stamps = entry.store(runtime("/opt/R/bin/R"), &present);
    assert!(!entry.verify_in_memory_cache(&present));
    assert!(entry.installation.is_some());
    assert!(entry.verify_in_memory_cache(&vec![]));
    assert!(entry.installation.is_none());
    assert!(!cache_file_is_usable(&runtime("/opt/R/bin/R"), &stamps, "/opt/R/bin/R", &vec![]));
    assert!(cache_file_is_usable(&runtime("/opt/R/bin/R"), &stamps, "/opt/R/bin/R", &present));
}
