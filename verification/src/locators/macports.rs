//! R installed by MacPorts under `/opt/local`.

use vstd::prelude::*;
use crate::locator::{
    arch_or_infer, arch_or_inferred, classified, classify, Host, Locator, LocatorKind,
    RefreshStatePersistence,
};
use crate::manager::{clone_opt_manager, clone_opt_string, is_manager, EnvManager, EnvManagerType};
use crate::path::{ends_with, is_sorted_set_of, join, join_spec, lemma_views_push, path_ends_with, sort_dedup_paths, views};
use crate::r_installation::{clone_opt_strings, RInstallation, RInstallationKind};
use crate::renv::REnv;
use crate::text::{starts_with_any, starts_with_seq};

verus! {

broadcast use lemma_views_push;

/// Whether a path lies in one of the MacPorts R trees (by text prefix).
pub open spec fn macports_path_spec(p: Seq<char>) -> bool {
    starts_with_seq(p, "/opt/local/lib/R"@) || starts_with_seq(p, "/opt/local/bin/"@)
        || starts_with_seq(p, "/opt/local/Library/Frameworks/R.framework/Versions/"@)
}

pub fn looks_like_macports_path(path: &str) -> (r: bool)
    ensures
        r == macports_path_spec(path@),
{
    let prefixes: [&str; 3] = [
        "/opt/local/lib/R",
        "/opt/local/bin/",
        "/opt/local/Library/Frameworks/R.framework/Versions/",
    ];
    let r = starts_with_any(path, &prefixes);
    assert(r == (starts_with_seq(path@, prefixes@[0]@) || starts_with_seq(path@, prefixes@[1]@)
        || starts_with_seq(path@, prefixes@[2]@)));
    r
}

/// The MacPorts package manager, when `/opt/local/bin/port` exists.
pub fn find_port_manager(port_exists: bool) -> (r: Option<EnvManager>)
    ensures
        port_exists ==> is_manager(r, "/opt/local/bin/port"@, EnvManagerType::MacPorts),
        !port_exists ==> r is None,
{
    if port_exists {
        Some(EnvManager::new("/opt/local/bin/port".to_string(), EnvManagerType::MacPorts, None))
    } else {
        None
    }
}

/// `<version>/Resources` for each framework version directory but `Current`.
pub open spec fn version_resources(versions: Seq<Seq<char>>) -> Seq<Seq<char>>
    decreases versions.len(),
{
    if versions.len() == 0 {
        Seq::empty()
    } else {
        let rest = version_resources(versions.drop_last());
        if path_ends_with(versions.last(), "Current"@) {
            rest
        } else {
            rest.push(join_spec(versions.last(), "Resources"@))
        }
    }
}

/// Where a MacPorts R may be installed, given the entries of
/// `/opt/local/Library/Frameworks/R.framework/Versions`; sorted and
/// deduplicated.
pub fn candidate_install_roots(framework_versions: &Vec<String>) -> (r: Vec<String>)
    ensures
        is_sorted_set_of(
            views(r@),
            seq!["/opt/local"@, "/opt/local/lib/R"@] + version_resources(views(framework_versions@)),
        ),
{
    let mut roots: Vec<String> = Vec::new();
    roots.push("/opt/local".to_string());
    roots.push("/opt/local/lib/R".to_string());
    let ghost base = views(roots@);
    let mut i: usize = 0;
    while i < framework_versions.len()
        invariant
            i <= framework_versions.len(),
            base == seq!["/opt/local"@, "/opt/local/lib/R"@],
            views(roots@) == base + version_resources(
                views(framework_versions@).subrange(0, i as int),
            ),
        decreases framework_versions.len() - i,
    {
        assert(views(framework_versions@).subrange(0, i + 1).drop_last() == views(
            framework_versions@,
        ).subrange(0, i as int));
        if !ends_with(framework_versions[i].as_str(), "Current") {
            roots.push(join(framework_versions[i].as_str(), "Resources"));
        }
        i = i + 1;
    }
    assert(views(framework_versions@).subrange(0, framework_versions@.len() as int) == views(
        framework_versions@,
    ));
    sort_dedup_paths(roots)
}

/// The MacPorts locator.
#[derive(Debug)]
pub struct MacPorts {
    pub manager: Option<EnvManager>,
}

impl MacPorts {
    pub fn new(port_exists: bool) -> (r: MacPorts)
        ensures
            port_exists ==> is_manager(r.manager, "/opt/local/bin/port"@, EnvManagerType::MacPorts),
            !port_exists ==> r.manager is None,
    {
        MacPorts { manager: find_port_manager(port_exists) }
    }

    /// Classifies a versioned runtime on macOS whose executable or home lies
    /// in a MacPorts tree.
    pub fn try_from(&self, env: &REnv, host: Host) -> (r: Option<RInstallation>)
        ensures
            r is Some <==> (host.macos && env.version is Some && env.home is Some && (
            macports_path_spec(env.executable@) || macports_path_spec(env.home.unwrap()@))),
            r matches Some(i) ==> classified(
                i,
                RInstallationKind::MacPorts,
                Some("MacPorts R"@),
                None,
                env.executable,
                env.home,
                env.version,
                Some(arch_or_inferred(env.arch, env.executable@, host.arch)),
                self.manager,
                None,
                match env.symlinks {
                    Some(s) => Some(views(s@)),
                    None => None,
                },
                None,
                None,
                host.windows,
            ),
    {
        if !host.macos || env.version.is_none() {
            return None;
        }
        let home = match &env.home {
            Some(h) => h.clone(),
            None => return None,
        };
        if !looks_like_macports_path(env.executable.as_str()) && !looks_like_macports_path(
            home.as_str(),
        ) {
            return None;
        }
        let arch = arch_or_infer(env.arch, env.executable.as_str(), host.arch);
        Some(
            classify(
                RInstallationKind::MacPorts,
                Some("MacPorts R".to_string()),
                None,
                env.executable.clone(),
                Some(home),
                clone_opt_string(&env.version),
                Some(arch),
                clone_opt_manager(&self.manager),
                None,
                clone_opt_strings(&env.symlinks),
                None,
                None,
                host.windows,
            ),
        )
    }
}

impl Locator for MacPorts {
    fn get_kind(&self) -> (r: LocatorKind)
        ensures
            r == LocatorKind::MacPorts,
    {
        LocatorKind::MacPorts
    }

    /// The locator keeps no state between requests.
    fn refresh_state(&self) -> (r: RefreshStatePersistence)
        ensures
            r == RefreshStatePersistence::Stateless,
    {
        RefreshStatePersistence::Stateless
    }

    fn supported_categories(&self) -> (r: Vec<RInstallationKind>)
        ensures
            r@ == seq![RInstallationKind::MacPorts],
    {
        let mut v: Vec<RInstallationKind> = Vec::new();
        v.push(RInstallationKind::MacPorts);
        v
    }
}

} // verus!
