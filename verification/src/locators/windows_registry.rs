//! R installations registered by the CRAN installer in the Windows registry.

use vstd::prelude::*;
use crate::cache::LocatorCache;
use crate::locator::{
    arch_or_infer, arch_or_inferred, classified, classify, Host, Locator, LocatorKind,
    RefreshStatePersistence, RefreshStateSyncScope,
};
use crate::manager::clone_opt_string;
use crate::path::{path_eq, views};
use crate::r_installation::{clone_opt_strings, opt_view, RInstallation, RInstallationKind};
use crate::renv::{infer_home, infer_home_spec, REnv};

verus! {

/// Whether a runtime is among the registered executables: its executable is
/// one of them, or its home is the home of one of them.
pub open spec fn is_registered(env: REnv, registered: Seq<Seq<char>>) -> bool {
    exists|k: int|
        0 <= k < registered.len() && (#[trigger] registered[k] == env.executable@ || (
        env.home is Some && infer_home_spec(registered[k]) == Some(env.home.unwrap()@)))
}

/// The registry locator, with the installations it has reported.
#[derive(Debug)]
pub struct WindowsRegistry {
    pub reported_executables: LocatorCache,
}

impl WindowsRegistry {
    pub fn new() -> (r: WindowsRegistry)
        ensures
            r.reported_executables.view() == Map::<Seq<char>, RInstallation>::empty(),
    {
        WindowsRegistry { reported_executables: LocatorCache::new() }
    }

    /// Takes over what a transient locator discovered: everything for a
    /// full refresh, in addition for a refresh filtered to this locator's
    /// kind, nothing otherwise.
    pub fn sync_refresh_state_from(&mut self, source: WindowsRegistry, scope: &RefreshStateSyncScope)
        ensures
            match *scope {
                RefreshStateSyncScope::Full => final(self).reported_executables.view()
                    == source.reported_executables.view(),
                RefreshStateSyncScope::GlobalFiltered(kind) => if kind
                    == RInstallationKind::WindowsRegistry {
                    final(self).reported_executables.view() == old(
                        self,
                    ).reported_executables.view().union_prefer_right(
                        source.reported_executables.view(),
                    )
                } else {
                    final(self).reported_executables.view() == old(
                        self,
                    ).reported_executables.view()
                },
                RefreshStateSyncScope::Workspace => final(self).reported_executables.view() == old(
                    self,
                ).reported_executables.view(),
            },
    {
        match scope {
            RefreshStateSyncScope::Full => {
                self.reported_executables.clear();
                let entries = source.reported_executables.into_entries();
                self.reported_executables.insert_many(entries);
                assert(Map::<Seq<char>, RInstallation>::empty().union_prefer_right(
                    source.reported_executables.view(),
                ) =~= source.reported_executables.view());
            },
            RefreshStateSyncScope::GlobalFiltered(kind) => {
                if *kind == RInstallationKind::WindowsRegistry {
                    let entries = source.reported_executables.into_entries();
                    self.reported_executables.insert_many(entries);
                }
            },
            RefreshStateSyncScope::Workspace => {},
        }
    }

    /// The registry installation of a runtime with a home; registry entries
    /// are authoritative, wherever the runtime is installed.
    pub fn installation_from_env(&self, env: &REnv, host: Host) -> (r: Option<RInstallation>)
        ensures
            r is Some <==> env.home is Some,
            r matches Some(i) ==> classified(
                i,
                RInstallationKind::WindowsRegistry,
                Some("Windows Registry R"@),
                None,
                env.executable,
                env.home,
                env.version,
                Some(arch_or_inferred(env.arch, env.executable@, host.arch)),
                None,
                match env.known_executables {
                    Some(k) => Some(views(k@)),
                    None => None,
                },
                match env.symlinks {
                    Some(s) => Some(views(s@)),
                    None => None,
                },
                None,
                None,
                host.windows,
            ),
    {
        let home = match &env.home {
            Some(h) => h.clone(),
            None => return None,
        };
        let arch = arch_or_infer(env.arch, env.executable.as_str(), host.arch);
        Some(
            classify(
                RInstallationKind::WindowsRegistry,
                Some("Windows Registry R".to_string()),
                None,
                env.executable.clone(),
                Some(home),
                clone_opt_string(&env.version),
                Some(arch),
                None,
                clone_opt_strings(&env.known_executables),
                clone_opt_strings(&env.symlinks),
                None,
                None,
                host.windows,
            ),
        )
    }

    /// Classifies a runtime on Windows that the registry lists (`registered`
    /// are the executables found under the registered install paths).
    pub fn try_from(&self, env: &REnv, host: Host, registered: &Vec<String>) -> (r: Option<RInstallation>)
        ensures
            r is Some <==> (host.windows && is_registered(*env, views(registered@)) && env.home is Some),
            r matches Some(i) ==> classified(
                i,
                RInstallationKind::WindowsRegistry,
                Some("Windows Registry R"@),
                None,
                env.executable,
                env.home,
                env.version,
                Some(arch_or_inferred(env.arch, env.executable@, host.arch)),
                None,
                match env.known_executables {
                    Some(k) => Some(views(k@)),
                    None => None,
                },
                match env.symlinks {
                    Some(s) => Some(views(s@)),
                    None => None,
                },
                None,
                None,
                host.windows,
            ),
    {
        if !host.windows {
            return None;
        }
        let mut found = false;
        let mut i: usize = 0;
        while i < registered.len()
            invariant
                i <= registered.len(),
                found == exists|k: int|
                    0 <= k < i && (#[trigger] views(registered@)[k] == env.executable@ || (
                    env.home is Some && infer_home_spec(views(registered@)[k]) == Some(
                        env.home.unwrap()@,
                    ))),
            decreases registered.len() - i,
        {
            assert(views(registered@)[i as int] == registered@[i as int]@);
            let same_exe = path_eq(registered[i].as_str(), env.executable.as_str());
            let same_home = match &env.home {
                Some(h) => match infer_home(registered[i].as_str()) {
                    Some(rh) => path_eq(h.as_str(), rh.as_str()),
                    None => false,
                },
                None => false,
            };
            if same_exe || same_home {
                found = true;
            }
            i = i + 1;
        }
        if !found {
            return None;
        }
        self.installation_from_env(env, host)
    }
}

impl Locator for WindowsRegistry {
    fn get_kind(&self) -> (r: LocatorKind)
        ensures
            r == LocatorKind::WindowsRegistry,
    {
        LocatorKind::WindowsRegistry
    }

    fn refresh_state(&self) -> (r: RefreshStatePersistence)
        ensures
            r == RefreshStatePersistence::SyncedDiscoveryState,
    {
        RefreshStatePersistence::SyncedDiscoveryState
    }

    fn supported_categories(&self) -> (r: Vec<RInstallationKind>)
        ensures
            r@ == seq![RInstallationKind::WindowsRegistry],
    {
        let mut v: Vec<RInstallationKind> = Vec::new();
        v.push(RInstallationKind::WindowsRegistry);
        v
    }
}

} // verus!
