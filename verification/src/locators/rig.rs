//! R versions installed by `rig`, the R installation manager.

use vstd::prelude::*;
use crate::environment::{env_get, split_paths, Environment};
use crate::locator::{
    arch_or_infer, arch_or_inferred, classified, classify, first_present, pick_first_present,
    Configuration, Host, Locator, LocatorKind, RefreshStatePersistence,
};
use crate::locators::homebrew::path_dirs;
use crate::manager::{clone_opt_string, EnvManager, EnvManagerType};
use crate::path::{is_sorted_set_of, join, join_all, join_spec, lemma_views_push, path_starts_with, sort_dedup_paths, starts_with, views};
use crate::r_installation::{clone_opt_strings, opt_view, RInstallation, RInstallationKind};
use crate::renv::REnv;

verus! {

broadcast use lemma_views_push;

/// The per-user directory where rig installs R.
pub open spec fn user_root_spec(env: Environment, windows: bool) -> Option<Seq<char>> {
    match env.user_home {
        None => None,
        Some(h) => if windows {
            let base = match env_get(env.variables@, "APPDATA"@) {
                Some(a) => a,
                None => h@,
            };
            Some(join_all(base, seq!["rig"@, "data"@, "r"@]))
        } else {
            Some(join_all(h@, seq![".local"@, "share"@, "rig"@, "r"@]))
        },
    }
}

/// The rig root named by `RIG_R_INSTALL_DIR`, if any.
pub open spec fn custom_root_spec(env: Environment) -> Seq<Seq<char>> {
    match env_get(env.variables@, "RIG_R_INSTALL_DIR"@) {
        Some(c) => seq![c],
        None => Seq::empty(),
    }
}

/// The user root as a one-element or empty sequence.
pub open spec fn user_root_seq(env: Environment, windows: bool) -> Seq<Seq<char>> {
    match user_root_spec(env, windows) {
        Some(u) => seq![u],
        None => Seq::empty(),
    }
}

/// Where rig installs R (shared roots included), and the roots that prove
/// rig owns what is under them (the custom and per-user roots); each sorted
/// and deduplicated.
pub fn rig_roots(environment: &Environment, windows: bool) -> (r: (Vec<String>, Vec<String>))
    ensures
        is_sorted_set_of(
            views(r.0@),
            seq![
                "/opt/R"@,
                "/Library/Frameworks/R.framework/Versions"@,
                "C:\\Program Files\\R"@,
            ] + custom_root_spec(*environment) + user_root_seq(*environment, windows),
        ),
        is_sorted_set_of(
            views(r.1@),
            custom_root_spec(*environment) + user_root_seq(*environment, windows),
        ),
{
    let mut roots: Vec<String> = Vec::new();
    roots.push("/opt/R".to_string());
    roots.push("/Library/Frameworks/R.framework/Versions".to_string());
    roots.push("C:\\Program Files\\R".to_string());
    let mut classification: Vec<String> = Vec::new();
    match environment.get_env_var("RIG_R_INSTALL_DIR") {
        Some(c) => {
            classification.push(c.clone());
            roots.push(c);
        },
        None => {},
    }
    match &environment.user_home {
        Some(h) => {
            let user_root = if windows {
                let base = match environment.get_env_var("APPDATA") {
                    Some(a) => a,
                    None => h.clone(),
                };
                let x = join(base.as_str(), "rig");
                let y = join(x.as_str(), "data");
                let z = join(y.as_str(), "r");
                proof {
                    reveal_with_fuel(join_all, 4);
                }
                z
            } else {
                let x = join(h.as_str(), ".local");
                let y = join(x.as_str(), "share");
                let z = join(y.as_str(), "rig");
                let w = join(z.as_str(), "r");
                proof {
                    reveal_with_fuel(join_all, 5);
                }
                w
            };
            classification.push(user_root.clone());
            roots.push(user_root);
        },
        None => {},
    }
    assert(views(roots@) == seq![
        "/opt/R"@,
        "/Library/Frameworks/R.framework/Versions"@,
        "C:\\Program Files\\R"@,
    ] + custom_root_spec(*environment) + user_root_seq(*environment, windows));
    assert(views(classification@) == custom_root_spec(*environment) + user_root_seq(
        *environment,
        windows,
    ));
    (sort_dedup_paths(roots), sort_dedup_paths(classification))
}

/// `rig` (or `rig.exe`) in each directory.
pub open spec fn rig_in(dirs: Seq<Seq<char>>, name: Seq<char>) -> Seq<Seq<char>>
    decreases dirs.len(),
{
    if dirs.len() == 0 {
        Seq::empty()
    } else {
        rig_in(dirs.drop_last(), name).push(join_spec(dirs.last(), name))
    }
}

/// Where the `rig` executable may be, most preferred first.
pub open spec fn rig_candidates_spec(env: Environment, windows: bool) -> Seq<Seq<char>> {
    rig_in(path_dirs(env), if windows { "rig.exe"@ } else { "rig"@ }) + seq![
        "/usr/local/bin/rig"@,
        "/opt/homebrew/bin/rig"@,
        "/usr/bin/rig"@,
        "C:\\Program Files\\rig\\bin\\rig.exe"@,
    ]
}

/// The candidate `rig` executables, in order, for the caller to probe.
pub fn rig_executable_candidates(environment: &Environment, windows: bool) -> (r: Vec<String>)
    ensures
        views(r@) == rig_candidates_spec(*environment, windows),
{
    let name = if windows { "rig.exe" } else { "rig" };
    let dirs = match environment.get_env_var("PATH") {
        Some(v) => split_paths(v.as_str()),
        None => Vec::new(),
    };
    let mut c: Vec<String> = Vec::new();
    let mut i: usize = 0;
    while i < dirs.len()
        invariant
            i <= dirs.len(),
            views(c@) == rig_in(views(dirs@).subrange(0, i as int), name@),
        decreases dirs.len() - i,
    {
        assert(views(dirs@).subrange(0, i + 1).drop_last() == views(dirs@).subrange(0, i as int));
        c.push(join(dirs[i].as_str(), name));
        i = i + 1;
    }
    assert(views(dirs@).subrange(0, dirs.len() as int) == views(dirs@));
    c.push("/usr/local/bin/rig".to_string());
    c.push("/opt/homebrew/bin/rig".to_string());
    c.push("/usr/bin/rig".to_string());
    c.push("C:\\Program Files\\rig\\bin\\rig.exe".to_string());
    c
}

/// The first candidate that exists as the `rig` executable.
pub fn find_rig_executable(candidates: &Vec<String>, existing: &Vec<String>) -> (r: Option<String>)
    ensures
        opt_view(r) == first_present(views(candidates@), views(existing@)),
{
    pick_first_present(candidates, existing)
}

/// The rig locator.
#[derive(Debug)]
pub struct Rig {
    pub rig_executable: Option<String>,
    pub install_roots: Vec<String>,
    pub classification_roots: Vec<String>,
    pub configured_manager: bool,
}

/// Whether `home` or `exe` lies under one of the roots.
pub open spec fn under_roots(home: Seq<char>, exe: Seq<char>, roots: Seq<Seq<char>>) -> bool {
    exists|k: int|
        0 <= k < roots.len() && (path_starts_with(home, #[trigger] roots[k]) || path_starts_with(
            exe,
            roots[k],
        ))
}

fn any_under(home: &str, exe: &str, roots: &Vec<String>) -> (r: bool)
    ensures
        r == under_roots(home@, exe@, views(roots@)),
{
    let mut i: usize = 0;
    while i < roots.len()
        invariant
            i <= roots.len(),
            forall|k: int|
                0 <= k < i ==> !(path_starts_with(home@, #[trigger] views(roots@)[k])
                    || path_starts_with(exe@, views(roots@)[k])),
        decreases roots.len() - i,
    {
        if starts_with(home, roots[i].as_str()) || starts_with(exe, roots[i].as_str()) {
            assert(views(roots@)[i as int] == roots@[i as int]@);
            return true;
        }
        i = i + 1;
    }
    false
}

impl Rig {
    /// The locator for an environment; `rig_executable` is what
    /// `find_rig_executable` found.
    pub fn from(environment: &Environment, windows: bool, rig_executable: Option<String>) -> (r: Rig)
        ensures
            r.rig_executable == rig_executable,
            !r.configured_manager,
            is_sorted_set_of(
                views(r.install_roots@),
                seq![
                    "/opt/R"@,
                    "/Library/Frameworks/R.framework/Versions"@,
                    "C:\\Program Files\\R"@,
                ] + custom_root_spec(*environment) + user_root_seq(*environment, windows),
            ),
            is_sorted_set_of(
                views(r.classification_roots@),
                custom_root_spec(*environment) + user_root_seq(*environment, windows),
            ),
    {
        let (install_roots, classification_roots) = rig_roots(environment, windows);
        Rig { rig_executable, install_roots, classification_roots, configured_manager: false }
    }

    /// Takes the configured `rig`, else the one found (`found`); a
    /// configured `rig` also lets the shared roots prove ownership.
    pub fn configure(&mut self, config: &Configuration, found: Option<String>)
        ensures
            final(self).configured_manager == config.rig_executable is Some,
            final(self).rig_executable == (match config.rig_executable {
                Some(p) => Some(p),
                None => found,
            }),
            final(self).install_roots@ == old(self).install_roots@,
            final(self).classification_roots@ == old(self).classification_roots@,
    {
        self.configured_manager = config.rig_executable.is_some();
        self.rig_executable = match &config.rig_executable {
            Some(p) => Some(p.clone()),
            None => found,
        };
    }

    /// The rig installation of a runtime with a home.
    pub fn installation_from_env(&self, env: &REnv, host: Host) -> (r: Option<RInstallation>)
        ensures
            r is Some <==> env.home is Some,
            r matches Some(i) ==> classified(
                i,
                RInstallationKind::Rig,
                Some("rig managed R"@),
                None,
                env.executable,
                env.home,
                env.version,
                Some(arch_or_inferred(env.arch, env.executable@, host.arch)),
                match self.rig_executable {
                    Some(p) => Some((EnvManager { executable: p, version: None, tool: EnvManagerType::Rig })),
                    None => None,
                },
                match env.known_executables {
                    Some(k) => Some(views(k@)),
                    None => None,
                },
                match env.symlinks {
                    Some(s) => Some(views(s@)),
                    None => None,
                },
                None,
                None,
                host.windows,
            ),
    {
        let home = match &env.home {
            Some(h) => h.clone(),
            None => return None,
        };
        let manager = match &self.rig_executable {
            Some(p) => Some(EnvManager::new(p.clone(), EnvManagerType::Rig, None)),
            None => None,
        };
        let arch = arch_or_infer(env.arch, env.executable.as_str(), host.arch);
        Some(
            classify(
                RInstallationKind::Rig,
                Some("rig managed R".to_string()),
                None,
                env.executable.clone(),
                Some(home),
                clone_opt_string(&env.version),
                Some(arch),
                manager,
                clone_opt_strings(&env.known_executables),
                clone_opt_strings(&env.symlinks),
                None,
                None,
                host.windows,
            ),
        )
    }

    /// Classifies a runtime under a root that proves rig ownership, or, once
    /// a `rig` was configured, under any rig install root.
    pub fn try_from(&self, env: &REnv, host: Host) -> (r: Option<RInstallation>)
        ensures
            r is Some <==> (env.home is Some && (under_roots(
                env.home.unwrap()@,
                env.executable@,
                views(self.classification_roots@),
            ) || (self.configured_manager && under_roots(
                env.home.unwrap()@,
                env.executable@,
                views(self.install_roots@),
            )))),
            r matches Some(i) ==> classified(
                i,
                RInstallationKind::Rig,
                Some("rig managed R"@),
                None,
                env.executable,
                env.home,
                env.version,
                Some(arch_or_inferred(env.arch, env.executable@, host.arch)),
                match self.rig_executable {
                    Some(p) => Some((EnvManager { executable: p, version: None, tool: EnvManagerType::Rig })),
                    None => None,
                },
                match env.known_executables {
                    Some(k) => Some(views(k@)),
                    None => None,
                },
                match env.symlinks {
                    Some(s) => Some(views(s@)),
                    None => None,
                },
                None,
                None,
                host.windows,
            ),
    {
        let home = match &env.home {
            Some(h) => h,
            None => return None,
        };
        let owned = any_under(home.as_str(), env.executable.as_str(), &self.classification_roots);
        let configured = self.configured_manager && any_under(
            home.as_str(),
            env.executable.as_str(),
            &self.install_roots,
        );
        if !owned && !configured {
            return None;
        }
        self.installation_from_env(env, host)
    }
}

impl Locator for Rig {
    fn get_kind(&self) -> (r: LocatorKind)
        ensures
            r == LocatorKind::Rig,
    {
        LocatorKind::Rig
    }

    fn refresh_state(&self) -> (r: RefreshStatePersistence)
        ensures
            r == RefreshStatePersistence::ConfiguredOnly,
    {
        RefreshStatePersistence::ConfiguredOnly
    }

    fn supported_categories(&self) -> (r: Vec<RInstallationKind>)
        ensures
            r@ == seq![RInstallationKind::Rig],
    {
        let mut v: Vec<RInstallationKind> = Vec::new();
        v.push(RInstallationKind::Rig);
        v
    }
}

} // verus!
