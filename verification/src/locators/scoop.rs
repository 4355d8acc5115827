//! R installed with Scoop on Windows.

use vstd::prelude::*;
use crate::environment::{env_get, Environment};
use crate::json::{json_string_field, string_field};
use crate::locator::{
    any_within, arch_or_infer, arch_or_inferred, classified, classify, first_present,
    pick_first_present, Host, Locator, LocatorKind, RefreshStatePersistence,
};
use crate::manager::{clone_opt_manager, clone_opt_string, EnvManager, EnvManagerType};
use crate::path::{
    is_sorted_set_of, join, join_all, join_spec, lemma_views_push, path_starts_with, sort_dedup_paths,
    starts_with, views,
};
use crate::r_installation::{clone_opt_strings, opt_view, RInstallation, RInstallationKind};
use crate::renv::REnv;
use crate::text::{ascii_lower, ascii_lower_chars, chars_of, contains_chars, contains_seq};

verus! {

broadcast use lemma_views_push;

/// Whether a path (ASCII-lowercased) lies in a Scoop R app or shim.
pub open spec fn scoop_path_spec(p: Seq<char>) -> bool {
    let l = ascii_lower(p);
    contains_seq(l, "\\scoop\\apps\\r\\"@) || contains_seq(l, "\\scoop\\apps\\r-base\\"@)
        || contains_seq(l, "\\scoop\\shims\\r"@)
}

pub fn looks_like_scoop_path(path: &str) -> (r: bool)
    ensures
        r == scoop_path_spec(path@),
{
    let v = chars_of(path);
    let l = ascii_lower_chars(v.as_slice());
    let a = chars_of("\\scoop\\apps\\r\\");
    let b = chars_of("\\scoop\\apps\\r-base\\");
    let c = chars_of("\\scoop\\shims\\r");
    contains_chars(l.as_slice(), a.as_slice()) || contains_chars(l.as_slice(), b.as_slice())
        || contains_chars(l.as_slice(), c.as_slice())
}

/// The directory holding Scoop's configuration file: `XDG_CONFIG_HOME`,
/// else `<home>/.config`.
pub open spec fn config_home_spec(env: Environment) -> Option<Seq<char>> {
    match env.user_home {
        None => None,
        Some(h) => match env_get(env.variables@, "XDG_CONFIG_HOME"@) {
            Some(x) => Some(x),
            None => Some(join_spec(h@, ".config"@)),
        },
    }
}

/// Where Scoop's `config.json` is, when there is a home directory.
pub fn scoop_config_path(environment: &Environment) -> (r: Option<String>)
    ensures
        opt_view(r) == (match config_home_spec(*environment) {
            Some(c) => Some(join_all(c, seq!["scoop"@, "config.json"@])),
            None => None,
        }),
{
    let home = match &environment.user_home {
        Some(h) => h,
        None => return None,
    };
    let config_home = match environment.get_env_var("XDG_CONFIG_HOME") {
        Some(x) => x,
        None => join(home.as_str(), ".config"),
    };
    let s = join(config_home.as_str(), "scoop");
    let r = join(s.as_str(), "config.json");
    proof {
        reveal_with_fuel(join_all, 3);
    }
    Some(r)
}

/// A string field of the configuration text as a one-element or empty sequence.
pub open spec fn config_field(config: Option<Seq<char>>, key: Seq<char>) -> Seq<Seq<char>> {
    match config {
        Some(t) => match json_string_field(t, key) {
            Some(v) => seq![v],
            None => Seq::empty(),
        },
        None => Seq::empty(),
    }
}

/// Scoop root directories before sorting: `SCOOP`, `SCOOP_GLOBAL`,
/// `<home>/scoop` with the paths of the configuration, and
/// `<ProgramData>/scoop`.
pub open spec fn scoop_base_input(env: Environment, config: Option<Seq<char>>) -> Seq<Seq<char>> {
    (match env_get(env.variables@, "SCOOP"@) {
        Some(v) => seq![v],
        None => Seq::empty(),
    }) + (match env_get(env.variables@, "SCOOP_GLOBAL"@) {
        Some(v) => seq![v],
        None => Seq::empty(),
    }) + (match env.user_home {
        Some(h) => seq![join_spec(h@, "scoop"@)] + config_field(config, "root_path"@)
            + config_field(config, "global_path"@),
        None => Seq::empty(),
    }) + (match env_get(env.variables@, "ProgramData"@) {
        Some(p) => seq![join_spec(p, "scoop"@)],
        None => Seq::empty(),
    })
}

fn push_config_field(roots: &mut Vec<String>, config: &Option<String>, key: &str)
    ensures
        views(final(roots)@) == views(old(roots)@) + config_field(opt_view(*config), key@),
{
    match config {
        Some(text) => match string_field(text.as_str(), key) {
            Some(v) => roots.push(v),
            None => {},
        },
        None => {},
    }
}

/// The Scoop roots; `config` is the text of Scoop's `config.json`, read
/// from `scoop_config_path` when it exists.  Sorted and deduplicated.
pub fn scoop_base_roots(environment: &Environment, config: &Option<String>) -> (r: Vec<String>)
    ensures
        is_sorted_set_of(views(r@), scoop_base_input(*environment, opt_view(*config))),
{
    let mut roots: Vec<String> = Vec::new();
    match environment.get_env_var("SCOOP") {
        Some(v) => roots.push(v),
        None => {},
    }
    match environment.get_env_var("SCOOP_GLOBAL") {
        Some(v) => roots.push(v),
        None => {},
    }
    let ghost a = views(roots@);
    match &environment.user_home {
        Some(h) => {
            roots.push(join(h.as_str(), "scoop"));
            push_config_field(&mut roots, config, "root_path");
            push_config_field(&mut roots, config, "global_path");
        },
        None => {},
    }
    match environment.get_env_var("ProgramData") {
        Some(p) => roots.push(join(p.as_str(), "scoop")),
        None => {},
    }
    assert(views(roots@) == scoop_base_input(*environment, opt_view(*config)));
    sort_dedup_paths(roots)
}

/// `<base>/apps/r` and `<base>/apps/r-base` for each base root.
pub open spec fn app_dirs(bases: Seq<Seq<char>>) -> Seq<Seq<char>>
    decreases bases.len(),
{
    if bases.len() == 0 {
        Seq::empty()
    } else {
        app_dirs(bases.drop_last()) + seq![
            join_spec(join_spec(bases.last(), "apps"@), "r"@),
            join_spec(join_spec(bases.last(), "apps"@), "r-base"@),
        ]
    }
}

/// The R app directories under each root, sorted and deduplicated.
pub fn scoop_install_roots(base_roots: &Vec<String>) -> (r: Vec<String>)
    ensures
        is_sorted_set_of(views(r@), app_dirs(views(base_roots@))),
{
    let mut roots: Vec<String> = Vec::new();
    let mut i: usize = 0;
    while i < base_roots.len()
        invariant
            i <= base_roots.len(),
            views(roots@) == app_dirs(views(base_roots@).subrange(0, i as int)),
        decreases base_roots.len() - i,
    {
        assert(views(base_roots@).subrange(0, i + 1).drop_last() == views(base_roots@).subrange(
            0,
            i as int,
        ));
        let apps = join(base_roots[i].as_str(), "apps");
        roots.push(join(apps.as_str(), "r"));
        roots.push(join(apps.as_str(), "r-base"));
        i = i + 1;
    }
    assert(views(base_roots@).subrange(0, base_roots.len() as int) == views(base_roots@));
    sort_dedup_paths(roots)
}

/// `<root>/shims/scoop.cmd`, `.ps1` and `scoop` for each root, in order.
pub open spec fn shim_candidates(bases: Seq<Seq<char>>) -> Seq<Seq<char>>
    decreases bases.len(),
{
    if bases.len() == 0 {
        Seq::empty()
    } else {
        let s = join_spec(bases.last(), "shims"@);
        shim_candidates(bases.drop_last()) + seq![
            join_spec(s, "scoop.cmd"@),
            join_spec(s, "scoop.ps1"@),
            join_spec(s, "scoop"@),
        ]
    }
}

/// The candidate Scoop shims, in order, for the caller to probe.
pub fn scoop_manager_candidates(base_roots: &Vec<String>) -> (r: Vec<String>)
    ensures
        views(r@) == shim_candidates(views(base_roots@)),
{
    let mut out: Vec<String> = Vec::new();
    let mut i: usize = 0;
    while i < base_roots.len()
        invariant
            i <= base_roots.len(),
            views(out@) == shim_candidates(views(base_roots@).subrange(0, i as int)),
        decreases base_roots.len() - i,
    {
        assert(views(base_roots@).subrange(0, i + 1).drop_last() == views(base_roots@).subrange(
            0,
            i as int,
        ));
        let shims = join(base_roots[i].as_str(), "shims");
        out.push(join(shims.as_str(), "scoop.cmd"));
        out.push(join(shims.as_str(), "scoop.ps1"));
        out.push(join(shims.as_str(), "scoop"));
        i = i + 1;
    }
    assert(views(base_roots@).subrange(0, base_roots.len() as int) == views(base_roots@));
    out
}

/// The first shim that exists, as the Scoop manager.
pub fn scoop_manager(base_roots: &Vec<String>, existing: &Vec<String>) -> (r: Option<EnvManager>)
    ensures
        match first_present(shim_candidates(views(base_roots@)), views(existing@)) {
            Some(p) => r matches Some(m) && m.executable@ == p && m.tool == EnvManagerType::Scoop
                && m.version is None,
            None => r is None,
        },
{
    let candidates = scoop_manager_candidates(base_roots);
    match pick_first_present(&candidates, existing) {
        Some(p) => Some(EnvManager::new(p, EnvManagerType::Scoop, None)),
        None => None,
    }
}

/// The Scoop locator.
#[derive(Debug)]
pub struct Scoop {
    pub install_roots: Vec<String>,
    pub manager: Option<EnvManager>,
}

impl Scoop {
    /// The locator for an environment; `config` is the text of Scoop's
    /// configuration file and `existing` the probed shims that exist.
    pub fn from(environment: &Environment, config: &Option<String>, existing: &Vec<String>) -> (r:
        Scoop)
        ensures
            exists|bases: Seq<Seq<char>>|
                is_sorted_set_of(bases, scoop_base_input(*environment, opt_view(*config)))
                    && is_sorted_set_of(views(r.install_roots@), app_dirs(bases)) && match first_present(
                    shim_candidates(bases),
                    views(existing@),
                ) {
                    Some(p) => r.manager matches Some(m) && m.executable@ == p && m.tool
                        == EnvManagerType::Scoop && m.version is None,
                    None => r.manager is None,
                },
    {
        let bases = scoop_base_roots(environment, config);
        let install_roots = scoop_install_roots(&bases);
        let manager = scoop_manager(&bases, existing);
        assert(is_sorted_set_of(views(bases@), scoop_base_input(*environment, opt_view(*config))));
        Scoop { install_roots, manager }
    }

    fn within_roots(&self, exe: &str, home: &str) -> (r: bool)
        ensures
            r == exists|k: int|
                0 <= k < self.install_roots@.len() && (path_starts_with(
                    exe@,
                    #[trigger] views(self.install_roots@)[k],
                ) || path_starts_with(home@, views(self.install_roots@)[k])),
    {
        let mut i: usize = 0;
        while i < self.install_roots.len()
            invariant
                i <= self.install_roots.len(),
                forall|k: int|
                    0 <= k < i ==> !(path_starts_with(exe@, #[trigger] views(self.install_roots@)[k])
                        || path_starts_with(home@, views(self.install_roots@)[k])),
            decreases self.install_roots.len() - i,
        {
            if starts_with(exe, self.install_roots[i].as_str()) || starts_with(
                home,
                self.install_roots[i].as_str(),
            ) {
                assert(views(self.install_roots@)[i as int] == self.install_roots@[i as int]@);
                return true;
            }
            i = i + 1;
        }
        false
    }

    /// Classifies a versioned runtime on Windows in a Scoop app or shim, or
    /// under one of the install roots.
    pub fn try_from(&self, env: &REnv, host: Host) -> (r: Option<RInstallation>)
        ensures
            r is Some <==> (host.windows && env.version is Some && env.home is Some && (
            scoop_path_spec(env.executable@) || scoop_path_spec(env.home.unwrap()@) || exists|k: int|
                0 <= k < self.install_roots@.len() && (path_starts_with(
                    env.executable@,
                    #[trigger] views(self.install_roots@)[k],
                ) || path_starts_with(env.home.unwrap()@, views(self.install_roots@)[k])))),
            r matches Some(i) ==> classified(
                i,
                RInstallationKind::Scoop,
                Some("Scoop R"@),
                None,
                env.executable,
                env.home,
                env.version,
                Some(arch_or_inferred(env.arch, env.executable@, host.arch)),
                self.manager,
                match env.known_executables {
                    Some(k) => Some(views(k@)),
                    None => None,
                },
                match env.symlinks {
                    Some(s) => Some(views(s@)),
                    None => None,
                },
                None,
                None,
                host.windows,
            ),
    {
        if !host.windows || env.version.is_none() {
            return None;
        }
        let home = match &env.home {
            Some(h) => h.clone(),
            None => return None,
        };
        if !looks_like_scoop_path(env.executable.as_str()) && !looks_like_scoop_path(home.as_str())
            && !self.within_roots(env.executable.as_str(), home.as_str()) {
            return None;
        }
        let arch = arch_or_infer(env.arch, env.executable.as_str(), host.arch);
        Some(
            classify(
                RInstallationKind::Scoop,
                Some("Scoop R".to_string()),
                None,
                env.executable.clone(),
                Some(home),
                clone_opt_string(&env.version),
                Some(arch),
                clone_opt_manager(&self.manager),
                clone_opt_strings(&env.known_executables),
                clone_opt_strings(&env.symlinks),
                None,
                None,
                host.windows,
            ),
        )
    }
}

impl Locator for Scoop {
    fn get_kind(&self) -> (r: LocatorKind)
        ensures
            r == LocatorKind::Scoop,
    {
        LocatorKind::Scoop
    }

    /// The locator keeps no state between requests.
    fn refresh_state(&self) -> (r: RefreshStatePersistence)
        ensures
            r == RefreshStatePersistence::Stateless,
    {
        RefreshStatePersistence::Stateless
    }

    fn supported_categories(&self) -> (r: Vec<RInstallationKind>)
        ensures
            r@ == seq![RInstallationKind::Scoop],
    {
        let mut v: Vec<RInstallationKind> = Vec::new();
        v.push(RInstallationKind::Scoop);
        v
    }
}

} // verus!
