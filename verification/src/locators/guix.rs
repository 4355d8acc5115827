//! R installed with GNU Guix: store paths and Guix profiles.

use vstd::prelude::*;
use crate::environment::{env_get, Environment};
use crate::locator::{
    arch_or_infer, arch_or_inferred, classified, classify, first_present, pick_first_present, Host,
    Locator, LocatorKind, RefreshStatePersistence,
};
use crate::locators::homebrew::path_dirs;
use crate::manager::{clone_opt_manager, clone_opt_string, EnvManager, EnvManagerType};
use crate::path::{is_sorted_set_of, join, join_all, join_spec, lemma_views_push, sort_dedup_paths, views};
use crate::r_installation::{clone_strings, opt_views, RInstallation, RInstallationKind};
use crate::renv::REnv;
use crate::text::{contains_seq, starts_with_seq, str_contains, starts_with_any};

verus! {

broadcast use lemma_views_push;

/// Whether a path lies in the Guix store or a Guix profile.
pub open spec fn guix_path_spec(p: Seq<char>) -> bool {
    starts_with_seq(p, "/gnu/store/"@) || contains_seq(p, "/.guix-profile/"@) || contains_seq(
        p,
        "/.guix-home/profile/"@,
    ) || starts_with_seq(p, "/var/guix/profiles/"@) || starts_with_seq(
        p,
        "/run/current-system/profile/"@,
    )
}

pub fn looks_like_guix_path(path: &str) -> (r: bool)
    ensures
        r == guix_path_spec(path@),
{
    let prefixes: [&str; 3] = ["/gnu/store/", "/var/guix/profiles/", "/run/current-system/profile/"];
    let a = starts_with_any(path, &prefixes);
    assert(a == (starts_with_seq(path@, prefixes@[0]@) || starts_with_seq(path@, prefixes@[1]@)
        || starts_with_seq(path@, prefixes@[2]@)));
    a || str_contains(path, "/.guix-profile/") || str_contains(path, "/.guix-home/profile/")
}

/// The user name from `USER`, else `USERNAME`.
pub open spec fn user_name(env: Environment) -> Option<Seq<char>> {
    match env_get(env.variables@, "USER"@) {
        Some(u) => Some(u),
        None => env_get(env.variables@, "USERNAME"@),
    }
}

/// Profile bin directories to search, before sorting.
pub open spec fn guix_bins_input(env: Environment) -> Seq<Seq<char>> {
    seq!["/run/current-system/profile/bin"@, "/var/guix/profiles/default/bin"@] + (match env.user_home {
        Some(h) => seq![
            join_all(h@, seq![".guix-profile"@, "bin"@]),
            join_all(h@, seq![".guix-home"@, "profile"@, "bin"@]),
        ],
        None => Seq::empty(),
    }) + (match user_name(env) {
        Some(u) => seq![join_all("/var/guix/profiles/per-user"@, seq![u, "bin"@])],
        None => Seq::empty(),
    }) + (match env_get(env.variables@, "GUIX_PROFILE"@) {
        Some(p) => seq![join_spec(p, "bin"@)],
        None => Seq::empty(),
    })
}

fn join2(a: &str, b: &str, c: &str) -> (r: String)
    ensures
        r@ == join_all(a@, seq![b@, c@]),
{
    let x = join(a, b);
    let r = join(x.as_str(), c);
    assert(seq![b@, c@].drop_first() == seq![c@]);
    assert(seq![c@].drop_first() == Seq::<Seq<char>>::empty());
    proof {
        reveal_with_fuel(join_all, 3);
    }
    r
}

fn join3(a: &str, b: &str, c: &str, d: &str) -> (r: String)
    ensures
        r@ == join_all(a@, seq![b@, c@, d@]),
{
    let x = join(a, b);
    let r = join2(x.as_str(), c, d);
    assert(seq![b@, c@, d@].drop_first() == seq![c@, d@]);
    r
}

fn join4(a: &str, b: &str, c: &str, d: &str, e: &str) -> (r: String)
    ensures
        r@ == join_all(a@, seq![b@, c@, d@, e@]),
{
    let x = join(a, b);
    let r = join3(x.as_str(), c, d, e);
    assert(seq![b@, c@, d@, e@].drop_first() == seq![c@, d@, e@]);
    r
}

/// Guix profile bin directories: the system and default profiles, the
/// user's profiles under the home directory and per user, and
/// `GUIX_PROFILE`; sorted and deduplicated.
pub fn guix_profile_bins(environment: &Environment) -> (r: Vec<String>)
    ensures
        is_sorted_set_of(views(r@), guix_bins_input(*environment)),
{
    let mut bins: Vec<String> = Vec::new();
    bins.push("/run/current-system/profile/bin".to_string());
    bins.push("/var/guix/profiles/default/bin".to_string());
    let ghost b0 = views(bins@);
    match &environment.user_home {
        Some(h) => {
            bins.push(join2(h.as_str(), ".guix-profile", "bin"));
            bins.push(join3(h.as_str(), ".guix-home", "profile", "bin"));
        },
        None => {},
    }
    let ghost b1 = views(bins@);
    let user = match environment.get_env_var("USER") {
        Some(u) => Some(u),
        None => environment.get_env_var("USERNAME"),
    };
    match user {
        Some(u) => {
            bins.push(join2("/var/guix/profiles/per-user", u.as_str(), "bin"));
        },
        None => {},
    }
    let ghost b2 = views(bins@);
    match environment.get_env_var("GUIX_PROFILE") {
        Some(p) => {
            bins.push(join(p.as_str(), "bin"));
        },
        None => {},
    }
    assert(views(bins@) == guix_bins_input(*environment));
    sort_dedup_paths(bins)
}

/// `dir/guix` for each directory.
pub open spec fn guix_in(dirs: Seq<Seq<char>>) -> Seq<Seq<char>>
    decreases dirs.len(),
{
    if dirs.len() == 0 {
        Seq::empty()
    } else {
        guix_in(dirs.drop_last()).push(join_spec(dirs.last(), "guix"@))
    }
}

/// Where a `guix` executable may be, before sorting.
pub open spec fn guix_candidates_input(env: Environment) -> Seq<Seq<char>> {
    seq![
        "/run/current-system/profile/bin/guix"@,
        "/var/guix/profiles/default/bin/guix"@,
        "/usr/local/bin/guix"@,
    ] + (match env.user_home {
        Some(h) => seq![
            join_all(h@, seq![".guix-profile"@, "bin"@, "guix"@]),
            join_all(h@, seq![".guix-home"@, "profile"@, "bin"@, "guix"@]),
            join_all(h@, seq![".config"@, "guix"@, "current"@, "bin"@, "guix"@]),
        ],
        None => Seq::empty(),
    }) + guix_in(path_dirs(env))
}

/// The candidate `guix` executables, sorted and deduplicated, for the
/// caller to probe.
pub fn guix_manager_candidates(environment: &Environment) -> (r: Vec<String>)
    ensures
        is_sorted_set_of(views(r@), guix_candidates_input(*environment)),
{
    let mut c: Vec<String> = Vec::new();
    c.push("/run/current-system/profile/bin/guix".to_string());
    c.push("/var/guix/profiles/default/bin/guix".to_string());
    c.push("/usr/local/bin/guix".to_string());
    match &environment.user_home {
        Some(h) => {
            c.push(join3(h.as_str(), ".guix-profile", "bin", "guix"));
            c.push(join4(h.as_str(), ".guix-home", "profile", "bin", "guix"));
            let x = join(h.as_str(), ".config");
            let y = join4(x.as_str(), "guix", "current", "bin", "guix");
            assert(seq![".config"@, "guix"@, "current"@, "bin"@, "guix"@].drop_first() == seq![
                "guix"@,
                "current"@,
                "bin"@,
                "guix"@,
            ]);
            c.push(y);
        },
        None => {},
    }
    let ghost base = views(c@);
    let dirs = match environment.get_env_var("PATH") {
        Some(v) => crate::environment::split_paths(v.as_str()),
        None => Vec::new(),
    };
    let mut i: usize = 0;
    while i < dirs.len()
        invariant
            i <= dirs.len(),
            views(c@) == base + guix_in(views(dirs@).subrange(0, i as int)),
        decreases dirs.len() - i,
    {
        assert(views(dirs@).subrange(0, i + 1).drop_last() == views(dirs@).subrange(0, i as int));
        c.push(join(dirs[i].as_str(), "guix"));
        i = i + 1;
    }
    assert(views(dirs@).subrange(0, dirs.len() as int) == views(dirs@));
    assert(views(c@) == guix_candidates_input(*environment));
    sort_dedup_paths(c)
}

/// The first of the sorted candidates that exists (`existing` are the
/// candidates found on disk), as the Guix manager.
pub fn find_guix_manager(candidates: &Vec<String>, existing: &Vec<String>) -> (r: Option<
    EnvManager,
>)
    ensures
        match first_present(views(candidates@), views(existing@)) {
            Some(p) => r matches Some(m) && m.executable@ == p && m.tool == EnvManagerType::Guix
                && m.version is None,
            None => r is None,
        },
{
    match pick_first_present(candidates, existing) {
        Some(p) => Some(EnvManager::new(p, EnvManagerType::Guix, None)),
        None => None,
    }
}

/// The Guix locator.
#[derive(Debug)]
pub struct Guix {
    pub profile_bins: Vec<String>,
    pub manager: Option<EnvManager>,
}

/// What the file system says about a runtime Guix may own: where its
/// symlink chain ends, and the executables beside it.
#[derive(Debug)]
pub struct GuixProbe {
    pub resolved_executable: Option<String>,
    pub sibling_executables: Vec<String>,
}

impl Guix {
    /// The locator for an environment; `existing` are the probed
    /// `guix_manager_candidates` that exist.
    pub fn from(environment: &Environment, existing: &Vec<String>) -> (r: Guix)
        ensures
            is_sorted_set_of(views(r.profile_bins@), guix_bins_input(*environment)),
            exists|c: Seq<Seq<char>>|
                is_sorted_set_of(c, guix_candidates_input(*environment)) && match first_present(
                    c,
                    views(existing@),
                ) {
                    Some(p) => r.manager matches Some(m) && m.executable@ == p && m.tool
                        == EnvManagerType::Guix && m.version is None,
                    None => r.manager is None,
                },
    {
        let candidates = guix_manager_candidates(environment);
        let manager = find_guix_manager(&candidates, existing);
        assert(is_sorted_set_of(views(candidates@), guix_candidates_input(*environment)));
        Guix { profile_bins: guix_profile_bins(environment), manager }
    }

    /// Classifies a versioned runtime whose resolved executable, executable
    /// or home lies in Guix; the resolved executable is reported, the
    /// executable and its siblings as symlinks.
    pub fn try_from(&self, env: &REnv, host: Host, probe: &GuixProbe) -> (r: Option<RInstallation>)
        ensures
            ({
                let resolved = match probe.resolved_executable {
                    Some(p) => p,
                    None => env.executable,
                };
                &&& r is Some <==> (!host.windows && env.version is Some && env.home is Some && (
                guix_path_spec(resolved@) || guix_path_spec(env.executable@) || guix_path_spec(
                    env.home.unwrap()@,
                )))
                &&& r matches Some(i) ==> classified(
                    i,
                    RInstallationKind::Guix,
                    Some("Guix R"@),
                    None,
                    resolved,
                    env.home,
                    env.version,
                    Some(arch_or_inferred(env.arch, resolved@, host.arch)),
                    self.manager,
                    None,
                    Some(opt_views(env.symlinks) + seq![env.executable@, resolved@] + views(
                        probe.sibling_executables@,
                    )),
                    None,
                    None,
                    host.windows,
                )
            }),
    {
        if host.windows || env.version.is_none() {
            return None;
        }
        let resolved = match &probe.resolved_executable {
            Some(p) => p.clone(),
            None => env.executable.clone(),
        };
        let home = match &env.home {
            Some(h) => h.clone(),
            None => return None,
        };
        if !looks_like_guix_path(resolved.as_str()) && !looks_like_guix_path(
            env.executable.as_str(),
        ) && !looks_like_guix_path(home.as_str()) {
            return None;
        }
        let mut symlinks: Vec<String> = match &env.symlinks {
            Some(s) => clone_strings(s),
            None => Vec::new(),
        };
        symlinks.push(env.executable.clone());
        symlinks.push(resolved.clone());
        let ghost s0 = views(symlinks@);
        assert(s0 == opt_views(env.symlinks) + seq![env.executable@, resolved@]);
        let mut k: usize = 0;
        while k < probe.sibling_executables.len()
            invariant
                k <= probe.sibling_executables.len(),
                views(symlinks@) == s0 + views(probe.sibling_executables@).subrange(0, k as int),
            decreases probe.sibling_executables.len() - k,
        {
            symlinks.push(probe.sibling_executables[k].clone());
            k = k + 1;
        }
        assert(views(probe.sibling_executables@).subrange(0, probe.sibling_executables@.len() as int)
            == views(probe.sibling_executables@));
        let arch = arch_or_infer(env.arch, resolved.as_str(), host.arch);
        Some(
            classify(
                RInstallationKind::Guix,
                Some("Guix R".to_string()),
                None,
                resolved,
                Some(home),
                clone_opt_string(&env.version),
                Some(arch),
                clone_opt_manager(&self.manager),
                None,
                Some(symlinks),
                None,
                None,
                host.windows,
            ),
        )
    }
}

impl Locator for Guix {
    fn get_kind(&self) -> (r: LocatorKind)
        ensures
            r == LocatorKind::Guix,
    {
        LocatorKind::Guix
    }

    /// The locator keeps no state between requests.
    fn refresh_state(&self) -> (r: RefreshStatePersistence)
        ensures
            r == RefreshStatePersistence::Stateless,
    {
        RefreshStatePersistence::Stateless
    }

    fn supported_categories(&self) -> (r: Vec<RInstallationKind>)
        ensures
            r@ == seq![RInstallationKind::Guix],
    {
        let mut v: Vec<RInstallationKind> = Vec::new();
        v.push(RInstallationKind::Guix);
        v
    }
}

} // verus!
