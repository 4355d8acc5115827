//! R installed with Spack: install trees under `opt/spack` and the prefixes
//! that `spack find --paths r` reports.

use vstd::prelude::*;
use crate::cache::LocatorCache;
use crate::environment::{env_get, split_paths, Environment};
use crate::lines::{last_token, last_token_spec, lines, lines_spec};
use crate::locator::{
    arch_or_infer, arch_or_inferred, classified, classify, first_present, pick_first_present, Host,
    Locator, LocatorKind, RefreshStatePersistence,
};
use crate::locators::guix::guix_in;
use crate::locators::homebrew::{joined_all, path_dirs};
use crate::manager::{clone_opt_manager, clone_opt_string, EnvManager, EnvManagerType};
use crate::path::{
    is_sorted_set_of, join, join_all, join_spec, lemma_views_push, path_starts_with, sort_dedup_paths,
    starts_with, views,
};
use crate::r_installation::{clone_strings, opt_views, same_installation, RInstallation, RInstallationKind};
use crate::renv::REnv;
use crate::text::{contains_seq, str_contains, string_of};

verus! {

broadcast use lemma_views_push;

/// Whether a path lies in a Spack install tree.
pub open spec fn spack_path_spec(p: Seq<char>) -> bool {
    contains_seq(p, "/spack/opt/spack/"@) || contains_seq(p, "/spack/var/spack/"@)
}

pub fn looks_like_spack_path(path: &str) -> (r: bool)
    ensures
        r == spack_path_spec(path@),
{
    str_contains(path, "/spack/opt/spack/") || str_contains(path, "/spack/var/spack/")
}

/// The absolute last tokens of the lines, in order.
pub open spec fn absolute_last_tokens(ls: Seq<Seq<char>>) -> Seq<Seq<char>>
    decreases ls.len(),
{
    if ls.len() == 0 {
        Seq::empty()
    } else {
        let rest = absolute_last_tokens(ls.drop_last());
        match last_token_spec(ls.last()) {
            Some(t) => if t.len() > 0 && t[0] == '/' {
                rest.push(t)
            } else {
                rest
            },
            None => rest,
        }
    }
}

/// The installation prefixes in the output of `spack find --paths r`: the
/// last token of each line when it is an absolute path; sorted and
/// deduplicated.
pub fn parse_spack_find_paths(output: &str) -> (r: Vec<String>)
    ensures
        is_sorted_set_of(views(r@), absolute_last_tokens(lines_spec(output@))),
{
    let ls = lines(output);
    let ghost lv = ls@.map_values(|l: String| l@);
    let mut paths: Vec<String> = Vec::new();
    let mut i: usize = 0;
    while i < ls.len()
        invariant
            i <= ls.len(),
            lv == ls@.map_values(|l: String| l@),
            views(paths@) == absolute_last_tokens(lv.subrange(0, i as int)),
        decreases ls.len() - i,
    {
        assert(lv.subrange(0, i + 1).drop_last() == lv.subrange(0, i as int));
        let v = crate::text::chars_of(ls[i].as_str());
        match last_token(v.as_slice()) {
            Some(t) => {
                if t.len() > 0 && t[0] == '/' {
                    paths.push(string_of(t.as_slice()));
                }
            },
            None => {},
        }
        i = i + 1;
    }
    assert(lv.subrange(0, ls.len() as int) == lv);
    sort_dedup_paths(paths)
}

/// `SPACK_ROOT` as a one-element or empty sequence.
pub open spec fn spack_root(env: Environment) -> Seq<Seq<char>> {
    match env_get(env.variables@, "SPACK_ROOT"@) {
        Some(v) => seq![v],
        None => Seq::empty(),
    }
}

/// Spack install trees before sorting.
pub open spec fn opt_dirs_input(env: Environment) -> Seq<Seq<char>> {
    joined_all(joined_all(spack_root(env), "opt"@), "spack"@) + (match env.user_home {
        Some(h) => seq![
            join_all(h@, seq!["spack"@, "opt"@, "spack"@]),
            join_all(h@, seq![".spack"@, "opt"@, "spack"@]),
        ],
        None => Seq::empty(),
    }) + seq!["/opt/spack/opt/spack"@]
}

fn join_three(a: &str, b: &str, c: &str, d: &str) -> (r: String)
    ensures
        r@ == join_all(a@, seq![b@, c@, d@]),
{
    let x = join(a, b);
    let y = join(x.as_str(), c);
    let r = join(y.as_str(), d);
    proof {
        reveal_with_fuel(join_all, 4);
    }
    r
}

fn push_root_joined(out: &mut Vec<String>, environment: &Environment, a: &str, b: &str)
    ensures
        views(final(out)@) == views(old(out)@) + joined_all(joined_all(spack_root(*environment), a@), b@),
{
    match environment.get_env_var("SPACK_ROOT") {
        Some(root) => {
            let x = join(root.as_str(), a);
            out.push(join(x.as_str(), b));
            proof {
                crate::locators::homebrew::lemma_joined_one(root@, a@);
                crate::locators::homebrew::lemma_joined_one(x@, b@);
            }
        },
        None => {
            assert(joined_all(Seq::<Seq<char>>::empty(), a@) == Seq::<Seq<char>>::empty());
        },
    }
}

/// Spack install trees: under `SPACK_ROOT`, the user's Spack checkouts, and
/// `/opt/spack`; sorted and deduplicated.
pub fn spack_opt_dirs(environment: &Environment) -> (r: Vec<String>)
    ensures
        is_sorted_set_of(views(r@), opt_dirs_input(*environment)),
{
    let mut dirs: Vec<String> = Vec::new();
    push_root_joined(&mut dirs, environment, "opt", "spack");
    match &environment.user_home {
        Some(h) => {
            dirs.push(join_three(h.as_str(), "spack", "opt", "spack"));
            dirs.push(join_three(h.as_str(), ".spack", "opt", "spack"));
        },
        None => {},
    }
    dirs.push("/opt/spack/opt/spack".to_string());
    assert(views(dirs@) == opt_dirs_input(*environment));
    sort_dedup_paths(dirs)
}

/// `spack` in each directory.
pub open spec fn spack_in(dirs: Seq<Seq<char>>) -> Seq<Seq<char>>
    decreases dirs.len(),
{
    if dirs.len() == 0 {
        Seq::empty()
    } else {
        spack_in(dirs.drop_last()).push(join_spec(dirs.last(), "spack"@))
    }
}

/// Where the `spack` executable may be, before sorting.
pub open spec fn spack_candidates_input(env: Environment) -> Seq<Seq<char>> {
    joined_all(joined_all(spack_root(env), "bin"@), "spack"@) + (match env.user_home {
        Some(h) => seq![
            join_all(h@, seq!["spack"@, "bin"@, "spack"@]),
            join_all(h@, seq![".spack"@, "bin"@, "spack"@]),
        ],
        None => Seq::empty(),
    }) + seq!["/opt/spack/bin/spack"@] + spack_in(path_dirs(env))
}

/// The candidate `spack` executables, sorted and deduplicated, for the
/// caller to probe.
pub fn spack_manager_candidates(environment: &Environment) -> (r: Vec<String>)
    ensures
        is_sorted_set_of(views(r@), spack_candidates_input(*environment)),
{
    let mut c: Vec<String> = Vec::new();
    push_root_joined(&mut c, environment, "bin", "spack");
    match &environment.user_home {
        Some(h) => {
            c.push(join_three(h.as_str(), "spack", "bin", "spack"));
            c.push(join_three(h.as_str(), ".spack", "bin", "spack"));
        },
        None => {},
    }
    c.push("/opt/spack/bin/spack".to_string());
    let ghost base = views(c@);
    let dirs = match environment.get_env_var("PATH") {
        Some(v) => split_paths(v.as_str()),
        None => Vec::new(),
    };
    let mut i: usize = 0;
    while i < dirs.len()
        invariant
            i <= dirs.len(),
            views(c@) == base + spack_in(views(dirs@).subrange(0, i as int)),
        decreases dirs.len() - i,
    {
        assert(views(dirs@).subrange(0, i + 1).drop_last() == views(dirs@).subrange(0, i as int));
        c.push(join(dirs[i].as_str(), "spack"));
        i = i + 1;
    }
    assert(views(dirs@).subrange(0, dirs.len() as int) == views(dirs@));
    assert(views(c@) == spack_candidates_input(*environment));
    sort_dedup_paths(c)
}

/// The first of the sorted candidates that exists, as the Spack manager.
pub fn find_spack_manager(candidates: &Vec<String>, existing: &Vec<String>) -> (r: Option<
    EnvManager,
>)
    ensures
        match first_present(views(candidates@), views(existing@)) {
            Some(p) => r matches Some(m) && m.executable@ == p && m.tool == EnvManagerType::Spack
                && m.version is None,
            None => r is None,
        },
{
    match pick_first_present(candidates, existing) {
        Some(p) => Some(EnvManager::new(p, EnvManagerType::Spack, None)),
        None => None,
    }
}

/// What the file system says about a runtime Spack may own: where its
/// symlink chain ends, the executables beside it, and which of the
/// executables are symlinks.
#[derive(Debug)]
pub struct SpackProbe {
    pub resolved_executable: Option<String>,
    pub sibling_executables: Vec<String>,
    pub symlinked_executables: Vec<String>,
}

/// The Spack locator, with the installations it has reported.
#[derive(Debug)]
pub struct Spack {
    pub reported_executables: LocatorCache,
    pub opt_dirs: Vec<String>,
    pub manager: Option<EnvManager>,
}

/// The resolved executable, else the executable.
pub open spec fn resolved_of(env: REnv, probe: SpackProbe) -> String {
    match probe.resolved_executable {
        Some(p) => p,
        None => env.executable,
    }
}

/// The Spack installation for a runtime, as `installation_from_env` builds it.
pub open spec fn spack_installation(i: RInstallation, s: Spack, env: REnv, probe: SpackProbe, host: Host) -> bool {
    let resolved = resolved_of(env, probe);
    classified(
        i,
        RInstallationKind::Spack,
        Some("Spack R"@),
        None,
        resolved,
        env.home,
        env.version,
        Some(arch_or_inferred(env.arch, resolved@, host.arch)),
        s.manager,
        Some(opt_views(env.known_executables) + seq![env.executable@, resolved@] + views(
            probe.sibling_executables@,
        )),
        Some(opt_views(env.symlinks) + views(probe.symlinked_executables@)),
        None,
        None,
        host.windows,
    )
}

fn append_all(dst: &mut Vec<String>, src: &Vec<String>)
    ensures
        views(final(dst)@) == views(old(dst)@) + views(src@),
{
    let ghost d0 = views(dst@);
    let mut k: usize = 0;
    while k < src.len()
        invariant
            k <= src.len(),
            views(dst@) == d0 + views(src@).subrange(0, k as int),
        decreases src.len() - k,
    {
        dst.push(src[k].clone());
        k = k + 1;
    }
    assert(views(src@).subrange(0, src@.len() as int) == views(src@));
}

impl Spack {
    /// The locator for an environment; `existing` are the probed
    /// `spack_manager_candidates` that exist.
    pub fn from(environment: &Environment, existing: &Vec<String>) -> (r: Spack)
        ensures
            r.reported_executables.view() == Map::<Seq<char>, RInstallation>::empty(),
            is_sorted_set_of(views(r.opt_dirs@), opt_dirs_input(*environment)),
            exists|c: Seq<Seq<char>>|
                is_sorted_set_of(c, spack_candidates_input(*environment)) && match first_present(
                    c,
                    views(existing@),
                ) {
                    Some(p) => r.manager matches Some(m) && m.executable@ == p && m.tool
                        == EnvManagerType::Spack && m.version is None,
                    None => r.manager is None,
                },
    {
        let candidates = spack_manager_candidates(environment);
        let manager = find_spack_manager(&candidates, existing);
        assert(is_sorted_set_of(views(candidates@), spack_candidates_input(*environment)));
        Spack {
            reported_executables: LocatorCache::new(),
            opt_dirs: spack_opt_dirs(environment),
            manager,
        }
    }

    /// The Spack installation of a versioned runtime with a home.
    pub fn installation_from_env(&self, env: &REnv, host: Host, probe: &SpackProbe) -> (r: Option<
        RInstallation,
    >)
        ensures
            r is Some <==> (env.version is Some && env.home is Some),
            r matches Some(i) ==> spack_installation(i, *self, *env, *probe, host),
    {
        if env.version.is_none() {
            return None;
        }
        let resolved = match &probe.resolved_executable {
            Some(p) => p.clone(),
            None => env.executable.clone(),
        };
        let home = match &env.home {
            Some(h) => h.clone(),
            None => return None,
        };
        let mut extra: Vec<String> = Vec::new();
        extra.push(env.executable.clone());
        extra.push(resolved.clone());
        append_all(&mut extra, &probe.sibling_executables);
        let mut symlinks: Vec<String> = match &env.symlinks {
            Some(s) => clone_strings(s),
            None => Vec::new(),
        };
        append_all(&mut symlinks, &probe.symlinked_executables);
        let mut known: Vec<String> = match &env.known_executables {
            Some(s) => clone_strings(s),
            None => Vec::new(),
        };
        append_all(&mut known, &extra);
        assert(views(extra@) == seq![env.executable@, resolved@] + views(probe.sibling_executables@));
        assert(views(known@) == opt_views(env.known_executables) + seq![env.executable@, resolved@]
            + views(probe.sibling_executables@));
        assert(views(symlinks@) == opt_views(env.symlinks) + views(probe.symlinked_executables@));
        let arch = arch_or_infer(env.arch, resolved.as_str(), host.arch);
        Some(
            classify(
                RInstallationKind::Spack,
                Some("Spack R".to_string()),
                None,
                resolved,
                Some(home),
                clone_opt_string(&env.version),
                Some(arch),
                clone_opt_manager(&self.manager),
                Some(known),
                Some(symlinks),
                None,
                None,
                host.windows,
            ),
        )
    }

    fn within_opt_dirs(&self, a: &str, b: &str, c: &str) -> (r: bool)
        ensures
            r == exists|k: int|
                0 <= k < self.opt_dirs@.len() && (path_starts_with(
                    a@,
                    #[trigger] views(self.opt_dirs@)[k],
                ) || path_starts_with(b@, views(self.opt_dirs@)[k]) || path_starts_with(
                    c@,
                    views(self.opt_dirs@)[k],
                )),
    {
        let mut i: usize = 0;
        while i < self.opt_dirs.len()
            invariant
                i <= self.opt_dirs.len(),
                forall|k: int|
                    0 <= k < i ==> !(path_starts_with(a@, #[trigger] views(self.opt_dirs@)[k])
                        || path_starts_with(b@, views(self.opt_dirs@)[k]) || path_starts_with(
                        c@,
                        views(self.opt_dirs@)[k],
                    )),
            decreases self.opt_dirs.len() - i,
        {
            let d = self.opt_dirs[i].as_str();
            if starts_with(a, d) || starts_with(b, d) || starts_with(c, d) {
                assert(views(self.opt_dirs@)[i as int] == self.opt_dirs@[i as int]@);
                return true;
            }
            i = i + 1;
        }
        false
    }

    /// Classifies a versioned runtime outside Windows: as reported before
    /// for its executable, else when its resolved executable, executable or
    /// home lies in Spack.
    pub fn try_from(&self, env: &REnv, host: Host, probe: &SpackProbe) -> (r: Option<RInstallation>)
        ensures
            ({
                let resolved = resolved_of(*env, *probe);
                let cached = self.reported_executables.view().dom().contains(env.executable@);
                &&& r is Some <==> (!host.windows && env.version is Some && (cached || (env.home is Some
                    && (spack_path_spec(resolved@) || spack_path_spec(env.executable@)
                    || spack_path_spec(env.home.unwrap()@) || exists|k: int|
                    0 <= k < self.opt_dirs@.len() && (path_starts_with(
                        resolved@,
                        #[trigger] views(self.opt_dirs@)[k],
                    ) || path_starts_with(env.executable@, views(self.opt_dirs@)[k])
                        || path_starts_with(env.home.unwrap()@, views(self.opt_dirs@)[k]))))))
                &&& r matches Some(i) ==> if cached {
                    same_installation(i, self.reported_executables.view()[env.executable@])
                } else {
                    spack_installation(i, *self, *env, *probe, host)
                }
            }),
    {
        if host.windows || env.version.is_none() {
            return None;
        }
        match self.reported_executables.get(env.executable.as_str()) {
            Some(i) => return Some(i),
            None => {},
        }
        let resolved = match &probe.resolved_executable {
            Some(p) => p.clone(),
            None => env.executable.clone(),
        };
        let home = match &env.home {
            Some(h) => h,
            None => return None,
        };
        if !looks_like_spack_path(resolved.as_str()) && !looks_like_spack_path(
            env.executable.as_str(),
        ) && !looks_like_spack_path(home.as_str()) && !self.within_opt_dirs(
            resolved.as_str(),
            env.executable.as_str(),
            home.as_str(),
        ) {
            return None;
        }
        self.installation_from_env(env, host, probe)
    }
}

impl Locator for Spack {
    fn get_kind(&self) -> (r: LocatorKind)
        ensures
            r == LocatorKind::Spack,
    {
        LocatorKind::Spack
    }

    fn refresh_state(&self) -> (r: RefreshStatePersistence)
        ensures
            r == RefreshStatePersistence::SelfHydratingCache,
    {
        RefreshStatePersistence::SelfHydratingCache
    }

    fn supported_categories(&self) -> (r: Vec<RInstallationKind>)
        ensures
            r@ == seq![RInstallationKind::Spack],
    {
        let mut v: Vec<RInstallationKind> = Vec::new();
        v.push(RInstallationKind::Spack);
        v
    }
}

} // verus!
