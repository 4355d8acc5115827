//! R installed by the CRAN installer under the program directories.

use vstd::prelude::*;
use crate::cache::LocatorCache;
use crate::environment::{env_get, Environment};
use crate::locator::{
    arch_or_infer, arch_or_inferred, classified, classify, Host, Locator, LocatorKind,
    RefreshStatePersistence,
};
use crate::manager::clone_opt_string;
use crate::path::{is_sorted_set_of, join, join_all, join_spec, lemma_views_push, path_starts_with, sort_dedup_paths, starts_with, views};
use crate::r_installation::{clone_opt_strings, RInstallation, RInstallationKind};
use crate::renv::REnv;

verus! {

broadcast use lemma_views_push;

/// A variable's value as a one-element or empty sequence.
pub open spec fn opt_var(env: Environment, key: Seq<char>) -> Seq<Seq<char>> {
    match env_get(env.variables@, key) {
        Some(v) => seq![v],
        None => Seq::empty(),
    }
}

/// The program directories named by the environment.
pub open spec fn program_dirs(env: Environment) -> Seq<Seq<char>> {
    opt_var(env, "PROGRAMFILES"@) + opt_var(env, "ProgramFiles"@) + opt_var(env, "ProgramW6432"@)
        + opt_var(env, "ProgramFiles(x86)"@)
}

/// `<base>\R` and `<base>\R-aarch64` for each base.
pub open spec fn r_dirs(bases: Seq<Seq<char>>) -> Seq<Seq<char>>
    decreases bases.len(),
{
    if bases.len() == 0 {
        Seq::empty()
    } else {
        r_dirs(bases.drop_last()) + seq![
            join_spec(bases.last(), "R"@),
            join_spec(bases.last(), "R-aarch64"@),
        ]
    }
}

/// The CRAN installer's directories before sorting: `R` and `R-aarch64`
/// under each program directory (the standard ones when none is named), and
/// under `<LOCALAPPDATA>\Programs`.
pub open spec fn hq_dirs_input(env: Environment) -> Seq<Seq<char>> {
    let bases = program_dirs(env);
    (if bases.len() > 0 {
        r_dirs(bases)
    } else {
        seq![
            "C:\\Program Files\\R"@,
            "C:\\Program Files\\R-aarch64"@,
            "C:\\Program Files (x86)\\R"@,
        ]
    }) + (match env_get(env.variables@, "LOCALAPPDATA"@) {
        Some(l) => seq![
            join_all(l, seq!["Programs"@, "R"@]),
            join_all(l, seq!["Programs"@, "R-aarch64"@]),
        ],
        None => Seq::empty(),
    })
}

fn push_var(out: &mut Vec<String>, environment: &Environment, key: &str)
    ensures
        views(final(out)@) == views(old(out)@) + opt_var(*environment, key@),
{
    match environment.get_env_var(key) {
        Some(v) => out.push(v),
        None => {},
    }
}

/// The directories holding CRAN installations, sorted and deduplicated.
pub fn windows_hq_dirs(environment: &Environment) -> (r: Vec<String>)
    ensures
        is_sorted_set_of(views(r@), hq_dirs_input(*environment)),
{
    let mut bases: Vec<String> = Vec::new();
    push_var(&mut bases, environment, "PROGRAMFILES");
    push_var(&mut bases, environment, "ProgramFiles");
    push_var(&mut bases, environment, "ProgramW6432");
    push_var(&mut bases, environment, "ProgramFiles(x86)");
    assert(views(bases@) == program_dirs(*environment));
    let mut dirs: Vec<String> = Vec::new();
    let mut i: usize = 0;
    while i < bases.len()
        invariant
            i <= bases.len(),
            views(dirs@) == r_dirs(views(bases@).subrange(0, i as int)),
        decreases bases.len() - i,
    {
        assert(views(bases@).subrange(0, i + 1).drop_last() == views(bases@).subrange(0, i as int));
        dirs.push(join(bases[i].as_str(), "R"));
        dirs.push(join(bases[i].as_str(), "R-aarch64"));
        i = i + 1;
    }
    assert(views(bases@).subrange(0, bases.len() as int) == views(bases@));
    if bases.len() == 0 {
        dirs.push("C:\\Program Files\\R".to_string());
        dirs.push("C:\\Program Files\\R-aarch64".to_string());
        dirs.push("C:\\Program Files (x86)\\R".to_string());
    }
    match environment.get_env_var("LOCALAPPDATA") {
        Some(l) => {
            let programs = join(l.as_str(), "Programs");
            dirs.push(join(programs.as_str(), "R"));
            dirs.push(join(programs.as_str(), "R-aarch64"));
            proof {
                reveal_with_fuel(join_all, 3);
            }
        },
        None => {},
    }
    assert(views(dirs@) == hq_dirs_input(*environment));
    sort_dedup_paths(dirs)
}

/// Whether `path` lies in one of the directories.
pub open spec fn in_hq_dirs(path: Seq<char>, dirs: Seq<Seq<char>>) -> bool {
    exists|k: int| 0 <= k < dirs.len() && path_starts_with(path, #[trigger] dirs[k])
}

pub fn is_windows_hq_path(path: &str, hq_dirs: &Vec<String>) -> (r: bool)
    ensures
        r == in_hq_dirs(path@, views(hq_dirs@)),
{
    let mut i: usize = 0;
    while i < hq_dirs.len()
        invariant
            i <= hq_dirs.len(),
            forall|k: int| 0 <= k < i ==> !path_starts_with(path@, #[trigger] views(hq_dirs@)[k]),
        decreases hq_dirs.len() - i,
    {
        if starts_with(path, hq_dirs[i].as_str()) {
            assert(views(hq_dirs@)[i as int] == hq_dirs@[i as int]@);
            return true;
        }
        i = i + 1;
    }
    false
}

/// The locator of CRAN installations on Windows.
#[derive(Debug)]
pub struct WindowsHq {
    pub hq_dirs: Vec<String>,
    pub reported: LocatorCache,
}

impl WindowsHq {
    pub fn from(environment: &Environment) -> (r: WindowsHq)
        ensures
            is_sorted_set_of(views(r.hq_dirs@), hq_dirs_input(*environment)),
            r.reported.view() == Map::<Seq<char>, RInstallation>::empty(),
    {
        WindowsHq { hq_dirs: windows_hq_dirs(environment), reported: LocatorCache::new() }
    }

    /// Classifies a versioned runtime on Windows whose executable or home
    /// lies in one of the directories.
    pub fn try_from(&self, env: &REnv, host: Host) -> (r: Option<RInstallation>)
        ensures
            r is Some <==> (host.windows && env.version is Some && env.home is Some && (in_hq_dirs(
                env.executable@,
                views(self.hq_dirs@),
            ) || in_hq_dirs(env.home.unwrap()@, views(self.hq_dirs@)))),
            r matches Some(i) ==> classified(
                i,
                RInstallationKind::WindowsHq,
                Some("System R"@),
                None,
                env.executable,
                env.home,
                env.version,
                Some(arch_or_inferred(env.arch, env.executable@, host.arch)),
                None,
                match env.known_executables {
                    Some(k) => Some(views(k@)),
                    None => None,
                },
                match env.symlinks {
                    Some(s) => Some(views(s@)),
                    None => None,
                },
                None,
                None,
                host.windows,
            ),
    {
        if !host.windows || env.version.is_none() {
            return None;
        }
        let home = match &env.home {
            Some(h) => h.clone(),
            None => return None,
        };
        if !is_windows_hq_path(env.executable.as_str(), &self.hq_dirs) && !is_windows_hq_path(
            home.as_str(),
            &self.hq_dirs,
        ) {
            return None;
        }
        let arch = arch_or_infer(env.arch, env.executable.as_str(), host.arch);
        Some(
            classify(
                RInstallationKind::WindowsHq,
                Some("System R".to_string()),
                None,
                env.executable.clone(),
                Some(home),
                clone_opt_string(&env.version),
                Some(arch),
                None,
                clone_opt_strings(&env.known_executables),
                clone_opt_strings(&env.symlinks),
                None,
                None,
                host.windows,
            ),
        )
    }
}

impl Locator for WindowsHq {
    fn get_kind(&self) -> (r: LocatorKind)
        ensures
            r == LocatorKind::WindowsHq,
    {
        LocatorKind::WindowsHq
    }

    fn refresh_state(&self) -> (r: RefreshStatePersistence)
        ensures
            r == RefreshStatePersistence::SelfHydratingCache,
    {
        RefreshStatePersistence::SelfHydratingCache
    }

    fn supported_categories(&self) -> (r: Vec<RInstallationKind>)
        ensures
            r@ == seq![RInstallationKind::WindowsHq],
    {
        let mut v: Vec<RInstallationKind> = Vec::new();
        v.push(RInstallationKind::WindowsHq);
        v
    }
}

} // verus!
