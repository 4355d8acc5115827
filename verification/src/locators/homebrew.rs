//! Homebrew (macOS and Linuxbrew) installations of R.

use vstd::prelude::*;
use crate::environment::{env_get, split_list, split_paths, Environment};
use crate::locator::{
    arch_or_infer, arch_or_inferred, classified, classify, first_present, pick_first_present, Host,
    Locator, LocatorKind, RefreshStatePersistence,
};
use crate::manager::{clone_opt_manager, EnvManager, EnvManagerType};
use crate::path::{
    is_sorted_set_of, join, join_spec, lemma_views_push, parent, parent_spec, path_starts_with,
    sort_dedup_paths, starts_with, views,
};
use crate::r_installation::{clone_strings, opt_view, opt_views, RInstallation, RInstallationKind};
use crate::renv::{homebrew_path_spec, looks_like_homebrew_path, REnv};
use crate::facts::{file_in, FileFacts};
use crate::locators::mac_framework::ancestors_of;
use crate::path::ancestors_spec;

verus! {

broadcast use lemma_views_push;

/// The default Cellar directories.
pub open spec fn cellar_roots_spec() -> Seq<Seq<char>> {
    seq!["/opt/homebrew/Cellar"@, "/usr/local/Cellar"@, "/home/linuxbrew/.linuxbrew/Cellar"@]
}

/// The default Cellar directories.
pub fn cellar_roots() -> (r: Vec<String>)
    ensures
        views(r@) == cellar_roots_spec(),
{
    let mut r: Vec<String> = Vec::new();
    r.push("/opt/homebrew/Cellar".to_string());
    r.push("/usr/local/Cellar".to_string());
    r.push("/home/linuxbrew/.linuxbrew/Cellar".to_string());
    r
}

/// The value of a variable as a one-element or empty sequence.
pub open spec fn var_seq(env: Environment, key: Seq<char>) -> Seq<Seq<char>> {
    match env_get(env.variables@, key) {
        Some(v) => seq![v],
        None => Seq::empty(),
    }
}

/// The pieces of the `PATH` variable, none when it is unset.
pub open spec fn path_dirs(env: Environment) -> Seq<Seq<char>> {
    match env_get(env.variables@, "PATH"@) {
        Some(v) => split_list(v),
        None => Seq::empty(),
    }
}

/// `dir/name` for each directory, in order.
pub open spec fn joined_all(dirs: Seq<Seq<char>>, name: Seq<char>) -> Seq<Seq<char>>
    decreases dirs.len(),
{
    if dirs.len() == 0 {
        Seq::empty()
    } else {
        joined_all(dirs.drop_last(), name).push(join_spec(dirs.last(), name))
    }
}

pub proof fn lemma_joined_one(x: Seq<char>, name: Seq<char>)
    ensures
        joined_all(seq![x], name) == seq![join_spec(x, name)],
{
    assert(seq![x].drop_last() == Seq::<Seq<char>>::empty());
    assert(joined_all(Seq::<Seq<char>>::empty(), name) == Seq::<Seq<char>>::empty());
}

/// The Cellar next to each `PATH` directory that holds a `brew` file.
pub open spec fn brew_path_cellars(bins: Seq<Seq<char>>, files: Seq<Seq<char>>) -> Seq<Seq<char>>
    decreases bins.len(),
{
    if bins.len() == 0 {
        Seq::empty()
    } else {
        let rest = brew_path_cellars(bins.drop_last(), files);
        let bin = bins.last();
        if files.contains(join_spec(bin, "brew"@)) && parent_spec(bin) is Some {
            rest.push(join_spec(parent_spec(bin).unwrap(), "Cellar"@))
        } else {
            rest
        }
    }
}

/// Every Cellar directory to search, before sorting.
pub open spec fn cellar_input(env: Environment, files: Seq<Seq<char>>) -> Seq<Seq<char>> {
    cellar_roots_spec() + var_seq(env, "HOMEBREW_CELLAR"@) + joined_all(
        var_seq(env, "HOMEBREW_PREFIX"@),
        "Cellar"@,
    ) + brew_path_cellars(path_dirs(env), files)
}

fn push_var(out: &mut Vec<String>, environment: &Environment, key: &str, suffix: Option<&str>)
    ensures
        views(final(out)@) == views(old(out)@) + match suffix {
            Some(s) => joined_all(var_seq(*environment, key@), s@),
            None => var_seq(*environment, key@),
        },
{
    match environment.get_env_var(key) {
        Some(v) => match suffix {
            Some(s) => {
                out.push(join(v.as_str(), s));
                proof {
                    lemma_joined_one(v@, s@);
                }
            },
            None => out.push(v),
        },
        None => {
            assert(joined_all(Seq::<Seq<char>>::empty(), "x"@) == Seq::<Seq<char>>::empty());
        },
    }
}

/// The `PATH` pieces of the environment.
fn env_path_dirs(environment: &Environment) -> (r: Vec<String>)
    ensures
        views(r@) == path_dirs(*environment),
{
    match environment.get_env_var("PATH") {
        Some(v) => split_paths(v.as_str()),
        None => Vec::new(),
    }
}

/// The default Cellars, those named by `HOMEBREW_CELLAR` and
/// `HOMEBREW_PREFIX`, and the Cellar beside each `PATH` directory holding a
/// `brew` file (`files` are the paths known to be files), sorted and
/// deduplicated.
pub fn configured_cellar_roots(environment: &Environment, files: &Vec<String>) -> (r: Vec<String>)
    ensures
        is_sorted_set_of(views(r@), cellar_input(*environment, views(files@))),
{
    let mut roots = cellar_roots();
    push_var(&mut roots, environment, "HOMEBREW_CELLAR", None);
    push_var(&mut roots, environment, "HOMEBREW_PREFIX", Some("Cellar"));
    let bins = env_path_dirs(environment);
    let ghost base = views(roots@);
    let mut i: usize = 0;
    while i < bins.len()
        invariant
            i <= bins.len(),
            views(roots@) == base + brew_path_cellars(
                views(bins@).subrange(0, i as int),
                views(files@),
            ),
        decreases bins.len() - i,
    {
        assert(views(bins@).subrange(0, i + 1).drop_last() == views(bins@).subrange(0, i as int));
        let brew = join(bins[i].as_str(), "brew");
        if crate::path::contains_path(files, brew.as_str()) {
            match parent(bins[i].as_str()) {
                Some(prefix) => {
                    roots.push(join(prefix.as_str(), "Cellar"));
                },
                None => {},
            }
        }
        i = i + 1;
    }
    assert(views(bins@).subrange(0, bins.len() as int) == views(bins@));
    sort_dedup_paths(roots)
}

/// `<parent>/bin/brew` beside each Cellar that has a parent.
pub open spec fn cellar_brews(cellars: Seq<Seq<char>>) -> Seq<Seq<char>>
    decreases cellars.len(),
{
    if cellars.len() == 0 {
        Seq::empty()
    } else {
        let rest = cellar_brews(cellars.drop_last());
        match parent_spec(cellars.last()) {
            Some(p) => rest.push(join_spec(join_spec(p, "bin"@), "brew"@)),
            None => rest,
        }
    }
}

/// Where a `brew` executable may be, most preferred first: under
/// `HOMEBREW_PREFIX`, in each `PATH` directory, and beside each default Cellar.
pub open spec fn brew_candidates_spec(env: Environment) -> Seq<Seq<char>> {
    joined_all(joined_all(var_seq(env, "HOMEBREW_PREFIX"@), "bin"@), "brew"@) + joined_all(
        path_dirs(env),
        "brew"@,
    ) + cellar_brews(cellar_roots_spec())
}

/// The candidate `brew` paths, for the caller to probe.
pub fn brew_manager_candidates(environment: &Environment) -> (r: Vec<String>)
    ensures
        views(r@) == brew_candidates_spec(*environment),
{
    let mut out: Vec<String> = Vec::new();
    match environment.get_env_var("HOMEBREW_PREFIX") {
        Some(p) => {
            let bin = join(p.as_str(), "bin");
            out.push(join(bin.as_str(), "brew"));
            proof {
                lemma_joined_one(p@, "bin"@);
                lemma_joined_one(bin@, "brew"@);
            }
        },
        None => {
            assert(joined_all(Seq::<Seq<char>>::empty(), "bin"@) == Seq::<Seq<char>>::empty());
        },
    }
    let bins = env_path_dirs(environment);
    let ghost base = views(out@);
    let mut i: usize = 0;
    while i < bins.len()
        invariant
            i <= bins.len(),
            views(out@) == base + joined_all(views(bins@).subrange(0, i as int), "brew"@),
        decreases bins.len() - i,
    {
        assert(views(bins@).subrange(0, i + 1).drop_last() == views(bins@).subrange(0, i as int));
        out.push(join(bins[i].as_str(), "brew"));
        i = i + 1;
    }
    assert(views(bins@).subrange(0, bins.len() as int) == views(bins@));
    let cellars = cellar_roots();
    let ghost mid = views(out@);
    let mut k: usize = 0;
    while k < cellars.len()
        invariant
            k <= cellars.len(),
            views(out@) == mid + cellar_brews(views(cellars@).subrange(0, k as int)),
        decreases cellars.len() - k,
    {
        assert(views(cellars@).subrange(0, k + 1).drop_last() == views(cellars@).subrange(
            0,
            k as int,
        ));
        match parent(cellars[k].as_str()) {
            Some(prefix) => {
                let bin = join(prefix.as_str(), "bin");
                out.push(join(bin.as_str(), "brew"));
            },
            None => {},
        }
        k = k + 1;
    }
    assert(views(cellars@).subrange(0, cellars.len() as int) == views(cellars@));
    out
}

/// The first candidate `brew` that is among `files`, as a Homebrew manager.
pub fn find_brew_manager(environment: &Environment, files: &Vec<String>) -> (r: Option<EnvManager>)
    ensures
        match first_present(brew_candidates_spec(*environment), views(files@)) {
            Some(p) => r matches Some(m) && m.executable@ == p && m.tool == EnvManagerType::Homebrew
                && m.version is None,
            None => r is None,
        },
{
    let candidates = brew_manager_candidates(environment);
    match pick_first_present(&candidates, files) {
        Some(p) => Some(EnvManager::new(p, EnvManagerType::Homebrew, None)),
        None => None,
    }
}

/// The Homebrew locator.
#[derive(Debug)]
pub struct Homebrew {
    pub manager: Option<EnvManager>,
    pub cellars: Vec<String>,
}

/// What the file system says about a runtime Homebrew may own: where the
/// executable's symlink leads, the executables in `<home>/bin`, which new
/// executables are symlinks, and a `brew` found under an ancestor of the home.
#[derive(Debug)]
pub struct HomebrewProbe {
    pub resolved_executable: Option<String>,
    pub home_bin_executables: Vec<String>,
    pub symlinked_executables: Vec<String>,
    pub home_brew: Option<String>,
}

/// Whether Homebrew owns a runtime with the given executable and home.
pub open spec fn homebrew_owns(cellars: Seq<Seq<char>>, exe: Seq<char>, home: Seq<char>) -> bool {
    homebrew_path_spec(exe) || homebrew_path_spec(home) || exists|k: int|
        0 <= k < cellars.len() && (path_starts_with(home, #[trigger] cellars[k])
            || path_starts_with(exe, cellars[k]))
}

/// The executables that join the known ones: when none were known, those in
/// `<home>/bin` and the executable itself.
pub open spec fn homebrew_extra(env: REnv, probe: HomebrewProbe) -> Seq<Seq<char>> {
    if env.known_executables is None {
        views(probe.home_bin_executables@).push(env.executable@)
    } else {
        Seq::empty()
    }
}

impl Homebrew {
    /// The locator for an environment; `files` are the probed paths that are
    /// files (see `brew_manager_candidates` and the `brew` beside each `PATH`
    /// directory).
    pub fn from(environment: &Environment, files: &Vec<String>) -> (r: Homebrew)
        ensures
            is_sorted_set_of(views(r.cellars@), cellar_input(*environment, views(files@))),
            match first_present(brew_candidates_spec(*environment), views(files@)) {
                Some(p) => r.manager matches Some(m) && m.executable@ == p && m.tool
                    == EnvManagerType::Homebrew && m.version is None,
                None => r.manager is None,
            },
    {
        Homebrew {
            manager: find_brew_manager(environment, files),
            cellars: configured_cellar_roots(environment, files),
        }
    }

    fn within_cellar(&self, home: &str, exe: &str) -> (r: bool)
        ensures
            r == exists|k: int|
                0 <= k < self.cellars@.len() && (path_starts_with(
                    home@,
                    #[trigger] views(self.cellars@)[k],
                ) || path_starts_with(exe@, views(self.cellars@)[k])),
    {
        let mut i: usize = 0;
        while i < self.cellars.len()
            invariant
                i <= self.cellars.len(),
                forall|k: int|
                    0 <= k < i ==> !(path_starts_with(home@, #[trigger] views(self.cellars@)[k])
                        || path_starts_with(exe@, views(self.cellars@)[k])),
            decreases self.cellars.len() - i,
        {
            if starts_with(home, self.cellars[i].as_str()) || starts_with(
                exe,
                self.cellars[i].as_str(),
            ) {
                assert(views(self.cellars@)[i as int] == self.cellars@[i as int]@);
                return true;
            }
            i = i + 1;
        }
        false
    }

    /// Classifies a runtime as Homebrew's when the executable (after its
    /// symlink) or the home looks like Homebrew's or lies in a Cellar.
    pub fn try_from(&self, env: &REnv, host: Host, probe: &HomebrewProbe) -> (r: Option<
        RInstallation,
    >)
        ensures
            r is Some <==> (host.unix && env.home is Some && homebrew_owns(
                views(self.cellars@),
                match probe.resolved_executable {
                    Some(p) => p@,
                    None => env.executable@,
                },
                env.home.unwrap()@,
            )),
            r matches Some(i) ==> classified(
                i,
                RInstallationKind::Homebrew,
                Some("Homebrew R"@),
                None,
                env.executable,
                env.home,
                env.version,
                Some(arch_or_inferred(env.arch, env.executable@, host.arch)),
                match probe.home_brew {
                    Some(b) => Some(
                        (EnvManager { executable: b, version: None, tool: EnvManagerType::Homebrew }),
                    ),
                    None => self.manager,
                },
                Some(opt_views(env.known_executables) + homebrew_extra(*env, *probe)),
                Some(opt_views(env.symlinks) + views(probe.symlinked_executables@)),
                None,
                None,
                host.windows,
            ),
    {
        if !host.unix {
            return None;
        }
        let executable = match &probe.resolved_executable {
            Some(p) => p.clone(),
            None => env.executable.clone(),
        };
        let home = match &env.home {
            Some(h) => h.clone(),
            None => return None,
        };
        if !looks_like_homebrew_path(executable.as_str()) && !looks_like_homebrew_path(home.as_str())
            && !self.within_cellar(home.as_str(), executable.as_str()) {
            return None;
        }
        let mut extra: Vec<String> = Vec::new();
        if env.known_executables.is_none() {
            extra = clone_strings(&probe.home_bin_executables);
            extra.push(env.executable.clone());
        }
        let mut symlinks: Vec<String> = match &env.symlinks {
            Some(s) => clone_strings(s),
            None => Vec::new(),
        };
        let mut k: usize = 0;
        let ghost s0 = views(symlinks@);
        while k < probe.symlinked_executables.len()
            invariant
                k <= probe.symlinked_executables.len(),
                views(symlinks@) == s0 + views(probe.symlinked_executables@).subrange(0, k as int),
            decreases probe.symlinked_executables.len() - k,
        {
            symlinks.push(probe.symlinked_executables[k].clone());
            k = k + 1;
        }
        let mut known: Vec<String> = match &env.known_executables {
            Some(s) => clone_strings(s),
            None => Vec::new(),
        };
        let ghost k0 = views(known@);
        let mut j: usize = 0;
        while j < extra.len()
            invariant
                j <= extra.len(),
                views(known@) == k0 + views(extra@).subrange(0, j as int),
            decreases extra.len() - j,
        {
            known.push(extra[j].clone());
            j = j + 1;
        }
        proof {
            assert(views(probe.symlinked_executables@).subrange(
                0,
                probe.symlinked_executables@.len() as int,
            ) == views(probe.symlinked_executables@));
            assert(views(extra@).subrange(0, extra@.len() as int) == views(extra@));
            assert(views(extra@) == homebrew_extra(*env, *probe));
        }
        let manager = match &probe.home_brew {
            Some(b) => Some(EnvManager::new(b.clone(), EnvManagerType::Homebrew, None)),
            None => clone_opt_manager(&self.manager),
        };
        let arch = arch_or_infer(env.arch, env.executable.as_str(), host.arch);
        Some(
            classify(
                RInstallationKind::Homebrew,
                Some("Homebrew R".to_string()),
                None,
                env.executable.clone(),
                Some(home),
                env.version.clone(),
                Some(arch),
                manager,
                Some(known),
                Some(symlinks),
                None,
                None,
                host.windows,
            ),
        )
    }
}

impl Locator for Homebrew {
    fn get_kind(&self) -> (r: LocatorKind)
        ensures
            r == LocatorKind::Homebrew,
    {
        LocatorKind::Homebrew
    }

    fn refresh_state(&self) -> (r: RefreshStatePersistence)
        ensures
            r == RefreshStatePersistence::SelfHydratingCache,
    {
        RefreshStatePersistence::SelfHydratingCache
    }

    fn supported_categories(&self) -> (r: Vec<RInstallationKind>)
        ensures
            r@ == seq![RInstallationKind::Homebrew],
    {
        let mut v: Vec<RInstallationKind> = Vec::new();
        v.push(RInstallationKind::Homebrew);
        v
    }
}

/// `<dir>/bin/brew`.
pub open spec fn brew_of(dir: Seq<char>) -> Seq<char> {
    join_spec(join_spec(dir, "bin"@), "brew"@)
}

/// The `brew` of the first of `dirs` that has one as a file.
pub open spec fn first_brew(dirs: Seq<Seq<char>>, f: FileFacts) -> Option<Seq<char>>
    decreases dirs.len(),
{
    if dirs.len() == 0 {
        None
    } else if file_in(f, brew_of(dirs[0])) {
        Some(brew_of(dirs[0]))
    } else {
        first_brew(dirs.drop_first(), f)
    }
}

/// The Homebrew that manages a home: the `bin/brew` of the nearest of the
/// home and its parents that has one.
pub fn brew_for_home(home: &str, facts: &FileFacts) -> (r: Option<String>)
    ensures
        opt_view(r) == first_brew(ancestors_spec(home@), *facts),
{
    let dirs = ancestors_of(home);
    let ghost d = views(dirs@);
    assert(d.subrange(0, d.len() as int) == d);
    let mut i: usize = 0;
    while i < dirs.len()
        invariant
            i <= dirs.len(),
            d == views(dirs@),
            d == ancestors_spec(home@),
            first_brew(d, *facts) == first_brew(d.subrange(i as int, d.len() as int), *facts),
        decreases dirs.len() - i,
    {
        let ghost rest = d.subrange(i as int, d.len() as int);
        assert(rest.drop_first() == d.subrange(i + 1, d.len() as int));
        assert(rest[0] == dirs@[i as int]@);
        let bin = join(dirs[i].as_str(), "bin");
        let brew = join(bin.as_str(), "brew");
        if facts.is_file(brew.as_str()) {
            return Some(brew);
        }
        i = i + 1;
    }
    assert(d.subrange(dirs.len() as int, d.len() as int).len() == 0);
    None
}

} // verus!
