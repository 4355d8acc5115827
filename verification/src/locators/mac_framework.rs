//! R installed from CRAN on macOS as `R.framework`.

use vstd::prelude::*;
use crate::environment::{env_get, Environment};
use crate::locator::{
    arch_or_infer, arch_or_inferred, classified, classify, Host, Locator, LocatorKind,
    RefreshStatePersistence,
};
use crate::path::{
    ancestors_spec, file_name, file_name_spec, is_sorted_set_of, join, join_all, join_spec,
    lemma_views_push, parent, parent_spec, parents_of, path_eq, path_starts_with, sort_dedup_paths,
    starts_with, views,
};
use crate::r_installation::{clone_strings, opt_view, opt_views, RInstallation, RInstallationKind};
use crate::renv::REnv;
use crate::text::{contains_seq, str_contains};

verus! {

broadcast use lemma_views_push;

/// A `Versions` directory inside an `R.framework` bundle.
pub open spec fn is_versions_dir(p: Seq<char>) -> bool {
    file_name_spec(p) == Some("Versions"@) && parent_spec(p) is Some && file_name_spec(
        parent_spec(p).unwrap(),
    ) == Some("R.framework"@)
}

fn is_versions_dir_exec(p: &str) -> (r: bool)
    ensures
        r == is_versions_dir(p@),
{
    let named = match file_name(p) {
        Some(n) => path_eq(n.as_str(), "Versions"),
        None => false,
    };
    if !named {
        return false;
    }
    match parent(p) {
        Some(q) => match file_name(q.as_str()) {
            Some(n) => path_eq(n.as_str(), "R.framework"),
            None => false,
        },
        None => false,
    }
}

/// The first of the paths that is a framework `Versions` directory.
pub open spec fn first_versions_dir(ps: Seq<Seq<char>>) -> Option<Seq<char>>
    decreases ps.len(),
{
    if ps.len() == 0 {
        None
    } else if is_versions_dir(ps[0]) {
        Some(ps[0])
    } else {
        first_versions_dir(ps.drop_first())
    }
}

/// The first of the paths whose last component is `name`.
pub open spec fn first_named(ps: Seq<Seq<char>>, name: Seq<char>) -> Option<Seq<char>>
    decreases ps.len(),
{
    if ps.len() == 0 {
        None
    } else if file_name_spec(ps[0]) == Some(name) {
        Some(ps[0])
    } else {
        first_named(ps.drop_first(), name)
    }
}

/// The path and its parents, nearest first.
pub fn ancestors_of(p: &str) -> (r: Vec<String>)
    ensures
        views(r@) == ancestors_spec(p@),
{
    let parents = parents_of(p);
    let mut r: Vec<String> = Vec::new();
    r.push(p.to_string());
    let mut i: usize = 0;
    while i < parents.len()
        invariant
            i <= parents.len(),
            views(r@) == seq![p@] + views(parents@).subrange(0, i as int),
        decreases parents.len() - i,
    {
        r.push(parents[i].clone());
        i = i + 1;
    }
    assert(views(parents@).subrange(0, parents.len() as int) == views(parents@));
    assert(ancestors_spec(p@) == seq![p@] + ancestors_spec(p@).drop_first());
    r
}

fn find_versions_dir(ps: &Vec<String>) -> (r: Option<String>)
    ensures
        opt_view(r) == first_versions_dir(views(ps@)),
{
    let mut i: usize = 0;
    assert(views(ps@).subrange(0, ps.len() as int) == views(ps@));
    while i < ps.len()
        invariant
            i <= ps.len(),
            first_versions_dir(views(ps@)) == first_versions_dir(
                views(ps@).subrange(i as int, ps.len() as int),
            ),
        decreases ps.len() - i,
    {
        let ghost rest = views(ps@).subrange(i as int, ps.len() as int);
        assert(rest.drop_first() == views(ps@).subrange(i + 1, ps.len() as int));
        assert(rest[0] == ps@[i as int]@);
        if is_versions_dir_exec(ps[i].as_str()) {
            return Some(ps[i].clone());
        }
        i = i + 1;
    }
    None
}

fn find_named(ps: &Vec<String>, name: &str) -> (r: Option<String>)
    ensures
        opt_view(r) == first_named(views(ps@), name@),
{
    let mut i: usize = 0;
    assert(views(ps@).subrange(0, ps.len() as int) == views(ps@));
    while i < ps.len()
        invariant
            i <= ps.len(),
            first_named(views(ps@), name@) == first_named(
                views(ps@).subrange(i as int, ps.len() as int),
                name@,
            ),
        decreases ps.len() - i,
    {
        let ghost rest = views(ps@).subrange(i as int, ps.len() as int);
        assert(rest.drop_first() == views(ps@).subrange(i + 1, ps.len() as int));
        assert(rest[0] == ps@[i as int]@);
        let hit = match file_name(ps[i].as_str()) {
            Some(n) => path_eq(n.as_str(), name),
            None => false,
        };
        if hit {
            return Some(ps[i].clone());
        }
        i = i + 1;
    }
    None
}

/// A home inside an `R.framework` bundle that is neither Homebrew's nor MacPorts'.
pub open spec fn framework_home_spec(home: Seq<char>) -> bool {
    first_versions_dir(ancestors_spec(home)) is Some && !contains_seq(home, "/Cellar/"@)
        && !path_starts_with(home, "/opt/local"@)
}

pub fn is_framework_home(home: &str) -> (r: bool)
    ensures
        r == framework_home_spec(home@),
{
    let ancestors = ancestors_of(home);
    find_versions_dir(&ancestors).is_some() && !str_contains(home, "/Cellar/") && !starts_with(
        home,
        "/opt/local",
    )
}

/// The framework `Versions` directories to search, before sorting.
pub open spec fn version_roots_input(env: Environment) -> Seq<Seq<char>> {
    seq!["/Library/Frameworks/R.framework/Versions"@] + (match env.user_home {
        Some(h) => seq![join_spec(h@, "Library/Frameworks/R.framework/Versions"@)],
        None => Seq::empty(),
    }) + (match env_get(env.variables@, "R_HOME"@) {
        Some(r) => match first_versions_dir(ancestors_spec(r)) {
            Some(v) => seq![v],
            None => Seq::empty(),
        },
        None => Seq::empty(),
    })
}

/// The system and user framework `Versions` directories, and the one that
/// holds `R_HOME`; sorted and deduplicated.
pub fn framework_version_roots(environment: &Environment) -> (r: Vec<String>)
    ensures
        is_sorted_set_of(views(r@), version_roots_input(*environment)),
{
    let mut roots: Vec<String> = Vec::new();
    roots.push("/Library/Frameworks/R.framework/Versions".to_string());
    match &environment.user_home {
        Some(h) => roots.push(join(h.as_str(), "Library/Frameworks/R.framework/Versions")),
        None => {},
    }
    match environment.get_env_var("R_HOME") {
        Some(r) => {
            let ancestors = ancestors_of(r.as_str());
            match find_versions_dir(&ancestors) {
                Some(v) => roots.push(v),
                None => {},
            }
        },
        None => {},
    }
    assert(views(roots@) == version_roots_input(*environment));
    sort_dedup_paths(roots)
}

/// What the file system says about a framework runtime: where the
/// executable's symlink leads, the executables in `<home>/bin`, where
/// `Versions/Current/Resources/bin/R` leads, and which new executables are
/// symlinks.
#[derive(Debug)]
pub struct MacFrameworkProbe {
    pub resolved_executable: Option<String>,
    pub home_bin_executables: Vec<String>,
    pub current_target: Option<String>,
    pub symlinked_executables: Vec<String>,
}

/// The macOS framework locator.
#[derive(Debug)]
pub struct MacFramework {
    pub version_roots: Vec<String>,
}

/// The `Current/Resources/bin/R` entry of a `Versions` directory.
pub open spec fn current_r(versions: Seq<char>) -> Seq<char> {
    join_all(versions, seq!["Current"@, "Resources"@, "bin"@, "R"@])
}

/// The executables of a framework runtime beyond those known.
pub open spec fn framework_extra(home: Seq<char>, probe: MacFrameworkProbe, resolved: Seq<char>) -> Seq<Seq<char>> {
    let versions = first_named(ancestors_spec(home), "Versions"@).unwrap();
    views(probe.home_bin_executables@) + (if probe.current_target matches Some(t) && t@ == resolved {
        seq![current_r(versions)]
    } else {
        Seq::empty()
    })
}

impl MacFramework {
    pub fn from(environment: &Environment) -> (r: MacFramework)
        ensures
            is_sorted_set_of(views(r.version_roots@), version_roots_input(*environment)),
    {
        MacFramework { version_roots: framework_version_roots(environment) }
    }

    pub fn new(environment: &Environment) -> (r: MacFramework)
        ensures
            is_sorted_set_of(views(r.version_roots@), version_roots_input(*environment)),
    {
        MacFramework::from(environment)
    }

    /// Classifies a runtime on macOS whose home is inside `R.framework`; the
    /// version defaults to the name of the home's parent, and the `Current`
    /// alias joins the executables when it leads to this runtime.
    pub fn try_from(&self, env: &REnv, host: Host, probe: &MacFrameworkProbe) -> (r: Option<
        RInstallation,
    >)
        ensures
            ({
                let resolved = match probe.resolved_executable {
                    Some(p) => p@,
                    None => env.executable@,
                };
                &&& r is Some <==> (host.macos && env.home is Some && framework_home_spec(
                    env.home.unwrap()@,
                ) && first_named(ancestors_spec(env.home.unwrap()@), "Versions"@) is Some)
                &&& r matches Some(i) ==> classified(
                    i,
                    RInstallationKind::MacFramework,
                    Some("macOS Framework R"@),
                    None,
                    env.executable,
                    env.home,
                    i.version,
                    Some(arch_or_inferred(env.arch, resolved, host.arch)),
                    None,
                    Some(opt_views(env.known_executables) + framework_extra(
                        env.home.unwrap()@,
                        *probe,
                        resolved,
                    )),
                    Some(opt_views(env.symlinks) + views(probe.symlinked_executables@)),
                    None,
                    None,
                    host.windows,
                ) && opt_view(i.version) == (match env.version {
                    Some(v) => Some(v@),
                    None => match parent_spec(env.home.unwrap()@) {
                        Some(p) => file_name_spec(p),
                        None => None,
                    },
                })
            }),
    {
        if !host.macos {
            return None;
        }
        let executable = match &probe.resolved_executable {
            Some(p) => p.clone(),
            None => env.executable.clone(),
        };
        let home = match &env.home {
            Some(h) => h.clone(),
            None => return None,
        };
        if !is_framework_home(home.as_str()) {
            return None;
        }
        let version = match &env.version {
            Some(v) => Some(v.clone()),
            None => match parent(home.as_str()) {
                Some(p) => file_name(p.as_str()),
                None => None,
            },
        };
        let ancestors = ancestors_of(home.as_str());
        let versions = match find_named(&ancestors, "Versions") {
            Some(v) => v,
            None => return None,
        };
        let mut extra = clone_strings(&probe.home_bin_executables);
        let c1 = join(versions.as_str(), "Current");
        let c2 = join(c1.as_str(), "Resources");
        let c3 = join(c2.as_str(), "bin");
        let current = join(c3.as_str(), "R");
        proof {
            reveal_with_fuel(join_all, 5);
        }
        match &probe.current_target {
            Some(t) => if crate::path::path_eq(t.as_str(), executable.as_str()) {
                extra.push(current);
            },
            None => {},
        }
        let mut symlinks: Vec<String> = match &env.symlinks {
            Some(s) => clone_strings(s),
            None => Vec::new(),
        };
        let ghost s0 = views(symlinks@);
        let mut k: usize = 0;
        while k < probe.symlinked_executables.len()
            invariant
                k <= probe.symlinked_executables.len(),
                views(symlinks@) == s0 + views(probe.symlinked_executables@).subrange(0, k as int),
            decreases probe.symlinked_executables.len() - k,
        {
            symlinks.push(probe.symlinked_executables[k].clone());
            k = k + 1;
        }
        assert(views(probe.symlinked_executables@).subrange(
            0,
            probe.symlinked_executables@.len() as int,
        ) == views(probe.symlinked_executables@));
        let mut known: Vec<String> = match &env.known_executables {
            Some(s) => clone_strings(s),
            None => Vec::new(),
        };
        let ghost k0 = views(known@);
        let mut j: usize = 0;
        while j < extra.len()
            invariant
                j <= extra.len(),
                views(known@) == k0 + views(extra@).subrange(0, j as int),
            decreases extra.len() - j,
        {
            known.push(extra[j].clone());
            j = j + 1;
        }
        assert(views(extra@).subrange(0, extra@.len() as int) == views(extra@));
        assert(views(extra@) == framework_extra(home@, *probe, executable@));
        let arch = arch_or_infer(env.arch, executable.as_str(), host.arch);
        Some(
            classify(
                RInstallationKind::MacFramework,
                Some("macOS Framework R".to_string()),
                None,
                env.executable.clone(),
                Some(home),
                version,
                Some(arch),
                None,
                Some(known),
                Some(symlinks),
                None,
                None,
                host.windows,
            ),
        )
    }
}

impl Locator for MacFramework {
    fn get_kind(&self) -> (r: LocatorKind)
        ensures
            r == LocatorKind::MacFramework,
    {
        LocatorKind::MacFramework
    }

    /// The locator keeps no state between requests.
    fn refresh_state(&self) -> (r: RefreshStatePersistence)
        ensures
            r == RefreshStatePersistence::Stateless,
    {
        RefreshStatePersistence::Stateless
    }

    fn supported_categories(&self) -> (r: Vec<RInstallationKind>)
        ensures
            r@ == seq![RInstallationKind::MacFramework],
    {
        let mut v: Vec<RInstallationKind> = Vec::new();
        v.push(RInstallationKind::MacFramework);
        v
    }
}

} // verus!
