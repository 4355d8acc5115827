//! R in Pixi environments: project environments under `.pixi/envs` and
//! global environments under the Pixi home.

use vstd::prelude::*;
use crate::environment::{env_get, Environment};
use crate::locator::{
    arch_or_infer, arch_or_inferred, classified, classify, first_present, pick_first_present, Host,
    Locator, LocatorKind, RefreshStatePersistence,
};
use crate::manager::clone_opt_string;
use crate::path::{
    ancestors_spec, file_name, file_name_spec, join, join_all, join_spec, lemma_views_push, parent,
    parent_spec, parents_of, path_eq, views,
};
use crate::r_installation::{clone_strings, opt_view, opt_views, LocatorMetadata, RInstallation, RInstallationKind};
use crate::renv::REnv;
use crate::text::{contains_seq, push_str, str_contains, string_of};

verus! {

broadcast use lemma_views_push;

/// The marker file whose presence makes a prefix a Pixi environment.
pub open spec fn pixi_marker_spec(path: Seq<char>) -> Seq<char> {
    join_all(path, seq!["conda-meta"@, "pixi"@])
}

/// The marker file of a prefix, for the caller to probe.
pub fn pixi_marker(path: &str) -> (r: String)
    ensures
        r@ == pixi_marker_spec(path@),
{
    let m = join(path, "conda-meta");
    let r = join(m.as_str(), "pixi");
    proof {
        reveal_with_fuel(join_all, 3);
    }
    r
}

/// Whether a prefix is a Pixi environment, given the marker files that exist.
pub fn is_pixi_env(path: &str, markers: &Vec<String>) -> (r: bool)
    ensures
        r == views(markers@).contains(pixi_marker_spec(path@)),
{
    let m = pixi_marker(path);
    crate::path::contains_path(markers, m.as_str())
}

/// The prefixes that may hold the environment of a runtime: the parents of
/// the executable, then the parents of the home.
pub open spec fn prefix_candidates_spec(env: REnv) -> Seq<Seq<char>> {
    ancestors_spec(env.executable@).drop_first() + match env.home {
        Some(h) => ancestors_spec(h@).drop_first(),
        None => Seq::empty(),
    }
}

pub fn pixi_prefix_candidates(env: &REnv) -> (r: Vec<String>)
    ensures
        views(r@) == prefix_candidates_spec(*env),
{
    let mut r = parents_of(env.executable.as_str());
    let ghost a = views(r@);
    match &env.home {
        Some(h) => {
            let more = parents_of(h.as_str());
            let mut i: usize = 0;
            while i < more.len()
                invariant
                    i <= more.len(),
                    views(r@) == a + views(more@).subrange(0, i as int),
                decreases more.len() - i,
            {
                r.push(more[i].clone());
                i = i + 1;
            }
            assert(views(more@).subrange(0, more.len() as int) == views(more@));
        },
        None => {},
    }
    r
}

/// The nearest Pixi environment above the executable, else above the home,
/// given the probed markers that exist.
pub fn get_pixi_prefix(env: &REnv, markers: &Vec<String>) -> (r: Option<String>)
    ensures
        match r {
            Some(p) => exists|k: int|
                0 <= k < prefix_candidates_spec(*env).len() && prefix_candidates_spec(*env)[k] == p@
                    && views(markers@).contains(pixi_marker_spec(p@)) && forall|j: int|
                    0 <= j < k ==> !views(markers@).contains(
                        pixi_marker_spec(#[trigger] prefix_candidates_spec(*env)[j]),
                    ),
            None => forall|j: int|
                0 <= j < prefix_candidates_spec(*env).len() ==> !views(markers@).contains(
                    pixi_marker_spec(#[trigger] prefix_candidates_spec(*env)[j]),
                ),
        },
{
    let c = pixi_prefix_candidates(env);
    let ghost cv = views(c@);
    let mut i: usize = 0;
    while i < c.len()
        invariant
            i <= c.len(),
            cv == views(c@),
            cv == prefix_candidates_spec(*env),
            forall|j: int| 0 <= j < i ==> !views(markers@).contains(pixi_marker_spec(#[trigger] cv[j])),
        decreases c.len() - i,
    {
        if is_pixi_env(c[i].as_str(), markers) {
            assert(cv[i as int] == c@[i as int]@);
            return Some(c[i].clone());
        }
        i = i + 1;
    }
    None
}

/// The project root of a `<root>/.pixi/envs/<name>` prefix.
pub open spec fn project_root_spec(prefix: Seq<char>) -> Option<Seq<char>> {
    match parent_spec(prefix) {
        None => None,
        Some(envs) => if file_name_spec(envs) == Some("envs"@) {
            match parent_spec(envs) {
                None => None,
                Some(pixi) => if file_name_spec(pixi) == Some(".pixi"@) {
                    parent_spec(pixi)
                } else {
                    None
                },
            }
        } else {
            None
        },
    }
}

fn name_is(p: &str, name: &str) -> (r: bool)
    ensures
        r == (file_name_spec(p@) == Some(name@)),
{
    match file_name(p) {
        Some(n) => path_eq(n.as_str(), name),
        None => false,
    }
}

/// The project root of a project environment, if the prefix is one.
pub fn pixi_project_root(prefix: &str) -> (r: Option<String>)
    ensures
        opt_view(r) == project_root_spec(prefix@),
{
    let envs = match parent(prefix) {
        Some(e) => e,
        None => return None,
    };
    if !name_is(envs.as_str(), "envs") {
        return None;
    }
    let pixi = match parent(envs.as_str()) {
        Some(p) => p,
        None => return None,
    };
    if !name_is(pixi.as_str(), ".pixi") {
        return None;
    }
    parent(pixi.as_str())
}

/// The manifest of a project environment: `pixi.toml` when it is a file,
/// else `pyproject.toml` when its text holds a `[tool.pixi]` table.
pub fn infer_manifest_path(prefix: &str, pixi_toml_is_file: bool, pyproject_text: &Option<String>) -> (r:
    Option<String>)
    ensures
        opt_view(r) == (match project_root_spec(prefix@) {
            None => None,
            Some(root) => if pixi_toml_is_file {
                Some(join_spec(root, "pixi.toml"@))
            } else if pyproject_text matches Some(t) && contains_seq(t@, "[tool.pixi]"@) {
                Some(join_spec(root, "pyproject.toml"@))
            } else {
                None
            },
        }),
{
    let root = match pixi_project_root(prefix) {
        Some(r) => r,
        None => return None,
    };
    if pixi_toml_is_file {
        return Some(join(root.as_str(), "pixi.toml"));
    }
    match pyproject_text {
        Some(t) => if str_contains(t.as_str(), "[tool.pixi]") {
            Some(join(root.as_str(), "pyproject.toml"))
        } else {
            None
        },
        None => None,
    }
}

/// Where global Pixi environments live: `$PIXI_HOME/envs`, else `~/.pixi/envs`.
pub fn pixi_global_env_dirs(environment: &Environment) -> (r: Vec<String>)
    ensures
        views(r@) == (match env_get(environment.variables@, "PIXI_HOME"@) {
            Some(h) => seq![join_spec(h, "envs"@)],
            None => match environment.user_home {
                Some(u) => seq![join_spec(join_spec(u@, ".pixi"@), "envs"@)],
                None => Seq::empty(),
            },
        }),
{
    let home = match environment.get_env_var("PIXI_HOME") {
        Some(h) => Some(h),
        None => match &environment.user_home {
            Some(u) => Some(join(u.as_str(), ".pixi")),
            None => None,
        },
    };
    let mut r: Vec<String> = Vec::new();
    match home {
        Some(h) => r.push(join(h.as_str(), "envs")),
        None => {},
    }
    r
}

/// What the file system says about a runtime in a Pixi environment: the
/// environment markers that exist, the executables of the prefix, which of
/// them are symlinks, and the manifest evidence.
#[derive(Debug)]
pub struct PixiProbe {
    pub markers: Vec<String>,
    pub prefix_executables: Vec<String>,
    pub symlinked_executables: Vec<String>,
    pub pixi_toml_is_file: bool,
    pub pyproject_text: Option<String>,
}

/// The name an installation in a Pixi environment is shown by:
/// `R <version> (Pixi: <environment>)`.
pub open spec fn pixi_display_name(version: Seq<char>, name: Seq<char>) -> Seq<char> {
    "R "@ + version + " (Pixi: "@ + name + ")"@
}

/// The Pixi locator.
#[derive(Debug)]
pub struct Pixi {
    pub global_env_dirs: Vec<String>,
}

impl Pixi {
    pub fn new(environment: &Environment) -> (r: Pixi)
        ensures
            views(r.global_env_dirs@) == (match env_get(environment.variables@, "PIXI_HOME"@) {
                Some(h) => seq![join_spec(h, "envs"@)],
                None => match environment.user_home {
                    Some(u) => seq![join_spec(join_spec(u@, ".pixi"@), "envs"@)],
                    None => Seq::empty(),
                },
            }),
    {
        Pixi::from(environment)
    }

    pub fn from(environment: &Environment) -> (r: Pixi)
        ensures
            views(r.global_env_dirs@) == (match env_get(environment.variables@, "PIXI_HOME"@) {
                Some(h) => seq![join_spec(h, "envs"@)],
                None => match environment.user_home {
                    Some(u) => seq![join_spec(join_spec(u@, ".pixi"@), "envs"@)],
                    None => Seq::empty(),
                },
            }),
    {
        Pixi { global_env_dirs: pixi_global_env_dirs(environment) }
    }

    /// Classifies a versioned runtime inside a Pixi environment, named after
    /// the environment's directory and marked with its prefix and manifest.
    pub fn try_from(&self, env: &REnv, host: Host, probe: &PixiProbe) -> (r: Option<RInstallation>)
        ensures
            r is Some <==> (env.version is Some && exists|k: int|
                0 <= k < prefix_candidates_spec(*env).len() && views(probe.markers@).contains(
                    pixi_marker_spec(#[trigger] prefix_candidates_spec(*env)[k]),
                )),
            r matches Some(i) ==> exists|prefix: String, name: String, manifest: Option<String>|
                prefix_candidates_spec(*env).contains(prefix@) && views(probe.markers@).contains(
                    pixi_marker_spec(prefix@),
                ) && name@ == (match file_name_spec(prefix@) {
                    Some(n) => n,
                    None => Seq::empty(),
                }) && opt_view(manifest) == (match project_root_spec(prefix@) {
                    None => None,
                    Some(root) => if probe.pixi_toml_is_file {
                        Some(join_spec(root, "pixi.toml"@))
                    } else if probe.pyproject_text matches Some(t) && contains_seq(
                        t@,
                        "[tool.pixi]"@,
                    ) {
                        Some(join_spec(root, "pyproject.toml"@))
                    } else {
                        None
                    },
                }) && classified(
                    i,
                    RInstallationKind::Pixi,
                    Some(pixi_display_name(env.version.unwrap()@, name@)),
                    Some(name@),
                    env.executable,
                    env.home,
                    env.version,
                    Some(arch_or_inferred(env.arch, env.executable@, host.arch)),
                    None,
                    Some(opt_views(env.known_executables) + views(probe.prefix_executables@)),
                    Some(opt_views(env.symlinks) + views(probe.symlinked_executables@)),
                    Some(
                        LocatorMetadata::Pixi {
                            environment_path: prefix,
                            manifest_path: manifest,
                            environment_name: Some(name),
                        },
                    ),
                    None,
                    host.windows,
                ),
    {
        if env.version.is_none() {
            return None;
        }
        let prefix = match get_pixi_prefix(env, &probe.markers) {
            Some(p) => p,
            None => return None,
        };
        let name = match file_name(prefix.as_str()) {
            Some(n) => n,
            None => String::new(),
        };
        let mut symlinks: Vec<String> = match &env.symlinks {
            Some(s) => clone_strings(s),
            None => Vec::new(),
        };
        let ghost s0 = views(symlinks@);
        let mut k: usize = 0;
        while k < probe.symlinked_executables.len()
            invariant
                k <= probe.symlinked_executables.len(),
                views(symlinks@) == s0 + views(probe.symlinked_executables@).subrange(0, k as int),
            decreases probe.symlinked_executables.len() - k,
        {
            symlinks.push(probe.symlinked_executables[k].clone());
            k = k + 1;
        }
        assert(views(probe.symlinked_executables@).subrange(
            0,
            probe.symlinked_executables@.len() as int,
        ) == views(probe.symlinked_executables@));
        let mut known: Vec<String> = match &env.known_executables {
            Some(s) => clone_strings(s),
            None => Vec::new(),
        };
        let ghost k0 = views(known@);
        let mut j: usize = 0;
        while j < probe.prefix_executables.len()
            invariant
                j <= probe.prefix_executables.len(),
                views(known@) == k0 + views(probe.prefix_executables@).subrange(0, j as int),
            decreases probe.prefix_executables.len() - j,
        {
            known.push(probe.prefix_executables[j].clone());
            j = j + 1;
        }
        assert(views(probe.prefix_executables@).subrange(0, probe.prefix_executables@.len() as int)
            == views(probe.prefix_executables@));
        let manifest = infer_manifest_path(
            prefix.as_str(),
            probe.pixi_toml_is_file,
            &probe.pyproject_text,
        );
        let metadata = LocatorMetadata::Pixi {
            environment_path: prefix.clone(),
            manifest_path: manifest,
            environment_name: Some(name.clone()),
        };
        let arch = arch_or_infer(env.arch, env.executable.as_str(), host.arch);
        let ghost gp = prefix;
        let ghost gn = name;
        let ghost gm = manifest;
        let display = match &env.version {
            Some(v) => {
                let mut d: Vec<char> = Vec::new();
                push_str(&mut d, "R ");
                push_str(&mut d, v.as_str());
                push_str(&mut d, " (Pixi: ");
                push_str(&mut d, name.as_str());
                push_str(&mut d, ")");
                string_of(d.as_slice())
            },
            None => String::new(),
        };
        let ghost gd = display;
        let r = classify(
            RInstallationKind::Pixi,
            Some(display),
            Some(name),
            env.executable.clone(),
            clone_opt_string(&env.home),
            clone_opt_string(&env.version),
            Some(arch),
            None,
            Some(known),
            Some(symlinks),
            Some(metadata),
            None,
            host.windows,
        );
        proof {
            let k = choose|k: int|
                0 <= k < prefix_candidates_spec(*env).len() && prefix_candidates_spec(*env)[k] == gp@
                    && views(probe.markers@).contains(pixi_marker_spec(gp@));
            assert(prefix_candidates_spec(*env).contains(gp@));
            assert(gn@ == (match file_name_spec(gp@) {
                Some(n) => n,
                None => Seq::<char>::empty(),
            }));
            assert(views(known@) == opt_views(env.known_executables) + views(
                probe.prefix_executables@,
            ));
            assert(gd@ == pixi_display_name(env.version.unwrap()@, gn@));
            assert(classified(
                r,
                RInstallationKind::Pixi,
                Some(pixi_display_name(env.version.unwrap()@, gn@)),
                Some(gn@),
                env.executable,
                env.home,
                env.version,
                Some(arch_or_inferred(env.arch, env.executable@, host.arch)),
                None,
                Some(opt_views(env.known_executables) + views(probe.prefix_executables@)),
                Some(opt_views(env.symlinks) + views(probe.symlinked_executables@)),
                Some(
                    LocatorMetadata::Pixi {
                        environment_path: gp,
                        manifest_path: gm,
                        environment_name: Some(gn),
                    },
                ),
                None,
                host.windows,
            ));
        }
        Some(r)
    }
}

impl Locator for Pixi {
    fn get_kind(&self) -> (r: LocatorKind)
        ensures
            r == LocatorKind::Pixi,
    {
        LocatorKind::Pixi
    }

    /// Pixi keeps no state between requests.
    fn refresh_state(&self) -> (r: RefreshStatePersistence)
        ensures
            r == RefreshStatePersistence::Stateless,
    {
        RefreshStatePersistence::Stateless
    }

    fn supported_categories(&self) -> (r: Vec<RInstallationKind>)
        ensures
            r@ == seq![RInstallationKind::Pixi],
    {
        let mut v: Vec<RInstallationKind> = Vec::new();
        v.push(RInstallationKind::Pixi);
        v
    }
}

} // verus!
