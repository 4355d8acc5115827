//! The conda locator: environments of conda, mamba and micromamba.

use vstd::prelude::*;
use crate::cache::{entries_map, LocatorCache};
use crate::conda::manager::{
    conda_rels, get_conda_manager, get_mamba_manager, is_mamba_executable, mamba_name_spec, mamba_rels,
    manager_at, under, CondaManager,
};
use crate::conda::package::{meta_views, package_info_spec, MetaFile, RCondaPackageInfo};
use crate::conda::utils::{
    conda_env_spec, creating_install_spec, env_name_spec, get_conda_env_name,
    get_conda_installation_used_to_create_conda_env, is_conda_env,
};
use crate::environment::Environment;
use crate::facts::{dir_in, exists_in, FileFacts};
use crate::arch::Architecture;
use crate::locator::{
    first_present, Configuration, Host, Locator, LocatorKind, RefreshStatePersistence, RefreshStateSyncScope,
};
use crate::manager::{clone_opt_string, EnvManager, EnvManagerType};
use crate::path::{
    ancestors_spec, file_name, file_name_spec, is_sorted_set_of, join, join_spec, lemma_views_push,
    parent, parent_spec, path_ends_with, ends_with, sort_dedup_paths, views,
};
use crate::r_installation::{
    built_paths, opt_view, same_installation, LocatorMetadata, RInstallation, RInstallationBuilder, RInstallationKind,
};
use crate::resolved::ResolvedRInstallation;
use crate::text::{ascii_lower, ascii_lower_chars, chars_eq, chars_of, push_str, string_of};

verus! {

broadcast use lemma_views_push;

/// `conda activate <prefix>` outside Windows.
pub open spec fn startup_spec(prefix: Seq<char>, windows: bool) -> Option<Seq<char>> {
    if windows {
        None
    } else {
        Some("conda activate "@ + prefix)
    }
}

pub fn build_conda_startup_command(prefix: &str, windows: bool) -> (r: Option<String>)
    ensures
        opt_view(r) == startup_spec(prefix@, windows),
{
    if windows {
        None
    } else {
        let mut v: Vec<char> = Vec::new();
        push_str(&mut v, "conda activate ");
        push_str(&mut v, prefix);
        Some(string_of(v.as_slice()))
    }
}

/// Whether a known executable is the preferred one: named `R` (`R.exe` on
/// Windows, in any case) inside a `bin` directory.
pub open spec fn is_preferred(p: Seq<char>, windows: bool) -> bool {
    &&& file_name_spec(p) is Some
    &&& ascii_lower(file_name_spec(p).unwrap()) == (if windows {
        "r.exe"@
    } else {
        "r"@
    })
    &&& parent_spec(p) is Some
    &&& path_ends_with(parent_spec(p).unwrap(), "bin"@)
}

/// The first preferred executable, else the one found.
pub open spec fn preferred_spec(found: Seq<char>, known: Seq<Seq<char>>, windows: bool) -> Seq<char>
    decreases known.len(),
{
    if known.len() == 0 {
        found
    } else if is_preferred(known[0], windows) {
        known[0]
    } else {
        preferred_spec(found, known.drop_first(), windows)
    }
}

fn is_preferred_exec(p: &str, windows: bool) -> (r: bool)
    ensures
        r == is_preferred(p@, windows),
{
    let n = match file_name(p) {
        Some(n) => n,
        None => return false,
    };
    let nv = chars_of(n.as_str());
    let l = ascii_lower_chars(nv.as_slice());
    let target = if windows { chars_of("r.exe") } else { chars_of("r") };
    if !chars_eq(l.as_slice(), target.as_slice()) {
        return false;
    }
    match parent(p) {
        Some(d) => ends_with(d.as_str(), "bin"),
        None => false,
    }
}

pub fn pick_preferred_executable(found: &str, known_executables: &Vec<String>, windows: bool) -> (r: String)
    ensures
        r@ == preferred_spec(found@, views(known_executables@), windows),
{
    let mut i: usize = 0;
    assert(views(known_executables@).subrange(0, known_executables.len() as int) == views(
        known_executables@,
    ));
    while i < known_executables.len()
        invariant
            i <= known_executables.len(),
            preferred_spec(found@, views(known_executables@), windows) == preferred_spec(
                found@,
                views(known_executables@).subrange(i as int, known_executables.len() as int),
                windows,
            ),
        decreases known_executables.len() - i,
    {
        let ghost rest = views(known_executables@).subrange(i as int, known_executables.len() as int);
        assert(rest.drop_first() == views(known_executables@).subrange(
            i + 1,
            known_executables.len() as int,
        ));
        assert(rest[0] == known_executables@[i as int]@);
        if is_preferred_exec(known_executables[i].as_str(), windows) {
            return known_executables[i].clone();
        }
        i = i + 1;
    }
    found.to_string()
}

/// The candidate executables of a conda environment, in order.
pub open spec fn executable_candidates_spec(prefix: Seq<char>, r_home: Seq<char>, windows: bool) -> Seq<Seq<char>> {
    (if windows {
        seq![
            join_spec(join_spec(prefix, "Scripts"@), "R.exe"@),
            join_spec(join_spec(prefix, "Scripts"@), "Rscript.exe"@),
            join_spec(join_spec(join_spec(prefix, "Library"@), "bin"@), "R.exe"@),
            join_spec(join_spec(join_spec(prefix, "Library"@), "bin"@), "Rscript.exe"@),
            join_spec(join_spec(join_spec(prefix, "bin"@), "x64"@), "R.exe"@),
            join_spec(join_spec(prefix, "bin"@), "R.exe"@),
            join_spec(join_spec(prefix, "bin"@), "Rscript.exe"@),
        ]
    } else {
        seq![
            join_spec(join_spec(prefix, "bin"@), "R"@),
            join_spec(join_spec(prefix, "bin"@), "Rscript"@),
        ]
    }) + (if r_home != prefix {
        if windows {
            seq![
                join_spec(join_spec(r_home, "bin"@), "R.exe"@),
                join_spec(join_spec(r_home, "bin"@), "Rscript.exe"@),
            ]
        } else {
            seq![
                join_spec(join_spec(r_home, "bin"@), "R"@),
                join_spec(join_spec(r_home, "bin"@), "Rscript"@),
            ]
        }
    } else {
        Seq::empty()
    })
}

/// The candidates that exist, in order.
pub open spec fn existing_of(c: Seq<Seq<char>>, f: FileFacts) -> Seq<Seq<char>>
    decreases c.len(),
{
    if c.len() == 0 {
        Seq::empty()
    } else {
        let rest = existing_of(c.drop_last(), f);
        if exists_in(f, c.last()) {
            rest.push(c.last())
        } else {
            rest
        }
    }
}

fn join2(a: &str, b: &str, c: &str) -> (r: String)
    ensures
        r@ == join_spec(join_spec(a@, b@), c@),
{
    let x = join(a, b);
    join(x.as_str(), c)
}

fn join3(a: &str, b: &str, c: &str, d: &str) -> (r: String)
    ensures
        r@ == join_spec(join_spec(join_spec(a@, b@), c@), d@),
{
    let x = join2(a, b, c);
    join(x.as_str(), d)
}

/// The R executables of a conda environment that exist, sorted and
/// deduplicated: those of the prefix's layouts and, when the home differs
/// from the prefix, those in the home's `bin`.
pub fn collect_r_executables(prefix: &str, r_home: &str, windows: bool, facts: &FileFacts) -> (r: Vec<
    String,
>)
    ensures
        is_sorted_set_of(views(r@), existing_of(executable_candidates_spec(prefix@, r_home@, windows), *facts)),
{
    let mut c: Vec<String> = Vec::new();
    if windows {
        c.push(join2(prefix, "Scripts", "R.exe"));
        c.push(join2(prefix, "Scripts", "Rscript.exe"));
        c.push(join3(prefix, "Library", "bin", "R.exe"));
        c.push(join3(prefix, "Library", "bin", "Rscript.exe"));
        c.push(join3(prefix, "bin", "x64", "R.exe"));
        c.push(join2(prefix, "bin", "R.exe"));
        c.push(join2(prefix, "bin", "Rscript.exe"));
    } else {
        c.push(join2(prefix, "bin", "R"));
        c.push(join2(prefix, "bin", "Rscript"));
    }
    if !crate::path::path_eq(r_home, prefix) {
        if windows {
            c.push(join2(r_home, "bin", "R.exe"));
            c.push(join2(r_home, "bin", "Rscript.exe"));
        } else {
            c.push(join2(r_home, "bin", "R"));
            c.push(join2(r_home, "bin", "Rscript"));
        }
    }
    let ghost cv = views(c@);
    assert(cv == executable_candidates_spec(prefix@, r_home@, windows));
    let mut out: Vec<String> = Vec::new();
    let mut i: usize = 0;
    while i < c.len()
        invariant
            i <= c.len(),
            cv == views(c@),
            views(out@) == existing_of(cv.subrange(0, i as int), *facts),
        decreases c.len() - i,
    {
        assert(cv.subrange(0, i + 1).drop_last() == cv.subrange(0, i as int));
        if facts.path_exists(c[i].as_str()) {
            out.push(c[i].clone());
        }
        i = i + 1;
    }
    assert(cv.subrange(0, c.len() as int) == cv);
    sort_dedup_paths(out)
}

/// The home of R in a conda environment: `<prefix>/lib/R` when it is a directory.
pub fn infer_conda_r_home(prefix: &str, facts: &FileFacts) -> (r: Option<String>)
    ensures
        opt_view(r) == (if dir_in(*facts, join_spec(join_spec(prefix@, "lib"@), "R"@)) {
            Some(join_spec(join_spec(prefix@, "lib"@), "R"@))
        } else {
            None
        }),
{
    let lib_r = join2(prefix, "lib", "R");
    if facts.is_dir(lib_r.as_str()) {
        Some(lib_r)
    } else {
        None
    }
}

/// The first of the paths that is a conda environment.
pub open spec fn first_env(ps: Seq<Seq<char>>, f: FileFacts) -> Option<Seq<char>>
    decreases ps.len(),
{
    if ps.len() == 0 {
        None
    } else if conda_env_spec(ps[0], f) {
        Some(ps[0])
    } else {
        first_env(ps.drop_first(), f)
    }
}

fn first_env_exec(ps: &Vec<String>, facts: &FileFacts) -> (r: Option<String>)
    ensures
        opt_view(r) == first_env(views(ps@), *facts),
{
    let mut i: usize = 0;
    assert(views(ps@).subrange(0, ps.len() as int) == views(ps@));
    while i < ps.len()
        invariant
            i <= ps.len(),
            first_env(views(ps@), *facts) == first_env(
                views(ps@).subrange(i as int, ps.len() as int),
                *facts,
            ),
        decreases ps.len() - i,
    {
        let ghost rest = views(ps@).subrange(i as int, ps.len() as int);
        assert(rest.drop_first() == views(ps@).subrange(i + 1, ps.len() as int));
        assert(rest[0] == ps@[i as int]@);
        if is_conda_env(ps[i].as_str(), facts) {
            return Some(ps[i].clone());
        }
        i = i + 1;
    }
    None
}

/// The conda environment of a runtime: the nearest environment at or
/// above the executable, else at or above the home.
pub open spec fn prefix_of_env_spec(exe: Seq<char>, home: Option<Seq<char>>, f: FileFacts) -> Option<Seq<char>> {
    match first_env(ancestors_spec(exe), f) {
        Some(p) => Some(p),
        None => match home {
            Some(h) => first_env(ancestors_spec(h), f),
            None => None,
        },
    }
}

pub fn get_prefix_from_env(executable: &str, home: &Option<String>, facts: &FileFacts) -> (r: Option<String>)
    ensures
        opt_view(r) == prefix_of_env_spec(executable@, opt_view(*home), *facts),
{
    let a = crate::locators::mac_framework::ancestors_of(executable);
    match first_env_exec(&a, facts) {
        Some(p) => Some(p),
        None => match home {
            Some(h) => {
                let b = crate::locators::mac_framework::ancestors_of(h.as_str());
                first_env_exec(&b, facts)
            },
            None => None,
        },
    }
}

/// What the file system holds about a conda environment: the paths probed,
/// its history's text, the entries of its `conda-meta`, and where the conda
/// executable its history names leads.
#[derive(Debug)]
pub struct CondaPrefixProbe {
    pub facts: FileFacts,
    pub history: Option<String>,
    pub meta_files: Vec<MetaFile>,
    pub resolved_history_executable: Option<String>,
}

/// The conda locator, with the environments it has reported (by prefix).
#[derive(Debug)]
pub struct Conda {
    pub environments: LocatorCache,
    pub conda_executable: Option<String>,
    pub home: Option<String>,
}

/// A conda installation as `build_installation` makes it.
pub open spec fn conda_installation(
    i: RInstallation,
    prefix: Seq<char>,
    name: Option<Seq<char>>,
    executable: Seq<char>,
    home: Seq<char>,
    version: Seq<char>,
    manager: Option<EnvManager>,
    windows: bool,
) -> bool {
    &&& i.kind == Some(RInstallationKind::Conda)
    &&& i.display_name is None
    &&& opt_view(i.name) == name
    &&& opt_view(i.executable) == Some(executable)
    &&& opt_view(i.home) == Some(home)
    &&& opt_view(i.version) == Some(version)
    &&& i.manager == manager
    &&& opt_view(i.startup_command) == startup_spec(prefix, windows)
    &&& i.locator_metadata matches Some(LocatorMetadata::Conda { environment_path: p }) && p@ == prefix
}

/// The manager of the conda installation at `dir`: the preferred tool's
/// executable when one exists there (mamba when `prefer_mamba`, else
/// conda), else the other tool's.
pub open spec fn install_manager(dir: Seq<char>, prefer_mamba: bool, windows: bool, f: FileFacts, m: Option<CondaManager>) -> bool {
    let conda = under(dir, conda_rels(windows));
    let mamba = under(dir, mamba_rels(windows));
    if prefer_mamba {
        if first_present(mamba, views(f.existing@)) is Some {
            manager_at(dir, mamba, f, EnvManagerType::Mamba, m)
        } else {
            manager_at(dir, conda, f, EnvManagerType::Conda, m)
        }
    } else {
        if first_present(conda, views(f.existing@)) is Some {
            manager_at(dir, conda, f, EnvManagerType::Conda, m)
        } else {
            manager_at(dir, mamba, f, EnvManagerType::Mamba, m)
        }
    }
}

/// The manager as an installation names it.
pub open spec fn env_manager_of(manager: Option<CondaManager>) -> Option<EnvManager> {
    match manager {
        Some(m) => Some((EnvManager { executable: m.executable, version: m.version, tool: m.manager_type })),
        None => None,
    }
}

/// The conda directory a manager belongs to.
pub open spec fn manager_dir(manager: Option<CondaManager>) -> Option<Seq<char>> {
    match manager {
        Some(m) => opt_view(m.conda_dir),
        None => None,
    }
}

/// `<prefix>/lib/R`.
pub open spec fn conda_r_home(prefix: Seq<char>) -> Seq<char> {
    join_spec(join_spec(prefix, "lib"@), "R"@)
}

/// An installation read from an environment's metadata: the conda
/// installation of the environment with the packages' version and
/// architecture, the home `<prefix>/lib/R`, the preferred of the R
/// executables that exist (`known`, sorted), and those executables with it
/// as the known ones.
pub open spec fn metadata_installation(
    i: RInstallation,
    prefix: Seq<char>,
    executable: Seq<char>,
    manager: Option<CondaManager>,
    probe: CondaPrefixProbe,
    windows: bool,
    version: Seq<char>,
    arch: Option<Architecture>,
    known: Seq<Seq<char>>,
) -> bool {
    let preferred = preferred_spec(executable, known, windows);
    &&& is_sorted_set_of(known, existing_of(executable_candidates_spec(prefix, conda_r_home(prefix), windows), probe.facts))
    &&& conda_installation(
        i,
        prefix,
        env_name_spec(prefix, manager_dir(manager), probe.facts, opt_view(probe.history)),
        preferred,
        conda_r_home(prefix),
        version,
        env_manager_of(manager),
        windows,
    )
    &&& i.arch == arch
    &&& built_paths(i.known_executables, known.push(preferred))
}

/// `metadata_installation` for the sorted R executables that exist.
pub open spec fn from_metadata(
    i: RInstallation,
    prefix: Seq<char>,
    executable: Seq<char>,
    manager: Option<CondaManager>,
    probe: CondaPrefixProbe,
    windows: bool,
    version: Seq<char>,
    arch: Option<Architecture>,
) -> bool {
    exists|known: Seq<Seq<char>>|
        #[trigger] metadata_installation(i, prefix, executable, manager, probe, windows, version, arch, known)
}

impl Conda {
    pub fn from(environment: &Environment) -> (r: Conda)
        ensures
            r.environments.view() == Map::<Seq<char>, RInstallation>::empty(),
            r.conda_executable is None,
            r.home == environment.user_home,
    {
        Conda {
            environments: LocatorCache::new(),
            conda_executable: None,
            home: clone_opt_string(&environment.user_home),
        }
    }

    /// A request-local locator for a refresh.  Package metadata is read
    /// afresh for each request, so nothing else is shared.
    pub fn from_shared_environment_cache(environment: &Environment, source: &Conda) -> (r: Conda)
        ensures
            r.environments.view() == Map::<Seq<char>, RInstallation>::empty(),
            r.conda_executable is None,
            r.home == environment.user_home,
    {
        Conda::from(environment)
    }

    /// Takes the configured conda executable.
    pub fn configure(&mut self, config: &Configuration)
        ensures
            final(self).conda_executable == config.conda_executable,
            final(self).environments.view() == old(self).environments.view(),
            final(self).home == old(self).home,
    {
        self.conda_executable = clone_opt_string(&config.conda_executable);
    }

    /// Takes over what a transient locator discovered: everything for a
    /// full refresh, in addition for a refresh filtered to conda, nothing
    /// otherwise.
    pub fn sync_refresh_state_from(&mut self, source: Conda, scope: &RefreshStateSyncScope)
        ensures
            match *scope {
                RefreshStateSyncScope::Full => final(self).environments.view()
                    == source.environments.view(),
                RefreshStateSyncScope::GlobalFiltered(kind) => if kind == RInstallationKind::Conda {
                    final(self).environments.view() == old(self).environments.view().union_prefer_right(
                        source.environments.view(),
                    )
                } else {
                    final(self).environments.view() == old(self).environments.view()
                },
                RefreshStateSyncScope::Workspace => final(self).environments.view() == old(
                    self,
                ).environments.view(),
            },
            final(self).conda_executable == old(self).conda_executable,
            final(self).home == old(self).home,
    {
        match scope {
            RefreshStateSyncScope::Full => {
                self.environments.clear();
                let entries = source.environments.into_entries();
                self.environments.insert_many(entries);
                assert(Map::<Seq<char>, RInstallation>::empty().union_prefer_right(
                    source.environments.view(),
                ) =~= source.environments.view());
            },
            RefreshStateSyncScope::GlobalFiltered(kind) => {
                if *kind == RInstallationKind::Conda {
                    let entries = source.environments.into_entries();
                    self.environments.insert_many(entries);
                }
            },
            RefreshStateSyncScope::Workspace => {},
        }
    }

    /// The manager of an environment: of the installation that created it,
    /// mamba first when the configured executable is a mamba, else conda first.
    pub fn get_manager_for_prefix(&self, prefix: &str, windows: bool, probe: &CondaPrefixProbe) -> (r:
        Option<CondaManager>)
        ensures
            match creating_install_spec(
                prefix@,
                probe.facts,
                opt_view(probe.history),
                opt_view(probe.resolved_history_executable),
            ) {
                None => r is None,
                Some(dir) => install_manager(
                    dir,
                    match self.conda_executable {
                        Some(e) => mamba_name_spec(e@),
                        None => false,
                    },
                    windows,
                    probe.facts,
                    r,
                ),
            },
    {
        let conda_dir = match get_conda_installation_used_to_create_conda_env(
            prefix,
            &probe.facts,
            &probe.history,
            &probe.resolved_history_executable,
        ) {
            Some(d) => d,
            None => return None,
        };
        let prefer_mamba = match &self.conda_executable {
            Some(e) => is_mamba_executable(e.as_str()),
            None => false,
        };
        let conda = get_conda_manager(conda_dir.as_str(), windows, &probe.facts);
        let mamba = get_mamba_manager(conda_dir.as_str(), windows, &probe.facts);
        if prefer_mamba {
            match mamba {
                Some(m) => Some(m),
                None => conda,
            }
        } else {
            match conda {
                Some(m) => Some(m),
                None => mamba,
            }
        }
    }

    /// The installation for a probed runtime in an environment: named after
    /// the environment, activated with `conda activate`, and marked with
    /// the environment's prefix.
    pub fn build_installation(
        &self,
        prefix: &str,
        resolved: ResolvedRInstallation,
        manager: Option<CondaManager>,
        probe: &CondaPrefixProbe,
        windows: bool,
    ) -> (r: RInstallation)
        ensures
            conda_installation(
                r,
                prefix@,
                env_name_spec(
                    prefix@,
                    match manager {
                        Some(m) => opt_view(m.conda_dir),
                        None => None,
                    },
                    probe.facts,
                    opt_view(probe.history),
                ),
                resolved.executable@,
                resolved.home@,
                resolved.version@,
                match manager {
                    Some(m) => Some(
                        (EnvManager { executable: m.executable, version: m.version, tool: m.manager_type }),
                    ),
                    None => None,
                },
                windows,
            ),
            r.arch == Some(resolved.arch),
    {
        let conda_dir = match &manager {
            Some(m) => clone_opt_string(&m.conda_dir),
            None => None,
        };
        let name = get_conda_env_name(prefix, &conda_dir, &probe.facts, &probe.history);
        let env_manager = match &manager {
            Some(m) => Some(m.to_manager()),
            None => None,
        };
        RInstallationBuilder::new(Some(RInstallationKind::Conda)).windows_layout(windows).name(name).executable(
            Some(resolved.executable),
        ).home(Some(resolved.home)).version(Some(resolved.version)).arch(Some(resolved.arch)).manager(
            env_manager,
        ).known_executables(resolved.known_executables).symlinks(resolved.symlinks).startup_command(
            build_conda_startup_command(prefix, windows),
        ).locator_metadata(Some(LocatorMetadata::Conda { environment_path: prefix.to_string() })).build()
    }

    /// The installation read from an environment's metadata alone, when its
    /// package records name the R version and its home exists.
    pub fn installation_from_metadata(
        &self,
        prefix: &str,
        executable: &str,
        manager: Option<CondaManager>,
        probe: &CondaPrefixProbe,
        windows: bool,
    ) -> (r: Option<RInstallation>)
        ensures
            match package_info_spec(prefix@, opt_view(probe.history), meta_views(probe.meta_files@)) {
                None => r is None,
                Some((version, arch)) => if dir_in(probe.facts, conda_r_home(prefix@)) {
                    r matches Some(i) && from_metadata(i, prefix@, executable@, manager, *probe, windows, version, arch)
                } else {
                    r is None
                },
            },
    {
        let info = match RCondaPackageInfo::from(prefix, &probe.history, &probe.meta_files) {
            Some(i) => i,
            None => return None,
        };
        let r_home = match infer_conda_r_home(prefix, &probe.facts) {
            Some(h) => h,
            None => return None,
        };
        let known = collect_r_executables(prefix, r_home.as_str(), windows, &probe.facts);
        let preferred = pick_preferred_executable(executable, &known, windows);
        let conda_dir = match &manager {
            Some(m) => clone_opt_string(&m.conda_dir),
            None => None,
        };
        let name = get_conda_env_name(prefix, &conda_dir, &probe.facts, &probe.history);
        let env_manager = match &manager {
            Some(m) => Some(m.to_manager()),
            None => None,
        };
        let ghost known_view = views(known@);
        let ghost preferred_view = preferred@;
        let ghost kv = known;
        let b = RInstallationBuilder::new(Some(RInstallationKind::Conda)).windows_layout(windows).name(name).executable(
            Some(preferred),
        ).home(Some(r_home)).version(Some(info.version)).arch(info.arch).manager(env_manager).known_executables(
            Some(known),
        );
        let ghost k1 = b.draft().known_executables;
        let i = b.startup_command(build_conda_startup_command(prefix, windows)).locator_metadata(
            Some(LocatorMetadata::Conda { environment_path: prefix.to_string() }),
        ).build();
        proof {
            crate::r_installation::lemma_normalized_paths_views(k1, Some(kv));
            crate::r_installation::lemma_built_paths_transfer(
                i.known_executables,
                crate::r_installation::opt_views(k1),
                known_view,
                seq![preferred_view],
            );
            assert(known_view + seq![preferred_view] =~= known_view.push(preferred_view));
            assert(preferred_view == preferred_spec(executable@, known_view, windows));
            assert(is_sorted_set_of(known_view, existing_of(executable_candidates_spec(prefix@, conda_r_home(prefix@), windows), probe.facts)));
            assert(opt_view(i.name) == env_name_spec(prefix@, manager_dir(manager), probe.facts, opt_view(probe.history)));
            assert(i.manager == env_manager_of(manager));
            assert(opt_view(i.home) == Some(conda_r_home(prefix@)));
            assert(i.arch == info.arch);
            assert(built_paths(i.known_executables, known_view.push(preferred_view)));
            assert(metadata_installation(
                i,
                prefix@,
                executable@,
                manager,
                *probe,
                windows,
                info.version@,
                info.arch,
                known_view,
            ));
            assert(package_info_spec(prefix@, opt_view(probe.history), meta_views(probe.meta_files@)) == Some(
                (info.version@, info.arch),
            ));
            assert(dir_in(probe.facts, conda_r_home(prefix@)));
            assert(from_metadata(i, prefix@, executable@, manager, *probe, windows, info.version@, info.arch));
        }
        Some(i)
    }

    /// Classifies a runtime inside a conda environment: as reported before
    /// for the environment, else from the environment's metadata, else,
    /// for a versioned runtime, from the probe of the runtime (`resolved`).
    /// A new installation is recorded for the environment.
    pub fn try_from(
        &mut self,
        executable: &str,
        home: &Option<String>,
        version: &Option<String>,
        probe: &CondaPrefixProbe,
        resolved: Option<ResolvedRInstallation>,
        host: Host,
    ) -> (r: Option<RInstallation>)
        ensures
            match prefix_of_env_spec(executable@, opt_view(*home), probe.facts) {
                None => r is None && final(self).environments.view() == old(
                    self,
                ).environments.view(),
                Some(p) => if old(self).environments.view().dom().contains(p) {
                    r is Some && same_installation(r.unwrap(), old(self).environments.view()[p])
                        && final(self).environments.view() == old(self).environments.view()
                } else {
                    match r {
                        Some(i) => i.kind == Some(RInstallationKind::Conda)
                            && final(self).environments.view().dom() == old(
                            self,
                        ).environments.view().dom().insert(p) && same_installation(
                            final(self).environments.view()[p],
                            i,
                        ),
                        None => final(self).environments.view() == old(self).environments.view(),
                    }
                },
            },
            final(self).conda_executable == old(self).conda_executable,
            final(self).home == old(self).home,
    {
        let prefix = match get_prefix_from_env(executable, home, &probe.facts) {
            Some(p) => p,
            None => return None,
        };
        match self.environments.get(prefix.as_str()) {
            Some(i) => return Some(i),
            None => {},
        }
        let manager = self.get_manager_for_prefix(prefix.as_str(), host.windows, probe);
        let manager_again = self.get_manager_for_prefix(prefix.as_str(), host.windows, probe);
        match self.installation_from_metadata(prefix.as_str(), executable, manager, probe, host.windows) {
            Some(i) => {
                let c = i.copy();
                self.environments.insert(prefix, c);
                return Some(i);
            },
            None => {},
        }
        if version.is_none() {
            return None;
        }
        let resolved = match resolved {
            Some(r) => r,
            None => return None,
        };
        let i = self.build_installation(prefix.as_str(), resolved, manager_again, probe, host.windows);
        let c = i.copy();
        self.environments.insert(prefix, c);
        Some(i)
    }
}

impl Locator for Conda {
    fn get_kind(&self) -> (r: LocatorKind)
        ensures
            r == LocatorKind::Conda,
    {
        LocatorKind::Conda
    }

    fn refresh_state(&self) -> (r: RefreshStatePersistence)
        ensures
            r == RefreshStatePersistence::SyncedDiscoveryState,
    {
        RefreshStatePersistence::SyncedDiscoveryState
    }

    fn supported_categories(&self) -> (r: Vec<RInstallationKind>)
        ensures
            r@ == seq![RInstallationKind::Conda],
    {
        let mut v: Vec<RInstallationKind> = Vec::new();
        v.push(RInstallationKind::Conda);
        v
    }
}

} // verus!
