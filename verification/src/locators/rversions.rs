//! Installations declared in an `r-versions` file, matched against the
//! runtimes that were found and completed with the entry's settings.

use vstd::prelude::*;
use crate::arch::Architecture;
use crate::environment::{env_get, split_list, split_paths, Environment};
use crate::locator::{first_present, Host, Locator, LocatorKind, RefreshStatePersistence};
use crate::locators::module::{
    build_module_startup_command, find_modulecmd, looks_like_module_path, modulecmd_candidates_spec,
    module_path_spec, startup_command_spec,
};
use crate::manager::clone_opt_string;
use crate::path::{lemma_views_push, path_eq, views};
use crate::r_installation::{
    clone_opt_strings, infer_orthogonal_spec, opt_seq, infer_script_path_spec, normalize_sources, opt_view,
    opt_views, built_paths, DiscoverySource, EnvVars, RInstallation, RInstallationBuilder,
    RInstallationKind, RVersionsOverlay,
};
use crate::renv::REnv;
use crate::resolved::ResolvedRInstallation;
use crate::rversions::{
    build_rversions_overlay, combine_startup_command, combined_startup, entries_view, entry_view,
    library_vars, overlay_spec, overlay_view, vars_view, EntryView, OverlayView, RVersionsEntry,
};

verus! {

broadcast use lemma_views_push;

/// An entry whose runtime was found and probed, with what the entry adds.
#[derive(Debug)]
pub struct ResolvedRVersionsEntry {
    pub resolved: ResolvedRInstallation,
    pub label: Option<String>,
    pub startup_command: Option<String>,
    pub environment_variables: Option<EnvVars>,
    pub rversions_overlay: Option<RVersionsOverlay>,
}

/// A resolved entry as plain values.
pub type ResolvedEntryView = (
    ResolvedRInstallation,
    Option<Seq<char>>,
    Option<Seq<char>>,
    Option<Seq<(Seq<char>, Seq<char>)>>,
    Option<OverlayView>,
);

pub open spec fn resolved_entry_view(e: ResolvedRVersionsEntry) -> ResolvedEntryView {
    (
        e.resolved,
        opt_view(e.label),
        opt_view(e.startup_command),
        vars_view(e.environment_variables),
        overlay_view(e.rversions_overlay),
    )
}

pub open spec fn resolved_entries_view(s: Seq<ResolvedRVersionsEntry>) -> Seq<ResolvedEntryView> {
    s.map_values(|e: ResolvedRVersionsEntry| resolved_entry_view(e))
}

/// The command that loads an entry's module, when there is a module command.
pub open spec fn module_command_of(modulecmd: Option<Seq<char>>, module: Option<Seq<char>>) -> Option<
    Seq<char>,
> {
    match modulecmd {
        Some(c) => match module {
            Some(m) => Some(startup_command_spec(c, m)),
            None => None,
        },
        None => None,
    }
}

/// What an entry becomes once its runtime is probed: it needs a path, or a
/// module and a module command, and a runtime.
pub open spec fn resolve_spec(
    modulecmd: Option<Seq<char>>,
    e: EntryView,
    resolved: Option<ResolvedRInstallation>,
) -> Option<ResolvedEntryView> {
    let mc = module_command_of(modulecmd, e.2);
    match resolved {
        Some(res) => if e.0 is Some || (e.2 is Some && modulecmd is Some) {
            Some((res, e.1, combined_startup(mc, e.3), library_vars(e.5), overlay_spec(e, mc)))
        } else {
            None
        },
        None => None,
    }
}

/// The entries that resolve, in file order.
pub open spec fn load_spec(
    modulecmd: Option<Seq<char>>,
    es: Seq<EntryView>,
    rs: Seq<Option<ResolvedRInstallation>>,
) -> Seq<ResolvedEntryView>
    decreases es.len(),
{
    if es.len() == 0 {
        Seq::empty()
    } else {
        let prev = load_spec(modulecmd, es.drop_last(), rs.drop_last());
        match resolve_spec(modulecmd, es.last(), rs.last()) {
            Some(v) => prev.push(v),
            None => prev,
        }
    }
}

/// Installations under a module tree are module installations.
pub open spec fn infer_kind_spec(executable: Seq<char>, home: Seq<char>) -> RInstallationKind {
    if module_path_spec(executable) || module_path_spec(home) {
        RInstallationKind::EnvironmentModule
    } else {
        RInstallationKind::LinuxGlobal
    }
}

pub fn infer_kind(executable: &str, home: &str) -> (r: RInstallationKind)
    ensures
        r == infer_kind_spec(executable@, home@),
{
    if looks_like_module_path(executable) || looks_like_module_path(home) {
        RInstallationKind::EnvironmentModule
    } else {
        RInstallationKind::LinuxGlobal
    }
}

fn extend_clones(dst: &mut Vec<String>, src: &Vec<String>)
    ensures
        views(final(dst)@) == views(old(dst)@) + views(src@),
{
    let ghost start = views(dst@);
    let mut i: usize = 0;
    while i < src.len()
        invariant
            i <= src.len(),
            views(dst@) == start + views(src@).subrange(0, i as int),
        decreases src.len() - i,
    {
        assert(views(src@).subrange(0, i + 1) == views(src@).subrange(0, i as int).push(
            src@[i as int]@,
        ));
        dst.push(src[i].clone());
        i = i + 1;
    }
    assert(views(src@).subrange(0, src.len() as int) == views(src@));
}

/// The two lists one after the other, absent when both are empty.
pub fn merge_optional_paths(primary: &Option<Vec<String>>, secondary: &Option<Vec<String>>) -> (r:
    Option<Vec<String>>)
    ensures
        opt_views(r) == opt_views(*primary) + opt_views(*secondary),
        r matches Some(v) ==> v@.len() > 0,
{
    let mut merged: Vec<String> = Vec::new();
    if let Some(p) = primary {
        extend_clones(&mut merged, p);
    }
    if let Some(s) = secondary {
        extend_clones(&mut merged, s);
    }
    assert(views(merged@) == opt_views(*primary) + opt_views(*secondary));
    if merged.len() == 0 {
        None
    } else {
        Some(merged)
    }
}

/// An installation reported for an `r-versions` entry.
pub open spec fn rversions_built(
    i: RInstallation,
    executable: String,
    home: String,
    version: Option<String>,
    arch: Option<Architecture>,
    known: Seq<Seq<char>>,
    symlinks: Seq<Seq<char>>,
    entry: ResolvedRVersionsEntry,
) -> bool {
    &&& i.display_name == entry.label
    &&& i.name is None
    &&& i.executable == Some(executable)
    &&& i.kind == Some(infer_kind_spec(executable@, home@))
    &&& i.version == version
    &&& i.home == Some(home)
    &&& i.manager is None
    &&& i.arch == arch
    &&& built_paths(i.known_executables, known + seq![executable@])
    &&& built_paths(i.symlinks, symlinks)
    &&& i.discovered_by@ == seq![DiscoverySource::Locator, DiscoverySource::RVersions]
    &&& i.locator_metadata is None
    &&& i.rversions_overlay == entry.rversions_overlay
    &&& opt_view(i.script_path) == infer_script_path_spec(Some(executable@), Some(home@), arch, false)
    &&& i.startup_command == entry.startup_command
    &&& opt_seq(i.environment_variables) == (match opt_seq(entry.environment_variables) {
        Some(v) => if v.len() == 0 {
            None
        } else {
            Some(v)
        },
        None => None,
    })
    &&& i.orthogonal == infer_orthogonal_spec(Some(home@))
    &&& i.error is None
}

fn build_installation(
    executable: String,
    home: String,
    version: Option<String>,
    arch: Option<Architecture>,
    known: Option<Vec<String>>,
    symlinks: Option<Vec<String>>,
    entry: &ResolvedRVersionsEntry,
) -> (r: RInstallation)
    ensures
        rversions_built(r, executable, home, version, arch, opt_views(known), opt_views(symlinks), *entry),
{
    let ghost known_v = known;
    let ghost symlinks_v = symlinks;
    let ghost exe = executable;
    let kind = infer_kind(executable.as_str(), home.as_str());
    let mut sources: Vec<DiscoverySource> = Vec::new();
    sources.push(DiscoverySource::Locator);
    sources.push(DiscoverySource::RVersions);
    let b = RInstallationBuilder::new(Some(kind)).display_name(clone_opt_string(&entry.label))
        .executable(Some(executable)).home(Some(home)).version(version).arch(arch)
        .known_executables(known).symlinks(symlinks).discovered_by(sources).rversions_overlay(
        crate::r_installation::clone_opt_overlay(&entry.rversions_overlay),
    ).startup_command(clone_opt_string(&entry.startup_command)).environment_variables(
        crate::r_installation::clone_opt_env_vars(&entry.environment_variables),
    );
    let ghost d = b.draft();
    let r = b.build();
    proof {
        assert(sources@[0] == DiscoverySource::Locator);
        assert(sources@[1] == DiscoverySource::RVersions);
        assert(normalize_sources(sources@) =~= seq![DiscoverySource::Locator, DiscoverySource::RVersions]);
        crate::r_installation::lemma_normalized_paths_views(d.known_executables, known_v);
        crate::r_installation::lemma_normalized_paths_views(d.symlinks, symlinks_v);
        crate::r_installation::lemma_built_paths_transfer(
            r.known_executables,
            opt_views(d.known_executables),
            opt_views(known_v),
            seq![exe@],
        );
        crate::r_installation::lemma_built_paths_transfer(
            r.symlinks,
            opt_views(d.symlinks),
            opt_views(symlinks_v),
            Seq::empty(),
        );
        assert(opt_views(d.symlinks) + Seq::<Seq<char>>::empty() == opt_views(d.symlinks));
        assert(opt_views(symlinks_v) + Seq::<Seq<char>>::empty() == opt_views(symlinks_v));
    }
    r
}

/// The home an installation matched by an entry gets: its own, else the entry's.
pub open spec fn env_home(env: REnv, e: ResolvedRVersionsEntry) -> String {
    match env.home {
        Some(h) => h,
        None => e.resolved.home,
    }
}

/// The installation built for a runtime that an entry matched: its own
/// fields first, the entry's runtime where they are missing.
pub open spec fn from_env_built(i: RInstallation, env: REnv, e: ResolvedRVersionsEntry) -> bool {
    rversions_built(
        i,
        env.executable,
        env_home(env, e),
        match env.version {
            Some(v) => Some(v),
            None => Some(e.resolved.version),
        },
        match env.arch {
            Some(a) => Some(a),
            None => Some(e.resolved.arch),
        },
        opt_views(env.known_executables) + opt_views(e.resolved.known_executables),
        opt_views(env.symlinks) + opt_views(e.resolved.symlinks),
        e,
    )
}

/// The installation built for an entry's own runtime.
pub open spec fn from_resolved_built(i: RInstallation, e: ResolvedRVersionsEntry) -> bool {
    rversions_built(
        i,
        e.resolved.executable,
        e.resolved.home,
        Some(e.resolved.version),
        Some(e.resolved.arch),
        opt_views(e.resolved.known_executables),
        opt_views(e.resolved.symlinks),
        e,
    )
}

pub fn build_installation_from_env(env: &REnv, entry: &ResolvedRVersionsEntry) -> (r: RInstallation)
    ensures
        from_env_built(r, *env, *entry),
{
    let home = match &env.home {
        Some(h) => h.clone(),
        None => entry.resolved.home.clone(),
    };
    let version = match &env.version {
        Some(v) => Some(v.clone()),
        None => Some(entry.resolved.version.clone()),
    };
    let arch = match env.arch {
        Some(a) => Some(a),
        None => Some(entry.resolved.arch),
    };
    let known = merge_optional_paths(&env.known_executables, &entry.resolved.known_executables);
    let symlinks = merge_optional_paths(&env.symlinks, &entry.resolved.symlinks);
    build_installation(env.executable.clone(), home, version, arch, known, symlinks, entry)
}

pub fn build_installation_from_resolved(entry: &ResolvedRVersionsEntry) -> (r: RInstallation)
    ensures
        from_resolved_built(r, *entry),
{
    let res = &entry.resolved;
    build_installation(
        res.executable.clone(),
        res.home.clone(),
        Some(res.version.clone()),
        Some(res.arch),
        clone_opt_strings(&res.known_executables),
        clone_opt_strings(&res.symlinks),
        entry,
    )
}

/// Whether an entry's runtime is the given one: same executable, or same home.
pub open spec fn entry_matches(env: REnv, e: ResolvedRVersionsEntry) -> bool {
    e.resolved.executable@ == env.executable@ || (env.home matches Some(h) && h@ == e.resolved.home@)
}

fn entry_matches_exec(env: &REnv, e: &ResolvedRVersionsEntry) -> (r: bool)
    ensures
        r == entry_matches(*env, *e),
{
    if path_eq(e.resolved.executable.as_str(), env.executable.as_str()) {
        return true;
    }
    match &env.home {
        Some(h) => path_eq(h.as_str(), e.resolved.home.as_str()),
        None => false,
    }
}

/// The `r-versions` locator.
#[derive(Debug)]
pub struct RVersions {
    pub user_home: Option<String>,
    pub modulecmd: Option<String>,
    pub xdg_config_home: Option<String>,
    pub xdg_config_dirs: Vec<String>,
}

impl RVersions {
    /// The locator for an environment; `existing` are the probed module
    /// command candidates that exist.
    pub fn from(environment: &Environment, existing: &Vec<String>) -> (r: RVersions)
        ensures
            r.user_home == environment.user_home,
            opt_view(r.modulecmd) == first_present(
                modulecmd_candidates_spec(*environment),
                views(existing@),
            ),
            opt_view(r.xdg_config_home) == env_get(environment.variables@, "XDG_CONFIG_HOME"@),
            views(r.xdg_config_dirs@) == (match env_get(
                environment.variables@,
                "XDG_CONFIG_DIRS"@,
            ) {
                Some(v) => split_list(v),
                None => Seq::empty(),
            }),
    {
        let xdg_config_home = environment.get_env_var("XDG_CONFIG_HOME");
        let xdg_config_dirs = match environment.get_env_var("XDG_CONFIG_DIRS") {
            Some(v) => split_paths(v.as_str()),
            None => Vec::new(),
        };
        RVersions {
            user_home: environment.get_user_home(),
            modulecmd: find_modulecmd(environment, existing),
            xdg_config_home,
            xdg_config_dirs,
        }
    }

    /// Completes an entry with the runtime probed at its executable
    /// (`resolved`: absent where none was found or the probe failed).
    pub fn resolve_entry(&self, entry: RVersionsEntry, resolved: Option<ResolvedRInstallation>) -> (r:
        Option<ResolvedRVersionsEntry>)
        ensures
            (match r {
                Some(e) => Some(resolved_entry_view(e)),
                None => None,
            }) == resolve_spec(opt_view(self.modulecmd), entry_view(entry), resolved),
    {
        let ghost ev = entry_view(entry);
        let module_command = match &entry.module {
            Some(m) => match &self.modulecmd {
                Some(c) => Some(build_module_startup_command(c.as_str(), m.as_str())),
                None => None,
            },
            None => None,
        };
        assert(opt_view(module_command) == module_command_of(opt_view(self.modulecmd), ev.2));
        let overlay = build_rversions_overlay(&entry, clone_opt_string(&module_command));
        if !(entry.path.is_some() || (entry.module.is_some() && self.modulecmd.is_some())) {
            return None;
        }
        let res = match resolved {
            Some(r) => r,
            None => return None,
        };
        let startup_command = combine_startup_command(&module_command, &entry.script);
        let environment_variables = crate::rversions::library_variables(&entry.library);
        Some(
            ResolvedRVersionsEntry {
                resolved: res,
                label: entry.label,
                startup_command,
                environment_variables,
                rversions_overlay: overlay,
            },
        )
    }

    /// The entries of a file that resolve, outside Windows; `resolved[k]` is
    /// the runtime probed for `entries[k]`.
    pub fn load_entries(
        &self,
        entries: Vec<RVersionsEntry>,
        resolved: Vec<Option<ResolvedRInstallation>>,
        host: Host,
    ) -> (r: Vec<ResolvedRVersionsEntry>)
        requires
            entries@.len() == resolved@.len(),
        ensures
            host.windows ==> r@.len() == 0,
            !host.windows ==> resolved_entries_view(r@) == load_spec(
                opt_view(self.modulecmd),
                entries_view(entries@),
                resolved@,
            ),
    {
        let mut out: Vec<ResolvedRVersionsEntry> = Vec::new();
        if host.windows {
            return out;
        }
        let ghost es = entries@;
        let ghost rs = resolved@;
        let mut entries = entries;
        let mut resolved = resolved;
        let n = entries.len();
        let mut i: usize = 0;
        while i < n
            invariant
                i <= n,
                n == es.len(),
                es.len() == rs.len(),
                entries@ == es.subrange(i as int, n as int),
                resolved@ == rs.subrange(i as int, n as int),
                resolved_entries_view(out@) == load_spec(
                    opt_view(self.modulecmd),
                    entries_view(es.subrange(0, i as int)),
                    rs.subrange(0, i as int),
                ),
            decreases n - i,
        {
            let e = entries.remove(0);
            let r = resolved.remove(0);
            assert(e == es[i as int]);
            assert(r == rs[i as int]);
            let ghost prev = out@;
            let x = self.resolve_entry(e, r);
            match x {
                Some(v) => {
                    out.push(v);
                    assert(resolved_entries_view(out@) == resolved_entries_view(prev).push(
                        resolved_entry_view(v),
                    ));
                },
                None => {},
            }
            assert(entries_view(es.subrange(0, i + 1)).drop_last() == entries_view(
                es.subrange(0, i as int),
            ));
            assert(entries_view(es.subrange(0, i + 1)).last() == entry_view(es[i as int]));
            assert(rs.subrange(0, i + 1).drop_last() == rs.subrange(0, i as int));
            i = i + 1;
        }
        assert(es.subrange(0, n as int) == es);
        assert(rs.subrange(0, n as int) == rs);
        out
    }

    /// The installation for a runtime that an entry names, outside Windows:
    /// built from the first entry whose runtime has the same executable or
    /// home.
    pub fn try_from(&self, env: &REnv, entries: &Vec<ResolvedRVersionsEntry>, host: Host) -> (r:
        Option<RInstallation>)
        ensures
            r is Some <==> (!host.windows && exists|k: int|
                0 <= k < entries@.len() && entry_matches(*env, #[trigger] entries@[k])),
            r matches Some(i) ==> exists|k: int|
                0 <= k < entries@.len() && entry_matches(*env, #[trigger] entries@[k]) && (forall|
                    j: int,
                | 0 <= j < k ==> !entry_matches(*env, #[trigger] entries@[j])) && from_env_built(
                    i,
                    *env,
                    entries@[k],
                ),
    {
        if host.windows {
            return None;
        }
        let mut i: usize = 0;
        while i < entries.len()
            invariant
                i <= entries.len(),
                !host.windows,
                forall|j: int| 0 <= j < i ==> !entry_matches(*env, #[trigger] entries@[j]),
            decreases entries.len() - i,
        {
            if entry_matches_exec(env, &entries[i]) {
                let r = build_installation_from_env(env, &entries[i]);
                proof {
                    let k = i as int;
                    assert(0 <= k < entries@.len() && entry_matches(*env, entries@[k]));
                    assert(exists|k: int|
                        0 <= k < entries@.len() && entry_matches(*env, #[trigger] entries@[k]));
                }
                return Some(r);
            }
            i = i + 1;
        }
        None
    }

    /// The installations of the resolved entries, outside Windows.
    pub fn find(&self, entries: &Vec<ResolvedRVersionsEntry>, host: Host) -> (r: Vec<RInstallation>)
        ensures
            host.windows ==> r@.len() == 0,
            !host.windows ==> r@.len() == entries@.len(),
            !host.windows ==> forall|k: int|
                0 <= k < r@.len() ==> from_resolved_built(#[trigger] r@[k], entries@[k]),
    {
        let mut out: Vec<RInstallation> = Vec::new();
        if host.windows {
            return out;
        }
        let mut i: usize = 0;
        while i < entries.len()
            invariant
                i <= entries.len(),
                out@.len() == i,
                forall|k: int| 0 <= k < i ==> from_resolved_built(#[trigger] out@[k], entries@[k]),
            decreases entries.len() - i,
        {
            out.push(build_installation_from_resolved(&entries[i]));
            i = i + 1;
        }
        out
    }
}

impl Locator for RVersions {
    fn get_kind(&self) -> (r: LocatorKind)
        ensures
            r == LocatorKind::RVersions,
    {
        LocatorKind::RVersions
    }

    /// The locator holds no state that a refresh changes.
    fn refresh_state(&self) -> (r: RefreshStatePersistence)
        ensures
            r == RefreshStatePersistence::Stateless,
    {
        RefreshStatePersistence::Stateless
    }

    fn supported_categories(&self) -> (r: Vec<RInstallationKind>)
        ensures
            r@ == seq![
                RInstallationKind::Conda,
                RInstallationKind::EnvironmentModule,
                RInstallationKind::Guix,
                RInstallationKind::Homebrew,
                RInstallationKind::LinuxGlobal,
                RInstallationKind::MacFramework,
                RInstallationKind::MacPorts,
                RInstallationKind::Nix,
                RInstallationKind::Pixi,
                RInstallationKind::Rig,
                RInstallationKind::Spack,
            ],
    {
        let mut v: Vec<RInstallationKind> = Vec::new();
        v.push(RInstallationKind::Conda);
        v.push(RInstallationKind::EnvironmentModule);
        v.push(RInstallationKind::Guix);
        v.push(RInstallationKind::Homebrew);
        v.push(RInstallationKind::LinuxGlobal);
        v.push(RInstallationKind::MacFramework);
        v.push(RInstallationKind::MacPorts);
        v.push(RInstallationKind::Nix);
        v.push(RInstallationKind::Pixi);
        v.push(RInstallationKind::Rig);
        v.push(RInstallationKind::Spack);
        v
    }
}

} // verus!
