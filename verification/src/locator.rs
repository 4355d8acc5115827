//! What the locators share: their kinds, the configuration they take, the
//! host they run on, and the shape of the installations they classify.

use vstd::prelude::*;
use crate::arch::{arch_marker, Architecture};
use crate::text::unicode_lowercase;
use crate::manager::{EnvManager, clone_opt_string};
use crate::path::{contains_path, starts_with, path_starts_with, views};
use crate::r_installation::{
    built_paths, built_sources, clone_opt_strings, opt_seq, infer_orthogonal_spec, infer_script_path_spec,
    opt_view, opt_views, LocatorMetadata, RInstallation, RInstallationBuilder, RInstallationKind,
};

verus! {

/// The platform a locator runs on, as values rather than compile-time flags.
#[derive(Debug, Clone, Copy)]
pub struct Host {
    pub windows: bool,
    pub unix: bool,
    pub macos: bool,
    pub arch: Architecture,
}

#[derive(Debug, Clone, Copy, PartialEq, Eq, Structural, PartialOrd, Ord)]
pub enum LocatorKind {
    Chocolatey,
    Conda,
    EnvironmentModule,
    Guix,
    Homebrew,
    LinuxGlobal,
    MacFramework,
    MacPorts,
    Nix,
    Pixi,
    Rig,
    RVersions,
    Scoop,
    Spack,
    WindowsHq,
    WindowsRegistry,
}

/// How mutable locator state behaves across a transient refresh.
#[derive(Debug, Clone, Copy, PartialEq, Eq, Structural)]
pub enum RefreshStatePersistence {
    /// The locator has no mutable request state.
    Stateless,
    /// The locator stores configuration, which must come from the request snapshot.
    ConfiguredOnly,
    /// The locator has a cache that later requests can rebuild on demand.
    SelfHydratingCache,
    /// Later requests depend on state discovered by refresh.
    SyncedDiscoveryState,
}

/// Which part of the discovery state a refresh may replace.
#[derive(Debug, Clone, Copy, PartialEq, Eq, Structural)]
pub enum RefreshStateSyncScope {
    Full,
    GlobalFiltered(RInstallationKind),
    Workspace,
}

/// What every locator tells about itself: its kind, how its state behaves
/// across a refresh, and the kinds of installation it reports.
pub trait Locator {
    fn get_kind(&self) -> LocatorKind;

    fn refresh_state(&self) -> RefreshStatePersistence;

    fn supported_categories(&self) -> Vec<RInstallationKind>;
}

/// The managers and installations a locator found.
#[derive(Debug)]
pub struct LocatorResult {
    pub managers: Vec<EnvManager>,
    pub installations: Vec<RInstallation>,
}

/// What a client configures the locators with.
#[derive(Debug)]
pub struct Configuration {
    /// Project or workspace directories that should be searched for R installations.
    pub workspace_directories: Option<Vec<String>>,
    /// Additional global directories that may contain one or more R installations.
    pub environment_directories: Option<Vec<String>>,
    /// One-off explicit search directories, primarily used by CLI and refresh search paths.
    pub search_directories: Option<Vec<String>>,
    pub executables: Option<Vec<String>>,
    /// Optional cache directory for resolved R installation details.
    pub cache_directory: Option<String>,
    /// Optional path to the conda, mamba, or micromamba executable.
    pub conda_executable: Option<String>,
    /// Optional path to the `rig` executable.
    pub rig_executable: Option<String>,
}

impl Configuration {
    /// A configuration that sets nothing.
    pub fn empty() -> (r: Configuration)
        ensures
            r.workspace_directories is None,
            r.environment_directories is None,
            r.search_directories is None,
            r.executables is None,
            r.cache_directory is None,
            r.conda_executable is None,
            r.rig_executable is None,
    {
        Configuration {
            workspace_directories: None,
            environment_directories: None,
            search_directories: None,
            executables: None,
            cache_directory: None,
            conda_executable: None,
            rig_executable: None,
        }
    }

    pub fn copy(&self) -> (r: Configuration)
        ensures
            opt_seq(r.workspace_directories) == opt_seq(self.workspace_directories),
            opt_seq(r.environment_directories) == opt_seq(self.environment_directories),
            opt_seq(r.search_directories) == opt_seq(self.search_directories),
            opt_seq(r.executables) == opt_seq(self.executables),
            r.cache_directory == self.cache_directory,
            r.conda_executable == self.conda_executable,
            r.rig_executable == self.rig_executable,
    {
        Configuration {
            workspace_directories: clone_opt_strings(&self.workspace_directories),
            environment_directories: clone_opt_strings(&self.environment_directories),
            search_directories: clone_opt_strings(&self.search_directories),
            executables: clone_opt_strings(&self.executables),
            cache_directory: clone_opt_string(&self.cache_directory),
            conda_executable: clone_opt_string(&self.conda_executable),
            rig_executable: clone_opt_string(&self.rig_executable),
        }
    }
}

/// `path` lies under `root`, compared by whole components.
pub fn is_path_within(path: &str, root: &str) -> (r: bool)
    ensures
        r == path_starts_with(path@, root@),
{
    starts_with(path, root)
}

/// Whether some path of `paths` lies under `root`.
pub fn any_within(paths: &Vec<String>, root: &str) -> (r: bool)
    ensures
        r == (exists|k: int| 0 <= k < paths@.len() && path_starts_with(#[trigger] paths@[k]@, root@)),
{
    let mut i: usize = 0;
    while i < paths.len()
        invariant
            i <= paths.len(),
            forall|k: int| 0 <= k < i ==> !path_starts_with(#[trigger] paths@[k]@, root@),
        decreases paths.len() - i,
    {
        if is_path_within(paths[i].as_str(), root) {
            return true;
        }
        i = i + 1;
    }
    false
}

/// The architecture probed, else the one inferred from the executable path.
pub open spec fn arch_or_inferred(arch: Option<Architecture>, exe: Seq<char>, host: Architecture) -> Architecture {
    match arch {
        Some(a) => a,
        None => match arch_marker(unicode_lowercase(exe)) {
            Some(a) => a,
            None => host,
        },
    }
}

pub fn arch_or_infer(arch: Option<Architecture>, exe: &str, host: Architecture) -> (r: Architecture)
    ensures
        r == arch_or_inferred(arch, exe@, host),
{
    match arch {
        Some(a) => a,
        None => Architecture::infer_from_path(exe, host),
    }
}

/// The first of `candidates` that is among `present`.
pub open spec fn first_present(candidates: Seq<Seq<char>>, present: Seq<Seq<char>>) -> Option<Seq<char>>
    decreases candidates.len(),
{
    if candidates.len() == 0 {
        None
    } else if present.contains(candidates[0]) {
        Some(candidates[0])
    } else {
        first_present(candidates.drop_first(), present)
    }
}

/// Picks the first candidate that is among `present`.
pub fn pick_first_present(candidates: &Vec<String>, present: &Vec<String>) -> (r: Option<String>)
    ensures
        opt_view(r) == first_present(views(candidates@), views(present@)),
{
    let mut i: usize = 0;
    assert(views(candidates@).subrange(0, candidates@.len() as int) == views(candidates@));
    while i < candidates.len()
        invariant
            i <= candidates.len(),
            first_present(views(candidates@), views(present@)) == first_present(
                views(candidates@).subrange(i as int, candidates@.len() as int),
                views(present@),
            ),
        decreases candidates.len() - i,
    {
        let ghost rest = views(candidates@).subrange(i as int, candidates@.len() as int);
        assert(rest.drop_first() == views(candidates@).subrange(i + 1, candidates@.len() as int));
        assert(rest[0] == candidates@[i as int]@);
        if contains_path(present, candidates[i].as_str()) {
            return Some(candidates[i].clone());
        }
        i = i + 1;
    }
    None
}

/// What a locator reports for an installation it recognizes: the given
/// fields, with the rest completed as `RInstallationBuilder::build` does.
pub open spec fn classified(
    i: RInstallation,
    kind: RInstallationKind,
    display_name: Option<Seq<char>>,
    name: Option<Seq<char>>,
    executable: String,
    home: Option<String>,
    version: Option<String>,
    arch: Option<Architecture>,
    manager: Option<EnvManager>,
    known: Option<Seq<Seq<char>>>,
    symlinks: Option<Seq<Seq<char>>>,
    metadata: Option<LocatorMetadata>,
    startup_command: Option<Seq<char>>,
    windows: bool,
) -> bool {
    let known_in = match known {
        Some(k) => k,
        None => Seq::empty(),
    };
    &&& opt_view(i.display_name) == display_name
    &&& opt_view(i.name) == name
    &&& i.executable == Some(executable)
    &&& i.kind == Some(kind)
    &&& i.version == version
    &&& i.home == home
    &&& i.manager == manager
    &&& i.arch == arch
    &&& built_paths(i.known_executables, known_in + seq![executable@])
    &&& built_paths(
        i.symlinks,
        match symlinks {
            Some(s) => s,
            None => Seq::empty(),
        },
    )
    &&& i.discovered_by@ == built_sources(Some(kind), Seq::empty())
    &&& i.locator_metadata == metadata
    &&& i.rversions_overlay is None
    &&& opt_view(i.script_path) == infer_script_path_spec(
        Some(executable@),
        opt_view(home),
        arch,
        windows,
    )
    &&& opt_view(i.startup_command) == startup_command
    &&& i.environment_variables is None
    &&& i.orthogonal == infer_orthogonal_spec(opt_view(home))
    &&& i.error is None
}

/// Builds the installation a locator reports, as `classified` states.
pub fn classify(
    kind: RInstallationKind,
    display_name: Option<String>,
    name: Option<String>,
    executable: String,
    home: Option<String>,
    version: Option<String>,
    arch: Option<Architecture>,
    manager: Option<EnvManager>,
    known: Option<Vec<String>>,
    symlinks: Option<Vec<String>>,
    metadata: Option<LocatorMetadata>,
    startup_command: Option<String>,
    windows: bool,
) -> (r: RInstallation)
    ensures
        classified(
            r,
            kind,
            opt_view(display_name),
            opt_view(name),
            executable,
            home,
            version,
            arch,
            manager,
            match known {
                Some(k) => Some(views(k@)),
                None => None,
            },
            match symlinks {
                Some(s) => Some(views(s@)),
                None => None,
            },
            metadata,
            opt_view(startup_command),
            windows,
        ),
{
    let ghost known_v = known;
    let ghost symlinks_v = symlinks;
    let ghost exe = executable;
    let b = RInstallationBuilder::new(Some(kind)).windows_layout(windows).display_name(
        display_name,
    ).name(name).executable(Some(executable)).home(home).version(version).arch(arch).manager(
        manager,
    ).known_executables(known).symlinks(symlinks).locator_metadata(metadata).startup_command(
        startup_command,
    );
    let ghost d = b.draft();
    let r = b.build();
    proof {
        crate::r_installation::lemma_normalized_paths_views(d.known_executables, known_v);
        crate::r_installation::lemma_normalized_paths_views(d.symlinks, symlinks_v);
        assert(d.discovered_by@ == Seq::<crate::r_installation::DiscoverySource>::empty());
        let kin = match known_v {
            Some(k) => views(k@),
            None => Seq::empty(),
        };
        crate::r_installation::lemma_built_paths_transfer(
            r.known_executables,
            opt_views(d.known_executables),
            kin,
            seq![exe@],
        );
        let sin = match symlinks_v {
            Some(s) => views(s@),
            None => Seq::empty(),
        };
        crate::r_installation::lemma_built_paths_transfer(
            r.symlinks,
            opt_views(d.symlinks),
            sin,
            Seq::empty(),
        );
        assert(opt_views(d.symlinks) + Seq::<Seq<char>>::empty() == opt_views(d.symlinks));
        assert(sin + Seq::<Seq<char>>::empty() == sin);
    }
    r
}

} // verus!
