//! The description of one R installation and the builder that assembles it.

use vstd::prelude::*;
use crate::arch::Architecture;
use crate::manager::{clone_opt_manager, clone_opt_string, EnvManager};
use crate::path::{
    file_name, file_name_spec, is_sorted_set_of, join, join_spec, lemma_empty_iff,
    lemma_sorted_set_transfer, lemma_sorted_set_unique, parent, parent_spec, sort_dedup_paths, views,
};
use crate::text::{ascii_lower, ascii_lower_chars, chars_eq, chars_of, contains_chars, contains_seq};

verus! {

#[derive(Debug, Clone, Copy, PartialEq, Eq, Structural, Hash, PartialOrd, Ord)]
pub enum RInstallationKind {
    Chocolatey,
    Conda,
    EnvironmentModule,
    Guix,
    Homebrew,
    LinuxGlobal,
    MacFramework,
    MacPorts,
    Nix,
    Pixi,
    Rig,
    Scoop,
    Spack,
    WindowsHq,
    WindowsRegistry,
    GlobalPaths,
}

/// How an installation was found, in declaration order.
#[derive(Debug, Clone, Copy, PartialEq, Eq, Structural, Hash, PartialOrd, Ord)]
pub enum DiscoverySource {
    Locator,
    GlobalPaths,
    ExplicitSearch,
    RVersions,
}

#[derive(Debug, Clone, PartialEq, Eq)]
pub enum LocatorMetadata {
    Conda { environment_path: String },
    Pixi { environment_path: String, manifest_path: Option<String>, environment_name: Option<String> },
    Module { module_name: String, startup_command: String },
}

pub open spec fn metadata_priority(m: LocatorMetadata) -> u8 {
    match m {
        LocatorMetadata::Pixi { .. } => 3,
        LocatorMetadata::Conda { .. } => 2,
        LocatorMetadata::Module { .. } => 1,
    }
}

impl LocatorMetadata {
    pub fn priority(&self) -> (r: u8)
        ensures
            r == metadata_priority(*self),
    {
        match self {
            LocatorMetadata::Pixi { .. } => 3,
            LocatorMetadata::Conda { .. } => 2,
            LocatorMetadata::Module { .. } => 1,
        }
    }

    pub fn copy(&self) -> (r: LocatorMetadata)
        ensures
            r == *self,
    {
        match self {
            LocatorMetadata::Conda { environment_path } => LocatorMetadata::Conda {
                environment_path: environment_path.clone(),
            },
            LocatorMetadata::Pixi { environment_path, manifest_path, environment_name } =>
                LocatorMetadata::Pixi {
                environment_path: environment_path.clone(),
                manifest_path: clone_opt_string(manifest_path),
                environment_name: clone_opt_string(environment_name),
            },
            LocatorMetadata::Module { module_name, startup_command } => LocatorMetadata::Module {
                module_name: module_name.clone(),
                startup_command: startup_command.clone(),
            },
        }
    }
}

pub fn clone_opt_metadata(m: &Option<LocatorMetadata>) -> (r: Option<LocatorMetadata>)
    ensures
        r == *m,
{
    match m {
        Some(v) => Some(v.copy()),
        None => None,
    }
}

#[derive(Debug, Clone, PartialEq, Eq, Default)]
pub struct RVersionsOverlay {
    pub label: Option<String>,
    pub script: Option<String>,
    pub repo: Option<String>,
    pub library: Option<String>,
    pub module: Option<String>,
    pub module_startup_command: Option<String>,
}

impl RVersionsOverlay {
    pub fn copy(&self) -> (r: RVersionsOverlay)
        ensures
            r == *self,
    {
        RVersionsOverlay {
            label: clone_opt_string(&self.label),
            script: clone_opt_string(&self.script),
            repo: clone_opt_string(&self.repo),
            library: clone_opt_string(&self.library),
            module: clone_opt_string(&self.module),
            module_startup_command: clone_opt_string(&self.module_startup_command),
        }
    }
}

pub fn clone_opt_overlay(m: &Option<RVersionsOverlay>) -> (r: Option<RVersionsOverlay>)
    ensures
        r == *m,
{
    match m {
        Some(v) => Some(v.copy()),
        None => None,
    }
}

/// Environment variables as name/value pairs.
pub type EnvVars = Vec<(String, String)>;

#[derive(Debug, Clone, PartialEq, Eq, Default)]
pub struct RInstallation {
    pub display_name: Option<String>,
    pub name: Option<String>,
    pub executable: Option<String>,
    pub kind: Option<RInstallationKind>,
    pub version: Option<String>,
    pub home: Option<String>,
    pub manager: Option<EnvManager>,
    pub arch: Option<Architecture>,
    pub known_executables: Option<Vec<String>>,
    pub symlinks: Option<Vec<String>>,
    pub discovered_by: Vec<DiscoverySource>,
    pub locator_metadata: Option<LocatorMetadata>,
    pub rversions_overlay: Option<RVersionsOverlay>,
    pub script_path: Option<String>,
    pub startup_command: Option<String>,
    pub environment_variables: Option<EnvVars>,
    pub orthogonal: Option<bool>,
    pub error: Option<String>,
}

pub fn clone_strings(v: &Vec<String>) -> (r: Vec<String>)
    ensures
        r@ == v@,
{
    let mut r: Vec<String> = Vec::new();
    let mut i: usize = 0;
    while i < v.len()
        invariant
            i <= v.len(),
            r@ == v@.subrange(0, i as int),
        decreases v.len() - i,
    {
        r.push(v[i].clone());
        i = i + 1;
    }
    assert(r@ == v@);
    r
}

/// The contents of an optional vector.
pub open spec fn opt_seq<T>(v: Option<Vec<T>>) -> Option<Seq<T>> {
    match v {
        Some(x) => Some(x@),
        None => None,
    }
}

pub fn clone_opt_strings(v: &Option<Vec<String>>) -> (r: Option<Vec<String>>)
    ensures
        opt_seq(r) == opt_seq(*v),
{
    match v {
        Some(x) => Some(clone_strings(x)),
        None => None,
    }
}

pub fn clone_env_vars(v: &EnvVars) -> (r: EnvVars)
    ensures
        r@ == v@,
{
    let mut r: EnvVars = Vec::new();
    let mut i: usize = 0;
    while i < v.len()
        invariant
            i <= v.len(),
            r@ == v@.subrange(0, i as int),
        decreases v.len() - i,
    {
        r.push((v[i].0.clone(), v[i].1.clone()));
        i = i + 1;
    }
    assert(r@ == v@);
    r
}

pub fn clone_opt_env_vars(v: &Option<EnvVars>) -> (r: Option<EnvVars>)
    ensures
        opt_seq(r) == opt_seq(*v),
{
    match v {
        Some(x) => Some(clone_env_vars(x)),
        None => None,
    }
}

/// Two installations with the same field values (vectors by contents).
pub open spec fn same_installation(a: RInstallation, b: RInstallation) -> bool {
    &&& a.display_name == b.display_name
    &&& a.name == b.name
    &&& a.executable == b.executable
    &&& a.kind == b.kind
    &&& a.version == b.version
    &&& a.home == b.home
    &&& a.manager == b.manager
    &&& a.arch == b.arch
    &&& opt_seq(a.known_executables) == opt_seq(b.known_executables)
    &&& opt_seq(a.symlinks) == opt_seq(b.symlinks)
    &&& a.discovered_by@ == b.discovered_by@
    &&& a.locator_metadata == b.locator_metadata
    &&& a.rversions_overlay == b.rversions_overlay
    &&& a.script_path == b.script_path
    &&& a.startup_command == b.startup_command
    &&& opt_seq(a.environment_variables) == opt_seq(b.environment_variables)
    &&& a.orthogonal == b.orthogonal
    &&& a.error == b.error
}

pub fn clone_sources(v: &Vec<DiscoverySource>) -> (r: Vec<DiscoverySource>)
    ensures
        r@ == v@,
{
    let mut r: Vec<DiscoverySource> = Vec::new();
    let mut i: usize = 0;
    while i < v.len()
        invariant
            i <= v.len(),
            r@ == v@.subrange(0, i as int),
        decreases v.len() - i,
    {
        r.push(v[i]);
        i = i + 1;
    }
    assert(r@ == v@);
    r
}

impl RInstallation {
    pub fn copy(&self) -> (r: RInstallation)
        ensures
            same_installation(r, *self),
    {
        let kb = clone_sources(&self.discovered_by);
        RInstallation {
            display_name: clone_opt_string(&self.display_name),
            name: clone_opt_string(&self.name),
            executable: clone_opt_string(&self.executable),
            kind: self.kind,
            version: clone_opt_string(&self.version),
            home: clone_opt_string(&self.home),
            manager: clone_opt_manager(&self.manager),
            arch: self.arch,
            known_executables: clone_opt_strings(&self.known_executables),
            symlinks: clone_opt_strings(&self.symlinks),
            discovered_by: kb,
            locator_metadata: clone_opt_metadata(&self.locator_metadata),
            rversions_overlay: clone_opt_overlay(&self.rversions_overlay),
            script_path: clone_opt_string(&self.script_path),
            startup_command: clone_opt_string(&self.startup_command),
            environment_variables: clone_opt_env_vars(&self.environment_variables),
            orthogonal: self.orthogonal,
            error: clone_opt_string(&self.error),
        }
    }

    /// Key for deduplicating installations: the executable, else the home.
    pub fn get_environment_key(&self) -> (r: Option<String>)
        ensures
            r == (if self.executable.is_some() {
                self.executable
            } else {
                self.home
            }),
    {
        match &self.executable {
            Some(exe) => Some(exe.clone()),
            None => clone_opt_string(&self.home),
        }
    }
}

/// The sources that occur in `s`, each once, in declaration order.
pub open spec fn normalize_sources(s: Seq<DiscoverySource>) -> Seq<DiscoverySource> {
    (if s.contains(DiscoverySource::Locator) {
        seq![DiscoverySource::Locator]
    } else {
        Seq::empty()
    }) + (if s.contains(DiscoverySource::GlobalPaths) {
        seq![DiscoverySource::GlobalPaths]
    } else {
        Seq::empty()
    }) + (if s.contains(DiscoverySource::ExplicitSearch) {
        seq![DiscoverySource::ExplicitSearch]
    } else {
        Seq::empty()
    }) + (if s.contains(DiscoverySource::RVersions) {
        seq![DiscoverySource::RVersions]
    } else {
        Seq::empty()
    })
}

fn contains_source(v: &Vec<DiscoverySource>, d: DiscoverySource) -> (r: bool)
    ensures
        r == v@.contains(d),
{
    let mut i: usize = 0;
    while i < v.len()
        invariant
            i <= v.len(),
            forall|k: int| 0 <= k < i ==> v@[k] != d,
        decreases v.len() - i,
    {
        if v[i] == d {
            return true;
        }
        i = i + 1;
    }
    false
}

/// Sorts the sources in declaration order and removes duplicates.
pub fn normalize_sources_exec(v: &Vec<DiscoverySource>) -> (r: Vec<DiscoverySource>)
    ensures
        r@ == normalize_sources(v@),
{
    let mut r: Vec<DiscoverySource> = Vec::new();
    if contains_source(v, DiscoverySource::Locator) {
        r.push(DiscoverySource::Locator);
    }
    if contains_source(v, DiscoverySource::GlobalPaths) {
        r.push(DiscoverySource::GlobalPaths);
    }
    if contains_source(v, DiscoverySource::ExplicitSearch) {
        r.push(DiscoverySource::ExplicitSearch);
    }
    if contains_source(v, DiscoverySource::RVersions) {
        r.push(DiscoverySource::RVersions);
    }
    assert(r@ =~= normalize_sources(v@));
    r
}

/// Views of an optional list of paths.
pub open spec fn opt_views(v: Option<Vec<String>>) -> Seq<Seq<char>> {
    match v {
        Some(x) => views(x@),
        None => Seq::empty(),
    }
}

/// An optional path list after sorting and deduplication.
pub open spec fn normalized_opt_paths(out: Option<Vec<String>>, input: Option<Vec<String>>) -> bool {
    match input {
        None => out is None,
        Some(v) => out matches Some(w) && is_sorted_set_of(views(w@), views(v@)),
    }
}

pub fn normalize_opt_paths(input: Option<Vec<String>>) -> (r: Option<Vec<String>>)
    ensures
        normalized_opt_paths(r, input),
{
    match input {
        Some(v) => Some(sort_dedup_paths(v)),
        None => None,
    }
}

/// Script path next to the home directory.
pub open spec fn home_script_spec(
    home: Option<Seq<char>>,
    arch: Option<Architecture>,
    windows: bool,
) -> Option<Seq<char>> {
    match home {
        None => None,
        Some(h) => if windows {
            let base = join_spec(h, "bin"@);
            let base = if arch == Some(Architecture::X64) {
                join_spec(base, "x64"@)
            } else {
                base
            };
            Some(join_spec(base, "Rscript.exe"@))
        } else {
            Some(join_spec(join_spec(h, "bin"@), "Rscript"@))
        },
    }
}

/// The `Rscript` entrypoint that belongs to an installation.
pub open spec fn infer_script_path_spec(
    exe: Option<Seq<char>>,
    home: Option<Seq<char>>,
    arch: Option<Architecture>,
    windows: bool,
) -> Option<Seq<char>> {
    match exe {
        Some(e) => match file_name_spec(e) {
            None => None,
            Some(f) => {
                let l = ascii_lower(f);
                if l == "rscript"@ || l == "rscript.exe"@ {
                    Some(e)
                } else if l == "r"@ {
                    Some(join_spec(parent_spec(e).unwrap(), "Rscript"@))
                } else if l == "r.exe"@ {
                    Some(join_spec(parent_spec(e).unwrap(), "Rscript.exe"@))
                } else {
                    home_script_spec(home, arch, windows)
                }
            },
        },
        None => home_script_spec(home, arch, windows),
    }
}

/// Whether a framework home is one of the versioned (orthogonal) homes.
pub open spec fn infer_orthogonal_spec(home: Option<Seq<char>>) -> Option<bool> {
    match home {
        None => None,
        Some(h) => if contains_seq(h, "R.framework"@) {
            Some(contains_seq(h, "R.framework/Versions/"@))
        } else {
            None
        },
    }
}

pub open spec fn opt_view(s: Option<String>) -> Option<Seq<char>> {
    match s {
        Some(x) => Some(x@),
        None => None,
    }
}

fn eq_lit(a: &[char], lit: &str) -> (r: bool)
    ensures
        r == (a@ == lit@),
{
    let l = chars_of(lit);
    chars_eq(a, l.as_slice())
}

fn home_script(home: &Option<String>, arch: Option<Architecture>, windows: bool) -> (r: Option<
    String,
>)
    ensures
        opt_view(r) == home_script_spec(opt_view(*home), arch, windows),
{
    match home {
        None => None,
        Some(h) => {
            if windows {
                let mut base = join(h.as_str(), "bin");
                if arch == Some(Architecture::X64) {
                    base = join(base.as_str(), "x64");
                }
                Some(join(base.as_str(), "Rscript.exe"))
            } else {
                let base = join(h.as_str(), "bin");
                Some(join(base.as_str(), "Rscript"))
            }
        },
    }
}

proof fn lemma_file_name_has_parent(p: Seq<char>)
    ensures
        file_name_spec(p) is Some ==> parent_spec(p) is Some,
{
}

pub fn infer_script_path(
    executable: &Option<String>,
    home: &Option<String>,
    arch: Option<Architecture>,
    windows: bool,
) -> (r: Option<String>)
    ensures
        opt_view(r) == infer_script_path_spec(opt_view(*executable), opt_view(*home), arch, windows),
{
    match executable {
        Some(exe) => {
            let f = match file_name(exe.as_str()) {
                Some(f) => f,
                None => return None,
            };
            let fv = chars_of(f.as_str());
            let l = ascii_lower_chars(fv.as_slice());
            let ls = l.as_slice();
            proof {
                lemma_file_name_has_parent(exe@);
            }
            if eq_lit(ls, "rscript") || eq_lit(ls, "rscript.exe") {
                return Some(exe.clone());
            }
            if eq_lit(ls, "r") {
                let p = parent(exe.as_str()).unwrap();
                return Some(join(p.as_str(), "Rscript"));
            }
            if eq_lit(ls, "r.exe") {
                let p = parent(exe.as_str()).unwrap();
                return Some(join(p.as_str(), "Rscript.exe"));
            }
            home_script(home, arch, windows)
        },
        None => home_script(home, arch, windows),
    }
}

pub fn infer_orthogonal(home: &Option<String>) -> (r: Option<bool>)
    ensures
        r == infer_orthogonal_spec(opt_view(*home)),
{
    match home {
        None => None,
        Some(h) => {
            let hv = chars_of(h.as_str());
            let fw = chars_of("R.framework");
            if contains_chars(hv.as_slice(), fw.as_slice()) {
                let ver = chars_of("R.framework/Versions/");
                Some(contains_chars(hv.as_slice(), ver.as_slice()))
            } else {
                None
            }
        },
    }
}

/// The sources after adding `source`: unchanged when it is there already,
/// else with it added, sorted and deduplicated.
pub open spec fn with_source(s: Seq<DiscoverySource>, source: DiscoverySource) -> Seq<DiscoverySource> {
    if s.contains(source) {
        s
    } else {
        normalize_sources(s.push(source))
    }
}

/// Discovery sources after `build`: the locator is implied for locator kinds.
pub open spec fn built_sources(kind: Option<RInstallationKind>, s: Seq<DiscoverySource>) -> Seq<
    DiscoverySource,
> {
    if s.len() == 0 && kind != Some(RInstallationKind::GlobalPaths) && kind.is_some() {
        seq![DiscoverySource::Locator]
    } else {
        normalize_sources(s)
    }
}

/// A path list made from an optional list and an optional extra entry,
/// normalized, and absent when empty.
pub open spec fn built_paths(out: Option<Vec<String>>, input: Seq<Seq<char>>) -> bool {
    if input.len() == 0 {
        out is None
    } else {
        out matches Some(w) && is_sorted_set_of(views(w@), input)
    }
}

pub proof fn lemma_normalized_paths_views(out: Option<Vec<String>>, input: Option<Vec<String>>)
    requires
        normalized_opt_paths(out, input),
    ensures
        is_sorted_set_of(opt_views(out), opt_views(input)),
        opt_views(out).len() == 0 <==> opt_views(input).len() == 0,
{
    match (out, input) {
        (Some(w), Some(v)) => lemma_empty_iff(views(w@), views(v@)),
        _ => {},
    }
}

pub proof fn lemma_built_paths_transfer(
    r: Option<Vec<String>>,
    w: Seq<Seq<char>>,
    input: Seq<Seq<char>>,
    extra: Seq<Seq<char>>,
)
    requires
        built_paths(r, w + extra),
        is_sorted_set_of(w, input),
    ensures
        built_paths(r, input + extra),
{
    lemma_empty_iff(w, input);
    match r {
        Some(o) => {
            if (w + extra).len() > 0 {
                lemma_sorted_set_transfer(w, input, views(o@), extra);
            }
        },
        None => {},
    }
}

/// What `build` makes of a draft.
pub open spec fn built_from(r: RInstallation, d: RInstallation, windows: bool) -> bool {
    &&& r.display_name == d.display_name
    &&& r.name == d.name
    &&& r.executable == d.executable
    &&& r.kind == d.kind
    &&& r.version == d.version
    &&& r.home == d.home
    &&& r.manager == d.manager
    &&& r.arch == d.arch
    &&& built_paths(
        r.known_executables,
        opt_views(d.known_executables) + (match d.executable {
            Some(e) => seq![e@],
            None => Seq::empty(),
        }),
    )
    &&& built_paths(r.symlinks, opt_views(d.symlinks))
    &&& r.discovered_by@ == built_sources(d.kind, d.discovered_by@)
    &&& r.locator_metadata == d.locator_metadata
    &&& r.rversions_overlay == d.rversions_overlay
    &&& opt_view(r.script_path) == (match d.script_path {
        Some(s) => Some(s@),
        None => infer_script_path_spec(opt_view(d.executable), opt_view(d.home), d.arch, windows),
    })
    &&& r.startup_command == d.startup_command
    &&& r.environment_variables == (match d.environment_variables {
        Some(v) => if v@.len() == 0 {
            None
        } else {
            Some(v)
        },
        None => None,
    })
    &&& r.orthogonal == (match d.orthogonal {
        Some(o) => Some(o),
        None => infer_orthogonal_spec(opt_view(d.home)),
    })
    &&& r.error == d.error
}

pub fn empty_installation(kind: Option<RInstallationKind>) -> (r: RInstallation)
    ensures
        r == (RInstallation {
            display_name: None,
            name: None,
            executable: None,
            kind: kind,
            version: None,
            home: None,
            manager: None,
            arch: None,
            known_executables: None,
            symlinks: None,
            discovered_by: r.discovered_by,
            locator_metadata: None,
            rversions_overlay: None,
            script_path: None,
            startup_command: None,
            environment_variables: None,
            orthogonal: None,
            error: None,
        }),
        r.discovered_by@.len() == 0,
{
    RInstallation {
        display_name: None,
        name: None,
        executable: None,
        kind,
        version: None,
        home: None,
        manager: None,
        arch: None,
        known_executables: None,
        symlinks: None,
        discovered_by: Vec::new(),
        locator_metadata: None,
        rversions_overlay: None,
        script_path: None,
        startup_command: None,
        environment_variables: None,
        orthogonal: None,
        error: None,
    }
}

/// Assembles an `RInstallation` field by field.
#[derive(Debug, Clone)]
pub struct RInstallationBuilder {
    fields: RInstallation,
    windows: bool,
}

impl RInstallationBuilder {
    /// The fields set so far.
    pub closed spec fn draft(&self) -> RInstallation {
        self.fields
    }

    /// Whether Windows layouts are used to infer the script path.
    pub closed spec fn uses_windows_layout(&self) -> bool {
        self.windows
    }

    pub fn new(kind: Option<RInstallationKind>) -> (r: Self)
        ensures
            r.draft().kind == kind,
            r.draft().display_name is None,
            r.draft().name is None,
            r.draft().executable is None,
            r.draft().version is None,
            r.draft().home is None,
            r.draft().manager is None,
            r.draft().arch is None,
            r.draft().known_executables is None,
            r.draft().symlinks is None,
            r.draft().discovered_by@.len() == 0,
            r.draft().locator_metadata is None,
            r.draft().rversions_overlay is None,
            r.draft().script_path is None,
            r.draft().startup_command is None,
            r.draft().environment_variables is None,
            r.draft().orthogonal is None,
            r.draft().error is None,
            !r.uses_windows_layout(),
    {
        RInstallationBuilder { fields: empty_installation(kind), windows: false }
    }

    /// Starts from an existing installation.
    pub fn from_installation(installation: RInstallation) -> (r: Self)
        ensures
            r.draft() == installation,
            !r.uses_windows_layout(),
    {
        RInstallationBuilder { fields: installation, windows: false }
    }

    /// Infer the script path with Windows layouts.
    pub fn windows_layout(self, windows: bool) -> (r: Self)
        ensures
            r.draft() == self.draft(),
            r.uses_windows_layout() == windows,
    {
        RInstallationBuilder { fields: self.fields, windows }
    }

    pub fn display_name(self, display_name: Option<String>) -> (r: Self)
        ensures
            r.draft() == (RInstallation { display_name, ..self.draft() }),
            r.uses_windows_layout() == self.uses_windows_layout(),
    {
        let mut s = self;
        s.fields.display_name = display_name;
        s
    }

    pub fn name(self, name: Option<String>) -> (r: Self)
        ensures
            r.draft() == (RInstallation { name, ..self.draft() }),
            r.uses_windows_layout() == self.uses_windows_layout(),
    {
        let mut s = self;
        s.fields.name = name;
        s
    }

    pub fn executable(self, executable: Option<String>) -> (r: Self)
        ensures
            r.draft() == (RInstallation { executable, ..self.draft() }),
            r.uses_windows_layout() == self.uses_windows_layout(),
    {
        let mut s = self;
        s.fields.executable = executable;
        s
    }

    pub fn kind(self, kind: Option<RInstallationKind>) -> (r: Self)
        ensures
            r.draft() == (RInstallation { kind, ..self.draft() }),
            r.uses_windows_layout() == self.uses_windows_layout(),
    {
        let mut s = self;
        s.fields.kind = kind;
        s
    }

    pub fn version(self, version: Option<String>) -> (r: Self)
        ensures
            r.draft() == (RInstallation { version, ..self.draft() }),
            r.uses_windows_layout() == self.uses_windows_layout(),
    {
        let mut s = self;
        s.fields.version = version;
        s
    }

    pub fn home(self, home: Option<String>) -> (r: Self)
        ensures
            r.draft() == (RInstallation { home, ..self.draft() }),
            r.uses_windows_layout() == self.uses_windows_layout(),
    {
        let mut s = self;
        s.fields.home = home;
        s
    }

    pub fn manager(self, manager: Option<EnvManager>) -> (r: Self)
        ensures
            r.draft() == (RInstallation { manager, ..self.draft() }),
            r.uses_windows_layout() == self.uses_windows_layout(),
    {
        let mut s = self;
        s.fields.manager = manager;
        s
    }

    pub fn arch(self, arch: Option<Architecture>) -> (r: Self)
        ensures
            r.draft() == (RInstallation { arch, ..self.draft() }),
            r.uses_windows_layout() == self.uses_windows_layout(),
    {
        let mut s = self;
        s.fields.arch = arch;
        s
    }

    /// Sets the known executables, sorted and deduplicated.
    pub fn known_executables(self, known_executables: Option<Vec<String>>) -> (r: Self)
        ensures
            r.draft() == (RInstallation {
                known_executables: r.draft().known_executables,
                ..self.draft()
            }),
            normalized_opt_paths(r.draft().known_executables, known_executables),
            r.uses_windows_layout() == self.uses_windows_layout(),
    {
        let mut s = self;
        s.fields.known_executables = normalize_opt_paths(known_executables);
        s
    }

    /// Sets the symlinks, sorted and deduplicated.
    pub fn symlinks(self, symlinks: Option<Vec<String>>) -> (r: Self)
        ensures
            r.draft() == (RInstallation { symlinks: r.draft().symlinks, ..self.draft() }),
            normalized_opt_paths(r.draft().symlinks, symlinks),
            r.uses_windows_layout() == self.uses_windows_layout(),
    {
        let mut s = self;
        s.fields.symlinks = normalize_opt_paths(symlinks);
        s
    }

    /// Sets the discovery sources, sorted and deduplicated.
    pub fn discovered_by(self, discovered_by: Vec<DiscoverySource>) -> (r: Self)
        ensures
            r.draft() == (RInstallation { discovered_by: r.draft().discovered_by, ..self.draft() }),
            r.draft().discovered_by@ == normalize_sources(discovered_by@),
            r.uses_windows_layout() == self.uses_windows_layout(),
    {
        let mut s = self;
        s.fields.discovered_by = normalize_sources_exec(&discovered_by);
        s
    }

    /// Adds a discovery source, keeping the sources sorted and deduplicated.
    pub fn add_discovery_source(self, source: DiscoverySource) -> (r: Self)
        ensures
            r.draft() == (RInstallation { discovered_by: r.draft().discovered_by, ..self.draft() }),
            r.draft().discovered_by@ == with_source(self.draft().discovered_by@, source),
            r.uses_windows_layout() == self.uses_windows_layout(),
    {
        let mut s = self;
        if !contains_source(&s.fields.discovered_by, source) {
            let mut v = clone_sources(&s.fields.discovered_by);
            v.push(source);
            s.fields.discovered_by = normalize_sources_exec(&v);
        }
        s
    }

    pub fn locator_metadata(self, locator_metadata: Option<LocatorMetadata>) -> (r: Self)
        ensures
            r.draft() == (RInstallation { locator_metadata, ..self.draft() }),
            r.uses_windows_layout() == self.uses_windows_layout(),
    {
        let mut s = self;
        s.fields.locator_metadata = locator_metadata;
        s
    }

    pub fn rversions_overlay(self, rversions_overlay: Option<RVersionsOverlay>) -> (r: Self)
        ensures
            r.draft() == (RInstallation { rversions_overlay, ..self.draft() }),
            r.uses_windows_layout() == self.uses_windows_layout(),
    {
        let mut s = self;
        s.fields.rversions_overlay = rversions_overlay;
        s
    }

    pub fn script_path(self, script_path: Option<String>) -> (r: Self)
        ensures
            r.draft() == (RInstallation { script_path, ..self.draft() }),
            r.uses_windows_layout() == self.uses_windows_layout(),
    {
        let mut s = self;
        s.fields.script_path = script_path;
        s
    }

    pub fn startup_command(self, startup_command: Option<String>) -> (r: Self)
        ensures
            r.draft() == (RInstallation { startup_command, ..self.draft() }),
            r.uses_windows_layout() == self.uses_windows_layout(),
    {
        let mut s = self;
        s.fields.startup_command = startup_command;
        s
    }

    pub fn environment_variables(self, environment_variables: Option<EnvVars>) -> (r: Self)
        ensures
            r.draft() == (RInstallation { environment_variables, ..self.draft() }),
            r.uses_windows_layout() == self.uses_windows_layout(),
    {
        let mut s = self;
        s.fields.environment_variables = environment_variables;
        s
    }

    pub fn orthogonal(self, orthogonal: Option<bool>) -> (r: Self)
        ensures
            r.draft() == (RInstallation { orthogonal, ..self.draft() }),
            r.uses_windows_layout() == self.uses_windows_layout(),
    {
        let mut s = self;
        s.fields.orthogonal = orthogonal;
        s
    }

    pub fn error(self, error: Option<String>) -> (r: Self)
        ensures
            r.draft() == (RInstallation { error, ..self.draft() }),
            r.uses_windows_layout() == self.uses_windows_layout(),
    {
        let mut s = self;
        s.fields.error = error;
        s
    }

    /// Completes the installation: the executable joins the known
    /// executables, path lists are sorted and deduplicated and dropped when
    /// empty, the script path and the orthogonal flag are inferred when unset,
    /// an empty variable list is dropped, and locator kinds are marked as
    /// discovered by their locator.
    pub fn build(self) -> (r: RInstallation)
        ensures
            built_from(r, self.draft(), self.uses_windows_layout()),
    {
        let d = self.fields;
        let windows = self.windows;
        let mut symlink_input: Vec<String> = match &d.symlinks {
            Some(v) => clone_strings(v),
            None => Vec::new(),
        };
        let symlinks = sort_dedup_paths(symlink_input);
        let mut known_input: Vec<String> = match &d.known_executables {
            Some(v) => clone_strings(v),
            None => Vec::new(),
        };
        if let Some(exe) = &d.executable {
            known_input.push(exe.clone());
        }
        proof {
            assert(views(known_input@) =~= opt_views(d.known_executables) + (match d.executable {
                Some(e) => seq![e@],
                None => Seq::empty(),
            }));
            assert(views(symlink_input@) =~= opt_views(d.symlinks));
        }
        let known = sort_dedup_paths(known_input);
        let script_path = match &d.script_path {
            Some(s) => Some(s.clone()),
            None => infer_script_path(&d.executable, &d.home, d.arch, windows),
        };
        let orthogonal = match d.orthogonal {
            Some(o) => Some(o),
            None => infer_orthogonal(&d.home),
        };
        let environment_variables = match d.environment_variables {
            Some(v) => if v.len() == 0 {
                None
            } else {
                Some(v)
            },
            None => None,
        };
        let discovered_by = if d.discovered_by.len() == 0 && d.kind != Some(
            RInstallationKind::GlobalPaths,
        ) && d.kind.is_some() {
            let mut v: Vec<DiscoverySource> = Vec::new();
            v.push(DiscoverySource::Locator);
            v
        } else {
            normalize_sources_exec(&d.discovered_by)
        };
        proof {
            if views(known@).len() == 0 {
                assert(views(known_input@).len() == 0) by {
                    if views(known_input@).len() > 0 {
                        assert(views(known_input@).contains(views(known_input@)[0]));
                    }
                }
            } else {
                assert(views(known_input@).len() > 0) by {
                    assert(views(known@).contains(views(known@)[0]));
                }
            }
            if views(symlinks@).len() == 0 {
                assert(views(symlink_input@).len() == 0) by {
                    if views(symlink_input@).len() > 0 {
                        assert(views(symlink_input@).contains(views(symlink_input@)[0]));
                    }
                }
            } else {
                assert(views(symlink_input@).len() > 0) by {
                    assert(views(symlinks@).contains(views(symlinks@)[0]));
                }
            }
        }
        RInstallation {
            display_name: d.display_name,
            name: d.name,
            executable: d.executable,
            kind: d.kind,
            version: d.version,
            home: d.home,
            manager: d.manager,
            arch: d.arch,
            known_executables: if known.len() == 0 {
                None
            } else {
                Some(known)
            },
            symlinks: if symlinks.len() == 0 {
                None
            } else {
                Some(symlinks)
            },
            discovered_by,
            locator_metadata: d.locator_metadata,
            rversions_overlay: d.rversions_overlay,
            script_path,
            startup_command: d.startup_command,
            environment_variables,
            orthogonal,
            error: d.error,
        }
    }
}

} // verus!

verus! {

/// An optional path list by the text of its entries.
pub open spec fn paths_text(v: Option<Vec<String>>) -> Option<Seq<Seq<char>>> {
    match v {
        Some(x) => Some(views(x@)),
        None => None,
    }
}

/// Two installations that agree field by field, the path lists and the
/// script path by their text.
pub open spec fn same_by_text(a: RInstallation, b: RInstallation) -> bool {
    &&& a.display_name == b.display_name
    &&& a.name == b.name
    &&& a.executable == b.executable
    &&& a.kind == b.kind
    &&& a.version == b.version
    &&& a.home == b.home
    &&& a.manager == b.manager
    &&& a.arch == b.arch
    &&& paths_text(a.known_executables) == paths_text(b.known_executables)
    &&& paths_text(a.symlinks) == paths_text(b.symlinks)
    &&& a.discovered_by@ == b.discovered_by@
    &&& a.locator_metadata == b.locator_metadata
    &&& a.rversions_overlay == b.rversions_overlay
    &&& opt_view(a.script_path) == opt_view(b.script_path)
    &&& a.startup_command == b.startup_command
    &&& a.environment_variables == b.environment_variables
    &&& a.orthogonal == b.orthogonal
    &&& a.error == b.error
}

/// The position of a source in declaration order.
pub open spec fn source_rank(d: DiscoverySource) -> int {
    match d {
        DiscoverySource::Locator => 0,
        DiscoverySource::GlobalPaths => 1,
        DiscoverySource::ExplicitSearch => 2,
        DiscoverySource::RVersions => 3,
    }
}

/// Strictly increasing in declaration order (hence free of duplicates).
pub open spec fn sources_ordered(s: Seq<DiscoverySource>) -> bool {
    forall|i: int, j: int| 0 <= i < j < s.len() ==> source_rank(#[trigger] s[i]) < source_rank(#[trigger] s[j])
}

pub proof fn lemma_normalize_sources(s: Seq<DiscoverySource>)
    ensures
        forall|x: DiscoverySource| normalize_sources(s).contains(x) <==> s.contains(x),
        sources_ordered(normalize_sources(s)),
        normalize_sources(s).len() == 0 <==> s.len() == 0,
{
    let n = normalize_sources(s);
    let l = DiscoverySource::Locator;
    let g = DiscoverySource::GlobalPaths;
    let e = DiscoverySource::ExplicitSearch;
    let v = DiscoverySource::RVersions;
    let p1: Seq<DiscoverySource> = if s.contains(l) { seq![l] } else { Seq::empty() };
    let p2: Seq<DiscoverySource> = if s.contains(g) { seq![g] } else { Seq::empty() };
    let p3: Seq<DiscoverySource> = if s.contains(e) { seq![e] } else { Seq::empty() };
    let p4: Seq<DiscoverySource> = if s.contains(v) { seq![v] } else { Seq::empty() };
    assert(n == p1 + p2 + p3 + p4);
    assert forall|x: DiscoverySource| n.contains(x) <==> s.contains(x) by {
        if s.contains(x) {
            match x {
                DiscoverySource::Locator => assert(n[0] == x),
                DiscoverySource::GlobalPaths => assert(n[p1.len() as int] == x),
                DiscoverySource::ExplicitSearch => assert(n[(p1.len() + p2.len()) as int] == x),
                DiscoverySource::RVersions => assert(n[(p1.len() + p2.len() + p3.len()) as int] == x),
            }
        }
        if n.contains(x) {
            let k = choose|k: int| 0 <= k < n.len() && n[k] == x;
            if k < p1.len() {
                assert(x == l);
            } else if k < p1.len() + p2.len() {
                assert(x == g);
            } else if k < p1.len() + p2.len() + p3.len() {
                assert(x == e);
            } else {
                assert(x == v);
            }
        }
    }
    assert forall|i: int, j: int| 0 <= i < j < n.len() implies source_rank(#[trigger] n[i]) < source_rank(
        #[trigger] n[j],
    ) by {
        let c1 = p1.len() as int;
        let c2 = c1 + p2.len();
        let c3 = c2 + p3.len();
        let rk = |k: int| if k < c1 { 0int } else if k < c2 { 1int } else if k < c3 { 2int } else { 3int };
        assert(source_rank(n[i]) == rk(i));
        assert(source_rank(n[j]) == rk(j));
    }
    if s.len() > 0 {
        assert(s.contains(s[0]));
        assert(n.contains(s[0]));
    }
}

pub proof fn lemma_normalize_idempotent(s: Seq<DiscoverySource>)
    ensures
        normalize_sources(normalize_sources(s)) == normalize_sources(s),
        normalize_sources(s).len() == 0 <==> s.len() == 0,
{
    lemma_normalize_sources(s);
    let n = normalize_sources(s);
    assert(n.contains(DiscoverySource::Locator) == s.contains(DiscoverySource::Locator));
    assert(n.contains(DiscoverySource::GlobalPaths) == s.contains(DiscoverySource::GlobalPaths));
    assert(n.contains(DiscoverySource::ExplicitSearch) == s.contains(DiscoverySource::ExplicitSearch));
    assert(n.contains(DiscoverySource::RVersions) == s.contains(DiscoverySource::RVersions));
}

proof fn lemma_built_paths_again(r1: Option<Vec<String>>, r2: Option<Vec<String>>, input: Seq<Seq<char>>, extra: Seq<Seq<char>>)
    requires
        built_paths(r1, input),
        built_paths(r2, opt_views(r1) + extra),
        forall|x: Seq<char>| extra.contains(x) ==> input.contains(x),
    ensures
        paths_text(r2) == paths_text(r1),
{
    match r1 {
        Some(w1) => {
            let a = views(w1@);
            assert(opt_views(r1) == a);
            lemma_empty_iff(a, input);
            assert((a + extra).len() > 0);
            let w2 = r2.unwrap();
            let b = views(w2@);
            assert forall|x: Seq<char>| b.contains(x) <==> a.contains(x) by {
                if (a + extra).contains(x) {
                    let k = choose|k: int| 0 <= k < (a + extra).len() && (a + extra)[k] == x;
                    if k >= a.len() {
                        assert(extra.contains(x));
                    }
                }
                if a.contains(x) {
                    let k = choose|k: int| 0 <= k < a.len() && a[k] == x;
                    assert((a + extra)[k] == x);
                }
            }
            lemma_sorted_set_unique(b, a);
        },
        None => {
            assert(input.len() == 0);
            if extra.len() > 0 {
                assert(extra.contains(extra[0]));
            }
            assert(opt_views(r1) + extra =~= Seq::<Seq<char>>::empty());
        },
    }
}

/// Building an installation that `build` made, with either layout, gives
/// it back: every field agrees, the path lists and the script path by
/// their text.
pub proof fn law_rebuild_gives_it_back(d: RInstallation, w: bool, r1: RInstallation, w2: bool, r2: RInstallation)
    requires
        built_from(r1, d, w),
        built_from(r2, r1, w2),
    ensures
        same_by_text(r2, r1),
{
    let exe: Seq<Seq<char>> = match d.executable {
        Some(e) => seq![e@],
        None => Seq::empty(),
    };
    let input = opt_views(d.known_executables) + exe;
    assert forall|x: Seq<char>| exe.contains(x) implies input.contains(x) by {
        assert(input[opt_views(d.known_executables).len() as int] == x);
    }
    lemma_built_paths_again(r1.known_executables, r2.known_executables, input, exe);
    lemma_built_paths_again(r1.symlinks, r2.symlinks, opt_views(d.symlinks), Seq::empty());
    lemma_normalize_sources(d.discovered_by@);
    if d.discovered_by@.len() == 0 && d.kind != Some(RInstallationKind::GlobalPaths) && d.kind.is_some() {
        let one = seq![DiscoverySource::Locator];
        assert(one[0] == DiscoverySource::Locator);
        assert(one.contains(DiscoverySource::Locator));
        assert(!one.contains(DiscoverySource::GlobalPaths));
        assert(!one.contains(DiscoverySource::ExplicitSearch));
        assert(!one.contains(DiscoverySource::RVersions));
        assert(normalize_sources(one) =~= one);
    } else {
        lemma_normalize_idempotent(d.discovered_by@);
        if r1.discovered_by@.len() == 0 {
            assert(normalize_sources(r1.discovered_by@) =~= r1.discovered_by@);
        }
    }
}


proof fn lemma_built_paths_same(r1: Option<Vec<String>>, r2: Option<Vec<String>>, input: Seq<Seq<char>>)
    requires
        built_paths(r1, input),
        built_paths(r2, input),
    ensures
        paths_text(r1) == paths_text(r2),
{
    if input.len() > 0 {
        lemma_sorted_set_unique(views(r1.unwrap()@), views(r2.unwrap()@));
    }
}

proof fn lemma_same_inputs(d: RInstallation, w: bool, r1: RInstallation, r2: RInstallation)
    requires
        built_from(r1, d, w),
        built_from(r2, d, w),
    ensures
        paths_text(r1.known_executables) == paths_text(r2.known_executables),
        paths_text(r1.symlinks) == paths_text(r2.symlinks),
{
    lemma_built_paths_same(
        r1.known_executables,
        r2.known_executables,
        opt_views(d.known_executables) + (match d.executable {
            Some(e) => seq![e@],
            None => Seq::empty(),
        }),
    );
    lemma_built_paths_same(r1.symlinks, r2.symlinks, opt_views(d.symlinks));
}

/// Setting the display name before building changes only the display name
/// of what is built.
pub proof fn law_display_name_then_build(d: RInstallation, w: bool, x: Option<String>, r1: RInstallation, r2: RInstallation)
    requires
        built_from(r1, d, w),
        built_from(r2, RInstallation { display_name: x, ..d }, w),
    ensures
        same_by_text(r2, RInstallation { display_name: x, ..r1 }),
{
    lemma_same_inputs(RInstallation { display_name: x, ..d }, w, r2, RInstallation { display_name: x, ..r1 });
}

/// Setting the version before building changes only the version of what
/// is built.
pub proof fn law_version_then_build(d: RInstallation, w: bool, x: Option<String>, r1: RInstallation, r2: RInstallation)
    requires
        built_from(r1, d, w),
        built_from(r2, RInstallation { version: x, ..d }, w),
    ensures
        same_by_text(r2, RInstallation { version: x, ..r1 }),
{
    lemma_same_inputs(RInstallation { version: x, ..d }, w, r2, RInstallation { version: x, ..r1 });
}

/// Setting the kind before building changes the kind of what is built, and
/// besides it at most the discovery sources, which are the drafted ones
/// or, when none were drafted, the locator for a locator kind.
pub proof fn law_kind_then_build(
    d: RInstallation,
    w: bool,
    x: Option<RInstallationKind>,
    r1: RInstallation,
    r2: RInstallation,
)
    requires
        built_from(r1, d, w),
        built_from(r2, RInstallation { kind: x, ..d }, w),
    ensures
        r2.kind == x,
        r2.discovered_by@ == built_sources(x, d.discovered_by@),
        same_by_text(r2, RInstallation { kind: x, discovered_by: r2.discovered_by, ..r1 }),
{
    lemma_same_inputs(RInstallation { kind: x, ..d }, w, r2, RInstallation { kind: x, discovered_by: r2.discovered_by, ..r1 });
}

/// With the Unix layout, setting the architecture before building changes
/// only the architecture of what is built.
pub proof fn law_arch_then_build(d: RInstallation, x: Option<Architecture>, r1: RInstallation, r2: RInstallation)
    requires
        built_from(r1, d, false),
        built_from(r2, RInstallation { arch: x, ..d }, false),
    ensures
        same_by_text(r2, RInstallation { arch: x, ..r1 }),
{
    lemma_same_inputs(RInstallation { arch: x, ..d }, false, r2, RInstallation { arch: x, ..r1 });
}

/// Adding a source twice is adding it once.
pub proof fn law_add_source_twice(s: Seq<DiscoverySource>, source: DiscoverySource)
    ensures
        with_source(with_source(s, source), source) == with_source(s, source),
{
    if !s.contains(source) {
        lemma_normalize_sources(s.push(source));
        assert(s.push(source)[s.len() as int] == source);
    }
}

/// When the draft holds a source already, what is built after adding
/// `source` holds it, in declaration order without duplicates, next to
/// the sources that would have been built without it.
pub proof fn law_add_source_then_build(kind: Option<RInstallationKind>, s: Seq<DiscoverySource>, source: DiscoverySource)
    requires
        s.len() > 0,
    ensures
        built_sources(kind, with_source(s, source)).contains(source),
        sources_ordered(built_sources(kind, with_source(s, source))),
        forall|x: DiscoverySource| #[trigger] built_sources(kind, with_source(s, source)).contains(x)
            <==> (built_sources(kind, s).contains(x) || x == source),
{
    lemma_normalize_sources(s);
    lemma_normalize_sources(s.push(source));
    lemma_normalize_sources(with_source(s, source));
    assert(s.push(source)[s.len() as int] == source);
    assert forall|x: DiscoverySource| s.push(source).contains(x) <==> (s.contains(x) || x == source) by {
        if s.contains(x) {
            let k = choose|k: int| 0 <= k < s.len() && s[k] == x;
            assert(s.push(source)[k] == x);
        }
        if s.push(source).contains(x) {
            let k = choose|k: int| 0 <= k < s.push(source).len() && s.push(source)[k] == x;
            if k < s.len() {
                assert(s[k] == x);
            }
        }
    }
    assert(with_source(s, source).len() > 0);
}

}
