//! Refresh requests: how concurrent requests share one search, how a
//! request's options become the configuration searched, and the
//! configuration generations that keep stale results out.

use vstd::prelude::*;
use crate::facts::{keep_present, present_in, FileFacts};
use crate::locator::{Configuration, RefreshStateSyncScope};
use crate::path::{path_eq, sort_dedup_paths, is_sorted_set_of, views};
use crate::r_installation::{clone_opt_strings, opt_seq, opt_views, RInstallationKind};

verus! {

/// What a search covers: every locator filtered to one kind, or only the
/// requested paths.
#[derive(Debug, Clone, Copy, PartialEq, Eq, Structural)]
pub enum SearchScope {
    Global(RInstallationKind),
    SearchPaths,
}

/// The options of a refresh request.
#[derive(Debug)]
pub struct RefreshOptions {
    pub search_kind: Option<RInstallationKind>,
    pub search_paths: Option<Vec<String>>,
}

pub type OptionsView = (Option<RInstallationKind>, Option<Seq<Seq<char>>>);

pub open spec fn options_view(o: RefreshOptions) -> OptionsView {
    (
        o.search_kind,
        match o.search_paths {
            Some(p) => Some(views(p@)),
            None => None,
        },
    )
}

impl RefreshOptions {
    pub fn copy(&self) -> (r: RefreshOptions)
        ensures
            options_view(r) == options_view(*self),
            opt_seq(r.search_paths) == opt_seq(self.search_paths),
    {
        RefreshOptions { search_kind: self.search_kind, search_paths: clone_opt_strings(&self.search_paths) }
    }

    /// The options with their search paths sorted and deduplicated.
    pub fn normalized(self) -> (r: RefreshOptions)
        ensures
            r.search_kind == self.search_kind,
            match self.search_paths {
                Some(p) => r.search_paths matches Some(q) && is_sorted_set_of(views(q@), views(p@)),
                None => r.search_paths is None,
            },
    {
        let search_paths = match self.search_paths {
            Some(p) => Some(sort_dedup_paths(p)),
            None => None,
        };
        RefreshOptions { search_kind: self.search_kind, search_paths }
    }
}

/// Identifies a refresh: its options and the configuration generation it searches.
#[derive(Debug)]
pub struct RefreshKey {
    pub options: RefreshOptions,
    pub configuration_generation: u64,
}

pub type KeyView = (OptionsView, u64);

pub open spec fn key_view(k: RefreshKey) -> KeyView {
    (options_view(k.options), k.configuration_generation)
}

impl RefreshKey {
    pub fn copy(&self) -> (r: RefreshKey)
        ensures
            key_view(r) == key_view(*self),
    {
        RefreshKey { options: self.options.copy(), configuration_generation: self.configuration_generation }
    }
}

fn paths_equal(a: &Vec<String>, b: &Vec<String>) -> (r: bool)
    ensures
        r == (views(a@) == views(b@)),
{
    if a.len() != b.len() {
        assert(views(a@).len() != views(b@).len());
        return false;
    }
    let mut i: usize = 0;
    while i < a.len()
        invariant
            i <= a.len(),
            a.len() == b.len(),
            forall|j: int| 0 <= j < i ==> a@[j]@ == b@[j]@,
        decreases a.len() - i,
    {
        if !path_eq(a[i].as_str(), b[i].as_str()) {
            assert(views(a@)[i as int] != views(b@)[i as int]);
            return false;
        }
        i = i + 1;
    }
    assert(views(a@) =~= views(b@));
    true
}

/// Whether two keys name the same refresh.
pub fn keys_equal(a: &RefreshKey, b: &RefreshKey) -> (r: bool)
    ensures
        r == (key_view(*a) == key_view(*b)),
{
    if a.configuration_generation != b.configuration_generation || a.options.search_kind
        != b.options.search_kind {
        return false;
    }
    match &a.options.search_paths {
        Some(p) => match &b.options.search_paths {
            Some(q) => paths_equal(p, q),
            None => false,
        },
        None => b.options.search_paths.is_none(),
    }
}

/// The refresh in progress and the requests waiting for its result.
#[derive(Debug)]
pub struct ActiveRefresh {
    pub key: RefreshKey,
    pub request_ids: Vec<u32>,
}

#[derive(Debug)]
pub enum RefreshCoordinatorState {
    Idle,
    Running(ActiveRefresh),
    Completing(ActiveRefresh),
}

#[derive(Debug, Clone, Copy, PartialEq, Eq, Structural)]
pub enum Phase {
    Idle,
    Running,
    Completing,
}

/// What a request was told: run the refresh, wait for the one running to
/// answer it, or wait until the coordinator is idle.
#[derive(Debug, Clone, Copy, PartialEq, Eq, Structural)]
pub enum RefreshRegistration {
    Start,
    Joined,
    Wait,
}

/// The coordinator as plain values: its phase, the refresh's key and the
/// requests waiting for it.
pub type CoordinatorView = (Phase, KeyView, Seq<u32>);

pub open spec fn idle_view() -> CoordinatorView {
    (Phase::Idle, ((None, None), 0), Seq::empty())
}

pub open spec fn state_view(s: RefreshCoordinatorState) -> CoordinatorView {
    match s {
        RefreshCoordinatorState::Idle => idle_view(),
        RefreshCoordinatorState::Running(a) => (Phase::Running, key_view(a.key), a.request_ids@),
        RefreshCoordinatorState::Completing(a) => (Phase::Completing, key_view(a.key), a.request_ids@),
    }
}

/// A request arrives: it starts a refresh when idle, joins the refresh with
/// the same key, and otherwise waits without changing anything.
pub open spec fn register_spec(s: CoordinatorView, id: u32, key: KeyView) -> (CoordinatorView, RefreshRegistration) {
    if s.0 == Phase::Idle {
        ((Phase::Running, key, seq![id]), RefreshRegistration::Start)
    } else if s.1 == key {
        ((s.0, s.1, s.2.push(id)), RefreshRegistration::Joined)
    } else {
        (s, RefreshRegistration::Wait)
    }
}

/// The search is done: the refresh starts answering its requests.
pub open spec fn begin_completion_spec(s: CoordinatorView) -> CoordinatorView {
    (Phase::Completing, s.1, s.2)
}

/// The requests to answer now, and the state with none left waiting.
pub open spec fn drain_spec(s: CoordinatorView) -> (CoordinatorView, Seq<u32>) {
    if s.0 == Phase::Idle {
        (s, Seq::empty())
    } else {
        ((s.0, s.1, Seq::empty()), s.2)
    }
}

/// The refresh ends when no request is left waiting.
pub open spec fn complete_spec(s: CoordinatorView) -> (CoordinatorView, bool) {
    if s.2.len() == 0 {
        (idle_view(), true)
    } else {
        (s, false)
    }
}

/// A refresh that failed gives the coordinator back, if it still owns it.
pub open spec fn force_idle_spec(s: CoordinatorView, key: KeyView) -> CoordinatorView {
    if s.0 != Phase::Idle && s.1 == key {
        idle_view()
    } else {
        s
    }
}

/// Lets requests with the same options and configuration share one refresh.
#[derive(Debug)]
pub struct RefreshCoordinator {
    pub state: RefreshCoordinatorState,
}

impl View for RefreshCoordinator {
    type V = CoordinatorView;

    open spec fn view(&self) -> CoordinatorView {
        state_view(self.state)
    }
}

impl RefreshCoordinator {
    pub fn new() -> (r: RefreshCoordinator)
        ensures
            r@ == idle_view(),
    {
        RefreshCoordinator { state: RefreshCoordinatorState::Idle }
    }

    pub fn is_idle(&self) -> (r: bool)
        ensures
            r == (self@.0 == Phase::Idle),
    {
        match &self.state {
            RefreshCoordinatorState::Idle => true,
            _ => false,
        }
    }

    pub fn register(&mut self, request_id: u32, key: RefreshKey) -> (r: RefreshRegistration)
        ensures
            (final(self)@, r) == register_spec(old(self)@, request_id, key_view(key)),
    {
        let mut st = RefreshCoordinatorState::Idle;
        std::mem::swap(&mut st, &mut self.state);
        match st {
            RefreshCoordinatorState::Idle => {
                let mut ids: Vec<u32> = Vec::new();
                ids.push(request_id);
                self.state = RefreshCoordinatorState::Running(ActiveRefresh { key, request_ids: ids });
                RefreshRegistration::Start
            },
            RefreshCoordinatorState::Running(a) => {
                let mut a = a;
                if keys_equal(&a.key, &key) {
                    a.request_ids.push(request_id);
                    self.state = RefreshCoordinatorState::Running(a);
                    RefreshRegistration::Joined
                } else {
                    self.state = RefreshCoordinatorState::Running(a);
                    RefreshRegistration::Wait
                }
            },
            RefreshCoordinatorState::Completing(a) => {
                let mut a = a;
                if keys_equal(&a.key, &key) {
                    a.request_ids.push(request_id);
                    self.state = RefreshCoordinatorState::Completing(a);
                    RefreshRegistration::Joined
                } else {
                    self.state = RefreshCoordinatorState::Completing(a);
                    RefreshRegistration::Wait
                }
            },
        }
    }

    /// Marks the running refresh with this key as answering its requests.
    pub fn begin_completion(&mut self, key: &RefreshKey)
        requires
            old(self)@.0 == Phase::Running,
            old(self)@.1 == key_view(*key),
        ensures
            final(self)@ == begin_completion_spec(old(self)@),
    {
        let mut st = RefreshCoordinatorState::Idle;
        std::mem::swap(&mut st, &mut self.state);
        match st {
            RefreshCoordinatorState::Running(a) => {
                self.state = RefreshCoordinatorState::Completing(a);
            },
            other => {
                self.state = other;
            },
        }
    }

    /// Takes the requests waiting for the completing refresh with this key.
    pub fn drain_request_ids(&mut self, key: &RefreshKey) -> (r: Vec<u32>)
        requires
            old(self)@.0 == Phase::Idle || (old(self)@.0 == Phase::Completing && old(self)@.1
                == key_view(*key)),
        ensures
            (final(self)@, r@) == drain_spec(old(self)@),
    {
        let mut st = RefreshCoordinatorState::Idle;
        std::mem::swap(&mut st, &mut self.state);
        match st {
            RefreshCoordinatorState::Completing(a) => {
                let mut a = a;
                let mut ids: Vec<u32> = Vec::new();
                std::mem::swap(&mut ids, &mut a.request_ids);
                self.state = RefreshCoordinatorState::Completing(a);
                ids
            },
            other => {
                self.state = other;
                Vec::new()
            },
        }
    }

    /// Ends the completing refresh with this key if no request is left.
    pub fn complete_if_empty(&mut self, key: &RefreshKey) -> (r: bool)
        requires
            old(self)@.0 == Phase::Completing,
            old(self)@.1 == key_view(*key),
        ensures
            (final(self)@, r) == complete_spec(old(self)@),
    {
        let empty = match &self.state {
            RefreshCoordinatorState::Completing(a) => a.request_ids.len() == 0,
            _ => false,
        };
        if empty {
            self.state = RefreshCoordinatorState::Idle;
        }
        empty
    }

    /// Returns to idle if the refresh with this key still owns the coordinator.
    pub fn force_idle(&mut self, key: &RefreshKey)
        ensures
            final(self)@ == force_idle_spec(old(self)@, key_view(*key)),
    {
        let owns = match &self.state {
            RefreshCoordinatorState::Running(a) => keys_equal(&a.key, key),
            RefreshCoordinatorState::Completing(a) => keys_equal(&a.key, key),
            RefreshCoordinatorState::Idle => false,
        };
        if owns {
            self.state = RefreshCoordinatorState::Idle;
        }
    }
}

/// A request that joins a running refresh is answered with the others when
/// that refresh completes: the requests drained are those registered, the
/// joined one last.
pub proof fn lemma_joined_request_is_answered(s: CoordinatorView, id: u32, key: KeyView)
    requires
        s.0 == Phase::Running,
        s.1 == key,
    ensures
        register_spec(s, id, key).1 == RefreshRegistration::Joined,
        drain_spec(begin_completion_spec(register_spec(s, id, key).0)).1 == s.2.push(id),
{
}

/// Two requests with the same key share one refresh: the first starts it,
/// the second joins, both are answered in order, and the coordinator is
/// idle again afterwards.
pub proof fn lemma_identical_requests_share_a_refresh(a: u32, b: u32, key: KeyView)
    ensures
        ({
            let (s1, r1) = register_spec(idle_view(), a, key);
            let (s2, r2) = register_spec(s1, b, key);
            let s3 = begin_completion_spec(s2);
            let (s4, ids) = drain_spec(s3);
            let (s5, done) = complete_spec(s4);
            &&& r1 == RefreshRegistration::Start
            &&& r2 == RefreshRegistration::Joined
            &&& ids == seq![a, b]
            &&& done
            &&& s5 == idle_view()
        }),
{
    assert(seq![a].push(b) =~= seq![a, b]);
}

/// A refresh that gives the coordinator back lets the next request start
/// a new one, whatever its key.
pub proof fn lemma_force_idle_recovers(s: CoordinatorView, key: KeyView, id: u32, next: KeyView)
    requires
        s.0 != Phase::Idle,
        s.1 == key,
    ensures
        register_spec(force_idle_spec(s, key), id, next).1 == RefreshRegistration::Start,
{
}

/// A request with another key waits and changes nothing.
pub proof fn lemma_other_key_waits(s: CoordinatorView, id: u32, key: KeyView)
    requires
        s.0 != Phase::Idle,
        s.1 != key,
    ensures
        register_spec(s, id, key) == (s, RefreshRegistration::Wait),
{
}

/// The configuration and the generation that counts its changes.
#[derive(Debug)]
pub struct ConfigurationState {
    pub generation: u64,
    pub config: Configuration,
}

impl ConfigurationState {
    pub fn new() -> (r: ConfigurationState)
        ensures
            r.generation == 0,
            r.config.workspace_directories is None,
            r.config.environment_directories is None,
            r.config.search_directories is None,
            r.config.executables is None,
            r.config.cache_directory is None,
            r.config.conda_executable is None,
            r.config.rig_executable is None,
    {
        ConfigurationState { generation: 0, config: Configuration::empty() }
    }

    /// Installs a new configuration as the next generation.
    pub fn advance(&mut self, config: Configuration)
        requires
            old(self).generation < u64::MAX,
        ensures
            final(self).generation == old(self).generation + 1,
            final(self).config == config,
    {
        self.generation = self.generation + 1;
        self.config = config;
    }
}

/// The configuration a configure request installs: the previous one with
/// the directories, executables and tools replaced, and the cache
/// directory replaced only when one is given.
pub fn next_configuration(
    previous: &Configuration,
    workspace_directories: Option<Vec<String>>,
    environment_directories: Option<Vec<String>>,
    search_directories: Option<Vec<String>>,
    executables: Option<Vec<String>>,
    conda_executable: Option<String>,
    rig_executable: Option<String>,
    cache_directory: Option<String>,
) -> (r: Configuration)
    ensures
        r.workspace_directories == workspace_directories,
        r.environment_directories == environment_directories,
        r.search_directories == search_directories,
        r.executables == executables,
        r.conda_executable == conda_executable,
        r.rig_executable == rig_executable,
        r.cache_directory == (match cache_directory {
            Some(c) => Some(c),
            None => previous.cache_directory,
        }),
{
    let cache = match cache_directory {
        Some(c) => Some(c),
        None => crate::manager::clone_opt_string(&previous.cache_directory),
    };
    Configuration {
        workspace_directories,
        environment_directories,
        search_directories,
        executables,
        cache_directory: cache,
        conda_executable,
        rig_executable,
    }
}

/// The directories of a configure request that exist, sorted and
/// deduplicated, or nothing when none does (`expanded`: the request's
/// patterns expanded).
pub fn configured_directories(expanded: &Vec<String>, facts: &FileFacts) -> (r: Option<Vec<String>>)
    ensures
        match r {
            Some(d) => d@.len() > 0 && is_sorted_set_of(
                views(d@),
                present_in(views(expanded@), views(facts.dirs@)),
            ),
            None => present_in(views(expanded@), views(facts.dirs@)).len() == 0,
        },
{
    let dirs = keep_present(expanded, &facts.dirs);
    let sorted = sort_dedup_paths(dirs);
    proof {
        crate::path::lemma_empty_iff(views(sorted@), present_in(views(expanded@), views(facts.dirs@)));
    }
    if sorted.len() == 0 {
        None
    } else {
        Some(sorted)
    }
}

/// The scope a refresh searches: its paths when it names some, else the
/// kind it asks for, else everything.
pub open spec fn refresh_scope(options: OptionsView) -> Option<SearchScope> {
    if options.1 is Some {
        Some(SearchScope::SearchPaths)
    } else {
        match options.0 {
            Some(k) => Some(SearchScope::Global(k)),
            None => None,
        }
    }
}

/// The configuration a refresh searches and its scope. With search paths,
/// the configured directories are replaced by the paths that are
/// directories and the executables by those that are files (`expanded`:
/// the search paths expanded); otherwise the configuration is kept.
pub fn build_refresh_config(
    refresh_options: &RefreshOptions,
    config: Configuration,
    expanded: &Vec<String>,
    facts: &FileFacts,
) -> (r: (Configuration, Option<SearchScope>))
    ensures
        r.1 == refresh_scope(options_view(*refresh_options)),
        refresh_options.search_paths is None ==> r.0 == config,
        refresh_options.search_paths is Some ==> {
            &&& r.0.workspace_directories is None
            &&& r.0.environment_directories is None
            &&& opt_views(r.0.search_directories) == present_in(views(expanded@), views(facts.dirs@))
            &&& r.0.search_directories is Some
            &&& opt_views(r.0.executables) == present_in(views(expanded@), views(facts.files@))
            &&& r.0.executables is Some
            &&& r.0.cache_directory == config.cache_directory
            &&& r.0.conda_executable == config.conda_executable
            &&& r.0.rig_executable == config.rig_executable
        },
{
    let mut config = config;
    let scope = if refresh_options.search_paths.is_some() {
        config.workspace_directories = None;
        config.environment_directories = None;
        config.search_directories = Some(keep_present(expanded, &facts.dirs));
        config.executables = Some(keep_present(expanded, &facts.files));
        Some(SearchScope::SearchPaths)
    } else {
        match refresh_options.search_kind {
            Some(k) => Some(SearchScope::Global(k)),
            None => None,
        }
    };
    (config, scope)
}

/// Which discovery state a refresh may replace: everything, the state of
/// the kind it searched, or the workspace part.
pub fn refresh_sync_scope(search_scope: Option<SearchScope>) -> (r: RefreshStateSyncScope)
    ensures
        r == (match search_scope {
            Some(SearchScope::Global(k)) => RefreshStateSyncScope::GlobalFiltered(k),
            Some(SearchScope::SearchPaths) => RefreshStateSyncScope::Workspace,
            None => RefreshStateSyncScope::Full,
        }),
{
    match search_scope {
        Some(SearchScope::Global(k)) => RefreshStateSyncScope::GlobalFiltered(k),
        Some(SearchScope::SearchPaths) => RefreshStateSyncScope::Workspace,
        None => RefreshStateSyncScope::Full,
    }
}

pub open spec fn opt_len(v: Option<Vec<String>>) -> int {
    match v {
        Some(x) => x@.len() as int,
        None => 0,
    }
}

/// How many directories and executables the configuration names, as a
/// 32-bit count (wrapping).
pub fn count_configured_search_paths(config: &Configuration) -> (r: u32)
    ensures
        r as int == (opt_len(config.workspace_directories) + opt_len(config.environment_directories)
            + opt_len(config.search_directories) + opt_len(config.executables)) % 0x1_0000_0000,
{
    let a: u128 = match &config.workspace_directories {
        Some(v) => v.len() as u128,
        None => 0,
    };
    let b: u128 = match &config.environment_directories {
        Some(v) => v.len() as u128,
        None => 0,
    };
    let c: u128 = match &config.search_directories {
        Some(v) => v.len() as u128,
        None => 0,
    };
    let d: u128 = match &config.executables {
        Some(v) => v.len() as u128,
        None => 0,
    };
    let total: u128 = a + b + c + d;
    (total % 0x1_0000_0000) as u32
}

/// The result of a refresh: its duration in milliseconds and its id.
#[derive(Debug, Clone, Copy, PartialEq, Eq, Structural)]
pub struct RefreshResult {
    pub duration: u64,
    pub refresh_id: u64,
}

impl RefreshResult {
    pub fn new(duration: u64, refresh_id: u64) -> (r: RefreshResult)
        ensures
            r.duration == duration,
            r.refresh_id == refresh_id,
    {
        RefreshResult { duration, refresh_id }
    }
}

/// What a JSON-RPC `configure` request carries.
#[derive(Debug)]
pub struct ConfigureOptions {
    pub workspace_directories: Option<Vec<String>>,
    pub environment_directories: Option<Vec<String>>,
    pub search_directories: Option<Vec<String>>,
    pub executables: Option<Vec<String>>,
    pub conda_executable: Option<String>,
    pub rig_executable: Option<String>,
    pub cache_directory: Option<String>,
}

/// What a JSON-RPC `find` request carries.
#[derive(Debug)]
pub struct FindOptions {
    pub search_path: String,
}

/// What a JSON-RPC `resolve` request carries.
#[derive(Debug)]
pub struct ResolveOptions {
    pub executable: String,
}

} // verus!
