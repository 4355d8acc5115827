//! A search's plan and bookkeeping: which paths a directory search probes,
//! what the configuration asks to search, how long each part took, and the
//! telemetry a refresh reports.

use vstd::prelude::*;
use crate::locator::{Configuration, LocatorKind};
use crate::path::{is_sorted_set_of, join, join_all, join_spec, lemma_views_push, path_ends_with, sort_dedup_paths, views};
use crate::executable::{ignored_folders, should_search_for_installations_in_path};
use crate::identify::built_vars;
use crate::r_installation::{
    built_paths, built_sources, infer_orthogonal_spec, infer_script_path_spec, normalize_sources, opt_view, opt_views,
    DiscoverySource, RInstallation, RInstallationBuilder, RInstallationKind, with_source,
};
use crate::refresh::{count_configured_search_paths, opt_len, SearchScope};
use crate::reporter::{first_value, lemma_first_value_absent, lemma_first_value_at, lemma_first_value_push, lemma_first_value_update};
use crate::telemetry::{locator_kind_name, locator_kind_name_exec, RefreshPerformance, TelemetryEvent};

verus! {

broadcast use lemma_views_push;

/// The parts of a search that are timed.
#[derive(Debug, Clone, Copy, PartialEq, Eq, Structural)]
pub enum SearchPhase {
    Locators,
    Path,
    SearchPaths,
}

pub open spec fn phase_name(p: SearchPhase) -> Seq<char> {
    match p {
        SearchPhase::Locators => "Locators"@,
        SearchPhase::Path => "Path"@,
        SearchPhase::SearchPaths => "SearchPaths"@,
    }
}

pub fn phase_name_exec(p: SearchPhase) -> (r: &'static str)
    ensures
        r@ == phase_name(p),
{
    match p {
        SearchPhase::Locators => "Locators",
        SearchPhase::Path => "Path",
        SearchPhase::SearchPaths => "SearchPaths",
    }
}

/// How long a search took, in milliseconds: in all, per locator and per phase.
#[derive(Debug)]
pub struct Summary {
    pub total: u64,
    pub locators: Vec<(LocatorKind, u64)>,
    pub breakdown: Vec<(SearchPhase, u64)>,
}

/// A recorded duration, 0 when none was recorded.
pub open spec fn recorded<K>(s: Seq<(K, u64)>, k: K) -> u64 {
    match first_value(s, k) {
        Some(v) => v,
        None => 0,
    }
}

impl Summary {
    pub fn new() -> (r: Summary)
        ensures
            r.total == 0,
            r.locators@.len() == 0,
            r.breakdown@.len() == 0,
    {
        Summary { total: 0, locators: Vec::new(), breakdown: Vec::new() }
    }

    /// Records how long a locator took, replacing an earlier record.
    pub fn record_locator(&mut self, kind: LocatorKind, elapsed: u64)
        ensures
            forall|k: LocatorKind| #[trigger] first_value(final(self).locators@, k) == if k == kind {
                Some(elapsed)
            } else {
                first_value(old(self).locators@, k)
            },
            final(self).breakdown@ == old(self).breakdown@,
            final(self).total == old(self).total,
    {
        let mut i: usize = 0;
        while i < self.locators.len()
            invariant
                i <= self.locators.len(),
                self.locators@ == old(self).locators@,
                self.breakdown@ == old(self).breakdown@,
                self.total == old(self).total,
                forall|j: int| 0 <= j < i ==> self.locators@[j].0 != kind,
            decreases self.locators.len() - i,
        {
            if self.locators[i].0 == kind {
                let ghost before = self.locators@;
                self.locators.set(i, (kind, elapsed));
                assert forall|k: LocatorKind| #[trigger] first_value(self.locators@, k) == if k == kind {
                    Some(elapsed)
                } else {
                    first_value(before, k)
                } by {
                    lemma_first_value_update(before, i as int, kind, elapsed, k);
                }
                return;
            }
            i = i + 1;
        }
        let ghost before = self.locators@;
        self.locators.push((kind, elapsed));
        assert forall|k: LocatorKind| #[trigger] first_value(self.locators@, k) == if k == kind {
            Some(elapsed)
        } else {
            first_value(before, k)
        } by {
            lemma_first_value_push(before, kind, elapsed, k);
        }
    }

    /// Records how long a phase took, replacing an earlier record.
    pub fn record_phase(&mut self, phase: SearchPhase, elapsed: u64)
        ensures
            forall|p: SearchPhase| #[trigger] first_value(final(self).breakdown@, p) == if p == phase {
                Some(elapsed)
            } else {
                first_value(old(self).breakdown@, p)
            },
            final(self).locators@ == old(self).locators@,
            final(self).total == old(self).total,
    {
        let mut i: usize = 0;
        while i < self.breakdown.len()
            invariant
                i <= self.breakdown.len(),
                self.breakdown@ == old(self).breakdown@,
                self.locators@ == old(self).locators@,
                self.total == old(self).total,
                forall|j: int| 0 <= j < i ==> self.breakdown@[j].0 != phase,
            decreases self.breakdown.len() - i,
        {
            if self.breakdown[i].0 == phase {
                let ghost before = self.breakdown@;
                self.breakdown.set(i, (phase, elapsed));
                assert forall|p: SearchPhase| #[trigger] first_value(self.breakdown@, p) == if p == phase {
                    Some(elapsed)
                } else {
                    first_value(before, p)
                } by {
                    lemma_first_value_update(before, i as int, phase, elapsed, p);
                }
                return;
            }
            i = i + 1;
        }
        let ghost before = self.breakdown@;
        self.breakdown.push((phase, elapsed));
        assert forall|p: SearchPhase| #[trigger] first_value(self.breakdown@, p) == if p == phase {
            Some(elapsed)
        } else {
            first_value(before, p)
        } by {
            lemma_first_value_push(before, phase, elapsed, p);
        }
    }

    /// The recorded duration of a phase, 0 when none was recorded.
    pub fn phase(&self, phase: SearchPhase) -> (r: u64)
        ensures
            r == recorded(self.breakdown@, phase),
    {
        let mut i: usize = 0;
        while i < self.breakdown.len()
            invariant
                i <= self.breakdown.len(),
                forall|j: int| 0 <= j < i ==> self.breakdown@[j].0 != phase,
            decreases self.breakdown.len() - i,
        {
            if self.breakdown[i].0 == phase {
                proof {
                    lemma_first_value_at(self.breakdown@, i as int, phase);
                }
                return self.breakdown[i].1;
            }
            i = i + 1;
        }
        proof {
            lemma_first_value_absent(self.breakdown@, phase);
        }
        0
    }
}

/// A refresh as its progress reports name it.
#[derive(Debug, Clone, Copy, PartialEq, Eq, Structural)]
pub struct RefreshContext {
    pub id: u64,
    pub generation: u64,
}

/// Whether a search runs the locators and the global locations.
pub open spec fn searches_globally(scope: Option<SearchScope>) -> bool {
    !(scope == Some(SearchScope::SearchPaths))
}

pub fn search_global(scope: Option<SearchScope>) -> (r: bool)
    ensures
        r == searches_globally(scope),
{
    match scope {
        Some(SearchScope::SearchPaths) => false,
        _ => true,
    }
}

/// The kind a global search is limited to.
pub fn search_kind(scope: Option<SearchScope>) -> (r: Option<RInstallationKind>)
    ensures
        r == (match scope {
            Some(SearchScope::Global(k)) => Some(k),
            _ => None,
        }),
{
    match scope {
        Some(SearchScope::Global(k)) => Some(k),
        _ => None,
    }
}

/// Whether a locator takes part in a search limited to `kind`.
pub fn locator_in_scope(supported: &Vec<RInstallationKind>, kind: Option<RInstallationKind>) -> (r: bool)
    ensures
        r == (match kind {
            Some(k) => supported@.contains(k),
            None => true,
        }),
{
    match kind {
        Some(k) => {
            let mut i: usize = 0;
            while i < supported.len()
                invariant
                    i <= supported.len(),
                    kind == Some(k),
                    forall|j: int| 0 <= j < i ==> supported@[j] != k,
                decreases supported.len() - i,
            {
                if supported[i] == k {
                    assert(supported@[i as int] == k);
                    return true;
                }
                i = i + 1;
            }
            false
        },
        None => true,
    }
}

/// The directories an explicit search walks: in a global search the
/// workspace, environment and search directories, otherwise only the
/// search directories; sorted and deduplicated.
pub fn directories_to_search(config: &Configuration, global: bool) -> (r: Vec<String>)
    ensures
        is_sorted_set_of(
            views(r@),
            if global {
                opt_views(config.workspace_directories) + opt_views(config.environment_directories)
                    + opt_views(config.search_directories)
            } else {
                opt_views(config.search_directories)
            },
        ),
{
    let mut all: Vec<String> = Vec::new();
    if global {
        append_opt(&mut all, &config.workspace_directories);
        append_opt(&mut all, &config.environment_directories);
    }
    append_opt(&mut all, &config.search_directories);
    proof {
        if !global {
            assert(Seq::<Seq<char>>::empty() + opt_views(config.search_directories) == opt_views(
                config.search_directories,
            ));
        }
    }
    sort_dedup_paths(all)
}

fn append_opt(dst: &mut Vec<String>, src: &Option<Vec<String>>)
    ensures
        views(final(dst)@) == views(old(dst)@) + opt_views(*src),
{
    match src {
        Some(v) => {
            let mut i: usize = 0;
            while i < v.len()
                invariant
                    i <= v.len(),
                    views(dst@) == views(old(dst)@) + views(v@).subrange(0, i as int),
                decreases v.len() - i,
            {
                assert(views(v@).subrange(0, i + 1) == views(v@).subrange(0, i as int).push(v@[i as int]@));
                dst.push(v[i].clone());
                i = i + 1;
            }
            assert(views(v@).subrange(0, v.len() as int) == views(v@));
        },
        None => {
            assert(views(dst@) + Seq::<Seq<char>>::empty() == views(dst@));
        },
    }
}

/// The paths a directory search probes for an executable: the directory,
/// its `bin`, `lib/R`, `lib/R/bin`, `Resources` and `Resources/bin`.
pub open spec fn directory_search_paths_spec(d: Seq<char>) -> Seq<Seq<char>> {
    seq![
        d,
        join_spec(d, "bin"@),
        join_spec(join_spec(d, "lib"@), "R"@),
        join_spec(join_spec(join_spec(d, "lib"@), "R"@), "bin"@),
        join_spec(d, "Resources"@),
        join_spec(join_spec(d, "Resources"@), "bin"@),
    ]
}

pub fn directory_search_paths(directory: &str) -> (r: Vec<String>)
    ensures
        views(r@) == directory_search_paths_spec(directory@),
{
    let mut v: Vec<String> = Vec::new();
    v.push(directory.to_string());
    v.push(join(directory, "bin"));
    let lib = join(directory, "lib");
    let lib_r = join(lib.as_str(), "R");
    v.push(lib_r.clone());
    v.push(join(lib_r.as_str(), "bin"));
    let res = join(directory, "Resources");
    v.push(res.clone());
    v.push(join(res.as_str(), "bin"));
    assert(views(v@) =~= directory_search_paths_spec(directory@));
    v
}

/// The paths probed for the directories a search walked, in path order
/// and each once.
pub open spec fn walked_paths(dirs: Seq<Seq<char>>) -> Seq<Seq<char>>
    decreases dirs.len(),
{
    if dirs.len() == 0 {
        Seq::empty()
    } else {
        walked_paths(dirs.drop_last()) + directory_search_paths_spec(dirs.last())
    }
}

pub fn recursive_search_paths(directories: &Vec<String>) -> (r: Vec<String>)
    ensures
        is_sorted_set_of(views(r@), walked_paths(views(directories@))),
{
    let mut all: Vec<String> = Vec::new();
    let mut i: usize = 0;
    while i < directories.len()
        invariant
            i <= directories.len(),
            views(all@) == walked_paths(views(directories@).subrange(0, i as int)),
        decreases directories.len() - i,
    {
        assert(views(directories@).subrange(0, i + 1).drop_last() == views(directories@).subrange(0, i as int));
        let mut more = directory_search_paths(directories[i].as_str());
        let ghost before = all@;
        let ghost extra = more@;
        all.append(&mut more);
        assert(views(all@) =~= views(before) + views(extra));
        i = i + 1;
    }
    assert(views(directories@).subrange(0, directories.len() as int) == views(directories@));
    sort_dedup_paths(all)
}

/// An installation rebuilt with one more way of finding it: every field as
/// in `m`, completed as `build` does, the sources gaining `s`.
pub open spec fn sourced_from(r: RInstallation, m: RInstallation, s: DiscoverySource) -> bool {
    &&& r.display_name == m.display_name
    &&& r.name == m.name
    &&& r.executable == m.executable
    &&& r.kind == m.kind
    &&& r.version == m.version
    &&& r.home == m.home
    &&& r.manager == m.manager
    &&& r.arch == m.arch
    &&& built_paths(
        r.known_executables,
        opt_views(m.known_executables) + (match m.executable {
            Some(e) => seq![e@],
            None => Seq::empty(),
        }),
    )
    &&& built_paths(r.symlinks, opt_views(m.symlinks))
    &&& r.discovered_by@ == built_sources(m.kind, with_source(m.discovered_by@, s))
    &&& r.locator_metadata == m.locator_metadata
    &&& r.rversions_overlay == m.rversions_overlay
    &&& opt_view(r.script_path) == (match m.script_path {
        Some(p) => Some(p@),
        None => infer_script_path_spec(opt_view(m.executable), opt_view(m.home), m.arch, false),
    })
    &&& r.startup_command == m.startup_command
    &&& r.environment_variables == built_vars(m.environment_variables)
    &&& r.orthogonal == (match m.orthogonal {
        Some(o) => Some(o),
        None => infer_orthogonal_spec(opt_view(m.home)),
    })
    &&& r.error == m.error
}

/// An identified installation marked with how it was found, if given.
pub fn with_discovery_source(installation: RInstallation, source: Option<DiscoverySource>) -> (r: RInstallation)
    ensures
        source is None ==> r == installation,
        source matches Some(s) ==> sourced_from(r, installation, s),
{
    match source {
        Some(s) => RInstallationBuilder::from_installation(installation).add_discovery_source(s).build(),
        None => installation,
    }
}

/// The subdirectories worth entering, in order.
pub open spec fn searchable(subdirectories: Seq<Seq<char>>) -> Seq<Seq<char>>
    decreases subdirectories.len(),
{
    if subdirectories.len() == 0 {
        Seq::empty()
    } else {
        let rest = searchable(subdirectories.drop_last());
        let d = subdirectories.last();
        if exists|k: int| 0 <= k < ignored_folders().len() && path_ends_with(d, #[trigger] ignored_folders()[k]) {
            rest
        } else {
            rest.push(d)
        }
    }
}

/// One directory of a recursive search: the paths it adds, and the
/// subdirectories to search in turn (`is_environment`: the directory is a
/// conda or Pixi environment, whose packages would only find it again;
/// `subdirectories`: the directories in it). Dependency trees and tool
/// directories are not entered.
pub fn recursive_search_step(directory: &str, is_environment: bool, subdirectories: &Vec<String>) -> (r: (
    Vec<String>,
    Vec<String>,
))
    ensures
        views(r.0@) == directory_search_paths_spec(directory@),
        views(r.1@) == (if is_environment {
            Seq::empty()
        } else {
            searchable(views(subdirectories@))
        }),
{
    let paths = directory_search_paths(directory);
    let mut enter: Vec<String> = Vec::new();
    if is_environment {
        return (paths, enter);
    }
    let mut i: usize = 0;
    while i < subdirectories.len()
        invariant
            i <= subdirectories.len(),
            views(enter@) == searchable(views(subdirectories@).subrange(0, i as int)),
        decreases subdirectories.len() - i,
    {
        let ghost pre = views(subdirectories@).subrange(0, i as int);
        let ghost cur = views(subdirectories@).subrange(0, i + 1);
        assert(cur.drop_last() == pre);
        assert(cur.last() == subdirectories@[i as int]@);
        if should_search_for_installations_in_path(subdirectories[i].as_str()) {
            enter.push(subdirectories[i].clone());
        }
        i = i + 1;
    }
    assert(views(subdirectories@).subrange(0, subdirectories.len() as int) == views(subdirectories@));
    (paths, enter)
}

/// The installations that were identified, in order.
pub open spec fn identified_only(found: Seq<Option<RInstallation>>) -> Seq<RInstallation>
    decreases found.len(),
{
    if found.len() == 0 {
        Seq::empty()
    } else {
        match found.last() {
            Some(i) => identified_only(found.drop_last()).push(i),
            None => identified_only(found.drop_last()),
        }
    }
}

/// An installation marked with how it was found, if given.
pub open spec fn marked_with(r: RInstallation, i: RInstallation, source: Option<DiscoverySource>) -> bool {
    match source {
        None => r == i,
        Some(s) => sourced_from(r, i, s),
    }
}

/// What the locators made of each executable (`identified`: `None` for an
/// executable none of them recognized), as reported: the recognized ones
/// in order, each marked with how it was found; the caller reports each
/// one's manager, then the installation.
pub fn identify_r_executables_using_locators(
    identified: Vec<Option<RInstallation>>,
    discovery_source: Option<DiscoverySource>,
) -> (r: Vec<RInstallation>)
    ensures
        r@.len() == identified_only(identified@).len(),
        forall|k: int|
            0 <= k < r@.len() ==> marked_with(#[trigger] r@[k], identified_only(identified@)[k], discovery_source),
{
    let ghost all = identified@;
    let mut rest = identified;
    let mut out: Vec<RInstallation> = Vec::new();
    let n = rest.len();
    let mut i: usize = 0;
    while i < n
        invariant
            n == all.len(),
            i <= n,
            rest@.len() == n - i,
            forall|j: int| 0 <= j < rest@.len() ==> rest@[j] == all[(j + i) as int],
            out@.len() == identified_only(all.subrange(0, i as int)).len(),
            forall|k: int|
                0 <= k < out@.len() ==> marked_with(
                    #[trigger] out@[k],
                    identified_only(all.subrange(0, i as int))[k],
                    discovery_source,
                ),
        decreases n - i,
    {
        let item = rest.remove(0);
        let ghost pre = all.subrange(0, i as int);
        let ghost cur = all.subrange(0, i + 1);
        assert(cur.drop_last() == pre);
        assert(cur.last() == all[i as int]);
        assert(item == all[i as int]);
        match item {
            Some(installation) => {
                let ghost orig = installation;
                let marked = with_discovery_source(installation, discovery_source);
                out.push(marked);
                assert(identified_only(cur) == identified_only(pre).push(orig));
            },
            None => {
                assert(identified_only(cur) == identified_only(pre));
            },
        }
        i = i + 1;
    }
    assert(all.subrange(0, n as int) == all);
    out
}

pub open spec fn of_kind(k: RInstallationKind) -> spec_fn(RInstallation) -> bool {
    |i: RInstallation| i.kind == Some(k)
}

/// The installations of one kind, in order.
pub fn retain_kind(installations: Vec<RInstallation>, kind: Option<RInstallationKind>) -> (r: Vec<
    RInstallation,
>)
    ensures
        kind is None ==> r@ == installations@,
        kind matches Some(k) ==> r@ == installations@.filter(of_kind(k)),
{
    match kind {
        None => installations,
        Some(k) => {
            let ghost orig = installations@;
            let mut rest = installations;
            let mut out: Vec<RInstallation> = Vec::new();
            let n = rest.len();
            let mut i: usize = 0;
            while i < n
                invariant
                    n == orig.len(),
                    i <= n,
                    rest@ == orig.subrange(i as int, n as int),
                    out@ == orig.subrange(0, i as int).filter(of_kind(k)),
                decreases n - i,
            {
                let x = rest.remove(0);
                assert(orig.subrange(0, i + 1).drop_last() == orig.subrange(0, i as int));
                assert(x == orig[i as int]);
                assert(orig.subrange(0, i + 1).last() == orig[i as int]);
                reveal(Seq::filter);
                assert(orig.subrange(0, i + 1).filter(of_kind(k)) == (if of_kind(k)(orig[i as int]) {
                    orig.subrange(0, i as int).filter(of_kind(k)).push(orig[i as int])
                } else {
                    orig.subrange(0, i as int).filter(of_kind(k))
                }));
                if x.kind == Some(k) {
                    out.push(x);
                }
                assert(out@ == orig.subrange(0, i + 1).filter(of_kind(k)));
                i = i + 1;
            }
            assert(orig.subrange(0, n as int) == orig);
            out
        },
    }
}

/// A refresh's durations, by name.
pub open spec fn named_locators(s: Seq<(LocatorKind, u64)>) -> Seq<(Seq<char>, u64)> {
    s.map_values(|p: (LocatorKind, u64)| (locator_kind_name(p.0), p.1))
}

pub open spec fn named_phases(s: Seq<(SearchPhase, u64)>) -> Seq<(Seq<char>, u64)> {
    s.map_values(|p: (SearchPhase, u64)| (phase_name(p.0), p.1))
}

pub open spec fn named_pairs(s: Seq<(String, u64)>) -> Seq<(Seq<char>, u64)> {
    s.map_values(|p: (String, u64)| (p.0@, p.1))
}

/// The telemetry a refresh reports, the performance figures last.
pub open spec fn refresh_events_spec(summary: Summary, config: Configuration, scope: Option<SearchScope>) -> Seq<TelemetryEvent> {
    let path = recorded(summary.breakdown@, SearchPhase::Path);
    let locators = recorded(summary.breakdown@, SearchPhase::Locators);
    let search_paths = recorded(summary.breakdown@, SearchPhase::SearchPaths);
    let count = (opt_len(config.workspace_directories) + opt_len(config.environment_directories)
        + opt_len(config.search_directories) + opt_len(config.executables)) % 0x1_0000_0000;
    (if searches_globally(scope) {
        seq![
            TelemetryEvent::GlobalEnvironmentsSearchCompleted((locators + path) as u64),
            TelemetryEvent::GlobalPathVariableEnvironmentsSearchCompleted(path),
        ]
    } else {
        Seq::empty()
    }) + (if count > 0 {
        seq![TelemetryEvent::AllSearchPathsEnvironmentsSearchCompleted(search_paths, count as u32)]
    } else {
        Seq::empty()
    }) + seq![TelemetryEvent::SearchCompleted(summary.total)]
}

/// The telemetry a refresh reports: the global search durations unless only
/// paths were searched, the configured paths' duration when there are
/// some, the total, and the durations per locator and per phase.
pub fn refresh_telemetry_events(summary: &Summary, config: &Configuration, search_scope: Option<SearchScope>) -> (r: Vec<TelemetryEvent>)
    requires
        recorded(summary.breakdown@, SearchPhase::Locators) + recorded(summary.breakdown@, SearchPhase::Path)
            <= u64::MAX,
    ensures
        r@.drop_last() == refresh_events_spec(*summary, *config, search_scope),
        r@.len() > 0,
        r@.last() matches TelemetryEvent::RefreshPerformance(p) && p.total == summary.total
            && named_pairs(p.locators@) == named_locators(summary.locators@) && named_pairs(p.breakdown@)
            == named_phases(summary.breakdown@),
{
    let path = summary.phase(SearchPhase::Path);
    let locators = summary.phase(SearchPhase::Locators);
    let search_paths = summary.phase(SearchPhase::SearchPaths);
    let count = count_configured_search_paths(config);
    let mut events: Vec<TelemetryEvent> = Vec::new();
    if search_global(search_scope) {
        events.push(TelemetryEvent::GlobalEnvironmentsSearchCompleted(locators + path));
        events.push(TelemetryEvent::GlobalPathVariableEnvironmentsSearchCompleted(path));
    }
    if count > 0 {
        events.push(TelemetryEvent::AllSearchPathsEnvironmentsSearchCompleted(search_paths, count));
    }
    events.push(TelemetryEvent::SearchCompleted(summary.total));
    assert(events@ =~= refresh_events_spec(*summary, *config, search_scope));
    let ghost simple = events@;
    let mut by_locator: Vec<(String, u64)> = Vec::new();
    let mut i: usize = 0;
    while i < summary.locators.len()
        invariant
            i <= summary.locators.len(),
            named_pairs(by_locator@) == named_locators(summary.locators@.subrange(0, i as int)),
        decreases summary.locators.len() - i,
    {
        let (k, v) = summary.locators[i];
        let name = locator_kind_name_exec(k).to_owned();
        assert(name@ == locator_kind_name(k));
        let ghost prev = by_locator@;
        by_locator.push((name, v));
        assert(named_pairs(by_locator@) =~= named_pairs(prev).push((locator_kind_name(k), v)));
        assert(summary.locators@.subrange(0, i + 1) == summary.locators@.subrange(0, i as int).push(
            summary.locators@[i as int],
        ));
        assert(named_pairs(by_locator@) =~= named_locators(summary.locators@.subrange(0, i + 1)));
        i = i + 1;
    }
    assert(summary.locators@.subrange(0, summary.locators@.len() as int) == summary.locators@);
    let mut by_phase: Vec<(String, u64)> = Vec::new();
    let mut j: usize = 0;
    while j < summary.breakdown.len()
        invariant
            j <= summary.breakdown.len(),
            named_pairs(by_phase@) == named_phases(summary.breakdown@.subrange(0, j as int)),
        decreases summary.breakdown.len() - j,
    {
        let (k, v) = summary.breakdown[j];
        let name = phase_name_exec(k).to_owned();
        assert(name@ == phase_name(k));
        let ghost prev = by_phase@;
        by_phase.push((name, v));
        assert(named_pairs(by_phase@) =~= named_pairs(prev).push((phase_name(k), v)));
        assert(summary.breakdown@.subrange(0, j + 1) == summary.breakdown@.subrange(0, j as int).push(
            summary.breakdown@[j as int],
        ));
        assert(named_pairs(by_phase@) =~= named_phases(summary.breakdown@.subrange(0, j + 1)));
        j = j + 1;
    }
    assert(summary.breakdown@.subrange(0, summary.breakdown@.len() as int) == summary.breakdown@);
    events.push(
        TelemetryEvent::RefreshPerformance(
            RefreshPerformance { total: summary.total, locators: by_locator, breakdown: by_phase },
        ),
    );
    assert(events@.drop_last() == simple);
    events
}

/// Each path of `paths` with the source `s`.
pub open spec fn tagged(paths: Seq<Seq<char>>, s: DiscoverySource) -> Seq<(Seq<char>, DiscoverySource)> {
    paths.map_values(|p: Seq<char>| (p, s))
}

/// Whether some pair of `c` is for the executable `exe`.
pub open spec fn has_executable(c: Seq<(Seq<char>, DiscoverySource)>, exe: Seq<char>) -> bool {
    exists|i: int| 0 <= i < c.len() && (#[trigger] c[i]).0 == exe
}

/// The pairs of `c` whose executable did not occur before, in order.
pub open spec fn first_occurrences(c: Seq<(Seq<char>, DiscoverySource)>) -> Seq<(Seq<char>, DiscoverySource)>
    decreases c.len(),
{
    if c.len() == 0 {
        Seq::empty()
    } else {
        let d = first_occurrences(c.drop_last());
        if has_executable(d, c.last().0) {
            d
        } else {
            d.push(c.last())
        }
    }
}

/// The executables a search identifies, each with how it was found, in
/// order: those configured and those found under the searched directories
/// (an explicit search), then in a global search those under the locators'
/// roots and those in the global search locations; each executable once,
/// where it first occurs.
pub open spec fn search_candidates_spec(
    explicit: Seq<Seq<char>>,
    searched: Seq<Seq<char>>,
    located: Seq<Seq<char>>,
    global_paths: Seq<Seq<char>>,
    global: bool,
) -> Seq<(Seq<char>, DiscoverySource)> {
    first_occurrences(
        tagged(explicit + searched, DiscoverySource::ExplicitSearch) + if global {
            tagged(located, DiscoverySource::Locator) + tagged(global_paths, DiscoverySource::GlobalPaths)
        } else {
            Seq::empty()
        },
    )
}

pub open spec fn pairs_view(v: Seq<(String, DiscoverySource)>) -> Seq<(Seq<char>, DiscoverySource)> {
    v.map_values(|p: (String, DiscoverySource)| (p.0@, p.1))
}

fn holds_executable(c: &Vec<(String, DiscoverySource)>, exe: &str) -> (r: bool)
    ensures
        r == has_executable(pairs_view(c@), exe@),
{
    let mut i: usize = 0;
    while i < c.len()
        invariant
            i <= c.len(),
            forall|j: int| 0 <= j < i ==> pairs_view(c@)[j].0 != exe@,
        decreases c.len() - i,
    {
        if crate::path::path_eq(c[i].0.as_str(), exe) {
            assert(pairs_view(c@)[i as int].0 == exe@);
            return true;
        }
        i = i + 1;
    }
    false
}

fn push_candidates(out: &mut Vec<(String, DiscoverySource)>, paths: &Vec<String>, s: DiscoverySource, Ghost(all): Ghost<Seq<(Seq<char>, DiscoverySource)>>)
    requires
        pairs_view(old(out)@) == first_occurrences(all),
    ensures
        pairs_view(final(out)@) == first_occurrences(all + tagged(views(paths@), s)),
{
    let ghost t = tagged(views(paths@), s);
    let mut i: usize = 0;
    while i < paths.len()
        invariant
            i <= paths.len(),
            t == tagged(views(paths@), s),
            pairs_view(out@) == first_occurrences(all + t.subrange(0, i as int)),
        decreases paths.len() - i,
    {
        let ghost before = all + t.subrange(0, i as int);
        assert((all + t.subrange(0, i + 1)).drop_last() =~= before);
        assert((all + t.subrange(0, i + 1)).last() == (paths@[i as int]@, s));
        if !holds_executable(out, paths[i].as_str()) {
            out.push((paths[i].clone(), s));
            assert(pairs_view(out@) =~= first_occurrences(before).push((paths@[i as int]@, s)));
        }
        i = i + 1;
    }
    assert(t.subrange(0, paths.len() as int) =~= t);
}

/// The executables a search identifies, each with how it was found: see
/// `search_candidates_spec`.
pub fn search_candidates(
    explicit: &Vec<String>,
    searched: &Vec<String>,
    located: &Vec<String>,
    global_paths: &Vec<String>,
    global: bool,
) -> (r: Vec<(String, DiscoverySource)>)
    ensures
        pairs_view(r@) == search_candidates_spec(views(explicit@), views(searched@), views(located@), views(global_paths@), global),
{
    let mut out: Vec<(String, DiscoverySource)> = Vec::new();
    let ghost e = tagged(views(explicit@), DiscoverySource::ExplicitSearch);
    let ghost se = tagged(views(searched@), DiscoverySource::ExplicitSearch);
    let ghost l = tagged(views(located@), DiscoverySource::Locator);
    let ghost g = tagged(views(global_paths@), DiscoverySource::GlobalPaths);
    proof {
        assert(pairs_view(out@) =~= first_occurrences(Seq::empty()));
    }
    push_candidates(&mut out, explicit, DiscoverySource::ExplicitSearch, Ghost(Seq::empty()));
    assert(Seq::<(Seq<char>, DiscoverySource)>::empty() + e =~= e);
    push_candidates(&mut out, searched, DiscoverySource::ExplicitSearch, Ghost(e));
    assert(tagged(views(explicit@) + views(searched@), DiscoverySource::ExplicitSearch) =~= e + se);
    if global {
        push_candidates(&mut out, located, DiscoverySource::Locator, Ghost(e + se));
        push_candidates(&mut out, global_paths, DiscoverySource::GlobalPaths, Ghost(e + se + l));
        assert(e + se + l + g =~= (e + se) + (l + g));
    } else {
        assert(e + se + Seq::<(Seq<char>, DiscoverySource)>::empty() =~= e + se);
    }
    out
}

/// Every search but one limited to the search paths runs the locators and
/// the global locations: a search of all kinds, and a search limited to any
/// one kind (whose results are filtered to that kind afterwards).
pub proof fn law_only_search_path_scope_skips_global_search(scope: Option<SearchScope>, r: bool)
    requires
        r == searches_globally(scope),
    ensures
        scope is None ==> r,
        forall|k: RInstallationKind| scope == Some(SearchScope::Global(k)) ==> r,
        scope == Some(SearchScope::SearchPaths) ==> !r,
{
}

} // verus!
