//! Reporters: where found managers, installations and telemetry go.

use vstd::prelude::*;
use crate::manager::EnvManager;
use crate::merge::get_installation_key;
use crate::path::{contains_path, views};
use crate::r_installation::{same_installation, RInstallation};
use crate::refresh::ConfigurationState;
use crate::telemetry::TelemetryEvent;

pub mod collect;
pub mod jsonrpc;
pub mod stdio;

use crate::reporter::collect::CollectReporter;

verus! {

/// Receives what a search finds.
pub trait Reporter {
    fn report_manager(&mut self, manager: &EnvManager);

    fn report_installation(&mut self, installation: &RInstallation);

    fn report_telemetry(&mut self, event: &TelemetryEvent) {
    }
}


/// Passes on each manager and installation once: managers by executable,
/// installations by home (else executable); installations with neither are
/// dropped.
#[derive(Debug)]
pub struct CacheReporter<R> {
    pub reporter: R,
    pub reported_managers: Vec<String>,
    pub reported_installations: Vec<String>,
}

impl<R: Reporter> CacheReporter<R> {
    pub fn new(reporter: R) -> (r: CacheReporter<R>)
        ensures
            r.reporter == reporter,
            r.reported_managers@.len() == 0,
            r.reported_installations@.len() == 0,
    {
        CacheReporter { reporter, reported_managers: Vec::new(), reported_installations: Vec::new() }
    }

    /// Whether a manager is new; a new one is remembered.
    pub fn admit_manager(&mut self, manager: &EnvManager) -> (r: bool)
        ensures
            r == !views(old(self).reported_managers@).contains(manager.executable@),
            views(final(self).reported_managers@) == (if r {
                views(old(self).reported_managers@).push(manager.executable@)
            } else {
                views(old(self).reported_managers@)
            }),
            final(self).reported_installations@ == old(self).reported_installations@,
            final(self).reporter == old(self).reporter,
    {
        if contains_path(&self.reported_managers, manager.executable.as_str()) {
            false
        } else {
            self.reported_managers.push(manager.executable.clone());
            true
        }
    }

    /// Whether an installation is new (it has a key not seen before); a new
    /// one is remembered.
    pub fn admit_installation(&mut self, installation: &RInstallation) -> (r: bool)
        ensures
            (views(final(self).reported_installations@), r) == admit_spec(
                views(old(self).reported_installations@),
                installation_key(*installation),
            ),
            final(self).reported_managers@ == old(self).reported_managers@,
            final(self).reporter == old(self).reporter,
    {
        match get_installation_key(installation) {
            Some(key) => {
                if contains_path(&self.reported_installations, key.as_str()) {
                    false
                } else {
                    let ghost before = self.reported_installations@;
                    self.reported_installations.push(key);
                    proof {
                        crate::path::lemma_views_push(before, self.reported_installations@.last());
                    }
                    true
                }
            },
            None => false,
        }
    }
}

impl<R: Reporter> Reporter for CacheReporter<R> {
    fn report_manager(&mut self, manager: &EnvManager) {
        if self.admit_manager(manager) {
            self.reporter.report_manager(manager);
        }
    }

    fn report_installation(&mut self, installation: &RInstallation) {
        if self.admit_installation(installation) {
            self.reporter.report_installation(installation);
        }
    }

    fn report_telemetry(&mut self, event: &TelemetryEvent) {
        self.reporter.report_telemetry(event);
    }
}

/// The key an installation is reported under: its home, else its
/// executable.
pub open spec fn installation_key(i: RInstallation) -> Option<Seq<char>> {
    match (if i.home is Some {
        i.home
    } else {
        i.executable
    }) {
        Some(k) => Some(k@),
        None => None,
    }
}

/// Admitting an installation with a key: the keys reported so far, and
/// whether it is passed on (only a key not seen before is).
pub open spec fn admit_spec(reported: Seq<Seq<char>>, key: Option<Seq<char>>) -> (Seq<Seq<char>>, bool) {
    match key {
        Some(k) => if reported.contains(k) {
            (reported, false)
        } else {
            (reported.push(k), true)
        },
        None => (reported, false),
    }
}

/// Whatever was reported before, once an installation with a key has been
/// admitted, a second installation with the same key is refused and
/// changes nothing.
pub proof fn lemma_cache_reports_each_key_once(reported: Seq<Seq<char>>, key: Seq<char>)
    ensures
        admit_spec(admit_spec(reported, Some(key)).0, Some(key)) == (admit_spec(reported, Some(key)).0, false),
{
    if !reported.contains(key) {
        assert(reported.push(key)[reported.len() as int] == key);
    }
}

/// Passes on installations found for the configuration generation that is
/// still current; results of a superseded configuration are dropped.
#[derive(Debug)]
pub struct GenerationGuardedReporter {
    pub reporter: CollectReporter,
    pub generation: u64,
}

impl GenerationGuardedReporter {
    /// Reports an installation if `state` still has the reporter's generation.
    pub fn report_installation_if_current(&mut self, state: &ConfigurationState, installation: &RInstallation) -> (r: bool)
        ensures
            r == (state.generation == old(self).generation),
            final(self).generation == old(self).generation,
            final(self).reporter.managers@ == old(self).reporter.managers@,
            r ==> final(self).reporter.installations@.drop_last() == old(self).reporter.installations@
                && final(self).reporter.installations@.len() == old(self).reporter.installations@.len() + 1
                && same_installation(final(self).reporter.installations@.last(), *installation),
            !r ==> final(self).reporter.installations@ == old(self).reporter.installations@,
    {
        if state.generation == self.generation {
            self.reporter.collect_installation(installation);
            true
        } else {
            false
        }
    }

    /// Reports a manager if `state` still has the reporter's generation.
    pub fn report_manager_if_current(&mut self, state: &ConfigurationState, manager: &EnvManager) -> (r: bool)
        ensures
            r == (state.generation == old(self).generation),
            final(self).generation == old(self).generation,
            final(self).reporter.installations@ == old(self).reporter.installations@,
            final(self).reporter.managers@ == (if r {
                old(self).reporter.managers@.push(*manager)
            } else {
                old(self).reporter.managers@
            }),
    {
        if state.generation == self.generation {
            self.reporter.collect_manager(manager);
            true
        } else {
            false
        }
    }
}

/// The first value stored under `k`.
pub open spec fn first_value<K, V>(s: Seq<(K, V)>, k: K) -> Option<V>
    decreases s.len(),
{
    if s.len() == 0 {
        None
    } else if s[0].0 == k {
        Some(s[0].1)
    } else {
        first_value(s.drop_first(), k)
    }
}

pub proof fn lemma_first_value_at<K, V>(s: Seq<(K, V)>, i: int, k: K)
    requires
        0 <= i < s.len(),
        s[i].0 == k,
        forall|j: int| 0 <= j < i ==> s[j].0 != k,
    ensures
        first_value(s, k) == Some(s[i].1),
    decreases i,
{
    if i > 0 {
        lemma_first_value_at(s.drop_first(), i - 1, k);
    }
}

pub proof fn lemma_first_value_absent<K, V>(s: Seq<(K, V)>, k: K)
    requires
        forall|j: int| 0 <= j < s.len() ==> s[j].0 != k,
    ensures
        first_value(s, k) is None,
    decreases s.len(),
{
    if s.len() > 0 {
        lemma_first_value_absent(s.drop_first(), k);
    }
}

pub proof fn lemma_first_value_update<K, V>(s: Seq<(K, V)>, i: int, k: K, v: V, other: K)
    requires
        0 <= i < s.len(),
        s[i].0 == k,
        forall|j: int| 0 <= j < i ==> s[j].0 != k,
    ensures
        first_value(s.update(i, (k, v)), other) == (if other == k {
            Some(v)
        } else {
            first_value(s, other)
        }),
    decreases i,
{
    if i == 0 {
        assert(s.update(0, (k, v)).drop_first() == s.drop_first());
    } else {
        assert(s.update(i, (k, v)).drop_first() == s.drop_first().update(i - 1, (k, v)));
        lemma_first_value_update(s.drop_first(), i - 1, k, v, other);
    }
}

pub proof fn lemma_first_value_push<K, V>(s: Seq<(K, V)>, k: K, v: V, other: K)
    requires
        forall|j: int| 0 <= j < s.len() ==> s[j].0 != k,
    ensures
        first_value(s.push((k, v)), other) == (if other == k {
            Some(v)
        } else {
            first_value(s, other)
        }),
    decreases s.len(),
{
    if s.len() == 0 {
    } else {
        assert(s.push((k, v)).drop_first() == s.drop_first().push((k, v)));
        lemma_first_value_push(s.drop_first(), k, v, other);
    }
}

} // verus!
