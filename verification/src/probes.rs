//! Running probes (R runtimes, package managers): when a probe stops, and
//! the registry that lets a server stop every probe when it exits.

use vstd::prelude::*;

verus! {

/// The longest a probe may run, in milliseconds.
pub const PROBE_TIMEOUT_MS: u64 = 30000;

/// The most output a probe may write to each stream, in bytes.
pub const MAX_OUTPUT_BYTES: u64 = 16777216;

/// How long to wait between polls of a running probe, in milliseconds.
pub const POLL_INTERVAL_MS: u64 = 10;

/// What to do after one look at a running probe.
#[derive(Debug, Clone, Copy, PartialEq, Eq, Structural)]
pub enum ProbeStep {
    OutputTooLarge,
    Finished,
    TimedOut,
    Sleep(u64),
}

/// One look at a probe: too much output fails it, an exit ends it, an
/// exhausted time budget times it out, otherwise wait a poll interval or
/// what is left of the budget, whichever is shorter.
pub open spec fn probe_step_spec(stdout_len: u64, stderr_len: u64, exited: bool, elapsed_ms: u64, timeout_ms: u64) -> ProbeStep {
    if stdout_len > MAX_OUTPUT_BYTES || stderr_len > MAX_OUTPUT_BYTES {
        ProbeStep::OutputTooLarge
    } else if exited {
        ProbeStep::Finished
    } else if elapsed_ms >= timeout_ms {
        ProbeStep::TimedOut
    } else if timeout_ms - elapsed_ms < POLL_INTERVAL_MS {
        ProbeStep::Sleep((timeout_ms - elapsed_ms) as u64)
    } else {
        ProbeStep::Sleep(POLL_INTERVAL_MS)
    }
}

pub fn probe_step(stdout_len: u64, stderr_len: u64, exited: bool, elapsed_ms: u64, timeout_ms: u64) -> (r: ProbeStep)
    ensures
        r == probe_step_spec(stdout_len, stderr_len, exited, elapsed_ms, timeout_ms),
{
    if stdout_len > MAX_OUTPUT_BYTES || stderr_len > MAX_OUTPUT_BYTES {
        return ProbeStep::OutputTooLarge;
    }
    if exited {
        return ProbeStep::Finished;
    }
    if elapsed_ms >= timeout_ms {
        return ProbeStep::TimedOut;
    }
    let remaining = timeout_ms - elapsed_ms;
    if remaining < POLL_INTERVAL_MS {
        ProbeStep::Sleep(remaining)
    } else {
        ProbeStep::Sleep(POLL_INTERVAL_MS)
    }
}

/// A probe never sleeps past its deadline, and sleeps only while time is left.
pub proof fn lemma_probe_sleeps_within_budget(out: u64, err: u64, exited: bool, elapsed: u64, timeout: u64)
    ensures
        probe_step_spec(out, err, exited, elapsed, timeout) matches ProbeStep::Sleep(ms) ==> 0 < ms
            <= POLL_INTERVAL_MS && elapsed + ms <= timeout,
{
}

/// Whether captured output is within the limit.
pub fn output_within_limit(len: u64) -> (r: bool)
    ensures
        r == (len <= MAX_OUTPUT_BYTES),
{
    len <= MAX_OUTPUT_BYTES
}

/// The probes a process runs, by id, and whether probing has stopped.
#[derive(Debug)]
pub struct ProbeRegistry {
    pub stopped: bool,
    pub children: Vec<u64>,
}

/// The ids that are still alive, in order.
pub open spec fn alive_among(ids: Seq<u64>, alive: Seq<u64>) -> Seq<u64> {
    ids.filter(|id: u64| alive.contains(id))
}

fn keep_alive(ids: &Vec<u64>, alive: &Vec<u64>) -> (r: Vec<u64>)
    ensures
        r@ == alive_among(ids@, alive@),
{
    let mut out: Vec<u64> = Vec::new();
    let mut i: usize = 0;
    while i < ids.len()
        invariant
            i <= ids.len(),
            out@ == alive_among(ids@.subrange(0, i as int), alive@),
        decreases ids.len() - i,
    {
        reveal(Seq::filter);
        let ghost pre = ids@.subrange(0, i as int);
        let ghost cur = ids@.subrange(0, i + 1);
        assert(cur.drop_last() == pre);
        assert(cur.last() == ids@[i as int]);
        let id = ids[i];
        let mut found = false;
        let mut j: usize = 0;
        while j < alive.len()
            invariant
                j <= alive.len(),
                found == exists|k: int| 0 <= k < j && alive@[k] == id,
            decreases alive.len() - j,
        {
            if alive[j] == id {
                found = true;
            }
            j = j + 1;
        }
        if found {
            out.push(id);
        }
        i = i + 1;
    }
    assert(ids@.subrange(0, ids@.len() as int) == ids@);
    out
}

impl ProbeRegistry {
    pub fn new() -> (r: ProbeRegistry)
        ensures
            !r.stopped,
            r.children@.len() == 0,
    {
        ProbeRegistry { stopped: false, children: Vec::new() }
    }

    /// Registers a started probe (`alive`: the probes still running); once
    /// probing has stopped nothing is registered and the probe is refused.
    pub fn register(&mut self, child: u64, alive: &Vec<u64>) -> (r: bool)
        ensures
            ((final(self).stopped, final(self).children@), r) == register_spec(
                (old(self).stopped, old(self).children@),
                child,
                alive@,
            ),
    {
        if self.stopped {
            return false;
        }
        let mut kept = keep_alive(&self.children, alive);
        kept.push(child);
        self.children = kept;
        true
    }
}

/// Stops probing for good and hands back the probes still running, to be
/// terminated.
pub fn shutdown_probes(registry: &mut ProbeRegistry, alive: &Vec<u64>) -> (r: Vec<u64>)
    ensures
        ((final(registry).stopped, final(registry).children@), r@) == shutdown_spec(
            (old(registry).stopped, old(registry).children@),
            alive@,
        ),
{
    registry.stopped = true;
    let children = keep_alive(&registry.children, alive);
    registry.children = Vec::new();
    children
}

/// The registry as plain values: whether probing stopped, and the probes.
pub type RegistryView = (bool, Seq<u64>);

/// Registering a probe: refused once probing stopped, else the probes
/// still alive and the new one.
pub open spec fn register_spec(s: RegistryView, child: u64, alive: Seq<u64>) -> (RegistryView, bool) {
    if s.0 {
        (s, false)
    } else {
        ((false, alive_among(s.1, alive).push(child)), true)
    }
}

/// Shutting down: probing stops, and the probes alive are handed back.
pub open spec fn shutdown_spec(s: RegistryView, alive: Seq<u64>) -> (RegistryView, Seq<u64>) {
    ((true, Seq::empty()), alive_among(s.1, alive))
}

/// Shutting down hands back every registered probe that is still alive;
/// from then on every probe is refused and nothing is registered, and a
/// second shutdown finds nothing to terminate.
pub proof fn law_no_probe_after_shutdown(s: RegistryView, alive: Seq<u64>, child: u64, later: Seq<u64>)
    ensures
        forall|id: u64| s.1.contains(id) && alive.contains(id) ==> #[trigger] shutdown_spec(s, alive).1.contains(id),
        register_spec(shutdown_spec(s, alive).0, child, later).1 == false,
        register_spec(shutdown_spec(s, alive).0, child, later).0 == shutdown_spec(s, alive).0,
        shutdown_spec(shutdown_spec(s, alive).0, later).1.len() == 0,
{
    reveal(Seq::filter);
    assert(Seq::<u64>::empty().filter(|id: u64| later.contains(id)) =~= Seq::<u64>::empty());
    assert forall|id: u64| s.1.contains(id) && alive.contains(id) implies #[trigger] shutdown_spec(s, alive).1.contains(id) by {
        let k = choose|k: int| 0 <= k < s.1.len() && s.1[k] == id;
        s.1.lemma_filter_contains(|x: u64| alive.contains(x), k);
    }
}

} // verus!
