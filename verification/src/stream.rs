//! Single-slot log stream supervisor. The slot owns at most one live
//! log-following subprocess at a time, identified here by an opaque handle
//! token; the caller that actually spawns and kills processes drives the
//! slot through `take_current` and `store` under one mutual-exclusion scope,
//! terminating every token the slot hands back. The model functions and
//! proofs below account for process liveness across those steps: replacing a
//! stream leaves exactly one live subprocess, stopping leaves none, and a
//! failed spawn leaves the slot empty.

use vstd::prelude::*;

verus! {

/// The supervisor's sole durable state: at most one live stream handle.
pub struct LogStreamState {
    /// The token of the one live log-following subprocess, if any.
    pub handle: Option<u64>,
}

impl LogStreamState {
    /// The currently held handle token, if any.
    pub open spec fn current(&self) -> Option<u64> {
        self.handle
    }

    /// An empty slot: no stream is running.
    pub fn new() -> (r: LogStreamState)
        ensures
            r.current() is None,
    {
        LogStreamState { handle: None }
    }

    /// Whether a stream handle is currently held.
    pub fn is_streaming(&self) -> (r: bool)
        ensures
            r == (self.current() is Some),
    {
        match self.handle {
            Some(_) => true,
            None => false,
        }
    }

    /// Atomically take and clear the held handle. Both stopping a stream and
    /// the first step of replacing one go through here; the caller must
    /// terminate and reap the subprocess behind the returned token.
    pub fn take_current(&mut self) -> (r: Option<u64>)
        ensures
            final(self).current() is None,
            r == old(self).current(),
    {
        let r = self.handle;
        self.handle = None;
        r
    }

    /// Store the handle of a freshly spawned subprocess. Only an empty slot
    /// accepts a handle: the previous one must have been taken and its
    /// process terminated first, so no process is silently orphaned. On a
    /// failed spawn this is never called and the slot stays empty.
    pub fn store(&mut self, token: u64)
        requires
            old(self).current() is None,
        ensures
            final(self).current() == Some(token),
    {
        self.handle = Some(token);
    }
}

/// A supervisor state together with the set of live subprocesses it is
/// accountable for: the model over which the liveness laws are stated.
pub struct StreamWorld {
    /// The token held by the slot, if any.
    pub slot: Option<int>,
    /// The tokens of the subprocesses currently alive.
    pub live: Set<int>,
}

/// The supervisor invariant: the slot tracks exactly the live subprocesses —
/// one when a handle is held, none otherwise.
pub open spec fn world_inv(w: StreamWorld) -> bool {
    match w.slot {
        Some(p) => w.live == set![p],
        None => w.live == Set::<int>::empty(),
    }
}

/// Stopping: the held subprocess, if any, is terminated and the slot
/// cleared.
pub open spec fn stop_spec(w: StreamWorld) -> StreamWorld {
    StreamWorld {
        slot: None,
        live: match w.slot {
            Some(p) => w.live.remove(p),
            None => w.live,
        },
    }
}

/// A successful replacement: the held subprocess, if any, is terminated,
/// a new one with token `p` is spawned, and its handle stored.
pub open spec fn start_ok_spec(w: StreamWorld, p: int) -> StreamWorld {
    StreamWorld { slot: Some(p), live: stop_spec(w).live.insert(p) }
}

/// A failed replacement: the held subprocess, if any, is terminated, but
/// the spawn fails, so nothing is stored and the slot stays empty.
pub open spec fn start_fail_spec(w: StreamWorld) -> StreamWorld {
    stop_spec(w)
}

/// Every transition preserves the supervisor invariant.
pub proof fn lemma_transitions_preserve_inv(w: StreamWorld, p: int)
    requires
        world_inv(w),
    ensures
        world_inv(stop_spec(w)),
        world_inv(start_ok_spec(w, p)),
        world_inv(start_fail_spec(w)),
{
    match w.slot {
        Some(q) => {
            assert(w.live.remove(q) =~= Set::<int>::empty());
            assert(w.live.remove(q).insert(p) =~= set![p]);
        },
        None => {
            assert(w.live.insert(p) =~= set![p]);
        },
    }
}

/// Starting a stream twice in succession leaves exactly one live
/// subprocess — the second one — and the subprocess spawned by the first
/// start has been terminated.
pub proof fn lemma_restart_single_live(w: StreamWorld, p1: int, p2: int)
    requires
        world_inv(w),
    ensures
        world_inv(start_ok_spec(start_ok_spec(w, p1), p2)),
        start_ok_spec(start_ok_spec(w, p1), p2).live == set![p2],
        start_ok_spec(start_ok_spec(w, p1), p2).live.len() == 1,
        p1 != p2 ==> !start_ok_spec(start_ok_spec(w, p1), p2).live.contains(p1),
{
    lemma_transitions_preserve_inv(w, p1);
    lemma_transitions_preserve_inv(start_ok_spec(w, p1), p2);
    assert(set![p2].len() == 1);
}

/// Stopping with no active stream is a no-op, and stopping twice has the
/// same effect as stopping once.
pub proof fn lemma_stop_idempotent(w: StreamWorld)
    requires
        world_inv(w),
    ensures
        w.slot is None ==> stop_spec(w) == w,
        stop_spec(stop_spec(w)) == stop_spec(w),
{
    lemma_transitions_preserve_inv(w, 0);
}

/// After a failed spawn the slot is empty and no subprocess is live, and a
/// subsequent stop is a safe no-op.
pub proof fn lemma_failed_start_then_stop(w: StreamWorld)
    requires
        world_inv(w),
    ensures
        start_fail_spec(w).slot is None,
        start_fail_spec(w).live == Set::<int>::empty(),
        stop_spec(start_fail_spec(w)) == start_fail_spec(w),
{
    lemma_transitions_preserve_inv(w, 0);
}

/// One log line forwarded to the event sink: the unit it belongs to and the
/// line's text.
pub struct LogLine {
    pub service: String,
    pub line: String,
}

/// The event for one line of subprocess output.
pub fn log_event(unit: &String, text: String) -> (e: LogLine)
    ensures
        e.service@ == unit@,
        e.line@ == text@,
{
    LogLine { service: unit.clone(), line: text }
}

/// The events for a whole run of subprocess output: one event per line, in
/// the exact order the lines were produced, each carrying the unit name.
pub fn relay_lines(unit: &String, lines: &Vec<String>) -> (evs: Vec<LogLine>)
    ensures
        evs@.len() == lines@.len(),
        forall|i: int|
            0 <= i < lines@.len() ==> (#[trigger] evs@[i]).service@ == unit@ && evs@[i].line@
                == lines@[i]@,
{
    let mut evs: Vec<LogLine> = Vec::new();
    let n = lines.len();
    let mut i: usize = 0;
    while i < n
        invariant
            0 <= i <= n,
            n == lines@.len(),
            evs@.len() == i,
            forall|j: int|
                0 <= j < i ==> (#[trigger] evs@[j]).service@ == unit@ && evs@[j].line@
                    == lines@[j]@,
        decreases n - i,
    {
        let text = lines[i].clone();
        evs.push(log_event(unit, text));
        i += 1;
    }
    evs
}

} // verus!
