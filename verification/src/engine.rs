//! The scan engine's decisions: bounded admission of probe tasks, per-path
//! event bookkeeping, and the random User-Agent pick.
//!
//! The engine itself performs no I/O.  The driver admits a task through
//! [`AdmissionGate`], performs the probe, and feeds the outcome back through
//! [`ScanRun`]; per-path failures only advance progress, so a run always
//! completes once every candidate path has been accounted for.

use vstd::prelude::*;
use crate::state::Classification;
use crate::state::ScanState;
use crate::state::StateView;
use crate::state::classify_next;
use crate::state::classify_result;
use crate::state::resolve_next;
use crate::state::resolve_result;

verus! {

/// Relies on `rand::Rng::gen_range` over `0..n`: the result is drawn
/// uniformly from the range, so it is always below `n`.
#[verifier::external_body]
fn random_below(n: usize) -> (r: usize)
    requires
        n >= 1,
    ensures
        r < n,
{
    rand::Rng::gen_range(&mut rand::thread_rng(), 0..n)
}

/// Pick one User-Agent from a non-empty pool, uniformly at random; the
/// result is always a member of the pool.
pub fn pick_user_agent<'a>(agents: &'a Vec<Vec<u8>>) -> (r: &'a Vec<u8>)
    requires
        agents@.len() >= 1,
    ensures
        exists|i: int| 0 <= i < agents@.len() && r@ == agents@[i]@,
{
    let i = random_below(agents.len());
    let r = &agents[i];
    proof {
        assert(r@ == agents@[i as int]@);
    }
    r
}

/// Bounded admission of probe tasks: at most `limit` are in flight at once.
pub struct AdmissionGate {
    limit: usize,
    in_flight: usize,
}

impl AdmissionGate {
    /// The concurrency limit of this gate.
    pub closed spec fn spec_limit(&self) -> nat {
        self.limit as nat
    }

    /// How many probe tasks are admitted and not yet released.
    pub closed spec fn spec_in_flight(&self) -> nat {
        self.in_flight as nat
    }

    /// The number in flight never exceeds the limit.
    pub open spec fn wf(&self) -> bool {
        self.spec_in_flight() <= self.spec_limit()
    }

    pub fn new(limit: usize) -> (g: AdmissionGate)
        requires
            limit >= 1,
        ensures
            g.wf(),
            g.spec_limit() == limit,
            g.spec_in_flight() == 0,
    {
        AdmissionGate { limit, in_flight: 0 }
    }

    /// Admit one probe task when a slot is free; refused exactly when the
    /// limit is reached, so admitted tasks never exceed the limit.
    pub fn try_admit(&mut self) -> (admitted: bool)
        requires
            old(self).wf(),
        ensures
            final(self).wf(),
            final(self).spec_limit() == old(self).spec_limit(),
            admitted == (old(self).spec_in_flight() < old(self).spec_limit()),
            admitted ==> final(self).spec_in_flight() == old(self).spec_in_flight() + 1,
            !admitted ==> final(self).spec_in_flight() == old(self).spec_in_flight(),
    {
        if self.in_flight < self.limit {
            self.in_flight += 1;
            true
        } else {
            false
        }
    }

    /// Release the slot of a completed probe task.
    pub fn release(&mut self)
        requires
            old(self).wf(),
            old(self).spec_in_flight() >= 1,
        ensures
            final(self).wf(),
            final(self).spec_limit() == old(self).spec_limit(),
            final(self).spec_in_flight() == old(self).spec_in_flight() - 1,
    {
        self.in_flight -= 1;
    }
}

/// What one probed path came to.
#[derive(Clone, Copy, Debug, PartialEq, Eq, Structural)]
pub enum Outcome {
    /// The response was not 2xx: the path is treated as absent; nothing is
    /// recorded and nothing is reported.
    Absent,
    /// A successful response judged noise; shown but never persisted.
    Suppressed,
    /// A successful response judged a finding; shown and persisted.
    Confirmed,
    /// The size-repetition threshold was reached: the operator must decide
    /// before this path's verdict is known.
    AwaitDecision,
}

/// A 2xx status.
pub open spec fn is_success_status(status: u16) -> bool {
    200 <= status < 300
}

/// The outcome a classification verdict maps to.
pub open spec fn outcome_of(c: Classification) -> Outcome {
    match c {
        Classification::Suppressed => Outcome::Suppressed,
        Classification::Confirmed => Outcome::Confirmed,
        Classification::AwaitDecision => Outcome::AwaitDecision,
    }
}

/// The bookkeeping of one scan run: the shared detection state, how many
/// candidate paths are accounted for, and how many findings were confirmed.
pub struct ScanRun {
    state: ScanState,
    total: usize,
    processed: usize,
    confirmed: usize,
}

impl ScanRun {
    /// The detection state's model.
    pub closed spec fn spec_state(&self) -> StateView {
        self.state@
    }

    /// How many candidate paths the run covers.
    pub closed spec fn spec_total(&self) -> nat {
        self.total as nat
    }

    /// How many candidate paths are fully accounted for.
    pub closed spec fn spec_processed(&self) -> nat {
        self.processed as nat
    }

    /// How many findings were confirmed so far.
    pub closed spec fn spec_confirmed(&self) -> nat {
        self.confirmed as nat
    }

    /// Progress never runs past the wordlist, and confirmed findings never
    /// outnumber the paths accounted for.
    pub closed spec fn inv(&self) -> bool {
        self.state.inv() && self.confirmed <= self.processed <= self.total
    }

    /// A run over `total` candidate paths, starting from the given
    /// detection state with nothing processed and nothing confirmed.
    pub fn new(state: ScanState, total: usize) -> (run: ScanRun)
        requires
            state.inv(),
        ensures
            run.inv(),
            run.spec_state() == state@,
            run.spec_total() == total,
            run.spec_processed() == 0,
            run.spec_confirmed() == 0,
    {
        ScanRun { state, total, processed: 0, confirmed: 0 }
    }

    /// Account for a probe that failed (timeout, connection failure, and the
    /// like): the failure is the caller's to log, the run itself only
    /// advances — nothing else changes, so the rest of the run is
    /// unaffected.
    pub fn record_failure(&mut self)
        requires
            old(self).inv(),
            old(self).spec_processed() < old(self).spec_total(),
        ensures
            final(self).inv(),
            final(self).spec_state() == old(self).spec_state(),
            final(self).spec_total() == old(self).spec_total(),
            final(self).spec_processed() == old(self).spec_processed() + 1,
            final(self).spec_confirmed() == old(self).spec_confirmed(),
    {
        self.processed += 1;
    }

    /// Route one probe response through the detection state.  A non-2xx
    /// status is an absence: nothing is recorded.  A 2xx response is
    /// classified as one atomic step on the shared state; a confirmed
    /// finding is counted, and `AwaitDecision` leaves the path pending
    /// until [`ScanRun::resolve`].
    pub fn process_response(&mut self, status: u16, body: &Vec<u8>) -> (o: Outcome)
        requires
            old(self).inv(),
            old(self).spec_processed() < old(self).spec_total(),
        ensures
            final(self).inv(),
            final(self).spec_total() == old(self).spec_total(),
            !is_success_status(status) ==> ({
                &&& o == Outcome::Absent
                &&& final(self).spec_state() == old(self).spec_state()
                &&& final(self).spec_processed() == old(self).spec_processed() + 1
                &&& final(self).spec_confirmed() == old(self).spec_confirmed()
            }),
            is_success_status(status) ==> ({
                let c = classify_result(old(self).spec_state(), body@, body@.len() as usize);
                let next = classify_next(old(self).spec_state(), body@, body@.len() as usize);
                &&& o == outcome_of(c)
                &&& final(self).spec_state() == next
                &&& (c == Classification::AwaitDecision ==> final(self).spec_processed()
                    == old(self).spec_processed() && final(self).spec_confirmed()
                    == old(self).spec_confirmed())
                &&& (c != Classification::AwaitDecision ==> final(self).spec_processed()
                    == old(self).spec_processed() + 1)
                &&& (c == Classification::Confirmed ==> final(self).spec_confirmed()
                    == old(self).spec_confirmed() + 1)
                &&& (c == Classification::Suppressed ==> final(self).spec_confirmed()
                    == old(self).spec_confirmed())
            }),
    {
        if !(200 <= status && status < 300) {
            self.processed += 1;
            return Outcome::Absent;
        }
        let size = body.len();
        match self.state.classify(body, size) {
            Classification::Suppressed => {
                self.processed += 1;
                Outcome::Suppressed
            },
            Classification::Confirmed => {
                self.processed += 1;
                self.confirmed += 1;
                Outcome::Confirmed
            },
            Classification::AwaitDecision => Outcome::AwaitDecision,
        }
    }

    /// Complete a pending path with the operator's decision: confirming the
    /// filter suppresses the pending probe and every later one of that size;
    /// declining confirms the pending probe as a finding.
    pub fn resolve(&mut self, size: usize, accept: bool) -> (o: Outcome)
        requires
            old(self).inv(),
            old(self).spec_processed() < old(self).spec_total(),
        ensures
            final(self).inv(),
            final(self).spec_total() == old(self).spec_total(),
            o == outcome_of(resolve_result(accept)),
            final(self).spec_state() == resolve_next(old(self).spec_state(), size, accept),
            final(self).spec_processed() == old(self).spec_processed() + 1,
            accept ==> final(self).spec_confirmed() == old(self).spec_confirmed(),
            !accept ==> final(self).spec_confirmed() == old(self).spec_confirmed() + 1,
    {
        let c = self.state.resolve_decision(size, accept);
        self.processed += 1;
        match c {
            Classification::Suppressed => Outcome::Suppressed,
            Classification::Confirmed => {
                self.confirmed += 1;
                Outcome::Confirmed
            },
            Classification::AwaitDecision => Outcome::AwaitDecision,
        }
    }

    /// Every candidate path has been accounted for.
    pub fn is_complete(&self) -> (r: bool)
        ensures
            r == (self.spec_processed() == self.spec_total()),
    {
        self.processed == self.total
    }

    /// The number of confirmed findings so far.
    pub fn confirmed_count(&self) -> (r: usize)
        ensures
            r == self.spec_confirmed(),
    {
        self.confirmed
    }

    /// The number of candidate paths accounted for so far.
    pub fn processed_count(&self) -> (r: usize)
        ensures
            r == self.spec_processed(),
    {
        self.processed
    }
}

} // verus!
