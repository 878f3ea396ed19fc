//! Worker-pool accounting: a fixed number of workers each runs a fixed
//! number of iterations, and per-iteration failure is a policy decision,
//! not a stop condition.
//!
//! The pool's scheduling loop itself suspends on I/O and lives outside;
//! here are the decisions it consults — whether a worker continues — and
//! the laws they obey: under the continue-on-error policy every worker
//! attempts all its iterations, whatever their outcomes, so a pool of
//! `N` workers with `M` iterations each attempts exactly `N * M` runs.

use vstd::prelude::*;
use vstd::slice::slice_subrange;
use crate::session::IterationError;

verus! {

/// Outcome of one iteration as the worker loop sees it.
#[derive(Clone, Copy, PartialEq, Eq, Structural, Debug)]
pub enum IterationOutcome {
    Completed,
    Failed { error: IterationError },
}

/// Whether an outcome counts as success.
pub open spec fn outcome_ok(o: IterationOutcome) -> bool {
    o is Completed
}

/// The worker policy: whether a failed iteration stops its worker.
/// This workflow runs best-effort and keeps going; a reuse that wants
/// fail-fast opts out explicitly.
#[derive(Clone, Copy, PartialEq, Eq, Structural, Debug)]
pub struct PoolPolicy {
    pub continue_on_error: bool,
}

/// How many iterations one worker attempts: it takes its iterations in
/// order, consuming one outcome per attempt, and stops early only when
/// an attempt fails under a fail-fast policy.
pub open spec fn spec_worker_attempts(
    policy: PoolPolicy,
    total: nat,
    outcomes: Seq<IterationOutcome>,
) -> nat
    decreases total,
{
    if total == 0 || outcomes.len() == 0 {
        0
    } else if !outcome_ok(outcomes[0]) && !policy.continue_on_error {
        1
    } else {
        1 + spec_worker_attempts(
            policy,
            (total - 1) as nat,
            outcomes.subrange(1, outcomes.len() as int),
        )
    }
}

/// How many iterations a pool attempts: the sum over its workers.
pub open spec fn spec_pool_attempts(
    policy: PoolPolicy,
    total: nat,
    outcomes: Seq<Seq<IterationOutcome>>,
) -> nat
    decreases outcomes.len(),
{
    if outcomes.len() == 0 {
        0
    } else {
        spec_worker_attempts(policy, total, outcomes[0]) + spec_pool_attempts(
            policy,
            total,
            outcomes.subrange(1, outcomes.len() as int),
        )
    }
}

/// A worker never attempts more than its configured total.
pub proof fn lemma_worker_attempts_le(policy: PoolPolicy, total: nat, outcomes: Seq<IterationOutcome>)
    ensures
        spec_worker_attempts(policy, total, outcomes) <= total,
    decreases total,
{
    if total > 0 && outcomes.len() > 0 && (outcome_ok(outcomes[0]) || policy.continue_on_error) {
        lemma_worker_attempts_le(
            policy,
            (total - 1) as nat,
            outcomes.subrange(1, outcomes.len() as int),
        );
    }
}

/// Law: under the continue-on-error policy a worker attempts every one
/// of its iterations — a failure in one iteration never prevents the
/// next.
pub proof fn lemma_worker_attempts_all(
    policy: PoolPolicy,
    total: nat,
    outcomes: Seq<IterationOutcome>,
)
    requires
        policy.continue_on_error,
        outcomes.len() >= total,
    ensures
        spec_worker_attempts(policy, total, outcomes) == total,
    decreases total,
{
    if total > 0 {
        lemma_worker_attempts_all(
            policy,
            (total - 1) as nat,
            outcomes.subrange(1, outcomes.len() as int),
        );
    }
}

/// Law: under the continue-on-error policy a pool of `N` workers with
/// `M` iterations each attempts exactly `N * M` runs, whatever the
/// outcomes of the individual runs — no worker's failures affect any
/// other worker.
pub proof fn lemma_pool_attempts_exact(
    policy: PoolPolicy,
    total: nat,
    outcomes: Seq<Seq<IterationOutcome>>,
)
    requires
        policy.continue_on_error,
        forall|w: int| 0 <= w < outcomes.len() ==> (#[trigger] outcomes[w]).len() >= total,
    ensures
        spec_pool_attempts(policy, total, outcomes) == outcomes.len() * total,
    decreases outcomes.len(),
{
    if outcomes.len() == 0 {
        assert(outcomes.len() * total == 0) by (nonlinear_arith)
            requires
                outcomes.len() == 0,
        ;
    } else {
        let rest = outcomes.subrange(1, outcomes.len() as int);
        lemma_worker_attempts_all(policy, total, outcomes[0]);
        lemma_pool_attempts_exact(policy, total, rest);
        assert(outcomes.len() * total == rest.len() * total + total) by (nonlinear_arith)
            requires
                outcomes.len() >= 1,
                rest.len() == outcomes.len() - 1,
        ;
    }
}

/// The loop state of one worker.
#[derive(Clone, Copy, PartialEq, Eq, Structural, Debug)]
pub struct WorkerState {
    /// Iterations this worker will run.
    pub total: u16,
    /// Iterations attempted so far.
    pub completed: u16,
    /// Whether a fail-fast policy has stopped this worker.
    pub stopped: bool,
}

impl WorkerState {
    /// A fresh worker that has attempted nothing.
    pub fn new(total: u16) -> (r: WorkerState)
        ensures
            r == (WorkerState { total, completed: 0, stopped: false }),
    {
        WorkerState { total, completed: 0, stopped: false }
    }

    /// Whether this worker runs another iteration.
    pub fn has_next(&self) -> (r: bool)
        ensures
            r == (!self.stopped && self.completed < self.total),
    {
        !self.stopped && self.completed < self.total
    }

    /// Records the outcome of one attempted iteration.  The attempt
    /// always counts; only the policy decides whether a failure stops
    /// the worker.
    pub fn record(&mut self, outcome: IterationOutcome, policy: PoolPolicy)
        requires
            old(self).completed < old(self).total,
        ensures
            final(self).total == old(self).total,
            final(self).completed == old(self).completed + 1,
            final(self).stopped == (old(self).stopped || (!outcome_ok(outcome)
                && !policy.continue_on_error)),
    {
        self.completed = self.completed + 1;
        let failed = match outcome {
            IterationOutcome::Completed => false,
            IterationOutcome::Failed { error: _ } => true,
        };
        if failed && !policy.continue_on_error {
            self.stopped = true;
        }
    }
}

/// Replays one worker's loop over given outcomes and counts its
/// attempts.
pub fn simulate_worker(total: u16, policy: PoolPolicy, outcomes: &[IterationOutcome]) -> (r: u64)
    ensures
        r == spec_worker_attempts(policy, total as nat, outcomes@),
    decreases total,
{
    if total == 0 || outcomes.len() == 0 {
        return 0;
    }
    let first = outcomes[0];
    let ok = match first {
        IterationOutcome::Completed => true,
        IterationOutcome::Failed { error: _ } => false,
    };
    if !ok && !policy.continue_on_error {
        return 1;
    }
    let rest = slice_subrange(outcomes, 1, outcomes.len());
    let sub = simulate_worker(total - 1, policy, rest);
    proof {
        lemma_worker_attempts_le(policy, (total - 1) as nat, rest@);
    }
    1 + sub
}

} // verus!
