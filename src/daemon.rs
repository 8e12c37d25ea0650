use vstd::prelude::*;

verus! {

/// Minutes the daemon sleeps between cycles.
pub const SLEEP_TIME_MINUTES: u64 = 5;

/// Seconds the daemon sleeps between cycles.
pub const SLEEP_TIME_SECONDS: u64 = 60 * SLEEP_TIME_MINUTES;

/// The phases of one daemon cycle.
#[derive(Clone, Copy, Debug, PartialEq, Eq, Structural)]
pub enum Phase {
    Idle,
    Scheduling,
    Promoting,
    Delivering,
    Reporting,
    Sleeping,
}

/// How a phase ended.
#[derive(Clone, Copy, Debug, PartialEq, Eq, Structural)]
pub enum PhaseOutcome {
    /// The phase ran; failures of single items were contained in it.
    Completed,
    /// The store could not be reached; the rest of the cycle is skipped.
    StoreFailed,
}

/// The phase after `p` in an undisturbed cycle.
pub open spec fn following(p: Phase) -> Phase {
    match p {
        Phase::Idle => Phase::Scheduling,
        Phase::Scheduling => Phase::Promoting,
        Phase::Promoting => Phase::Delivering,
        Phase::Delivering => Phase::Reporting,
        Phase::Reporting => Phase::Sleeping,
        Phase::Sleeping => Phase::Idle,
    }
}

/// Phases that touch the store and so can fail on it.
pub open spec fn works(p: Phase) -> bool {
    p is Scheduling || p is Promoting || p is Delivering || p is Reporting
}

/// The phase that follows `phase` when it ended with `outcome`: the next one
/// of the cycle, or sleeping where a working phase lost the store.
pub fn next_phase(phase: Phase, outcome: PhaseOutcome) -> (r: Phase)
    ensures
        r == if works(phase) && outcome is StoreFailed {
            Phase::Sleeping
        } else {
            following(phase)
        },
{
    match (phase, outcome) {
        (Phase::Idle, _) => Phase::Scheduling,
        (Phase::Sleeping, _) => Phase::Idle,
        (_, PhaseOutcome::StoreFailed) => Phase::Sleeping,
        (Phase::Scheduling, PhaseOutcome::Completed) => Phase::Promoting,
        (Phase::Promoting, PhaseOutcome::Completed) => Phase::Delivering,
        (Phase::Delivering, PhaseOutcome::Completed) => Phase::Reporting,
        (Phase::Reporting, PhaseOutcome::Completed) => Phase::Sleeping,
    }
}

/// Whatever the outcomes, a cycle that leaves idle reaches sleeping within
/// five steps and idle again right after: the loop never stops on an error.
pub proof fn lemma_cycle_reaches_sleep(outcomes: Seq<PhaseOutcome>)
    requires
        outcomes.len() >= 5,
    ensures
        exists|n: int| 1 <= n <= 5 && #[trigger] run_phases(Phase::Idle, outcomes, n) == Phase::Sleeping,
{
    assert(run_phases(Phase::Idle, outcomes, 0) == Phase::Idle);
    let p1 = run_phases(Phase::Idle, outcomes, 1);
    assert(p1 == Phase::Scheduling);
    let p2 = run_phases(Phase::Idle, outcomes, 2);
    let p3 = run_phases(Phase::Idle, outcomes, 3);
    let p4 = run_phases(Phase::Idle, outcomes, 4);
    let p5 = run_phases(Phase::Idle, outcomes, 5);
    if p2 == Phase::Sleeping {
    } else if p3 == Phase::Sleeping {
    } else if p4 == Phase::Sleeping {
    } else {
        assert(p5 == Phase::Sleeping);
    }
}

/// The phase reached from `start` after `n` steps, step `i` ending with `outcomes[i]`.
pub open spec fn run_phases(start: Phase, outcomes: Seq<PhaseOutcome>, n: int) -> Phase
    decreases n,
{
    if n <= 0 {
        start
    } else {
        let p = run_phases(start, outcomes, n - 1);
        if works(p) && outcomes[n - 1] is StoreFailed {
            Phase::Sleeping
        } else {
            following(p)
        }
    }
}

} // verus!
