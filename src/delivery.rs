use vstd::prelude::*;

use crate::store::Location;

verus! {

/// Per-recipient outcomes for a transport that answers for the whole
/// message: every recipient gets the one outcome, so a single refusal fails
/// them all.
pub fn uniform_outcomes(recipients: usize, outcome: &Result<(), String>) -> (r: Vec<Result<(), String>>)
    ensures
        r@.len() == recipients,
        forall|k: int| 0 <= k < recipients ==> #[trigger] r@[k] == *outcome,
{
    let mut out: Vec<Result<(), String>> = Vec::new();
    let mut i: usize = 0;
    while i < recipients
        invariant
            i <= recipients,
            out@.len() == i,
            forall|k: int| 0 <= k < i ==> #[trigger] out@[k] == *outcome,
        decreases recipients - i,
    {
        let copy: Result<(), String> = if outcome.is_ok() {
            let ghost u: () = outcome->Ok_0;
            assert(u == ());
            Ok(())
        } else {
            let reason: &String = outcome.as_ref().unwrap_err();
            Err(reason.clone())
        };
        assert(copy == *outcome);
        out.push(copy);
        i = i + 1;
    }
    out
}

/// How many of `locations` are `target`.
pub open spec fn count_at(locations: Seq<Location>, target: Location) -> nat
    decreases locations.len(),
{
    if locations.len() == 0 {
        0
    } else {
        count_at(locations.drop_last(), target) + if locations.last() == target {
            1nat
        } else {
            0nat
        }
    }
}

proof fn lemma_count_bounded(locations: Seq<Location>, target: Location)
    ensures
        count_at(locations, target) <= locations.len(),
    decreases locations.len(),
{
    if locations.len() > 0 {
        lemma_count_bounded(locations.drop_last(), target);
    }
}

/// The outcome of one delivery phase.
#[derive(Clone, Copy, Debug, PartialEq, Eq, Structural)]
pub struct CycleReport {
    pub sent: u64,
    pub failed: u64,
}

/// Counts the messages that a delivery phase moved to sent and to failed,
/// from the location each attempt ended in.
pub fn cycle_report(locations: &Vec<Location>) -> (r: CycleReport)
    ensures
        r.sent == count_at(locations@, Location::Sent),
        r.failed == count_at(locations@, Location::Failed),
{
    let mut sent: u64 = 0;
    let mut failed: u64 = 0;
    let mut i: usize = 0;
    while i < locations.len()
        invariant
            i <= locations@.len(),
            sent == count_at(locations@.take(i as int), Location::Sent),
            failed == count_at(locations@.take(i as int), Location::Failed),
        decreases locations.len() - i,
    {
        proof {
            assert(locations@.take(i as int + 1).drop_last() =~= locations@.take(i as int));
            lemma_count_bounded(locations@.take(i as int), Location::Sent);
            lemma_count_bounded(locations@.take(i as int), Location::Failed);
        }
        if locations[i] == Location::Sent {
            sent = sent + 1;
        } else if locations[i] == Location::Failed {
            failed = failed + 1;
        }
        i = i + 1;
    }
    proof {
        assert(locations@.take(locations@.len() as int) =~= locations@);
    }
    CycleReport { sent, failed }
}

} // verus!
