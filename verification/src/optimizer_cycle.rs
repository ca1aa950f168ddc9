//! The steps of one background segment optimization cycle and the order in
//! which they run.
//!
//! A cycle makes a copy-on-write snapshot of the segment, optimizes the
//! snapshot into a new directory, swaps the optimized segment in (current
//! to backup, optimized to current, backup removed) and removes the
//! snapshot. The file work is done by the caller, which reports whether
//! each step succeeded; the first failure ends the cycle. The swap is all or
//! nothing: when the optimized segment cannot be moved into place after the
//! current one went to its backup, the backup is moved back before the
//! cycle ends, so the segment is never left missing.
use vstd::prelude::*;

verus! {

/// A step of an optimization cycle, or its end.
#[derive(Debug, Clone, Copy, PartialEq, Eq, Structural)]
pub enum CycleStep {
    /// Hard-link the segment's files into a snapshot directory.
    CreateSnapshot,
    /// Build the optimized segment from the snapshot.
    Optimize,
    /// Rename the current segment to its backup.
    MoveCurrentToBackup,
    /// Rename the optimized segment to the current one.
    MoveOptimizedIntoPlace,
    /// Remove the backup of the old segment.
    RemoveBackup,
    /// Rename the backup back to the current segment, after the optimized
    /// segment could not be moved into place.
    RestoreBackup,
    /// Remove the snapshot directory.
    RemoveSnapshot,
    /// Every step succeeded.
    Finished,
    /// A step failed; no further step runs.
    Failed,
}

/// Whether the cycle is over.
pub open spec fn is_terminal(step: CycleStep) -> bool {
    step == CycleStep::Finished || step == CycleStep::Failed
}

/// The step after `step` when it succeeded.
pub open spec fn after_success(step: CycleStep) -> CycleStep {
    match step {
        CycleStep::CreateSnapshot => CycleStep::Optimize,
        CycleStep::Optimize => CycleStep::MoveCurrentToBackup,
        CycleStep::MoveCurrentToBackup => CycleStep::MoveOptimizedIntoPlace,
        CycleStep::MoveOptimizedIntoPlace => CycleStep::RemoveBackup,
        CycleStep::RemoveBackup => CycleStep::RemoveSnapshot,
        CycleStep::RemoveSnapshot => CycleStep::Finished,
        CycleStep::RestoreBackup => CycleStep::Failed,
        CycleStep::Finished => CycleStep::Finished,
        CycleStep::Failed => CycleStep::Failed,
    }
}

/// The step after `step` when it failed: restoring the backup when the
/// optimized segment could not take the current one's place, the failed end
/// otherwise.
pub open spec fn after_failure(step: CycleStep) -> CycleStep {
    match step {
        CycleStep::MoveOptimizedIntoPlace => CycleStep::RestoreBackup,
        CycleStep::Finished => CycleStep::Finished,
        _ => CycleStep::Failed,
    }
}

/// The first step of a cycle.
pub fn first_step() -> (s: CycleStep)
    ensures
        s == CycleStep::CreateSnapshot,
{
    CycleStep::CreateSnapshot
}

/// The step to run after `step`, given whether it succeeded: the next step
/// on success; on failure the backup is restored if the optimized segment
/// could not be moved into place, and the cycle ends failed otherwise (also
/// after a restore, whatever its outcome); an ended cycle stays ended.
pub fn next_step(step: CycleStep, succeeded: bool) -> (next: CycleStep)
    ensures
        is_terminal(step) ==> next == step,
        !is_terminal(step) && succeeded ==> next == after_success(step),
        !is_terminal(step) && !succeeded ==> next == after_failure(step),
{
    match step {
        CycleStep::Finished => CycleStep::Finished,
        CycleStep::Failed => CycleStep::Failed,
        CycleStep::RestoreBackup => CycleStep::Failed,
        _ => {
            if !succeeded {
                match step {
                    CycleStep::MoveOptimizedIntoPlace => CycleStep::RestoreBackup,
                    _ => CycleStep::Failed,
                }
            } else {
                match step {
                    CycleStep::CreateSnapshot => CycleStep::Optimize,
                    CycleStep::Optimize => CycleStep::MoveCurrentToBackup,
                    CycleStep::MoveCurrentToBackup => CycleStep::MoveOptimizedIntoPlace,
                    CycleStep::MoveOptimizedIntoPlace => CycleStep::RemoveBackup,
                    CycleStep::RemoveBackup => CycleStep::RemoveSnapshot,
                    _ => CycleStep::Finished,
                }
            }
        },
    }
}

/// The step reached after the steps from `step` on report `outcomes` in
/// turn.
pub open spec fn run_steps(step: CycleStep, outcomes: Seq<bool>) -> CycleStep
    decreases outcomes.len(),
{
    if outcomes.len() == 0 {
        step
    } else {
        let next = if is_terminal(step) {
            step
        } else if outcomes[0] {
            after_success(step)
        } else {
            after_failure(step)
        };
        run_steps(next, outcomes.drop_first())
    }
}

/// Every working step moves the cycle forward, so a cycle ends after at
/// most six reports: it finishes when all six steps succeed, and ends in
/// failure when one fails, whatever is reported after (a failed move of the
/// optimized segment costs one more report, for the restore).
pub proof fn lemma_cycle_runs_in_order(outcomes: Seq<bool>)
    requires
        outcomes.len() == 6,
    ensures
        (forall|i: int| 0 <= i < 6 ==> #[trigger] outcomes[i]) ==> run_steps(
            CycleStep::CreateSnapshot,
            outcomes,
        ) == CycleStep::Finished,
        (exists|i: int| 0 <= i < 6 && !#[trigger] outcomes[i]) ==> run_steps(
            CycleStep::CreateSnapshot,
            outcomes,
        ) == CycleStep::Failed,
{
    reveal_with_fuel(run_steps, 7);
    let o = outcomes;
    assert(o.drop_first() =~= o.subrange(1, 6));
    assert(o.subrange(1, 6).drop_first() =~= o.subrange(2, 6));
    assert(o.subrange(2, 6).drop_first() =~= o.subrange(3, 6));
    assert(o.subrange(3, 6).drop_first() =~= o.subrange(4, 6));
    assert(o.subrange(4, 6).drop_first() =~= o.subrange(5, 6));
    assert(o.subrange(5, 6).drop_first() =~= o.subrange(6, 6));
    assert(o.subrange(1, 6)[0] == o[1]);
    assert(o.subrange(2, 6)[0] == o[2]);
    assert(o.subrange(3, 6)[0] == o[3]);
    assert(o.subrange(4, 6)[0] == o[4]);
    assert(o.subrange(5, 6)[0] == o[5]);
    lemma_terminal_stays(CycleStep::Failed, o.subrange(1, 6));
    lemma_terminal_stays(CycleStep::Failed, o.subrange(2, 6));
    lemma_terminal_stays(CycleStep::Failed, o.subrange(3, 6));
    lemma_terminal_stays(CycleStep::Failed, o.subrange(4, 6));
    lemma_terminal_stays(CycleStep::Failed, o.subrange(5, 6));
}

/// Once a cycle has ended, further reports change nothing.
pub proof fn lemma_terminal_stays(step: CycleStep, outcomes: Seq<bool>)
    requires
        is_terminal(step),
    ensures
        run_steps(step, outcomes) == step,
    decreases outcomes.len(),
{
    if outcomes.len() > 0 {
        lemma_terminal_stays(step, outcomes.drop_first());
    }
}

} // verus!
