//! Deletion and its safety brake.
//!
//! The brake compares the number and total size of the files that a delete
//! stage would remove with its thresholds; when it is exceeded and
//! enforced, nothing is removed. Removing files is done outside the
//! library: [`plan`] says what to do, [`report`] records what came of it.

use vstd::prelude::*;
use crate::config::SafetyBrakeConfig;
use crate::scan::{FileCandidate, CandidateView, candidate_views};

verus! {

/// The brake's measurement of a delete stage.
#[derive(Debug, Clone, PartialEq, Eq)]
pub struct SafetyBrakeEvaluation {
    pub triggered: bool,
    pub count: usize,
    pub total_bytes: u64,
}

/// The total size of candidates.
pub open spec fn total_size(cs: Seq<CandidateView>) -> int
    decreases cs.len(),
{
    if cs.len() == 0 {
        0
    } else {
        total_size(cs.drop_last()) + cs.last().size
    }
}

/// Whether the brake is exceeded: more files than the count threshold, or
/// more bytes than the size threshold (an absent threshold is not checked).
pub open spec fn brake_exceeded(count: int, total: int, config: SafetyBrakeConfig) -> bool {
    ||| (config.count_threshold matches Some(t) && count > t)
    ||| (config.size_threshold_bytes matches Some(b) && total > b)
}

proof fn lemma_total_size_prefix(cs: Seq<CandidateView>, k: int)
    requires
        0 <= k <= cs.len(),
    ensures
        total_size(cs.take(k)) <= total_size(cs),
        0 <= total_size(cs.take(k)),
    decreases cs.len() - k,
{
    if k < cs.len() {
        assert(cs.drop_last().take(k) =~= cs.take(k));
        lemma_total_size_prefix(cs.drop_last(), k);
    } else {
        assert(cs.take(k) =~= cs);
    }
    lemma_total_size_nonneg(cs.take(k));
}

proof fn lemma_total_size_nonneg(cs: Seq<CandidateView>)
    ensures
        total_size(cs) >= 0,
    decreases cs.len(),
{
    if cs.len() > 0 {
        lemma_total_size_nonneg(cs.drop_last());
    }
}

/// Measures the files a delete stage would remove and compares them with
/// the brake's thresholds. The count threshold is exceeded only above it,
/// not at it; likewise the size threshold.
pub fn evaluate_safety_brake(candidates: &Vec<FileCandidate>, config: &SafetyBrakeConfig) -> (r: SafetyBrakeEvaluation)
    requires
        total_size(candidate_views(candidates@)) <= u64::MAX,
    ensures
        r.count == candidates@.len(),
        r.total_bytes == total_size(candidate_views(candidates@)),
        r.triggered == brake_exceeded(r.count as int, r.total_bytes as int, *config),
{
    let ghost cs = candidate_views(candidates@);
    let mut total: u64 = 0;
    let mut i: usize = 0;
    while i < candidates.len()
        invariant
            i <= candidates@.len(),
            cs == candidate_views(candidates@),
            total_size(cs) <= u64::MAX,
            total == total_size(cs.take(i as int)),
        decreases candidates@.len() - i,
    {
        proof {
            let t = cs.take(i + 1);
            assert(t.drop_last() =~= cs.take(i as int));
            assert(t.last() == cs[i as int]);
            lemma_total_size_prefix(cs, i + 1);
        }
        total = total + candidates[i].size_bytes;
        i = i + 1;
    }
    assert(cs.take(i as int) =~= cs);
    let count = candidates.len();
    let count_exceeded = match config.count_threshold {
        Some(t) => count as u64 > t,
        None => false,
    };
    let size_exceeded = match config.size_threshold_bytes {
        Some(b) => (total as i128) > b,
        None => false,
    };
    SafetyBrakeEvaluation { triggered: count_exceeded || size_exceeded, count, total_bytes: total }
}

#[derive(Debug, Clone, Copy, PartialEq, Eq)]
pub enum DeleteOutcome {
    Deleted,
    /// Not removed, because of a dry run.
    DryRun,
    /// Not removed, because the enforced brake was exceeded.
    Blocked,
    Failed,
}

#[derive(Debug, Clone, PartialEq, Eq)]
pub struct DeleteResult {
    pub path: String,
    pub outcome: DeleteOutcome,
}

#[derive(Debug, Clone, PartialEq, Eq)]
pub struct DeleteRunReport {
    pub evaluation: SafetyBrakeEvaluation,
    pub results: Vec<DeleteResult>,
}

/// What a delete stage does with its files.
#[derive(Debug, Clone, Copy, PartialEq, Eq)]
pub enum DeleteAction {
    /// Nothing, because the enforced brake was exceeded.
    Block,
    /// Nothing, because of a dry run.
    Simulate,
    /// Remove every file.
    Remove,
}

/// The plan of a delete stage: the brake's measurement and the action.
#[derive(Debug, Clone, PartialEq, Eq)]
pub struct DeletePlan {
    pub evaluation: SafetyBrakeEvaluation,
    pub action: DeleteAction,
}

/// The action of a delete stage: blocked when the brake is exceeded and
/// enforced (an exceeded brake that is not enforced only warns), else
/// simulated in a dry run, else removal.
pub open spec fn spec_action(triggered: bool, enforce: bool, dry_run: bool) -> DeleteAction {
    if triggered && enforce {
        DeleteAction::Block
    } else if dry_run {
        DeleteAction::Simulate
    } else {
        DeleteAction::Remove
    }
}

/// Plans a delete stage (see [`spec_action`]).
pub fn plan(candidates: &Vec<FileCandidate>, config: &SafetyBrakeConfig, dry_run: bool) -> (r: DeletePlan)
    requires
        total_size(candidate_views(candidates@)) <= u64::MAX,
    ensures
        r.evaluation.count == candidates@.len(),
        r.evaluation.total_bytes == total_size(candidate_views(candidates@)),
        r.evaluation.triggered == brake_exceeded(r.evaluation.count as int, r.evaluation.total_bytes as int, *config),
        r.action == spec_action(r.evaluation.triggered, config.enforce, dry_run),
{
    let evaluation = evaluate_safety_brake(candidates, config);
    let action = if evaluation.triggered && config.enforce {
        DeleteAction::Block
    } else if dry_run {
        DeleteAction::Simulate
    } else {
        DeleteAction::Remove
    };
    DeletePlan { evaluation, action }
}

/// The outcome of one file under an action; `removed` says whether its
/// removal succeeded, and matters only when the action is removal.
pub open spec fn spec_outcome(action: DeleteAction, removed: bool) -> DeleteOutcome {
    match action {
        DeleteAction::Block => DeleteOutcome::Blocked,
        DeleteAction::Simulate => DeleteOutcome::DryRun,
        DeleteAction::Remove => if removed { DeleteOutcome::Deleted } else { DeleteOutcome::Failed },
    }
}

/// Records what came of a delete stage: one result per file, in order.
/// `removed[i]` says whether removing the `i`-th file succeeded (it is read
/// only when the plan removes; a missing entry counts as a failure).
pub fn report(candidates: &Vec<FileCandidate>, plan: DeletePlan, removed: &Vec<bool>) -> (r: DeleteRunReport)
    ensures
        r.evaluation == plan.evaluation,
        r.results@.len() == candidates@.len(),
        forall|i: int| 0 <= i < candidates@.len() ==> (#[trigger] r.results@[i]).path@ == candidates@[i].path@
            && r.results@[i].outcome == spec_outcome(plan.action, i < removed@.len() && removed@[i]),
{
    let mut results: Vec<DeleteResult> = Vec::new();
    let mut i: usize = 0;
    while i < candidates.len()
        invariant
            i <= candidates@.len(),
            results@.len() == i,
            forall|j: int| 0 <= j < i ==> (#[trigger] results@[j]).path@ == candidates@[j].path@
                && results@[j].outcome == spec_outcome(plan.action, j < removed@.len() && removed@[j]),
        decreases candidates@.len() - i,
    {
        let outcome = match plan.action {
            DeleteAction::Block => DeleteOutcome::Blocked,
            DeleteAction::Simulate => DeleteOutcome::DryRun,
            DeleteAction::Remove => if i < removed.len() && removed[i] {
                DeleteOutcome::Deleted
            } else {
                DeleteOutcome::Failed
            },
        };
        results.push(DeleteResult { path: candidates[i].path.clone(), outcome });
        i = i + 1;
    }
    DeleteRunReport { evaluation: plan.evaluation, results }
}

/// The brake's thresholds are limits, not triggers: as many files and as
/// many bytes as the thresholds allow do not exceed the brake, and one file
/// or one byte more does.
pub proof fn law_brake_thresholds_are_strict(count: int, total: int, config: SafetyBrakeConfig)
    ensures
        (config.count_threshold matches Some(t) ==> count <= t)
            && (config.size_threshold_bytes matches Some(b) ==> total <= b)
            ==> !brake_exceeded(count, total, config),
        (config.count_threshold matches Some(t) && count == t + 1) ==> brake_exceeded(count, total, config),
        (config.size_threshold_bytes matches Some(b) && total == b + 1) ==> brake_exceeded(count, total, config),
{
}

/// A delete stage removes nothing in a dry run, nor when its brake is
/// exceeded and enforced; an exceeded brake that is not enforced does not
/// stop the removal.
pub proof fn law_delete_removes_only_when_allowed(triggered: bool, enforce: bool, dry_run: bool, removed: bool)
    ensures
        (dry_run || (triggered && enforce)) ==> spec_outcome(spec_action(triggered, enforce, dry_run), removed) != DeleteOutcome::Deleted,
        (triggered && enforce) ==> spec_outcome(spec_action(triggered, enforce, dry_run), removed) == DeleteOutcome::Blocked,
        (!dry_run && !(triggered && enforce) && removed) ==> spec_outcome(spec_action(triggered, enforce, dry_run), removed) == DeleteOutcome::Deleted,
{
}

/// A brake that did not trigger lets through no more files than its count
/// threshold and no more bytes than its size threshold.
pub proof fn law_untriggered_brake_bounds_the_stage(count: int, total: int, config: SafetyBrakeConfig)
    requires
        !brake_exceeded(count, total, config),
    ensures
        config.count_threshold matches Some(t) ==> count <= t,
        config.size_threshold_bytes matches Some(b) ==> total <= b,
{
}

} // verus!
