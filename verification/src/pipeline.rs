//! The bookkeeping of a job run.
//!
//! A job runs its stages one after the other, in the order they are
//! written. Each stage scans its own targets, leaves out files in use and
//! files whose grace period has not elapsed, and acts on the rest. The
//! scanning and the file operations are done outside the library; the
//! functions here decide which files a stage acts on and record in the
//! [`JobSummary`] what came of each.

use vstd::prelude::*;
use crate::archive::{SingleFileRunResult, BundleGroupResult};
use crate::datetime::{Timestamp, elapsed_days, spec_elapsed_days, nanos_per_day, duration_nanos, second_of_day, in_range,
    at_instant, days_later, nanosecond_before, law_elapsed_days_counts_whole_days, law_elapsed_days_is_monotone};
use crate::delete::{DeleteRunReport, DeleteOutcome, total_size};
use crate::error::{NeatnikError, neatnik_error_text, archive_error_text};
use crate::relocate::{RelocateResult, RelocateOutcome};
use crate::scan::{FileCandidate, CandidateView, candidate_views};
use crate::text::{string_views, opt_view};

verus! {

#[derive(Debug, Clone, Copy, PartialEq, Eq, Structural)]
pub enum StageKind {
    Archive,
    Relocate,
    Delete,
}

#[derive(Debug, Clone, Copy, PartialEq, Eq, Structural)]
pub enum OutcomeStatus {
    Skipped,
    Failed,
}

/// A file that a stage passed over or failed on (successes are counted in
/// the summary instead).
#[derive(Debug, Clone)]
pub struct StageOutcome {
    pub path: String,
    pub stage: StageKind,
    pub status: OutcomeStatus,
    pub reason: Option<String>,
}

/// What a stage outcome says.
pub ghost struct OutcomeView {
    pub path: Seq<char>,
    pub stage: StageKind,
    pub status: OutcomeStatus,
    pub reason: Option<Seq<char>>,
}

impl View for StageOutcome {
    type V = OutcomeView;

    open spec fn view(&self) -> OutcomeView {
        OutcomeView { path: self.path@, stage: self.stage, status: self.status, reason: opt_view(self.reason) }
    }
}

/// The views of stage outcomes.
pub open spec fn outcome_views(v: Seq<StageOutcome>) -> Seq<OutcomeView> {
    Seq::new(v.len(), |i: int| v[i]@)
}

/// The summary of one run of a job.
#[derive(Debug, Clone, Default)]
pub struct JobSummary {
    pub job_name: String,
    pub archived_count: u64,
    pub archived_bytes: u64,
    pub relocated_count: u64,
    pub relocated_bytes: u64,
    pub deleted_count: u64,
    pub deleted_bytes: u64,
    pub skipped: Vec<StageOutcome>,
    pub failed: Vec<StageOutcome>,
    pub safety_brake_triggered: bool,
}

/// What a summary says.
#[verifier::ext_equal]
pub ghost struct SummaryView {
    pub job_name: Seq<char>,
    pub archived_count: int,
    pub archived_bytes: int,
    pub relocated_count: int,
    pub relocated_bytes: int,
    pub deleted_count: int,
    pub deleted_bytes: int,
    pub skipped: Seq<OutcomeView>,
    pub failed: Seq<OutcomeView>,
    pub safety_brake_triggered: bool,
}

impl View for JobSummary {
    type V = SummaryView;

    open spec fn view(&self) -> SummaryView {
        SummaryView {
            job_name: self.job_name@,
            archived_count: self.archived_count as int,
            archived_bytes: self.archived_bytes as int,
            relocated_count: self.relocated_count as int,
            relocated_bytes: self.relocated_bytes as int,
            deleted_count: self.deleted_count as int,
            deleted_bytes: self.deleted_bytes as int,
            skipped: outcome_views(self.skipped@),
            failed: outcome_views(self.failed@),
            safety_brake_triggered: self.safety_brake_triggered,
        }
    }
}

/// An outcome for a file.
pub open spec fn outcome(path: Seq<char>, stage: StageKind, status: OutcomeStatus, reason: Seq<char>) -> OutcomeView {
    OutcomeView { path, stage, status, reason: Some(reason) }
}

pub open spec fn in_use_reason() -> Seq<char> {
    "file is in use (BR-7)"@
}

/// The reason given for a file whose grace period has not elapsed.
pub open spec fn grace_reason(stage: StageKind) -> Seq<char> {
    match stage {
        StageKind::Archive => "archive grace period not elapsed"@,
        StageKind::Relocate => "relocate grace period not elapsed"@,
        StageKind::Delete => "delete grace period not elapsed"@,
    }
}

pub open spec fn stale_reason() -> Seq<char> {
    "bundle member newer than existing bundle (BR-3)"@
}

pub open spec fn conflict_skip_reason() -> Seq<char> {
    "destination conflict, on_conflict=skip (BR-12)"@
}

pub open spec fn brake_reason() -> Seq<char> {
    "safety brake triggered (BR-13)"@
}

pub open spec fn delete_failed_reason() -> Seq<char> {
    "failed to delete file"@
}

/// The summary with only its skipped outcomes extended.
pub open spec fn with_skipped(s: SummaryView, more: Seq<OutcomeView>) -> SummaryView {
    SummaryView { skipped: s.skipped + more, ..s }
}

/// The summary of a job before anything is recorded.
pub open spec fn empty_summary(job_name: Seq<char>) -> SummaryView {
    SummaryView {
        job_name,
        archived_count: 0,
        archived_bytes: 0,
        relocated_count: 0,
        relocated_bytes: 0,
        deleted_count: 0,
        deleted_bytes: 0,
        skipped: seq![],
        failed: seq![],
        safety_brake_triggered: false,
    }
}

impl JobSummary {
    /// An empty summary for a job.
    pub fn new(job_name: &str) -> (r: JobSummary)
        ensures
            r@ == (SummaryView {
                job_name: job_name@,
                archived_count: 0,
                archived_bytes: 0,
                relocated_count: 0,
                relocated_bytes: 0,
                deleted_count: 0,
                deleted_bytes: 0,
                skipped: seq![],
                failed: seq![],
                safety_brake_triggered: false,
            }),
    {
        let r = JobSummary {
            job_name: job_name.to_owned(),
            archived_count: 0,
            archived_bytes: 0,
            relocated_count: 0,
            relocated_bytes: 0,
            deleted_count: 0,
            deleted_bytes: 0,
            skipped: Vec::new(),
            failed: Vec::new(),
            safety_brake_triggered: false,
        };
        assert(outcome_views(r.skipped@) =~= Seq::<OutcomeView>::empty());
        assert(outcome_views(r.failed@) =~= Seq::<OutcomeView>::empty());
        r
    }
}

fn push_outcome(list: &mut Vec<StageOutcome>, path: &String, stage: StageKind, status: OutcomeStatus, reason: &str)
    ensures
        outcome_views(final(list)@) == outcome_views(old(list)@).push(outcome(path@, stage, status, reason@)),
{
    let ghost before = list@;
    list.push(StageOutcome { path: path.clone(), stage, status, reason: Some(reason.to_owned()) });
    assert(outcome_views(list@) =~= outcome_views(before).push(outcome(path@, stage, status, reason@)));
}

/// The candidates that are not in use, in order.
pub open spec fn not_in_use(cs: Seq<CandidateView>) -> Seq<CandidateView>
    decreases cs.len(),
{
    if cs.len() == 0 {
        seq![]
    } else {
        let rest = not_in_use(cs.drop_last());
        if !cs.last().in_use { rest.push(cs.last()) } else { rest }
    }
}

/// The skipped outcomes of the candidates in use, in order.
pub open spec fn in_use_outcomes(cs: Seq<CandidateView>, stage: StageKind) -> Seq<OutcomeView>
    decreases cs.len(),
{
    if cs.len() == 0 {
        seq![]
    } else {
        let rest = in_use_outcomes(cs.drop_last(), stage);
        if cs.last().in_use {
            rest.push(outcome(cs.last().path, stage, OutcomeStatus::Skipped, in_use_reason()))
        } else {
            rest
        }
    }
}

/// Leaves out the candidates that are in use, recording each as skipped,
/// and returns the others in order.
pub fn take_usable(summary: &mut JobSummary, candidates: &Vec<FileCandidate>, stage: StageKind) -> (r: Vec<FileCandidate>)
    ensures
        candidate_views(r@) == not_in_use(candidate_views(candidates@)),
        final(summary)@ == with_skipped(old(summary)@, in_use_outcomes(candidate_views(candidates@), stage)),
{
    let ghost cs = candidate_views(candidates@);
    let ghost start = summary@;
    let mut usable: Vec<FileCandidate> = Vec::new();
    let mut i: usize = 0;
    assert(start.skipped + in_use_outcomes(cs.take(0), stage) =~= start.skipped);
    assert(summary@ =~= with_skipped(start, in_use_outcomes(cs.take(0), stage)));
    while i < candidates.len()
        invariant
            i <= candidates@.len(),
            cs == candidate_views(candidates@),
            candidate_views(usable@) == not_in_use(cs.take(i as int)),
            summary@ == with_skipped(start, in_use_outcomes(cs.take(i as int), stage)),
        decreases candidates@.len() - i,
    {
        let c = &candidates[i];
        let ghost t = cs.take(i + 1);
        assert(t.drop_last() =~= cs.take(i as int));
        assert(t.last() == cs[i as int]);
        assert(cs[i as int] == c@);
        if c.in_use {
            push_outcome(&mut summary.skipped, &c.path, stage, OutcomeStatus::Skipped, "file is in use (BR-7)");
            assert(summary@ =~= with_skipped(start, in_use_outcomes(t, stage)));
        } else {
            let ghost before = usable@;
            usable.push(c.clone());
            assert(candidate_views(usable@) =~= candidate_views(before).push(c@));
            assert(summary@ =~= with_skipped(start, in_use_outcomes(t, stage)));
        }
        i = i + 1;
    }
    assert(cs.take(i as int) =~= cs);
    usable
}

/// Whether a file is due: at least `after_days` whole days have elapsed
/// from its basis to `now` (a threshold of exactly that many days counts).
pub open spec fn is_due(now: (int, int), basis: (int, int), after_days: u32) -> bool {
    spec_elapsed_days(now, basis) >= after_days
}

/// Whether a file is due (see [`is_due`]).
pub fn due(now: &Timestamp, basis: &Timestamp, after_days: u32) -> (r: bool)
    ensures
        r == is_due(now@, basis@, after_days),
{
    elapsed_days(now, basis) >= after_days as i64
}

/// The candidates that are due, in order.
pub open spec fn due_candidates(cs: Seq<CandidateView>, now: (int, int), after_days: u32) -> Seq<CandidateView>
    decreases cs.len(),
{
    if cs.len() == 0 {
        seq![]
    } else {
        let rest = due_candidates(cs.drop_last(), now, after_days);
        if is_due(now, cs.last().basis, after_days) { rest.push(cs.last()) } else { rest }
    }
}

/// The skipped outcomes of the candidates that are not due, in order.
pub open spec fn not_due_outcomes(cs: Seq<CandidateView>, now: (int, int), after_days: u32, stage: StageKind) -> Seq<OutcomeView>
    decreases cs.len(),
{
    if cs.len() == 0 {
        seq![]
    } else {
        let rest = not_due_outcomes(cs.drop_last(), now, after_days, stage);
        if !is_due(now, cs.last().basis, after_days) {
            rest.push(outcome(cs.last().path, stage, OutcomeStatus::Skipped, grace_reason(stage)))
        } else {
            rest
        }
    }
}

fn grace_text(stage: StageKind) -> (r: &'static str)
    ensures
        r@ == grace_reason(stage),
{
    match stage {
        StageKind::Archive => "archive grace period not elapsed",
        StageKind::Relocate => "relocate grace period not elapsed",
        StageKind::Delete => "delete grace period not elapsed",
    }
}

/// Leaves out the candidates whose grace period has not elapsed, recording
/// each as skipped, and returns the due ones in order.
pub fn take_due(summary: &mut JobSummary, candidates: &Vec<FileCandidate>, now: &Timestamp, after_days: u32, stage: StageKind) -> (r: Vec<FileCandidate>)
    ensures
        candidate_views(r@) == due_candidates(candidate_views(candidates@), now@, after_days),
        final(summary)@ == with_skipped(old(summary)@, not_due_outcomes(candidate_views(candidates@), now@, after_days, stage)),
{
    let ghost cs = candidate_views(candidates@);
    let ghost start = summary@;
    let mut eligible: Vec<FileCandidate> = Vec::new();
    let mut i: usize = 0;
    assert(start.skipped + not_due_outcomes(cs.take(0), now@, after_days, stage) =~= start.skipped);
    assert(summary@ =~= with_skipped(start, not_due_outcomes(cs.take(0), now@, after_days, stage)));
    while i < candidates.len()
        invariant
            i <= candidates@.len(),
            cs == candidate_views(candidates@),
            candidate_views(eligible@) == due_candidates(cs.take(i as int), now@, after_days),
            summary@ == with_skipped(start, not_due_outcomes(cs.take(i as int), now@, after_days, stage)),
        decreases candidates@.len() - i,
    {
        let c = &candidates[i];
        let ghost t = cs.take(i + 1);
        assert(t.drop_last() =~= cs.take(i as int));
        assert(t.last() == cs[i as int]);
        assert(cs[i as int] == c@);
        if due(now, &c.basis_datetime, after_days) {
            let ghost before = eligible@;
            eligible.push(c.clone());
            assert(candidate_views(eligible@) =~= candidate_views(before).push(c@));
            assert(summary@ =~= with_skipped(start, not_due_outcomes(t, now@, after_days, stage)));
        } else {
            push_outcome(&mut summary.skipped, &c.path, stage, OutcomeStatus::Skipped, grace_text(stage));
            assert(summary@ =~= with_skipped(start, not_due_outcomes(t, now@, after_days, stage)));
        }
        i = i + 1;
    }
    assert(cs.take(i as int) =~= cs);
    eligible
}

/// Counts due files as archived in a dry run.
pub fn record_archive_dry_run(summary: &mut JobSummary, eligible: &Vec<FileCandidate>)
    requires
        old(summary).archived_count + eligible@.len() <= u64::MAX,
        old(summary).archived_bytes + total_size(candidate_views(eligible@)) <= u64::MAX,
    ensures
        final(summary)@ == (SummaryView {
            archived_count: old(summary)@.archived_count + eligible@.len(),
            archived_bytes: old(summary)@.archived_bytes + total_size(candidate_views(eligible@)),
            ..old(summary)@
        }),
{
    let ghost cs = candidate_views(eligible@);
    let ghost start = summary@;
    let mut bytes: u64 = 0;
    let mut i: usize = 0;
    while i < eligible.len()
        invariant
            i <= eligible@.len(),
            cs == candidate_views(eligible@),
            summary@ == start,
            start.archived_bytes + total_size(cs) <= u64::MAX,
            bytes == total_size(cs.take(i as int)),
        decreases eligible@.len() - i,
    {
        proof {
            let t = cs.take(i + 1);
            assert(t.drop_last() =~= cs.take(i as int));
            assert(t.last() == cs[i as int]);
            lemma_total_size_prefix(cs, i + 1);
        }
        bytes = bytes + eligible[i].size_bytes;
        i = i + 1;
    }
    assert(cs.take(i as int) =~= cs);
    summary.archived_count = summary.archived_count + eligible.len() as u64;
    summary.archived_bytes = summary.archived_bytes + bytes;
}

pub(crate) proof fn lemma_total_size_prefix(cs: Seq<CandidateView>, k: int)
    requires
        0 <= k <= cs.len(),
    ensures
        0 <= total_size(cs.take(k)) <= total_size(cs),
    decreases cs.len() - k,
{
    if k < cs.len() {
        assert(cs.drop_last().take(k) =~= cs.take(k));
        lemma_total_size_prefix(cs.drop_last(), k);
        lemma_total_size_nonneg(cs.drop_last());
    } else {
        assert(cs.take(k) =~= cs);
        lemma_total_size_nonneg(cs);
    }
}

pub(crate) proof fn lemma_total_size_nonneg(cs: Seq<CandidateView>)
    ensures
        total_size(cs) >= 0,
    decreases cs.len(),
{
    if cs.len() > 0 {
        lemma_total_size_nonneg(cs.drop_last());
    }
}

/// Records what came of archiving one file: counted when archived, a
/// failure (with the error's message) otherwise.
pub fn record_single_archive(summary: &mut JobSummary, candidate: &FileCandidate, result: &Result<SingleFileRunResult, NeatnikError>)
    requires
        old(summary).archived_count + 1 <= u64::MAX,
        old(summary).archived_bytes + candidate.size_bytes <= u64::MAX,
    ensures
        result is Ok ==> final(summary)@ == (SummaryView {
            archived_count: old(summary)@.archived_count + 1,
            archived_bytes: old(summary)@.archived_bytes + candidate.size_bytes,
            ..old(summary)@
        }),
        result matches Err(e) ==> final(summary)@ == (SummaryView {
            failed: old(summary)@.failed.push(outcome(candidate.path@, StageKind::Archive, OutcomeStatus::Failed, neatnik_error_text(*e))),
            ..old(summary)@
        }),
{
    match result {
        Ok(_) => {
            summary.archived_count = summary.archived_count + 1;
            summary.archived_bytes = summary.archived_bytes + candidate.size_bytes;
        },
        Err(e) => {
            let message = e.message();
            push_outcome(&mut summary.failed, &candidate.path, StageKind::Archive, OutcomeStatus::Failed, message.as_str());
        },
    }
}

/// Decides whether a file goes on to be relocated: a file not due is
/// recorded as skipped; in a dry run a due file is counted as relocated;
/// otherwise the answer is yes and nothing is recorded yet.
pub fn relocate_gate(summary: &mut JobSummary, candidate: &FileCandidate, now: &Timestamp, after_days: u32, dry_run: bool) -> (r: bool)
    requires
        old(summary).relocated_count + 1 <= u64::MAX,
        old(summary).relocated_bytes + candidate.size_bytes <= u64::MAX,
    ensures
        r == (is_due(now@, candidate.basis_datetime@, after_days) && !dry_run),
        !is_due(now@, candidate.basis_datetime@, after_days) ==> final(summary)@ == with_skipped(old(summary)@,
            seq![outcome(candidate.path@, StageKind::Relocate, OutcomeStatus::Skipped, grace_reason(StageKind::Relocate))]),
        is_due(now@, candidate.basis_datetime@, after_days) && dry_run ==> final(summary)@ == (SummaryView {
            relocated_count: old(summary)@.relocated_count + 1,
            relocated_bytes: old(summary)@.relocated_bytes + candidate.size_bytes,
            ..old(summary)@
        }),
        r ==> final(summary)@ == old(summary)@,
{
    if !due(now, &candidate.basis_datetime, after_days) {
        push_outcome(&mut summary.skipped, &candidate.path, StageKind::Relocate, OutcomeStatus::Skipped,
            "relocate grace period not elapsed");
        assert(summary@ =~= with_skipped(old(summary)@,
            seq![outcome(candidate.path@, StageKind::Relocate, OutcomeStatus::Skipped, grace_reason(StageKind::Relocate))]));
        return false;
    }
    if dry_run {
        summary.relocated_count = summary.relocated_count + 1;
        summary.relocated_bytes = summary.relocated_bytes + candidate.size_bytes;
        return false;
    }
    true
}

/// Records what came of relocating one file: counted when moved, skipped
/// when its destination was taken and the policy says to skip, a failure
/// (with the error's message) otherwise.
pub fn record_relocate(summary: &mut JobSummary, candidate: &FileCandidate, result: &Result<RelocateResult, NeatnikError>)
    requires
        old(summary).relocated_count + 1 <= u64::MAX,
        old(summary).relocated_bytes + candidate.size_bytes <= u64::MAX,
    ensures
        result matches Ok(r) && r.outcome == RelocateOutcome::Moved ==> final(summary)@ == (SummaryView {
            relocated_count: old(summary)@.relocated_count + 1,
            relocated_bytes: old(summary)@.relocated_bytes + candidate.size_bytes,
            ..old(summary)@
        }),
        result matches Ok(r) && r.outcome == RelocateOutcome::Skipped ==> final(summary)@ == with_skipped(old(summary)@,
            seq![outcome(candidate.path@, StageKind::Relocate, OutcomeStatus::Skipped, conflict_skip_reason())]),
        result matches Err(e) ==> final(summary)@ == (SummaryView {
            failed: old(summary)@.failed.push(outcome(candidate.path@, StageKind::Relocate, OutcomeStatus::Failed, neatnik_error_text(*e))),
            ..old(summary)@
        }),
{
    match result {
        Ok(r) => match r.outcome {
            RelocateOutcome::Moved => {
                summary.relocated_count = summary.relocated_count + 1;
                summary.relocated_bytes = summary.relocated_bytes + candidate.size_bytes;
            },
            RelocateOutcome::Skipped => {
                push_outcome(&mut summary.skipped, &candidate.path, StageKind::Relocate, OutcomeStatus::Skipped,
                    "destination conflict, on_conflict=skip (BR-12)");
                assert(summary@ =~= with_skipped(old(summary)@,
                    seq![outcome(candidate.path@, StageKind::Relocate, OutcomeStatus::Skipped, conflict_skip_reason())]));
            },
        },
        Err(e) => {
            let message = e.message();
            push_outcome(&mut summary.failed, &candidate.path, StageKind::Relocate, OutcomeStatus::Failed, message.as_str());
        },
    }
}

/// The summary after recording the outcome of deleting one file.
pub open spec fn apply_delete(s: SummaryView, c: CandidateView, path: Seq<char>, o: DeleteOutcome) -> SummaryView {
    match o {
        DeleteOutcome::Deleted | DeleteOutcome::DryRun => SummaryView {
            deleted_count: s.deleted_count + 1,
            deleted_bytes: s.deleted_bytes + c.size,
            ..s
        },
        DeleteOutcome::Blocked => SummaryView {
            skipped: s.skipped.push(outcome(path, StageKind::Delete, OutcomeStatus::Skipped, brake_reason())),
            ..s
        },
        DeleteOutcome::Failed => SummaryView {
            failed: s.failed.push(outcome(path, StageKind::Delete, OutcomeStatus::Failed, delete_failed_reason())),
            ..s
        },
    }
}

/// The summary after recording the first `k` results of a delete stage.
pub open spec fn apply_deletes(s: SummaryView, cs: Seq<CandidateView>, rs: Seq<crate::delete::DeleteResult>, k: nat) -> SummaryView
    decreases k,
{
    if k == 0 {
        s
    } else {
        let prev = apply_deletes(s, cs, rs, (k - 1) as nat);
        apply_delete(prev, cs[k - 1], rs[k - 1].path@, rs[k - 1].outcome)
    }
}

/// The number and total size of the results counted as deleted among the first `k`.
pub open spec fn deleted_totals(cs: Seq<CandidateView>, rs: Seq<crate::delete::DeleteResult>, k: nat) -> (int, int)
    decreases k,
{
    if k == 0 {
        (0, 0)
    } else {
        let (n, b) = deleted_totals(cs, rs, (k - 1) as nat);
        match rs[k - 1].outcome {
            DeleteOutcome::Deleted | DeleteOutcome::DryRun => (n + 1, b + cs[k - 1].size),
            _ => (n, b),
        }
    }
}

proof fn lemma_deleted_totals(s: SummaryView, cs: Seq<CandidateView>, rs: Seq<crate::delete::DeleteResult>, k: nat)
    ensures
        apply_deletes(s, cs, rs, k).deleted_count == s.deleted_count + deleted_totals(cs, rs, k).0,
        apply_deletes(s, cs, rs, k).deleted_bytes == s.deleted_bytes + deleted_totals(cs, rs, k).1,
        deleted_totals(cs, rs, k).0 >= 0,
        deleted_totals(cs, rs, k).1 >= 0,
    decreases k,
{
    if k > 0 {
        lemma_deleted_totals(s, cs, rs, (k - 1) as nat);
    }
}

proof fn lemma_deleted_totals_mono(cs: Seq<CandidateView>, rs: Seq<crate::delete::DeleteResult>, k: nat, n: nat)
    requires
        k <= n,
    ensures
        deleted_totals(cs, rs, k).0 <= deleted_totals(cs, rs, n).0,
        deleted_totals(cs, rs, k).1 <= deleted_totals(cs, rs, n).1,
    decreases n - k,
{
    if k < n {
        lemma_deleted_totals_mono(cs, rs, k, (n - 1) as nat);
    }
}

/// The number of results of a delete stage that are recorded: one per file.
pub open spec fn paired(cs: Seq<CandidateView>, rs: Seq<crate::delete::DeleteResult>) -> nat {
    if cs.len() <= rs.len() { cs.len() } else { rs.len() }
}

/// Records what came of a delete stage: files deleted (or that would be in
/// a dry run) are counted, files held back by the brake are skipped, files
/// that could not be removed are failures; the brake is marked as
/// triggered when it was exceeded and enforced.
pub fn record_delete(summary: &mut JobSummary, eligible: &Vec<FileCandidate>, report: &DeleteRunReport, enforce: bool)
    requires
        old(summary).deleted_count + deleted_totals(candidate_views(eligible@), report.results@,
            paired(candidate_views(eligible@), report.results@)).0 <= u64::MAX,
        old(summary).deleted_bytes + deleted_totals(candidate_views(eligible@), report.results@,
            paired(candidate_views(eligible@), report.results@)).1 <= u64::MAX,
    ensures
        final(summary)@ == apply_deletes(SummaryView {
            safety_brake_triggered: old(summary)@.safety_brake_triggered || (report.evaluation.triggered && enforce),
            ..old(summary)@
        }, candidate_views(eligible@), report.results@, paired(candidate_views(eligible@), report.results@)),
{
    let ghost cs = candidate_views(eligible@);
    let ghost rs = report.results@;
    let ghost n = paired(cs, rs);
    summary.safety_brake_triggered = summary.safety_brake_triggered || (report.evaluation.triggered && enforce);
    let ghost start = summary@;
    let mut i: usize = 0;
    while i < eligible.len() && i < report.results.len()
        invariant
            i <= n,
            n == paired(cs, rs),
            cs == candidate_views(eligible@),
            rs == report.results@,
            start.deleted_count + deleted_totals(cs, rs, n).0 <= u64::MAX,
            start.deleted_bytes + deleted_totals(cs, rs, n).1 <= u64::MAX,
            summary@ == apply_deletes(start, cs, rs, i as nat),
        decreases n - i,
    {
        let c = &eligible[i];
        let res = &report.results[i];
        assert(cs[i as int] == c@);
        proof {
            lemma_deleted_totals(start, cs, rs, i as nat);
            lemma_deleted_totals_mono(cs, rs, (i + 1) as nat, n);
        }
        match res.outcome {
            DeleteOutcome::Deleted | DeleteOutcome::DryRun => {
                summary.deleted_count = summary.deleted_count + 1;
                summary.deleted_bytes = summary.deleted_bytes + c.size_bytes;
            },
            DeleteOutcome::Blocked => {
                push_outcome(&mut summary.skipped, &res.path, StageKind::Delete, OutcomeStatus::Skipped, "safety brake triggered (BR-13)");
            },
            DeleteOutcome::Failed => {
                push_outcome(&mut summary.failed, &res.path, StageKind::Delete, OutcomeStatus::Failed, "failed to delete file");
            },
        }
        i = i + 1;
    }
}

/// The last candidate with path `p`.
pub open spec fn last_with_path(cs: Seq<CandidateView>, p: Seq<char>) -> Option<CandidateView>
    decreases cs.len(),
{
    if cs.len() == 0 {
        None
    } else if cs.last().path == p {
        Some(cs.last())
    } else {
        last_with_path(cs.drop_last(), p)
    }
}

/// For each path, in order, the last candidate with that path (paths with
/// no candidate are passed over).
pub open spec fn found_candidates(cs: Seq<CandidateView>, paths: Seq<Seq<char>>) -> Seq<CandidateView>
    decreases paths.len(),
{
    if paths.len() == 0 {
        seq![]
    } else {
        let rest = found_candidates(cs, paths.drop_last());
        match last_with_path(cs, paths.last()) {
            Some(c) => rest.push(c),
            None => rest,
        }
    }
}

/// Outcomes with the same stage, status and reason for each path.
pub open spec fn outcomes_for(paths: Seq<Seq<char>>, stage: StageKind, status: OutcomeStatus, reason: Seq<char>) -> Seq<OutcomeView> {
    Seq::new(paths.len(), |i: int| outcome(paths[i], stage, status, reason))
}

/// The summary after recording one bundle group: an archived bundle counts
/// each of its included files (found among the stage's candidates by path)
/// and records its stale files as skipped; a failed group records each of
/// its members as failed, with the error's message.
pub open spec fn apply_group(s: SummaryView, cs: Seq<CandidateView>, g: BundleGroupResult) -> SummaryView {
    match g.outcome {
        Ok(b) => {
            let inc = found_candidates(cs, string_views(b.included@));
            SummaryView {
                archived_count: s.archived_count + inc.len(),
                archived_bytes: s.archived_bytes + total_size(inc),
                skipped: s.skipped + outcomes_for(string_views(b.stale@), StageKind::Archive, OutcomeStatus::Skipped, stale_reason()),
                ..s
            }
        },
        Err(e) => SummaryView {
            failed: s.failed + outcomes_for(string_views(g.members@), StageKind::Archive, OutcomeStatus::Failed, archive_error_text(e)),
            ..s
        },
    }
}

/// The summary after recording the first `k` bundle groups.
pub open spec fn apply_groups(s: SummaryView, cs: Seq<CandidateView>, gs: Seq<BundleGroupResult>, k: nat) -> SummaryView
    decreases k,
{
    if k == 0 {
        s
    } else {
        apply_group(apply_groups(s, cs, gs, (k - 1) as nat), cs, gs[k - 1])
    }
}

/// The number and total size of the files counted by the first `k` groups.
pub open spec fn groups_totals(cs: Seq<CandidateView>, gs: Seq<BundleGroupResult>, k: nat) -> (int, int)
    decreases k,
{
    if k == 0 {
        (0, 0)
    } else {
        let (n, b) = groups_totals(cs, gs, (k - 1) as nat);
        match gs[k - 1].outcome {
            Ok(r) => {
                let inc = found_candidates(cs, string_views(r.included@));
                (n + inc.len(), b + total_size(inc))
            },
            Err(_) => (n, b),
        }
    }
}

proof fn lemma_groups_totals(s: SummaryView, cs: Seq<CandidateView>, gs: Seq<BundleGroupResult>, k: nat)
    ensures
        apply_groups(s, cs, gs, k).archived_count == s.archived_count + groups_totals(cs, gs, k).0,
        apply_groups(s, cs, gs, k).archived_bytes == s.archived_bytes + groups_totals(cs, gs, k).1,
        groups_totals(cs, gs, k).0 >= 0,
        groups_totals(cs, gs, k).1 >= 0,
    decreases k,
{
    if k > 0 {
        lemma_groups_totals(s, cs, gs, (k - 1) as nat);
        match gs[k - 1].outcome {
            Ok(r) => { lemma_total_size_nonneg(found_candidates(cs, string_views(r.included@))); },
            Err(_) => {},
        }
    }
}

proof fn lemma_groups_totals_mono(cs: Seq<CandidateView>, gs: Seq<BundleGroupResult>, k: nat, n: nat)
    requires
        k <= n,
    ensures
        groups_totals(cs, gs, k).0 <= groups_totals(cs, gs, n).0,
        groups_totals(cs, gs, k).1 <= groups_totals(cs, gs, n).1,
    decreases n - k,
{
    if k < n {
        lemma_groups_totals_mono(cs, gs, k, (n - 1) as nat);
        match gs[n - 1].outcome {
            Ok(r) => { lemma_total_size_nonneg(found_candidates(cs, string_views(r.included@))); },
            Err(_) => {},
        }
    }
}

fn find_last_by_path(eligible: &Vec<FileCandidate>, path: &String) -> (r: Option<usize>)
    ensures
        match last_with_path(candidate_views(eligible@), path@) {
            None => r is None,
            Some(c) => r matches Some(k) && k < eligible@.len() && eligible@[k as int]@ == c,
        },
{
    let ghost cs = candidate_views(eligible@);
    let wanted = crate::text::chars_of(path.as_str());
    let mut i: usize = eligible.len();
    assert(cs.take(i as int) =~= cs);
    while i > 0
        invariant
            i <= eligible@.len(),
            cs == candidate_views(eligible@),
            wanted@ == path@,
            last_with_path(cs, path@) == last_with_path(cs.take(i as int), path@),
        decreases i,
    {
        let ghost t = cs.take(i as int);
        assert(t.drop_last() =~= cs.take(i - 1));
        assert(t.last() == cs[i - 1]);
        assert(cs[i - 1] == eligible@[i - 1]@);
        if crate::text::chars_eq(&crate::text::chars_of(eligible[i - 1].path.as_str()), &wanted) {
            return Some(i - 1);
        }
        i = i - 1;
    }
    assert(cs.take(0) =~= Seq::<CandidateView>::empty());
    None
}

/// The number and total size of the candidates found for `paths`.
fn found_totals(eligible: &Vec<FileCandidate>, paths: &Vec<String>) -> (r: (u64, u64))
    requires
        total_size(found_candidates(candidate_views(eligible@), string_views(paths@))) <= u64::MAX,
    ensures
        r.0 == found_candidates(candidate_views(eligible@), string_views(paths@)).len(),
        r.1 == total_size(found_candidates(candidate_views(eligible@), string_views(paths@))),
{
    let ghost cs = candidate_views(eligible@);
    let ghost pv = string_views(paths@);
    let mut n: u64 = 0;
    let mut b: u64 = 0;
    let mut i: usize = 0;
    while i < paths.len()
        invariant
            i <= paths@.len(),
            cs == candidate_views(eligible@),
            pv == string_views(paths@),
            total_size(found_candidates(cs, pv)) <= u64::MAX,
            n == found_candidates(cs, pv.take(i as int)).len(),
            n <= i,
            b == total_size(found_candidates(cs, pv.take(i as int))),
        decreases paths@.len() - i,
    {
        let ghost t = pv.take(i + 1);
        assert(t.drop_last() =~= pv.take(i as int));
        assert(t.last() == paths@[i as int]@);
        proof {
            lemma_found_prefix_total(cs, pv, i + 1);
        }
        let ghost f = found_candidates(cs, pv.take(i as int));
        match find_last_by_path(eligible, &paths[i]) {
            Some(k) => {
                proof {
                    let c = eligible@[k as int]@;
                    assert(found_candidates(cs, t) == f.push(c));
                    assert(f.push(c).drop_last() =~= f);
                    assert(total_size(f.push(c)) == total_size(f) + c.size);
                    lemma_total_size_nonneg(f);
                }
                n = n + 1;
                b = b + eligible[k].size_bytes;
            },
            None => {
                assert(found_candidates(cs, t) == f);
            },
        }
        i = i + 1;
    }
    assert(pv.take(i as int) =~= pv);
    (n, b)
}

proof fn lemma_found_prefix_total(cs: Seq<CandidateView>, pv: Seq<Seq<char>>, k: int)
    requires
        0 <= k <= pv.len(),
    ensures
        total_size(found_candidates(cs, pv.take(k))) <= total_size(found_candidates(cs, pv)),
    decreases pv.len() - k,
{
    if k < pv.len() {
        assert(pv.drop_last().take(k) =~= pv.take(k));
        lemma_found_prefix_total(cs, pv.drop_last(), k);
        match last_with_path(cs, pv.last()) {
            Some(c) => {
                let f = found_candidates(cs, pv.drop_last());
                assert(f.push(c).drop_last() =~= f);
            },
            None => {},
        }
    } else {
        assert(pv.take(k) =~= pv);
    }
}

fn push_outcomes(list: &mut Vec<StageOutcome>, paths: &Vec<String>, stage: StageKind, status: OutcomeStatus, reason: &str)
    ensures
        outcome_views(final(list)@) == outcome_views(old(list)@) + outcomes_for(string_views(paths@), stage, status, reason@),
{
    let ghost start = outcome_views(list@);
    let ghost pv = string_views(paths@);
    let mut i: usize = 0;
    assert(start + outcomes_for(pv.take(0), stage, status, reason@) =~= start);
    while i < paths.len()
        invariant
            i <= paths@.len(),
            pv == string_views(paths@),
            outcome_views(list@) == start + outcomes_for(pv.take(i as int), stage, status, reason@),
        decreases paths@.len() - i,
    {
        push_outcome(list, &paths[i], stage, status, reason);
        i = i + 1;
        assert(start + outcomes_for(pv.take(i as int), stage, status, reason@)
            =~= (start + outcomes_for(pv.take(i - 1), stage, status, reason@)).push(outcome(pv[i - 1], stage, status, reason@)));
    }
    assert(pv.take(i as int) =~= pv);
}

/// Records what came of the bundle groups of one target (see [`apply_group`]).
pub fn record_bundle_groups(summary: &mut JobSummary, eligible: &Vec<FileCandidate>, groups: &Vec<BundleGroupResult>)
    requires
        old(summary).archived_count + groups_totals(candidate_views(eligible@), groups@, groups@.len()).0 <= u64::MAX,
        old(summary).archived_bytes + groups_totals(candidate_views(eligible@), groups@, groups@.len()).1 <= u64::MAX,
    ensures
        final(summary)@ == apply_groups(old(summary)@, candidate_views(eligible@), groups@, groups@.len()),
{
    let ghost cs = candidate_views(eligible@);
    let ghost gs = groups@;
    let ghost start = summary@;
    let mut k: usize = 0;
    while k < groups.len()
        invariant
            k <= groups@.len(),
            cs == candidate_views(eligible@),
            gs == groups@,
            start.archived_count + groups_totals(cs, gs, gs.len()).0 <= u64::MAX,
            start.archived_bytes + groups_totals(cs, gs, gs.len()).1 <= u64::MAX,
            summary@ == apply_groups(start, cs, gs, k as nat),
        decreases groups@.len() - k,
    {
        let g = &groups[k];
        proof {
            lemma_groups_totals(start, cs, gs, k as nat);
            lemma_groups_totals_mono(cs, gs, (k + 1) as nat, gs.len());
        }
        let ghost before = summary@;
        match &g.outcome {
            Ok(bundle) => {
                proof {
                    lemma_total_size_nonneg(found_candidates(cs, string_views(bundle.included@)));
                }
                let (n, b) = found_totals(eligible, &bundle.included);
                summary.archived_count = summary.archived_count + n;
                summary.archived_bytes = summary.archived_bytes + b;
                push_outcomes(&mut summary.skipped, &bundle.stale, StageKind::Archive, OutcomeStatus::Skipped,
                    "bundle member newer than existing bundle (BR-3)");
                assert(summary@ =~= apply_group(before, cs, *g));
            },
            Err(e) => {
                let message = e.message();
                push_outcomes(&mut summary.failed, &g.members, StageKind::Archive, OutcomeStatus::Failed, message.as_str());
                assert(summary@ =~= apply_group(before, cs, *g));
            },
        }
        k = k + 1;
    }
}

/// The total size of candidates, when it fits in a `u64`.
pub fn checked_total_size(cs: &Vec<FileCandidate>) -> (r: Option<u64>)
    ensures
        match r {
            Some(t) => t == total_size(candidate_views(cs@)),
            None => total_size(candidate_views(cs@)) > u64::MAX,
        },
{
    let ghost v = candidate_views(cs@);
    let mut t: u64 = 0;
    let mut i: usize = 0;
    while i < cs.len()
        invariant
            i <= cs@.len(),
            v == candidate_views(cs@),
            t == total_size(v.take(i as int)),
        decreases cs@.len() - i,
    {
        proof {
            let w = v.take(i + 1);
            assert(w.drop_last() =~= v.take(i as int));
            assert(w.last() == v[i as int]);
        }
        match t.checked_add(cs[i].size_bytes) {
            Some(n) => { t = n; },
            None => {
                proof { lemma_total_size_prefix(v, i + 1); }
                return None;
            },
        }
        i = i + 1;
    }
    assert(v.take(i as int) =~= v);
    Some(t)
}

/// The results of a delete stage count no more files than there are
/// candidates, and no more bytes than they hold.
pub(crate) proof fn lemma_deleted_totals_bounded(cs: Seq<CandidateView>, rs: Seq<crate::delete::DeleteResult>, k: nat)
    requires
        k <= cs.len(),
    ensures
        deleted_totals(cs, rs, k).0 <= k,
        deleted_totals(cs, rs, k).1 <= total_size(cs.take(k as int)),
    decreases k,
{
    if k > 0 {
        lemma_deleted_totals_bounded(cs, rs, (k - 1) as nat);
        let t = cs.take(k as int);
        assert(t.drop_last() =~= cs.take(k - 1));
        assert(t.last() == cs[k - 1]);
    }
}

/// The number and total size of the candidates found for `paths`, when
/// the size fits in a `u64`.
fn checked_found_totals(eligible: &Vec<FileCandidate>, paths: &Vec<String>) -> (r: Option<(u64, u64)>)
    ensures
        match r {
            Some((n, b)) => n == found_candidates(candidate_views(eligible@), string_views(paths@)).len()
                && b == total_size(found_candidates(candidate_views(eligible@), string_views(paths@))),
            None => total_size(found_candidates(candidate_views(eligible@), string_views(paths@))) > u64::MAX,
        },
{
    let ghost cs = candidate_views(eligible@);
    let ghost pv = string_views(paths@);
    let mut n: u64 = 0;
    let mut b: u64 = 0;
    let mut i: usize = 0;
    while i < paths.len()
        invariant
            i <= paths@.len(),
            cs == candidate_views(eligible@),
            pv == string_views(paths@),
            n == found_candidates(cs, pv.take(i as int)).len(),
            n <= i,
            b == total_size(found_candidates(cs, pv.take(i as int))),
        decreases paths@.len() - i,
    {
        let ghost t = pv.take(i + 1);
        assert(t.drop_last() =~= pv.take(i as int));
        assert(t.last() == paths@[i as int]@);
        let ghost f = found_candidates(cs, pv.take(i as int));
        match find_last_by_path(eligible, &paths[i]) {
            Some(k) => {
                proof {
                    let c = eligible@[k as int]@;
                    assert(found_candidates(cs, t) == f.push(c));
                    assert(f.push(c).drop_last() =~= f);
                    assert(total_size(f.push(c)) == total_size(f) + c.size);
                    lemma_total_size_nonneg(f);
                }
                match b.checked_add(eligible[k].size_bytes) {
                    Some(x) => { b = x; },
                    None => {
                        proof { lemma_found_prefix_total(cs, pv, i + 1); }
                        return None;
                    },
                }
                n = n + 1;
            },
            None => {
                assert(found_candidates(cs, t) == f);
            },
        }
        i = i + 1;
    }
    assert(pv.take(i as int) =~= pv);
    Some((n, b))
}

/// The number and total size of the files that recording bundle groups
/// counts (see [`groups_totals`]), when both fit in a `u64`.
pub fn checked_groups_totals(eligible: &Vec<FileCandidate>, groups: &Vec<BundleGroupResult>) -> (r: Option<(u64, u64)>)
    ensures
        match r {
            Some((n, b)) => n == groups_totals(candidate_views(eligible@), groups@, groups@.len()).0
                && b == groups_totals(candidate_views(eligible@), groups@, groups@.len()).1,
            None => groups_totals(candidate_views(eligible@), groups@, groups@.len()).0 > u64::MAX
                || groups_totals(candidate_views(eligible@), groups@, groups@.len()).1 > u64::MAX,
        },
{
    let ghost cs = candidate_views(eligible@);
    let ghost gs = groups@;
    let mut n: u64 = 0;
    let mut b: u64 = 0;
    let mut k: usize = 0;
    while k < groups.len()
        invariant
            k <= groups@.len(),
            cs == candidate_views(eligible@),
            gs == groups@,
            n == groups_totals(cs, gs, k as nat).0,
            b == groups_totals(cs, gs, k as nat).1,
        decreases groups@.len() - k,
    {
        proof {
            lemma_groups_totals_mono(cs, gs, (k + 1) as nat, gs.len());
            lemma_groups_totals(SummaryView {
                job_name: seq![], archived_count: 0, archived_bytes: 0, relocated_count: 0, relocated_bytes: 0,
                deleted_count: 0, deleted_bytes: 0, skipped: seq![], failed: seq![], safety_brake_triggered: false,
            }, cs, gs, k as nat);
        }
        match &groups[k].outcome {
            Ok(bundle) => {
                proof {
                    lemma_total_size_nonneg(found_candidates(cs, string_views(bundle.included@)));
                }
                match checked_found_totals(eligible, &bundle.included) {
                    Some((fn_, fb)) => {
                        match (n.checked_add(fn_), b.checked_add(fb)) {
                            (Some(x), Some(y)) => { n = x; b = y; },
                            _ => { return None; },
                        }
                    },
                    None => { return None; },
                }
            },
            Err(_) => {},
        }
        k = k + 1;
    }
    Some((n, b))
}

/// Whether `outcomes` came of running `run_one` on the jobs in list order,
/// through the states `ws`: the job at position `k` was handed the state
/// that the job before it left (`ws[k]`), and left `ws[k + 1]`.
pub open spec fn ran_in_order<W, F: Fn(W, usize) -> (W, Result<Option<JobSummary>, NeatnikError>)>(
    run_one: F, ws: Seq<W>, outcomes: Seq<(String, Result<Option<JobSummary>, NeatnikError>)>) -> bool {
    &&& ws.len() == outcomes.len() + 1
    &&& forall|k: int| 0 <= k < outcomes.len() ==> call_ensures(run_one, (ws[k], k as usize),
            (ws[k + 1], #[trigger] outcomes[k].1))
}

/// Runs every job in turn, in list order, and pairs each job's name with
/// what came of it. `run_one` is handed the job's position and the state
/// that the run of the job before it left (`world` for the first), and
/// gives back the state it leaves; the last state is returned beside the
/// results. Every job is run whatever became of the jobs before it: the
/// failure of one does not stop the others.
pub fn run_all<W, F: Fn(W, usize) -> (W, Result<Option<JobSummary>, NeatnikError>)>(
    jobs: &Vec<crate::config::JobConfig>, world: W, run_one: F)
    -> (r: (Vec<(String, Result<Option<JobSummary>, NeatnikError>)>, W))
    requires
        forall|w: W, i: usize| i < jobs@.len() ==> call_requires(run_one, (w, i)),
    ensures
        r.0@.len() == jobs@.len(),
        forall|i: int| 0 <= i < jobs@.len() ==> (#[trigger] r.0@[i]).0@ == jobs@[i].name@,
        exists|ws: Seq<W>| ws[0] == world && ws.last() == r.1 && #[trigger] ran_in_order(run_one, ws, r.0@),
{
    let mut results: Vec<(String, Result<Option<JobSummary>, NeatnikError>)> = Vec::new();
    let mut state = world;
    let ghost mut ws: Seq<W> = seq![state];
    let mut i: usize = 0;
    while i < jobs.len()
        invariant
            i <= jobs@.len(),
            forall|w: W, k: usize| k < jobs@.len() ==> call_requires(run_one, (w, k)),
            results@.len() == i,
            forall|k: int| 0 <= k < i ==> (#[trigger] results@[k]).0@ == jobs@[k].name@,
            ws.len() == i + 1,
            ws[0] == world,
            ws.last() == state,
            ran_in_order(run_one, ws, results@),
        decreases jobs@.len() - i,
    {
        let (next, outcome) = run_one(state, i);
        let ghost before = results@;
        results.push((jobs[i].name.clone(), outcome));
        proof {
            let ws1 = ws.push(next);
            assert forall|k: int| 0 <= k < results@.len() implies call_ensures(run_one, (ws1[k], k as usize),
                (ws1[k + 1], #[trigger] results@[k].1)) by {
                if k < i {
                    assert(results@[k] == before[k]);
                }
            }
            ws = ws1;
        }
        state = next;
        i = i + 1;
    }
    (results, state)
}

/// The grace period is inclusive: a file whose basis lies exactly
/// `after_days` days before `now` (the same time of day) is due, and one a
/// nanosecond younger is not.
pub proof fn law_grace_period_is_inclusive(basis: (int, int), after_days: u32)
    requires
        in_range(basis.0, basis.1),
    ensures
        is_due(days_later(basis, after_days as int), basis, after_days),
        after_days > 0 ==> !is_due(nanosecond_before(days_later(basis, after_days as int)), basis, after_days),
{
    let k = after_days as int;
    let d = nanos_per_day();
    vstd::arithmetic::div_mod::lemma_mod_multiples_vanish(k, basis.0, 86_400);
    assert(basis.0 + k * 86_400 == 86_400 * k + basis.0) by (nonlinear_arith);
    assert((k * 86_400) * 1_000_000_000 == k * d) by (nonlinear_arith)
        requires d == 86_400_000_000_000;
    let now = days_later(basis, k);
    assert(second_of_day(now.0) == second_of_day(basis.0));
    assert(now.1 == basis.1);
    assert(now.0 - basis.0 == k * 86_400);
    assert(duration_nanos(now, basis) == (k * 86_400) * 1_000_000_000);
    assert(duration_nanos(now, basis) == k * d);
    law_elapsed_days_counts_whole_days(now, basis, after_days as nat, 0);
    if after_days > 0 {
        let k1 = (after_days - 1) as nat;
        let before = nanosecond_before(now);
        assert(duration_nanos(before, basis) == k * d - 1);
        assert(k * d - 1 == k1 * d + (d - 1)) by (nonlinear_arith)
            requires k1 == k - 1;
        law_elapsed_days_counts_whole_days(before, basis, k1, d - 1);
    }
}

/// Away from leap seconds, once a file is due it stays due as time goes on.
pub proof fn law_due_stays_due(earlier: int, later: int, basis: int, after_days: u32)
    requires
        earlier <= later,
        is_due(at_instant(earlier), at_instant(basis), after_days),
    ensures
        is_due(at_instant(later), at_instant(basis), after_days),
{
    law_elapsed_days_is_monotone(earlier, later, basis);
}

} // verus!
