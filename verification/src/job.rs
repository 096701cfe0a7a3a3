//! A run of one job, as a state machine.
//!
//! The stages run in the order they are written. An archive stage works
//! target by target: it scans the target, leaves out files in use and files
//! whose grace period has not elapsed, and archives the rest (counts them
//! in a dry run). A relocate stage scans all its targets first, then takes
//! its files one by one; a delete stage scans all its targets, then plans
//! and carries out the deletion of its due files as a whole. A scan that
//! fails, an unresolvable `basedir` or a failed bundling fails the job.
//!
//! The machine does no work outside the library: each step answers with an
//! action ([`JobAction`]) for the caller to carry out, and the caller hands
//! back what came of it through the matching method.

use vstd::prelude::*;
use crate::archive::{BundleGroupResult, SingleFileRunResult, paths_of};
use crate::config::{JobConfig, StageConfig, BundleKind, WatchTarget, DeleteConfig, RelocateConfig,
    spec_resolved_name, is_invalid, basedir_reason};
use crate::datetime::Timestamp;
use crate::delete::{DeleteAction, DeletePlan, SafetyBrakeEvaluation, plan, report, total_size,
    brake_exceeded, spec_action, spec_outcome};
use crate::error::{NeatnikError, neatnik_error_text};
use crate::pipeline::{JobSummary, SummaryView, empty_summary, due, StageKind, OutcomeStatus, take_usable, take_due,
    record_archive_dry_run, record_single_archive, relocate_gate, record_relocate, record_delete,
    record_bundle_groups, checked_total_size, checked_groups_totals, not_in_use, in_use_outcomes,
    due_candidates, not_due_outcomes, with_skipped, is_due, outcome, grace_reason, conflict_skip_reason,
    apply_delete, apply_deletes, apply_groups, groups_totals, paired, OutcomeView, in_use_reason,
    lemma_deleted_totals_bounded, lemma_total_size_prefix};
use crate::relocate::{RelocateResult, RelocateOutcome};
use crate::scan::{FileCandidate, WatchTargetRef, CandidateView, candidate_views};
use crate::text::string_views;

verus! {

/// What the caller is asked to do next.
#[derive(Debug)]
pub enum JobAction {
    /// Call [`JobRun::proceed`].
    Continue,
    /// Resolve the `basedir` of target `target` of stage `stage`, scan the
    /// target, and report both with [`JobRun::scanned`].
    Scan { stage: usize, target: usize },
    /// Archive this file with the settings of stage `stage`, and report
    /// with [`JobRun::archived`].
    ArchiveFile { stage: usize, candidate: FileCandidate },
    /// Bundle these files of one target with the settings of stage
    /// `stage`, and report with [`JobRun::bundled`].
    Bundle { stage: usize, target: WatchTargetRef, members: Vec<FileCandidate> },
    /// Relocate this file with the settings of stage `stage`, and report
    /// with [`JobRun::relocated`].
    Relocate { stage: usize, candidate: FileCandidate },
    /// Remove these files, each on its own, and report which removals
    /// succeeded with [`JobRun::removed`].
    Remove { paths: Vec<String> },
    /// In a dry run: stage `stage` counts these files as if it had acted
    /// on them. Nothing is to be done to them; call [`JobRun::proceed`].
    Preview { stage: usize, files: Vec<FileCandidate> },
    /// The job is done; its summary is [`JobRun::into_summary`].
    Done,
    /// The job failed.
    Fail(NeatnikError),
}

/// Where a run stands.
#[derive(Debug, Clone, Copy, PartialEq, Eq, Structural)]
pub enum Phase {
    /// About to begin the stage `stage` (or to end the job after the last).
    StageStart,
    /// About to scan the next target of the stage, or to end its scanning.
    NextTarget,
    AwaitScan,
    /// About to archive the next due file of the target.
    ArchiveNext,
    AwaitArchive,
    AwaitBundle,
    /// About to take the next file of a relocate stage.
    RelocateNext,
    AwaitRelocate,
    AwaitRemove,
    /// Done or failed.
    Finished,
}

/// What a run holds.
#[verifier::ext_equal]
pub ghost struct RunView {
    pub job: JobConfig,
    pub now: (int, int),
    pub dry_run: bool,
    pub summary: SummaryView,
    /// The stage being run.
    pub stage: int,
    /// The target being scanned, in the stage's `targets`.
    pub target: int,
    /// The candidates scanned so far by a relocate or delete stage.
    pub gathered: Seq<CandidateView>,
    /// The files that await their action, and how many of them are done.
    pub queue: Seq<CandidateView>,
    pub pos: int,
    /// The plan of a delete stage whose removals are awaited.
    pub plan: Option<DeletePlan>,
    pub phase: Phase,
}

/// A run of one job.
pub struct JobRun {
    job: Ghost<JobConfig>,
    /// The number of stages of the job, and of targets of the current stage.
    n_stages: usize,
    n_targets: usize,
    now: Timestamp,
    dry_run: bool,
    summary: JobSummary,
    stage: usize,
    target: usize,
    gathered: Vec<FileCandidate>,
    queue: Vec<FileCandidate>,
    pos: usize,
    plan: Option<DeletePlan>,
    phase: Phase,
}

impl View for JobRun {
    type V = RunView;

    closed spec fn view(&self) -> RunView {
        RunView {
            job: self.job@,
            now: self.now@,
            dry_run: self.dry_run,
            summary: self.summary@,
            stage: self.stage as int,
            target: self.target as int,
            gathered: candidate_views(self.gathered@),
            queue: candidate_views(self.queue@),
            pos: self.pos as int,
            plan: self.plan,
            phase: self.phase,
        }
    }
}

/// The targets of a stage.
pub open spec fn targets_of(stage: StageConfig) -> Seq<WatchTarget> {
    match stage {
        StageConfig::Archive(a) => a.targets@,
        StageConfig::Relocate(r) => r.targets@,
        StageConfig::Delete(d) => d.targets@,
    }
}

/// Whether an action changes files on disk.
pub open spec fn touches_files(r: JobAction) -> bool {
    ||| r is ArchiveFile
    ||| r is Bundle
    ||| r is Relocate
    ||| r is Remove
}

/// The failure of a run whose counts would no longer fit the summary.
pub open spec fn is_overflow(r: JobAction) -> bool {
    r matches JobAction::Fail(NeatnikError::Io(m)) && m@ == "summary counter overflow"@
}

/// Whether a stage archives its files one by one: an archive stage without bundling.
pub open spec fn unbundled(st: StageConfig) -> bool {
    st matches StageConfig::Archive(a) && a.bundle == BundleKind::Unbundled
}

/// The states a run can be in: among others, files are archived one by
/// one only in an archive stage without bundling, and bundled only in one
/// with bundling.
pub open spec fn valid(v: RunView) -> bool {
    let n = v.job.stages@.len();
    let st = v.job.stages@[v.stage];
    &&& 0 <= v.stage <= n
    &&& 0 <= v.target
    &&& 0 <= v.pos
    &&& v.dry_run ==> !(v.phase is ArchiveNext || v.phase is AwaitArchive || v.phase is AwaitBundle
        || v.phase is AwaitRelocate || v.phase is AwaitRemove)
    &&& match v.phase {
        Phase::NextTarget => v.stage < n && v.target <= targets_of(st).len(),
        Phase::AwaitScan => v.stage < n && v.target < targets_of(st).len(),
        Phase::ArchiveNext => v.stage < n && unbundled(st) && v.target < targets_of(st).len()
            && v.pos <= v.queue.len(),
        Phase::AwaitArchive => v.stage < n && unbundled(st) && v.target < targets_of(st).len()
            && v.pos < v.queue.len(),
        Phase::AwaitBundle => v.stage < n && st is Archive && !unbundled(st) && v.target < targets_of(st).len(),
        Phase::RelocateNext => v.stage < n && st is Relocate && v.pos <= v.queue.len(),
        Phase::AwaitRelocate => v.stage < n && st is Relocate && v.pos < v.queue.len()
            && v.summary.relocated_count + 1 <= u64::MAX
            && v.summary.relocated_bytes + v.queue[v.pos].size <= u64::MAX,
        Phase::AwaitRemove => {
            &&& v.stage < n
            &&& st is Delete
            &&& v.plan matches Some(p) && p.action == DeleteAction::Remove
                && p.evaluation.count == v.queue.len() && p.evaluation.total_bytes == total_size(v.queue)
            &&& v.summary.deleted_count + v.queue.len() <= u64::MAX
            &&& v.summary.deleted_bytes + total_size(v.queue) <= u64::MAX
        },
        _ => true,
    }
}

/// Whether an action previews the files `files` of stage `stage`.
pub open spec fn previews(r: JobAction, stage: int, files: Seq<CandidateView>) -> bool {
    r matches JobAction::Preview { stage: s, files: f } && s == stage && candidate_views(f@) == files
}

/// Whether `proceed` can be called in a phase.
pub open spec fn can_proceed(p: Phase) -> bool {
    p is StageStart || p is NextTarget || p is ArchiveNext || p is RelocateNext
}

/// Beginning a stage: the job is done after its last stage; otherwise the
/// stage's first target is next.
pub open spec fn starts_stage(o: RunView, n: RunView, r: JobAction) -> bool {
    if o.stage >= o.job.stages@.len() {
        r is Done && n == RunView { phase: Phase::Finished, ..o }
    } else {
        r is Continue && n == RunView { target: 0, gathered: seq![], phase: Phase::NextTarget, ..o }
    }
}

/// The summary after leaving out the files in use and the files not yet due.
pub open spec fn screened(s: SummaryView, cs: Seq<CandidateView>, now: (int, int), after_days: u32, stage: StageKind) -> SummaryView {
    with_skipped(with_skipped(s, in_use_outcomes(cs, stage)), not_due_outcomes(not_in_use(cs), now, after_days, stage))
}

/// The files that are neither in use nor before their grace period.
pub open spec fn due_files(cs: Seq<CandidateView>, now: (int, int), after_days: u32) -> Seq<CandidateView> {
    due_candidates(not_in_use(cs), now, after_days)
}

/// The summary after recording the results of a delete stage under an
/// action: the `i`-th file counts as removed when `removed[i]` holds.
pub open spec fn delete_effect(s: SummaryView, cs: Seq<CandidateView>, action: DeleteAction, removed: Seq<bool>, k: nat) -> SummaryView
    decreases k,
{
    if k == 0 {
        s
    } else {
        apply_delete(delete_effect(s, cs, action, removed, (k - 1) as nat), cs[k - 1], cs[k - 1].path,
            spec_outcome(action, k - 1 < removed.len() && removed[k - 1]))
    }
}

/// The summary with the brake marked when it was exceeded and enforced.
pub open spec fn flagged(s: SummaryView, triggered: bool, enforce: bool) -> SummaryView {
    SummaryView { safety_brake_triggered: s.safety_brake_triggered || (triggered && enforce), ..s }
}

/// Ending the scans of a delete stage: its due files are planned as a
/// whole. Without due files the stage ends. A removal is asked for when
/// the plan removes; otherwise (a dry run, or a brake that blocks) the
/// outcomes are recorded at once.
pub open spec fn ends_delete_scans(o: RunView, n: RunView, r: JobAction, d: DeleteConfig) -> bool {
    let s2 = screened(o.summary, o.gathered, o.now, d.after_days, StageKind::Delete);
    let el = due_files(o.gathered, o.now, d.after_days);
    let total = total_size(el);
    let trig = brake_exceeded(el.len() as int, total, d.safety_brake);
    let act = spec_action(trig, d.safety_brake.enforce, o.dry_run);
    if el.len() == 0 {
        r is Continue && n == RunView { summary: s2, stage: o.stage + 1, phase: Phase::StageStart, ..o }
    } else if total > u64::MAX || s2.deleted_count + el.len() > u64::MAX || s2.deleted_bytes + total > u64::MAX {
        is_overflow(r) && n == RunView { summary: s2, phase: Phase::Finished, ..o }
    } else if act == DeleteAction::Remove {
        &&& r matches JobAction::Remove { paths } && string_views(paths@) == paths_of(el)
        &&& n == RunView {
            summary: s2,
            queue: el,
            plan: Some(DeletePlan {
                evaluation: SafetyBrakeEvaluation { triggered: trig, count: el.len() as usize, total_bytes: total as u64 },
                action: act,
            }),
            phase: Phase::AwaitRemove,
            ..o
        }
    } else {
        &&& if act == DeleteAction::Simulate { previews(r, o.stage, el) } else { r is Continue }
        &&& n == RunView {
            summary: delete_effect(flagged(s2, trig, d.safety_brake.enforce), el, act, seq![], el.len()),
            stage: o.stage + 1,
            phase: Phase::StageStart,
            ..o
        }
    }
}

/// Moving to the next target: it is scanned, or, when the stage has no
/// more, an archive stage ends, a relocate stage takes its files that are
/// not in use, and a delete stage plans its deletion.
pub open spec fn moves_to_next_target(o: RunView, n: RunView, r: JobAction) -> bool {
    let st = o.job.stages@[o.stage];
    if o.target < targets_of(st).len() {
        r matches JobAction::Scan { stage, target } && stage == o.stage && target == o.target
            && n == RunView { phase: Phase::AwaitScan, ..o }
    } else {
        match st {
            StageConfig::Archive(_) => r is Continue
                && n == RunView { stage: o.stage + 1, phase: Phase::StageStart, ..o },
            StageConfig::Relocate(_) => r is Continue && n == RunView {
                summary: with_skipped(o.summary, in_use_outcomes(o.gathered, StageKind::Relocate)),
                queue: not_in_use(o.gathered),
                pos: 0,
                phase: Phase::RelocateNext,
                ..o
            },
            StageConfig::Delete(d) => ends_delete_scans(o, n, r, d),
        }
    }
}

/// The next due file of the target is archived; after the last, the next
/// target follows.
pub open spec fn moves_to_next_archive(o: RunView, n: RunView, r: JobAction) -> bool {
    if o.pos < o.queue.len() {
        r matches JobAction::ArchiveFile { stage, candidate } && stage == o.stage && candidate@ == o.queue[o.pos]
            && n == RunView { phase: Phase::AwaitArchive, ..o }
    } else {
        r is Continue && n == RunView { target: o.target + 1, phase: Phase::NextTarget, ..o }
    }
}

/// The next file of a relocate stage: a file not due is skipped, a due one
/// is counted in a dry run and relocated otherwise; after the last, the
/// stage ends.
pub open spec fn moves_to_next_relocation(o: RunView, n: RunView, r: JobAction, rc: RelocateConfig) -> bool {
    if o.pos >= o.queue.len() {
        r is Continue && n == RunView { stage: o.stage + 1, phase: Phase::StageStart, ..o }
    } else {
        let c = o.queue[o.pos];
        if o.summary.relocated_count + 1 > u64::MAX || o.summary.relocated_bytes + c.size > u64::MAX {
            is_overflow(r) && n == RunView { phase: Phase::Finished, ..o }
        } else if !is_due(o.now, c.basis, rc.after_days) {
            r is Continue && n == RunView {
                summary: with_skipped(o.summary, seq![outcome(c.path, StageKind::Relocate, OutcomeStatus::Skipped,
                    grace_reason(StageKind::Relocate))]),
                pos: o.pos + 1,
                ..o
            }
        } else if o.dry_run {
            previews(r, o.stage, seq![c]) && n == RunView {
                summary: SummaryView {
                    relocated_count: o.summary.relocated_count + 1,
                    relocated_bytes: o.summary.relocated_bytes + c.size,
                    ..o.summary
                },
                pos: o.pos + 1,
                ..o
            }
        } else {
            r matches JobAction::Relocate { stage, candidate } && stage == o.stage && candidate@ == c
                && n == RunView { phase: Phase::AwaitRelocate, ..o }
        }
    }
}

/// What `proceed` does, by phase.
pub open spec fn proceeds(o: RunView, n: RunView, r: JobAction) -> bool {
    match o.phase {
        Phase::StageStart => starts_stage(o, n, r),
        Phase::NextTarget => moves_to_next_target(o, n, r),
        Phase::ArchiveNext => moves_to_next_archive(o, n, r),
        Phase::RelocateNext => match o.job.stages@[o.stage] {
            StageConfig::Relocate(rc) => moves_to_next_relocation(o, n, r, rc),
            _ => false,
        },
        _ => false,
    }
}

/// Taking in a scan. In an archive stage an unresolvable `basedir` or a
/// failed scan fails the job; otherwise the files in use and those not yet
/// due are left out, and the rest are counted in a dry run, archived one
/// by one, or bundled, by the stage's settings. In a relocate or delete
/// stage a failed scan fails the job, and the candidates are gathered.
pub open spec fn takes_scan(o: RunView, n: RunView, r: JobAction, basedir: Result<String, String>,
    candidates: Result<Vec<FileCandidate>, NeatnikError>) -> bool {
    let st = o.job.stages@[o.stage];
    match st {
        StageConfig::Archive(a) => {
            let t = a.targets@[o.target];
            match basedir {
                Err(m) => (r matches JobAction::Fail(NeatnikError::Config(e)) && is_invalid(e, o.job.name@, basedir_reason(t.basedir@, m@)))
                    && n == RunView { phase: Phase::Finished, ..o },
                Ok(p) => match candidates {
                    Err(e) => r == JobAction::Fail(e) && n == RunView { phase: Phase::Finished, ..o },
                    Ok(cs) => {
                        let cv = candidate_views(cs@);
                        let s2 = screened(o.summary, cv, o.now, a.after_days, StageKind::Archive);
                        let el = due_files(cv, o.now, a.after_days);
                        if o.dry_run {
                            if s2.archived_count + el.len() > u64::MAX || s2.archived_bytes + total_size(el) > u64::MAX {
                                is_overflow(r) && n == RunView { summary: s2, phase: Phase::Finished, ..o }
                            } else {
                                previews(r, o.stage, el) && n == RunView {
                                    summary: SummaryView {
                                        archived_count: s2.archived_count + el.len(),
                                        archived_bytes: s2.archived_bytes + total_size(el),
                                        ..s2
                                    },
                                    target: o.target + 1,
                                    phase: Phase::NextTarget,
                                    ..o
                                }
                            }
                        } else if a.bundle == BundleKind::Unbundled {
                            r is Continue && n == RunView { summary: s2, queue: el, pos: 0, phase: Phase::ArchiveNext, ..o }
                        } else {
                            &&& r matches JobAction::Bundle { stage, target, members } && stage == o.stage
                                && target.basedir@ == p@ && target.name@ == spec_resolved_name(t)
                                && candidate_views(members@) == el
                            &&& n == RunView { summary: s2, queue: el, phase: Phase::AwaitBundle, ..o }
                        }
                    },
                },
            }
        },
        _ => match candidates {
            Err(e) => r == JobAction::Fail(e) && n == RunView { phase: Phase::Finished, ..o },
            Ok(cs) => r is Continue && n == RunView {
                gathered: o.gathered + candidate_views(cs@),
                target: o.target + 1,
                phase: Phase::NextTarget,
                ..o
            },
        },
    }
}

/// Taking in the outcome of archiving the current file: counted when
/// archived, a failure otherwise; then the next file.
pub open spec fn takes_archive(o: RunView, n: RunView, r: JobAction, result: Result<SingleFileRunResult, NeatnikError>) -> bool {
    let c = o.queue[o.pos];
    if o.summary.archived_count + 1 > u64::MAX || o.summary.archived_bytes + c.size > u64::MAX {
        is_overflow(r) && n == RunView { phase: Phase::Finished, ..o }
    } else {
        r is Continue && n == RunView {
            summary: match result {
                Ok(_) => SummaryView {
                    archived_count: o.summary.archived_count + 1,
                    archived_bytes: o.summary.archived_bytes + c.size,
                    ..o.summary
                },
                Err(e) => SummaryView {
                    failed: o.summary.failed.push(outcome(c.path, StageKind::Archive, OutcomeStatus::Failed, neatnik_error_text(e))),
                    ..o.summary
                },
            },
            pos: o.pos + 1,
            phase: Phase::ArchiveNext,
            ..o
        }
    }
}

/// Taking in the outcome of bundling a target: a failure fails the job;
/// otherwise each group is recorded (see `apply_group`) and the next target follows.
pub open spec fn takes_bundles(o: RunView, n: RunView, r: JobAction, result: Result<Vec<BundleGroupResult>, NeatnikError>) -> bool {
    match result {
        Err(e) => r == JobAction::Fail(e) && n == RunView { phase: Phase::Finished, ..o },
        Ok(groups) => {
            let t = groups_totals(o.queue, groups@, groups@.len());
            if o.summary.archived_count + t.0 > u64::MAX || o.summary.archived_bytes + t.1 > u64::MAX {
                is_overflow(r) && n == RunView { phase: Phase::Finished, ..o }
            } else {
                r is Continue && n == RunView {
                    summary: apply_groups(o.summary, o.queue, groups@, groups@.len()),
                    target: o.target + 1,
                    phase: Phase::NextTarget,
                    ..o
                }
            }
        },
    }
}

/// Taking in the outcome of relocating the current file: counted when
/// moved, skipped when its destination was taken and the policy skips, a
/// failure otherwise; then the next file.
pub open spec fn takes_relocation(o: RunView, n: RunView, r: JobAction, result: Result<RelocateResult, NeatnikError>) -> bool {
    let c = o.queue[o.pos];
    r is Continue && n == RunView {
        summary: match result {
            Ok(res) => if res.outcome == RelocateOutcome::Moved {
                SummaryView {
                    relocated_count: o.summary.relocated_count + 1,
                    relocated_bytes: o.summary.relocated_bytes + c.size,
                    ..o.summary
                }
            } else {
                with_skipped(o.summary, seq![outcome(c.path, StageKind::Relocate, OutcomeStatus::Skipped, conflict_skip_reason())])
            },
            Err(e) => SummaryView {
                failed: o.summary.failed.push(outcome(c.path, StageKind::Relocate, OutcomeStatus::Failed, neatnik_error_text(e))),
                ..o.summary
            },
        },
        pos: o.pos + 1,
        phase: Phase::RelocateNext,
        ..o
    }
}

/// Taking in the outcome of the removals of a delete stage: each file is
/// recorded as deleted or failed, the brake is marked when it was exceeded
/// and enforced, and the stage ends.
pub open spec fn takes_removals(o: RunView, n: RunView, r: JobAction, removed: Seq<bool>, d: DeleteConfig) -> bool {
    let p = o.plan.unwrap();
    r is Continue && n == RunView {
        summary: delete_effect(flagged(o.summary, p.evaluation.triggered, d.safety_brake.enforce), o.queue, p.action,
            removed, o.queue.len()),
        stage: o.stage + 1,
        plan: None,
        phase: Phase::StageStart,
        ..o
    }
}

proof fn lemma_report_effect(s: SummaryView, cs: Seq<CandidateView>, rs: Seq<crate::delete::DeleteResult>,
    action: DeleteAction, removed: Seq<bool>, k: nat)
    requires
        k <= cs.len(),
        rs.len() == cs.len(),
        forall|i: int| 0 <= i < cs.len() ==> (#[trigger] rs[i]).path@ == cs[i].path
            && rs[i].outcome == spec_outcome(action, i < removed.len() && removed[i]),
    ensures
        apply_deletes(s, cs, rs, k) == delete_effect(s, cs, action, removed, k),
    decreases k,
{
    if k > 0 {
        lemma_report_effect(s, cs, rs, action, removed, (k - 1) as nat);
        assert(rs[k - 1].path@ == cs[k - 1].path);
    }
}

fn copy_candidates(v: &Vec<FileCandidate>) -> (r: Vec<FileCandidate>)
    ensures
        candidate_views(r@) == candidate_views(v@),
{
    let mut r: Vec<FileCandidate> = Vec::new();
    let mut i: usize = 0;
    while i < v.len()
        invariant
            i <= v@.len(),
            candidate_views(r@) == candidate_views(v@).take(i as int),
        decreases v@.len() - i,
    {
        let ghost before = r@;
        let c = v[i].clone();
        r.push(c);
        assert(candidate_views(r@) =~= candidate_views(before).push(v@[i as int]@));
        assert(candidate_views(v@).take(i + 1) =~= candidate_views(v@).take(i as int).push(v@[i as int]@));
        i = i + 1;
    }
    assert(candidate_views(v@).take(i as int) =~= candidate_views(v@));
    r
}

fn paths_of_candidates(v: &Vec<FileCandidate>) -> (r: Vec<String>)
    ensures
        string_views(r@) == paths_of(candidate_views(v@)),
{
    let mut r: Vec<String> = Vec::new();
    let mut i: usize = 0;
    while i < v.len()
        invariant
            i <= v@.len(),
            string_views(r@) == paths_of(candidate_views(v@)).take(i as int),
        decreases v@.len() - i,
    {
        let ghost before = r@;
        r.push(v[i].path.clone());
        assert(string_views(r@) =~= string_views(before).push(v@[i as int].path@));
        assert(paths_of(candidate_views(v@)).take(i + 1) =~= paths_of(candidate_views(v@)).take(i as int).push(v@[i as int].path@));
        i = i + 1;
    }
    assert(paths_of(candidate_views(v@)).take(i as int) =~= paths_of(candidate_views(v@)));
    r
}

fn overflow() -> (r: JobAction)
    ensures
        is_overflow(r),
{
    JobAction::Fail(NeatnikError::Io("summary counter overflow".to_owned()))
}

impl JobRun {
    /// Whether the run is in one of the states a run can be in.
    pub closed spec fn wf(&self) -> bool {
        &&& valid(self@)
        &&& self.n_stages == self@.job.stages@.len()
        &&& (self@.phase is AwaitScan || self@.phase is ArchiveNext || self@.phase is AwaitArchive
            || self@.phase is AwaitBundle) ==> self.n_targets == targets_of(self@.job.stages@[self@.stage]).len()
    }

    /// Starts a run of `job` at the instant `now`; the first step is [`JobRun::proceed`].
    pub fn start(job: &JobConfig, now: Timestamp, dry_run: bool) -> (r: JobRun)
        ensures
            r.wf(),
            r@ == (RunView {
                job: *job,
                now: now@,
                dry_run,
                summary: empty_summary(job.name@),
                stage: 0,
                target: 0,
                gathered: seq![],
                queue: seq![],
                pos: 0,
                plan: None,
                phase: Phase::StageStart,
            }),
    {
        let r = JobRun {
            job: Ghost(*job),
            n_stages: job.stages.len(),
            n_targets: 0,
            now,
            dry_run,
            summary: JobSummary::new(job.name.as_str()),
            stage: 0,
            target: 0,
            gathered: Vec::new(),
            queue: Vec::new(),
            pos: 0,
            plan: None,
            phase: Phase::StageStart,
        };
        assert(candidate_views(r.gathered@) =~= Seq::<CandidateView>::empty());
        assert(candidate_views(r.queue@) =~= Seq::<CandidateView>::empty());
        r
    }

    /// The summary of the run so far.
    pub fn into_summary(self) -> (r: JobSummary)
        ensures
            r@ == self@.summary,
    {
        self.summary
    }

    /// Takes the next step that needs nothing from outside (see [`proceeds`]).
    pub fn proceed(&mut self, job: &JobConfig) -> (r: JobAction)
        requires
            old(self).wf(),
            *job == old(self)@.job,
            can_proceed(old(self)@.phase),
        ensures
            final(self).wf(),
            proceeds(old(self)@, final(self)@, r),
    {
        match self.phase {
            Phase::StageStart => {
                if self.stage >= self.n_stages {
                    self.phase = Phase::Finished;
                    return JobAction::Done;
                }
                self.target = 0;
                self.gathered = Vec::new();
                self.phase = Phase::NextTarget;
                assert(candidate_views(self.gathered@) =~= Seq::<CandidateView>::empty());
                JobAction::Continue
            },
            Phase::NextTarget => self.next_target(job),
            Phase::ArchiveNext => {
                if self.pos < self.queue.len() {
                    self.phase = Phase::AwaitArchive;
                    let candidate = self.queue[self.pos].clone();
                    return JobAction::ArchiveFile { stage: self.stage, candidate };
                }
                self.target = self.target + 1;
                self.phase = Phase::NextTarget;
                JobAction::Continue
            },
            _ => self.next_relocation(job),
        }
    }

    fn next_target(&mut self, job: &JobConfig) -> (r: JobAction)
        requires
            old(self).wf(),
            *job == old(self)@.job,
            old(self)@.phase == Phase::NextTarget,
        ensures
            final(self).wf(),
            moves_to_next_target(old(self)@, final(self)@, r),
    {
        let n_targets = match &job.stages[self.stage] {
            StageConfig::Archive(a) => a.targets.len(),
            StageConfig::Relocate(rc) => rc.targets.len(),
            StageConfig::Delete(d) => d.targets.len(),
        };
        self.n_targets = n_targets;
        if self.target < n_targets {
            self.phase = Phase::AwaitScan;
            return JobAction::Scan { stage: self.stage, target: self.target };
        }
        match &job.stages[self.stage] {
            StageConfig::Archive(_) => {
                self.stage = self.stage + 1;
                self.phase = Phase::StageStart;
                JobAction::Continue
            },
            StageConfig::Relocate(_) => {
                let usable = take_usable(&mut self.summary, &self.gathered, StageKind::Relocate);
                self.queue = usable;
                self.pos = 0;
                self.phase = Phase::RelocateNext;
                JobAction::Continue
            },
            StageConfig::Delete(d) => self.end_delete_scans(d),
        }
    }

    fn end_delete_scans(&mut self, d: &DeleteConfig) -> (r: JobAction)
        requires
            old(self).wf(),
            old(self)@.phase == Phase::NextTarget,
            old(self)@.job.stages@[old(self)@.stage] == StageConfig::Delete(*d),
            old(self)@.target >= d.targets@.len(),
        ensures
            final(self).wf(),
            ends_delete_scans(old(self)@, final(self)@, r, *d),
    {
        let usable = take_usable(&mut self.summary, &self.gathered, StageKind::Delete);
        let eligible = take_due(&mut self.summary, &usable, &self.now, d.after_days, StageKind::Delete);
        if eligible.len() == 0 {
            self.stage = self.stage + 1;
            self.phase = Phase::StageStart;
            return JobAction::Continue;
        }
        let total = match checked_total_size(&eligible) {
            Some(t) => t,
            None => {
                self.phase = Phase::Finished;
                return overflow();
            },
        };
        if eligible.len() as u64 > u64::MAX - self.summary.deleted_count || total > u64::MAX - self.summary.deleted_bytes {
            self.phase = Phase::Finished;
            return overflow();
        }
        let p = plan(&eligible, &d.safety_brake, self.dry_run);
        match p.action {
            DeleteAction::Remove => {
                let paths = paths_of_candidates(&eligible);
                self.queue = eligible;
                self.plan = Some(p);
                self.phase = Phase::AwaitRemove;
                JobAction::Remove { paths }
            },
            _ => {
                let simulate = match p.action {
                    DeleteAction::Simulate => true,
                    _ => false,
                };
                let ghost before = self.summary@;
                let ghost cs = candidate_views(eligible@);
                let ghost action = p.action;
                let ghost triggered = p.evaluation.triggered;
                let rep = report(&eligible, p, &Vec::new());
                proof {
                    let rs = rep.results@;
                    assert(paired(cs, rs) == cs.len());
                    lemma_deleted_totals_bounded(cs, rs, cs.len());
                    lemma_total_size_prefix(cs, cs.len() as int);
                    assert(cs.take(cs.len() as int) =~= cs);
                    assert forall|i: int| 0 <= i < cs.len() implies (#[trigger] rs[i]).path@ == cs[i].path
                        && rs[i].outcome == spec_outcome(action, i < Seq::<bool>::empty().len() && Seq::<bool>::empty()[i]) by {
                    }
                    lemma_report_effect(flagged(before, triggered, d.safety_brake.enforce), cs, rs, action, seq![], cs.len());
                }
                record_delete(&mut self.summary, &eligible, &rep, d.safety_brake.enforce);
                let stage = self.stage;
                self.stage = self.stage + 1;
                self.phase = Phase::StageStart;
                if simulate {
                    JobAction::Preview { stage, files: eligible }
                } else {
                    JobAction::Continue
                }
            },
        }
    }

    fn next_relocation(&mut self, job: &JobConfig) -> (r: JobAction)
        requires
            old(self).wf(),
            *job == old(self)@.job,
            old(self)@.phase == Phase::RelocateNext,
        ensures
            final(self).wf(),
            match old(self)@.job.stages@[old(self)@.stage] {
                StageConfig::Relocate(rc) => moves_to_next_relocation(old(self)@, final(self)@, r, rc),
                _ => false,
            },
    {
        let rc = match &job.stages[self.stage] {
            StageConfig::Relocate(rc) => rc,
            _ => {
                assert(false);
                return JobAction::Done;
            },
        };
        if self.pos >= self.queue.len() {
            self.stage = self.stage + 1;
            self.phase = Phase::StageStart;
            return JobAction::Continue;
        }
        if self.summary.relocated_count == u64::MAX || self.queue[self.pos].size_bytes > u64::MAX - self.summary.relocated_bytes {
            self.phase = Phase::Finished;
            return overflow();
        }
        let go = relocate_gate(&mut self.summary, &self.queue[self.pos], &self.now, rc.after_days, self.dry_run);
        if go {
            self.phase = Phase::AwaitRelocate;
            let candidate = self.queue[self.pos].clone();
            return JobAction::Relocate { stage: self.stage, candidate };
        }
        let counted = self.dry_run && due(&self.now, &self.queue[self.pos].basis_datetime, rc.after_days);
        let mut files: Vec<FileCandidate> = Vec::new();
        if counted {
            files.push(self.queue[self.pos].clone());
            assert(candidate_views(files@) =~= seq![old(self)@.queue[old(self)@.pos]]);
        }
        self.pos = self.pos + 1;
        if counted {
            JobAction::Preview { stage: self.stage, files }
        } else {
            JobAction::Continue
        }
    }

    /// Takes in the scan of the current target (see [`takes_scan`]):
    /// `basedir` is the outcome of resolving the target's `basedir`, and
    /// `candidates` that of scanning the target.
    pub fn scanned(&mut self, job: &JobConfig, basedir: Result<String, String>,
        candidates: Result<Vec<FileCandidate>, NeatnikError>) -> (r: JobAction)
        requires
            old(self).wf(),
            *job == old(self)@.job,
            old(self)@.phase == Phase::AwaitScan,
        ensures
            final(self).wf(),
            takes_scan(old(self)@, final(self)@, r, basedir, candidates),
    {
        match &job.stages[self.stage] {
            StageConfig::Archive(a) => {
                let t = &a.targets[self.target];
                let p = match t.canonical_basedir(job.name.as_str(), basedir) {
                    Ok(p) => p,
                    Err(e) => {
                        self.phase = Phase::Finished;
                        return JobAction::Fail(NeatnikError::Config(e));
                    },
                };
                let cs = match candidates {
                    Ok(cs) => cs,
                    Err(e) => {
                        self.phase = Phase::Finished;
                        return JobAction::Fail(e);
                    },
                };
                let usable = take_usable(&mut self.summary, &cs, StageKind::Archive);
                let eligible = take_due(&mut self.summary, &usable, &self.now, a.after_days, StageKind::Archive);
                if self.dry_run {
                    let total = match checked_total_size(&eligible) {
                        Some(x) => x,
                        None => {
                            self.phase = Phase::Finished;
                            return overflow();
                        },
                    };
                    if eligible.len() as u64 > u64::MAX - self.summary.archived_count
                        || total > u64::MAX - self.summary.archived_bytes {
                        self.phase = Phase::Finished;
                        return overflow();
                    }
                    record_archive_dry_run(&mut self.summary, &eligible);
                    self.target = self.target + 1;
                    self.phase = Phase::NextTarget;
                    return JobAction::Preview { stage: self.stage, files: eligible };
                }
                match a.bundle {
                    BundleKind::Unbundled => {
                        self.queue = eligible;
                        self.pos = 0;
                        self.phase = Phase::ArchiveNext;
                        JobAction::Continue
                    },
                    _ => {
                        let members = copy_candidates(&eligible);
                        self.queue = eligible;
                        self.phase = Phase::AwaitBundle;
                        JobAction::Bundle {
                            stage: self.stage,
                            target: WatchTargetRef { basedir: p, name: t.resolved_name() },
                            members,
                        }
                    },
                }
            },
            _ => match candidates {
                Err(e) => {
                    self.phase = Phase::Finished;
                    JobAction::Fail(e)
                },
                Ok(cs) => {
                    let mut cs = cs;
                    let ghost before = self.gathered@;
                    let ghost added = cs@;
                    self.gathered.append(&mut cs);
                    assert(candidate_views(self.gathered@) =~= candidate_views(before) + candidate_views(added));
                    self.target = self.target + 1;
                    self.phase = Phase::NextTarget;
                    JobAction::Continue
                },
            },
        }
    }

    /// Takes in the outcome of archiving the current file (see [`takes_archive`]).
    pub fn archived(&mut self, result: Result<SingleFileRunResult, NeatnikError>) -> (r: JobAction)
        requires
            old(self).wf(),
            old(self)@.phase == Phase::AwaitArchive,
        ensures
            final(self).wf(),
            takes_archive(old(self)@, final(self)@, r, result),
    {
        if self.summary.archived_count == u64::MAX || self.queue[self.pos].size_bytes > u64::MAX - self.summary.archived_bytes {
            self.phase = Phase::Finished;
            return overflow();
        }
        record_single_archive(&mut self.summary, &self.queue[self.pos], &result);
        let queued = self.queue.len();
        assert(self.pos < queued);
        self.pos = self.pos + 1;
        self.phase = Phase::ArchiveNext;
        JobAction::Continue
    }

    /// Takes in the outcome of bundling the current target (see [`takes_bundles`]).
    pub fn bundled(&mut self, result: Result<Vec<BundleGroupResult>, NeatnikError>) -> (r: JobAction)
        requires
            old(self).wf(),
            old(self)@.phase == Phase::AwaitBundle,
        ensures
            final(self).wf(),
            takes_bundles(old(self)@, final(self)@, r, result),
    {
        let groups = match result {
            Err(e) => {
                self.phase = Phase::Finished;
                return JobAction::Fail(e);
            },
            Ok(g) => g,
        };
        let (n, b) = match checked_groups_totals(&self.queue, &groups) {
            Some(t) => t,
            None => {
                self.phase = Phase::Finished;
                return overflow();
            },
        };
        if n > u64::MAX - self.summary.archived_count || b > u64::MAX - self.summary.archived_bytes {
            self.phase = Phase::Finished;
            return overflow();
        }
        record_bundle_groups(&mut self.summary, &self.queue, &groups);
        self.target = self.target + 1;
        self.phase = Phase::NextTarget;
        JobAction::Continue
    }

    /// Takes in the outcome of relocating the current file (see [`takes_relocation`]).
    pub fn relocated(&mut self, result: Result<RelocateResult, NeatnikError>) -> (r: JobAction)
        requires
            old(self).wf(),
            old(self)@.phase == Phase::AwaitRelocate,
        ensures
            final(self).wf(),
            takes_relocation(old(self)@, final(self)@, r, result),
    {
        record_relocate(&mut self.summary, &self.queue[self.pos], &result);
        let queued = self.queue.len();
        assert(self.pos < queued);
        self.pos = self.pos + 1;
        self.phase = Phase::RelocateNext;
        JobAction::Continue
    }

    /// Takes in which removals of the current delete stage succeeded
    /// (see [`takes_removals`]); a missing entry counts as a failure.
    pub fn removed(&mut self, job: &JobConfig, removed: Vec<bool>) -> (r: JobAction)
        requires
            old(self).wf(),
            *job == old(self)@.job,
            old(self)@.phase == Phase::AwaitRemove,
        ensures
            final(self).wf(),
            match old(self)@.job.stages@[old(self)@.stage] {
                StageConfig::Delete(d) => takes_removals(old(self)@, final(self)@, r, removed@, d),
                _ => false,
            },
    {
        let d = match &job.stages[self.stage] {
            StageConfig::Delete(d) => d,
            _ => {
                assert(false);
                return JobAction::Done;
            },
        };
        let p = match self.plan.take() {
            Some(p) => p,
            None => {
                assert(false);
                return JobAction::Done;
            },
        };
        let ghost before = self.summary@;
        let ghost cs = candidate_views(self.queue@);
        let ghost action = p.action;
        let ghost triggered = p.evaluation.triggered;
        let rep = report(&self.queue, p, &removed);
        proof {
            let rs = rep.results@;
            assert(paired(cs, rs) == cs.len());
            lemma_deleted_totals_bounded(cs, rs, cs.len());
            lemma_total_size_prefix(cs, cs.len() as int);
            assert(cs.take(cs.len() as int) =~= cs);
            lemma_report_effect(flagged(before, triggered, d.safety_brake.enforce), cs, rs, action, removed@, cs.len());
        }
        record_delete(&mut self.summary, &self.queue, &rep, d.safety_brake.enforce);
        self.stage = self.stage + 1;
        self.phase = Phase::StageStart;
        JobAction::Continue
    }
}

/// A dry run changes no file: whatever it is told, a run in a dry run
/// never asks to archive, bundle, relocate or remove a file.
pub proof fn law_dry_run_touches_no_file(o: RunView, n: RunView, r: JobAction,
    basedir: Result<String, String>, candidates: Result<Vec<FileCandidate>, NeatnikError>)
    requires
        valid(o),
        o.dry_run,
        proceeds(o, n, r) || (o.phase == Phase::AwaitScan && takes_scan(o, n, r, basedir, candidates)),
    ensures
        !touches_files(r),
{
}

/// Stages run in the order they are written: a step stays in the current
/// stage or moves on to the next one, and every action it asks for
/// concerns the current stage.
pub proof fn law_stages_run_in_order(o: RunView, n: RunView, r: JobAction,
    basedir: Result<String, String>, candidates: Result<Vec<FileCandidate>, NeatnikError>)
    requires
        valid(o),
        proceeds(o, n, r) || (o.phase == Phase::AwaitScan && takes_scan(o, n, r, basedir, candidates)),
    ensures
        n.stage == o.stage || (n.stage == o.stage + 1 && n.phase == Phase::StageStart),
        r matches JobAction::Scan { stage, .. } ==> stage == o.stage,
        r matches JobAction::ArchiveFile { stage, .. } ==> stage == o.stage,
        r matches JobAction::Bundle { stage, .. } ==> stage == o.stage,
        r matches JobAction::Relocate { stage, .. } ==> stage == o.stage,
{
}

/// Every file of `fs` is one of the candidates `cs`, and none is in use.
pub open spec fn free_members(fs: Seq<CandidateView>, cs: Seq<CandidateView>) -> bool {
    forall|k: int| 0 <= k < fs.len() ==> !(#[trigger] fs[k]).in_use && cs.contains(fs[k])
}

/// Every candidate of `cs` that is in use is among `skipped` as skipped by
/// `stage` for being in use.
pub open spec fn in_use_recorded(skipped: Seq<OutcomeView>, cs: Seq<CandidateView>, stage: StageKind) -> bool {
    forall|i: int| 0 <= i < cs.len() && (#[trigger] cs[i]).in_use
        ==> skipped.contains(outcome(cs[i].path, stage, OutcomeStatus::Skipped, in_use_reason()))
}

proof fn lemma_contains_concat<A>(a: Seq<A>, b: Seq<A>, x: A)
    requires
        a.contains(x) || b.contains(x),
    ensures
        (a + b).contains(x),
{
    if a.contains(x) {
        let i = choose|i: int| 0 <= i < a.len() && a[i] == x;
        assert((a + b)[i] == x);
    } else {
        let i = choose|i: int| 0 <= i < b.len() && b[i] == x;
        assert((a + b)[a.len() + i] == x);
    }
}

proof fn lemma_recorded_in_concat(a: Seq<OutcomeView>, b: Seq<OutcomeView>, cs: Seq<CandidateView>, stage: StageKind)
    requires
        in_use_recorded(a, cs, stage) || in_use_recorded(b, cs, stage),
    ensures
        in_use_recorded(a + b, cs, stage),
{
    assert forall|i: int| 0 <= i < cs.len() && (#[trigger] cs[i]).in_use
        implies (a + b).contains(outcome(cs[i].path, stage, OutcomeStatus::Skipped, in_use_reason())) by {
        lemma_contains_concat(a, b, outcome(cs[i].path, stage, OutcomeStatus::Skipped, in_use_reason()));
    }
}

proof fn lemma_not_in_use_free(cs: Seq<CandidateView>)
    ensures
        free_members(not_in_use(cs), cs),
        forall|i: int| 0 <= i < cs.len() && !(#[trigger] cs[i]).in_use ==> not_in_use(cs).contains(cs[i]),
    decreases cs.len(),
{
    if cs.len() > 0 {
        let t = cs.drop_last();
        lemma_not_in_use_free(t);
        let rest = not_in_use(t);
        assert forall|k: int| 0 <= k < not_in_use(cs).len() implies
            !(#[trigger] not_in_use(cs)[k]).in_use && cs.contains(not_in_use(cs)[k]) by {
            if k < rest.len() {
                assert(not_in_use(cs)[k] == rest[k]);
                let j = choose|j: int| 0 <= j < t.len() && t[j] == rest[k];
                assert(cs[j] == rest[k]);
            } else {
                assert(cs[cs.len() - 1] == cs.last());
            }
        }
        assert forall|i: int| 0 <= i < cs.len() && !(#[trigger] cs[i]).in_use implies not_in_use(cs).contains(cs[i]) by {
            if i < t.len() {
                assert(t[i] == cs[i]);
                let j = choose|j: int| 0 <= j < rest.len() && rest[j] == t[i];
                assert(not_in_use(cs)[j] == rest[j]);
            } else {
                assert(not_in_use(cs)[rest.len() as int] == cs.last());
            }
        }
    }
}

proof fn lemma_due_keeps_free(fs: Seq<CandidateView>, cs: Seq<CandidateView>, now: (int, int), after_days: u32)
    requires
        free_members(fs, cs),
    ensures
        free_members(due_candidates(fs, now, after_days), cs),
        due_candidates(fs, now, after_days).len() <= fs.len(),
        forall|k: int| 0 <= k < due_candidates(fs, now, after_days).len() ==>
            is_due(now, (#[trigger] due_candidates(fs, now, after_days)[k]).basis, after_days)
            && fs.contains(due_candidates(fs, now, after_days)[k]),
        forall|i: int| 0 <= i < fs.len() && is_due(now, (#[trigger] fs[i]).basis, after_days)
            ==> due_candidates(fs, now, after_days).contains(fs[i]),
    decreases fs.len(),
{
    if fs.len() > 0 {
        let t = fs.drop_last();
        assert forall|k: int| 0 <= k < t.len() implies !(#[trigger] t[k]).in_use && cs.contains(t[k]) by {
            assert(t[k] == fs[k]);
        }
        lemma_due_keeps_free(t, cs, now, after_days);
        let rest = due_candidates(t, now, after_days);
        let all = due_candidates(fs, now, after_days);
        assert forall|k: int| 0 <= k < all.len() implies
            !(#[trigger] all[k]).in_use && cs.contains(all[k]) && is_due(now, all[k].basis, after_days) && fs.contains(all[k]) by {
            if k < rest.len() {
                assert(all[k] == rest[k]);
                let j = choose|j: int| 0 <= j < t.len() && t[j] == rest[k];
                assert(fs[j] == rest[k]);
            } else {
                assert(all[k] == fs.last());
                assert(fs[fs.len() - 1] == fs.last());
            }
        }
        assert forall|i: int| 0 <= i < fs.len() && is_due(now, (#[trigger] fs[i]).basis, after_days) implies all.contains(fs[i]) by {
            if i < t.len() {
                assert(t[i] == fs[i]);
                let j = choose|j: int| 0 <= j < rest.len() && rest[j] == t[i];
                assert(all[j] == rest[j]);
            } else {
                assert(all[rest.len() as int] == fs.last());
            }
        }
    }
}

proof fn lemma_in_use_outcomes_record(cs: Seq<CandidateView>, stage: StageKind)
    ensures
        in_use_recorded(in_use_outcomes(cs, stage), cs, stage),
    decreases cs.len(),
{
    if cs.len() > 0 {
        let t = cs.drop_last();
        lemma_in_use_outcomes_record(t, stage);
        let rest = in_use_outcomes(t, stage);
        let all = in_use_outcomes(cs, stage);
        assert forall|i: int| 0 <= i < cs.len() && (#[trigger] cs[i]).in_use
            implies all.contains(outcome(cs[i].path, stage, OutcomeStatus::Skipped, in_use_reason())) by {
            let x = outcome(cs[i].path, stage, OutcomeStatus::Skipped, in_use_reason());
            if i < t.len() {
                assert(t[i] == cs[i]);
                assert(rest.contains(x));
                let j = choose|j: int| 0 <= j < rest.len() && rest[j] == x;
                assert(all[j] == rest[j]);
            } else {
                assert(cs[i] == cs.last());
                assert(all[rest.len() as int] == x);
            }
        }
    }
}

proof fn lemma_delete_effect_keeps(s: SummaryView, cs: Seq<CandidateView>, action: DeleteAction, removed: Seq<bool>, k: nat,
    x: OutcomeView)
    requires
        s.skipped.contains(x),
    ensures
        delete_effect(s, cs, action, removed, k).skipped.contains(x),
        delete_effect(s, cs, action, removed, k).deleted_count <= s.deleted_count + k,
    decreases k,
{
    if k > 0 {
        lemma_delete_effect_keeps(s, cs, action, removed, (k - 1) as nat, x);
        let prev = delete_effect(s, cs, action, removed, (k - 1) as nat);
        let j = choose|j: int| 0 <= j < prev.skipped.len() && prev.skipped[j] == x;
        assert(delete_effect(s, cs, action, removed, k).skipped[j] == x);
    }
}

proof fn lemma_delete_effect_recorded(s: SummaryView, cs: Seq<CandidateView>, action: DeleteAction, removed: Seq<bool>,
    k: nat, gathered: Seq<CandidateView>)
    requires
        in_use_recorded(s.skipped, gathered, StageKind::Delete),
    ensures
        in_use_recorded(delete_effect(s, cs, action, removed, k).skipped, gathered, StageKind::Delete),
        delete_effect(s, cs, action, removed, k).deleted_count <= s.deleted_count + k,
{
    let x0 = outcome(seq![], StageKind::Delete, OutcomeStatus::Skipped, in_use_reason());
    assert forall|i: int| 0 <= i < gathered.len() && (#[trigger] gathered[i]).in_use implies
        delete_effect(s, cs, action, removed, k).skipped.contains(
            outcome(gathered[i].path, StageKind::Delete, OutcomeStatus::Skipped, in_use_reason())) by {
        lemma_delete_effect_keeps(s, cs, action, removed, k,
            outcome(gathered[i].path, StageKind::Delete, OutcomeStatus::Skipped, in_use_reason()));
    }
    if s.skipped.len() > 0 {
        lemma_delete_effect_keeps(s, cs, action, removed, k, s.skipped[0]);
    } else {
        lemma_delete_effect_count(s, cs, action, removed, k);
    }
}

proof fn lemma_delete_effect_count(s: SummaryView, cs: Seq<CandidateView>, action: DeleteAction, removed: Seq<bool>, k: nat)
    ensures
        delete_effect(s, cs, action, removed, k).deleted_count <= s.deleted_count + k,
    decreases k,
{
    if k > 0 {
        lemma_delete_effect_count(s, cs, action, removed, (k - 1) as nat);
    }
}

/// A delete stage spares the files in use: every file it asks to remove,
/// previews or queues for removal is one of the scanned candidates and is
/// not in use, every candidate in use is recorded as skipped for being in
/// use, and it counts no more files as deleted than there are candidates
/// not in use.
pub proof fn law_delete_spares_files_in_use(o: RunView, n: RunView, r: JobAction, d: DeleteConfig)
    requires
        ends_delete_scans(o, n, r, d),
    ensures
        r matches JobAction::Remove { paths } ==> forall|k: int| 0 <= k < paths@.len() ==>
            exists|i: int| 0 <= i < o.gathered.len() && o.gathered[i].path == (#[trigger] paths@[k])@ && !o.gathered[i].in_use,
        r matches JobAction::Preview { files, .. } ==> free_members(candidate_views(files@), o.gathered),
        n.phase == Phase::AwaitRemove ==> free_members(n.queue, o.gathered),
        in_use_recorded(n.summary.skipped, o.gathered, StageKind::Delete),
        n.summary.deleted_count <= o.summary.deleted_count + not_in_use(o.gathered).len(),
{
    let g = o.gathered;
    let free = not_in_use(g);
    let s2 = screened(o.summary, g, o.now, d.after_days, StageKind::Delete);
    let el = due_files(g, o.now, d.after_days);
    lemma_not_in_use_free(g);
    lemma_due_keeps_free(free, g, o.now, d.after_days);
    lemma_in_use_outcomes_record(g, StageKind::Delete);
    lemma_recorded_in_concat(o.summary.skipped, in_use_outcomes(g, StageKind::Delete), g, StageKind::Delete);
    lemma_recorded_in_concat(o.summary.skipped + in_use_outcomes(g, StageKind::Delete),
        not_due_outcomes(free, o.now, d.after_days, StageKind::Delete), g, StageKind::Delete);
    assert(in_use_recorded(s2.skipped, g, StageKind::Delete));
    assert(s2.deleted_count == o.summary.deleted_count);
    let trig = brake_exceeded(el.len() as int, total_size(el), d.safety_brake);
    let fl = flagged(s2, trig, d.safety_brake.enforce);
    let act = spec_action(trig, d.safety_brake.enforce, o.dry_run);
    lemma_delete_effect_recorded(fl, el, act, seq![], el.len(), g);
    if let JobAction::Remove { paths } = r {
        assert(el.len() > 0);
        assert(act == DeleteAction::Remove);
        assert(string_views(paths@) == paths_of(el));
        assert(paths@.len() == el.len());
        assert forall|k: int| 0 <= k < paths@.len() implies
            exists|i: int| 0 <= i < g.len() && g[i].path == (#[trigger] paths@[k])@ && !g[i].in_use by {
            assert(string_views(paths@)[k] == paths@[k]@);
            assert(paths_of(el)[k] == el[k].path);
            assert(!el[k].in_use && g.contains(el[k]));
            let i = choose|i: int| 0 <= i < g.len() && g[i] == el[k];
            assert(g[i].path == paths@[k]@);
        }
    }
}

/// A relocate stage spares the files in use: when its scans end, the files
/// it queues are exactly the scanned candidates not in use (each one
/// scanned, none in use, none left out), and every candidate in use is
/// recorded as skipped for being in use.
pub proof fn law_relocation_spares_files_in_use(o: RunView, n: RunView, r: JobAction)
    requires
        valid(o),
        o.phase == Phase::NextTarget,
        o.job.stages@[o.stage] is Relocate,
        o.target >= targets_of(o.job.stages@[o.stage]).len(),
        moves_to_next_target(o, n, r),
    ensures
        free_members(n.queue, o.gathered),
        forall|i: int| 0 <= i < o.gathered.len() && !(#[trigger] o.gathered[i]).in_use ==> n.queue.contains(o.gathered[i]),
        in_use_recorded(n.summary.skipped, o.gathered, StageKind::Relocate),
{
    lemma_not_in_use_free(o.gathered);
    lemma_in_use_outcomes_record(o.gathered, StageKind::Relocate);
    assert(n.queue == not_in_use(o.gathered));
    assert(n.summary == with_skipped(o.summary, in_use_outcomes(o.gathered, StageKind::Relocate)));
    lemma_recorded_in_concat(o.summary.skipped, in_use_outcomes(o.gathered, StageKind::Relocate), o.gathered,
        StageKind::Relocate);
}

/// A relocate stage acts only on its queue: each step leaves the queue as
/// it is, and a file it asks to relocate or previews is the one at the
/// current position of the queue.
pub proof fn law_relocation_acts_on_its_queue(o: RunView, n: RunView, r: JobAction, rc: RelocateConfig,
    result: Result<RelocateResult, NeatnikError>)
    requires
        valid(o),
        moves_to_next_relocation(o, n, r, rc) || (o.phase == Phase::AwaitRelocate && takes_relocation(o, n, r, result)),
    ensures
        n.queue == o.queue,
        r matches JobAction::Relocate { candidate, .. } ==> 0 <= o.pos < o.queue.len() && candidate@ == o.queue[o.pos],
        r matches JobAction::Preview { files, .. } ==> 0 <= o.pos < o.queue.len() && candidate_views(files@) == seq![o.queue[o.pos]],
{
}

/// An archive stage bundles exactly when it is set to: once a target is
/// scanned (not in a dry run), the run asks for a bundle precisely when the
/// stage's bundle kind is daily, weekly or monthly, and the members of
/// that bundle are exactly the scanned files that are neither in use nor
/// before their grace period.
pub proof fn law_archive_bundles_as_configured(o: RunView, n: RunView, r: JobAction,
    p: String, cs: Vec<FileCandidate>)
    requires
        valid(o),
        o.phase == Phase::AwaitScan,
        o.job.stages@[o.stage] is Archive,
        !o.dry_run,
        takes_scan(o, n, r, Ok(p), Ok(cs)),
    ensures
        match o.job.stages@[o.stage] {
            StageConfig::Archive(a) => {
                &&& (r is Bundle <==> a.bundle != BundleKind::Unbundled)
                &&& (r matches JobAction::Bundle { members, .. } ==> {
                    &&& forall|k: int| 0 <= k < members@.len() ==> !(#[trigger] members@[k])@.in_use
                        && candidate_views(cs@).contains(members@[k]@) && is_due(o.now, members@[k]@.basis, a.after_days)
                    &&& forall|i: int| 0 <= i < cs@.len() && !(#[trigger] cs@[i])@.in_use && is_due(o.now, cs@[i]@.basis, a.after_days)
                        ==> candidate_views(members@).contains(cs@[i]@)
                })
            },
            _ => true,
        },
{
    let cv = candidate_views(cs@);
    if let StageConfig::Archive(a) = o.job.stages@[o.stage] {
        lemma_not_in_use_free(cv);
        lemma_due_keeps_free(not_in_use(cv), cv, o.now, a.after_days);
        let el = due_files(cv, o.now, a.after_days);
        if let JobAction::Bundle { members, .. } = r {
            assert(candidate_views(members@) == el);
            assert forall|k: int| 0 <= k < members@.len() implies !(#[trigger] members@[k])@.in_use
                && cv.contains(members@[k]@) && is_due(o.now, members@[k]@.basis, a.after_days) by {
                assert(el[k] == members@[k]@);
            }
            assert forall|i: int| 0 <= i < cs@.len() && !(#[trigger] cs@[i])@.in_use && is_due(o.now, cs@[i]@.basis, a.after_days)
                implies candidate_views(members@).contains(cs@[i]@) by {
                assert(cv[i] == cs@[i]@);
                let j = choose|j: int| 0 <= j < not_in_use(cv).len() && not_in_use(cv)[j] == cv[i];
                assert(not_in_use(cv)[j] == cv[i]);
            }
        }
    }
}

/// Files are archived one by one only by an archive stage without
/// bundling: a step that asks to archive a single file comes from such a stage.
pub proof fn law_single_archives_only_unbundled(o: RunView, n: RunView, r: JobAction,
    basedir: Result<String, String>, candidates: Result<Vec<FileCandidate>, NeatnikError>)
    requires
        valid(o),
        proceeds(o, n, r) || (o.phase == Phase::AwaitScan && takes_scan(o, n, r, basedir, candidates)),
    ensures
        r is ArchiveFile ==> unbundled(o.job.stages@[o.stage]),
{
}

/// An archive stage spares the files in use: once a target is scanned,
/// every file it queues for archiving, bundles or previews is one of the
/// scanned candidates and is not in use, and every candidate in use is
/// recorded as skipped for being in use.
pub proof fn law_archive_spares_files_in_use(o: RunView, n: RunView, r: JobAction, p: String, cs: Vec<FileCandidate>)
    requires
        valid(o),
        o.phase == Phase::AwaitScan,
        o.job.stages@[o.stage] is Archive,
        takes_scan(o, n, r, Ok(p), Ok(cs)),
    ensures
        n.phase == Phase::ArchiveNext || n.phase == Phase::AwaitBundle ==> free_members(n.queue, candidate_views(cs@)),
        r matches JobAction::Bundle { members, .. } ==> free_members(candidate_views(members@), candidate_views(cs@)),
        r matches JobAction::Preview { files, .. } ==> free_members(candidate_views(files@), candidate_views(cs@)),
        in_use_recorded(n.summary.skipped, candidate_views(cs@), StageKind::Archive),
{
    let cv = candidate_views(cs@);
    if let StageConfig::Archive(a) = o.job.stages@[o.stage] {
        lemma_not_in_use_free(cv);
        lemma_due_keeps_free(not_in_use(cv), cv, o.now, a.after_days);
        lemma_in_use_outcomes_record(cv, StageKind::Archive);
        lemma_recorded_in_concat(o.summary.skipped, in_use_outcomes(cv, StageKind::Archive), cv, StageKind::Archive);
        lemma_recorded_in_concat(o.summary.skipped + in_use_outcomes(cv, StageKind::Archive),
            not_due_outcomes(not_in_use(cv), o.now, a.after_days, StageKind::Archive), cv, StageKind::Archive);
        let s2 = screened(o.summary, cv, o.now, a.after_days, StageKind::Archive);
        assert(in_use_recorded(s2.skipped, cv, StageKind::Archive));
    }
}

} // verus!
