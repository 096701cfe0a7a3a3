use chrono::TimeZone;
use neatnik::archive::{BundleGroupResult, BundleRunResult, SingleFileRunResult};
use neatnik::config::{JobConfig, SafetyBrakeConfig};
use neatnik::datetime::Timestamp;
use neatnik::delete::{plan, report};
use neatnik::error::{ArchiveError, LockError, NeatnikError, RelocateError};
use neatnik::pipeline::{
    due, record_archive_dry_run, record_bundle_groups, record_delete, record_relocate, record_single_archive,
    relocate_gate, take_due, take_usable, JobSummary, OutcomeStatus, StageKind,
};
use neatnik::relocate::{RelocateOutcome, RelocateResult};
use neatnik::scan::{FileCandidate, WatchTargetRef};

fn at(y: i32, mo: u32, d: u32, h: u32) -> Timestamp {
    let dt = chrono::Utc.with_ymd_and_hms(y, mo, d, h, 0, 0).unwrap();
    Timestamp::new(dt.timestamp(), 0).unwrap()
}

fn file(path: &str, basis: Timestamp, size: u64, in_use: bool) -> FileCandidate {
    FileCandidate {
        path: path.to_string(),
        target: WatchTargetRef { basedir: "/d".to_string(), name: "d".to_string() },
        basis_datetime: basis,
        size_bytes: size,
        in_use,
    }
}

#[test]
fn a_new_summary_is_empty() {
    let s = JobSummary::new("job");
    assert_eq!(s.job_name, "job");
    assert_eq!(s.archived_count + s.relocated_count + s.deleted_count, 0);
    assert!(s.skipped.is_empty() && s.failed.is_empty() && !s.safety_brake_triggered);
}

#[test]
fn grace_period_is_inclusive_and_counts_whole_days() {
    let basis = at(2026, 7, 1, 12);
    assert!(due(&at(2026, 7, 8, 12), &basis, 7));
    assert!(!due(&at(2026, 7, 8, 11), &basis, 7));
    assert!(due(&basis, &basis, 0));
    // a basis in the future is due only with a zero threshold, within a day
    assert!(due(&at(2026, 7, 1, 0), &basis, 0));
    assert!(!due(&at(2026, 7, 1, 0), &basis, 1));
}

#[test]
fn files_in_use_are_skipped() {
    let mut s = JobSummary::new("j");
    let cs = vec![file("/d/a", at(2026, 1, 1, 0), 1, true), file("/d/b", at(2026, 1, 1, 0), 2, false)];
    let usable = take_usable(&mut s, &cs, StageKind::Archive);
    assert_eq!(usable.len(), 1);
    assert_eq!(usable[0].path, "/d/b");
    assert_eq!(s.skipped.len(), 1);
    assert_eq!(s.skipped[0].path, "/d/a");
    assert_eq!(s.skipped[0].stage, StageKind::Archive);
    assert_eq!(s.skipped[0].status, OutcomeStatus::Skipped);
    assert_eq!(s.skipped[0].reason.as_deref(), Some("file is in use (BR-7)"));
}

#[test]
fn files_before_their_grace_period_are_skipped() {
    let mut s = JobSummary::new("j");
    let now = at(2026, 1, 10, 0);
    let cs = vec![file("/d/old", at(2026, 1, 1, 0), 1, false), file("/d/new", at(2026, 1, 9, 0), 2, false)];
    let eligible = take_due(&mut s, &cs, &now, 3, StageKind::Delete);
    assert_eq!(eligible.len(), 1);
    assert_eq!(eligible[0].path, "/d/old");
    assert_eq!(s.skipped[0].path, "/d/new");
    assert_eq!(s.skipped[0].reason.as_deref(), Some("delete grace period not elapsed"));
}

#[test]
fn archive_results_are_counted_or_failed() {
    let mut s = JobSummary::new("j");
    let c = file("/d/a", at(2026, 1, 1, 0), 5, false);
    record_archive_dry_run(&mut s, &vec![c.clone(), file("/d/b", at(2026, 1, 1, 0), 7, false)]);
    assert_eq!((s.archived_count, s.archived_bytes), (2, 12));
    let ok: Result<SingleFileRunResult, NeatnikError> =
        Ok(SingleFileRunResult { destination: "/d/a.gz".to_string(), created: true });
    record_single_archive(&mut s, &c, &ok);
    assert_eq!((s.archived_count, s.archived_bytes), (3, 17));
    let err: Result<SingleFileRunResult, NeatnikError> =
        Err(ArchiveError::InsufficientSpace { path: "/d".to_string() }.into());
    record_single_archive(&mut s, &c, &err);
    assert_eq!(s.failed.len(), 1);
    assert_eq!(s.failed[0].reason.as_deref(), Some("insufficient disk space while archiving to /d"));
}

#[test]
fn relocation_gate_and_results() {
    let mut s = JobSummary::new("j");
    let now = at(2026, 2, 1, 0);
    let c = file("/d/a", at(2026, 1, 1, 0), 4, false);
    assert!(!relocate_gate(&mut s, &c, &now, 60, false));
    assert_eq!(s.skipped[0].reason.as_deref(), Some("relocate grace period not elapsed"));
    assert!(!relocate_gate(&mut s, &c, &now, 1, true));
    assert_eq!((s.relocated_count, s.relocated_bytes), (1, 4));
    assert!(relocate_gate(&mut s, &c, &now, 1, false));

    let moved: Result<RelocateResult, NeatnikError> =
        Ok(RelocateResult { destination: "/m/a".to_string(), outcome: RelocateOutcome::Moved });
    record_relocate(&mut s, &c, &moved);
    assert_eq!((s.relocated_count, s.relocated_bytes), (2, 8));
    let skipped: Result<RelocateResult, NeatnikError> =
        Ok(RelocateResult { destination: "/m/a".to_string(), outcome: RelocateOutcome::Skipped });
    record_relocate(&mut s, &c, &skipped);
    assert_eq!(s.skipped.last().unwrap().reason.as_deref(), Some("destination conflict, on_conflict=skip (BR-12)"));
    let failed: Result<RelocateResult, NeatnikError> =
        Err(RelocateError::Conflict { path: "/m/a".to_string() }.into());
    record_relocate(&mut s, &c, &failed);
    assert_eq!(s.failed[0].stage, StageKind::Relocate);
    assert_eq!(s.failed[0].reason.as_deref(), Some("destination already exists: /m/a"));
}

#[test]
fn delete_results_are_recorded_and_the_brake_marked() {
    let cs = vec![file("/d/a", at(2026, 1, 1, 0), 3, false), file("/d/b", at(2026, 1, 1, 0), 4, false)];
    let config = SafetyBrakeConfig { enforce: true, count_threshold: Some(1), size_threshold_bytes: None };
    let mut s = JobSummary::new("j");
    let r = report(&cs, plan(&cs, &config, false), &vec![]);
    record_delete(&mut s, &cs, &r, config.enforce);
    assert!(s.safety_brake_triggered);
    assert_eq!(s.deleted_count, 0);
    assert_eq!(s.skipped.len(), 2);
    assert_eq!(s.skipped[0].reason.as_deref(), Some("safety brake triggered (BR-13)"));

    let lenient = SafetyBrakeConfig { enforce: false, ..config };
    let mut s = JobSummary::new("j");
    let r = report(&cs, plan(&cs, &lenient, false), &vec![true, false]);
    record_delete(&mut s, &cs, &r, lenient.enforce);
    assert!(!s.safety_brake_triggered);
    assert_eq!((s.deleted_count, s.deleted_bytes), (1, 3));
    assert_eq!(s.failed[0].path, "/d/b");
    assert_eq!(s.failed[0].reason.as_deref(), Some("failed to delete file"));

    let mut s = JobSummary::new("j");
    let r = report(&cs, plan(&cs, &SafetyBrakeConfig::default(), true), &vec![]);
    record_delete(&mut s, &cs, &r, false);
    assert_eq!((s.deleted_count, s.deleted_bytes), (2, 7));
}

#[test]
fn bundle_groups_are_recorded_per_group() {
    let cs = vec![
        file("/d/a", at(2026, 1, 1, 0), 3, false),
        file("/d/b", at(2026, 1, 1, 0), 4, false),
        file("/d/c", at(2026, 1, 2, 0), 5, false),
    ];
    let groups = vec![
        BundleGroupResult {
            period_key: "2026-01-01".to_string(),
            members: vec!["/d/a".to_string(), "/d/b".to_string()],
            outcome: Ok(BundleRunResult {
                bundle_path: "/d/x.2026-01-01.tar.gz".to_string(),
                created: false,
                included: vec!["/d/a".to_string()],
                stale: vec!["/d/b".to_string()],
            }),
        },
        BundleGroupResult {
            period_key: "2026-01-02".to_string(),
            members: vec!["/d/c".to_string()],
            outcome: Err(ArchiveError::StaleBundleMember { path: "/d/c".to_string(), bundle: "/d/y".to_string() }),
        },
    ];
    let mut s = JobSummary::new("j");
    record_bundle_groups(&mut s, &cs, &groups);
    assert_eq!((s.archived_count, s.archived_bytes), (1, 3));
    assert_eq!(s.skipped.len(), 1);
    assert_eq!(s.skipped[0].path, "/d/b");
    assert_eq!(s.skipped[0].reason.as_deref(), Some("bundle member newer than existing bundle (BR-3)"));
    assert_eq!(s.failed.len(), 1);
    assert_eq!(s.failed[0].path, "/d/c");
    assert_eq!(s.failed[0].reason.as_deref(), Some("file /d/c is newer than the existing bundle /d/y"));
}

#[test]
fn run_all_processes_every_job_independently() {
    let jobs = vec![
        JobConfig { name: "first".to_string(), stages: vec![] },
        JobConfig { name: "second".to_string(), stages: vec![] },
        JobConfig { name: "third".to_string(), stages: vec![] },
    ];
    let (results, order) = neatnik::pipeline::run_all(&jobs, Vec::new(), |mut order: Vec<usize>, i| {
        order.push(i);
        let outcome = if i == 0 {
            Err(LockError::Acquire { path: "/l".to_string(), source: "denied".to_string() }.into())
        } else if i == 1 {
            Ok(None)
        } else {
            Ok(Some(JobSummary::new("third")))
        };
        (order, outcome)
    });
    assert_eq!(order, vec![0, 1, 2]);
    assert_eq!(results.len(), 3);
    assert_eq!(results[0].0, "first");
    assert!(results[0].1.is_err());
    assert_eq!(results[1].0, "second");
    assert!(matches!(results[1].1, Ok(None)));
    assert_eq!(results[2].0, "third");
    assert!(matches!(&results[2].1, Ok(Some(s)) if s.job_name == "third"));
}
