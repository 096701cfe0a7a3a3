use chrono::TimeZone;
use neatnik::archive::{BundleGroupResult, BundleRunResult, SingleFileRunResult};
use neatnik::config::{
    ArchiveConfig, BasisKind, BundleKind, DeleteConfig, JobConfig, RelocateConfig, SafetyBrakeConfig, StageConfig,
    WatchTarget,
};
use neatnik::datetime::Timestamp;
use neatnik::error::{ConfigError, NeatnikError, ScanError};
use neatnik::job::{JobAction, JobRun};
use neatnik::relocate::{RelocateOutcome, RelocateResult};
use neatnik::scan::{FileCandidate, WatchTargetRef};

fn day(d: u32) -> Timestamp {
    let dt = chrono::Utc.with_ymd_and_hms(2026, 1, d, 0, 0, 0).unwrap();
    Timestamp::new(dt.timestamp(), 0).unwrap()
}

fn target(basedir: &str) -> WatchTarget {
    WatchTarget {
        basedir: basedir.to_string(),
        name: None,
        includes: vec!["*".to_string()],
        exclude: vec![],
        basis: BasisKind::Mtime,
        filename_date_rules: vec![],
    }
}

fn file(path: &str, basis: Timestamp, size: u64, in_use: bool) -> FileCandidate {
    FileCandidate {
        path: path.to_string(),
        target: WatchTargetRef { basedir: "/d".to_string(), name: "d".to_string() },
        basis_datetime: basis,
        size_bytes: size,
        in_use,
    }
}

fn archive_stage(bundle: BundleKind) -> StageConfig {
    StageConfig::Archive(ArchiveConfig {
        name: "arc".to_string(),
        targets: vec![target("/d")],
        after_days: 2,
        bundle,
        ..ArchiveConfig::default()
    })
}

fn expect_scan(action: JobAction, stage: usize, target: usize) {
    match action {
        JobAction::Scan { stage: s, target: t } => assert_eq!((s, t), (stage, target)),
        other => panic!("expected a scan, got {other:?}"),
    }
}

#[test]
fn a_job_without_stages_is_done_at_once() {
    let job = JobConfig { name: "idle".to_string(), stages: vec![] };
    let mut run = JobRun::start(&job, day(10), false);
    assert!(matches!(run.proceed(&job), JobAction::Done));
    let summary = run.into_summary();
    assert_eq!(summary.job_name, "idle");
    assert_eq!(summary.archived_count, 0);
}

#[test]
fn archive_stage_archives_due_files_one_by_one() {
    let job = JobConfig { name: "j".to_string(), stages: vec![archive_stage(BundleKind::Unbundled)] };
    let mut run = JobRun::start(&job, day(10), false);
    assert!(matches!(run.proceed(&job), JobAction::Continue));
    expect_scan(run.proceed(&job), 0, 0);
    let scanned = vec![
        file("/d/old.log", day(1), 10, false),
        file("/d/busy.log", day(1), 20, true),
        file("/d/new.log", day(9), 30, false),
    ];
    assert!(matches!(run.scanned(&job, Ok("/d".to_string()), Ok(scanned)), JobAction::Continue));
    match run.proceed(&job) {
        JobAction::ArchiveFile { stage, candidate } => {
            assert_eq!(stage, 0);
            assert_eq!(candidate.path, "/d/old.log");
        }
        other => panic!("expected ArchiveFile, got {other:?}"),
    }
    let ok = Ok(SingleFileRunResult { destination: "/d/old.log.x.gz".to_string(), created: true });
    assert!(matches!(run.archived(ok), JobAction::Continue));
    assert!(matches!(run.proceed(&job), JobAction::Continue));
    assert!(matches!(run.proceed(&job), JobAction::Continue));
    assert!(matches!(run.proceed(&job), JobAction::Done));
    let s = run.into_summary();
    assert_eq!((s.archived_count, s.archived_bytes), (1, 10));
    assert_eq!(s.skipped.len(), 2);
    assert_eq!(s.skipped[0].reason.as_deref(), Some("file is in use (BR-7)"));
    assert_eq!(s.skipped[1].reason.as_deref(), Some("archive grace period not elapsed"));
}

#[test]
fn dry_run_previews_instead_of_archiving() {
    let job = JobConfig { name: "j".to_string(), stages: vec![archive_stage(BundleKind::Daily)] };
    let mut run = JobRun::start(&job, day(10), true);
    run.proceed(&job);
    expect_scan(run.proceed(&job), 0, 0);
    let scanned = vec![file("/d/a.log", day(1), 10, false), file("/d/b.log", day(2), 5, false)];
    match run.scanned(&job, Ok("/d".to_string()), Ok(scanned)) {
        JobAction::Preview { stage, files } => {
            assert_eq!(stage, 0);
            assert_eq!(files.len(), 2);
        }
        other => panic!("expected Preview, got {other:?}"),
    }
    assert!(matches!(run.proceed(&job), JobAction::Continue));
    assert!(matches!(run.proceed(&job), JobAction::Done));
    let s = run.into_summary();
    assert_eq!((s.archived_count, s.archived_bytes), (2, 15));
}

#[test]
fn bundled_archive_asks_for_one_bundle_per_target() {
    let job = JobConfig { name: "j".to_string(), stages: vec![archive_stage(BundleKind::Daily)] };
    let mut run = JobRun::start(&job, day(10), false);
    run.proceed(&job);
    run.proceed(&job);
    let scanned = vec![file("/d/a.log", day(1), 10, false), file("/d/b.log", day(1), 5, false)];
    match run.scanned(&job, Ok("/real/d".to_string()), Ok(scanned)) {
        JobAction::Bundle { stage, target, members } => {
            assert_eq!(stage, 0);
            assert_eq!(target.basedir, "/real/d");
            assert_eq!(target.name, "d");
            assert_eq!(members.len(), 2);
        }
        other => panic!("expected Bundle, got {other:?}"),
    }
    let groups = vec![BundleGroupResult {
        period_key: "2026-01-01".to_string(),
        members: vec!["/d/a.log".to_string(), "/d/b.log".to_string()],
        outcome: Ok(BundleRunResult {
            bundle_path: "/real/d/arc.d.2026-01-01.tar.gz".to_string(),
            created: true,
            included: vec!["/d/a.log".to_string(), "/d/b.log".to_string()],
            stale: vec![],
        }),
    }];
    assert!(matches!(run.bundled(Ok(groups)), JobAction::Continue));
    assert!(matches!(run.proceed(&job), JobAction::Continue));
    assert!(matches!(run.proceed(&job), JobAction::Done));
    let s = run.into_summary();
    assert_eq!((s.archived_count, s.archived_bytes), (2, 15));
}

#[test]
fn an_unresolvable_basedir_fails_the_job() {
    let job = JobConfig { name: "j".to_string(), stages: vec![archive_stage(BundleKind::Unbundled)] };
    let mut run = JobRun::start(&job, day(10), false);
    run.proceed(&job);
    run.proceed(&job);
    match run.scanned(&job, Err("gone".to_string()), Ok(vec![])) {
        JobAction::Fail(NeatnikError::Config(ConfigError::Invalid { job, reason })) => {
            assert_eq!(job, "j");
            assert_eq!(reason, "basedir \"/d\" is not accessible: gone");
        }
        other => panic!("expected a failure, got {other:?}"),
    }
}

#[test]
fn a_failed_scan_fails_the_job() {
    let job = JobConfig {
        name: "j".to_string(),
        stages: vec![StageConfig::Delete(DeleteConfig { targets: vec![target("/d")], ..DeleteConfig::default() })],
    };
    let mut run = JobRun::start(&job, day(10), false);
    run.proceed(&job);
    run.proceed(&job);
    let err = NeatnikError::Scan(ScanError::NoDateRuleMatched { path: "/d".to_string() });
    match run.scanned(&job, Ok("/d".to_string()), Err(err.clone())) {
        JobAction::Fail(e) => assert_eq!(e, err),
        other => panic!("expected a failure, got {other:?}"),
    }
}

#[test]
fn relocate_stage_gathers_all_targets_then_moves_due_files() {
    let job = JobConfig {
        name: "j".to_string(),
        stages: vec![StageConfig::Relocate(RelocateConfig {
            targets: vec![target("/a"), target("/b")],
            after_days: 3,
            destination: Some("/m".to_string()),
            ..RelocateConfig::default()
        })],
    };
    let mut run = JobRun::start(&job, day(10), false);
    run.proceed(&job);
    expect_scan(run.proceed(&job), 0, 0);
    assert!(matches!(run.scanned(&job, Ok("/a".into()), Ok(vec![file("/a/x", day(1), 1, false)])), JobAction::Continue));
    expect_scan(run.proceed(&job), 0, 1);
    assert!(matches!(
        run.scanned(&job, Ok("/b".into()), Ok(vec![file("/b/y", day(9), 2, false), file("/b/z", day(2), 4, false)])),
        JobAction::Continue
    ));
    assert!(matches!(run.proceed(&job), JobAction::Continue));
    match run.proceed(&job) {
        JobAction::Relocate { candidate, .. } => assert_eq!(candidate.path, "/a/x"),
        other => panic!("expected Relocate, got {other:?}"),
    }
    let moved = Ok(RelocateResult { destination: "/m/x".into(), outcome: RelocateOutcome::Moved });
    assert!(matches!(run.relocated(moved), JobAction::Continue));
    // /b/y is not due yet
    assert!(matches!(run.proceed(&job), JobAction::Continue));
    match run.proceed(&job) {
        JobAction::Relocate { candidate, .. } => assert_eq!(candidate.path, "/b/z"),
        other => panic!("expected Relocate, got {other:?}"),
    }
    let skipped = Ok(RelocateResult { destination: "/b/z".into(), outcome: RelocateOutcome::Skipped });
    run.relocated(skipped);
    assert!(matches!(run.proceed(&job), JobAction::Continue));
    assert!(matches!(run.proceed(&job), JobAction::Done));
    let s = run.into_summary();
    assert_eq!((s.relocated_count, s.relocated_bytes), (1, 1));
    assert_eq!(s.skipped.len(), 2);
    assert_eq!(s.skipped[1].reason.as_deref(), Some("destination conflict, on_conflict=skip (BR-12)"));
}

#[test]
fn delete_stage_removes_or_holds_back_by_the_brake() {
    let stage = |enforce: bool| {
        StageConfig::Delete(DeleteConfig {
            targets: vec![target("/d")],
            after_days: 1,
            safety_brake: SafetyBrakeConfig { enforce, count_threshold: Some(1), size_threshold_bytes: None },
        })
    };
    let scanned = || vec![file("/d/a", day(1), 3, false), file("/d/b", day(1), 4, false)];

    let job = JobConfig { name: "j".to_string(), stages: vec![stage(true)] };
    let mut run = JobRun::start(&job, day(10), false);
    run.proceed(&job);
    run.proceed(&job);
    run.scanned(&job, Ok("/d".into()), Ok(scanned()));
    assert!(matches!(run.proceed(&job), JobAction::Continue));
    assert!(matches!(run.proceed(&job), JobAction::Done));
    let s = run.into_summary();
    assert!(s.safety_brake_triggered);
    assert_eq!(s.deleted_count, 0);
    assert_eq!(s.skipped.len(), 2);

    let job = JobConfig { name: "j".to_string(), stages: vec![stage(false)] };
    let mut run = JobRun::start(&job, day(10), false);
    run.proceed(&job);
    run.proceed(&job);
    run.scanned(&job, Ok("/d".into()), Ok(scanned()));
    match run.proceed(&job) {
        JobAction::Remove { paths } => assert_eq!(paths, vec!["/d/a".to_string(), "/d/b".to_string()]),
        other => panic!("expected Remove, got {other:?}"),
    }
    assert!(matches!(run.removed(&job, vec![true, false]), JobAction::Continue));
    assert!(matches!(run.proceed(&job), JobAction::Done));
    let s = run.into_summary();
    assert!(!s.safety_brake_triggered);
    assert_eq!((s.deleted_count, s.deleted_bytes), (1, 3));
    assert_eq!(s.failed.len(), 1);
    assert_eq!(s.failed[0].path, "/d/b");
}

#[test]
fn dry_run_delete_previews_its_files() {
    let job = JobConfig {
        name: "j".to_string(),
        stages: vec![StageConfig::Delete(DeleteConfig { targets: vec![target("/d")], ..DeleteConfig::default() })],
    };
    let mut run = JobRun::start(&job, day(10), true);
    run.proceed(&job);
    run.proceed(&job);
    run.scanned(&job, Ok("/d".into()), Ok(vec![file("/d/a", day(1), 3, false)]));
    match run.proceed(&job) {
        JobAction::Preview { files, .. } => assert_eq!(files[0].path, "/d/a"),
        other => panic!("expected Preview, got {other:?}"),
    }
    assert!(matches!(run.proceed(&job), JobAction::Done));
    assert_eq!(run.into_summary().deleted_count, 1);
}

#[test]
fn stages_run_in_the_order_written() {
    let job = JobConfig {
        name: "j".to_string(),
        stages: vec![
            StageConfig::Delete(DeleteConfig { targets: vec![target("/first")], ..DeleteConfig::default() }),
            archive_stage(BundleKind::Unbundled),
        ],
    };
    let mut run = JobRun::start(&job, day(10), false);
    run.proceed(&job);
    expect_scan(run.proceed(&job), 0, 0);
    run.scanned(&job, Ok("/first".into()), Ok(vec![]));
    assert!(matches!(run.proceed(&job), JobAction::Continue));
    assert!(matches!(run.proceed(&job), JobAction::Continue));
    expect_scan(run.proceed(&job), 1, 0);
}

/// Runs a job to its end: scans see what `seen` gives for each stage, and
/// every file operation succeeds. Returns the summary and the kinds of the
/// actions asked for.
fn drive(job: &JobConfig, now: Timestamp, dry_run: bool, seen: &dyn Fn(usize) -> Vec<FileCandidate>)
    -> (neatnik::pipeline::JobSummary, Vec<&'static str>) {
    let mut run = JobRun::start(job, now, dry_run);
    let mut action = JobAction::Continue;
    let mut kinds = Vec::new();
    loop {
        action = match action {
            JobAction::Continue => run.proceed(job),
            JobAction::Preview { .. } => {
                kinds.push("preview");
                run.proceed(job)
            }
            JobAction::Scan { stage, .. } => {
                kinds.push("scan");
                run.scanned(job, Ok("/d".to_string()), Ok(seen(stage)))
            }
            JobAction::ArchiveFile { candidate, .. } => {
                kinds.push("archive");
                run.archived(Ok(SingleFileRunResult { destination: format!("{}.gz", candidate.path), created: true }))
            }
            JobAction::Bundle { .. } => {
                kinds.push("bundle");
                run.bundled(Ok(vec![]))
            }
            JobAction::Relocate { candidate, .. } => {
                kinds.push("relocate");
                run.relocated(Ok(RelocateResult { destination: candidate.path.clone(), outcome: RelocateOutcome::Moved }))
            }
            JobAction::Remove { paths } => {
                kinds.push("remove");
                run.removed(job, vec![true; paths.len()])
            }
            JobAction::Done => return (run.into_summary(), kinds),
            JobAction::Fail(e) => panic!("the job failed: {e:?}"),
        };
    }
}

fn three_stage_job() -> JobConfig {
    JobConfig {
        name: "job".to_string(),
        stages: vec![
            archive_stage(BundleKind::Unbundled),
            StageConfig::Relocate(RelocateConfig {
                targets: vec![target("/d")],
                after_days: 0,
                destination: Some("/dest".to_string()),
                ..RelocateConfig::default()
            }),
            StageConfig::Delete(DeleteConfig { targets: vec![target("/dest")], ..DeleteConfig::default() }),
        ],
    }
}

#[test]
fn cascades_archive_relocate_delete_when_all_thresholds_are_zero() {
    let mut job = three_stage_job();
    if let StageConfig::Archive(a) = &mut job.stages[0] {
        a.after_days = 0;
    }
    let seen = |stage: usize| match stage {
        0 => vec![file("/d/app.log", day(1), 5, false)],
        1 => vec![file("/d/app.log.gz", day(1), 3, false)],
        _ => vec![file("/dest/app.log.gz", day(1), 3, false)],
    };
    let (s, kinds) = drive(&job, day(20), false, &seen);
    assert_eq!(kinds, vec!["scan", "archive", "scan", "relocate", "scan", "remove"]);
    assert_eq!((s.archived_count, s.relocated_count, s.deleted_count), (1, 1, 1));
    assert!(s.failed.is_empty());
}

#[test]
fn skips_files_that_are_in_use() {
    let job = JobConfig { name: "job".to_string(), stages: vec![archive_stage(BundleKind::Unbundled)] };
    let seen = |_: usize| vec![file("/d/app.log", day(1), 5, true)];
    let (s, kinds) = drive(&job, day(20), false, &seen);
    assert_eq!(kinds, vec!["scan"]);
    assert_eq!(s.archived_count, 0);
    assert!(s.skipped.iter().any(|o| o.stage == neatnik::pipeline::StageKind::Archive
        && o.reason.as_deref() == Some("file is in use (BR-7)")));
}

#[test]
fn leaves_files_untouched_before_their_grace_period_elapses() {
    let job = JobConfig { name: "job".to_string(), stages: vec![archive_stage(BundleKind::Unbundled)] };
    let seen = |_: usize| vec![file("/d/app.log", day(20), 5, false)];
    let (s, kinds) = drive(&job, day(20), false, &seen);
    assert_eq!(kinds, vec!["scan"]);
    assert_eq!(s.archived_count, 0);
}

#[test]
fn dry_run_reports_counts_without_touching_files() {
    let mut job = three_stage_job();
    if let StageConfig::Archive(a) = &mut job.stages[0] {
        a.after_days = 0;
    }
    // nothing was written by the archive stage, so the later stages find nothing
    let seen = |stage: usize| if stage == 0 { vec![file("/d/app.log", day(1), 5, false)] } else { vec![] };
    let (s, kinds) = drive(&job, day(20), true, &seen);
    assert_eq!(kinds, vec!["scan", "preview", "scan", "scan"]);
    assert_eq!((s.archived_count, s.relocated_count, s.deleted_count), (1, 0, 0));
}

#[test]
fn blocks_delete_when_safety_brake_enforces() {
    let job = JobConfig {
        name: "job".to_string(),
        stages: vec![StageConfig::Delete(DeleteConfig {
            targets: vec![target("/d")],
            after_days: 0,
            safety_brake: SafetyBrakeConfig { enforce: true, count_threshold: Some(0), size_threshold_bytes: None },
        })],
    };
    let seen = |_: usize| vec![file("/d/app.log", day(1), 5, false)];
    let (s, kinds) = drive(&job, day(20), false, &seen);
    assert_eq!(kinds, vec!["scan"]);
    assert_eq!(s.deleted_count, 0);
    assert!(s.safety_brake_triggered);
}

#[test]
fn bundles_multiple_files_and_relocates_the_bundle_as_a_single_unit() {
    let job = JobConfig {
        name: "job".to_string(),
        stages: vec![
            StageConfig::Archive(ArchiveConfig {
                name: "a".to_string(),
                targets: vec![target("/d")],
                after_days: 7,
                bundle: BundleKind::Daily,
                bundle_timezone: Some("UTC".to_string()),
                ..ArchiveConfig::default()
            }),
            StageConfig::Relocate(RelocateConfig {
                targets: vec![target("/d")],
                destination: Some("/dest".to_string()),
                ..RelocateConfig::default()
            }),
        ],
    };
    let mut run = JobRun::start(&job, day(20), false);
    run.proceed(&job);
    expect_scan(run.proceed(&job), 0, 0);
    let members = vec![file("/d/a.log", day(1), 1, false), file("/d/b.log", day(1), 1, false)];
    assert!(matches!(run.scanned(&job, Ok("/d".into()), Ok(members)), JobAction::Bundle { .. }));
    let groups = vec![BundleGroupResult {
        period_key: "2026-01-01".to_string(),
        members: vec!["/d/a.log".to_string(), "/d/b.log".to_string()],
        outcome: Ok(BundleRunResult {
            bundle_path: "/d/a.d.2026-01-01.tar.gz".to_string(),
            created: true,
            included: vec!["/d/a.log".to_string(), "/d/b.log".to_string()],
            stale: vec![],
        }),
    }];
    run.bundled(Ok(groups));
    run.proceed(&job);
    run.proceed(&job);
    expect_scan(run.proceed(&job), 1, 0);
    run.scanned(&job, Ok("/d".into()), Ok(vec![file("/d/a.d.2026-01-01.tar.gz", day(1), 2, false)]));
    run.proceed(&job);
    assert!(matches!(run.proceed(&job), JobAction::Relocate { .. }));
    run.relocated(Ok(RelocateResult { destination: "/dest/a.d.2026-01-01.tar.gz".into(), outcome: RelocateOutcome::Moved }));
    run.proceed(&job);
    assert!(matches!(run.proceed(&job), JobAction::Done));
    let s = run.into_summary();
    assert_eq!(s.archived_count, 2);
    assert_eq!(s.relocated_count, 1);
}

#[test]
fn delete_finds_relocated_files_independently_in_a_later_run() {
    let relocate_job = JobConfig {
        name: "job".to_string(),
        stages: vec![StageConfig::Relocate(RelocateConfig {
            targets: vec![target("/d")],
            destination: Some("/dest".to_string()),
            ..RelocateConfig::default()
        })],
    };
    let (first, _) = drive(&relocate_job, day(20), false, &|_: usize| vec![file("/d/app.log.gz", day(1), 5, false)]);
    assert_eq!(first.relocated_count, 1);
    let delete_job = JobConfig {
        name: "cleanup".to_string(),
        stages: vec![StageConfig::Delete(DeleteConfig { targets: vec![target("/dest")], ..DeleteConfig::default() })],
    };
    let (second, _) = drive(&delete_job, day(20), false, &|_: usize| vec![file("/dest/app.log.gz", day(1), 5, false)]);
    assert_eq!(second.deleted_count, 1);
}
