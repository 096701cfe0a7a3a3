use chrono::TimeZone;
use neatnik::cli::{list_line, summary_lines};
use neatnik::clock::{resolve_clock, RunClock};
use neatnik::config::{
    ArchiveConfig, ArchiveFormat, BasisKind, BundleKind, ConflictPolicy, DeleteConfig, JobConfig, LayoutKind,
    RelocateConfig, RootConfig, StageConfig, WatchTarget,
};
use neatnik::datetime::Timestamp;
use neatnik::i18n::{msg, Locale};
use neatnik::archive::SingleFileRunResult;
use neatnik::job::{JobAction, JobRun};
use neatnik::relocate::{RelocateOutcome, RelocateResult};
use neatnik::scan::{FileCandidate, WatchTargetRef};

fn target(basedir: &str, pattern: &str) -> WatchTarget {
    WatchTarget {
        basedir: basedir.to_string(),
        name: None,
        includes: vec![pattern.to_string()],
        exclude: vec![],
        basis: BasisKind::Mtime,
        filename_date_rules: vec![],
    }
}

/// The job of the command-line scenarios: archive, relocate and delete,
/// all without a grace period.
fn test_job() -> JobConfig {
    JobConfig {
        name: "test-job".to_string(),
        stages: vec![
            StageConfig::Archive(ArchiveConfig {
                name: "test-job".to_string(),
                targets: vec![target("/src", "*.log")],
                after_days: 0,
                format: ArchiveFormat::Gzip,
                bundle: BundleKind::Unbundled,
                ..ArchiveConfig::default()
            }),
            StageConfig::Relocate(RelocateConfig {
                targets: vec![target("/src", "*.gz")],
                after_days: 0,
                destination: Some("/dest".to_string()),
                layout: LayoutKind::Preserve,
                on_conflict: ConflictPolicy::Rename,
            }),
            StageConfig::Delete(DeleteConfig { targets: vec![target("/dest", "*")], after_days: 0, ..DeleteConfig::default() }),
        ],
    }
}

fn long_ago() -> Timestamp {
    let dt = chrono::Utc.with_ymd_and_hms(2016, 1, 1, 0, 0, 0).unwrap();
    Timestamp::new(dt.timestamp(), 0).unwrap()
}

fn now() -> Timestamp {
    let dt = chrono::Utc.with_ymd_and_hms(2026, 1, 1, 0, 0, 0).unwrap();
    Timestamp::new(dt.timestamp(), 0).unwrap()
}

fn file(path: &str) -> FileCandidate {
    FileCandidate {
        path: path.to_string(),
        target: WatchTargetRef { basedir: "/src".to_string(), name: "src".to_string() },
        basis_datetime: long_ago(),
        size_bytes: 5,
        in_use: false,
    }
}

#[test]
fn no_args_shows_the_welcome_guide() {
    let text = msg::welcome(Locale::En);
    assert!(text.contains("Getting started"));
    assert!(text.contains("neatnik init"));
}

#[test]
fn validate_reports_a_helpful_message_when_config_is_missing() {
    assert!(msg::config_not_found(Locale::En, "/tmp/no-such-config.yaml").contains("neatnik init"));
}

#[test]
fn validate_succeeds_for_a_well_formed_config() {
    let root = RootConfig { jobs: vec![test_job()] };
    let warnings = root.validate(&vec![vec![vec![None], vec![None], vec![None]]]).unwrap();
    assert!(warnings.is_empty());
    assert!(msg::configuration_is_valid(Locale::En, root.jobs.len()).contains("configuration is valid"));
}

#[test]
fn validate_rejects_an_unknown_now_format() {
    match resolve_clock(Some("not-a-date"), Locale::En) {
        Err(message) => assert!(message.contains("--now")),
        Ok(_) => panic!("expected the value to be refused"),
    }
}

#[test]
fn list_shows_configured_jobs() {
    assert!(list_line(&test_job()).contains("test-job"));
}

#[test]
fn run_accepts_a_now_override_in_rfc3339_format() {
    assert!(matches!(resolve_clock(Some("2027-01-01T00:00:00Z"), Locale::En), Ok(RunClock::Fixed(_))));
}

#[test]
fn run_rejects_an_invalid_now_value() {
    match resolve_clock(Some("not-a-date"), Locale::En) {
        Err(message) => assert!(message.contains("--now")),
        Ok(_) => panic!("expected the value to be refused"),
    }
}

#[test]
fn run_dry_run_reports_counts_without_touching_files() {
    let job = test_job();
    let mut run = JobRun::start(&job, now(), true);
    let mut action = JobAction::Continue;
    loop {
        action = match action {
            JobAction::Continue | JobAction::Preview { .. } => run.proceed(&job),
            // every stage sees the same old file: nothing has moved in a dry run
            JobAction::Scan { .. } => run.scanned(&job, Ok("/src".to_string()), Ok(vec![file("/src/app.log")])),
            JobAction::Done => break,
            other => panic!("a dry run must not ask for {other:?}"),
        };
    }
    let lines = summary_lines(&run.into_summary(), Locale::En);
    assert!(lines.out[0].contains("archived 1"));
    assert!(lines.out[0].contains("relocated 1"));
    assert!(lines.out[0].contains("deleted 1"));
}

#[test]
fn run_executes_the_full_pipeline_in_one_pass() {
    let job = test_job();
    let mut run = JobRun::start(&job, now(), false);
    let mut action = JobAction::Continue;
    let mut removed_paths = Vec::new();
    loop {
        action = match action {
            JobAction::Continue => run.proceed(&job),
            JobAction::Scan { stage, .. } => {
                let seen = match stage {
                    0 => vec![file("/src/app.log")],
                    1 => vec![file("/src/app.log.20160101T000000Z.gz")],
                    _ => vec![file("/dest/app.log.20160101T000000Z.gz")],
                };
                run.scanned(&job, Ok("/src".to_string()), Ok(seen))
            }
            JobAction::ArchiveFile { candidate, .. } => {
                assert_eq!(candidate.path, "/src/app.log");
                run.archived(Ok(SingleFileRunResult {
                    destination: "/src/app.log.20160101T000000Z.gz".to_string(),
                    created: true,
                }))
            }
            JobAction::Relocate { candidate, .. } => {
                assert_eq!(candidate.path, "/src/app.log.20160101T000000Z.gz");
                run.relocated(Ok(RelocateResult {
                    destination: "/dest/app.log.20160101T000000Z.gz".to_string(),
                    outcome: RelocateOutcome::Moved,
                }))
            }
            JobAction::Remove { paths } => {
                removed_paths = paths.clone();
                run.removed(&job, vec![true; paths.len()])
            }
            JobAction::Done => break,
            other => panic!("unexpected {other:?}"),
        };
    }
    assert_eq!(removed_paths, vec!["/dest/app.log.20160101T000000Z.gz".to_string()]);
    let s = run.into_summary();
    assert_eq!((s.archived_count, s.relocated_count, s.deleted_count), (1, 1, 1));
    assert!(s.failed.is_empty());
}

#[test]
fn unix_detector_flags_recently_modified_files_as_in_use() {
    let detector = neatnik::scan::UnixWriteGuardDetector { recent_threshold_nanos: 5_000_000_000 };
    // a file written a moment ago, and not locked
    assert!(detector.judge(false, Some(1_000_000)));
}
