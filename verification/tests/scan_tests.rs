use chrono::TimeZone;
use neatnik::config::{BasisKind, FilenameDateRule, WatchTarget};
use neatnik::datetime::Timestamp;
use neatnik::error::ScanError;
use neatnik::scan::{
    classify_entry, extract_filename_date, is_included, parse_captured_date, platform_write_guard_detector,
    resolve_basis_datetime, try_match_rule, EntryMetadata, EntryVerdict, ExclusiveOpen, UnixWriteGuardDetector,
    WalkedEntry, WindowsWriteGuardDetector,
};

fn day(y: i32, m: u32, d: u32) -> Timestamp {
    let dt = chrono::Utc.with_ymd_and_hms(y, m, d, 0, 0, 0).unwrap();
    Timestamp::new(dt.timestamp(), 0).unwrap()
}

fn rules() -> Vec<FilenameDateRule> {
    vec![
        FilenameDateRule {
            regex: r"^app_log\.(?P<date>\d{4}-\d{2}-\d{2})\.txt$".to_string(),
            format: "%Y-%m-%d".to_string(),
        },
        FilenameDateRule { regex: r"^access-(?P<date>\d{8})\.log$".to_string(), format: "%Y%m%d".to_string() },
    ]
}

#[test]
fn extract_filename_date_uses_first_matching_rule() {
    let dt = extract_filename_date(&rules(), "access-20260701.log").unwrap();
    assert_eq!(dt, day(2026, 7, 1));
}

#[test]
fn extract_filename_date_returns_none_when_no_rule_matches() {
    let rules = vec![FilenameDateRule {
        regex: r"^app_log\.(?P<date>\d{4}-\d{2}-\d{2})\.txt$".to_string(),
        format: "%Y-%m-%d".to_string(),
    }];
    assert!(extract_filename_date(&rules, "unrelated.txt").is_none());
}

#[test]
fn extract_filename_date_ignores_directory_components() {
    let rules = vec![FilenameDateRule {
        regex: r"^app_log\.(?P<date>\d{4}-\d{2}-\d{2})\.txt$".to_string(),
        format: "%Y-%m-%d".to_string(),
    }];
    assert!(extract_filename_date(&rules, "2026-07-01").is_none());
}

#[test]
fn a_rule_whose_date_does_not_parse_gives_way_to_the_next() {
    let rules = vec![
        FilenameDateRule { regex: r"^(?P<date>\d{8})".to_string(), format: "%Y-%m-%d".to_string() },
        FilenameDateRule { regex: r"^(?P<date>\d{8})".to_string(), format: "%Y%m%d".to_string() },
    ];
    assert_eq!(extract_filename_date(&rules, "20260102.log"), Some(day(2026, 1, 2)));
}

#[test]
fn invalid_rules_and_rules_without_a_date_group_match_nothing() {
    let broken = FilenameDateRule { regex: "(".to_string(), format: "%Y".to_string() };
    assert!(try_match_rule(&broken, "2026").is_none());
    let unnamed = FilenameDateRule { regex: r"(\d{8})".to_string(), format: "%Y%m%d".to_string() };
    assert!(try_match_rule(&unnamed, "20260101").is_none());
}

#[test]
fn captured_dates_parse_as_date_times_or_midnight() {
    let with_time = parse_captured_date("2026-07-01 12:30:00", "%Y-%m-%d %H:%M:%S").unwrap();
    let expected = chrono::Utc.with_ymd_and_hms(2026, 7, 1, 12, 30, 0).unwrap();
    assert_eq!(with_time, Timestamp::new(expected.timestamp(), 0).unwrap());
    assert_eq!(parse_captured_date("2026-07-01", "%Y-%m-%d"), Some(day(2026, 7, 1)));
    assert!(parse_captured_date("2026-13-01", "%Y-%m-%d").is_none());
}

#[test]
fn is_included_respects_exclude_precedence() {
    let includes = vec!["**/*.log".to_string()];
    let exclude = vec!["current.log".to_string()];
    assert!(is_included("app.log", &includes, &exclude));
    assert!(!is_included("current.log", &includes, &exclude));
    assert!(!is_included("app.txt", &includes, &exclude));
}

#[test]
fn is_included_returns_false_when_include_is_empty() {
    assert!(!is_included("app.log", &vec![], &vec![]));
}

#[test]
fn is_included_ignores_invalid_patterns() {
    let includes = vec!["[".to_string(), "*.log".to_string()];
    assert!(is_included("a.log", &includes, &vec!["[".to_string()]));
}

fn target(basis: BasisKind) -> WatchTarget {
    WatchTarget {
        basedir: "/data".to_string(),
        name: None,
        includes: vec!["**/*.log".to_string()],
        exclude: vec!["skip.log".to_string()],
        basis,
        filename_date_rules: rules(),
    }
}

fn entry(path: &str, canonical: &str) -> WalkedEntry {
    WalkedEntry {
        path: path.to_string(),
        is_file: true,
        canonical: Ok(canonical.to_string()),
        metadata: Ok(EntryMetadata { size: 7, modified: Ok(day(2026, 1, 1)) }),
    }
}

#[test]
fn classify_entry_accepts_a_selected_file() {
    match classify_entry(&target(BasisKind::Mtime), "/data", entry("/data/sub/a.log", "/data/sub/a.log")) {
        EntryVerdict::Candidate { path, basis, size } => {
            assert_eq!(path, "/data/sub/a.log");
            assert_eq!(basis, day(2026, 1, 1));
            assert_eq!(size, 7);
        }
        other => panic!("expected a candidate, got {other:?}"),
    }
}

#[test]
fn classify_entry_passes_over_what_is_not_a_selected_file() {
    let t = target(BasisKind::Mtime);
    let mut dir = entry("/data/sub", "/data/sub");
    dir.is_file = false;
    assert!(matches!(classify_entry(&t, "/data", dir), EntryVerdict::NotAFile));
    assert!(matches!(classify_entry(&t, "/data", entry("/elsewhere/a.log", "/elsewhere/a.log")), EntryVerdict::OutsideBasedir));
    assert!(matches!(classify_entry(&t, "/data", entry("/data/skip.log", "/data/skip.log")), EntryVerdict::NotSelected));
    assert!(matches!(classify_entry(&t, "/data", entry("/data/a.txt", "/data/a.txt")), EntryVerdict::NotSelected));
}

#[test]
fn classify_entry_guards_against_escapes_and_reports_failures() {
    let t = target(BasisKind::Mtime);
    match classify_entry(&t, "/data", entry("/data/link.log", "/etc/passwd.log")) {
        EntryVerdict::EscapesBasedir { path } => assert_eq!(path, "/etc/passwd.log"),
        other => panic!("expected an escape, got {other:?}"),
    }
    let mut broken = entry("/data/a.log", "/data/a.log");
    broken.canonical = Err("gone".to_string());
    match classify_entry(&t, "/data", broken) {
        EntryVerdict::Unresolvable { message } => assert_eq!(message, "gone"),
        other => panic!("expected Unresolvable, got {other:?}"),
    }
    let mut unreadable = entry("/data/a.log", "/data/a.log");
    unreadable.metadata = Err("denied".to_string());
    assert!(matches!(classify_entry(&t, "/data", unreadable), EntryVerdict::MetadataUnreadable { .. }));
}

#[test]
fn classify_entry_reads_the_basis_from_the_file_name_when_configured() {
    let t = target(BasisKind::FilenameDate);
    match classify_entry(&t, "/data", entry("/data/access-20260701.log", "/data/access-20260701.log")) {
        EntryVerdict::Candidate { basis, .. } => assert_eq!(basis, day(2026, 7, 1)),
        other => panic!("expected a candidate, got {other:?}"),
    }
    match classify_entry(&t, "/data", entry("/data/other.log", "/data/other.log")) {
        EntryVerdict::NoBasis { path, error } => {
            assert_eq!(path, "/data/other.log");
            assert_eq!(error, ScanError::NoDateRuleMatched { path: "/data/other.log".to_string() });
        }
        other => panic!("expected NoBasis, got {other:?}"),
    }
}

#[test]
fn basis_from_the_modification_time_or_its_failure() {
    let t = target(BasisKind::Mtime);
    assert_eq!(resolve_basis_datetime(&t, "/data/a.log", Ok(day(2025, 5, 5))), Ok(day(2025, 5, 5)));
    assert_eq!(
        resolve_basis_datetime(&t, "/data/a.log", Err("no mtime".to_string())),
        Err(ScanError::Metadata { path: "/data/a.log".to_string(), source: "no mtime".to_string() })
    );
}

#[test]
fn detector_rule_combines_lock_and_recent_modification() {
    let d = UnixWriteGuardDetector { recent_threshold_nanos: 5_000_000_000 };
    assert!(d.judge(true, None));
    assert!(d.judge(false, Some(1_000)));
    assert!(!d.judge(false, Some(5_000_000_000)));
    assert!(!d.judge(false, None));
    assert_eq!(platform_write_guard_detector().recent_threshold_nanos, 5_000_000_000);
}

#[test]
fn a_filename_date_on_a_leap_second_is_taken() {
    let rules = vec![FilenameDateRule {
        regex: r"^app_(?P<date>\d{8}T\d{6})\.log$".to_string(),
        format: "%Y%m%dT%H%M%S".to_string(),
    }];
    let t = extract_filename_date(&rules, "app_20161231T235960.log").unwrap();
    let parsed = chrono::NaiveDateTime::parse_from_str("20161231T235960", "%Y%m%dT%H%M%S").unwrap().and_utc();
    assert_eq!((t.secs(), t.subsec_nanos()), (parsed.timestamp(), parsed.timestamp_subsec_nanos()));
    assert_eq!(t.subsec_nanos(), 1_000_000_000);
}

#[test]
fn the_windows_rule_sees_only_sharing_violations() {
    let d = WindowsWriteGuardDetector;
    assert!(d.judge(ExclusiveOpen::SharingViolation));
    assert!(!d.judge(ExclusiveOpen::Opened));
    assert!(!d.judge(ExclusiveOpen::OtherError));
}
