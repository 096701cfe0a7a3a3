use chrono::TimeZone;
use neatnik::config::{ConflictPolicy, LayoutKind, RelocateConfig};
use neatnik::datetime::Timestamp;
use neatnik::error::RelocateError;
use neatnik::relocate::{compute_destination, renamed_path, ConflictResolver, ConflictStep};
use neatnik::scan::{FileCandidate, WatchTargetRef};

fn make_candidate(basedir: &str, path: &str, basis: Timestamp) -> FileCandidate {
    FileCandidate {
        size_bytes: 0,
        path: path.to_string(),
        target: WatchTargetRef { basedir: basedir.to_string(), name: "t".to_string() },
        basis_datetime: basis,
        in_use: false,
    }
}

fn at(y: i32, mo: u32, d: u32) -> Timestamp {
    let dt = chrono::Utc.with_ymd_and_hms(y, mo, d, 0, 0, 0).unwrap();
    Timestamp::new(dt.timestamp(), 0).unwrap()
}

#[test]
fn compute_destination_preserves_relative_layout_by_default() {
    let candidate = make_candidate("/data/app", "/data/app/sub/a.log", at(2026, 1, 1));
    let config = RelocateConfig {
        destination: Some("/mnt/storage".to_string()),
        layout: LayoutKind::Preserve,
        ..RelocateConfig::default()
    };
    let destination = compute_destination(&candidate, &config).unwrap();
    assert_eq!(destination, "/mnt/storage/sub/a.log");
}

#[test]
fn compute_destination_uses_year_month_layout_from_basis_datetime() {
    let candidate = make_candidate("/data/app", "/data/app/sub/a.log", at(2026, 7, 25));
    let config = RelocateConfig {
        destination: Some("/mnt/storage".to_string()),
        layout: LayoutKind::YearMonth,
        ..RelocateConfig::default()
    };
    let destination = compute_destination(&candidate, &config).unwrap();
    assert_eq!(destination, "/mnt/storage/2026/07/a.log");
}

#[test]
fn compute_destination_without_destination_is_an_error() {
    let candidate = make_candidate("/data/app", "/data/app/a.log", at(2026, 1, 1));
    match compute_destination(&candidate, &RelocateConfig::default()) {
        Err(RelocateError::Copy { from, to, source }) => {
            assert_eq!(from, "/data/app/a.log");
            assert_eq!(to, "");
            assert_eq!(source, "relocate.destination is not configured");
        }
        other => panic!("expected Copy, got {other:?}"),
    }
}

#[test]
fn compute_destination_keeps_the_whole_path_outside_the_basedir() {
    let candidate = make_candidate("/data/app", "/other/a.log", at(2026, 1, 1));
    let config = RelocateConfig { destination: Some("/mnt".to_string()), ..RelocateConfig::default() };
    // an absolute tail replaces the base, as with std's Path::join
    assert_eq!(compute_destination(&candidate, &config).unwrap(), "/other/a.log");
}

#[test]
fn resolve_conflict_returns_the_path_unchanged_when_no_conflict() {
    let target = "/tmp/dest/a.log".to_string();
    let mut resolver = ConflictResolver::start(target.clone(), ConflictPolicy::Error);
    assert_eq!(resolver.probe(), target);
    assert_eq!(resolver.step(false), ConflictStep::Use(target));
}

#[test]
fn resolve_conflict_skip_when_taken() {
    let mut resolver = ConflictResolver::start("/d/a.log".to_string(), ConflictPolicy::Skip);
    assert_eq!(resolver.step(true), ConflictStep::Skip);
}

#[test]
fn resolve_conflict_error_when_taken() {
    let mut resolver = ConflictResolver::start("/d/a.log".to_string(), ConflictPolicy::Error);
    assert_eq!(
        resolver.step(true),
        ConflictStep::Fail(RelocateError::Conflict { path: "/d/a.log".to_string() })
    );
}

#[test]
fn resolve_conflict_rename_walks_the_suffixes() {
    let mut resolver = ConflictResolver::start("/d/a.log".to_string(), ConflictPolicy::Rename);
    assert_eq!(resolver.step(true), ConflictStep::Probe("/d/a_1.log".to_string()));
    assert_eq!(resolver.counter(), 1);
    assert_eq!(resolver.step(true), ConflictStep::Probe("/d/a_2.log".to_string()));
    assert_eq!(resolver.step(false), ConflictStep::Use("/d/a_2.log".to_string()));
}

#[test]
fn renamed_paths_keep_the_extension() {
    assert_eq!(renamed_path("/d/a.log", 3), "/d/a_3.log");
    assert_eq!(renamed_path("/d/archive.tar.gz", 1), "/d/archive.tar_1.gz");
    assert_eq!(renamed_path("/d/README", 12), "/d/README_12");
    assert_eq!(renamed_path("plain", 1), "plain_1");
}
