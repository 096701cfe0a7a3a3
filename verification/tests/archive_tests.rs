use chrono::TimeZone;
use neatnik::archive::{
    bundle_extension_of, existing_archive_outcome, existing_bundle_outcome, group_by_period, plan_new_bundle,
    plan_single_file, resolve_timezone, resolve_zone_from, temp_path_for, ArchiveNamer, BundleKey,
};
use neatnik::config::{ArchiveConfig, ArchiveFormat, BundleKind, OnStaleBundleMember};
use neatnik::datetime::{Timestamp, Zone};
use neatnik::error::ArchiveError;
use neatnik::scan::{FileCandidate, WatchTargetRef};

fn at(y: i32, mo: u32, d: u32, h: u32, mi: u32, s: u32) -> Timestamp {
    let dt = chrono::Utc.with_ymd_and_hms(y, mo, d, h, mi, s).unwrap();
    Timestamp::new(dt.timestamp(), dt.timestamp_subsec_nanos()).unwrap()
}

fn zone(name: &str) -> Zone {
    resolve_timezone(Some(name)).ok().unwrap()
}

fn candidate(path: &str, basis: Timestamp, size: u64) -> FileCandidate {
    FileCandidate {
        path: path.to_string(),
        target: WatchTargetRef { basedir: "/var/log/app".to_string(), name: "var-log-app".to_string() },
        basis_datetime: basis,
        size_bytes: size,
        in_use: false,
    }
}

#[test]
fn single_file_name_matches_br8_format() {
    let basis = at(2026, 7, 25, 3, 15, 42);
    let name = ArchiveNamer::single_file_name("/var/log/app/app.log", &basis, ArchiveFormat::Gzip);
    assert_eq!(name, "/var/log/app/app.log.20260725T031542Z.gz");
}

#[test]
fn single_file_name_uses_the_format_extension() {
    let basis = at(2026, 1, 2, 3, 4, 5);
    assert_eq!(
        ArchiveNamer::single_file_name("/d/x.log", &basis, ArchiveFormat::Zip),
        "/d/x.log.20260102T030405Z.zip"
    );
    assert_eq!(
        ArchiveNamer::single_file_name("x.log", &basis, ArchiveFormat::TarGz),
        "x.log.20260102T030405Z.tar.gz"
    );
}

#[test]
fn bundle_name_matches_br8_format() {
    let name = ArchiveNamer::bundle_name("app-server-logs", "var-log-app", "2026-07-25", "/var/log/app", ArchiveFormat::Gzip);
    assert_eq!(name, "/var/log/app/app-server-logs.var-log-app.2026-07-25.tar.gz");
}

#[test]
fn format_extensions() {
    assert_eq!(ArchiveFormat::Gzip.extension(), "gz");
    assert_eq!(ArchiveFormat::Zip.extension(), "zip");
    assert_eq!(ArchiveFormat::TarGz.extension(), "tar.gz");
}

#[test]
fn bundle_key_daily_uses_calendar_date_in_target_timezone() {
    let tz = zone("UTC");
    let basis = at(2026, 7, 25, 23, 59, 0);
    let key = BundleKey::compute(&basis, BundleKind::Daily, &tz);
    assert_eq!(key.0, "2026-07-25");
}

#[test]
fn bundle_key_respects_configured_timezone_at_day_boundary() {
    let tokyo = zone("Asia/Tokyo");
    let basis = at(2026, 7, 25, 23, 0, 0);
    let key = BundleKey::compute(&basis, BundleKind::Daily, &tokyo);
    assert_eq!(key.0, "2026-07-26");
}

#[test]
fn bundle_key_monthly_groups_by_year_month() {
    let tz = zone("UTC");
    let basis = at(2026, 7, 25, 0, 0, 0);
    let key = BundleKey::compute(&basis, BundleKind::Monthly, &tz);
    assert_eq!(key.0, "2026-07");
}

#[test]
fn bundle_key_weekly_uses_the_iso_week() {
    let tz = zone("UTC");
    // 2026-01-01 is a Thursday: ISO week 1 of 2026
    assert_eq!(BundleKey::compute(&at(2026, 1, 1, 12, 0, 0), BundleKind::Weekly, &tz).0, "2026-W01");
    // 2027-01-01 is a Friday: it belongs to week 53 of 2026
    assert_eq!(BundleKey::compute(&at(2027, 1, 1, 12, 0, 0), BundleKind::Weekly, &tz).0, "2026-W53");
    assert_eq!(BundleKey::compute(&at(2026, 7, 25, 0, 0, 0), BundleKind::Weekly, &tz).0, "2026-W30");
}

#[test]
fn resolve_timezone_accepts_a_valid_iana_name() {
    assert!(resolve_timezone(Some("Asia/Tokyo")).is_ok());
    assert_eq!(resolve_timezone(Some("Asia/Tokyo")).ok().unwrap().name(), "Asia/Tokyo");
}

#[test]
fn resolve_timezone_rejects_an_unknown_name() {
    assert!(resolve_timezone(Some("Not/A_Zone")).is_err());
    match resolve_timezone(Some("Not/A_Zone")) {
        Err(ArchiveError::InvalidTimezone { name }) => assert_eq!(name, "Not/A_Zone"),
        _ => panic!("expected InvalidTimezone"),
    }
}

#[test]
fn resolve_timezone_without_a_name_uses_the_system_zone() {
    match resolve_timezone(None) {
        Ok(z) => assert!(!z.name().is_empty()),
        Err(ArchiveError::TimezoneDetection { .. }) | Err(ArchiveError::InvalidTimezone { .. }) => {}
        Err(other) => panic!("unexpected error {other:?}"),
    }
}

#[test]
fn temp_path_is_a_hidden_sibling() {
    assert_eq!(temp_path_for("/var/log/app/app.log.gz"), "/var/log/app/.app.log.gz.tmp");
    assert_eq!(temp_path_for("bundle.tar.gz"), ".bundle.tar.gz.tmp");
}

#[test]
fn grouping_puts_each_candidate_in_the_group_of_its_day() {
    let tz = zone("UTC");
    let candidates = vec![
        candidate("/var/log/app/c.log", at(2026, 7, 26, 1, 0, 0), 3),
        candidate("/var/log/app/a.log", at(2026, 7, 25, 1, 0, 0), 1),
        candidate("/var/log/app/b.log", at(2026, 7, 25, 23, 0, 0), 2),
    ];
    let groups = group_by_period(&candidates, BundleKind::Daily, &tz);
    assert_eq!(groups.len(), 2);
    assert_eq!(groups[0].period_key, "2026-07-25");
    assert_eq!(groups[0].members.len(), 2);
    assert_eq!(groups[0].members[0].path, "/var/log/app/a.log");
    assert_eq!(groups[0].members[1].path, "/var/log/app/b.log");
    assert_eq!(groups[1].period_key, "2026-07-26");
    assert_eq!(groups[1].members.len(), 1);
    assert_eq!(groups[1].members[0].path, "/var/log/app/c.log");
}

#[test]
fn grouping_of_nothing_is_empty() {
    let groups = group_by_period(&vec![], BundleKind::Monthly, &zone("UTC"));
    assert!(groups.is_empty());
}

#[test]
fn existing_bundle_includes_older_members_and_flags_newer_ones() {
    let members = vec![
        candidate("/var/log/app/old.log", at(2026, 7, 25, 1, 0, 0), 1),
        candidate("/var/log/app/new.log", at(2026, 7, 25, 5, 0, 0), 1),
    ];
    let mtime = at(2026, 7, 25, 2, 0, 0);
    let warn = existing_bundle_outcome(&members, &mtime, OnStaleBundleMember::Warn, "/b.tar.gz").unwrap();
    assert!(!warn.created);
    assert_eq!(warn.bundle_path, "/b.tar.gz");
    assert_eq!(warn.included, vec!["/var/log/app/old.log".to_string()]);
    assert_eq!(warn.stale, vec!["/var/log/app/new.log".to_string()]);

    match existing_bundle_outcome(&members, &mtime, OnStaleBundleMember::Error, "/b.tar.gz") {
        Err(ArchiveError::StaleBundleMember { path, bundle }) => {
            assert_eq!(path, "/var/log/app/new.log");
            assert_eq!(bundle, "/b.tar.gz");
        }
        other => panic!("expected StaleBundleMember, got {other:?}"),
    }
}

#[test]
fn existing_bundle_with_members_at_its_time_is_idempotent() {
    let mtime = at(2026, 7, 25, 2, 0, 0);
    let members = vec![candidate("/var/log/app/a.log", at(2026, 7, 25, 2, 0, 0), 1)];
    let r = existing_bundle_outcome(&members, &mtime, OnStaleBundleMember::Error, "/b.tar.gz").unwrap();
    assert_eq!(r.included.len(), 1);
    assert!(r.stale.is_empty());
}

#[test]
fn new_bundle_plan_takes_the_latest_basis_and_relative_entry_names() {
    let target = WatchTargetRef { basedir: "/var/log/app".to_string(), name: "t".to_string() };
    let members = vec![
        candidate("/var/log/app/sub/a.log", at(2026, 7, 25, 1, 0, 0), 1),
        candidate("/var/log/app/b.log", at(2026, 7, 25, 9, 0, 0), 2),
        candidate("/elsewhere/c.log", at(2026, 7, 25, 3, 0, 0), 2),
    ];
    let config = ArchiveConfig { name: "a".to_string(), bundle: BundleKind::Daily, ..ArchiveConfig::default() };
    let plan = plan_new_bundle(&target, &members, &config, "/var/log/app/a.t.2026-07-25.tar.gz");
    assert_eq!(plan.temp_path, "/var/log/app/.a.t.2026-07-25.tar.gz.tmp");
    assert_eq!(plan.entries.len(), 3);
    assert_eq!(plan.entries[0].name, "sub/a.log");
    assert_eq!(plan.entries[1].name, "b.log");
    assert_eq!(plan.entries[2].name, "/elsewhere/c.log");
    assert_eq!(plan.mtime, at(2026, 7, 25, 9, 0, 0));
    assert!(plan.remove_originals);
    assert!(plan.result.created);
    assert_eq!(plan.result.included.len(), 3);
    assert!(plan.result.stale.is_empty());
}

#[test]
fn single_file_plan_names_the_archive_and_keeps_the_original_when_asked() {
    let c = candidate("/var/log/app/app.log", at(2026, 7, 25, 3, 15, 42), 10);
    let config = ArchiveConfig { keep_original: true, format: ArchiveFormat::TarGz, ..ArchiveConfig::default() };
    let plan = plan_single_file(&c, &config);
    assert_eq!(plan.destination, "/var/log/app/app.log.20260725T031542Z.tar.gz");
    assert_eq!(plan.temp_path, "/var/log/app/.app.log.20260725T031542Z.tar.gz.tmp");
    assert_eq!(plan.entry_name, "app.log");
    assert_eq!(plan.format, ArchiveFormat::TarGz);
    assert_eq!(plan.mtime, at(2026, 7, 25, 3, 15, 42));
    assert!(!plan.remove_original);
}

#[test]
fn bundling_the_same_members_again_changes_nothing() {
    let target = WatchTargetRef { basedir: "/var/log/app".to_string(), name: "t".to_string() };
    let members = vec![
        candidate("/var/log/app/a.log", at(2026, 7, 25, 1, 0, 0), 1),
        candidate("/var/log/app/b.log", at(2026, 7, 25, 9, 0, 0), 2),
    ];
    let config = ArchiveConfig { bundle: BundleKind::Daily, ..ArchiveConfig::default() };
    let plan = plan_new_bundle(&target, &members, &config, "/b.tar.gz");
    let again = existing_bundle_outcome(&members, &plan.mtime, OnStaleBundleMember::Error, "/b.tar.gz").unwrap();
    assert!(!again.created);
    assert_eq!(again.included, plan.result.included);
    assert!(again.stale.is_empty());
}

#[test]
fn archive_names_are_deterministic() {
    let basis = at(2026, 7, 25, 3, 15, 42);
    let first = ArchiveNamer::single_file_name("/data/app.log", &basis, ArchiveFormat::Gzip);
    let second = ArchiveNamer::single_file_name("/data/app.log", &basis, ArchiveFormat::Gzip);
    assert_eq!(first, second);
    let tz = zone("Asia/Tokyo");
    assert_eq!(BundleKey::compute(&basis, BundleKind::Weekly, &tz), BundleKey::compute(&basis, BundleKind::Weekly, &tz));
}

#[test]
fn bundle_names_follow_the_format() {
    assert_eq!(
        ArchiveNamer::bundle_name("job", "t", "2026-07", "/logs", ArchiveFormat::Zip),
        "/logs/job.t.2026-07.zip"
    );
    assert_eq!(
        ArchiveNamer::bundle_name("job", "t", "2026-07", "/logs", ArchiveFormat::TarGz),
        "/logs/job.t.2026-07.tar.gz"
    );
    assert_eq!(bundle_extension_of(ArchiveFormat::Gzip), "tar.gz");
    assert_eq!(bundle_extension_of(ArchiveFormat::Zip), "zip");
}

#[test]
fn a_zip_bundle_is_planned_as_zip() {
    let target = WatchTargetRef { basedir: "/d".to_string(), name: "t".to_string() };
    let members = vec![candidate("/d/a.log", at(2026, 7, 25, 1, 0, 0), 1)];
    let config = ArchiveConfig { bundle: BundleKind::Daily, format: ArchiveFormat::Zip, ..ArchiveConfig::default() };
    let plan = plan_new_bundle(&target, &members, &config, "/d/j.t.2026-07-25.zip");
    assert_eq!(plan.format, ArchiveFormat::Zip);
    assert_eq!(plan.temp_path, "/d/.j.t.2026-07-25.zip.tmp");
}

#[test]
fn an_existing_archive_is_left_alone() {
    let c = candidate("/d/app.log", at(2026, 7, 25, 3, 15, 42), 10);
    let plan = plan_single_file(&c, &ArchiveConfig::default());
    let existing = existing_archive_outcome(&plan, true).unwrap();
    assert_eq!(existing.destination, "/d/app.log.20260725T031542Z.gz");
    assert!(!existing.created);
    assert!(existing_archive_outcome(&plan, false).is_none());
}

#[test]
fn the_detected_zone_is_the_one_resolved() {
    let z = resolve_zone_from(None, Ok("Asia/Tokyo".to_string())).unwrap();
    assert_eq!(z.name(), "Asia/Tokyo");
    let z = resolve_zone_from(Some("UTC"), Ok("Asia/Tokyo".to_string())).unwrap();
    assert_eq!(z.name(), "UTC");
    match resolve_zone_from(None, Ok("Nowhere/Else".to_string())) {
        Err(ArchiveError::InvalidTimezone { name }) => assert_eq!(name, "Nowhere/Else"),
        other => panic!("unexpected {:?}", other.map(|z| z.name().to_string())),
    }
    match resolve_zone_from(None, Err("no zone".to_string())) {
        Err(ArchiveError::TimezoneDetection { message }) => assert_eq!(message, "no zone"),
        other => panic!("unexpected {:?}", other.map(|z| z.name().to_string())),
    }
}

#[test]
fn a_leap_second_basis_is_written_as_second_sixty() {
    let leap = Timestamp::new(1_483_228_799, 1_000_000_000).unwrap();
    assert_eq!(
        ArchiveNamer::single_file_name("/d/x.log", &leap, ArchiveFormat::Gzip),
        "/d/x.log.20161231T235960Z.gz"
    );
    let far = Timestamp::new(-8_334_601_228_800, 0).unwrap();
    assert_eq!(ArchiveNamer::single_file_name("x.log", &far, ArchiveFormat::Zip), "x.log.-2621430101T000000Z.zip");
}

#[test]
fn a_relative_file_keeps_its_leading_dot() {
    let basis = at(2026, 1, 2, 3, 4, 5);
    assert_eq!(
        ArchiveNamer::single_file_name("./a.log", &basis, ArchiveFormat::Gzip),
        "./a.log.20260102T030405Z.gz"
    );
}
