use neatnik::config::SafetyBrakeConfig;
use neatnik::datetime::Timestamp;
use neatnik::delete::{evaluate_safety_brake, plan, report, DeleteAction, DeleteOutcome};
use neatnik::scan::{FileCandidate, WatchTargetRef};

fn candidate_with_size(size_bytes: u64) -> FileCandidate {
    FileCandidate {
        path: format!("/tmp/{size_bytes}.log"),
        target: WatchTargetRef { basedir: "/tmp".to_string(), name: "t".to_string() },
        basis_datetime: Timestamp::new(1_700_000_000, 0).unwrap(),
        size_bytes,
        in_use: false,
    }
}

const GIB: i128 = 1024 * 1024 * 1024;

#[test]
fn triggers_on_count_threshold() {
    let candidates = vec![candidate_with_size(1), candidate_with_size(1), candidate_with_size(1)];
    let config = SafetyBrakeConfig { enforce: true, count_threshold: Some(2), size_threshold_bytes: None };
    let evaluation = evaluate_safety_brake(&candidates, &config);
    assert!(evaluation.triggered);
    assert_eq!(evaluation.count, 3);
}

#[test]
fn triggers_on_size_threshold() {
    let candidates = vec![candidate_with_size(2 * 1024 * 1024 * 1024)];
    let config = SafetyBrakeConfig { enforce: true, count_threshold: None, size_threshold_bytes: Some(GIB) };
    assert!(evaluate_safety_brake(&candidates, &config).triggered);
}

#[test]
fn does_not_trigger_when_under_thresholds() {
    let candidates = vec![candidate_with_size(1)];
    let config = SafetyBrakeConfig { enforce: true, count_threshold: Some(10), size_threshold_bytes: Some(GIB) };
    assert!(!evaluate_safety_brake(&candidates, &config).triggered);
}

#[test]
fn thresholds_are_exceeded_only_above_them() {
    let two = vec![candidate_with_size(5), candidate_with_size(5)];
    let at_count = SafetyBrakeConfig { enforce: true, count_threshold: Some(2), size_threshold_bytes: None };
    assert!(!evaluate_safety_brake(&two, &at_count).triggered);
    let at_size = SafetyBrakeConfig { enforce: true, count_threshold: None, size_threshold_bytes: Some(10) };
    let e = evaluate_safety_brake(&two, &at_size);
    assert!(!e.triggered);
    assert_eq!(e.total_bytes, 10);
    let below_size = SafetyBrakeConfig { enforce: true, count_threshold: None, size_threshold_bytes: Some(9) };
    assert!(evaluate_safety_brake(&two, &below_size).triggered);
}

#[test]
fn no_thresholds_never_trigger() {
    let many: Vec<FileCandidate> = (0..50).map(candidate_with_size).collect();
    let config = SafetyBrakeConfig::default();
    let e = evaluate_safety_brake(&many, &config);
    assert!(!e.triggered);
    assert_eq!(e.count, 50);
    assert_eq!(e.total_bytes, (0..50).sum::<u64>());
}

#[test]
fn plan_blocks_when_enforced_and_exceeded() {
    let cs = vec![candidate_with_size(1), candidate_with_size(2)];
    let config = SafetyBrakeConfig { enforce: true, count_threshold: Some(1), size_threshold_bytes: None };
    let p = plan(&cs, &config, false);
    assert_eq!(p.action, DeleteAction::Block);
    let r = report(&cs, p, &vec![]);
    assert!(r.results.iter().all(|x| x.outcome == DeleteOutcome::Blocked));
    assert_eq!(r.results.len(), 2);
}

#[test]
fn plan_removes_when_the_brake_only_warns() {
    let cs = vec![candidate_with_size(1), candidate_with_size(2)];
    let config = SafetyBrakeConfig { enforce: false, count_threshold: Some(1), size_threshold_bytes: None };
    let p = plan(&cs, &config, false);
    assert!(p.evaluation.triggered);
    assert_eq!(p.action, DeleteAction::Remove);
    let r = report(&cs, p, &vec![true, false]);
    assert_eq!(r.results[0].outcome, DeleteOutcome::Deleted);
    assert_eq!(r.results[0].path, "/tmp/1.log");
    assert_eq!(r.results[1].outcome, DeleteOutcome::Failed);
}

#[test]
fn plan_simulates_in_a_dry_run() {
    let cs = vec![candidate_with_size(1)];
    let p = plan(&cs, &SafetyBrakeConfig::default(), true);
    assert_eq!(p.action, DeleteAction::Simulate);
    let r = report(&cs, p, &vec![true]);
    assert_eq!(r.results[0].outcome, DeleteOutcome::DryRun);
}
