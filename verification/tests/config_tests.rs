use neatnik::config::{
    is_within_basedir, levenshtein, unknown_field_error, validate_job, validate_targets_present,
    validate_unique_target_names, ArchiveConfig, BasisKind, BundleKind, DeleteConfig, JobConfig,
    RelocateConfig, RootConfig, StageConfig, WatchTarget,
};
use neatnik::error::ConfigError;

fn target(basedir: &str, name: Option<&str>) -> WatchTarget {
    WatchTarget {
        basedir: basedir.to_string(),
        name: name.map(|n| n.to_string()),
        includes: vec!["*.log".to_string()],
        exclude: vec![],
        basis: BasisKind::Mtime,
        filename_date_rules: vec![],
    }
}

#[test]
fn resolved_name_is_derived_from_basedir_when_omitted() {
    let target = WatchTarget {
        basedir: "/var/log/app".to_string(),
        name: None,
        includes: vec![],
        exclude: vec![],
        basis: BasisKind::Mtime,
        filename_date_rules: vec![],
    };
    assert_eq!(target.resolved_name(), "var-log-app");
}

#[test]
fn resolved_name_uses_explicit_name_when_present() {
    let target = WatchTarget {
        basedir: "/var/log/app".to_string(),
        name: Some("custom".to_string()),
        includes: vec![],
        exclude: vec![],
        basis: BasisKind::Mtime,
        filename_date_rules: vec![],
    };
    assert_eq!(target.resolved_name(), "custom");
}

#[test]
fn resolved_name_of_root_and_backslashes() {
    assert_eq!(target("/", None).resolved_name(), "root");
    assert_eq!(target("C:\\logs\\app\\", None).resolved_name(), "C:-logs-app");
    assert_eq!(target("relative/dir/", None).resolved_name(), "relative-dir");
}

#[test]
fn empty_stages_produces_a_warning_not_an_error() {
    let job = JobConfig { name: "idle-job".to_string(), stages: vec![] };
    let warnings = validate_job(&job, &vec![]).unwrap();
    assert_eq!(warnings.len(), 1);
    assert_eq!(
        warnings[0].0,
        "job \"idle-job\": has no stages configured (archive/relocate/delete)"
    );
}

#[test]
fn archive_entry_without_targets_is_rejected() {
    let job = JobConfig {
        name: "broken-job".to_string(),
        stages: vec![StageConfig::Archive(ArchiveConfig { name: "a".to_string(), ..ArchiveConfig::default() })],
    };
    assert!(validate_job(&job, &vec![]).is_err());
}

#[test]
fn relocate_enabled_without_destination_is_rejected() {
    let job = JobConfig {
        name: "broken-job".to_string(),
        stages: vec![StageConfig::Relocate(RelocateConfig {
            targets: vec![target("/tmp/dir", None)],
            ..RelocateConfig::default()
        })],
    };
    match validate_job(&job, &vec![vec![None]]) {
        Err(ConfigError::Invalid { job, reason }) => {
            assert_eq!(job, "broken-job");
            assert_eq!(reason, "relocate.destination is required");
        }
        other => panic!("expected Invalid, got {other:?}"),
    }
}

#[test]
fn duplicate_target_names_in_bundle_archive_are_rejected() {
    let t = target("/tmp/dir", Some("dup"));
    let job = JobConfig {
        name: "job".to_string(),
        stages: vec![StageConfig::Archive(ArchiveConfig {
            name: "a".to_string(),
            targets: vec![t.clone(), t],
            bundle: BundleKind::Daily,
            ..ArchiveConfig::default()
        })],
    };
    match validate_job(&job, &vec![vec![None, None]]) {
        Err(ConfigError::Invalid { reason, .. }) => assert_eq!(
            reason,
            "archive \"a\": duplicate target name \"dup\" among targets (bundle mode requires unique target names, BR-2.2)"
        ),
        other => panic!("expected Invalid, got {other:?}"),
    }
}

#[test]
fn duplicate_target_names_are_allowed_when_bundle_is_none() {
    let t = target("/tmp/dir", Some("dup"));
    let job = JobConfig {
        name: "job".to_string(),
        stages: vec![StageConfig::Archive(ArchiveConfig {
            name: "a".to_string(),
            targets: vec![t.clone(), t],
            bundle: BundleKind::Unbundled,
            ..ArchiveConfig::default()
        })],
    };
    assert!(validate_job(&job, &vec![vec![None, None]]).is_ok());
}

#[test]
fn unresolvable_basedir_is_rejected_with_its_cause() {
    let job = JobConfig {
        name: "job".to_string(),
        stages: vec![StageConfig::Delete(DeleteConfig {
            targets: vec![target("/missing", None)],
            ..DeleteConfig::default()
        })],
    };
    let errors = vec![vec![Some("No such file or directory".to_string())]];
    match validate_job(&job, &errors) {
        Err(e) => assert_eq!(
            e.message(),
            "invalid job \"job\": basedir \"/missing\" is not accessible: No such file or directory"
        ),
        Ok(_) => panic!("expected an error"),
    }
}

#[test]
fn validation_reports_the_first_invalid_stage() {
    let job = JobConfig {
        name: "job".to_string(),
        stages: vec![
            StageConfig::Delete(DeleteConfig { targets: vec![target("/a", None)], ..DeleteConfig::default() }),
            StageConfig::Delete(DeleteConfig::default()),
            StageConfig::Relocate(RelocateConfig::default()),
        ],
    };
    match validate_job(&job, &vec![]) {
        Err(ConfigError::Invalid { reason, .. }) => assert_eq!(reason, "delete.targets must not be empty"),
        other => panic!("expected Invalid, got {other:?}"),
    }
}

#[test]
fn root_validation_collects_warnings_of_every_job() {
    let root = RootConfig {
        jobs: vec![
            JobConfig { name: "a".to_string(), stages: vec![] },
            JobConfig {
                name: "b".to_string(),
                stages: vec![StageConfig::Delete(DeleteConfig { targets: vec![target("/x", None)], ..DeleteConfig::default() })],
            },
            JobConfig { name: "c".to_string(), stages: vec![] },
        ],
    };
    let warnings = root.validate(&vec![]).unwrap();
    assert_eq!(warnings.len(), 2);
    assert!(warnings[0].0.contains("\"a\""));
    assert!(warnings[1].0.contains("\"c\""));
}

#[test]
fn root_validation_names_the_failing_job() {
    let root = RootConfig {
        jobs: vec![
            JobConfig { name: "fine".to_string(), stages: vec![] },
            JobConfig { name: "broken".to_string(), stages: vec![StageConfig::Relocate(RelocateConfig::default())] },
        ],
    };
    match root.validate(&vec![]) {
        Err(ConfigError::Invalid { job, reason }) => {
            assert_eq!(job, "broken");
            assert_eq!(reason, "relocate.targets must not be empty");
        }
        other => panic!("expected Invalid, got {other:?}"),
    }
}

#[test]
fn targets_present_and_unique_names() {
    assert!(validate_targets_present("j", "archive", &vec![]).is_err());
    assert!(validate_targets_present("j", "archive", &vec![target("/a", None)]).is_ok());
    // two different basedirs that derive the same name clash in bundle mode
    let clash = vec![target("/var/log", None), target("var/log/", None)];
    assert!(validate_unique_target_names("j", "a", &clash).is_err());
    let distinct = vec![target("/var/log", None), target("/var/tmp", None)];
    assert!(validate_unique_target_names("j", "a", &distinct).is_ok());
}

#[test]
fn is_within_basedir_detects_traversal() {
    let basedir = "/data/app";
    assert!(is_within_basedir(basedir, "/data/app/logs/a.log"));
    assert!(!is_within_basedir(basedir, "/data/other/a.log"));
    assert!(!is_within_basedir(basedir, "/etc/passwd"));
}

#[test]
fn is_within_basedir_compares_whole_components() {
    assert!(!is_within_basedir("/data/app", "/data/application/a.log"));
    assert!(is_within_basedir("/data/app/", "/data/app"));
}

#[test]
fn unknown_field_suggests_the_closest_known_field() {
    let message = "unknown field `afetr_days`, expected one of `name`, `targets`, `after_days`, `format`, \
                   `bundle`, `bundle_timezone`, `keep_original`, `on_stale_bundle_member` at line 2 column 1";
    let err = unknown_field_error(message);
    match err {
        Some(ConfigError::UnknownField { field, suggestion }) => {
            assert_eq!(field, "afetr_days");
            assert_eq!(suggestion, "after_days");
        }
        other => panic!("expected UnknownField, got {other:?}"),
    }
}

#[test]
fn unknown_field_without_a_close_candidate_points_to_the_sample() {
    let message = "unknown field `zzzzzzzzzz`, expected `name` or `stages`";
    match unknown_field_error(message) {
        Some(ConfigError::UnknownField { field, suggestion }) => {
            assert_eq!(field, "zzzzzzzzzz");
            assert_eq!(suggestion, "one of the documented fields (see `neatnik init` for a sample)");
        }
        other => panic!("expected UnknownField, got {other:?}"),
    }
}

#[test]
fn other_parser_messages_are_not_unknown_fields() {
    assert!(unknown_field_error("missing field `name` at line 3 column 5").is_none());
    assert!(unknown_field_error("").is_none());
}

#[test]
fn levenshtein_counts_edits() {
    assert_eq!(levenshtein("", ""), 0);
    assert_eq!(levenshtein("abc", ""), 3);
    assert_eq!(levenshtein("", "ab"), 2);
    assert_eq!(levenshtein("kitten", "sitting"), 3);
    assert_eq!(levenshtein("afetr_days", "after_days"), 2);
    assert_eq!(levenshtein("flaw", "lawn"), 2);
}

#[test]
fn canonical_basedir_passes_the_resolved_path_or_reports_the_failure() {
    let t = target("./logs", None);
    assert_eq!(t.canonical_basedir("j", Ok("/srv/logs".to_string())), Ok("/srv/logs".to_string()));
    match t.canonical_basedir("j", Err("denied".to_string())) {
        Err(ConfigError::Invalid { job, reason }) => {
            assert_eq!(job, "j");
            assert_eq!(reason, "basedir \"./logs\" is not accessible: denied");
        }
        other => panic!("expected Invalid, got {other:?}"),
    }
}

#[test]
fn edit_distance_laws_on_examples() {
    assert_eq!(levenshtein("café", "cafe"), 1);
    assert_eq!(levenshtein("kitten", "sitting"), levenshtein("sitting", "kitten"));
    assert_eq!(levenshtein("stages", "stages"), 0);
    assert!(levenshtein("stage", "stages") > 0);
    let (a, b, c) = ("targets", "target", "tarjet");
    assert!(levenshtein(a, c) <= levenshtein(a, b) + levenshtein(b, c));
    assert!(levenshtein("ab", "abcde") >= 3 && levenshtein("ab", "abcde") <= 5);
}

#[test]
fn a_leading_dot_is_not_the_basedir() {
    assert!(!is_within_basedir("x", "./x/a"));
    assert!(is_within_basedir("./x", "./x/a"));
}
