use neatnik::error::{
    ArchiveError, ConfigError, DeleteError, LockError, NeatnikError, RelocateError, ScanError,
};

#[test]
fn config_error_converts_into_neatnik_error() {
    let err: NeatnikError = ConfigError::Invalid {
        job: "daily-logs".to_string(),
        reason: "N1 must be <= N2".to_string(),
    }
    .into();
    assert!(err.message().contains("daily-logs"));
    assert_eq!(err.message(), "invalid job \"daily-logs\": N1 must be <= N2");
}

#[test]
fn path_traversal_error_message_includes_both_paths() {
    let err = ConfigError::PathTraversal { path: "/data/../etc".to_string(), basedir: "/data".to_string() };
    let message = err.message();
    assert!(message.contains("/data/../etc"));
    assert!(message.contains("/data"));
    assert_eq!(message, "path \"/data/../etc\" escapes basedir \"/data\"");
}

#[test]
fn every_error_has_its_message() {
    assert_eq!(
        ConfigError::Read { path: "c.yaml".into(), source: "denied".into() }.message(),
        "failed to read config file c.yaml: denied"
    );
    assert_eq!(
        ConfigError::Parse { path: "c.yaml".into(), source: "bad".into() }.message(),
        "failed to parse config file c.yaml: bad"
    );
    assert_eq!(
        ConfigError::UnknownField { field: "afetr_days".into(), suggestion: "after_days".into() }.message(),
        "unknown field \"afetr_days\", did you mean \"after_days\"?"
    );
    assert_eq!(
        ScanError::NoDateRuleMatched { path: "/a".into() }.message(),
        "no filename date rule matched for /a"
    );
    assert_eq!(
        ScanError::Metadata { path: "/a".into(), source: "gone".into() }.message(),
        "failed to read metadata for /a: gone"
    );
    assert_eq!(
        ArchiveError::WriteEntry { archive: "/z".into(), entry: "/a".into(), source: "full".into() }.message(),
        "failed to write entry /a into archive /z: full"
    );
    assert_eq!(
        ArchiveError::InvalidTimezone { name: "Mars/Base".into() }.message(),
        "unknown time zone \"Mars/Base\""
    );
    assert_eq!(
        RelocateError::Conflict { path: "/d/a.log".into() }.message(),
        "destination already exists: /d/a.log"
    );
    assert_eq!(
        DeleteError::SafetyBrakeTriggered { count: 12, threshold: 10 }.message(),
        "safety brake triggered: 12 files exceed threshold 10"
    );
    assert_eq!(
        LockError::AlreadyLocked { path: "/x/.j.lock".into() }.message(),
        "job is already running (lock held at /x/.j.lock)"
    );
}

#[test]
fn conversions_keep_the_message() {
    let cases: Vec<NeatnikError> = vec![
        ScanError::NoDateRuleMatched { path: "/a".into() }.into(),
        ArchiveError::InsufficientSpace { path: "/z".into() }.into(),
        RelocateError::Conflict { path: "/d".into() }.into(),
        DeleteError::Delete { path: "/a".into(), source: "busy".into() }.into(),
        LockError::Acquire { path: "/l".into(), source: "denied".into() }.into(),
    ];
    let expected = [
        "no filename date rule matched for /a",
        "insufficient disk space while archiving to /z",
        "destination already exists: /d",
        "failed to delete /a: busy",
        "failed to acquire job lock at /l: denied",
    ];
    for (e, m) in cases.iter().zip(expected.iter()) {
        assert_eq!(e.message(), *m);
    }
    assert_eq!(NeatnikError::Io("disk on fire".into()).message(), "disk on fire");
}
