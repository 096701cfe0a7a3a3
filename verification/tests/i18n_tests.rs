use neatnik::i18n::msg;
use neatnik::i18n::{about, help, Locale};

#[test]
fn from_args_recognizes_space_separated_form() {
    let args = vec!["run".to_string(), "--lang".to_string(), "ja".to_string()];
    assert_eq!(Locale::from_args(args), Some(Locale::Ja));
}

#[test]
fn from_args_recognizes_equals_form() {
    let args = vec!["run".to_string(), "--lang=en".to_string()];
    assert_eq!(Locale::from_args(args), Some(Locale::En));
}

#[test]
fn from_args_ignores_unknown_values() {
    let args = vec!["--lang".to_string(), "fr".to_string()];
    assert_eq!(Locale::from_args(args), None);
}

#[test]
fn from_args_returns_none_when_absent() {
    let args = vec!["run".to_string(), "--dry-run".to_string()];
    assert_eq!(Locale::from_args(args), None);
}

#[test]
fn from_args_takes_the_first_recognized_value_in_any_case() {
    let args = vec!["--lang=xx".to_string(), "--lang".to_string(), "JA".to_string(), "--lang=en".to_string()];
    assert_eq!(Locale::from_args(args), Some(Locale::Ja));
    assert_eq!(Locale::from_args(vec!["--lang".to_string()]), None);
}

#[test]
fn parse_ignores_case() {
    assert_eq!(Locale::parse("EN"), Some(Locale::En));
    assert_eq!(Locale::parse("Ja"), Some(Locale::Ja));
    assert_eq!(Locale::parse("de"), None);
}

#[test]
fn detect_follows_the_first_set_variable() {
    let set = |v: &str| Some(v.to_string());
    assert_eq!(Locale::detect(&vec![None, None, set("ja_JP.UTF-8")]), Locale::Ja);
    assert_eq!(Locale::detect(&vec![set("C"), None, set("ja_JP.UTF-8")]), Locale::En);
    assert_eq!(Locale::detect(&vec![set(""), set("JA_JP"), None]), Locale::Ja);
    assert_eq!(Locale::detect(&vec![None, None, None]), Locale::En);
    assert_eq!(Locale::detect(&vec![]), Locale::En);
}

#[test]
fn messages_in_both_languages() {
    assert_eq!(
        msg::config_not_found(Locale::En, "config.yaml"),
        "config file \"config.yaml\" was not found. Run `neatnik init --output config.yaml` to generate a sample configuration file."
    );
    assert_eq!(msg::job_not_found(Locale::Ja, "x"), "ジョブ\"x\"は設定内に見つかりません");
    assert_eq!(
        msg::job_summary(Locale::En, "j", 1, 10, 2, 20, 3, 30),
        "job \"j\": archived 1 (10 bytes), relocated 2 (20 bytes), deleted 3 (30 bytes)"
    );
    assert_eq!(
        msg::job_summary(Locale::Ja, "j", 0, 0, 0, 0, 12, 345),
        "ジョブ\"j\": アーカイブ 0件(0バイト)、退避 0件(0バイト)、削除 12件(345バイト)"
    );
    assert_eq!(msg::safety_brake_triggered(Locale::En, "j"), "  safety brake triggered for job \"j\" (BR-13)");
    assert_eq!(msg::failed_outcome(Locale::En, "/a", "Delete", "busy"), "  failed: /a (Delete): busy");
    assert_eq!(msg::unknown_reason(Locale::Ja), "不明な理由");
    assert_eq!(msg::warning_prefix(Locale::En), "warning");
    assert!(msg::welcome(Locale::En).starts_with("neatnik - automated housekeeping"));
    assert!(msg::invalid_now(Locale::En, "yesterday", "input contains invalid characters").contains("\"yesterday\""));
}

#[test]
fn help_and_about_texts_exist_in_both_languages() {
    for locale in [Locale::En, Locale::Ja] {
        assert!(!about::root(locale).is_empty());
        assert!(!about::run(locale).is_empty());
        assert!(!about::validate(locale).is_empty());
        assert!(!about::init(locale).is_empty());
        assert!(!about::list(locale).is_empty());
        assert!(!about::completions(locale).is_empty());
        assert!(!help::config(locale).is_empty());
        assert!(!help::now(locale).is_empty());
        assert!(!help::job(locale).is_empty());
        assert!(!help::dry_run(locale).is_empty());
        assert!(!help::output(locale).is_empty());
        assert!(!help::force(locale).is_empty());
        assert!(!help::lang(locale).is_empty());
    }
    assert_ne!(about::run(Locale::En), about::run(Locale::Ja));
}
