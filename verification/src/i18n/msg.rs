//! The messages that the command line prints.

use vstd::prelude::*;
use super::Locale;
use crate::text::{push_str, push_decimal, string_of, decimal};

verus! {

/// The report of a job skipped because its lock is held.
pub open spec fn job_skipped_locked_text(locale: Locale, job_name: Seq<char>) -> Seq<char> {
    match locale {
        Locale::En => "job \""@ + job_name + "\" skipped: already running (lock held, BR-16)"@,
        Locale::Ja => "ジョブ\""@ + job_name + "\"はスキップされました: 多重起動を検知(ロック取得済み、BR-16)"@,
    }
}

/// The report of a failed job.
pub open spec fn job_failed_text(locale: Locale, job_name: Seq<char>, err: Seq<char>) -> Seq<char> {
    match locale {
        Locale::En => "job \""@ + job_name + "\" failed: "@ + err,
        Locale::Ja => "ジョブ\""@ + job_name + "\"が失敗しました: "@ + err,
    }
}

/// The word that leads a warning.
pub open spec fn warning_prefix_text(locale: Locale) -> Seq<char> {
    match locale {
        Locale::En => "warning"@,
        Locale::Ja => "警告"@,
    }
}

/// The summary line of a job run.
pub open spec fn job_summary_text(locale: Locale, job_name: Seq<char>, archived_count: nat, archived_bytes: nat,
    relocated_count: nat, relocated_bytes: nat, deleted_count: nat, deleted_bytes: nat) -> Seq<char> {
    match locale {
        Locale::En => "job \""@ + job_name + "\": archived "@ + decimal(archived_count) + " ("@ + decimal(archived_bytes)
            + " bytes), relocated "@ + decimal(relocated_count) + " ("@ + decimal(relocated_bytes)
            + " bytes), deleted "@ + decimal(deleted_count) + " ("@ + decimal(deleted_bytes) + " bytes)"@,
        Locale::Ja => "ジョブ\""@ + job_name + "\": アーカイブ "@ + decimal(archived_count) + "件("@ + decimal(archived_bytes)
            + "バイト)、退避 "@ + decimal(relocated_count) + "件("@ + decimal(relocated_bytes)
            + "バイト)、削除 "@ + decimal(deleted_count) + "件("@ + decimal(deleted_bytes) + "バイト)"@,
    }
}

/// The report of a job whose safety brake blocked deletion.
pub open spec fn safety_brake_triggered_text(locale: Locale, job_name: Seq<char>) -> Seq<char> {
    match locale {
        Locale::En => "  safety brake triggered for job \""@ + job_name + "\" (BR-13)"@,
        Locale::Ja => "  ジョブ\""@ + job_name + "\"でセーフティブレーキが発動しました(BR-13)"@,
    }
}

/// The report of a file a stage failed on.
pub open spec fn failed_outcome_text(locale: Locale, path: Seq<char>, stage: Seq<char>, reason: Seq<char>) -> Seq<char> {
    match locale {
        Locale::En => "  failed: "@ + path + " ("@ + stage + "): "@ + reason,
        Locale::Ja => "  失敗: "@ + path + " ("@ + stage + "): "@ + reason,
    }
}

/// The reason shown when none was recorded.
pub open spec fn unknown_reason_text(locale: Locale) -> Seq<char> {
    match locale {
        Locale::En => "unknown reason"@,
        Locale::Ja => "不明な理由"@,
    }
}

/// The notice for a `--now` value that is not RFC 3339, around the cause.
pub open spec fn invalid_now_text(locale: Locale, value: Seq<char>, cause: Seq<char>) -> Seq<char> {
    match locale {
        Locale::En => "invalid --now value \""@ + value + "\": "@ + cause + " (expected RFC3339, e.g. 2027-01-01T00:00:00Z)"@,
        Locale::Ja => "--nowの値\""@ + value + "\"が不正です: "@ + cause + "(RFC3339形式で指定してください。例: 2027-01-01T00:00:00Z)"@,
    }
}

/// The guide shown when no subcommand is given.
pub fn welcome(locale: Locale) -> (r: &'static str)
    ensures
        r@ == (match locale { Locale::En => "neatnik - automated housekeeping for log, working and temporary files\n\nGetting started:\n  1. neatnik init             Generate a sample configuration file (config.yaml)\n  2. neatnik validate         Check the configuration for errors\n  3. neatnik run --dry-run    Preview what would happen without touching any files\n  4. neatnik run              Execute the configured jobs\n\nRun `neatnik --help` for the full list of commands and options."@, Locale::Ja => "neatnik - ログ・作業ファイル・一時ファイルのハウスキーピングを自動化するツール\n\nはじめに:\n  1. neatnik init             サンプル設定ファイル(config.yaml)を生成する\n  2. neatnik validate         設定内容にエラーがないか確認する\n  3. neatnik run --dry-run    ファイルを変更せずに何が起きるかを確認する\n  4. neatnik run              設定済みのジョブを実行する\n\nコマンドとオプションの一覧は `neatnik --help` を参照してください。"@ }),
{
    match locale {
        Locale::En => "neatnik - automated housekeeping for log, working and temporary files\n\nGetting started:\n  1. neatnik init             Generate a sample configuration file (config.yaml)\n  2. neatnik validate         Check the configuration for errors\n  3. neatnik run --dry-run    Preview what would happen without touching any files\n  4. neatnik run              Execute the configured jobs\n\nRun `neatnik --help` for the full list of commands and options.",
        Locale::Ja => "neatnik - ログ・作業ファイル・一時ファイルのハウスキーピングを自動化するツール\n\nはじめに:\n  1. neatnik init             サンプル設定ファイル(config.yaml)を生成する\n  2. neatnik validate         設定内容にエラーがないか確認する\n  3. neatnik run --dry-run    ファイルを変更せずに何が起きるかを確認する\n  4. neatnik run              設定済みのジョブを実行する\n\nコマンドとオプションの一覧は `neatnik --help` を参照してください。",
    }
}

/// The notice for a missing configuration file.
pub fn config_not_found(locale: Locale, path: &str) -> (r: String)
    ensures
        r@ == (match locale {
            Locale::En => "config file \""@ + path@ + "\" was not found. Run `neatnik init --output "@ + path@ + "` to generate a sample configuration file."@,
            Locale::Ja => "設定ファイル\""@ + path@ + "\"が見つかりません。`neatnik init --output "@ + path@ + "` を実行してサンプル設定ファイルを生成してください。"@,
        }),
{
    let mut v: Vec<char> = Vec::new();
    match locale {
        Locale::En => {
            push_str(&mut v, "config file \"");
            push_str(&mut v, path);
            push_str(&mut v, "\" was not found. Run `neatnik init --output ");
            push_str(&mut v, path);
            push_str(&mut v, "` to generate a sample configuration file.");
        },
        Locale::Ja => {
            push_str(&mut v, "設定ファイル\"");
            push_str(&mut v, path);
            push_str(&mut v, "\"が見つかりません。`neatnik init --output ");
            push_str(&mut v, path);
            push_str(&mut v, "` を実行してサンプル設定ファイルを生成してください。");
        },
    }
    let ghost t = v@;
    assert(t =~= (match locale {
        Locale::En => "config file \""@ + path@ + "\" was not found. Run `neatnik init --output "@ + path@ + "` to generate a sample configuration file."@,
        Locale::Ja => "設定ファイル\""@ + path@ + "\"が見つかりません。`neatnik init --output "@ + path@ + "` を実行してサンプル設定ファイルを生成してください。"@,
    }));
    string_of(&v)
}

/// The notice for a `--now` value that is not RFC 3339.
pub fn invalid_now(locale: Locale, value: &str, err: &str) -> (r: String)
    ensures
        r@ == invalid_now_text(locale, value@, err@),
{
    let mut v: Vec<char> = Vec::new();
    match locale {
        Locale::En => {
            push_str(&mut v, "invalid --now value \"");
            push_str(&mut v, value);
            push_str(&mut v, "\": ");
            push_str(&mut v, err);
            push_str(&mut v, " (expected RFC3339, e.g. 2027-01-01T00:00:00Z)");
        },
        Locale::Ja => {
            push_str(&mut v, "--nowの値\"");
            push_str(&mut v, value);
            push_str(&mut v, "\"が不正です: ");
            push_str(&mut v, err);
            push_str(&mut v, "(RFC3339形式で指定してください。例: 2027-01-01T00:00:00Z)");
        },
    }
    let ghost t = v@;
    assert(t =~= invalid_now_text(locale, value@, err@));
    string_of(&v)
}

/// The notice for a `--job` that names no job.
pub fn job_not_found(locale: Locale, name: &str) -> (r: String)
    ensures
        r@ == (match locale {
            Locale::En => "job \""@ + name@ + "\" was not found in the configuration"@,
            Locale::Ja => "ジョブ\""@ + name@ + "\"は設定内に見つかりません"@,
        }),
{
    let mut v: Vec<char> = Vec::new();
    match locale {
        Locale::En => {
            push_str(&mut v, "job \"");
            push_str(&mut v, name);
            push_str(&mut v, "\" was not found in the configuration");
        },
        Locale::Ja => {
            push_str(&mut v, "ジョブ\"");
            push_str(&mut v, name);
            push_str(&mut v, "\"は設定内に見つかりません");
        },
    }
    let ghost t = v@;
    assert(t =~= (match locale {
        Locale::En => "job \""@ + name@ + "\" was not found in the configuration"@,
        Locale::Ja => "ジョブ\""@ + name@ + "\"は設定内に見つかりません"@,
    }));
    string_of(&v)
}

/// The notice for an `init` output that exists already.
pub fn already_exists(locale: Locale, path: &str) -> (r: String)
    ensures
        r@ == (match locale {
            Locale::En => "\""@ + path@ + "\" already exists. Use --force to overwrite it."@,
            Locale::Ja => "\""@ + path@ + "\"は既に存在します。上書きするには--forceを指定してください。"@,
        }),
{
    let mut v: Vec<char> = Vec::new();
    match locale {
        Locale::En => {
            push_str(&mut v, "\"");
            push_str(&mut v, path);
            push_str(&mut v, "\" already exists. Use --force to overwrite it.");
        },
        Locale::Ja => {
            push_str(&mut v, "\"");
            push_str(&mut v, path);
            push_str(&mut v, "\"は既に存在します。上書きするには--forceを指定してください。");
        },
    }
    let ghost t = v@;
    assert(t =~= (match locale {
        Locale::En => "\""@ + path@ + "\" already exists. Use --force to overwrite it."@,
        Locale::Ja => "\""@ + path@ + "\"は既に存在します。上書きするには--forceを指定してください。"@,
    }));
    string_of(&v)
}

/// The report of a written sample configuration.
pub fn wrote_sample_config(locale: Locale, path: &str) -> (r: String)
    ensures
        r@ == (match locale {
            Locale::En => "wrote a sample configuration to \""@ + path@ + "\""@,
            Locale::Ja => "サンプル設定を\""@ + path@ + "\"に書き込みました"@,
        }),
{
    let mut v: Vec<char> = Vec::new();
    match locale {
        Locale::En => {
            push_str(&mut v, "wrote a sample configuration to \"");
            push_str(&mut v, path);
            push_str(&mut v, "\"");
        },
        Locale::Ja => {
            push_str(&mut v, "サンプル設定を\"");
            push_str(&mut v, path);
            push_str(&mut v, "\"に書き込みました");
        },
    }
    let ghost t = v@;
    assert(t =~= (match locale {
        Locale::En => "wrote a sample configuration to \""@ + path@ + "\""@,
        Locale::Ja => "サンプル設定を\""@ + path@ + "\"に書き込みました"@,
    }));
    string_of(&v)
}

/// The report of a valid configuration.
pub fn configuration_is_valid(locale: Locale, job_count: usize) -> (r: String)
    ensures
        r@ == (match locale {
            Locale::En => "configuration is valid ("@ + decimal(job_count as nat) + " job(s))"@,
            Locale::Ja => "設定は正常です(ジョブ数: "@ + decimal(job_count as nat) + ")"@,
        }),
{
    let mut v: Vec<char> = Vec::new();
    match locale {
        Locale::En => {
            push_str(&mut v, "configuration is valid (");
            push_decimal(&mut v, job_count as u64);
            push_str(&mut v, " job(s))");
        },
        Locale::Ja => {
            push_str(&mut v, "設定は正常です(ジョブ数: ");
            push_decimal(&mut v, job_count as u64);
            push_str(&mut v, ")");
        },
    }
    let ghost t = v@;
    assert(t =~= (match locale {
        Locale::En => "configuration is valid ("@ + decimal(job_count as nat) + " job(s))"@,
        Locale::Ja => "設定は正常です(ジョブ数: "@ + decimal(job_count as nat) + ")"@,
    }));
    string_of(&v)
}

/// The report of a configuration without jobs.
pub fn no_jobs_configured(locale: Locale) -> (r: &'static str)
    ensures
        r@ == (match locale { Locale::En => "no jobs are configured"@, Locale::Ja => "ジョブが設定されていません"@ }),
{
    match locale {
        Locale::En => "no jobs are configured",
        Locale::Ja => "ジョブが設定されていません",
    }
}

/// The report of a job skipped because its lock is held.
pub fn job_skipped_locked(locale: Locale, job_name: &str) -> (r: String)
    ensures
        r@ == job_skipped_locked_text(locale, job_name@),
{
    let mut v: Vec<char> = Vec::new();
    match locale {
        Locale::En => {
            push_str(&mut v, "job \"");
            push_str(&mut v, job_name);
            push_str(&mut v, "\" skipped: already running (lock held, BR-16)");
        },
        Locale::Ja => {
            push_str(&mut v, "ジョブ\"");
            push_str(&mut v, job_name);
            push_str(&mut v, "\"はスキップされました: 多重起動を検知(ロック取得済み、BR-16)");
        },
    }
    let ghost t = v@;
    assert(t =~= job_skipped_locked_text(locale, job_name@));
    string_of(&v)
}

/// The report of a failed job.
pub fn job_failed(locale: Locale, job_name: &str, err: &str) -> (r: String)
    ensures
        r@ == job_failed_text(locale, job_name@, err@),
{
    let mut v: Vec<char> = Vec::new();
    match locale {
        Locale::En => {
            push_str(&mut v, "job \"");
            push_str(&mut v, job_name);
            push_str(&mut v, "\" failed: ");
            push_str(&mut v, err);
        },
        Locale::Ja => {
            push_str(&mut v, "ジョブ\"");
            push_str(&mut v, job_name);
            push_str(&mut v, "\"が失敗しました: ");
            push_str(&mut v, err);
        },
    }
    let ghost t = v@;
    assert(t =~= job_failed_text(locale, job_name@, err@));
    string_of(&v)
}

/// The final notice when a job failed.
pub fn one_or_more_jobs_failed(locale: Locale) -> (r: &'static str)
    ensures
        r@ == (match locale { Locale::En => "one or more jobs failed"@, Locale::Ja => "1件以上のジョブが失敗しました"@ }),
{
    match locale {
        Locale::En => "one or more jobs failed",
        Locale::Ja => "1件以上のジョブが失敗しました",
    }
}

/// The word that leads a warning.
pub fn warning_prefix(locale: Locale) -> (r: &'static str)
    ensures
        r@ == warning_prefix_text(locale),
{
    match locale {
        Locale::En => "warning",
        Locale::Ja => "警告",
    }
}

/// The summary line of a job run.
pub fn job_summary(locale: Locale, job_name: &str, archived_count: u64, archived_bytes: u64, relocated_count: u64, relocated_bytes: u64, deleted_count: u64, deleted_bytes: u64) -> (r: String)
    ensures
        r@ == job_summary_text(locale, job_name@, archived_count as nat, archived_bytes as nat, relocated_count as nat,
            relocated_bytes as nat, deleted_count as nat, deleted_bytes as nat),
{
    let mut v: Vec<char> = Vec::new();
    match locale {
        Locale::En => {
            push_str(&mut v, "job \"");
            push_str(&mut v, job_name);
            push_str(&mut v, "\": archived ");
            push_decimal(&mut v, archived_count as u64);
            push_str(&mut v, " (");
            push_decimal(&mut v, archived_bytes as u64);
            push_str(&mut v, " bytes), relocated ");
            push_decimal(&mut v, relocated_count as u64);
            push_str(&mut v, " (");
            push_decimal(&mut v, relocated_bytes as u64);
            push_str(&mut v, " bytes), deleted ");
            push_decimal(&mut v, deleted_count as u64);
            push_str(&mut v, " (");
            push_decimal(&mut v, deleted_bytes as u64);
            push_str(&mut v, " bytes)");
        },
        Locale::Ja => {
            push_str(&mut v, "ジョブ\"");
            push_str(&mut v, job_name);
            push_str(&mut v, "\": アーカイブ ");
            push_decimal(&mut v, archived_count as u64);
            push_str(&mut v, "件(");
            push_decimal(&mut v, archived_bytes as u64);
            push_str(&mut v, "バイト)、退避 ");
            push_decimal(&mut v, relocated_count as u64);
            push_str(&mut v, "件(");
            push_decimal(&mut v, relocated_bytes as u64);
            push_str(&mut v, "バイト)、削除 ");
            push_decimal(&mut v, deleted_count as u64);
            push_str(&mut v, "件(");
            push_decimal(&mut v, deleted_bytes as u64);
            push_str(&mut v, "バイト)");
        },
    }
    let ghost t = v@;
    assert(t =~= job_summary_text(locale, job_name@, archived_count as nat, archived_bytes as nat, relocated_count as nat,
        relocated_bytes as nat, deleted_count as nat, deleted_bytes as nat));
    string_of(&v)
}

/// The report of a job whose safety brake blocked deletion.
pub fn safety_brake_triggered(locale: Locale, job_name: &str) -> (r: String)
    ensures
        r@ == safety_brake_triggered_text(locale, job_name@),
{
    let mut v: Vec<char> = Vec::new();
    match locale {
        Locale::En => {
            push_str(&mut v, "  safety brake triggered for job \"");
            push_str(&mut v, job_name);
            push_str(&mut v, "\" (BR-13)");
        },
        Locale::Ja => {
            push_str(&mut v, "  ジョブ\"");
            push_str(&mut v, job_name);
            push_str(&mut v, "\"でセーフティブレーキが発動しました(BR-13)");
        },
    }
    let ghost t = v@;
    assert(t =~= safety_brake_triggered_text(locale, job_name@));
    string_of(&v)
}

/// The report of a file a stage failed on.
pub fn failed_outcome(locale: Locale, path: &str, stage: &str, reason: &str) -> (r: String)
    ensures
        r@ == failed_outcome_text(locale, path@, stage@, reason@),
{
    let mut v: Vec<char> = Vec::new();
    match locale {
        Locale::En => {
            push_str(&mut v, "  failed: ");
            push_str(&mut v, path);
            push_str(&mut v, " (");
            push_str(&mut v, stage);
            push_str(&mut v, "): ");
            push_str(&mut v, reason);
        },
        Locale::Ja => {
            push_str(&mut v, "  失敗: ");
            push_str(&mut v, path);
            push_str(&mut v, " (");
            push_str(&mut v, stage);
            push_str(&mut v, "): ");
            push_str(&mut v, reason);
        },
    }
    let ghost t = v@;
    assert(t =~= failed_outcome_text(locale, path@, stage@, reason@));
    string_of(&v)
}

/// The reason shown when none was recorded.
pub fn unknown_reason(locale: Locale) -> (r: &'static str)
    ensures
        r@ == unknown_reason_text(locale),
{
    match locale {
        Locale::En => "unknown reason",
        Locale::Ja => "不明な理由",
    }
}

} // verus!
