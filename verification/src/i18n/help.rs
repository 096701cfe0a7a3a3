//! The help texts of the command-line options.

use vstd::prelude::*;
use super::Locale;

verus! {

/// The help of `--config`.
pub fn config(locale: Locale) -> (r: &'static str)
    ensures
        r@ == (match locale { Locale::En => "Path to the configuration file (default: ./config.yaml)"@, Locale::Ja => "設定ファイルのパス(省略時は./config.yaml)"@ }),
{
    match locale {
        Locale::En => "Path to the configuration file (default: ./config.yaml)",
        Locale::Ja => "設定ファイルのパス(省略時は./config.yaml)",
    }
}

/// The help of `--now`.
pub fn now(locale: Locale) -> (r: &'static str)
    ensures
        r@ == (match locale { Locale::En => "Override \"now\" with a fixed RFC3339 datetime (e.g. 2027-01-01T00:00:00Z)"@, Locale::Ja => "「現在時刻」を指定した日時に固定する(RFC3339形式、例: 2027-01-01T00:00:00Z)"@ }),
{
    match locale {
        Locale::En => "Override \"now\" with a fixed RFC3339 datetime (e.g. 2027-01-01T00:00:00Z)",
        Locale::Ja => "「現在時刻」を指定した日時に固定する(RFC3339形式、例: 2027-01-01T00:00:00Z)",
    }
}

/// The help of `--job`.
pub fn job(locale: Locale) -> (r: &'static str)
    ensures
        r@ == (match locale { Locale::En => "Name of the job to run (default: all jobs)"@, Locale::Ja => "実行対象のジョブ名(省略時は全ジョブ)"@ }),
{
    match locale {
        Locale::En => "Name of the job to run (default: all jobs)",
        Locale::Ja => "実行対象のジョブ名(省略時は全ジョブ)",
    }
}

/// The help of `--dry-run`.
pub fn dry_run(locale: Locale) -> (r: &'static str)
    ensures
        r@ == (match locale { Locale::En => "Preview target counts and sizes without touching any files"@, Locale::Ja => "実際のファイル操作を行わず、対象件数・合計サイズのみ表示する"@ }),
{
    match locale {
        Locale::En => "Preview target counts and sizes without touching any files",
        Locale::Ja => "実際のファイル操作を行わず、対象件数・合計サイズのみ表示する",
    }
}

/// The help of `--output`.
pub fn output(locale: Locale) -> (r: &'static str)
    ensures
        r@ == (match locale { Locale::En => "Path to write the generated configuration file"@, Locale::Ja => "生成する設定ファイルのパス"@ }),
{
    match locale {
        Locale::En => "Path to write the generated configuration file",
        Locale::Ja => "生成する設定ファイルのパス",
    }
}

/// The help of `--force`.
pub fn force(locale: Locale) -> (r: &'static str)
    ensures
        r@ == (match locale { Locale::En => "Overwrite the file if it already exists"@, Locale::Ja => "既存ファイルを上書きする"@ }),
{
    match locale {
        Locale::En => "Overwrite the file if it already exists",
        Locale::Ja => "既存ファイルを上書きする",
    }
}

/// The help of `--lang`.
pub fn lang(locale: Locale) -> (r: &'static str)
    ensures
        r@ == (match locale { Locale::En => "Output language. Defaults to the LANG/LC_ALL environment variable"@, Locale::Ja => "出力言語。省略時はLANG/LC_ALL環境変数に従う"@ }),
{
    match locale {
        Locale::En => "Output language. Defaults to the LANG/LC_ALL environment variable",
        Locale::Ja => "出力言語。省略時はLANG/LC_ALL環境変数に従う",
    }
}

} // verus!
