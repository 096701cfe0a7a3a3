//! One-line descriptions of the command and its subcommands.

use vstd::prelude::*;
use super::Locale;

verus! {

/// What the tool is.
pub fn root(locale: Locale) -> (r: &'static str)
    ensures
        r@ == (match locale { Locale::En => "Automated housekeeping (archive, relocate, delete) for log, working and temporary files."@, Locale::Ja => "ログ・作業ファイル・一時ファイルのハウスキーピング(アーカイブ・退避・削除)を自動化するCLIツール。"@ }),
{
    match locale {
        Locale::En => "Automated housekeeping (archive, relocate, delete) for log, working and temporary files.",
        Locale::Ja => "ログ・作業ファイル・一時ファイルのハウスキーピング(アーカイブ・退避・削除)を自動化するCLIツール。",
    }
}

/// What `run` does.
pub fn run(locale: Locale) -> (r: &'static str)
    ensures
        r@ == (match locale { Locale::En => "Run configured jobs"@, Locale::Ja => "ジョブを実行する"@ }),
{
    match locale {
        Locale::En => "Run configured jobs",
        Locale::Ja => "ジョブを実行する",
    }
}

/// What `validate` does.
pub fn validate(locale: Locale) -> (r: &'static str)
    ensures
        r@ == (match locale { Locale::En => "Validate the configuration file"@, Locale::Ja => "設定ファイルを検証する"@ }),
{
    match locale {
        Locale::En => "Validate the configuration file",
        Locale::Ja => "設定ファイルを検証する",
    }
}

/// What `init` does.
pub fn init(locale: Locale) -> (r: &'static str)
    ensures
        r@ == (match locale { Locale::En => "Generate a sample configuration file"@, Locale::Ja => "サンプル設定ファイルを生成する"@ }),
{
    match locale {
        Locale::En => "Generate a sample configuration file",
        Locale::Ja => "サンプル設定ファイルを生成する",
    }
}

/// What `list` does.
pub fn list(locale: Locale) -> (r: &'static str)
    ensures
        r@ == (match locale { Locale::En => "List configured jobs"@, Locale::Ja => "設定済みジョブの一覧を表示する"@ }),
{
    match locale {
        Locale::En => "List configured jobs",
        Locale::Ja => "設定済みジョブの一覧を表示する",
    }
}

/// What `completions` does.
pub fn completions(locale: Locale) -> (r: &'static str)
    ensures
        r@ == (match locale { Locale::En => "Generate shell completion scripts"@, Locale::Ja => "シェル補完スクリプトを生成する"@ }),
{
    match locale {
        Locale::En => "Generate shell completion scripts",
        Locale::Ja => "シェル補完スクリプトを生成する",
    }
}

} // verus!
