//! The decisions of the command-line front end that need no system access:
//! where the configuration is read from, where the lock files go, which
//! jobs a run covers, and how a job is listed.

use vstd::prelude::*;
use crate::config::{JobConfig, StageConfig, ValidationWarning};
use crate::error::{NeatnikError, neatnik_error_text};
use crate::i18n::Locale;
use crate::i18n::msg::{job_summary, safety_brake_triggered, failed_outcome, unknown_reason, job_skipped_locked,
    job_failed, warning_prefix, job_summary_text, safety_brake_triggered_text, failed_outcome_text,
    unknown_reason_text, job_skipped_locked_text, job_failed_text, warning_prefix_text};
use crate::path::{parent, spec_parent};
use crate::pipeline::{JobSummary, StageKind, StageOutcome, OutcomeView, outcome_views};
use crate::text::{chars_of, string_of, push_str, push_decimal, decimal, chars_eq, string_views};

verus! {

/// The configuration file read when none is given.
pub open spec fn default_config_path() -> Seq<char> {
    "config.yaml"@
}

/// The configuration file: the one given, else `config.yaml` in the
/// working directory.
pub fn resolve_config_path(explicit: Option<String>) -> (r: String)
    ensures
        r@ == match explicit {
            Some(p) => p@,
            None => default_config_path(),
        },
{
    match explicit {
        Some(p) => p,
        None => "config.yaml".to_owned(),
    }
}

/// The directory that holds the lock files: the one that holds the
/// configuration file, else the working directory.
pub fn lock_directory(config_path: &str) -> (r: String)
    ensures
        r@ == match spec_parent(config_path@) {
            Some(p) => p,
            None => "."@,
        },
{
    match parent(config_path) {
        Some(p) => p,
        None => ".".to_owned(),
    }
}

/// Whether a run asked for `name` covers `job`: every job when no name is
/// given, else the jobs of that name.
pub open spec fn covers(job: JobConfig, name: Option<Seq<char>>) -> bool {
    match name {
        None => true,
        Some(n) => job.name@ == n,
    }
}

pub open spec fn opt_str_view(o: Option<&str>) -> Option<Seq<char>> {
    match o {
        Some(s) => Some(s@),
        None => None,
    }
}

/// Whether `i` occurs in `ix`.
pub open spec fn holds_index(ix: Seq<usize>, i: int) -> bool {
    exists|k: int| 0 <= k < ix.len() && ix[k] == i
}

/// The positions of the jobs that a run covers, in the order they are
/// configured. A job name that no job has is refused (`None`).
pub fn filter_jobs(jobs: &Vec<JobConfig>, job_name: Option<&str>) -> (r: Option<Vec<usize>>)
    ensures
        r is None <==> (job_name is Some
            && forall|i: int| 0 <= i < jobs.len() ==> !covers(#[trigger] jobs@[i], opt_str_view(job_name))),
        r is Some ==> forall|k: int| 0 <= k < r.unwrap().len() ==> (#[trigger] r.unwrap()@[k]) < jobs.len()
            && covers(jobs@[r.unwrap()@[k] as int], opt_str_view(job_name)),
        r is Some ==> forall|k: int, l: int| 0 <= k < l < r.unwrap().len() ==> r.unwrap()@[k] < r.unwrap()@[l],
        r is Some ==> forall|i: int| 0 <= i < jobs.len() && covers(#[trigger] jobs@[i], opt_str_view(job_name))
            ==> holds_index(r.unwrap()@, i),
{
    let wanted: Option<Vec<char>> = match job_name {
        Some(n) => Some(chars_of(n)),
        None => None,
    };
    let mut ix: Vec<usize> = Vec::new();
    let mut i: usize = 0;
    while i < jobs.len()
        invariant
            i <= jobs.len(),
            match wanted {
                Some(w) => job_name is Some && w@ == job_name.unwrap()@,
                None => job_name is None,
            },
            forall|k: int| 0 <= k < ix.len() ==> (#[trigger] ix@[k]) < i
                && covers(jobs@[ix@[k] as int], opt_str_view(job_name)),
            forall|k: int, l: int| 0 <= k < l < ix.len() ==> ix@[k] < ix@[l],
            forall|j: int| 0 <= j < i && covers(#[trigger] jobs@[j], opt_str_view(job_name))
                ==> holds_index(ix@, j),
        decreases jobs.len() - i,
    {
        let take = match &wanted {
            None => true,
            Some(w) => chars_eq(&chars_of(jobs[i].name.as_str()), w),
        };
        let ghost old_ix = ix@;
        if take {
            ix.push(i);
        }
        proof {
            assert(take == covers(jobs@[i as int], opt_str_view(job_name)));
            assert forall|j: int| 0 <= j < i + 1 && covers(#[trigger] jobs@[j], opt_str_view(job_name))
                implies holds_index(ix@, j) by {
                if j < i {
                    let k = choose|k: int| 0 <= k < old_ix.len() && old_ix[k] == j;
                    assert(ix@[k] == old_ix[k]);
                } else {
                    assert(ix@[old_ix.len() as int] == j);
                }
            }
        }
        i = i + 1;
    }
    if job_name.is_some() && ix.len() == 0 {
        assert forall|j: int| 0 <= j < jobs.len() implies !covers(#[trigger] jobs@[j], opt_str_view(job_name)) by {
            if covers(jobs@[j], opt_str_view(job_name)) {
                assert(holds_index(ix@, j));
                let k = choose|k: int| 0 <= k < ix.len() && ix@[k] == j;
            }
        }
        return None;
    }
    if job_name.is_some() {
        assert(covers(jobs@[ix@[0] as int], opt_str_view(job_name)));
    }
    Some(ix)
}

/// The kind of a stage.
pub open spec fn kind_of(stage: StageConfig) -> StageKind {
    match stage {
        StageConfig::Archive(_) => StageKind::Archive,
        StageConfig::Relocate(_) => StageKind::Relocate,
        StageConfig::Delete(_) => StageKind::Delete,
    }
}

/// How many of `stages` are of kind `kind`.
pub open spec fn count_of(stages: Seq<StageConfig>, kind: StageKind) -> nat
    decreases stages.len(),
{
    if stages.len() == 0 {
        0
    } else {
        count_of(stages.drop_last(), kind) + if kind_of(stages.last()) == kind { 1nat } else { 0nat }
    }
}

proof fn lemma_count_bounded(stages: Seq<StageConfig>, kind: StageKind)
    ensures
        count_of(stages, kind) <= stages.len(),
    decreases stages.len(),
{
    if stages.len() > 0 {
        lemma_count_bounded(stages.drop_last(), kind);
    }
}

/// The number of archive, relocate and delete stages of a job.
pub fn stage_counts(job: &JobConfig) -> (r: (usize, usize, usize))
    ensures
        r.0 == count_of(job.stages@, StageKind::Archive),
        r.1 == count_of(job.stages@, StageKind::Relocate),
        r.2 == count_of(job.stages@, StageKind::Delete),
{
    let mut a: usize = 0;
    let mut r: usize = 0;
    let mut d: usize = 0;
    let mut i: usize = 0;
    while i < job.stages.len()
        invariant
            i <= job.stages.len(),
            a == count_of(job.stages@.take(i as int), StageKind::Archive),
            r == count_of(job.stages@.take(i as int), StageKind::Relocate),
            d == count_of(job.stages@.take(i as int), StageKind::Delete),
        decreases job.stages.len() - i,
    {
        let ghost before = job.stages@.take(i as int);
        proof {
            lemma_count_bounded(before, StageKind::Archive);
            lemma_count_bounded(before, StageKind::Relocate);
            lemma_count_bounded(before, StageKind::Delete);
            assert(job.stages@.take(i + 1).drop_last() == before);
        }
        match &job.stages[i] {
            StageConfig::Archive(_) => { a = a + 1; },
            StageConfig::Relocate(_) => { r = r + 1; },
            StageConfig::Delete(_) => { d = d + 1; },
        }
        i = i + 1;
    }
    assert(job.stages@.take(i as int) == job.stages@);
    (a, r, d)
}

/// The line that lists a job: its name and how many stages of each kind it has.
pub open spec fn list_line_text(job: JobConfig) -> Seq<char> {
    job.name@ + " (archive: "@ + decimal(count_of(job.stages@, StageKind::Archive))
        + ", relocate: "@ + decimal(count_of(job.stages@, StageKind::Relocate))
        + ", delete: "@ + decimal(count_of(job.stages@, StageKind::Delete)) + ")"@
}

/// The line that lists a job, as in `name (archive: 1, relocate: 0, delete: 2)`.
pub fn list_line(job: &JobConfig) -> (r: String)
    ensures
        r@ == list_line_text(*job),
{
    let (a, r, d) = stage_counts(job);
    let mut v: Vec<char> = Vec::new();
    push_str(&mut v, job.name.as_str());
    push_str(&mut v, " (archive: ");
    push_decimal(&mut v, a as u64);
    push_str(&mut v, ", relocate: ");
    push_decimal(&mut v, r as u64);
    push_str(&mut v, ", delete: ");
    push_decimal(&mut v, d as u64);
    push_str(&mut v, ")");
    string_of(&v)
}

/// The name of a stage kind, as reports show it.
pub open spec fn stage_name(stage: StageKind) -> Seq<char> {
    match stage {
        StageKind::Archive => "Archive"@,
        StageKind::Relocate => "Relocate"@,
        StageKind::Delete => "Delete"@,
    }
}

/// The name of a stage kind (see [`stage_name`]).
pub fn stage_label(stage: StageKind) -> (r: &'static str)
    ensures
        r@ == stage_name(stage),
{
    match stage {
        StageKind::Archive => "Archive",
        StageKind::Relocate => "Relocate",
        StageKind::Delete => "Delete",
    }
}

/// Lines to print: on standard output, and on standard error.
#[derive(Debug, Clone, PartialEq, Eq)]
pub struct ReportLines {
    pub out: Vec<String>,
    pub err: Vec<String>,
}

/// The line reporting a file that a stage failed on (the reason, or a
/// note that none was recorded).
pub open spec fn failure_line(o: OutcomeView, locale: Locale) -> Seq<char> {
    failed_outcome_text(locale, o.path, stage_name(o.stage), match o.reason {
        Some(r) => r,
        None => unknown_reason_text(locale),
    })
}

/// The lines reporting a job's summary: the counts, a notice when the
/// safety brake blocked deletion, and one line per failed file.
pub open spec fn summary_out(s: crate::pipeline::SummaryView, locale: Locale) -> Seq<Seq<char>> {
    let head = seq![job_summary_text(locale, s.job_name, s.archived_count as nat, s.archived_bytes as nat,
        s.relocated_count as nat, s.relocated_bytes as nat, s.deleted_count as nat, s.deleted_bytes as nat)];
    if s.safety_brake_triggered {
        head.push(safety_brake_triggered_text(locale, s.job_name))
    } else {
        head
    }
}

pub open spec fn summary_err(s: crate::pipeline::SummaryView, locale: Locale) -> Seq<Seq<char>> {
    Seq::new(s.failed.len(), |i: int| failure_line(s.failed[i], locale))
}

/// The report of a job's summary (see [`summary_out`] and [`summary_err`]).
pub fn summary_lines(summary: &JobSummary, locale: Locale) -> (r: ReportLines)
    ensures
        string_views(r.out@) == summary_out(summary@, locale),
        string_views(r.err@) == summary_err(summary@, locale),
{
    let mut out: Vec<String> = Vec::new();
    out.push(job_summary(locale, summary.job_name.as_str(), summary.archived_count, summary.archived_bytes,
        summary.relocated_count, summary.relocated_bytes, summary.deleted_count, summary.deleted_bytes));
    if summary.safety_brake_triggered {
        out.push(safety_brake_triggered(locale, summary.job_name.as_str()));
    }
    assert(string_views(out@) =~= summary_out(summary@, locale));
    let mut err: Vec<String> = Vec::new();
    let ghost fv = outcome_views(summary.failed@);
    let mut i: usize = 0;
    while i < summary.failed.len()
        invariant
            i <= summary.failed@.len(),
            fv == outcome_views(summary.failed@),
            string_views(err@) == summary_err(summary@, locale).take(i as int),
        decreases summary.failed@.len() - i,
    {
        let o: &StageOutcome = &summary.failed[i];
        let reason: &str = match &o.reason {
            Some(r) => r.as_str(),
            None => unknown_reason(locale),
        };
        let line = failed_outcome(locale, o.path.as_str(), stage_label(o.stage), reason);
        let ghost before = err@;
        err.push(line);
        proof {
            assert(fv[i as int] == o@);
            assert(string_views(err@) =~= string_views(before).push(failure_line(fv[i as int], locale)));
            assert(summary_err(summary@, locale).take(i + 1)
                =~= summary_err(summary@, locale).take(i as int).push(failure_line(fv[i as int], locale)));
        }
        i = i + 1;
    }
    assert(summary_err(summary@, locale).take(i as int) =~= summary_err(summary@, locale));
    ReportLines { out, err }
}

/// The report of one job of a run: its summary; a notice when it was
/// skipped because another run held its lock; or, on standard error, its failure.
pub open spec fn job_report_holds(r: ReportLines, name: Seq<char>, result: Result<Option<JobSummary>, NeatnikError>,
    locale: Locale) -> bool {
    match result {
        Ok(Some(s)) => string_views(r.out@) == summary_out(s@, locale) && string_views(r.err@) == summary_err(s@, locale),
        Ok(None) => string_views(r.out@) == seq![job_skipped_locked_text(locale, name)] && r.err@.len() == 0,
        Err(e) => r.out@.len() == 0 && string_views(r.err@) == seq![job_failed_text(locale, name, neatnik_error_text(e))],
    }
}

/// The report of one job of a run (see [`job_report_holds`]).
pub fn job_report(job_name: &str, result: &Result<Option<JobSummary>, NeatnikError>, locale: Locale) -> (r: ReportLines)
    ensures
        job_report_holds(r, job_name@, *result, locale),
{
    match result {
        Ok(Some(s)) => summary_lines(s, locale),
        Ok(None) => {
            let mut out: Vec<String> = Vec::new();
            out.push(job_skipped_locked(locale, job_name));
            assert(string_views(out@) =~= seq![job_skipped_locked_text(locale, job_name@)]);
            ReportLines { out, err: Vec::new() }
        },
        Err(e) => {
            let mut err: Vec<String> = Vec::new();
            let message = e.message();
            err.push(job_failed(locale, job_name, message.as_str()));
            assert(string_views(err@) =~= seq![job_failed_text(locale, job_name@, neatnik_error_text(*e))]);
            ReportLines { out: Vec::new(), err }
        },
    }
}

/// The line of a validation warning: the localized word for a warning, then the warning.
pub open spec fn warning_line(w: ValidationWarning, locale: Locale) -> Seq<char> {
    warning_prefix_text(locale) + ": "@ + w.0@
}

/// The lines of validation warnings, in order (see [`warning_line`]).
pub fn warning_lines(warnings: &Vec<ValidationWarning>, locale: Locale) -> (r: Vec<String>)
    ensures
        string_views(r@) == Seq::new(warnings@.len(), |i: int| warning_line(warnings@[i], locale)),
{
    let ghost want = Seq::new(warnings@.len(), |i: int| warning_line(warnings@[i], locale));
    let mut lines: Vec<String> = Vec::new();
    let mut i: usize = 0;
    while i < warnings.len()
        invariant
            i <= warnings@.len(),
            want == Seq::new(warnings@.len(), |i: int| warning_line(warnings@[i], locale)),
            string_views(lines@) == want.take(i as int),
        decreases warnings@.len() - i,
    {
        let mut v: Vec<char> = Vec::new();
        push_str(&mut v, warning_prefix(locale));
        push_str(&mut v, ": ");
        push_str(&mut v, warnings[i].0.as_str());
        let ghost before = lines@;
        lines.push(string_of(&v));
        proof {
            assert(v@ =~= warning_line(warnings@[i as int], locale));
            assert(string_views(lines@) =~= string_views(before).push(want[i as int]));
            assert(want.take(i + 1) =~= want.take(i as int).push(want[i as int]));
        }
        i = i + 1;
    }
    assert(want.take(i as int) =~= want);
    lines
}

} // verus!
