//! The configuration model: jobs made of ordered stages, each stage with
//! its own watch targets; and its validation.
//!
//! Parsing the YAML text is done outside the library; the library receives
//! the parsed values. Whether a `basedir` can be resolved on disk is also
//! found out outside, and handed to the validation as an error message per
//! target.

use vstd::prelude::*;
use crate::error::ConfigError;
use crate::pattern::{CompiledRegex, regex_compiles, regex_captures, regex_all_captures};
use crate::path::{starts_with, spec_starts_with};
use crate::text::{chars_of, string_of, push_str, push_chars, replaced, trimmed, replace_char,
    trim_leading, trim_trailing, chars_eq, opt_views};

verus! {

/// The root of the configuration: a list of jobs.
#[derive(Debug, Clone)]
pub struct RootConfig {
    pub jobs: Vec<JobConfig>,
}

/// A job: the unit of locking, with its stages in the order they run.
#[derive(Debug, Clone)]
pub struct JobConfig {
    pub name: String,
    pub stages: Vec<StageConfig>,
}

/// One entry of a job's `stages`.
#[derive(Debug, Clone)]
pub enum StageConfig {
    Archive(ArchiveConfig),
    Relocate(RelocateConfig),
    Delete(DeleteConfig),
}

/// A watched directory and the patterns that select files below it.
#[derive(Debug, Clone, Default)]
pub struct WatchTarget {
    pub basedir: String,
    pub name: Option<String>,
    pub includes: Vec<String>,
    pub exclude: Vec<String>,
    pub basis: BasisKind,
    pub filename_date_rules: Vec<FilenameDateRule>,
}

/// A rule that extracts a date from a file name: a regular expression with
/// a group named `date`, and the strftime pattern that the group is parsed with.
#[derive(Debug, Clone)]
pub struct FilenameDateRule {
    pub regex: String,
    pub format: String,
}

/// Where the basis date and time of a file comes from.
#[derive(Debug, Clone, Copy, PartialEq, Eq, Structural, Default)]
pub enum BasisKind {
    #[default]
    Mtime,
    FilenameDate,
}

/// The settings of an archive stage.
#[derive(Debug, Clone, Default)]
pub struct ArchiveConfig {
    pub name: String,
    pub targets: Vec<WatchTarget>,
    pub after_days: u32,
    pub format: ArchiveFormat,
    pub bundle: BundleKind,
    pub bundle_timezone: Option<String>,
    pub keep_original: bool,
    pub on_stale_bundle_member: OnStaleBundleMember,
}

#[derive(Debug, Clone, Copy, PartialEq, Eq, Structural, Default)]
pub enum ArchiveFormat {
    #[default]
    Gzip,
    Zip,
    TarGz,
}

#[derive(Debug, Clone, Copy, PartialEq, Eq, Structural, Default)]
pub enum BundleKind {
    #[default]
    Unbundled,
    Daily,
    Weekly,
    Monthly,
}

#[derive(Debug, Clone, Copy, PartialEq, Eq, Structural, Default)]
pub enum OnStaleBundleMember {
    #[default]
    Warn,
    Error,
}

/// The settings of a relocate stage.
#[derive(Debug, Clone, Default)]
pub struct RelocateConfig {
    pub targets: Vec<WatchTarget>,
    pub after_days: u32,
    pub destination: Option<String>,
    pub layout: LayoutKind,
    pub on_conflict: ConflictPolicy,
}

#[derive(Debug, Clone, Copy, PartialEq, Eq, Structural, Default)]
pub enum LayoutKind {
    #[default]
    Preserve,
    YearMonth,
}

#[derive(Debug, Clone, Copy, PartialEq, Eq, Structural, Default)]
pub enum ConflictPolicy {
    #[default]
    Rename,
    Skip,
    Error,
}

/// The settings of a delete stage.
#[derive(Debug, Clone, Default)]
pub struct DeleteConfig {
    pub targets: Vec<WatchTarget>,
    pub after_days: u32,
    pub safety_brake: SafetyBrakeConfig,
}

/// The thresholds of the delete safety brake. The size threshold is held
/// in bytes: the brake's size check is exceeded when the total size of the
/// files is above `size_threshold_bytes`.
#[derive(Debug, Clone, Copy, Default)]
pub struct SafetyBrakeConfig {
    pub enforce: bool,
    pub count_threshold: Option<u64>,
    pub size_threshold_bytes: Option<i128>,
}

/// A warning found by the validation.
#[derive(Debug, Clone, PartialEq, Eq)]
pub struct ValidationWarning(pub String);

/// The identifier derived from a `basedir`: backslashes become slashes, the
/// leading and trailing slashes are dropped, and the remaining slashes
/// become dashes; `"root"` when nothing is left.
pub open spec fn derived_target_name(basedir: Seq<char>) -> Seq<char> {
    let t = trim_trailing(trim_leading(replace_char(basedir, '\\', '/'), '/'), '/');
    if t.len() == 0 {
        "root"@
    } else {
        replace_char(t, '/', '-')
    }
}

/// The name of a target: its own when given, else the one derived from `basedir`.
pub open spec fn spec_resolved_name(t: WatchTarget) -> Seq<char> {
    match t.name {
        Some(n) => n@,
        None => derived_target_name(t.basedir@),
    }
}

/// Whether `e` is an `Invalid` error for `job` with the reason `reason`.
pub open spec fn is_invalid(e: ConfigError, job: Seq<char>, reason: Seq<char>) -> bool {
    e matches ConfigError::Invalid { job: j, reason: r } && j@ == job && r@ == reason
}

/// The reason given when a target's `basedir` cannot be resolved.
pub open spec fn basedir_reason(basedir: Seq<char>, cause: Seq<char>) -> Seq<char> {
    "basedir \""@ + basedir + "\" is not accessible: "@ + cause
}

/// The reason given when a stage has no targets.
pub open spec fn no_targets_reason(stage_kind: Seq<char>) -> Seq<char> {
    stage_kind + ".targets must not be empty"@
}

/// The reason given when two targets of a bundling archive stage share a name.
pub open spec fn duplicate_reason(archive_name: Seq<char>, name: Seq<char>) -> Seq<char> {
    "archive \""@ + archive_name + "\": duplicate target name \""@ + name
        + "\" among targets (bundle mode requires unique target names, BR-2.2)"@
}

/// The reason given when a relocate stage has no destination.
pub open spec fn no_destination_reason() -> Seq<char> {
    "relocate.destination is required"@
}

/// The warning given for a job without stages.
pub open spec fn no_stages_warning(job: Seq<char>) -> Seq<char> {
    "job \""@ + job + "\": has no stages configured (archive/relocate/delete)"@
}

/// The position of the first name that equals an earlier one.
pub open spec fn first_duplicate(names: Seq<Seq<char>>) -> Option<int>
    decreases names.len(),
{
    if names.len() == 0 {
        None
    } else {
        match first_duplicate(names.drop_last()) {
            Some(k) => Some(k),
            None => if names.drop_last().contains(names.last()) {
                Some(names.len() - 1)
            } else {
                None
            },
        }
    }
}

/// The resolved names of targets.
pub open spec fn resolved_names(targets: Seq<WatchTarget>) -> Seq<Seq<char>> {
    Seq::new(targets.len(), |i: int| spec_resolved_name(targets[i]))
}

/// The error message for the `j`-th target, if its `basedir` could not be resolved.
pub open spec fn probe_error(errs: Seq<Option<Seq<char>>>, j: int) -> Option<Seq<char>> {
    if 0 <= j < errs.len() {
        errs[j]
    } else {
        None
    }
}

/// The reason for the first of `targets[..k]` whose `basedir` could not be resolved.
pub open spec fn first_basedir_failure(targets: Seq<WatchTarget>, errs: Seq<Option<Seq<char>>>, k: nat) -> Option<Seq<char>>
    decreases k,
{
    if k == 0 {
        None
    } else {
        match first_basedir_failure(targets, errs, (k - 1) as nat) {
            Some(r) => Some(r),
            None => match probe_error(errs, k - 1) {
                Some(m) => Some(basedir_reason(targets[k - 1].basedir@, m)),
                None => None,
            },
        }
    }
}

/// The checks common to every stage: targets present, and each `basedir` resolved.
pub open spec fn targets_failure(stage_kind: Seq<char>, targets: Seq<WatchTarget>, errs: Seq<Option<Seq<char>>>) -> Option<Seq<char>> {
    if targets.len() == 0 {
        Some(no_targets_reason(stage_kind))
    } else {
        first_basedir_failure(targets, errs, targets.len())
    }
}

/// The reason why a stage is invalid, if it is.
pub open spec fn stage_failure(stage: StageConfig, errs: Seq<Option<Seq<char>>>) -> Option<Seq<char>> {
    match stage {
        StageConfig::Archive(a) => match targets_failure("archive"@, a.targets@, errs) {
            Some(r) => Some(r),
            None => if a.bundle != BundleKind::Unbundled {
                match first_duplicate(resolved_names(a.targets@)) {
                    Some(k) => Some(duplicate_reason(a.name@, resolved_names(a.targets@)[k])),
                    None => None,
                }
            } else {
                None
            },
        },
        StageConfig::Relocate(r) => match targets_failure("relocate"@, r.targets@, errs) {
            Some(x) => Some(x),
            None => if r.destination is None {
                Some(no_destination_reason())
            } else {
                None
            },
        },
        StageConfig::Delete(d) => targets_failure("delete"@, d.targets@, errs),
    }
}

/// The table of `basedir` errors, by stage and target.
pub open spec fn error_table(v: Seq<Vec<Option<String>>>) -> Seq<Seq<Option<Seq<char>>>> {
    Seq::new(v.len(), |i: int| opt_views(v[i]@))
}

/// The errors of the `i`-th stage's targets.
pub open spec fn stage_errors(table: Seq<Seq<Option<Seq<char>>>>, i: int) -> Seq<Option<Seq<char>>> {
    if 0 <= i < table.len() {
        table[i]
    } else {
        seq![]
    }
}

/// The reason for the first invalid stage among `stages[..k]`.
pub open spec fn job_failure(stages: Seq<StageConfig>, table: Seq<Seq<Option<Seq<char>>>>, k: nat) -> Option<Seq<char>>
    decreases k,
{
    if k == 0 {
        None
    } else {
        match job_failure(stages, table, (k - 1) as nat) {
            Some(r) => Some(r),
            None => stage_failure(stages[k - 1], stage_errors(table, k - 1)),
        }
    }
}

/// The warnings of a valid job.
pub open spec fn job_warnings(job: JobConfig) -> Seq<Seq<char>> {
    if job.stages@.len() == 0 {
        seq![no_stages_warning(job.name@)]
    } else {
        seq![]
    }
}

/// The texts of warnings.
pub open spec fn warning_texts(w: Seq<ValidationWarning>) -> Seq<Seq<char>> {
    Seq::new(w.len(), |i: int| w[i].0@)
}

fn invalid(job_name: &str, reason: Vec<char>) -> (e: ConfigError)
    ensures
        is_invalid(e, job_name@, reason@),
{
    ConfigError::Invalid { job: job_name.to_owned(), reason: string_of(&reason) }
}

fn derive_target_name(basedir: &str) -> (r: String)
    ensures
        r@ == derived_target_name(basedir@),
{
    let normalized = replaced(&chars_of(basedir), '\\', '/');
    let t = trimmed(&normalized, '/');
    if t.len() == 0 {
        "root".to_owned()
    } else {
        string_of(&replaced(&t, '/', '-'))
    }
}

impl WatchTarget {
    /// The target's name, or when it has none, one derived from `basedir`
    /// (`/var/log/app` gives `var-log-app`).
    pub fn resolved_name(&self) -> (r: String)
        ensures
            r@ == spec_resolved_name(*self),
    {
        match &self.name {
            Some(name) => name.clone(),
            None => derive_target_name(self.basedir.as_str()),
        }
    }

    /// The resolved `basedir`, given the outcome of resolving it on disk:
    /// the resolved path, or the message of the failure, which becomes an
    /// `Invalid` error of the job.
    pub fn canonical_basedir(&self, job_name: &str, resolved: Result<String, String>) -> (r: Result<String, ConfigError>)
        ensures
            resolved matches Ok(p) ==> r == Ok::<String, ConfigError>(p),
            resolved matches Err(m) ==> r matches Err(e) && is_invalid(e, job_name@, basedir_reason(self.basedir@, m@)),
    {
        match resolved {
            Ok(p) => Ok(p),
            Err(m) => {
                let mut reason: Vec<char> = Vec::new();
                push_str(&mut reason, "basedir \"");
                push_str(&mut reason, self.basedir.as_str());
                push_str(&mut reason, "\" is not accessible: ");
                push_str(&mut reason, m.as_str());
                Err(invalid(job_name, reason))
            },
        }
    }
}

/// Whether the resolved `candidate` lies under the resolved `basedir`,
/// component by component (a guard against paths that escape it).
pub fn is_within_basedir(basedir: &str, candidate: &str) -> (r: bool)
    ensures
        r == spec_starts_with(candidate@, basedir@),
{
    starts_with(candidate, basedir)
}

/// Rejects a stage without targets.
pub fn validate_targets_present(job_name: &str, stage_kind: &str, targets: &Vec<WatchTarget>) -> (r: Result<(), ConfigError>)
    ensures
        r is Ok <==> targets@.len() > 0,
        r matches Err(e) ==> is_invalid(e, job_name@, no_targets_reason(stage_kind@)),
{
    if targets.len() == 0 {
        let mut reason: Vec<char> = Vec::new();
        push_str(&mut reason, stage_kind);
        push_str(&mut reason, ".targets must not be empty");
        return Err(invalid(job_name, reason));
    }
    Ok(())
}

/// Rejects a bundling archive stage two of whose targets resolve to the same name.
pub fn validate_unique_target_names(job_name: &str, archive_name: &str, targets: &Vec<WatchTarget>) -> (r: Result<(), ConfigError>)
    ensures
        r is Ok <==> first_duplicate(resolved_names(targets@)) is None,
        r matches Err(e) ==> first_duplicate(resolved_names(targets@)) matches Some(k)
            && is_invalid(e, job_name@, duplicate_reason(archive_name@, resolved_names(targets@)[k])),
{
    let ghost all = resolved_names(targets@);
    let mut names: Vec<Vec<char>> = Vec::new();
    let mut j: usize = 0;
    while j < targets.len()
        invariant
            j <= targets@.len(),
            all == resolved_names(targets@),
            names@.len() == j,
            forall|i: int| 0 <= i < j ==> #[trigger] names@[i]@ == all[i],
            first_duplicate(all.take(j as int)) is None,
        decreases targets@.len() - j,
    {
        let name = chars_of(targets[j].resolved_name().as_str());
        let mut i: usize = 0;
        while i < j
            invariant
                i <= j < targets@.len(),
                all == resolved_names(targets@),
                names@.len() == j,
                name@ == all[j as int],
                forall|x: int| 0 <= x < j ==> #[trigger] names@[x]@ == all[x],
                forall|x: int| 0 <= x < i ==> all[x] != all[j as int],
                first_duplicate(all.take(j as int)) is None,
            decreases j - i,
        {
            if chars_eq(&names[i], &name) {
                proof {
                    let t = all.take(j + 1);
                    assert(t.drop_last() =~= all.take(j as int));
                    assert(t.drop_last()[i as int] == t.last());
                    assert(t.drop_last().contains(t.last()));
                    assert(first_duplicate(t) == Some(j as int));
                    assert(first_duplicate(all) == Some(j as int)) by {
                        lemma_first_duplicate_prefix(all, j + 1);
                    }
                }
                let mut reason: Vec<char> = Vec::new();
                push_str(&mut reason, "archive \"");
                push_str(&mut reason, archive_name);
                push_str(&mut reason, "\": duplicate target name \"");
                push_chars(&mut reason, &name);
                push_str(&mut reason, "\" among targets (bundle mode requires unique target names, BR-2.2)");
                return Err(invalid(job_name, reason));
            }
            i = i + 1;
        }
        proof {
            let t = all.take(j + 1);
            assert(t.drop_last() =~= all.take(j as int));
            assert(!t.drop_last().contains(t.last()));
        }
        names.push(name);
        j = j + 1;
    }
    assert(all.take(j as int) =~= all);
    Ok(())
}

fn check_basedirs(job_name: &str, targets: &Vec<WatchTarget>, errs: &Vec<Option<String>>) -> (r: Result<(), ConfigError>)
    ensures
        r is Ok <==> first_basedir_failure(targets@, opt_views(errs@), targets@.len()) is None,
        r matches Err(e) ==> first_basedir_failure(targets@, opt_views(errs@), targets@.len()) matches Some(reason)
            && is_invalid(e, job_name@, reason),
{
    let ghost ev = opt_views(errs@);
    let mut j: usize = 0;
    while j < targets.len()
        invariant
            j <= targets@.len(),
            ev == opt_views(errs@),
            first_basedir_failure(targets@, ev, j as nat) is None,
        decreases targets@.len() - j,
    {
        if j < errs.len() {
            match &errs[j] {
                Some(m) => {
                    let target = &targets[j];
                    let r = target.canonical_basedir(job_name, Err(m.clone()));
                    proof {
                        assert(probe_error(ev, j as int) == Some(m@));
                        assert(first_basedir_failure(targets@, ev, (j + 1) as nat)
                            == Some(basedir_reason(targets@[j as int].basedir@, m@)));
                        lemma_first_basedir_failure_stays(targets@, ev, (j + 1) as nat, targets@.len());
                    }
                    match r {
                        Err(e) => {
                            return Err(e);
                        },
                        Ok(_) => {
                            assert(false);
                        },
                    }
                },
                None => {
                    assert(probe_error(ev, j as int) is None);
                },
            }
        } else {
            assert(probe_error(ev, j as int) is None);
        }
        j = j + 1;
    }
    Ok(())
}

proof fn lemma_first_basedir_failure_stays(targets: Seq<WatchTarget>, errs: Seq<Option<Seq<char>>>, k: nat, n: nat)
    requires
        k <= n,
        first_basedir_failure(targets, errs, k) is Some,
    ensures
        first_basedir_failure(targets, errs, n) == first_basedir_failure(targets, errs, k),
    decreases n - k,
{
    if k < n {
        lemma_first_basedir_failure_stays(targets, errs, k, (n - 1) as nat);
    }
}

fn check_targets(job_name: &str, stage_kind: &str, targets: &Vec<WatchTarget>, errs: &Vec<Option<String>>) -> (r: Result<(), ConfigError>)
    ensures
        r is Ok <==> targets_failure(stage_kind@, targets@, opt_views(errs@)) is None,
        r matches Err(e) ==> targets_failure(stage_kind@, targets@, opt_views(errs@)) matches Some(reason)
            && is_invalid(e, job_name@, reason),
{
    match validate_targets_present(job_name, stage_kind, targets) {
        Err(e) => Err(e),
        Ok(()) => check_basedirs(job_name, targets, errs),
    }
}

/// Checks one stage (see [`stage_failure`]).
fn validate_stage(job_name: &str, stage: &StageConfig, errs: &Vec<Option<String>>) -> (r: Result<(), ConfigError>)
    ensures
        r is Ok <==> stage_failure(*stage, opt_views(errs@)) is None,
        r matches Err(e) ==> stage_failure(*stage, opt_views(errs@)) matches Some(reason)
            && is_invalid(e, job_name@, reason),
{
    match stage {
        StageConfig::Archive(archive) => {
            check_targets(job_name, "archive", &archive.targets, errs)?;
            if archive.bundle != BundleKind::Unbundled {
                validate_unique_target_names(job_name, archive.name.as_str(), &archive.targets)?;
            }
            Ok(())
        },
        StageConfig::Relocate(relocate) => {
            check_targets(job_name, "relocate", &relocate.targets, errs)?;
            if relocate.destination.is_none() {
                let mut reason: Vec<char> = Vec::new();
                push_str(&mut reason, "relocate.destination is required");
                return Err(invalid(job_name, reason));
            }
            Ok(())
        },
        StageConfig::Delete(delete) => check_targets(job_name, "delete", &delete.targets, errs),
    }
}

proof fn lemma_job_failure_stays(stages: Seq<StageConfig>, table: Seq<Seq<Option<Seq<char>>>>, k: nat, n: nat)
    requires
        k <= n,
        job_failure(stages, table, k) is Some,
    ensures
        job_failure(stages, table, n) == job_failure(stages, table, k),
    decreases n - k,
{
    if k < n {
        lemma_job_failure_stays(stages, table, k, (n - 1) as nat);
    }
}

/// Validates one job: a job without stages gets a warning; a stage without
/// targets, a target whose `basedir` could not be resolved, two targets of
/// a bundling archive stage with the same resolved name, and a relocate
/// stage without destination are errors. The first error is returned.
///
/// `basedir_errors[i][j]` is the message of the failure to resolve the
/// `basedir` of the `j`-th target of the `i`-th stage, if it failed; a
/// missing entry counts as resolved.
pub fn validate_job(job: &JobConfig, basedir_errors: &Vec<Vec<Option<String>>>) -> (r: Result<Vec<ValidationWarning>, ConfigError>)
    ensures
        r is Ok <==> job_failure(job.stages@, error_table(basedir_errors@), job.stages@.len()) is None,
        r matches Ok(w) ==> warning_texts(w@) == job_warnings(*job),
        r matches Err(e) ==> job_failure(job.stages@, error_table(basedir_errors@), job.stages@.len()) matches Some(reason)
            && is_invalid(e, job.name@, reason),
{
    let mut warnings: Vec<ValidationWarning> = Vec::new();
    if job.stages.len() == 0 {
        let mut text: Vec<char> = Vec::new();
        push_str(&mut text, "job \"");
        push_str(&mut text, job.name.as_str());
        push_str(&mut text, "\": has no stages configured (archive/relocate/delete)");
        warnings.push(ValidationWarning(string_of(&text)));
        assert(warning_texts(warnings@) =~= job_warnings(*job));
    } else {
        assert(warning_texts(warnings@) =~= job_warnings(*job));
    }
    let ghost table = error_table(basedir_errors@);
    let empty: Vec<Option<String>> = Vec::new();
    let mut i: usize = 0;
    while i < job.stages.len()
        invariant
            i <= job.stages@.len(),
            table == error_table(basedir_errors@),
            empty@.len() == 0,
            job_failure(job.stages@, table, i as nat) is None,
            warning_texts(warnings@) == job_warnings(*job),
        decreases job.stages@.len() - i,
    {
        let errs = if i < basedir_errors.len() { &basedir_errors[i] } else { &empty };
        assert(opt_views(errs@) =~= stage_errors(table, i as int));
        match validate_stage(job.name.as_str(), &job.stages[i], errs) {
            Err(e) => {
                proof {
                    lemma_job_failure_stays(job.stages@, table, (i + 1) as nat, job.stages@.len());
                }
                return Err(e);
            },
            Ok(()) => {},
        }
        i = i + 1;
    }
    Ok(warnings)
}

/// The warnings of all jobs, in order.
pub open spec fn all_warnings(jobs: Seq<JobConfig>) -> Seq<Seq<char>>
    decreases jobs.len(),
{
    if jobs.len() == 0 {
        seq![]
    } else {
        all_warnings(jobs.drop_last()) + job_warnings(jobs.last())
    }
}

/// The basedir error table of the `i`-th job.
pub open spec fn job_errors(v: Seq<Vec<Vec<Option<String>>>>, i: int) -> Seq<Vec<Option<String>>> {
    if 0 <= i < v.len() {
        v[i]@
    } else {
        seq![]
    }
}

/// The first invalid job among `jobs[..k]`, with the reason.
pub open spec fn root_failure(jobs: Seq<JobConfig>, v: Seq<Vec<Vec<Option<String>>>>, k: nat) -> Option<(Seq<char>, Seq<char>)>
    decreases k,
{
    if k == 0 {
        None
    } else {
        match root_failure(jobs, v, (k - 1) as nat) {
            Some(x) => Some(x),
            None => match job_failure(jobs[k - 1].stages@, error_table(job_errors(v, k - 1)), jobs[k - 1].stages@.len()) {
                Some(reason) => Some((jobs[k - 1].name@, reason)),
                None => None,
            },
        }
    }
}

proof fn lemma_root_failure_stays(jobs: Seq<JobConfig>, v: Seq<Vec<Vec<Option<String>>>>, k: nat, n: nat)
    requires
        k <= n,
        root_failure(jobs, v, k) is Some,
    ensures
        root_failure(jobs, v, n) == root_failure(jobs, v, k),
    decreases n - k,
{
    if k < n {
        lemma_root_failure_stays(jobs, v, k, (n - 1) as nat);
    }
}

impl RootConfig {
    /// Validates every job (see [`validate_job`]) and returns their warnings,
    /// or the first error. `basedir_errors[k]` is the table of the `k`-th job.
    pub fn validate(&self, basedir_errors: &Vec<Vec<Vec<Option<String>>>>) -> (r: Result<Vec<ValidationWarning>, ConfigError>)
        ensures
            r is Ok <==> root_failure(self.jobs@, basedir_errors@, self.jobs@.len()) is None,
            r matches Ok(w) ==> warning_texts(w@) == all_warnings(self.jobs@),
            r matches Err(e) ==> root_failure(self.jobs@, basedir_errors@, self.jobs@.len()) matches Some((job, reason))
                && is_invalid(e, job, reason),
    {
        let mut warnings: Vec<ValidationWarning> = Vec::new();
        let empty: Vec<Vec<Option<String>>> = Vec::new();
        let mut k: usize = 0;
        assert(warning_texts(warnings@) =~= all_warnings(self.jobs@.take(0)));
        while k < self.jobs.len()
            invariant
                k <= self.jobs@.len(),
                empty@.len() == 0,
                root_failure(self.jobs@, basedir_errors@, k as nat) is None,
                warning_texts(warnings@) == all_warnings(self.jobs@.take(k as int)),
            decreases self.jobs@.len() - k,
        {
            let errs = if k < basedir_errors.len() { &basedir_errors[k] } else { &empty };
            assert(errs@ == job_errors(basedir_errors@, k as int));
            match validate_job(&self.jobs[k], errs) {
                Err(e) => {
                    proof {
                        lemma_root_failure_stays(self.jobs@, basedir_errors@, (k + 1) as nat, self.jobs@.len());
                    }
                    return Err(e);
                },
                Ok(w) => {
                    let mut w = w;
                    let ghost before = warnings@;
                    let ghost added = w@;
                    warnings.append(&mut w);
                    proof {
                        let t = self.jobs@.take(k + 1);
                        assert(t.drop_last() =~= self.jobs@.take(k as int));
                        assert(warnings@ =~= before + added);
                        assert(warning_texts(warnings@) =~= warning_texts(before) + warning_texts(added));
                    }
                },
            }
            k = k + 1;
        }
        assert(self.jobs@.take(k as int) =~= self.jobs@);
        Ok(warnings)
    }
}

/// The edit distance between two texts: the fewest insertions, deletions
/// and substitutions of characters that turn one into the other.
pub open spec fn lev(a: Seq<char>, b: Seq<char>) -> nat
    decreases a.len() + b.len(),
{
    if a.len() == 0 {
        b.len()
    } else if b.len() == 0 {
        a.len()
    } else {
        let del = lev(a.drop_last(), b) + 1;
        let ins = lev(a, b.drop_last()) + 1;
        let sub = lev(a.drop_last(), b.drop_last()) + (if a.last() == b.last() { 0nat } else { 1nat });
        let m = if del <= ins { del } else { ins };
        if m <= sub { m } else { sub }
    }
}

proof fn lemma_lev_bound(a: Seq<char>, b: Seq<char>)
    ensures
        lev(a, b) <= (if a.len() >= b.len() { a.len() } else { b.len() }),
    decreases a.len() + b.len(),
{
    if a.len() > 0 && b.len() > 0 {
        lemma_lev_bound(a.drop_last(), b.drop_last());
    }
}

/// The edit distance is symmetric: turning `a` into `b` costs as much as
/// turning `b` into `a`.
pub proof fn law_edit_distance_is_symmetric(a: Seq<char>, b: Seq<char>)
    ensures
        lev(a, b) == lev(b, a),
    decreases a.len() + b.len(),
{
    if a.len() > 0 && b.len() > 0 {
        law_edit_distance_is_symmetric(a.drop_last(), b);
        law_edit_distance_is_symmetric(a, b.drop_last());
        law_edit_distance_is_symmetric(a.drop_last(), b.drop_last());
    }
}

/// Two texts are at distance zero exactly when they are equal.
pub proof fn law_edit_distance_zero_iff_equal(a: Seq<char>, b: Seq<char>)
    ensures
        lev(a, b) == 0 <==> a == b,
    decreases a.len() + b.len(),
{
    if a.len() > 0 && b.len() > 0 {
        law_edit_distance_zero_iff_equal(a.drop_last(), b.drop_last());
        if a == b {
            assert(a.drop_last() == b.drop_last());
        }
        if lev(a, b) == 0 {
            assert(a.drop_last() == b.drop_last());
            assert(a =~= a.drop_last().push(a.last()));
            assert(b =~= b.drop_last().push(b.last()));
        }
    } else if a.len() == 0 && b.len() == 0 {
        assert(a =~= b);
    }
}

/// The distance is at least the difference of the lengths (in characters)
/// and at most the longer length.
pub proof fn law_edit_distance_length_bounds(a: Seq<char>, b: Seq<char>)
    ensures
        a.len() - b.len() <= lev(a, b),
        b.len() - a.len() <= lev(a, b),
        lev(a, b) <= (if a.len() >= b.len() { a.len() } else { b.len() }),
    decreases a.len() + b.len(),
{
    lemma_lev_bound(a, b);
    if a.len() > 0 && b.len() > 0 {
        law_edit_distance_length_bounds(a.drop_last(), b);
        law_edit_distance_length_bounds(a, b.drop_last());
        law_edit_distance_length_bounds(a.drop_last(), b.drop_last());
    }
}

/// The triangle inequality: going from `a` to `c` by way of `b` never
/// costs less than going straight.
pub proof fn law_edit_distance_triangle(a: Seq<char>, b: Seq<char>, c: Seq<char>)
    ensures
        lev(a, c) <= lev(a, b) + lev(b, c),
    decreases a.len() + b.len() + c.len(),
{
    if a.len() == 0 {
        law_edit_distance_length_bounds(b, c);
    } else if c.len() == 0 {
        law_edit_distance_length_bounds(a, b);
    } else if b.len() == 0 {
        lemma_lev_bound(a, c);
    } else {
        let a1 = a.drop_last();
        let b1 = b.drop_last();
        let c1 = c.drop_last();
        law_edit_distance_triangle(a1, b, c);
        law_edit_distance_triangle(a, b, c1);
        law_edit_distance_triangle(a, b1, c);
        law_edit_distance_triangle(a, b1, c1);
        law_edit_distance_triangle(a1, b1, c);
        law_edit_distance_triangle(a1, b1, c1);
    }
}

/// The edit distance between `a` and `b` (see [`lev`]).
pub fn levenshtein(a: &str, b: &str) -> (r: usize)
    requires
        a@.len() < usize::MAX,
        b@.len() < usize::MAX,
    ensures
        r == lev(a@, b@),
{
    let a = chars_of(a);
    let b = chars_of(b);
    let m = b.len();
    let mut prev: Vec<usize> = Vec::new();
    let mut j: usize = 0;
    while j <= m
        invariant
            j <= m + 1,
            m == b@.len(),
            m < usize::MAX,
            prev@.len() == j,
            forall|x: int| 0 <= x < j ==> prev@[x] == lev(a@.take(0), b@.take(x)),
        decreases m + 1 - j,
    {
        proof {
            assert(a@.take(0).len() == 0);
        }
        prev.push(j);
        j = j + 1;
    }
    let mut i: usize = 1;
    while i <= a.len()
        invariant
            1 <= i <= a@.len() + 1,
            a@.len() < usize::MAX,
            m == b@.len(),
            m < usize::MAX,
            prev@.len() == m + 1,
            forall|x: int| 0 <= x <= m ==> prev@[x] == lev(a@.take(i - 1), b@.take(x)),
        decreases a@.len() + 1 - i,
    {
        let ghost ai = a@.take(i as int);
        proof {
            assert(ai.drop_last() =~= a@.take(i - 1));
            assert(b@.take(0).len() == 0);
        }
        let mut cur: Vec<usize> = Vec::new();
        cur.push(i);
        let mut j: usize = 1;
        while j <= m
            invariant
                1 <= i <= a@.len(),
                a@.len() < usize::MAX,
                1 <= j <= m + 1,
                m == b@.len(),
                m < usize::MAX,
                ai == a@.take(i as int),
                ai.drop_last() == a@.take(i - 1),
                prev@.len() == m + 1,
                forall|x: int| 0 <= x <= m ==> prev@[x] == lev(a@.take(i - 1), b@.take(x)),
                cur@.len() == j,
                forall|x: int| 0 <= x < j ==> cur@[x] == lev(ai, b@.take(x)),
            decreases m + 1 - j,
        {
            let ghost bj = b@.take(j as int);
            proof {
                assert(bj.drop_last() =~= b@.take(j - 1));
                assert(ai.last() == a@[i - 1]);
                assert(bj.last() == b@[j - 1]);
                lemma_lev_bound(ai.drop_last(), bj);
                lemma_lev_bound(ai, bj.drop_last());
                lemma_lev_bound(ai.drop_last(), bj.drop_last());
            }
            let cost: usize = if a[i - 1] == b[j - 1] { 0 } else { 1 };
            let del = prev[j] + 1;
            let ins = cur[j - 1] + 1;
            let sub = prev[j - 1] + cost;
            let mn = if del <= ins { del } else { ins };
            let v = if mn <= sub { mn } else { sub };
            cur.push(v);
            j = j + 1;
        }
        prev = cur;
        i = i + 1;
    }
    assert(a@.take(a@.len() as int) =~= a@);
    assert(b@.take(m as int) =~= b@);
    prev[m]
}

/// The regular expression that finds an unknown field in a parser message.
pub open spec fn unknown_field_pattern() -> Seq<char> {
    "unknown field `([^`]+)`, expected (?:one of )?(.+)"@
}

/// The regular expression that finds each expected field name.
pub open spec fn field_name_pattern() -> Seq<char> {
    "`([^`]+)`"@
}

/// The suggestion made when no field name is close enough.
pub open spec fn fallback_suggestion() -> Seq<char> {
    "one of the documented fields (see `neatnik init` for a sample)"@
}

/// The first group of each match that has one.
pub open spec fn first_groups(all: Seq<Seq<Option<Seq<char>>>>) -> Seq<Seq<char>>
    decreases all.len(),
{
    if all.len() == 0 {
        seq![]
    } else {
        let rest = first_groups(all.drop_last());
        let c = all.last();
        if c.len() > 1 && c[1] is Some {
            rest.push(c[1].unwrap())
        } else {
            rest
        }
    }
}

/// The position of the first candidate at the smallest distance from `field`.
pub open spec fn closest_index(field: Seq<char>, cands: Seq<Seq<char>>) -> Option<int>
    decreases cands.len(),
{
    if cands.len() == 0 {
        None
    } else {
        match closest_index(field, cands.drop_last()) {
            None => Some(cands.len() - 1),
            Some(k) => if lev(field, cands.last()) < lev(field, cands[k]) {
                Some(cands.len() - 1)
            } else {
                Some(k)
            },
        }
    }
}

/// The candidate closest to `field` when it is within three edits, else the fallback text.
pub open spec fn suggestion_for(field: Seq<char>, cands: Seq<Seq<char>>) -> Seq<char> {
    match closest_index(field, cands) {
        Some(k) => if lev(field, cands[k]) <= 3 { cands[k] } else { fallback_suggestion() },
        None => fallback_suggestion(),
    }
}

/// The unknown field named in a parser message, and the suggestion for it.
pub open spec fn spec_unknown_field(message: Seq<char>) -> Option<(Seq<char>, Seq<char>)> {
    if !regex_compiles(unknown_field_pattern()) {
        None
    } else {
        match regex_captures(unknown_field_pattern(), message) {
            None => None,
            Some(g) => if g.len() <= 2 || g[1] is None || g[2] is None || !regex_compiles(field_name_pattern()) {
                None
            } else {
                let field = g[1].unwrap();
                let cands = first_groups(regex_all_captures(field_name_pattern(), g[2].unwrap()));
                Some((field, suggestion_for(field, cands)))
            },
        }
    }
}

/// Reads a parser message of the form "unknown field `x`, expected one of
/// `a`, `b`, ..." and suggests the expected field closest to `x` (within
/// three edits). Messages of another form give none. The field names come
/// from the first group of each match of the name pattern; a match
/// without that group is passed over.
pub fn unknown_field_error(message: &str) -> (r: Option<ConfigError>)
    requires
        message@.len() < usize::MAX,
    ensures
        match spec_unknown_field(message@) {
            None => r is None,
            Some((field, suggestion)) => r matches Some(ConfigError::UnknownField { field: f, suggestion: s })
                && f@ == field && s@ == suggestion,
        },
{
    let field_re = match CompiledRegex::new("unknown field `([^`]+)`, expected (?:one of )?(.+)") {
        Some(re) => re,
        None => return None,
    };
    let groups = match field_re.captures(message) {
        Some(g) => g,
        None => return None,
    };
    if groups.len() <= 2 {
        return None;
    }
    let field = match &groups[1] {
        Some(f) => f.clone(),
        None => return None,
    };
    let rest = match &groups[2] {
        Some(t) => t.clone(),
        None => return None,
    };
    proof {
        let gv = crate::text::opt_views(groups@);
        assert(gv[1] == Some(field@));
        assert(gv[2] == Some(rest@));
    }
    let candidate_re = match CompiledRegex::new("`([^`]+)`") {
        Some(re) => re,
        None => return None,
    };
    let all = candidate_re.captures_all(rest.as_str());
    let ghost all_view = regex_all_captures(field_name_pattern(), rest@);
    let mut cands: Vec<String> = Vec::new();
    let mut k: usize = 0;
    while k < all.len()
        invariant
            k <= all@.len(),
            all@.len() == all_view.len(),
            forall|x: int| 0 <= x < all@.len() ==> crate::text::opt_views(#[trigger] all@[x]@) == all_view[x],
            crate::text::string_views(cands@) == first_groups(all_view.take(k as int)),
            rest@.len() < usize::MAX,
            forall|x: int| 0 <= x < all@.len() ==> crate::pattern::groups_within(crate::text::opt_views(#[trigger] all@[x]@), rest@.len() as int),
            forall|x: int| 0 <= x < cands@.len() ==> (#[trigger] cands@[x])@.len() < usize::MAX,
        decreases all@.len() - k,
    {
        let c = &all[k];
        proof {
            let t = all_view.take(k + 1);
            assert(t.drop_last() =~= all_view.take(k as int));
            assert(t.last() == all_view[k as int]);
            assert(crate::text::opt_views(c@) == all_view[k as int]);
        }
        if c.len() > 1 {
            match &c[1] {
                Some(name) => {
                    proof {
                        let cv = crate::text::opt_views(c@);
                        assert(cv[1] == Some(name@));
                    }
                    let ghost before = cands@;
                    cands.push(name.clone());
                    assert(crate::text::string_views(cands@) =~= crate::text::string_views(before).push(name@));
                },
                None => {},
            }
        }
        k = k + 1;
    }
    assert(all_view.take(k as int) =~= all_view);
    let ghost cv = crate::text::string_views(cands@);
    // the closest candidate, the first one on ties
    let mut best: Option<usize> = None;
    let mut best_distance: usize = 0;
    let mut i: usize = 0;
    while i < cands.len()
        invariant
            i <= cands@.len(),
            cv == crate::text::string_views(cands@),
            field@.len() < usize::MAX,
            forall|x: int| 0 <= x < cands@.len() ==> (#[trigger] cands@[x])@.len() < usize::MAX,
            match best {
                None => closest_index(field@, cv.take(i as int)) is None,
                Some(b) => closest_index(field@, cv.take(i as int)) == Some(b as int)
                    && b < i && best_distance == lev(field@, cv[b as int]),
            },
        decreases cands@.len() - i,
    {
        let d = levenshtein(field.as_str(), cands[i].as_str());
        proof {
            let t = cv.take(i + 1);
            assert(t.drop_last() =~= cv.take(i as int));
            assert(t.last() == cv[i as int]);
            match best {
                Some(b) => { assert(t[b as int] == cv[b as int]); },
                None => {},
            }
        }
        match best {
            None => {
                best = Some(i);
                best_distance = d;
            },
            Some(_) => {
                if d < best_distance {
                    best = Some(i);
                    best_distance = d;
                }
            },
        }
        i = i + 1;
    }
    assert(cv.take(i as int) =~= cv);
    let suggestion = match best {
        Some(b) => if best_distance <= 3 {
            cands[b].clone()
        } else {
            "one of the documented fields (see `neatnik init` for a sample)".to_owned()
        },
        None => "one of the documented fields (see `neatnik init` for a sample)".to_owned(),
    };
    Some(ConfigError::UnknownField { field, suggestion })
}

proof fn lemma_first_duplicate_prefix(names: Seq<Seq<char>>, k: int)
    requires
        0 <= k <= names.len(),
        first_duplicate(names.take(k)) is Some,
    ensures
        first_duplicate(names) == first_duplicate(names.take(k)),
    decreases names.len() - k,
{
    if k < names.len() {
        assert(names.drop_last().take(k) =~= names.take(k));
        lemma_first_duplicate_prefix(names.drop_last(), k);
    } else {
        assert(names.take(k) =~= names);
    }
}

proof fn lemma_first_duplicate_found(names: Seq<Seq<char>>, i: int, j: int)
    requires
        0 <= i < j < names.len(),
        names[i] == names[j],
    ensures
        first_duplicate(names) is Some,
    decreases names.len(),
{
    let t = names.drop_last();
    if j < names.len() - 1 {
        assert(t[i] == names[i] && t[j] == names[j]);
        lemma_first_duplicate_found(t, i, j);
    } else if first_duplicate(t) is None {
        assert(t[i] == names.last());
    }
}

proof fn lemma_first_duplicate_is_duplicate(names: Seq<Seq<char>>)
    ensures
        first_duplicate(names) matches Some(k) ==> 0 <= k < names.len()
            && exists|m: int| 0 <= m < k && #[trigger] names[m] == names[k],
    decreases names.len(),
{
    if names.len() > 0 {
        let t = names.drop_last();
        lemma_first_duplicate_is_duplicate(t);
        match first_duplicate(t) {
            Some(k) => {
                let m = choose|m: int| 0 <= m < k && #[trigger] t[m] == t[k];
                assert(names[m] == t[m] && names[k] == t[k]);
            },
            None => {
                if t.contains(names.last()) {
                    let m = choose|m: int| 0 <= m < t.len() && t[m] == names.last();
                    assert(names[m] == t[m]);
                }
            },
        }
    }
}

proof fn lemma_no_basedir_failure(targets: Seq<WatchTarget>, errs: Seq<Option<Seq<char>>>, k: nat)
    requires
        forall|m: int| 0 <= m < errs.len() ==> (#[trigger] errs[m]) is None,
    ensures
        first_basedir_failure(targets, errs, k) is None,
    decreases k,
{
    if k > 0 {
        lemma_no_basedir_failure(targets, errs, (k - 1) as nat);
    }
}

proof fn lemma_job_failure_from_stage(stages: Seq<StageConfig>, table: Seq<Seq<Option<Seq<char>>>>, s: int, k: nat)
    requires
        0 <= s < k,
        stage_failure(stages[s], stage_errors(table, s)) is Some,
    ensures
        job_failure(stages, table, k) is Some,
    decreases k,
{
    if s < k - 1 {
        lemma_job_failure_from_stage(stages, table, s, (k - 1) as nat);
    }
}

/// An archive stage that bundles (daily, weekly or monthly) is invalid when
/// two of its targets have the same resolved name; when every `basedir`
/// resolved, the reason given is the duplicate name, one that a target
/// before it also has.
pub proof fn law_bundling_needs_unique_target_names(a: ArchiveConfig, errs: Seq<Option<Seq<char>>>, i: int, j: int)
    requires
        a.bundle != BundleKind::Unbundled,
        0 <= i < j < a.targets@.len(),
        spec_resolved_name(a.targets@[i]) == spec_resolved_name(a.targets@[j]),
    ensures
        stage_failure(StageConfig::Archive(a), errs) is Some,
        (forall|m: int| 0 <= m < errs.len() ==> (#[trigger] errs[m]) is None) ==>
            (stage_failure(StageConfig::Archive(a), errs) matches Some(reason)
            && exists|m: int, m2: int| 0 <= m < m2 < a.targets@.len()
                && #[trigger] spec_resolved_name(a.targets@[m]) == #[trigger] spec_resolved_name(a.targets@[m2])
                && reason == duplicate_reason(a.name@, spec_resolved_name(a.targets@[m2]))),
{
    let names = resolved_names(a.targets@);
    assert(names[i] == spec_resolved_name(a.targets@[i]) && names[j] == spec_resolved_name(a.targets@[j]));
    lemma_first_duplicate_found(names, i, j);
    lemma_first_duplicate_is_duplicate(names);
    if forall|m: int| 0 <= m < errs.len() ==> (#[trigger] errs[m]) is None {
        lemma_no_basedir_failure(a.targets@, errs, a.targets@.len());
        let k = first_duplicate(names).unwrap();
        let m = choose|m: int| 0 <= m < k && #[trigger] names[m] == names[k];
        assert(names[m] == spec_resolved_name(a.targets@[m]));
        assert(names[k] == spec_resolved_name(a.targets@[k]));
    }
}

/// A job with an archive stage that bundles and has two targets of the
/// same resolved name does not validate, whatever else it holds.
pub proof fn law_job_with_duplicate_bundle_targets_fails(stages: Seq<StageConfig>, table: Seq<Seq<Option<Seq<char>>>>,
    s: int, i: int, j: int)
    requires
        0 <= s < stages.len(),
        stages[s] matches StageConfig::Archive(a) && a.bundle != BundleKind::Unbundled
            && 0 <= i < j < a.targets@.len() && spec_resolved_name(a.targets@[i]) == spec_resolved_name(a.targets@[j]),
    ensures
        job_failure(stages, table, stages.len()) is Some,
{
    if let StageConfig::Archive(a) = stages[s] {
        law_bundling_needs_unique_target_names(a, stage_errors(table, s), i, j);
    }
    lemma_job_failure_from_stage(stages, table, s, stages.len());
}

} // verus!
