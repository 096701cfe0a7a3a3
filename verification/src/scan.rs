//! Selection of candidate files below a watch target, and the basis date
//! and time of each.
//!
//! Walking the directory tree and reading metadata is done outside the
//! library; each walked entry is handed to [`classify_entry`], which
//! decides whether it becomes a candidate.

use vstd::prelude::*;
use crate::config::{WatchTarget, FilenameDateRule, BasisKind};
use crate::datetime::{Timestamp, parse_naive_datetime, parse_naive_date, naive_datetime_parse,
    naive_date_parse};
use crate::error::ScanError;
use crate::path::{strip_prefix, spec_strip_prefix, file_name, spec_file_name, spec_starts_with};
use crate::pattern::{CompiledRegex, GlobPattern, glob_compiles, glob_matches, regex_compiles,
    regex_captures, regex_group_names};
use crate::text::{opt_views, string_views};
use crate::config::is_within_basedir;

verus! {

/// The watch target a candidate was found under: its resolved `basedir`
/// and its resolved name.
#[derive(Debug, PartialEq, Eq)]
pub struct WatchTargetRef {
    pub basedir: String,
    pub name: String,
}

impl Clone for WatchTargetRef {
    fn clone(&self) -> (r: Self)
        ensures
            r.basedir@ == self.basedir@,
            r.name@ == self.name@,
    {
        WatchTargetRef { basedir: self.basedir.clone(), name: self.name.clone() }
    }
}

/// A file found by a scan.
#[derive(Debug)]
pub struct FileCandidate {
    pub path: String,
    pub target: WatchTargetRef,
    pub basis_datetime: Timestamp,
    pub size_bytes: u64,
    pub in_use: bool,
}

/// What a candidate stands for: its path, its target's `basedir` and name,
/// its basis instant, its size and whether it is in use.
pub ghost struct CandidateView {
    pub path: Seq<char>,
    pub basedir: Seq<char>,
    pub target_name: Seq<char>,
    pub basis: (int, int),
    pub size: u64,
    pub in_use: bool,
}

impl View for FileCandidate {
    type V = CandidateView;

    open spec fn view(&self) -> CandidateView {
        CandidateView {
            path: self.path@,
            basedir: self.target.basedir@,
            target_name: self.target.name@,
            basis: self.basis_datetime@,
            size: self.size_bytes,
            in_use: self.in_use,
        }
    }
}

impl Clone for FileCandidate {
    fn clone(&self) -> (r: Self)
        ensures
            r@ == self@,
    {
        FileCandidate {
            path: self.path.clone(),
            target: self.target.clone(),
            basis_datetime: self.basis_datetime.clone(),
            size_bytes: self.size_bytes,
            in_use: self.in_use,
        }
    }
}

/// The views of candidates.
pub open spec fn candidate_views(v: Seq<FileCandidate>) -> Seq<CandidateView> {
    Seq::new(v.len(), |i: int| v[i]@)
}

/// Whether some pattern of `patterns` compiles and matches `text`.
pub open spec fn any_glob_matches(patterns: Seq<Seq<char>>, text: Seq<char>) -> bool {
    exists|i: int| 0 <= i < patterns.len() && glob_compiles(#[trigger] patterns[i]) && glob_matches(patterns[i], text)
}

/// Whether a path relative to the target's `basedir` is selected: some
/// inclusion pattern matches it and no exclusion pattern does. With no
/// inclusion pattern nothing is selected.
pub open spec fn spec_is_included(relative: Seq<char>, includes: Seq<Seq<char>>, excludes: Seq<Seq<char>>) -> bool {
    includes.len() > 0 && any_glob_matches(includes, relative) && !any_glob_matches(excludes, relative)
}

fn matches_any(patterns: &Vec<String>, text: &str) -> (r: bool)
    ensures
        r == any_glob_matches(string_views(patterns@), text@),
{
    let ghost pv = string_views(patterns@);
    let mut i: usize = 0;
    while i < patterns.len()
        invariant
            i <= patterns@.len(),
            pv == string_views(patterns@),
            forall|j: int| 0 <= j < i ==> !(glob_compiles(#[trigger] pv[j]) && glob_matches(pv[j], text@)),
        decreases patterns@.len() - i,
    {
        match GlobPattern::new(patterns[i].as_str()) {
            Some(p) => {
                if p.matches(text) {
                    assert(glob_compiles(pv[i as int]) && glob_matches(pv[i as int], text@));
                    return true;
                }
            },
            None => {},
        }
        i = i + 1;
    }
    false
}

/// Whether a path relative to the target's `basedir` is selected by the
/// inclusion and exclusion patterns; exclusion wins.
pub fn is_included(relative: &str, includes: &Vec<String>, excludes: &Vec<String>) -> (r: bool)
    ensures
        r == spec_is_included(relative@, string_views(includes@), string_views(excludes@)),
{
    if includes.len() == 0 {
        return false;
    }
    matches_any(includes, relative) && !matches_any(excludes, relative)
}

/// The date in a captured text, read with `format` first as a date and
/// time (a leap second included) and else as a date at midnight, both in UTC.
pub open spec fn spec_parse_captured_date(text: Seq<char>, format: Seq<char>) -> Option<(int, int)> {
    match naive_datetime_parse(text, format) {
        Some(instant) => Some(instant),
        None => match naive_date_parse(text, format) {
            Some(s) => Some((s, 0)),
            None => None,
        },
    }
}

/// Whether a timestamp result has the given instant.
pub open spec fn same_instant(r: Option<Timestamp>, v: Option<(int, int)>) -> bool {
    match v {
        None => r is None,
        Some(x) => r matches Some(t) && t@ == x,
    }
}

/// Reads a captured date (see [`spec_parse_captured_date`]).
pub fn parse_captured_date(text: &str, format: &str) -> (r: Option<Timestamp>)
    ensures
        same_instant(r, spec_parse_captured_date(text@, format@)),
{
    match parse_naive_datetime(text, format) {
        Some((s, n)) => Some(Timestamp::new(s, n).unwrap()),
        None => match parse_naive_date(text, format) {
            Some(s) => Some(Timestamp::new(s, 0).unwrap()),
            None => None,
        },
    }
}

/// The index of the first group named `name`.
pub open spec fn named_index(names: Seq<Option<Seq<char>>>, name: Seq<char>) -> Option<int>
    decreases names.len(),
{
    if names.len() == 0 {
        None
    } else {
        match named_index(names.drop_last(), name) {
            Some(k) => Some(k),
            None => if names.last() == Some(name) { Some(names.len() - 1) } else { None },
        }
    }
}

/// The date a rule reads from a file name: the rule's expression must
/// compile and match, its group `date` must take part, and the group must
/// parse with the rule's format.
pub open spec fn spec_rule_date(regex: Seq<char>, format: Seq<char>, file_name: Seq<char>) -> Option<(int, int)> {
    if !regex_compiles(regex) {
        None
    } else {
        match regex_captures(regex, file_name) {
            None => None,
            Some(g) => match named_index(regex_group_names(regex), "date"@) {
                None => None,
                Some(k) => if k < g.len() && g[k] is Some {
                    spec_parse_captured_date(g[k].unwrap(), format)
                } else {
                    None
                },
            },
        }
    }
}

fn find_named(names: &Vec<Option<String>>, name: &str) -> (r: Option<usize>)
    ensures
        r matches Some(k) ==> named_index(opt_views(names@), name@) == Some(k as int),
        r is None ==> named_index(opt_views(names@), name@) is None,
{
    let ghost nv = opt_views(names@);
    let wanted = crate::text::chars_of(name);
    let mut i: usize = 0;
    assert(nv.take(0) =~= Seq::<Option<Seq<char>>>::empty());
    while i < names.len()
        invariant
            i <= names@.len(),
            nv == opt_views(names@),
            wanted@ == name@,
            named_index(nv.take(i as int), name@) is None,
        decreases names@.len() - i,
    {
        let ghost t = nv.take(i + 1);
        assert(t.drop_last() =~= nv.take(i as int));
        assert(t.last() == nv[i as int]);
        assert(nv[i as int] == crate::text::opt_view(names@[i as int]));
        match &names[i] {
            Some(n) => {
                if crate::text::chars_eq(&crate::text::chars_of(n.as_str()), &wanted) {
                    proof {
                        assert(nv[i as int] == Some(name@));
                        lemma_named_index_prefix(nv, name@, i + 1);
                    }
                    return Some(i);
                }
                assert(nv[i as int] != Some(name@));
            },
            None => {},
        }
        i = i + 1;
    }
    assert(nv.take(i as int) =~= nv);
    None
}

proof fn lemma_named_index_prefix(names: Seq<Option<Seq<char>>>, name: Seq<char>, k: int)
    requires
        0 <= k <= names.len(),
        named_index(names.take(k), name) is Some,
    ensures
        named_index(names, name) == named_index(names.take(k), name),
    decreases names.len() - k,
{
    if k < names.len() {
        assert(names.drop_last().take(k) =~= names.take(k));
        lemma_named_index_prefix(names.drop_last(), name, k);
    } else {
        assert(names.take(k) =~= names);
    }
}

/// The date that one rule reads from a file name (see [`spec_rule_date`]).
pub fn try_match_rule(rule: &FilenameDateRule, file_name: &str) -> (r: Option<Timestamp>)
    ensures
        same_instant(r, spec_rule_date(rule.regex@, rule.format@, file_name@)),
{
    let re = match CompiledRegex::new(rule.regex.as_str()) {
        Some(re) => re,
        None => return None,
    };
    let groups = match re.captures(file_name) {
        Some(g) => g,
        None => return None,
    };
    let names = re.group_names();
    assert(re@ == rule.regex@);
    assert(regex_compiles(rule.regex@));
    assert(regex_captures(rule.regex@, file_name@) == Some(opt_views(groups@)));
    assert(opt_views(names@) == regex_group_names(rule.regex@));
    match find_named(&names, "date") {
        None => None,
        Some(k) => {
            if k < groups.len() {
                match &groups[k] {
                    Some(text) => {
                        assert(opt_views(groups@)[k as int] == crate::text::opt_view(groups@[k as int]));
                        assert(opt_views(groups@)[k as int] == Some(text@));
                        parse_captured_date(text.as_str(), rule.format.as_str())
                    },
                    None => {
                        assert(opt_views(groups@)[k as int] == crate::text::opt_view(groups@[k as int]));
                        assert(opt_views(groups@)[k as int] is None);
                        None
                    },
                }
            } else {
                None
            }
        },
    }
}

/// The date of the first rule, in order, that reads one from the file name.
pub open spec fn spec_filename_date(rules: Seq<FilenameDateRule>, file_name: Seq<char>) -> Option<(int, int)>
    decreases rules.len(),
{
    if rules.len() == 0 {
        None
    } else {
        match spec_filename_date(rules.drop_last(), file_name) {
            Some(d) => Some(d),
            None => spec_rule_date(rules.last().regex@, rules.last().format@, file_name),
        }
    }
}

proof fn lemma_filename_date_prefix(rules: Seq<FilenameDateRule>, name: Seq<char>, k: int)
    requires
        0 <= k <= rules.len(),
        spec_filename_date(rules.take(k), name) is Some,
    ensures
        spec_filename_date(rules, name) == spec_filename_date(rules.take(k), name),
    decreases rules.len() - k,
{
    if k < rules.len() {
        assert(rules.drop_last().take(k) =~= rules.take(k));
        lemma_filename_date_prefix(rules.drop_last(), name, k);
    } else {
        assert(rules.take(k) =~= rules);
    }
}

/// Tries the rules in order against a file name (not a path) and takes the
/// date of the first that matches and parses.
pub fn extract_filename_date(rules: &Vec<FilenameDateRule>, file_name: &str) -> (r: Option<Timestamp>)
    ensures
        same_instant(r, spec_filename_date(rules@, file_name@)),
{
    let mut i: usize = 0;
    assert(rules@.take(0) =~= Seq::<FilenameDateRule>::empty());
    while i < rules.len()
        invariant
            i <= rules@.len(),
            spec_filename_date(rules@.take(i as int), file_name@) is None,
        decreases rules@.len() - i,
    {
        let ghost t = rules@.take(i + 1);
        assert(t.drop_last() =~= rules@.take(i as int));
        assert(t.last() == rules@[i as int]);
        match try_match_rule(&rules[i], file_name) {
            Some(d) => {
                proof {
                    lemma_filename_date_prefix(rules@, file_name@, i + 1);
                }
                return Some(d);
            },
            None => {},
        }
        i = i + 1;
    }
    assert(rules@.take(i as int) =~= rules@);
    None
}

/// Whether `r` is the `NoDateRuleMatched` error for `path`.
pub open spec fn is_no_date_rule(r: ScanError, path: Seq<char>) -> bool {
    r matches ScanError::NoDateRuleMatched { path: p } && p@ == path
}

/// Whether `r` is the outcome of resolving the basis of the file at `path`
/// under `target`, given the outcome of reading its modification time.
pub open spec fn is_basis_outcome(r: Result<Timestamp, ScanError>, target: WatchTarget, path: Seq<char>, modified: Result<Timestamp, String>) -> bool {
    &&& target.basis == BasisKind::Mtime ==> match modified {
        Ok(t) => r matches Ok(u) && u@ == t@,
        Err(m) => r matches Err(ScanError::Metadata { path: p, source: s }) && p@ == path && s@ == m@,
    }
    &&& target.basis == BasisKind::FilenameDate ==> match spec_file_name(path) {
        None => r matches Err(e) && is_no_date_rule(e, path),
        Some(n) => match spec_filename_date(target.filename_date_rules@, n) {
            Some(d) => r matches Ok(u) && u@ == d,
            None => r matches Err(e) && is_no_date_rule(e, path),
        },
    }
}

/// The basis date and time of a file: its modification time, or the date
/// read from its file name by the target's rules. `modified` is the outcome
/// of reading the modification time (the message of the failure otherwise).
pub fn resolve_basis_datetime(target: &WatchTarget, path: &str, modified: Result<Timestamp, String>) -> (r: Result<Timestamp, ScanError>)
    ensures
        is_basis_outcome(r, *target, path@, modified),
{
    match target.basis {
        BasisKind::Mtime => match modified {
            Ok(t) => Ok(t),
            Err(m) => Err(ScanError::Metadata { path: path.to_owned(), source: m }),
        },
        BasisKind::FilenameDate => match file_name(path) {
            None => Err(ScanError::NoDateRuleMatched { path: path.to_owned() }),
            Some(n) => match extract_filename_date(&target.filename_date_rules, n.as_str()) {
                Some(d) => Ok(d),
                None => Err(ScanError::NoDateRuleMatched { path: path.to_owned() }),
            },
        },
    }
}

/// What was read of a walked file.
#[derive(Debug)]
pub struct EntryMetadata {
    pub size: u64,
    /// The modification time, or the message of the failure to read it.
    pub modified: Result<Timestamp, String>,
}

/// A directory entry met while walking a target's `basedir`, with what was
/// read of it.
#[derive(Debug)]
pub struct WalkedEntry {
    /// The path as walked.
    pub path: String,
    /// Whether the entry is a regular file (symbolic links are not).
    pub is_file: bool,
    /// The resolved path, or the message of the failure to resolve it.
    pub canonical: Result<String, String>,
    /// The metadata of the resolved path, or the message of the failure to read it.
    pub metadata: Result<EntryMetadata, String>,
}

/// The decision on a walked entry.
#[derive(Debug)]
pub enum EntryVerdict {
    /// Not a regular file: passed over.
    NotAFile,
    /// Not below the `basedir` it was walked from: passed over.
    OutsideBasedir,
    /// Not selected by the patterns: passed over.
    NotSelected,
    /// Selected, but its path could not be resolved.
    Unresolvable { message: String },
    /// Selected, but its resolved path leaves the `basedir`.
    EscapesBasedir { path: String },
    /// Selected, but its metadata could not be read.
    MetadataUnreadable { path: String, message: String },
    /// Selected, but no basis date and time could be found for it.
    NoBasis { path: String, error: ScanError },
    /// A candidate: its resolved path, basis date and time, and size.
    Candidate { path: String, basis: Timestamp, size: u64 },
}

/// Decides what becomes of a walked entry: a regular file below the
/// `basedir`, selected by the patterns (on its path relative to the
/// `basedir`), whose resolved path stays under the `basedir`, whose
/// metadata could be read and whose basis could be resolved, becomes a
/// candidate; each failed check gives its own verdict, checked in that order.
pub fn classify_entry(target: &WatchTarget, canonical_basedir: &str, entry: WalkedEntry) -> (r: EntryVerdict)
    ensures
        r matches EntryVerdict::Candidate { path, .. } ==> spec_starts_with(path@, canonical_basedir@),
        !entry.is_file ==> r is NotAFile,
        entry.is_file ==> match spec_strip_prefix(entry.path@, canonical_basedir@) {
            None => r is OutsideBasedir,
            Some(rel) => if !spec_is_included(rel, string_views(target.includes@), string_views(target.exclude@)) {
                r is NotSelected
            } else {
                match entry.canonical {
                    Err(m) => r matches EntryVerdict::Unresolvable { message } && message@ == m@,
                    Ok(c) => if !spec_starts_with(c@, canonical_basedir@) {
                        r matches EntryVerdict::EscapesBasedir { path } && path@ == c@
                    } else {
                        match entry.metadata {
                            Err(m) => r matches EntryVerdict::MetadataUnreadable { path, message }
                                && path@ == c@ && message@ == m@,
                            Ok(md) => match r {
                                EntryVerdict::Candidate { path, basis, size } =>
                                    path@ == c@ && size == md.size
                                    && is_basis_outcome(Ok(basis), *target, c@, md.modified),
                                EntryVerdict::NoBasis { path, error } =>
                                    path@ == c@ && is_basis_outcome(Err(error), *target, c@, md.modified),
                                _ => false,
                            },
                        }
                    },
                }
            },
        },
{
    if !entry.is_file {
        return EntryVerdict::NotAFile;
    }
    let relative = match strip_prefix(entry.path.as_str(), canonical_basedir) {
        Some(rel) => rel,
        None => return EntryVerdict::OutsideBasedir,
    };
    if !is_included(relative.as_str(), &target.includes, &target.exclude) {
        return EntryVerdict::NotSelected;
    }
    let canonical = match entry.canonical {
        Ok(c) => c,
        Err(message) => return EntryVerdict::Unresolvable { message },
    };
    if !is_within_basedir(canonical_basedir, canonical.as_str()) {
        return EntryVerdict::EscapesBasedir { path: canonical };
    }
    let metadata = match entry.metadata {
        Ok(md) => md,
        Err(message) => return EntryVerdict::MetadataUnreadable { path: canonical, message },
    };
    match resolve_basis_datetime(target, canonical.as_str(), metadata.modified) {
        Ok(basis) => EntryVerdict::Candidate { path: canonical, basis, size: metadata.size },
        Err(error) => EntryVerdict::NoBasis { path: canonical, error },
    }
}

/// Tells, as far as can be told, whether another process is writing a file.
pub trait WriteGuardDetector {
    fn is_in_use(&self, path: &str) -> bool;
}

/// The rule of the detector for Unix-like systems: a file is in use when
/// another process holds a lock on it, or when it was modified less than
/// `recent_threshold_nanos` nanoseconds ago. Taking the lock and reading the
/// modification time are done outside the library.
#[derive(Debug, Clone, Copy)]
pub struct UnixWriteGuardDetector {
    pub recent_threshold_nanos: u128,
}

impl UnixWriteGuardDetector {
    /// Decides from what was found out: whether the lock was refused, and how
    /// long ago the file was modified (none when that could not be read).
    pub fn judge(&self, locked: bool, modified_ago_nanos: Option<u128>) -> (r: bool)
        ensures
            r == (locked || match modified_ago_nanos {
                Some(age) => age < self.recent_threshold_nanos,
                None => false,
            }),
    {
        if locked {
            return true;
        }
        match modified_ago_nanos {
            Some(age) => age < self.recent_threshold_nanos,
            None => false,
        }
    }
}

/// Five seconds, the default window within which a modification counts as recent.
pub open spec fn default_recent_threshold_nanos() -> u128 {
    5_000_000_000
}

impl Default for UnixWriteGuardDetector {
    fn default() -> (r: UnixWriteGuardDetector)
        ensures
            r.recent_threshold_nanos == default_recent_threshold_nanos(),
    {
        UnixWriteGuardDetector { recent_threshold_nanos: 5_000_000_000 }
    }
}

/// What became of trying to open a file for reading with no sharing
/// allowed, as the detector for Windows does.
#[derive(Debug, Clone, Copy, PartialEq, Eq)]
pub enum ExclusiveOpen {
    /// The file opened (and was closed again untouched).
    Opened,
    /// The system refused because another process has the file open.
    SharingViolation,
    /// The open failed for another reason.
    OtherError,
}

/// The rule of the detector for Windows: a file is in use exactly when an
/// exclusive open of it is refused for a sharing violation. Making the
/// attempt is done outside the library.
#[derive(Debug, Default, Clone, Copy)]
pub struct WindowsWriteGuardDetector;

impl WindowsWriteGuardDetector {
    /// Decides from the outcome of the exclusive open.
    pub fn judge(&self, outcome: ExclusiveOpen) -> (r: bool)
        ensures
            r == (outcome == ExclusiveOpen::SharingViolation),
    {
        match outcome {
            ExclusiveOpen::SharingViolation => true,
            _ => false,
        }
    }
}

/// The detector used on this platform, with its default window.
pub fn platform_write_guard_detector() -> (r: UnixWriteGuardDetector)
    ensures
        r.recent_threshold_nanos == default_recent_threshold_nanos(),
{
    UnixWriteGuardDetector { recent_threshold_nanos: 5_000_000_000 }
}

/// Exclusion wins over inclusion, and nothing is selected without an
/// inclusion pattern.
pub proof fn law_exclusion_wins(relative: Seq<char>, includes: Seq<Seq<char>>, excludes: Seq<Seq<char>>)
    ensures
        any_glob_matches(excludes, relative) ==> !spec_is_included(relative, includes, excludes),
        includes.len() == 0 ==> !spec_is_included(relative, includes, excludes),
{
}

/// A path is selected exactly when one inclusion pattern that compiles
/// matches it and no exclusion pattern that compiles does.
pub proof fn law_selection_by_patterns(relative: Seq<char>, includes: Seq<Seq<char>>, excludes: Seq<Seq<char>>, i: int)
    ensures
        0 <= i < includes.len() && glob_compiles(includes[i]) && glob_matches(includes[i], relative)
            && (forall|j: int| 0 <= j < excludes.len() ==> !(glob_compiles(#[trigger] excludes[j]) && glob_matches(excludes[j], relative)))
            ==> spec_is_included(relative, includes, excludes),
        spec_is_included(relative, includes, excludes) ==>
            (exists|k: int| 0 <= k < includes.len() && glob_compiles(#[trigger] includes[k]) && glob_matches(includes[k], relative))
            && (forall|j: int| 0 <= j < excludes.len() ==> !(glob_compiles(#[trigger] excludes[j]) && glob_matches(excludes[j], relative))),
{
}

/// More inclusion patterns never deselect a path, and more exclusion
/// patterns never select one.
pub proof fn law_selection_is_monotone(relative: Seq<char>, includes: Seq<Seq<char>>, excludes: Seq<Seq<char>>,
    more: Seq<Seq<char>>)
    ensures
        spec_is_included(relative, includes, excludes) ==> spec_is_included(relative, includes + more, excludes),
        spec_is_included(relative, includes, excludes + more) ==> spec_is_included(relative, includes, excludes),
{
    if spec_is_included(relative, includes, excludes) {
        let k = choose|k: int| 0 <= k < includes.len() && glob_compiles(#[trigger] includes[k]) && glob_matches(includes[k], relative);
        assert((includes + more)[k] == includes[k]);
    }
    if spec_is_included(relative, includes, excludes + more) {
        assert forall|j: int| 0 <= j < excludes.len() implies
            !(glob_compiles(#[trigger] excludes[j]) && glob_matches(excludes[j], relative)) by {
            assert((excludes + more)[j] == excludes[j]);
        }
    }
}

} // verus!
