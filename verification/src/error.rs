//! The errors of each module and the error common to all of them.
//!
//! Causes that come from the operating system or from a parser are held as
//! their message text. Each error renders as a message with `message()`.

use vstd::prelude::*;
use crate::text::{push_str, push_decimal, string_of, decimal};

verus! {

/// Errors of the configuration: reading, parsing and validation.
#[derive(Debug, Clone, PartialEq, Eq)]
pub enum ConfigError {
    Read { path: String, source: String },
    Parse { path: String, source: String },
    Invalid { job: String, reason: String },
    PathTraversal { path: String, basedir: String },
    UnknownField { field: String, suggestion: String },
}

/// Errors while scanning a watch target.
#[derive(Debug, Clone, PartialEq, Eq)]
pub enum ScanError {
    Metadata { path: String, source: String },
    NoDateRuleMatched { path: String },
}

/// Errors while archiving.
#[derive(Debug, Clone, PartialEq, Eq)]
pub enum ArchiveError {
    Create { path: String, source: String },
    WriteEntry { archive: String, entry: String, source: String },
    InsufficientSpace { path: String },
    StaleBundleMember { path: String, bundle: String },
    TimezoneDetection { message: String },
    InvalidTimezone { name: String },
}

/// Errors while relocating.
#[derive(Debug, Clone, PartialEq, Eq)]
pub enum RelocateError {
    Copy { from: String, to: String, source: String },
    Conflict { path: String },
}

/// Errors while deleting.
#[derive(Debug, Clone, PartialEq, Eq)]
pub enum DeleteError {
    Delete { path: String, source: String },
    SafetyBrakeTriggered { count: usize, threshold: usize },
}

/// Errors of the job lock.
#[derive(Debug, Clone, PartialEq, Eq)]
pub enum LockError {
    Acquire { path: String, source: String },
    AlreadyLocked { path: String },
}

/// The error common to all modules.
#[derive(Debug, Clone, PartialEq, Eq)]
pub enum NeatnikError {
    Config(ConfigError),
    Scan(ScanError),
    Archive(ArchiveError),
    Relocate(RelocateError),
    Delete(DeleteError),
    Lock(LockError),
    Io(String),
}

/// `"` around a text.
pub open spec fn quoted(s: Seq<char>) -> Seq<char> {
    "\""@ + s + "\""@
}

pub open spec fn config_error_text(e: ConfigError) -> Seq<char> {
    match e {
        ConfigError::Read { path, source } =>
            "failed to read config file "@ + path@ + ": "@ + source@,
        ConfigError::Parse { path, source } =>
            "failed to parse config file "@ + path@ + ": "@ + source@,
        ConfigError::Invalid { job, reason } =>
            "invalid job "@ + quoted(job@) + ": "@ + reason@,
        ConfigError::PathTraversal { path, basedir } =>
            "path "@ + quoted(path@) + " escapes basedir "@ + quoted(basedir@),
        ConfigError::UnknownField { field, suggestion } =>
            "unknown field "@ + quoted(field@) + ", did you mean "@ + quoted(suggestion@) + "?"@,
    }
}

pub open spec fn scan_error_text(e: ScanError) -> Seq<char> {
    match e {
        ScanError::Metadata { path, source } =>
            "failed to read metadata for "@ + path@ + ": "@ + source@,
        ScanError::NoDateRuleMatched { path } =>
            "no filename date rule matched for "@ + path@,
    }
}

pub open spec fn archive_error_text(e: ArchiveError) -> Seq<char> {
    match e {
        ArchiveError::Create { path, source } =>
            "failed to create archive "@ + path@ + ": "@ + source@,
        ArchiveError::WriteEntry { archive, entry, source } =>
            "failed to write entry "@ + entry@ + " into archive "@ + archive@ + ": "@ + source@,
        ArchiveError::InsufficientSpace { path } =>
            "insufficient disk space while archiving to "@ + path@,
        ArchiveError::StaleBundleMember { path, bundle } =>
            "file "@ + path@ + " is newer than the existing bundle "@ + bundle@,
        ArchiveError::TimezoneDetection { message } =>
            "failed to detect the local time zone: "@ + message@,
        ArchiveError::InvalidTimezone { name } =>
            "unknown time zone "@ + quoted(name@),
    }
}

pub open spec fn relocate_error_text(e: RelocateError) -> Seq<char> {
    match e {
        RelocateError::Copy { from, to, source } =>
            "failed to copy "@ + from@ + " to "@ + to@ + ": "@ + source@,
        RelocateError::Conflict { path } =>
            "destination already exists: "@ + path@,
    }
}

pub open spec fn delete_error_text(e: DeleteError) -> Seq<char> {
    match e {
        DeleteError::Delete { path, source } =>
            "failed to delete "@ + path@ + ": "@ + source@,
        DeleteError::SafetyBrakeTriggered { count, threshold } =>
            "safety brake triggered: "@ + decimal(count as nat) + " files exceed threshold "@
                + decimal(threshold as nat),
    }
}

pub open spec fn lock_error_text(e: LockError) -> Seq<char> {
    match e {
        LockError::Acquire { path, source } =>
            "failed to acquire job lock at "@ + path@ + ": "@ + source@,
        LockError::AlreadyLocked { path } =>
            "job is already running (lock held at "@ + path@ + ")"@,
    }
}

pub open spec fn neatnik_error_text(e: NeatnikError) -> Seq<char> {
    match e {
        NeatnikError::Config(c) => config_error_text(c),
        NeatnikError::Scan(c) => scan_error_text(c),
        NeatnikError::Archive(c) => archive_error_text(c),
        NeatnikError::Relocate(c) => relocate_error_text(c),
        NeatnikError::Delete(c) => delete_error_text(c),
        NeatnikError::Lock(c) => lock_error_text(c),
        NeatnikError::Io(m) => m@,
    }
}

fn push_quoted(v: &mut Vec<char>, s: &str)
    ensures
        final(v)@ == old(v)@ + quoted(s@),
{
    push_str(v, "\"");
    push_str(v, s);
    push_str(v, "\"");
}

impl ConfigError {
    /// The message of the error.
    pub fn message(&self) -> (r: String)
        ensures
            r@ == config_error_text(*self),
    {
        let mut v: Vec<char> = Vec::new();
        match self {
            ConfigError::Read { path, source } => {
                push_str(&mut v, "failed to read config file ");
                push_str(&mut v, path.as_str());
                push_str(&mut v, ": ");
                push_str(&mut v, source.as_str());
            },
            ConfigError::Parse { path, source } => {
                push_str(&mut v, "failed to parse config file ");
                push_str(&mut v, path.as_str());
                push_str(&mut v, ": ");
                push_str(&mut v, source.as_str());
            },
            ConfigError::Invalid { job, reason } => {
                push_str(&mut v, "invalid job ");
                push_quoted(&mut v, job.as_str());
                push_str(&mut v, ": ");
                push_str(&mut v, reason.as_str());
            },
            ConfigError::PathTraversal { path, basedir } => {
                push_str(&mut v, "path ");
                push_quoted(&mut v, path.as_str());
                push_str(&mut v, " escapes basedir ");
                push_quoted(&mut v, basedir.as_str());
            },
            ConfigError::UnknownField { field, suggestion } => {
                push_str(&mut v, "unknown field ");
                push_quoted(&mut v, field.as_str());
                push_str(&mut v, ", did you mean ");
                push_quoted(&mut v, suggestion.as_str());
                push_str(&mut v, "?");
            },
        }
        let ghost t = v@;
        assert(t =~= config_error_text(*self));
        string_of(&v)
    }
}

impl ScanError {
    /// The message of the error.
    pub fn message(&self) -> (r: String)
        ensures
            r@ == scan_error_text(*self),
    {
        let mut v: Vec<char> = Vec::new();
        match self {
            ScanError::Metadata { path, source } => {
                push_str(&mut v, "failed to read metadata for ");
                push_str(&mut v, path.as_str());
                push_str(&mut v, ": ");
                push_str(&mut v, source.as_str());
            },
            ScanError::NoDateRuleMatched { path } => {
                push_str(&mut v, "no filename date rule matched for ");
                push_str(&mut v, path.as_str());
            },
        }
        assert(v@ =~= scan_error_text(*self));
        string_of(&v)
    }
}

impl ArchiveError {
    /// The message of the error.
    pub fn message(&self) -> (r: String)
        ensures
            r@ == archive_error_text(*self),
    {
        let mut v: Vec<char> = Vec::new();
        match self {
            ArchiveError::Create { path, source } => {
                push_str(&mut v, "failed to create archive ");
                push_str(&mut v, path.as_str());
                push_str(&mut v, ": ");
                push_str(&mut v, source.as_str());
            },
            ArchiveError::WriteEntry { archive, entry, source } => {
                push_str(&mut v, "failed to write entry ");
                push_str(&mut v, entry.as_str());
                push_str(&mut v, " into archive ");
                push_str(&mut v, archive.as_str());
                push_str(&mut v, ": ");
                push_str(&mut v, source.as_str());
            },
            ArchiveError::InsufficientSpace { path } => {
                push_str(&mut v, "insufficient disk space while archiving to ");
                push_str(&mut v, path.as_str());
            },
            ArchiveError::StaleBundleMember { path, bundle } => {
                push_str(&mut v, "file ");
                push_str(&mut v, path.as_str());
                push_str(&mut v, " is newer than the existing bundle ");
                push_str(&mut v, bundle.as_str());
            },
            ArchiveError::TimezoneDetection { message } => {
                push_str(&mut v, "failed to detect the local time zone: ");
                push_str(&mut v, message.as_str());
            },
            ArchiveError::InvalidTimezone { name } => {
                push_str(&mut v, "unknown time zone ");
                push_quoted(&mut v, name.as_str());
            },
        }
        assert(v@ =~= archive_error_text(*self));
        string_of(&v)
    }
}

impl RelocateError {
    /// The message of the error.
    pub fn message(&self) -> (r: String)
        ensures
            r@ == relocate_error_text(*self),
    {
        let mut v: Vec<char> = Vec::new();
        match self {
            RelocateError::Copy { from, to, source } => {
                push_str(&mut v, "failed to copy ");
                push_str(&mut v, from.as_str());
                push_str(&mut v, " to ");
                push_str(&mut v, to.as_str());
                push_str(&mut v, ": ");
                push_str(&mut v, source.as_str());
            },
            RelocateError::Conflict { path } => {
                push_str(&mut v, "destination already exists: ");
                push_str(&mut v, path.as_str());
            },
        }
        assert(v@ =~= relocate_error_text(*self));
        string_of(&v)
    }
}

impl DeleteError {
    /// The message of the error.
    pub fn message(&self) -> (r: String)
        ensures
            r@ == delete_error_text(*self),
    {
        let mut v: Vec<char> = Vec::new();
        match self {
            DeleteError::Delete { path, source } => {
                push_str(&mut v, "failed to delete ");
                push_str(&mut v, path.as_str());
                push_str(&mut v, ": ");
                push_str(&mut v, source.as_str());
            },
            DeleteError::SafetyBrakeTriggered { count, threshold } => {
                push_str(&mut v, "safety brake triggered: ");
                push_decimal(&mut v, *count as u64);
                push_str(&mut v, " files exceed threshold ");
                push_decimal(&mut v, *threshold as u64);
            },
        }
        assert(v@ =~= delete_error_text(*self));
        string_of(&v)
    }
}

impl LockError {
    /// The message of the error.
    pub fn message(&self) -> (r: String)
        ensures
            r@ == lock_error_text(*self),
    {
        let mut v: Vec<char> = Vec::new();
        match self {
            LockError::Acquire { path, source } => {
                push_str(&mut v, "failed to acquire job lock at ");
                push_str(&mut v, path.as_str());
                push_str(&mut v, ": ");
                push_str(&mut v, source.as_str());
            },
            LockError::AlreadyLocked { path } => {
                push_str(&mut v, "job is already running (lock held at ");
                push_str(&mut v, path.as_str());
                push_str(&mut v, ")");
            },
        }
        assert(v@ =~= lock_error_text(*self));
        string_of(&v)
    }
}

impl NeatnikError {
    /// The message of the error: that of the module error it carries.
    pub fn message(&self) -> (r: String)
        ensures
            r@ == neatnik_error_text(*self),
    {
        match self {
            NeatnikError::Config(e) => e.message(),
            NeatnikError::Scan(e) => e.message(),
            NeatnikError::Archive(e) => e.message(),
            NeatnikError::Relocate(e) => e.message(),
            NeatnikError::Delete(e) => e.message(),
            NeatnikError::Lock(e) => e.message(),
            NeatnikError::Io(m) => m.clone(),
        }
    }
}

impl From<ConfigError> for NeatnikError {
    fn from(e: ConfigError) -> (r: NeatnikError) {
        NeatnikError::Config(e)
    }
}

impl vstd::std_specs::convert::FromSpecImpl<ConfigError> for NeatnikError {
    open spec fn obeys_from_spec() -> bool {
        true
    }

    open spec fn from_spec(v: ConfigError) -> NeatnikError {
        NeatnikError::Config(v)
    }
}

impl From<ScanError> for NeatnikError {
    fn from(e: ScanError) -> (r: NeatnikError) {
        NeatnikError::Scan(e)
    }
}

impl vstd::std_specs::convert::FromSpecImpl<ScanError> for NeatnikError {
    open spec fn obeys_from_spec() -> bool {
        true
    }

    open spec fn from_spec(v: ScanError) -> NeatnikError {
        NeatnikError::Scan(v)
    }
}

impl From<ArchiveError> for NeatnikError {
    fn from(e: ArchiveError) -> (r: NeatnikError) {
        NeatnikError::Archive(e)
    }
}

impl vstd::std_specs::convert::FromSpecImpl<ArchiveError> for NeatnikError {
    open spec fn obeys_from_spec() -> bool {
        true
    }

    open spec fn from_spec(v: ArchiveError) -> NeatnikError {
        NeatnikError::Archive(v)
    }
}

impl From<RelocateError> for NeatnikError {
    fn from(e: RelocateError) -> (r: NeatnikError) {
        NeatnikError::Relocate(e)
    }
}

impl vstd::std_specs::convert::FromSpecImpl<RelocateError> for NeatnikError {
    open spec fn obeys_from_spec() -> bool {
        true
    }

    open spec fn from_spec(v: RelocateError) -> NeatnikError {
        NeatnikError::Relocate(v)
    }
}

impl From<DeleteError> for NeatnikError {
    fn from(e: DeleteError) -> (r: NeatnikError) {
        NeatnikError::Delete(e)
    }
}

impl vstd::std_specs::convert::FromSpecImpl<DeleteError> for NeatnikError {
    open spec fn obeys_from_spec() -> bool {
        true
    }

    open spec fn from_spec(v: DeleteError) -> NeatnikError {
        NeatnikError::Delete(v)
    }
}

impl From<LockError> for NeatnikError {
    fn from(e: LockError) -> (r: NeatnikError) {
        NeatnikError::Lock(e)
    }
}

impl vstd::std_specs::convert::FromSpecImpl<LockError> for NeatnikError {
    open spec fn obeys_from_spec() -> bool {
        true
    }

    open spec fn from_spec(v: LockError) -> NeatnikError {
        NeatnikError::Lock(v)
    }
}

} // verus!
