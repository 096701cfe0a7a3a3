//! Relocation: where a file goes, and how a clash with an existing file
//! there is resolved.
//!
//! Copying and removing files is done outside the library. Resolving a
//! clash alternates between asking whether a path exists and deciding,
//! so it is a small state machine: [`ConflictResolver`].

use vstd::prelude::*;
use crate::config::{RelocateConfig, LayoutKind, ConflictPolicy};
use crate::datetime::{format_utc, utc_text};
use crate::error::RelocateError;
use crate::path::{join, strip_prefix, file_name, parent, file_stem, extension, spec_join,
    spec_strip_prefix, spec_file_name, spec_parent, spec_file_stem, spec_extension};
use crate::scan::FileCandidate;
use crate::text::{push_str, push_decimal, string_of, decimal};

verus! {

/// The outcome of relocating one file.
#[derive(Debug, Clone, PartialEq, Eq)]
pub struct RelocateResult {
    pub destination: String,
    pub outcome: RelocateOutcome,
}

#[derive(Debug, Clone, Copy, PartialEq, Eq)]
pub enum RelocateOutcome {
    Moved,
    /// Left where it was, because its destination was taken and the
    /// conflict policy says to skip.
    Skipped,
}

/// The path of a file below the destination: its path relative to the
/// target's `basedir` (its whole path when it is not below it) under the
/// `preserve` layout; `YYYY/MM` of its basis and its file name under the
/// `year_month` layout.
pub open spec fn spec_relative_destination(path: Seq<char>, basedir: Seq<char>, basis: (int, int), layout: LayoutKind) -> Seq<char> {
    match layout {
        LayoutKind::Preserve => match spec_strip_prefix(path, basedir) {
            Some(r) => r,
            None => path,
        },
        LayoutKind::YearMonth => spec_join(utc_text(basis, "%Y/%m"@),
            match spec_file_name(path) { Some(n) => n, None => seq![] }),
    }
}

/// Where a candidate goes (see [`spec_relative_destination`]), below the
/// configured destination. Without a destination this is a `Copy` error.
pub fn compute_destination(candidate: &FileCandidate, config: &RelocateConfig) -> (r: Result<String, RelocateError>)
    ensures
        match config.destination {
            None => r matches Err(RelocateError::Copy { from, to, source }) && from@ == candidate.path@
                && to@ == Seq::<char>::empty() && source@ == "relocate.destination is not configured"@,
            Some(base) => r matches Ok(d) && d@ == spec_join(base@, spec_relative_destination(candidate.path@,
                candidate.target.basedir@, candidate.basis_datetime@, config.layout)),
        },
{
    let base = match &config.destination {
        Some(b) => b,
        None => return Err(RelocateError::Copy {
            from: candidate.path.clone(),
            to: String::new(),
            source: "relocate.destination is not configured".to_owned(),
        }),
    };
    let relative = match config.layout {
        LayoutKind::Preserve => match strip_prefix(candidate.path.as_str(), candidate.target.basedir.as_str()) {
            Some(r) => r,
            None => candidate.path.clone(),
        },
        LayoutKind::YearMonth => {
            let month = format_utc(&candidate.basis_datetime, "%Y/%m");
            let name = match file_name(candidate.path.as_str()) {
                Some(n) => n,
                None => String::new(),
            };
            join(month.as_str(), name.as_str())
        },
    };
    Ok(join(base.as_str(), relative.as_str()))
}

/// The `n`-th renamed alternative of a taken destination:
/// `<stem>_<n>.<extension>` (or `<stem>_<n>` without extension) in the
/// same directory.
pub open spec fn rename_candidate(destination: Seq<char>, n: nat) -> Seq<char> {
    let dir = match spec_parent(destination) { Some(p) => p, None => "."@ };
    let stem = match spec_file_stem(destination) { Some(s) => s, None => "file"@ };
    let leaf = match spec_extension(destination) {
        Some(ext) => stem + "_"@ + decimal(n) + "."@ + ext,
        None => stem + "_"@ + decimal(n),
    };
    spec_join(dir, leaf)
}

/// The `n`-th renamed alternative of a taken destination (see [`rename_candidate`]).
pub fn renamed_path(destination: &str, n: u32) -> (r: String)
    ensures
        r@ == rename_candidate(destination@, n as nat),
{
    let dir = match parent(destination) {
        Some(p) => p,
        None => ".".to_owned(),
    };
    let stem = match file_stem(destination) {
        Some(s) => s,
        None => "file".to_owned(),
    };
    let mut leaf: Vec<char> = Vec::new();
    push_str(&mut leaf, stem.as_str());
    push_str(&mut leaf, "_");
    push_decimal(&mut leaf, n as u64);
    match extension(destination) {
        Some(ext) => {
            push_str(&mut leaf, ".");
            push_str(&mut leaf, ext.as_str());
        },
        None => {},
    }
    let leaf = string_of(&leaf);
    join(dir.as_str(), leaf.as_str())
}

/// What a step of conflict resolution asks for or decides.
#[derive(Debug, Clone, PartialEq, Eq)]
pub enum ConflictStep {
    /// Report whether this path exists, with `ConflictResolver::step`.
    Probe(String),
    /// Relocate to this path.
    Use(String),
    /// Leave the file where it is.
    Skip,
    /// Fail with this error.
    Fail(RelocateError),
}

/// Resolves a clash at a destination. It first asks about the destination
/// itself; if that is free it is used. If it is taken: under `skip` the
/// file stays, under `error` relocation fails with `Conflict`, and under
/// `rename` the alternatives `_1`, `_2`, ... are asked about in turn and
/// the first free one is used.
pub struct ConflictResolver {
    destination: String,
    policy: ConflictPolicy,
    /// 0 while the destination itself is asked about; `n` while the `n`-th alternative is.
    counter: u32,
}

impl ConflictResolver {
    pub closed spec fn spec_destination(&self) -> Seq<char> {
        self.destination@
    }

    pub closed spec fn spec_policy(&self) -> ConflictPolicy {
        self.policy
    }

    /// Which alternative is being asked about (0 for the destination itself).
    pub closed spec fn spec_counter(&self) -> nat {
        self.counter as nat
    }

    /// The path being asked about.
    pub open spec fn spec_probe(&self) -> Seq<char> {
        if self.spec_counter() == 0 {
            self.spec_destination()
        } else {
            rename_candidate(self.spec_destination(), self.spec_counter())
        }
    }

    /// Starts resolving at `destination`.
    pub fn start(destination: String, policy: ConflictPolicy) -> (r: ConflictResolver)
        ensures
            r.spec_destination() == destination@,
            r.spec_policy() == policy,
            r.spec_counter() == 0,
    {
        ConflictResolver { destination, policy, counter: 0 }
    }

    /// Which alternative is being asked about (0 for the destination itself).
    pub fn counter(&self) -> (r: u32)
        ensures
            r == self.spec_counter(),
    {
        self.counter
    }

    /// The path whose existence the next step needs.
    pub fn probe(&self) -> (r: String)
        ensures
            r@ == self.spec_probe(),
    {
        if self.counter == 0 {
            self.destination.clone()
        } else {
            renamed_path(self.destination.as_str(), self.counter)
        }
    }

    /// Takes whether the probed path exists and decides: a free path is
    /// used; a taken destination is skipped, fails or moves on to the first
    /// alternative by the policy; a taken alternative moves on to the next.
    pub fn step(&mut self, exists: bool) -> (r: ConflictStep)
        requires
            old(self).spec_counter() < u32::MAX,
        ensures
            final(self).spec_destination() == old(self).spec_destination(),
            final(self).spec_policy() == old(self).spec_policy(),
            !exists ==> (r matches ConflictStep::Use(p) && p@ == old(self).spec_probe()),
            exists && old(self).spec_counter() == 0 && old(self).spec_policy() == ConflictPolicy::Skip
                ==> r is Skip,
            exists && old(self).spec_counter() == 0 && old(self).spec_policy() == ConflictPolicy::Error
                ==> (r matches ConflictStep::Fail(RelocateError::Conflict { path }) && path@ == old(self).spec_destination()),
            exists && (old(self).spec_counter() > 0 || old(self).spec_policy() == ConflictPolicy::Rename)
                ==> (final(self).spec_counter() == old(self).spec_counter() + 1
                    && (r matches ConflictStep::Probe(p) && p@ == final(self).spec_probe())),
    {
        if !exists {
            return ConflictStep::Use(self.probe());
        }
        if self.counter == 0 {
            match self.policy {
                ConflictPolicy::Skip => return ConflictStep::Skip,
                ConflictPolicy::Error => return ConflictStep::Fail(RelocateError::Conflict { path: self.destination.clone() }),
                ConflictPolicy::Rename => {},
            }
        }
        self.counter = self.counter + 1;
        ConflictStep::Probe(self.probe())
    }
}

} // verus!
