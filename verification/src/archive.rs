//! Archiving: the names of archives, the period keys of bundles, the
//! grouping of files into bundles, and what to do with a bundle.
//!
//! Compressing and writing the archives is done outside the library; the
//! library plans each archive and decides what its outcome is.

use vstd::prelude::*;
use crate::config::{ArchiveConfig, ArchiveFormat, BundleKind, OnStaleBundleMember};
use crate::datetime::{Timestamp, Zone, not_later, format_utc, format_zoned, iso_week_zoned, utc_text,
    zoned_strftime, zoned_iso_week, zone_name_known, system_zone_name};
use crate::error::ArchiveError;
use crate::path::{join, parent, file_name, with_file_name, strip_prefix, spec_join, spec_parent,
    spec_file_name, spec_with_file_name, spec_strip_prefix};
use crate::scan::{FileCandidate, WatchTargetRef, CandidateView, candidate_views};
use crate::text::{string_views, chars_of, string_of, push_str, push_chars, push_signed_decimal,
    push_padded_decimal, replaced, replace_char, signed_decimal, zero_pad, decimal, seq_lt,
    compare_chars, lemma_seq_lt_transitive, lemma_seq_lt_irreflexive};

verus! {

/// The file extension of an archive format.
pub open spec fn format_extension(f: ArchiveFormat) -> Seq<char> {
    match f {
        ArchiveFormat::Gzip => "gz"@,
        ArchiveFormat::Zip => "zip"@,
        ArchiveFormat::TarGz => "tar.gz"@,
    }
}

impl ArchiveFormat {
    /// The file extension of the format.
    pub fn extension(&self) -> (r: &'static str)
        ensures
            r@ == format_extension(*self),
    {
        match self {
            ArchiveFormat::Gzip => "gz",
            ArchiveFormat::Zip => "zip",
            ArchiveFormat::TarGz => "tar.gz",
        }
    }
}

/// The naming rules of archives.
pub struct ArchiveNamer;

/// The name of a single-file archive: `<file name>.<basis as
/// YYYYMMDDTHHMMSSZ>.<extension>` in the directory of the original file.
pub open spec fn spec_single_file_name(original: Seq<char>, basis: (int, int), format: ArchiveFormat) -> Seq<char> {
    let dir = match spec_parent(original) { Some(p) => p, None => "."@ };
    let name = match spec_file_name(original) { Some(n) => n, None => "archive"@ };
    spec_join(dir, name + "."@ + utc_text(basis, "%Y%m%dT%H%M%SZ"@) + "."@ + format_extension(format))
}

/// The file extension of a bundle: `zip` for the zip format; `tar.gz`
/// otherwise, as several files cannot share one plain gzip stream.
pub open spec fn bundle_extension(f: ArchiveFormat) -> Seq<char> {
    match f {
        ArchiveFormat::Zip => "zip"@,
        _ => "tar.gz"@,
    }
}

/// The file extension of a bundle in the format `f` (see [`bundle_extension`]).
pub fn bundle_extension_of(f: ArchiveFormat) -> (r: &'static str)
    ensures
        r@ == bundle_extension(f),
{
    match f {
        ArchiveFormat::Zip => "zip",
        _ => "tar.gz",
    }
}

/// The name of a bundle: `<job>.<target>.<period key>.<extension>` in
/// `basedir`, with the extension of [`bundle_extension`].
pub open spec fn spec_bundle_name(job: Seq<char>, target: Seq<char>, period_key: Seq<char>, basedir: Seq<char>,
    format: ArchiveFormat) -> Seq<char> {
    spec_join(basedir, job + "."@ + target + "."@ + period_key + "."@ + bundle_extension(format))
}

impl ArchiveNamer {
    /// The name of the archive of one file (see [`spec_single_file_name`]);
    /// the same inputs always give the same name.
    pub fn single_file_name(original_path: &str, basis_datetime: &Timestamp, format: ArchiveFormat) -> (r: String)
        ensures
            r@ == spec_single_file_name(original_path@, basis_datetime@, format),
    {
        let dir = match parent(original_path) {
            Some(p) => p,
            None => ".".to_owned(),
        };
        let name = match file_name(original_path) {
            Some(n) => n,
            None => "archive".to_owned(),
        };
        let stamp = format_utc(basis_datetime, "%Y%m%dT%H%M%SZ");
        let mut leaf: Vec<char> = Vec::new();
        push_str(&mut leaf, name.as_str());
        push_str(&mut leaf, ".");
        push_str(&mut leaf, stamp.as_str());
        push_str(&mut leaf, ".");
        push_str(&mut leaf, format.extension());
        let leaf = string_of(&leaf);
        join(dir.as_str(), leaf.as_str())
    }

    /// The name of a bundle (see [`spec_bundle_name`]).
    pub fn bundle_name(job_name: &str, target_name: &str, period_key: &str, basedir: &str, format: ArchiveFormat) -> (r: String)
        ensures
            r@ == spec_bundle_name(job_name@, target_name@, period_key@, basedir@, format),
    {
        let mut leaf: Vec<char> = Vec::new();
        push_str(&mut leaf, job_name);
        push_str(&mut leaf, ".");
        push_str(&mut leaf, target_name);
        push_str(&mut leaf, ".");
        push_str(&mut leaf, period_key);
        push_str(&mut leaf, ".");
        push_str(&mut leaf, bundle_extension_of(format));
        let leaf = string_of(&leaf);
        join(basedir, leaf.as_str())
    }
}

/// The period key of a bundle.
#[derive(Debug, Clone, PartialEq, Eq, PartialOrd, Ord, Hash)]
pub struct BundleKey(pub String);

/// The period key of an instant in a time zone: the local date
/// `YYYY-MM-DD` for daily bundles (and without bundling), the ISO week
/// `YYYY-Www` for weekly ones, the local month `YYYY-MM` for monthly ones.
pub open spec fn spec_bundle_key(basis: (int, int), kind: BundleKind, zone: Seq<char>) -> Seq<char> {
    match kind {
        BundleKind::Weekly => {
            let (y, w) = zoned_iso_week(basis, zone);
            signed_decimal(y) + "-W"@ + zero_pad(decimal(w as nat), 2)
        },
        BundleKind::Monthly => zoned_strftime(basis, zone, "%Y-%m"@),
        _ => zoned_strftime(basis, zone, "%Y-%m-%d"@),
    }
}

impl BundleKey {
    /// The period key of `basis_datetime` (see [`spec_bundle_key`]); the same
    /// inputs always give the same key.
    pub fn compute(basis_datetime: &Timestamp, bundle_kind: BundleKind, timezone: &Zone) -> (r: BundleKey)
        ensures
            r.0@ == spec_bundle_key(basis_datetime@, bundle_kind, timezone@),
    {
        match bundle_kind {
            BundleKind::Weekly => {
                let (y, w) = iso_week_zoned(basis_datetime, timezone);
                let mut v: Vec<char> = Vec::new();
                push_signed_decimal(&mut v, y as i64);
                push_str(&mut v, "-W");
                push_padded_decimal(&mut v, w as u64, 2);
                BundleKey(string_of(&v))
            },
            BundleKind::Monthly => BundleKey(format_zoned(basis_datetime, timezone, "%Y-%m")),
            _ => BundleKey(format_zoned(basis_datetime, timezone, "%Y-%m-%d")),
        }
    }
}

/// Whether `r` is the outcome of looking up the zone named `name`: that
/// zone when `chrono-tz` knows the name, else `InvalidTimezone` with it.
pub open spec fn is_zone_lookup(r: Result<Zone, ArchiveError>, name: Seq<char>) -> bool {
    if zone_name_known(name) {
        r matches Ok(z) && z@ == name
    } else {
        r matches Err(ArchiveError::InvalidTimezone { name: n }) && n@ == name
    }
}

/// The zone named `name` (see [`is_zone_lookup`]).
fn zone_named(name: &str) -> (r: Result<Zone, ArchiveError>)
    ensures
        is_zone_lookup(r, name@),
{
    match Zone::lookup(name) {
        Some(z) => Ok(z),
        None => Err(ArchiveError::InvalidTimezone { name: name.to_owned() }),
    }
}

/// Resolves the time zone of bundle periods from the configured name, or
/// else from `detected`, the outcome of asking the system for its zone's
/// name: the zone of that name when `chrono-tz` knows it, `InvalidTimezone`
/// when it does not, and `TimezoneDetection` with the message when the
/// system could not tell. `detected` is not read when a name is configured.
pub fn resolve_zone_from(configured: Option<&str>, detected: Result<String, String>) -> (r: Result<Zone, ArchiveError>)
    ensures
        match configured {
            Some(n) => is_zone_lookup(r, n@),
            None => match detected {
                Ok(n) => is_zone_lookup(r, n@),
                Err(m) => r matches Err(ArchiveError::TimezoneDetection { message }) && message@ == m@,
            },
        },
{
    match configured {
        Some(n) => zone_named(n),
        None => match detected {
            Ok(n) => zone_named(n.as_str()),
            Err(message) => Err(ArchiveError::TimezoneDetection { message }),
        },
    }
}

/// Resolves the time zone of bundle periods: the configured name, or else
/// the one the system is set to (see [`resolve_zone_from`], which this calls
/// with the system's answer). A configured name is resolved exactly when
/// `chrono-tz` knows it; an unknown name gives `InvalidTimezone`, and a
/// failure to find the system's zone gives `TimezoneDetection`.
pub fn resolve_timezone(configured: Option<&str>) -> (r: Result<Zone, ArchiveError>)
    ensures
        configured matches Some(n) ==> is_zone_lookup(r, n@),
        r matches Ok(z) ==> zone_name_known(z@),
        r matches Err(e) ==> (e is InvalidTimezone || (configured is None && e is TimezoneDetection)),
        r matches Err(ArchiveError::InvalidTimezone { name }) ==> !zone_name_known(name@),
{
    match configured {
        Some(_) => resolve_zone_from(configured, Err(String::new())),
        None => resolve_zone_from(None, system_zone_name()),
    }
}

/// The outcome of archiving one file.
#[derive(Debug, Clone, PartialEq, Eq)]
pub struct SingleFileRunResult {
    pub destination: String,
    pub created: bool,
}

/// The outcome of one bundle.
#[derive(Debug, Clone, PartialEq, Eq)]
pub struct BundleRunResult {
    pub bundle_path: String,
    pub created: bool,
    pub included: Vec<String>,
    pub stale: Vec<String>,
}

/// The outcome of one period's group, kept per group so that the failure
/// of one group does not stop the others.
#[derive(Debug)]
pub struct BundleGroupResult {
    pub period_key: String,
    pub members: Vec<String>,
    pub outcome: Result<BundleRunResult, ArchiveError>,
}

/// The temporary name an archive is written under before it is renamed:
/// `.<file name>.tmp` beside it.
pub open spec fn spec_temp_path(destination: Seq<char>) -> Seq<char> {
    let name = match spec_file_name(destination) { Some(n) => n, None => "archive"@ };
    spec_with_file_name(destination, "."@ + name + ".tmp"@)
}

/// The temporary name of an archive (see [`spec_temp_path`]).
pub fn temp_path_for(destination: &str) -> (r: String)
    ensures
        r@ == spec_temp_path(destination@),
{
    let name = match file_name(destination) {
        Some(n) => n,
        None => "archive".to_owned(),
    };
    let mut leaf: Vec<char> = Vec::new();
    push_str(&mut leaf, ".");
    push_str(&mut leaf, name.as_str());
    push_str(&mut leaf, ".tmp");
    let leaf = string_of(&leaf);
    with_file_name(destination, leaf.as_str())
}

/// The candidates whose period key is `key`, in their order.
pub open spec fn with_key(cs: Seq<CandidateView>, key: Seq<char>, kind: BundleKind, zone: Seq<char>) -> Seq<CandidateView>
    decreases cs.len(),
{
    if cs.len() == 0 {
        seq![]
    } else {
        let rest = with_key(cs.drop_last(), key, kind, zone);
        if spec_bundle_key(cs.last().basis, kind, zone) == key {
            rest.push(cs.last())
        } else {
            rest
        }
    }
}

/// The candidates of one bundle period.
#[derive(Debug)]
pub struct PeriodGroup {
    pub period_key: String,
    pub members: Vec<FileCandidate>,
}

/// Whether `groups` is the grouping of `cs` by period key: one group per
/// key that occurs, in increasing order of key, each holding exactly the
/// candidates of its key in their order.
pub open spec fn is_grouping(groups: Seq<PeriodGroup>, cs: Seq<CandidateView>, kind: BundleKind, zone: Seq<char>) -> bool {
    &&& forall|g: int| 0 <= g < groups.len() ==>
        candidate_views(#[trigger] groups[g].members@) == with_key(cs, groups[g].period_key@, kind, zone)
    &&& forall|g: int| 0 <= g < groups.len() ==> (#[trigger] groups[g].members@).len() > 0
    &&& forall|g1: int, g2: int| 0 <= g1 < g2 < groups.len() ==>
        seq_lt(#[trigger] groups[g1].period_key@, #[trigger] groups[g2].period_key@)
    &&& forall|i: int| 0 <= i < cs.len() ==> has_group(groups, spec_bundle_key(#[trigger] cs[i].basis, kind, zone))
}

/// Whether some group has the period key `key`.
pub open spec fn has_group(groups: Seq<PeriodGroup>, key: Seq<char>) -> bool {
    exists|g: int| 0 <= g < groups.len() && #[trigger] groups[g].period_key@ == key
}

proof fn lemma_with_key_nonempty(cs: Seq<CandidateView>, key: Seq<char>, kind: BundleKind, zone: Seq<char>, x: int)
    requires
        0 <= x < cs.len(),
        spec_bundle_key(cs[x].basis, kind, zone) == key,
    ensures
        with_key(cs, key, kind, zone).len() > 0,
    decreases cs.len(),
{
    if x < cs.len() - 1 {
        lemma_with_key_nonempty(cs.drop_last(), key, kind, zone, x);
    }
}

/// Whether texts are in strictly increasing order.
pub open spec fn strictly_sorted(keys: Seq<Seq<char>>) -> bool {
    forall|a: int, b: int| 0 <= a < b < keys.len() ==> seq_lt(#[trigger] keys[a], #[trigger] keys[b])
}

/// Whether `keys` holds `k`.
pub open spec fn holds_key(keys: Seq<Seq<char>>, k: Seq<char>) -> bool {
    exists|g: int| 0 <= g < keys.len() && #[trigger] keys[g] == k
}

/// Inserts `k` into strictly increasing `keys`, unless it is already there.
fn insert_sorted(keys: &mut Vec<Vec<char>>, k: Vec<char>)
    requires
        strictly_sorted(crate::path::views(old(keys)@)),
    ensures
        strictly_sorted(crate::path::views(final(keys)@)),
        holds_key(crate::path::views(final(keys)@), k@),
        forall|x: Seq<char>| holds_key(crate::path::views(old(keys)@), x) ==> holds_key(crate::path::views(final(keys)@), x),
        forall|x: Seq<char>| holds_key(crate::path::views(final(keys)@), x) ==> (x == k@ || holds_key(crate::path::views(old(keys)@), x)),
{
    let ghost before = crate::path::views(keys@);
    let mut p: usize = 0;
    let mut state: i8 = -1;
    while p < keys.len() && state == -1
        invariant
            keys@ == old(keys)@,
            before == crate::path::views(keys@),
            p <= keys@.len(),
            state == -1 || state == 0 || state == 1,
            forall|q: int| 0 <= q < p ==> seq_lt(#[trigger] before[q], k@),
            state == 0 ==> p < keys@.len() && before[p as int] == k@,
            state == 1 ==> p < keys@.len() && seq_lt(k@, before[p as int]),
        decreases keys@.len() - p + (if state == -1 { 1int } else { 0int }),
    {
        let c = compare_chars(&keys[p], &k);
        if c == -1 {
            p = p + 1;
        } else if c == 0 {
            state = 0;
        } else {
            state = 1;
        }
    }
    if state == 0 {
        assert(before[p as int] == k@);
        return;
    }
    let ghost kv = k@;
    keys.insert(p, k);
    let ghost after = crate::path::views(keys@);
    proof {
        assert(after =~= before.insert(p as int, kv));
        assert forall|a: int, b: int| 0 <= a < b < after.len() implies seq_lt(#[trigger] after[a], #[trigger] after[b]) by {
            if a < p && b < p {
            } else if a < p && b == p {
            } else if a < p && b > p {
                assert(after[b] == before[b - 1]);
            } else if a == p {
                assert(after[b] == before[b - 1]);
                if b - 1 > p {
                    assert(seq_lt(before[p as int], before[b - 1]));
                    lemma_seq_lt_transitive(kv, before[p as int], before[b - 1]);
                }
            } else {
                assert(after[a] == before[a - 1] && after[b] == before[b - 1]);
            }
        }
        assert(after[p as int] == kv);
        assert forall|x: Seq<char>| holds_key(before, x) implies holds_key(after, x) by {
            let g = choose|g: int| 0 <= g < before.len() && #[trigger] before[g] == x;
            if g < p {
                assert(after[g] == before[g]);
            } else {
                assert(after[g + 1] == before[g]);
            }
        }
        assert forall|x: Seq<char>| holds_key(after, x) implies (x == kv || holds_key(before, x)) by {
            let g = choose|g: int| 0 <= g < after.len() && #[trigger] after[g] == x;
            if g < p {
                assert(before[g] == x);
            } else if g > p {
                assert(before[g - 1] == x);
            }
        }
    }
}

/// The period key of each candidate.
fn period_keys(candidates: &Vec<FileCandidate>, bundle_kind: BundleKind, timezone: &Zone) -> (r: Vec<Vec<char>>)
    ensures
        r@.len() == candidates@.len(),
        forall|x: int| 0 <= x < r@.len() ==> (#[trigger] r@[x])@ == spec_bundle_key(candidates@[x]@.basis, bundle_kind, timezone@),
{
    let mut ckeys: Vec<Vec<char>> = Vec::new();
    let mut i: usize = 0;
    while i < candidates.len()
        invariant
            i <= candidates@.len(),
            ckeys@.len() == i,
            forall|x: int| 0 <= x < i ==> (#[trigger] ckeys@[x])@ == spec_bundle_key(candidates@[x]@.basis, bundle_kind, timezone@),
        decreases candidates@.len() - i,
    {
        let k = BundleKey::compute(&candidates[i].basis_datetime, bundle_kind, timezone);
        ckeys.push(chars_of(k.0.as_str()));
        i = i + 1;
    }
    ckeys
}

/// The distinct texts of `ckeys`, in increasing order.
fn distinct_sorted(ckeys: &Vec<Vec<char>>) -> (r: Vec<Vec<char>>)
    ensures
        strictly_sorted(crate::path::views(r@)),
        forall|x: Seq<char>| holds_key(crate::path::views(r@), x) <==> holds_key(crate::path::views(ckeys@), x),
{
    let ghost cv = crate::path::views(ckeys@);
    let mut keys: Vec<Vec<char>> = Vec::new();
    let mut i: usize = 0;
    while i < ckeys.len()
        invariant
            i <= ckeys@.len(),
            cv == crate::path::views(ckeys@),
            strictly_sorted(crate::path::views(keys@)),
            forall|x: Seq<char>| holds_key(crate::path::views(keys@), x) <==> holds_key(cv.take(i as int), x),
        decreases ckeys@.len() - i,
    {
        let mut k: Vec<char> = Vec::new();
        push_chars(&mut k, &ckeys[i]);
        assert(k@ =~= cv[i as int]);
        let ghost old_keys = crate::path::views(keys@);
        insert_sorted(&mut keys, k);
        proof {
            let t = cv.take(i + 1);
            assert(t =~= cv.take(i as int).push(cv[i as int]));
            assert forall|x: Seq<char>| holds_key(crate::path::views(keys@), x) <==> holds_key(t, x) by {
                if holds_key(t, x) {
                    let g = choose|g: int| 0 <= g < t.len() && #[trigger] t[g] == x;
                    if g < i {
                        assert(cv.take(i as int)[g] == x);
                    }
                }
                if holds_key(cv.take(i as int), x) {
                    let g = choose|g: int| 0 <= g < i && #[trigger] cv.take(i as int)[g] == x;
                    assert(t[g] == x);
                }
                if x == cv[i as int] {
                    assert(t[i as int] == x);
                }
            }
        }
        i = i + 1;
    }
    assert(cv.take(i as int) =~= cv);
    keys
}

/// The candidates whose key in `ckeys` is `key`, in order.
fn members_with_key(candidates: &Vec<FileCandidate>, ckeys: &Vec<Vec<char>>, key: &Vec<char>, bundle_kind: BundleKind, zone: Ghost<Seq<char>>) -> (r: Vec<FileCandidate>)
    requires
        ckeys@.len() == candidates@.len(),
        forall|y: int| 0 <= y < ckeys@.len() ==> (#[trigger] ckeys@[y])@ == spec_bundle_key(candidates@[y]@.basis, bundle_kind, zone@),
    ensures
        candidate_views(r@) == with_key(candidate_views(candidates@), key@, bundle_kind, zone@),
{
    let ghost cs = candidate_views(candidates@);
    let mut members: Vec<FileCandidate> = Vec::new();
    let mut x: usize = 0;
    while x < candidates.len()
        invariant
            x <= candidates@.len(),
            cs == candidate_views(candidates@),
            ckeys@.len() == candidates@.len(),
            forall|y: int| 0 <= y < ckeys@.len() ==> (#[trigger] ckeys@[y])@ == spec_bundle_key(candidates@[y]@.basis, bundle_kind, zone@),
            candidate_views(members@) == with_key(cs.take(x as int), key@, bundle_kind, zone@),
        decreases candidates@.len() - x,
    {
        let ghost t = cs.take(x + 1);
        assert(t.drop_last() =~= cs.take(x as int));
        assert(t.last() == cs[x as int]);
        if compare_chars(&ckeys[x], key) == 0 {
            let ghost before = members@;
            members.push(candidates[x].clone());
            assert(candidate_views(members@) =~= candidate_views(before).push(cs[x as int]));
        }
        x = x + 1;
    }
    assert(cs.take(x as int) =~= cs);
    members
}

/// Groups candidates by the period key of their basis (see [`is_grouping`]):
/// every candidate lands in exactly the group of its key.
pub fn group_by_period(candidates: &Vec<FileCandidate>, bundle_kind: BundleKind, timezone: &Zone) -> (r: Vec<PeriodGroup>)
    ensures
        is_grouping(r@, candidate_views(candidates@), bundle_kind, timezone@),
{
    let ghost cs = candidate_views(candidates@);
    let ckeys = period_keys(candidates, bundle_kind, timezone);
    let keys = distinct_sorted(&ckeys);
    let ghost kv = crate::path::views(keys@);
    let ghost cv = crate::path::views(ckeys@);
    let mut groups: Vec<PeriodGroup> = Vec::new();
    let mut g: usize = 0;
    while g < keys.len()
        invariant
            g <= keys@.len(),
            cs == candidate_views(candidates@),
            kv == crate::path::views(keys@),
            cv == crate::path::views(ckeys@),
            ckeys@.len() == candidates@.len(),
            forall|y: int| 0 <= y < ckeys@.len() ==> (#[trigger] ckeys@[y])@ == spec_bundle_key(candidates@[y]@.basis, bundle_kind, timezone@),
            forall|x: Seq<char>| holds_key(kv, x) <==> holds_key(cv, x),
            groups@.len() == g,
            forall|h: int| 0 <= h < g ==> (#[trigger] groups@[h]).period_key@ == kv[h],
            forall|h: int| 0 <= h < g ==> candidate_views((#[trigger] groups@[h]).members@) == with_key(cs, kv[h], bundle_kind, timezone@),
            forall|h: int| 0 <= h < g ==> (#[trigger] groups@[h]).members@.len() > 0,
        decreases keys@.len() - g,
    {
        let key = &keys[g];
        let members = members_with_key(candidates, &ckeys, key, bundle_kind, Ghost(timezone@));
        proof {
            assert(holds_key(kv, kv[g as int]));
            let y = choose|y: int| 0 <= y < cv.len() && #[trigger] cv[y] == kv[g as int];
            assert(cs[y].basis == candidates@[y]@.basis);
            lemma_with_key_nonempty(cs, key@, bundle_kind, timezone@, y);
        }
        let period_key = string_of(key);
        groups.push(PeriodGroup { period_key, members });
        g = g + 1;
    }
    proof {
        assert forall|h: int| 0 <= h < groups@.len() implies
            candidate_views(#[trigger] groups@[h].members@) == with_key(cs, groups@[h].period_key@, bundle_kind, timezone@) by {
            assert(groups@[h].period_key@ == kv[h]);
        }
        assert forall|h: int| 0 <= h < groups@.len() implies (#[trigger] groups@[h].members@).len() > 0 by {
            assert(groups@[h].members@.len() > 0);
        }
        assert forall|g1: int, g2: int| 0 <= g1 < g2 < groups@.len() implies
            seq_lt(#[trigger] groups@[g1].period_key@, #[trigger] groups@[g2].period_key@) by {
            assert(seq_lt(kv[g1], kv[g2]));
        }
        assert forall|i: int| 0 <= i < cs.len() implies has_group(groups@, spec_bundle_key(#[trigger] cs[i].basis, bundle_kind, timezone@)) by {
            assert(cv[i] == ckeys@[i]@);
            assert(cs[i] == candidates@[i]@);
            assert(holds_key(cv, cv[i]));
            let h = choose|h: int| 0 <= h < kv.len() && #[trigger] kv[h] == cv[i];
            assert(groups@[h].period_key@ == kv[h]);
        }
        assert(is_grouping(groups@, cs, bundle_kind, timezone@));
    }
    groups
}

/// The paths of candidates.
pub open spec fn paths_of(cs: Seq<CandidateView>) -> Seq<Seq<char>> {
    Seq::new(cs.len(), |i: int| cs[i].path)
}

/// The paths of the candidates whose basis is not later than `mtime`.
pub open spec fn not_newer_paths(cs: Seq<CandidateView>, mtime: (int, int)) -> Seq<Seq<char>>
    decreases cs.len(),
{
    if cs.len() == 0 {
        seq![]
    } else {
        let rest = not_newer_paths(cs.drop_last(), mtime);
        if not_later(cs.last().basis, mtime) { rest.push(cs.last().path) } else { rest }
    }
}

/// The paths of the candidates whose basis is later than `mtime`.
pub open spec fn newer_paths(cs: Seq<CandidateView>, mtime: (int, int)) -> Seq<Seq<char>>
    decreases cs.len(),
{
    if cs.len() == 0 {
        seq![]
    } else {
        let rest = newer_paths(cs.drop_last(), mtime);
        if !not_later(cs.last().basis, mtime) { rest.push(cs.last().path) } else { rest }
    }
}

/// The outcome for a period whose bundle already exists, with modification
/// time `mtime`: the bundle is left as it is; members not newer than it
/// count as included; newer members are listed as stale under `Warn`,
/// while under `Error` the first of them fails the group.
pub open spec fn is_existing_bundle_outcome(r: Result<BundleRunResult, ArchiveError>, cs: Seq<CandidateView>,
    mtime: (int, int), policy: OnStaleBundleMember, bundle: Seq<char>) -> bool
{
    if policy == OnStaleBundleMember::Error && newer_paths(cs, mtime).len() > 0 {
        r matches Err(ArchiveError::StaleBundleMember { path, bundle: b })
            && path@ == newer_paths(cs, mtime)[0] && b@ == bundle
    } else {
        r matches Ok(res) && res.bundle_path@ == bundle && !res.created
            && string_views(res.included@) == not_newer_paths(cs, mtime)
            && string_views(res.stale@) == newer_paths(cs, mtime)
    }
}

proof fn lemma_newer_paths_prefix(cs: Seq<CandidateView>, mtime: (int, int), k: int)
    requires
        0 <= k <= cs.len(),
        newer_paths(cs.take(k), mtime).len() > 0,
    ensures
        newer_paths(cs, mtime).len() > 0,
        newer_paths(cs, mtime)[0] == newer_paths(cs.take(k), mtime)[0],
    decreases cs.len() - k,
{
    if k < cs.len() {
        assert(cs.drop_last().take(k) =~= cs.take(k));
        lemma_newer_paths_prefix(cs.drop_last(), mtime, k);
    } else {
        assert(cs.take(k) =~= cs);
    }
}

/// Decides the outcome for a period whose bundle already exists (see
/// [`is_existing_bundle_outcome`]). Neither the bundle nor the files are touched.
pub fn existing_bundle_outcome(members: &Vec<FileCandidate>, existing_mtime: &Timestamp,
    policy: OnStaleBundleMember, bundle_path: &str) -> (r: Result<BundleRunResult, ArchiveError>)
    ensures
        is_existing_bundle_outcome(r, candidate_views(members@), existing_mtime@, policy, bundle_path@),
{
    let ghost cs = candidate_views(members@);
    let mut included: Vec<String> = Vec::new();
    let mut stale: Vec<String> = Vec::new();
    let mut i: usize = 0;
    while i < members.len()
        invariant
            i <= members@.len(),
            cs == candidate_views(members@),
            string_views(included@) == not_newer_paths(cs.take(i as int), existing_mtime@),
            string_views(stale@) == newer_paths(cs.take(i as int), existing_mtime@),
            policy == OnStaleBundleMember::Error ==> newer_paths(cs.take(i as int), existing_mtime@).len() == 0,
        decreases members@.len() - i,
    {
        let member = &members[i];
        let ghost t = cs.take(i + 1);
        assert(t.drop_last() =~= cs.take(i as int));
        assert(t.last() == cs[i as int]);
        assert(cs[i as int] == member@);
        if member.basis_datetime.le(existing_mtime) {
            let ghost before = included@;
            included.push(member.path.clone());
            assert(string_views(included@) =~= string_views(before).push(member.path@));
        } else {
            match policy {
                OnStaleBundleMember::Warn => {
                    let ghost before = stale@;
                    stale.push(member.path.clone());
                    assert(string_views(stale@) =~= string_views(before).push(member.path@));
                },
                OnStaleBundleMember::Error => {
                    proof {
                        assert(newer_paths(t, existing_mtime@) =~= seq![member.path@]);
                        lemma_newer_paths_prefix(cs, existing_mtime@, i + 1);
                    }
                    return Err(ArchiveError::StaleBundleMember {
                        path: member.path.clone(),
                        bundle: bundle_path.to_owned(),
                    });
                },
            }
        }
        i = i + 1;
    }
    assert(cs.take(i as int) =~= cs);
    Ok(BundleRunResult { bundle_path: bundle_path.to_owned(), created: false, included, stale })
}

/// The latest basis among candidates.
pub open spec fn max_basis(cs: Seq<CandidateView>) -> (int, int)
    decreases cs.len(),
{
    if cs.len() <= 1 {
        cs[0].basis
    } else {
        let m = max_basis(cs.drop_last());
        if not_later(cs.last().basis, m) { m } else { cs.last().basis }
    }
}

/// The name of a member inside a bundle: its path relative to the target's
/// `basedir` (its whole path when it is not below it), with forward slashes.
pub open spec fn spec_entry_name(path: Seq<char>, basedir: Seq<char>) -> Seq<char> {
    let rel = match spec_strip_prefix(path, basedir) { Some(r) => r, None => path };
    replace_char(rel, '\\', '/')
}

/// One file to put into a bundle, and its name inside it.
#[derive(Debug, Clone, PartialEq, Eq)]
pub struct BundleEntry {
    pub path: String,
    pub name: String,
}

/// What to do to create a new bundle: write `entries` into `temp_path`
/// (one zip archive for the zip format, else one tar.gz),
/// rename it to the bundle's path, set its modification time to `mtime`,
/// and remove the originals when `remove_originals` holds. `result` is the
/// outcome once that is done.
#[derive(Debug)]
pub struct NewBundlePlan {
    pub temp_path: String,
    pub entries: Vec<BundleEntry>,
    pub format: ArchiveFormat,
    pub mtime: Timestamp,
    pub remove_originals: bool,
    pub result: BundleRunResult,
}

/// Plans a new bundle for a period: every member is written under its
/// entry name (see [`spec_entry_name`]), the bundle takes the latest basis
/// of its members as modification time, the originals are removed unless
/// they are kept, and all members count as included.
pub fn plan_new_bundle(target: &WatchTargetRef, members: &Vec<FileCandidate>, config: &ArchiveConfig,
    bundle_path: &str) -> (r: NewBundlePlan)
    requires
        members@.len() > 0,
    ensures
        r.temp_path@ == spec_temp_path(bundle_path@),
        r.entries@.len() == members@.len(),
        forall|i: int| 0 <= i < members@.len() ==> (#[trigger] r.entries@[i]).path@ == members@[i].path@
            && r.entries@[i].name@ == spec_entry_name(members@[i].path@, target.basedir@),
        r.format == config.format,
        r.mtime@ == max_basis(candidate_views(members@)),
        r.remove_originals == !config.keep_original,
        r.result.bundle_path@ == bundle_path@,
        r.result.created,
        string_views(r.result.included@) == paths_of(candidate_views(members@)),
        r.result.stale@.len() == 0,
{
    let ghost cs = candidate_views(members@);
    let mut entries: Vec<BundleEntry> = Vec::new();
    let mut included: Vec<String> = Vec::new();
    let mut latest = members[0].basis_datetime.clone();
    let mut i: usize = 0;
    assert(cs.take(1) =~= seq![cs[0]]);
    while i < members.len()
        invariant
            i <= members@.len(),
            members@.len() > 0,
            cs == candidate_views(members@),
            entries@.len() == i,
            forall|j: int| 0 <= j < i ==> (#[trigger] entries@[j]).path@ == members@[j].path@
                && entries@[j].name@ == spec_entry_name(members@[j].path@, target.basedir@),
            string_views(included@) == paths_of(cs.take(i as int)),
            latest@ == max_basis(cs.take(if i == 0 { 1 } else { i as int })),
        decreases members@.len() - i,
    {
        let member = &members[i];
        let rel = match strip_prefix(member.path.as_str(), target.basedir.as_str()) {
            Some(r) => r,
            None => member.path.clone(),
        };
        let name = string_of(&replaced(&chars_of(rel.as_str()), '\\', '/'));
        entries.push(BundleEntry { path: member.path.clone(), name });
        let ghost before = included@;
        included.push(member.path.clone());
        proof {
            assert(cs[i as int] == member@);
            assert(string_views(included@) =~= string_views(before).push(member.path@));
            assert(paths_of(cs.take(i + 1)) =~= paths_of(cs.take(i as int)).push(cs[i as int].path));
        }
        if i > 0 {
            let ghost t = cs.take(i + 1);
            assert(t.drop_last() =~= cs.take(i as int));
            assert(t.last() == member@);
            latest = latest.max(&member.basis_datetime);
        }
        i = i + 1;
    }
    assert(cs.take(i as int) =~= cs);
    NewBundlePlan {
        temp_path: temp_path_for(bundle_path),
        entries,
        format: config.format,
        mtime: latest,
        remove_originals: !config.keep_original,
        result: BundleRunResult {
            bundle_path: bundle_path.to_owned(),
            created: true,
            included,
            stale: Vec::new(),
        },
    }
}

/// The outcome of archiving one file whose archive already exists: nothing
/// is written and the existing archive is reported as not created. When
/// `destination_exists` does not hold, there is no such outcome and the
/// plan is to be carried out.
pub fn existing_archive_outcome(plan: &SingleFilePlan, destination_exists: bool) -> (r: Option<SingleFileRunResult>)
    ensures
        r is Some <==> destination_exists,
        r matches Some(res) ==> res.destination@ == plan.destination@ && !res.created,
{
    if destination_exists {
        Some(SingleFileRunResult { destination: plan.destination.clone(), created: false })
    } else {
        None
    }
}

/// What to do to archive one file: write it (in the configured format, as
/// `entry_name` inside a tar.gz) into `temp_path`, rename that to
/// `destination`, set its modification time to the file's basis, and
/// remove the original when `remove_original` holds. Nothing is done when
/// `destination` already exists.
#[derive(Debug)]
pub struct SingleFilePlan {
    pub destination: String,
    pub temp_path: String,
    pub entry_name: String,
    pub format: ArchiveFormat,
    pub mtime: Timestamp,
    pub remove_original: bool,
}

/// Plans the archive of one file: its name (see
/// [`ArchiveNamer::single_file_name`]), its temporary name, the file's
/// name as the entry name, and whether the original goes.
pub fn plan_single_file(candidate: &FileCandidate, config: &ArchiveConfig) -> (r: SingleFilePlan)
    ensures
        r.destination@ == spec_single_file_name(candidate.path@, candidate.basis_datetime@, config.format),
        r.temp_path@ == spec_temp_path(r.destination@),
        r.entry_name@ == (match spec_file_name(candidate.path@) { Some(n) => n, None => "file"@ }),
        r.format == config.format,
        r.mtime@ == candidate.basis_datetime@,
        r.remove_original == !config.keep_original,
{
    let destination = ArchiveNamer::single_file_name(candidate.path.as_str(), &candidate.basis_datetime, config.format);
    let temp_path = temp_path_for(destination.as_str());
    let entry_name = match file_name(candidate.path.as_str()) {
        Some(n) => n,
        None => "file".to_owned(),
    };
    SingleFilePlan {
        destination,
        temp_path,
        entry_name,
        format: config.format,
        mtime: candidate.basis_datetime.clone(),
        remove_original: !config.keep_original,
    }
}

/// Grouping by period is a partition: every candidate belongs to exactly
/// one group, the one of its own period key.
pub proof fn law_grouping_is_a_partition(groups: Seq<PeriodGroup>, cs: Seq<CandidateView>, kind: BundleKind, zone: Seq<char>, i: int)
    requires
        is_grouping(groups, cs, kind, zone),
        0 <= i < cs.len(),
    ensures
        exists|g: int| 0 <= g < groups.len() && #[trigger] groups[g].period_key@ == spec_bundle_key(cs[i].basis, kind, zone),
        forall|g1: int, g2: int| 0 <= g1 < groups.len() && 0 <= g2 < groups.len()
            && #[trigger] groups[g1].period_key@ == spec_bundle_key(cs[i].basis, kind, zone)
            && #[trigger] groups[g2].period_key@ == spec_bundle_key(cs[i].basis, kind, zone) ==> g1 == g2,
{
    assert(has_group(groups, spec_bundle_key(cs[i].basis, kind, zone)));
    assert forall|g1: int, g2: int| 0 <= g1 < groups.len() && 0 <= g2 < groups.len()
        && #[trigger] groups[g1].period_key@ == spec_bundle_key(cs[i].basis, kind, zone)
        && #[trigger] groups[g2].period_key@ == spec_bundle_key(cs[i].basis, kind, zone) implies g1 == g2 by {
        if g1 < g2 {
            lemma_seq_lt_irreflexive(groups[g1].period_key@, groups[g2].period_key@);
        } else if g2 < g1 {
            lemma_seq_lt_irreflexive(groups[g2].period_key@, groups[g1].period_key@);
        }
    }
}

proof fn lemma_max_basis_bounds(cs: Seq<CandidateView>, m: (int, int))
    requires
        cs.len() > 0,
        not_later(max_basis(cs), m),
    ensures
        not_newer_paths(cs, m) == paths_of(cs),
        newer_paths(cs, m).len() == 0,
    decreases cs.len(),
{
    let rest = cs.drop_last();
    if cs.len() > 1 {
        assert(not_later(max_basis(rest), max_basis(cs)));
        assert(not_later(cs.last().basis, max_basis(cs)));
        lemma_max_basis_bounds(rest, m);
        assert(paths_of(cs) =~= paths_of(rest).push(cs.last().path));
    } else {
        assert(rest.len() == 0);
        assert(cs.last() == cs[0]);
        assert(max_basis(cs) == cs[0].basis);
        assert(not_newer_paths(rest, m) == Seq::<Seq<char>>::empty());
        assert(newer_paths(rest, m) == Seq::<Seq<char>>::empty());
        assert(paths_of(cs) =~= seq![cs[0].path]);
    }
}

/// Bundling is idempotent: a bundle carries the latest basis of its members
/// as its time, so when the same members are met again, the existing bundle
/// is left as it is and every member counts as included, none as stale,
/// and no error comes up, whatever the stale-member policy.
pub proof fn law_rebundling_changes_nothing(cs: Seq<CandidateView>, policy: OnStaleBundleMember, bundle: Seq<char>,
    r: Result<BundleRunResult, ArchiveError>)
    requires
        cs.len() > 0,
        is_existing_bundle_outcome(r, cs, max_basis(cs), policy, bundle),
    ensures
        r matches Ok(res) && !res.created && res.bundle_path@ == bundle
            && string_views(res.included@) == paths_of(cs) && res.stale@.len() == 0,
{
    lemma_max_basis_bounds(cs, max_basis(cs));
    if let Ok(res) = r {
        assert(string_views(res.stale@).len() == 0);
    }
}

} // verus!
