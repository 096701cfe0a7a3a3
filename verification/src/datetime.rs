//! Instants in UTC and the calendar work done on them by `chrono` and
//! `chrono-tz`.
//!
//! A [`Timestamp`] is a date and time in UTC within the range that `chrono`
//! can represent, held as `chrono` holds it: the whole seconds since the
//! Unix epoch (leap seconds not counted) and the nanoseconds into that
//! second. On a leap second, which `chrono` keeps as the last second of a
//! minute carried past its end, the nanoseconds reach past one second. Its
//! view is that pair.

use vstd::prelude::*;
use chrono::{DateTime, Datelike, NaiveDate, NaiveDateTime, Utc};
use std::str::FromStr;
use crate::text::{decimal, zero_pad};

verus! {

/// The earliest second that `chrono` can represent (January 1 of the year -262143).
pub const MIN_SECS: i64 = -8334601228800;

/// The latest second that `chrono` can represent (the end of December 31, 262142).
pub const MAX_SECS: i64 = 8210266876799;

/// Nanoseconds in one second.
pub const NANOS_PER_SEC: u32 = 1_000_000_000;

/// Nanoseconds in two seconds: the bound of the nanoseconds on a leap second.
pub const NANOS_PER_LEAP_SEC: u32 = 2_000_000_000;

/// Seconds in one day.
pub const SECS_PER_DAY: i64 = 86_400;

/// Nanoseconds in one day.
pub open spec fn nanos_per_day() -> int {
    86_400_000_000_000
}

/// Whether (`secs`, `nanos`) names a date and time that `chrono` can
/// represent: the seconds in its range, and the nanoseconds below one
/// second, or below two on a leap second, which only the last second of a
/// minute (second 59) can carry.
pub open spec fn in_range(secs: int, nanos: int) -> bool {
    &&& MIN_SECS <= secs <= MAX_SECS
    &&& 0 <= nanos
    &&& (nanos < NANOS_PER_SEC || (nanos < NANOS_PER_LEAP_SEC && secs % 60 == 59))
}

/// Whether `a` is not later than `b`, in the order of `chrono`: by the
/// seconds, then by the nanoseconds (so a leap second comes after the rest
/// of its second and before the next one).
pub open spec fn not_later(a: (int, int), b: (int, int)) -> bool {
    a.0 < b.0 || (a.0 == b.0 && a.1 <= b.1)
}

/// The time of day of `secs` seconds since the epoch, in seconds since midnight.
pub open spec fn second_of_day(secs: int) -> int {
    secs % 86_400
}

/// The duration from `basis` to `now` in nanoseconds, as `chrono` measures
/// it (`now - basis`): the difference of the seconds and of the nanoseconds,
/// where a leap second of one side is counted as a whole extra second when
/// the other side's time of day lies past it, as `chrono` does.
pub open spec fn duration_nanos(now: (int, int), basis: (int, int)) -> int {
    let adjust: int = if second_of_day(now.0) > second_of_day(basis.0) && basis.1 >= NANOS_PER_SEC {
        1
    } else if second_of_day(now.0) < second_of_day(basis.0) && now.1 >= NANOS_PER_SEC {
        -1
    } else {
        0
    };
    (now.0 - basis.0 + adjust) * 1_000_000_000 + now.1 - basis.1
}

/// Division that rounds toward zero, as Rust's `/` on signed integers.
pub open spec fn trunc_div(a: int, b: int) -> int {
    if a >= 0 {
        a / b
    } else {
        -((-a) / b)
    }
}

/// Whole days elapsed from `basis` to `now` (negative when `basis` is
/// later), counted as `chrono` counts the days of a `TimeDelta`: the
/// duration (see [`duration_nanos`]) divided by one day, rounded toward zero.
pub open spec fn spec_elapsed_days(now: (int, int), basis: (int, int)) -> int {
    trunc_div(duration_nanos(now, basis), nanos_per_day())
}

/// The date and time `nanos` nanoseconds after the epoch (never a leap second).
pub open spec fn at_instant(nanos: int) -> (int, int) {
    (nanos / 1_000_000_000, nanos % 1_000_000_000)
}

/// The same time of day, `days` days later.
pub open spec fn days_later(t: (int, int), days: int) -> (int, int) {
    (t.0 + days * 86_400, t.1)
}

/// The last nanosecond before `t`, in `chrono`'s order.
pub open spec fn nanosecond_before(t: (int, int)) -> (int, int) {
    if t.1 > 0 {
        (t.0, t.1 - 1)
    } else {
        (t.0 - 1, 999_999_999)
    }
}

/// The time of day of `secs`, computed from an offset that is never negative.
fn second_of_day_of(secs: i64) -> (r: i64)
    requires
        MIN_SECS <= secs <= MAX_SECS,
    ensures
        r == second_of_day(secs as int),
        0 <= r < 86_400,
{
    let offset: i64 = secs - MIN_SECS;
    proof {
        vstd::arithmetic::div_mod::lemma_mod_multiples_vanish(96_465_292, secs as int, 86_400);
        assert(offset as int == 86_400 * 96_465_292 + secs);
    }
    offset % SECS_PER_DAY
}

/// An instant in UTC.
#[derive(Debug, PartialEq, Eq)]
pub struct Timestamp {
    secs: i64,
    nanos: u32,
}

impl View for Timestamp {
    type V = (int, int);

    closed spec fn view(&self) -> (int, int) {
        (self.secs as int, self.nanos as int)
    }
}

impl Clone for Timestamp {
    fn clone(&self) -> (r: Self)
        ensures
            r@ == self@,
    {
        proof {
            use_type_invariant(self);
        }
        Timestamp { secs: self.secs, nanos: self.nanos }
    }
}

impl Timestamp {
    #[verifier::type_invariant]
    spec fn well_formed(self) -> bool {
        in_range(self.secs as int, self.nanos as int)
    }

    /// The timestamp `secs` seconds and `nanos` nanoseconds after the epoch,
    /// when `chrono` can represent that (see [`in_range`]).
    pub fn new(secs: i64, nanos: u32) -> (r: Option<Timestamp>)
        ensures
            r is Some <==> in_range(secs as int, nanos as int),
            r matches Some(t) ==> t@ == (secs as int, nanos as int),
    {
        if secs < MIN_SECS || secs > MAX_SECS || nanos >= NANOS_PER_LEAP_SEC {
            return None;
        }
        if nanos < NANOS_PER_SEC {
            return Some(Timestamp { secs, nanos });
        }
        let offset: i64 = secs - MIN_SECS;
        proof {
            vstd::arithmetic::div_mod::lemma_mod_multiples_vanish(138_910_020_480, secs as int, 60);
            assert(offset as int == 60 * 138_910_020_480 + secs);
        }
        if offset % 60 == 59 {
            Some(Timestamp { secs, nanos })
        } else {
            None
        }
    }

    /// Whole seconds since the epoch, leap seconds not counted.
    pub fn secs(&self) -> (r: i64)
        ensures
            r == self@.0,
            MIN_SECS <= r <= MAX_SECS,
    {
        proof {
            use_type_invariant(self);
        }
        self.secs
    }

    /// Nanoseconds into the current second (past one second on a leap second).
    pub fn subsec_nanos(&self) -> (r: u32)
        ensures
            r == self@.1,
            in_range(self@.0, r as int),
    {
        proof {
            use_type_invariant(self);
        }
        self.nanos
    }

    /// Whether `self` is not later than `other` (see [`not_later`]).
    pub fn le(&self, other: &Timestamp) -> (r: bool)
        ensures
            r == not_later(self@, other@),
    {
        self.secs < other.secs || (self.secs == other.secs && self.nanos <= other.nanos)
    }

    /// The later of two timestamps (`self` when they are equal).
    pub fn max(&self, other: &Timestamp) -> (r: Timestamp)
        ensures
            r@ == (if not_later(other@, self@) { self@ } else { other@ }),
    {
        if other.le(self) {
            self.clone()
        } else {
            other.clone()
        }
    }
}

/// Whole days elapsed from `basis` to `now` (see [`spec_elapsed_days`]).
pub fn elapsed_days(now: &Timestamp, basis: &Timestamp) -> (r: i64)
    ensures
        r == spec_elapsed_days(now@, basis@),
{
    proof {
        use_type_invariant(now);
        use_type_invariant(basis);
    }
    let tn = second_of_day_of(now.secs);
    let tb = second_of_day_of(basis.secs);
    let adjust: i128 = if tn > tb && basis.nanos >= NANOS_PER_SEC {
        1
    } else if tn < tb && now.nanos >= NANOS_PER_SEC {
        -1
    } else {
        0
    };
    let d: i128 = (now.secs as i128 - basis.secs as i128 + adjust) * 1_000_000_000 + now.nanos as i128
        - basis.nanos as i128;
    let day: i128 = 86_400_000_000_000;
    let q: i128 = if d >= 0 {
        d / day
    } else {
        -((-d) / day)
    };
    assert(d == duration_nanos(now@, basis@));
    assert(-200_000_000 <= q <= 200_000_000);
    q as i64
}

/// The strftime patterns that this library renders in a time zone.
pub open spec fn zoned_format(fmt: Seq<char>) -> bool {
    fmt == "%Y-%m-%d"@ || fmt == "%Y-%m"@
}

/// The date (year, month, day) in the proleptic Gregorian calendar that
/// lies `days` days after 1970-01-01 (before it when negative), counted in
/// eras of 400 years that start on March 1.
pub open spec fn civil_from_days(days: int) -> (int, int, int) {
    let z = days + 719_468;
    let era = z / 146_097;
    let doe = z - era * 146_097;
    let yoe = (doe - doe / 1_460 + doe / 36_524 - doe / 146_096) / 365;
    let doy = doe - (365 * yoe + yoe / 4 - yoe / 100);
    let mp = (5 * doy + 2) / 153;
    let d = doy - (153 * mp + 2) / 5 + 1;
    let m = if mp < 10 { mp + 3 } else { mp - 9 };
    (yoe + era * 400 + (if m <= 2 { 1int } else { 0int }), m, d)
}

/// A year as `chrono` writes it for `%Y`: four digits, zero-padded, for the
/// years 0 to 9999; other years with a sign and at least four digits.
pub open spec fn year_text(y: int) -> Seq<char> {
    if 0 <= y <= 9999 {
        zero_pad(decimal(y as nat), 4)
    } else if y < 0 {
        seq!['-'] + zero_pad(decimal((-y) as nat), 4)
    } else {
        seq!['+'] + zero_pad(decimal(y as nat), 4)
    }
}

/// A number below 100 written with two digits, as `chrono` writes months,
/// days, hours, minutes and seconds.
pub open spec fn two_digits(v: int) -> Seq<char> {
    zero_pad(decimal(v as nat), 2)
}

/// The strftime patterns that this library renders in UTC.
pub open spec fn utc_format(fmt: Seq<char>) -> bool {
    fmt == "%Y%m%dT%H%M%SZ"@ || fmt == "%Y/%m"@
}

/// The text of the UTC date and time `instant` (as a [`Timestamp`] views
/// it) for one of the patterns of [`utc_format`]: `%Y/%m` gives the year
/// and month, `%Y%m%dT%H%M%SZ` the year, month, day, hour, minute and
/// second. The second of a leap second is written `60`.
pub open spec fn utc_text(instant: (int, int), fmt: Seq<char>) -> Seq<char> {
    let (y, m, d) = civil_from_days(instant.0 / 86_400);
    let sod = instant.0 % 86_400;
    let sec = sod % 60 + (if instant.1 >= 1_000_000_000 { 1int } else { 0int });
    if fmt == "%Y/%m"@ {
        year_text(y) + "/"@ + two_digits(m)
    } else {
        year_text(y) + two_digits(m) + two_digits(d) + "T"@ + two_digits(sod / 3_600)
            + two_digits(sod % 3_600 / 60) + two_digits(sec) + "Z"@
    }
}

/// Calls `DateTime::<Utc>::format(fmt).to_string()` on the UTC date and
/// time of `t`. The contract claims that the text is the one of
/// [`utc_text`]: the calendar date of the instant, its time of day, and
/// `chrono`'s way of writing the year and the numbers. `fmt` is one of the
/// patterns that `chrono` renders without error, so the call does not
/// panic, and `t` lies in the range `chrono` represents.
#[verifier::external_body]
pub(crate) fn format_utc(t: &Timestamp, fmt: &str) -> (r: String)
    requires
        utc_format(fmt@),
    ensures
        r@ == utc_text(t@, fmt@),
{
    DateTime::<Utc>::from_timestamp(t.secs, t.nanos).expect("timestamp in range").format(fmt).to_string()
}

/// A time zone of the IANA database, known by its name.
#[verifier::external_type_specification]
#[verifier::external_body]
pub struct ExTz(chrono_tz::Tz);

/// A time zone of the IANA database, together with the name it was looked
/// up by.
pub struct Zone {
    name: String,
    tz: chrono_tz::Tz,
}

impl View for Zone {
    type V = Seq<char>;

    closed spec fn view(&self) -> Seq<char> {
        self.name@
    }
}

/// Whether `chrono-tz` knows a time zone by the exact name `name`.
pub uninterp spec fn zone_name_known(name: Seq<char>) -> bool;

impl Zone {
    /// Looks the time zone up by name with `<chrono_tz::Tz as FromStr>::from_str`.
    /// The contract claims that a zone comes back exactly when `chrono-tz`
    /// knows the name, and that it carries that name.
    #[verifier::external_body]
    pub(crate) fn lookup(name: &str) -> (r: Option<Zone>)
        ensures
            r is Some <==> zone_name_known(name@),
            r matches Some(z) ==> z@ == name@,
    {
        chrono_tz::Tz::from_str(name).ok().map(|tz| Zone { name: name.to_string(), tz })
    }

    /// The name the zone was looked up by.
    pub fn name(&self) -> (r: &str)
        ensures
            r@ == self@,
    {
        self.name.as_str()
    }
}

/// The text that `chrono` renders for the local date and time of `instant`
/// (as a [`Timestamp`] views it) in the zone named `zone` with the strftime
/// pattern `fmt`.
pub uninterp spec fn zoned_strftime(instant: (int, int), zone: Seq<char>, fmt: Seq<char>) -> Seq<char>;

/// Calls `DateTime::with_timezone` into `zone` and then `format(fmt).to_string()`.
/// The contract claims only that the text is a function of the instant,
/// the zone's name and the pattern.
#[verifier::external_body]
pub(crate) fn format_zoned(t: &Timestamp, zone: &Zone, fmt: &str) -> (r: String)
    requires
        zoned_format(fmt@),
    ensures
        r@ == zoned_strftime(t@, zone@, fmt@),
{
    DateTime::<Utc>::from_timestamp(t.secs, t.nanos).expect("timestamp in range")
        .with_timezone(&zone.tz).format(fmt).to_string()
}

/// The ISO 8601 week-numbering year and week of the local date of
/// `instant` in the zone named `zone`.
pub uninterp spec fn zoned_iso_week(instant: (int, int), zone: Seq<char>) -> (int, int);

/// Calls `Datelike::iso_week` on the local date of `t` in `zone`, and
/// returns its `year()` and `week()`. The contract claims that the pair is a
/// function of the instant and the zone's name, and that the week lies in
/// 1..=53 as `chrono` documents.
#[verifier::external_body]
pub(crate) fn iso_week_zoned(t: &Timestamp, zone: &Zone) -> (r: (i32, u32))
    ensures
        (r.0 as int, r.1 as int) == zoned_iso_week(t@, zone@),
        1 <= r.1 <= 53,
{
    let iso = DateTime::<Utc>::from_timestamp(t.secs, t.nanos).expect("timestamp in range")
        .with_timezone(&zone.tz).iso_week();
    (iso.year(), iso.week())
}

/// The result of `NaiveDateTime::parse_from_str(text, fmt)` read as a UTC
/// date and time: its whole seconds since the epoch and the nanoseconds
/// into that second (past one second on a leap second), or none when the
/// text does not parse.
pub uninterp spec fn naive_datetime_parse(text: Seq<char>, fmt: Seq<char>) -> Option<(int, int)>;

/// Calls `NaiveDateTime::parse_from_str` and converts a success with
/// `and_utc()` into (`timestamp()`, `timestamp_subsec_nanos()`). The
/// contract claims that the outcome is a function of the text and the
/// pattern, and that a parsed date and time is one `chrono` represents
/// (its date within `NaiveDate`'s range, a leap second only on second 59).
#[verifier::external_body]
pub(crate) fn parse_naive_datetime(text: &str, fmt: &str) -> (r: Option<(i64, u32)>)
    ensures
        match r {
            Some((s, n)) => naive_datetime_parse(text@, fmt@) == Some((s as int, n as int)) && in_range(s as int, n as int),
            None => naive_datetime_parse(text@, fmt@) is None,
        },
{
    NaiveDateTime::parse_from_str(text, fmt).ok().map(|dt| {
        let utc = dt.and_utc();
        (utc.timestamp(), utc.timestamp_subsec_nanos())
    })
}

/// The result of `NaiveDate::parse_from_str(text, fmt)` taken at midnight
/// UTC: its seconds since the epoch, or none when the text does not parse.
pub uninterp spec fn naive_date_parse(text: Seq<char>, fmt: Seq<char>) -> Option<int>;

/// Calls `NaiveDate::parse_from_str` and converts a success with
/// `and_hms_opt(0, 0, 0)` and `and_utc().timestamp()`. The contract claims
/// that the outcome is a function of the text and the pattern, and that a
/// parsed date lies in `chrono`'s range, at midnight.
#[verifier::external_body]
pub(crate) fn parse_naive_date(text: &str, fmt: &str) -> (r: Option<i64>)
    ensures
        match r {
            Some(s) => naive_date_parse(text@, fmt@) == Some(s as int) && MIN_SECS <= s <= MAX_SECS,
            None => naive_date_parse(text@, fmt@) is None,
        },
{
    NaiveDate::parse_from_str(text, fmt).ok()
        .and_then(|d| d.and_hms_opt(0, 0, 0))
        .map(|dt| dt.and_utc().timestamp())
}

/// The result of `DateTime::parse_from_rfc3339(text)` taken in UTC: its
/// whole seconds since the epoch and the nanoseconds into that second (above
/// a second's worth on a leap second), or the message of the parse error.
pub uninterp spec fn rfc3339_parse(text: Seq<char>) -> Result<(int, int), Seq<char>>;

/// Calls `DateTime::parse_from_rfc3339` and converts a success with
/// `with_timezone(&Utc)` into (`timestamp()`, `timestamp_subsec_nanos()`),
/// an error into its message. The contract claims that the outcome is a
/// function of the text, and that a parsed instant is one `chrono`
/// represents in UTC (a date out of range is a parse error; the offsets of
/// RFC 3339 are whole minutes, so a leap second stays on second 59).
#[verifier::external_body]
pub(crate) fn parse_rfc3339(text: &str) -> (r: Result<(i64, u32), String>)
    ensures
        match r {
            Ok((s, n)) => rfc3339_parse(text@) == Ok::<(int, int), Seq<char>>((s as int, n as int))
                && in_range(s as int, n as int),
            Err(m) => rfc3339_parse(text@) == Err::<(int, int), Seq<char>>(m@),
        },
{
    DateTime::parse_from_rfc3339(text)
        .map(|dt| {
            let utc = dt.with_timezone(&Utc);
            (utc.timestamp(), utc.timestamp_subsec_nanos())
        })
        .map_err(|e| e.to_string())
}

/// The current time, from `Utc::now()`. Nothing is claimed of which
/// instant it is; the timestamp lies in the range `chrono` represents.
#[verifier::external_body]
pub(crate) fn utc_now() -> (r: Timestamp) {
    let now = Utc::now();
    Timestamp { secs: now.timestamp(), nanos: now.timestamp_subsec_nanos() }
}

/// The name of the time zone that the operating system is set to, from
/// `iana_time_zone::get_timezone()`; on failure, the error's message.
/// Nothing is claimed of the outcome: it depends on the machine.
#[verifier::external_body]
pub(crate) fn system_zone_name() -> (r: Result<String, String>) {
    iana_time_zone::get_timezone().map_err(|e| e.to_string())
}

/// Days are counted in elapsed time, not on the calendar: a duration of
/// `k` whole days and any part of a further day counts as `k` days.
pub proof fn law_elapsed_days_counts_whole_days(now: (int, int), basis: (int, int), k: nat, rest: int)
    requires
        0 <= rest < nanos_per_day(),
        duration_nanos(now, basis) == k * nanos_per_day() + rest,
    ensures
        spec_elapsed_days(now, basis) == k,
{
    let d = nanos_per_day();
    assert(k * d + rest == d * k + rest) by (nonlinear_arith);
    vstd::arithmetic::div_mod::lemma_div_multiples_vanish_fancy(k as int, rest, d);
}

/// Away from leap seconds, the duration between two instants is their
/// difference in nanoseconds.
pub proof fn lemma_duration_of_instants(now: int, basis: int)
    ensures
        duration_nanos(at_instant(now), at_instant(basis)) == now - basis,
{
    vstd::arithmetic::div_mod::lemma_fundamental_div_mod(now, 1_000_000_000);
    vstd::arithmetic::div_mod::lemma_fundamental_div_mod(basis, 1_000_000_000);
    let a = now / 1_000_000_000;
    let b = basis / 1_000_000_000;
    assert((a - b) * 1_000_000_000 == a * 1_000_000_000 - b * 1_000_000_000) by (nonlinear_arith);
}

/// Away from leap seconds, the count of elapsed days never falls as `now`
/// moves on. (Around a leap second it can: `chrono` counts the leap second
/// of a later `now` past midnight as the end of the earlier day.)
pub proof fn law_elapsed_days_is_monotone(earlier: int, later: int, basis: int)
    requires
        earlier <= later,
    ensures
        spec_elapsed_days(at_instant(earlier), at_instant(basis)) <= spec_elapsed_days(at_instant(later), at_instant(basis)),
{
    lemma_duration_of_instants(earlier, basis);
    lemma_duration_of_instants(later, basis);
    let d = nanos_per_day();
    let a = earlier - basis;
    let b = later - basis;
    if a >= 0 {
        vstd::arithmetic::div_mod::lemma_div_is_ordered(a, b, d);
    } else if b >= 0 {
        vstd::arithmetic::div_mod::lemma_div_pos_is_pos(-a, d);
        vstd::arithmetic::div_mod::lemma_div_pos_is_pos(b, d);
    } else {
        vstd::arithmetic::div_mod::lemma_div_is_ordered(-b, -a, d);
    }
}

} // verus!
