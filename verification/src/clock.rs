//! Where "now" comes from: the system clock, or a fixed instant (for the
//! `--now` option and for tests).

use vstd::prelude::*;
use crate::datetime::{Timestamp, utc_now, parse_rfc3339, rfc3339_parse};
use crate::i18n::Locale;
use crate::i18n::msg::{invalid_now, invalid_now_text};

verus! {

/// A source of the current instant.
pub trait Clock {
    fn now(&self) -> Timestamp;
}

/// The system's clock.
#[derive(Debug, Default, Clone, Copy)]
pub struct SystemClock;

impl Clock for SystemClock {
    /// The current time, as the system tells it.
    fn now(&self) -> Timestamp {
        utc_now()
    }
}

/// A clock that always tells the same instant.
#[derive(Debug)]
pub struct FixedClock {
    now: Timestamp,
}

impl FixedClock {
    /// The instant the clock tells.
    pub closed spec fn instant(&self) -> (int, int) {
        self.now@
    }

    /// A clock that always tells `now`.
    pub fn new(now: Timestamp) -> (r: FixedClock)
        ensures
            r.instant() == now@,
    {
        FixedClock { now }
    }

    /// The instant the clock tells.
    pub fn fixed_now(&self) -> (r: Timestamp)
        ensures
            r@ == self.instant(),
    {
        self.now.clone()
    }
}

impl Clock for FixedClock {
    /// The fixed instant, every time.
    fn now(&self) -> (r: Timestamp)
        ensures
            r@ == self.instant(),
    {
        self.fixed_now()
    }
}

/// The clock of a run: the system's, or one fixed at an instant.
#[derive(Debug)]
pub enum RunClock {
    System(SystemClock),
    Fixed(FixedClock),
}

impl Clock for RunClock {
    /// For a fixed clock, its instant; for the system's, the current time.
    fn now(&self) -> (r: Timestamp)
        ensures
            self matches RunClock::Fixed(c) ==> r@ == c.instant(),
    {
        match self {
            RunClock::System(c) => c.now(),
            RunClock::Fixed(c) => c.now(),
        }
    }
}

/// The clock of a run: without `--now`, the system's; with it, a clock fixed
/// at the instant it gives in RFC 3339 (a leap second included). A value
/// that does not parse is refused with the parser's message.
pub fn resolve_clock(now: Option<&str>, locale: Locale) -> (r: Result<RunClock, String>)
    ensures
        match now {
            None => r is Ok && r.unwrap() is System,
            Some(v) => match rfc3339_parse(v@) {
                Err(m) => r matches Err(e) && e@ == invalid_now_text(locale, v@, m),
                Ok(instant) => r matches Ok(RunClock::Fixed(c)) && c.instant() == instant,
            },
        },
{
    match now {
        None => Ok(RunClock::System(SystemClock)),
        Some(value) => match parse_rfc3339(value) {
            Err(m) => Err(invalid_now(locale, value, m.as_str())),
            Ok((s, n)) => Ok(RunClock::Fixed(FixedClock::new(Timestamp::new(s, n).unwrap()))),
        },
    }
}

} // verus!
