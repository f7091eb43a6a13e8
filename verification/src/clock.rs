//! Points in time and lengths of time, as plain numbers that callers supply.

use vstd::prelude::*;

verus! {

/// Nanoseconds in one second.
pub const SECOND: u64 = 1_000_000_000;

/// A reading of a clock: nanoseconds since an origin that stays fixed while
/// the program runs.
#[derive(Debug, Clone, Copy, PartialEq, Eq)]
pub struct Moment {
    pub nanos: u64,
}

/// A length of time in nanoseconds.
#[derive(Debug, Clone, Copy, PartialEq, Eq)]
pub struct Span {
    pub nanos: u128,
}

impl View for Moment {
    type V = int;

    open spec fn view(&self) -> int {
        self.nanos as int
    }
}

impl View for Span {
    type V = int;

    open spec fn view(&self) -> int {
        self.nanos as int
    }
}

pub open spec fn seconds(n: int) -> int {
    n * (SECOND as int)
}

pub open spec fn minutes(n: int) -> int {
    seconds(60 * n)
}

/// How far `now` lies after `earlier`; zero if it does not.
pub open spec fn elapsed(earlier: int, now: int) -> int {
    if now > earlier {
        now - earlier
    } else {
        0
    }
}

/// The units on the clock, in nanoseconds, and how far two readings lie apart.
pub proof fn law_units(n: int, earlier: int, now: int)
    ensures
        seconds(n) == n * 1_000_000_000,
        minutes(n) == n * 60_000_000_000,
        now >= earlier ==> elapsed(earlier, now) == now - earlier,
        now < earlier ==> elapsed(earlier, now) == 0,
{
}

impl Moment {
    /// The moment `n` seconds after the origin.
    pub fn from_secs(n: u64) -> (m: Moment)
        requires
            seconds(n as int) <= u64::MAX,
        ensures
            m@ == seconds(n as int),
    {
        Moment { nanos: n * SECOND }
    }

    /// How far `self` lies after `earlier`; zero if it does not.
    pub fn since(&self, earlier: Moment) -> (s: Span)
        ensures
            s@ == elapsed(earlier@, self@),
    {
        if self.nanos > earlier.nanos {
            Span { nanos: (self.nanos - earlier.nanos) as u128 }
        } else {
            Span { nanos: 0 }
        }
    }
}

impl Span {
    pub fn from_secs(n: u64) -> (s: Span)
        ensures
            s@ == seconds(n as int),
    {
        Span { nanos: (n as u128) * 1_000_000_000 }
    }

    /// The whole seconds in this span.
    pub fn whole_secs(&self) -> (n: u128)
        ensures
            n == self@ / seconds(1),
    {
        self.nanos / (SECOND as u128)
    }
}

} // verus!
