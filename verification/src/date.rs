//! A calendar date that moves by whole days and stops at the ends of the
//! calendar.
//!
//! A date is held as its Julian day number, so that stepping is integer
//! arithmetic to state; the calendar itself is the `time` crate's.

use time::{Date, Duration, OffsetDateTime};
use vstd::prelude::*;

verus! {

/// The Julian day number of the first date of the calendar, 1 January -9999.
pub const MIN_JULIAN_DAY: i32 = -1_930_999;

/// The Julian day number of the last date of the calendar, 31 December 9999.
pub const MAX_JULIAN_DAY: i32 = 5_373_484;

/// The number of days that a fast step covers.
pub const FAST_STEP_DAYS: i32 = 30;

/// `day` moved by `days`, held at the nearer end of the calendar where the
/// move would leave it.
pub open spec fn saturating_day(day: int, days: int) -> int {
    if day + days < MIN_JULIAN_DAY {
        MIN_JULIAN_DAY as int
    } else if day + days > MAX_JULIAN_DAY {
        MAX_JULIAN_DAY as int
    } else {
        day + days
    }
}

/// The way in which a date moves.
#[derive(Debug, Clone, Copy, PartialEq, Eq, Hash, Structural)]
pub enum Direction {
    /// Towards later dates.
    Forward,
    /// Towards earlier dates.
    Backward,
}

/// How far a date moves in one step.
#[derive(Debug, Clone, Copy, PartialEq, Eq, Hash, Structural)]
pub enum Magnitude {
    /// One day.
    Day,
    /// Thirty days.
    Fast,
}

impl Magnitude {
    /// The number of days of this magnitude.
    pub open spec fn spec_days(self) -> int {
        match self {
            Magnitude::Day => 1,
            Magnitude::Fast => FAST_STEP_DAYS as int,
        }
    }

    /// The number of days of this magnitude.
    pub fn days(self) -> (d: i32)
        ensures
            d == self.spec_days(),
    {
        match self {
            Magnitude::Day => 1,
            Magnitude::Fast => FAST_STEP_DAYS,
        }
    }
}

/// The signed number of days of a step of `magnitude` in `direction`.
pub open spec fn step_days(direction: Direction, magnitude: Magnitude) -> int {
    match direction {
        Direction::Forward => magnitude.spec_days(),
        Direction::Backward => -magnitude.spec_days(),
    }
}

/// `Date::saturating_add` of the `time` crate, on Julian day numbers: the
/// date `days` days after `julian_day`, or the last date of the calendar where
/// that lies beyond it, or the first where it lies before it. `None` stands
/// for a `julian_day` that `Date::from_julian_day` refuses, which is one
/// outside the calendar.
#[verifier::external_body]
fn date_saturating_add(julian_day: i32, days: i32) -> (r: Option<i32>)
    ensures
        r.is_some() <==> MIN_JULIAN_DAY <= julian_day <= MAX_JULIAN_DAY,
        r matches Some(day) ==> day == saturating_day(julian_day as int, days as int),
{
    match Date::from_julian_day(julian_day) {
        Ok(date) => Some(date.saturating_add(Duration::days(i64::from(days))).to_julian_day()),
        Err(_) => None,
    }
}

/// `Date::saturating_sub` of the `time` crate, on Julian day numbers: the
/// date `days` days before `julian_day`, or the first date of the calendar
/// where that lies before it, or the last where it lies beyond it. `None`
/// stands for a `julian_day` that `Date::from_julian_day` refuses, which is
/// one outside the calendar.
#[verifier::external_body]
fn date_saturating_sub(julian_day: i32, days: i32) -> (r: Option<i32>)
    ensures
        r.is_some() <==> MIN_JULIAN_DAY <= julian_day <= MAX_JULIAN_DAY,
        r matches Some(day) ==> day == saturating_day(julian_day as int, -(days as int)),
{
    match Date::from_julian_day(julian_day) {
        Ok(date) => Some(date.saturating_sub(Duration::days(i64::from(days))).to_julian_day()),
        Err(_) => None,
    }
}

/// `OffsetDateTime::now_utc` of the `time` crate: the Julian day number of
/// the date that the system clock shows in UTC. It depends on the clock, so
/// nothing is said of it but that it is a date of the calendar. The call
/// aborts on a clock set beyond the calendar.
#[verifier::external_body]
fn utc_today() -> (julian_day: i32)
    ensures
        MIN_JULIAN_DAY <= julian_day <= MAX_JULIAN_DAY,
{
    OffsetDateTime::now_utc().date().to_julian_day()
}

/// A date of the proleptic Gregorian calendar between the years -9999 and
/// 9999.
#[derive(Debug, Clone, Copy, PartialEq, Eq, Hash)]
pub struct DateCursor {
    julian_day: i32,
}

impl DateCursor {
    #[verifier::type_invariant]
    spec fn in_calendar(&self) -> bool {
        MIN_JULIAN_DAY <= self.julian_day <= MAX_JULIAN_DAY
    }

    /// The Julian day number of the date.
    pub closed spec fn day(&self) -> int {
        self.julian_day as int
    }

    /// What holds of every date: it is one of the calendar.
    pub open spec fn wf(&self) -> bool {
        MIN_JULIAN_DAY <= self.day() <= MAX_JULIAN_DAY
    }

    /// The date with the given Julian day number, if the calendar has one.
    pub fn from_julian_day(julian_day: i32) -> (r: Option<Self>)
        ensures
            r.is_some() <==> MIN_JULIAN_DAY <= julian_day <= MAX_JULIAN_DAY,
            r matches Some(date) ==> date.wf() && date.day() == julian_day,
    {
        if MIN_JULIAN_DAY <= julian_day && julian_day <= MAX_JULIAN_DAY {
            Some(DateCursor { julian_day })
        } else {
            None
        }
    }

    /// The date that the system clock shows in UTC.
    pub fn today() -> (r: Self)
        ensures
            r.wf(),
    {
        DateCursor { julian_day: utc_today() }
    }

    /// The Julian day number of the date, which is always one of the
    /// calendar.
    pub fn julian_day(&self) -> (d: i32)
        ensures
            self.wf(),
            d == self.day(),
    {
        proof {
            use_type_invariant(self);
        }
        self.julian_day
    }

    /// Moves the date by one step of `magnitude` in `direction`. A step that
    /// would leave the calendar ends on its first or last date.
    pub fn step(&mut self, direction: Direction, magnitude: Magnitude)
        ensures
            old(self).wf(),
            final(self).wf(),
            final(self).day() == saturating_day(old(self).day(), step_days(direction, magnitude)),
    {
        proof {
            use_type_invariant(&*self);
        }
        let days = magnitude.days();
        let moved = match direction {
            Direction::Forward => date_saturating_add(self.julian_day, days),
            Direction::Backward => date_saturating_sub(self.julian_day, days),
        };
        match moved {
            Some(day) => {
                self.julian_day = day;
            },
            None => {},
        }
    }
}

} // verus!
