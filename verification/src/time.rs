//! Calendar dates and local date-times, held as plain integer fields so that
//! filter comparisons and ordering are ordinary arithmetic.

use chrono::{Datelike, Timelike};
use vstd::prelude::*;

verus! {

/// A calendar date in the local time zone.
#[derive(Clone, Copy, PartialEq, Eq, Structural, Debug)]
pub struct Date {
    pub year: u16,
    pub month: u8,
    pub day: u8,
}

impl Date {
    /// Field ranges of a real calendar date.
    pub open spec fn wf(self) -> bool {
        &&& 1 <= self.month <= 12
        &&& 1 <= self.day <= 31
    }

    /// Numeric key that orders dates chronologically: a later date has a
    /// strictly larger key whenever both dates are well formed.
    pub open spec fn key(self) -> int {
        self.year * 10000 + self.month * 100 + self.day
    }

    pub fn key_u64(&self) -> (k: u64)
        ensures
            k == self.key(),
    {
        (self.year as u64) * 10000 + (self.month as u64) * 100 + (self.day as u64)
    }
}

/// A date-time in the local time zone, to second precision.
#[derive(Clone, Copy, PartialEq, Eq, Structural, Debug)]
pub struct Timestamp {
    pub date: Date,
    pub hour: u8,
    pub minute: u8,
    pub second: u8,
}

impl Timestamp {
    pub open spec fn wf(self) -> bool {
        &&& self.date.wf()
        &&& self.hour <= 23
        &&& self.minute <= 59
        &&& self.second <= 59
    }

    /// Numeric key that orders timestamps chronologically; two well-formed
    /// timestamps compare equal exactly when all their fields agree.
    pub open spec fn key(self) -> int {
        self.date.key() * 1000000 + self.hour * 10000 + self.minute * 100 + self.second
    }

    pub fn key_u64(&self) -> (k: u64)
        ensures
            k == self.key(),
    {
        self.date.key_u64() * 1000000 + (self.hour as u64) * 10000 + (self.minute as u64) * 100
            + (self.second as u64)
    }
}

/// Relies on chrono::Local::now and its Datelike/Timelike accessors, whose
/// documentation promises month in 1..=12, day in 1..=31, hour below 24, and
/// minute and second below 60.
#[verifier::external_body]
pub(crate) fn clock_now() -> (t: Timestamp)
    ensures
        t.wf(),
{
    let n = chrono::Local::now();
    Timestamp {
        date: Date { year: n.year() as u16, month: n.month() as u8, day: n.day() as u8 },
        hour: n.hour() as u8,
        minute: n.minute() as u8,
        second: n.second() as u8,
    }
}

} // verus!
