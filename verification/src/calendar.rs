//! Calendar dates, and the one place where the library asks the machine for
//! today's date.

use vstd::prelude::*;

verus! {

/// A day of the calendar.
#[derive(Debug, Clone, Copy, PartialEq, Eq, Structural)]
pub struct CalendarDate {
    pub year: u32,
    pub month: u32,
    pub day: u32,
}

impl CalendarDate {
    /// Whether month and day lie in the ranges of a calendar: 1 to 12 and
    /// 1 to 31.
    pub open spec fn valid(&self) -> bool {
        &&& 1 <= self.month <= 12
        &&& 1 <= self.day <= 31
    }

    /// Whether month and day lie in the ranges of a calendar.
    pub fn is_valid(&self) -> (r: bool)
        ensures
            r == self.valid(),
    {
        1 <= self.month && self.month <= 12 && 1 <= self.day && self.day <= 31
    }
}

/// Today's date on the local clock, from `chrono::Local::now` and the
/// `Datelike` accessors `year`, `month` and `day`.
///
/// Not proved: that the month lies in 1 to 12 and the day in 1 to 31, which is
/// what chrono documents of `month` and `day`. Nothing is claimed of the year,
/// nor that two calls agree.
#[verifier::external_body]
pub(crate) fn local_today() -> (today: CalendarDate)
    ensures
        today.valid(),
{
    let now = chrono::Local::now();
    CalendarDate {
        year: chrono::Datelike::year(&now) as u32,
        month: chrono::Datelike::month(&now),
        day: chrono::Datelike::day(&now),
    }
}

/// Today's date on the local clock.
pub fn today() -> (date: CalendarDate)
    ensures
        date.valid(),
{
    local_today()
}

} // verus!
