use vstd::prelude::*;

use crate::error::Error;
use crate::num::{floored_div, floored_mod};

verus! {

// A local civil instant, held as plain calendar fields.
//
// All rotation arithmetic in this crate is measured between two such
// instants.  The model is the proleptic Gregorian calendar at second
// resolution, with no time-zone transitions: the bot's reference instants
// and queries live in a single fixed-offset zone, so local civil
// arithmetic is exact.  Years are bounded to keep every derived count
// comfortably inside `i64`.

/// A local calendar date and time of day.
#[derive(Debug, Clone, Copy, PartialEq, Eq, Structural)]
pub struct CivilTime {
    pub year: i32,
    pub month: u8,
    pub day: u8,
    pub hour: u8,
    pub minute: u8,
    pub second: u8,
}

/// Whether `y` is a leap year in the Gregorian calendar.
pub open spec fn is_leap_year(y: int) -> bool {
    (y % 4 == 0 && y % 100 != 0) || y % 400 == 0
}

/// The number of days in month `m` of year `y`.
pub open spec fn days_in_month(y: int, m: int) -> int {
    if m == 2 {
        if is_leap_year(y) {
            29
        } else {
            28
        }
    } else if m == 4 || m == 6 || m == 9 || m == 11 {
        30
    } else {
        31
    }
}

/// The number of days in year `y`.
pub open spec fn days_in_year(y: int) -> int {
    if is_leap_year(y) {
        366
    } else {
        365
    }
}

/// Days of year `y` that lie before month `m`.
pub open spec fn days_before_month(y: int, m: int) -> int
    decreases m,
{
    if m <= 1 {
        0
    } else {
        days_before_month(y, m - 1) + days_in_month(y, m - 1)
    }
}

/// Days that lie before January 1st of year `y`, counted from year 1.
pub open spec fn days_before_year(y: int) -> int
    decreases y,
{
    if y <= 1 {
        0
    } else {
        days_before_year(y - 1) + days_in_year(y - 1)
    }
}

/// The absolute day index of the date `(y, m, d)`: day 0 is year 1,
/// January 1st.
pub open spec fn day_number_of(y: int, m: int, d: int) -> int {
    days_before_year(y) + days_before_month(y, m) + d - 1
}

pub proof fn lemma_days_before_month_bound(y: int, m: int)
    requires
        1 <= m <= 13,
    ensures
        0 <= days_before_month(y, m) <= 31 * (m - 1),
    decreases m,
{
    if m > 1 {
        lemma_days_before_month_bound(y, m - 1);
    }
}

/// Day counts grow by at least 365 per year.
pub proof fn lemma_days_before_year_ge(y1: int, y2: int)
    requires
        1 <= y1 <= y2,
    ensures
        days_before_year(y2) >= days_before_year(y1) + 365 * (y2 - y1),
    decreases y2 - y1,
{
    if y1 < y2 {
        lemma_days_before_year_ge(y1, y2 - 1);
    }
}

pub proof fn lemma_days_before_year_bound(y: int)
    requires
        1 <= y,
    ensures
        365 * (y - 1) <= days_before_year(y) <= 366 * (y - 1),
    decreases y,
{
    if y > 1 {
        lemma_days_before_year_bound(y - 1);
    }
}

/// A full year of months sums to the year's day count.
pub proof fn lemma_months_fill_year(y: int)
    ensures
        days_before_month(y, 13) == days_in_year(y),
{
    reveal_with_fuel(days_before_month, 14);
}

impl CivilTime {
    /// Well-formedness: every field names a real calendar position.
    pub open spec fn wf(self) -> bool {
        &&& 1 <= self.year <= 9999
        &&& 1 <= self.month <= 12
        &&& 1 <= self.day <= days_in_month(self.year as int, self.month as int)
        &&& self.hour <= 23
        &&& self.minute <= 59
        &&& self.second <= 59
    }

    /// The absolute day index of this instant's date.
    pub open spec fn day_num(self) -> int {
        day_number_of(self.year as int, self.month as int, self.day as int)
    }

    /// Seconds since this instant's own midnight.
    pub open spec fn sec_of_day(self) -> int {
        self.hour as int * 3600 + self.minute as int * 60 + self.second as int
    }

    /// Seconds since year 1, January 1st, midnight.
    pub open spec fn total_secs(self) -> int {
        self.day_num() * 86400 + self.sec_of_day()
    }

    proof fn lemma_day_num_bound(self)
        requires
            self.wf(),
        ensures
            0 <= self.day_num() < 3_660_000,
            0 <= self.total_secs() < 320_000_000_000,
    {
        lemma_days_before_year_bound(self.year as int);
        lemma_days_before_month_bound(self.year as int, self.month as int);
    }

    /// Build a civil instant, validating every field; `None` when the
    /// combination names no real calendar position.
    pub fn new(year: i32, month: u8, day: u8, hour: u8, minute: u8, second: u8) -> (r: Option<
        CivilTime,
    >)
        ensures
            (r is Some) <==> (CivilTime { year, month, day, hour, minute, second }).wf(),
            (r matches Some(c) ==> c == (CivilTime { year, month, day, hour, minute, second })),
    {
        if 1 <= year && year <= 9999 && 1 <= month && month <= 12 && 1 <= day && day
            <= days_in_month_x(year, month) && hour <= 23 && minute <= 59 && second <= 59 {
            Some(CivilTime { year, month, day, hour, minute, second })
        } else {
            None
        }
    }

    /// The absolute day index, computed by summing whole years and months.
    pub fn day_number(&self) -> (r: i64)
        requires
            self.wf(),
        ensures
            r == self.day_num(),
            0 <= r < 3_660_000,
    {
        proof {
            self.lemma_day_num_bound();
        }
        let mut acc: i64 = 0;
        let mut yy: i32 = 1;
        while yy < self.year
            invariant
                1 <= yy <= self.year <= 9999,
                acc == days_before_year(yy as int),
                0 <= acc <= 366 * (yy - 1),
            decreases self.year - yy,
        {
            if is_leap_year_x(yy) {
                acc = acc + 366;
            } else {
                acc = acc + 365;
            }
            yy = yy + 1;
            proof {
                lemma_days_before_year_bound(yy as int);
            }
        }
        let mut mm: u8 = 1;
        let mut macc: i64 = 0;
        while mm < self.month
            invariant
                1 <= mm <= self.month <= 12,
                macc == days_before_month(self.year as int, mm as int),
                0 <= macc <= 366,
            decreases self.month - mm,
        {
            macc = macc + days_in_month_x(self.year, mm) as i64;
            mm = mm + 1;
            proof {
                lemma_days_before_month_bound(self.year as int, mm as int);
            }
        }
        acc + macc + self.day as i64 - 1
    }

    /// Seconds since year 1, January 1st, midnight.
    pub fn total_seconds(&self) -> (r: i64)
        requires
            self.wf(),
        ensures
            r == self.total_secs(),
            0 <= r < 320_000_000_000,
    {
        let dn = self.day_number();
        dn * 86400 + self.hour as i64 * 3600 + self.minute as i64 * 60 + self.second as i64
    }

    /// Seconds since this instant's own midnight.
    pub fn seconds_of_day(&self) -> (r: i64)
        requires
            self.wf(),
        ensures
            r == self.sec_of_day(),
            0 <= r < 86400,
    {
        self.hour as i64 * 3600 + self.minute as i64 * 60 + self.second as i64
    }

    /// Whether this instant lies strictly before `other`.
    pub fn is_before(&self, other: &CivilTime) -> (r: bool)
        requires
            self.wf(),
            other.wf(),
        ensures
            r == (self.total_secs() < other.total_secs()),
    {
        self.total_seconds() < other.total_seconds()
    }

    /// The day of the week, counted as days from Sunday (Sunday is 0).
    pub fn weekday_from_sunday(&self) -> (r: u8)
        requires
            self.wf(),
        ensures
            r == (self.day_num() + 1) % 7,
            r < 7,
    {
        let dn = self.day_number();
        floored_mod(dn + 1, 7) as u8
    }

    /// The successor date, with the time of day kept.
    pub open spec fn next_civil(self) -> CivilTime {
        if self.day < days_in_month(self.year as int, self.month as int) {
            CivilTime { day: (self.day + 1) as u8, ..self }
        } else if self.month < 12 {
            CivilTime { month: (self.month + 1) as u8, day: 1, ..self }
        } else {
            CivilTime { year: (self.year + 1) as i32, month: 1, day: 1, ..self }
        }
    }

    /// The predecessor date, with the time of day kept.
    pub open spec fn prev_civil(self) -> CivilTime {
        if self.day > 1 {
            CivilTime { day: (self.day - 1) as u8, ..self }
        } else if self.month > 1 {
            CivilTime {
                month: (self.month - 1) as u8,
                day: days_in_month(self.year as int, self.month as int - 1) as u8,
                ..self
            }
        } else {
            CivilTime { year: (self.year - 1) as i32, month: 12, day: 31, ..self }
        }
    }

    /// The date `n` days later, with the time of day kept.
    pub open spec fn plus_days_civil(self, n: int) -> CivilTime
        decreases n,
    {
        if n <= 0 {
            self
        } else {
            self.plus_days_civil(n - 1).next_civil()
        }
    }

    /// The instant `h` whole hours later.
    pub open spec fn plus_hours_civil(self, h: int) -> CivilTime {
        let c = self.plus_days_civil(h / 24);
        let rem = h % 24;
        if rem + c.hour <= 23 {
            CivilTime { hour: (rem + c.hour) as u8, ..c }
        } else {
            (CivilTime { hour: (rem + c.hour - 24) as u8, ..c }).next_civil()
        }
    }

    /// Executable well-formedness check.
    pub fn check_wf(&self) -> (r: bool)
        ensures
            r == self.wf(),
    {
        1 <= self.year && self.year <= 9999 && 1 <= self.month && self.month <= 12 && 1 <= self.day
            && self.day <= days_in_month_x(self.year, self.month) && self.hour <= 23 && self.minute
            <= 59 && self.second <= 59
    }

    /// The same time of day on the next calendar day.
    pub fn next_day(&self) -> (r: CivilTime)
        requires
            self.wf(),
            !(self.year == 9999 && self.month == 12 && self.day == 31),
        ensures
            r == self.next_civil(),
            r.wf(),
            r.day_num() == self.day_num() + 1,
            r.sec_of_day() == self.sec_of_day(),
    {
        if self.day < days_in_month_x(self.year, self.month) {
            CivilTime { day: self.day + 1, ..*self }
        } else if self.month < 12 {
            let r = CivilTime { month: self.month + 1, day: 1, ..*self };
            r
        } else {
            let r = CivilTime { year: self.year + 1, month: 1, day: 1, ..*self };
            proof {
                lemma_months_fill_year(self.year as int);
            }
            r
        }
    }

    /// The same time of day on the previous calendar day.
    pub fn prev_day(&self) -> (r: CivilTime)
        requires
            self.wf(),
            !(self.year == 1 && self.month == 1 && self.day == 1),
        ensures
            r == self.prev_civil(),
            r.wf(),
            r.day_num() == self.day_num() - 1,
            r.sec_of_day() == self.sec_of_day(),
    {
        if self.day > 1 {
            CivilTime { day: self.day - 1, ..*self }
        } else if self.month > 1 {
            let d = days_in_month_x(self.year, self.month - 1);
            CivilTime { month: self.month - 1, day: d, ..*self }
        } else {
            let r = CivilTime { year: self.year - 1, month: 12, day: 31, ..*self };
            proof {
                lemma_months_fill_year(self.year as int - 1);
            }
            r
        }
    }

    /// The same time of day `n` calendar days later.
    pub fn plus_days(&self, n: u32) -> (r: CivilTime)
        requires
            self.wf(),
            n <= 400,
            self.year <= 9996,
        ensures
            r == self.plus_days_civil(n as int),
            r.wf(),
            r.day_num() == self.day_num() + n,
            r.sec_of_day() == self.sec_of_day(),
    {
        let mut c: CivilTime = *self;
        let mut i: u32 = 0;
        while i < n
            invariant
                i <= n <= 400,
                c.wf(),
                c == self.plus_days_civil(i as int),
                c.day_num() == self.day_num() + i,
                c.sec_of_day() == self.sec_of_day(),
                self.wf(),
                self.year <= 9996,
            decreases n - i,
        {
            proof {
                lemma_day_num_year_window(c, *self);
            }
            c = c.next_day();
            i = i + 1;
        }
        c
    }

    /// The instant `h` whole hours later.
    pub fn plus_hours(&self, h: u32) -> (r: CivilTime)
        requires
            self.wf(),
            h <= 8784,
            self.year <= 9996,
        ensures
            r == self.plus_hours_civil(h as int),
            r.wf(),
            r.total_secs() == self.total_secs() + h as int * 3600,
    {
        let add_days: u32 = h / 24;
        let rem: u32 = h % 24;
        let mut c: CivilTime = self.plus_days(add_days);
        if rem + c.hour as u32 <= 23 {
            c = CivilTime { hour: c.hour + rem as u8, ..c };
        } else {
            proof {
                lemma_day_num_year_window(c, *self);
            }
            c = CivilTime { hour: (rem + c.hour as u32 - 24) as u8, ..c };
            c = c.next_day();
        }
        c
    }

    /// The instant `h` whole hours later, with the range checked at run
    /// time: a span or a start that could leave the representable years
    /// fails explicitly instead of wrapping.
    pub fn checked_plus_hours(&self, h: u32) -> (r: Result<CivilTime, Error>)
        requires
            self.wf(),
        ensures
            (h <= 8784 && self.year <= 9996) ==> (r matches Ok(c) && c == self.plus_hours_civil(
                h as int,
            ) && c.wf() && c.total_secs() == self.total_secs() + h as int * 3600),
            !(h <= 8784 && self.year <= 9996) ==> r == Err::<CivilTime, Error>(
                Error::TemporalRangeExceeded,
            ),
    {
        if h <= 8784 && self.year <= 9996 {
            Ok(self.plus_hours(h))
        } else {
            Err(Error::TemporalRangeExceeded)
        }
    }

    /// Whole minutes from `reference` to `self`, rounded toward negative
    /// infinity; negative when `self` lies before `reference`.
    pub fn whole_minutes_since(&self, reference: &CivilTime) -> (r: i64)
        requires
            self.wf(),
            reference.wf(),
        ensures
            r == (self.total_secs() - reference.total_secs()) / 60,
            -6_000_000_000 < r < 6_000_000_000,
    {
        floored_div(self.total_seconds() - reference.total_seconds(), 60)
    }

    /// Whole days from `reference` to `self`, rounded toward negative
    /// infinity; negative when `self` lies before `reference`.
    pub fn whole_days_since(&self, reference: &CivilTime) -> (r: i64)
        requires
            self.wf(),
            reference.wf(),
        ensures
            r == (self.total_secs() - reference.total_secs()) / 86400,
            -4_000_000 < r < 4_000_000,
    {
        floored_div(self.total_seconds() - reference.total_seconds(), 86400)
    }

    /// Whole calendar months from `reference` to `self`: months crossed,
    /// less one where `self` has not yet reached the reference's
    /// day-of-month and time-of-day; negative before the reference.
    pub fn whole_months_since(&self, reference: &CivilTime) -> (r: i64)
        requires
            self.wf(),
            reference.wf(),
        ensures
            r == spec_whole_months(*reference, *self),
            -200_000 < r < 200_000,
    {
        let mut em: i64 = (self.year as i64 - reference.year as i64) * 12 + self.month as i64
            - reference.month as i64;
        if self.day < reference.day || (self.day == reference.day && self.seconds_of_day()
            < reference.seconds_of_day()) {
            em = em - 1;
        }
        em
    }
}

/// Whole calendar months from `r` to `n`, the partial final month
/// uncounted.
pub open spec fn spec_whole_months(r: CivilTime, n: CivilTime) -> int {
    (n.year - r.year) * 12 + n.month - r.month - if n.day < r.day || (n.day == r.day
        && n.sec_of_day() < r.sec_of_day()) {
        1int
    } else {
        0int
    }
}

/// A bounded day walk from a date in a year at most 9996 never leaves the
/// representable year range.
proof fn lemma_day_num_year_window(c: CivilTime, base: CivilTime)
    requires
        c.wf(),
        base.wf(),
        base.year <= 9996,
        c.day_num() <= base.day_num() + 400,
    ensures
        c.year <= 9998,
{
    if c.year >= 9999 {
        lemma_days_before_year_ge(base.year as int, 9999);
        lemma_days_before_month_bound(c.year as int, c.month as int);
        lemma_days_before_month_bound(base.year as int, base.month as int);
        assert(days_before_year(9999) >= days_before_year(base.year as int) + 365 * 3);
        assert(c.day_num() >= days_before_year(9999));
        assert(base.day_num() <= days_before_year(base.year as int) + 31 * 11 + 30);
    }
}

/// Whether `y` is a leap year.
pub fn is_leap_year_x(y: i32) -> (r: bool)
    ensures
        r == is_leap_year(y as int),
{
    (y % 4 == 0 && y % 100 != 0) || y % 400 == 0
}

/// The number of days in month `m` of year `y`.
pub fn days_in_month_x(y: i32, m: u8) -> (r: u8)
    requires
        1 <= m <= 12,
    ensures
        r == days_in_month(y as int, m as int),
        28 <= r <= 31,
{
    if m == 2 {
        if is_leap_year_x(y) {
            29
        } else {
            28
        }
    } else if m == 4 || m == 6 || m == 9 || m == 11 {
        30
    } else {
        31
    }
}

} // verus!
