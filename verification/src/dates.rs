//! Calendar dates and the day-stepping arithmetic the simulation is driven by.
//!
//! A [`Date`] is a plain year/month/day triple in the proleptic Gregorian
//! calendar. The type invariant guarantees that every value is a real calendar
//! day, so date arithmetic is total over the type.

use vstd::prelude::*;

verus! {

/// Largest year the date type itself can carry. Internal schedule projection
/// can walk far past any user-supplied date, so this ceiling is far above
/// [`USER_YEAR_MAX`].
pub const YEAR_CEIL: i64 = 4_000_000_000_000;

/// Largest year accepted from callers when constructing a date. The gap up to
/// [`YEAR_CEIL`] is headroom for the schedule projection to step forward.
pub const USER_YEAR_MAX: i64 = 1_000_000;

/// Leap years of the Gregorian calendar.
pub open spec fn is_leap_year(y: int) -> bool {
    (y % 4 == 0 && y % 100 != 0) || y % 400 == 0
}

/// Number of days of month `m` (1-12) of year `y`.
pub open spec fn days_in_month(y: int, m: int) -> int {
    if m == 2 {
        if is_leap_year(y) {
            29
        } else {
            28
        }
    } else if m == 4 || m == 6 || m == 9 || m == 11 {
        30
    } else {
        31
    }
}

/// A year/month/day triple that names a real calendar day.
pub open spec fn valid_ymd(y: int, m: int, d: int) -> bool {
    &&& 1 <= y <= YEAR_CEIL
    &&& 1 <= m <= 12
    &&& 1 <= d <= days_in_month(y, m)
}

/// The day after `(y, m, d)`, as a year/month/day triple.
pub open spec fn next_ymd(y: int, m: int, d: int) -> (int, int, int) {
    if d < days_in_month(y, m) {
        (y, m, d + 1)
    } else if m < 12 {
        (y, m + 1, 1)
    } else {
        (y + 1, 1, 1)
    }
}

/// A calendar date. Every value of this type is a valid calendar day.
#[derive(Clone, Copy, PartialEq, Eq, Structural, Debug)]
pub struct Date {
    year: i64,
    month: i64,
    day: i64,
}

impl Date {
    /// Every value of this type names a real calendar day; this predicate is
    /// the type invariant, so holding a `Date` is holding a proof of it.
    #[verifier::type_invariant]
    pub open spec fn valid(self) -> bool {
        valid_ymd(self.y(), self.m(), self.d())
    }

    /// The date's year.
    pub closed spec fn y(self) -> int {
        self.year as int
    }

    /// The date's month, 1 through 12.
    pub closed spec fn m(self) -> int {
        self.month as int
    }

    /// The date's day of month.
    pub closed spec fn d(self) -> int {
        self.day as int
    }

    /// The date with the given components, as a spec-level value.
    pub closed spec fn date_from(y: int, m: int, d: int) -> Date {
        Date { year: y as i64, month: m as i64, day: d as i64 }
    }

    /// For components of a real calendar day, `date_from` carries them
    /// unchanged.
    pub proof fn lemma_date_from(y: int, m: int, d: int)
        requires
            valid_ymd(y, m, d),
        ensures
            Date::date_from(y, m, d).y() == y,
            Date::date_from(y, m, d).m() == m,
            Date::date_from(y, m, d).d() == d,
    {
    }

    /// The day after this date, as a spec-level value.
    pub open spec fn spec_succ(self) -> Date {
        let (y, m, d) = next_ymd(self.y(), self.m(), self.d());
        Date::date_from(y, m, d)
    }

    /// The components of the successor of a real calendar day.
    pub proof fn lemma_succ_components(self)
        requires
            valid_ymd(self.y(), self.m(), self.d()),
            self.y() < YEAR_CEIL,
        ensures
            (self.spec_succ().y(), self.spec_succ().m(), self.spec_succ().d()) == next_ymd(
                self.y(),
                self.m(),
                self.d(),
            ),
            valid_ymd(self.spec_succ().y(), self.spec_succ().m(), self.spec_succ().d()),
    {
    }

    /// Dates are equal exactly when their three components are equal.
    pub proof fn lemma_eq(a: Date, b: Date)
        ensures
            (a == b) <==> (a.y() == b.y() && a.m() == b.m() && a.d() == b.d()),
    {
    }

    /// Builds the date `year-month-day`, or `None` when the triple does not
    /// name a real calendar day with `1 <= year <= USER_YEAR_MAX`.
    pub fn new(year: i64, month: i64, day: i64) -> (r: Option<Date>)
        ensures
            match r {
                Some(dt) => {
                    &&& dt.y() == year
                    &&& dt.m() == month
                    &&& dt.d() == day
                    &&& valid_ymd(year as int, month as int, day as int)
                    &&& year <= USER_YEAR_MAX
                },
                None => !(valid_ymd(year as int, month as int, day as int) && year
                    <= USER_YEAR_MAX),
            },
    {
        if 1 <= year && year <= USER_YEAR_MAX && 1 <= month && month <= 12 && 1 <= day && day
            <= days_in_month_exec(year, month) {
            Some(Date { year, month, day })
        } else {
            None
        }
    }

    /// Crate-internal constructor for dates computed by the schedule
    /// projection, whose years may exceed `USER_YEAR_MAX`.
    pub(crate) fn from_ymd(year: i64, month: i64, day: i64) -> (r: Date)
        requires
            valid_ymd(year as int, month as int, day as int),
        ensures
            r.y() == year,
            r.m() == month,
            r.d() == day,
            r == Date::date_from(year as int, month as int, day as int),
    {
        Date { year, month, day }
    }

    /// The date's year, as a number.
    pub fn year(&self) -> (r: i64)
        ensures
            r == self.y(),
    {
        self.year
    }

    /// The date's month, 1 through 12.
    pub fn month(&self) -> (r: i64)
        ensures
            r == self.m(),
    {
        self.month
    }

    /// The date's day of month.
    pub fn day(&self) -> (r: i64)
        ensures
            r == self.d(),
    {
        self.day
    }

    /// The next calendar day.
    pub fn next_day(&self) -> (r: Date)
        requires
            self.y() < YEAR_CEIL,
        ensures
            (r.y(), r.m(), r.d()) == next_ymd(self.y(), self.m(), self.d()),
            r == self.spec_succ(),
    {
        proof {
            use_type_invariant(self);
        }
        let dim: i64 = days_in_month_exec(self.year, self.month);
        if self.day < dim {
            Date { year: self.year, month: self.month, day: self.day + 1 }
        } else if self.month < 12 {
            Date { year: self.year, month: self.month + 1, day: 1 }
        } else {
            Date { year: self.year + 1, month: 1, day: 1 }
        }
    }
}

/// `a` is strictly before `b` in calendar order.
pub open spec fn date_lt(a: Date, b: Date) -> bool {
    ||| a.y() < b.y()
    ||| (a.y() == b.y() && a.m() < b.m())
    ||| (a.y() == b.y() && a.m() == b.m() && a.d() < b.d())
}

/// `a` is before `b`, or the same day.
pub open spec fn date_le(a: Date, b: Date) -> bool {
    date_lt(a, b) || a == b
}

/// Calendar order is total: two dates with equal components are equal.
pub proof fn lemma_date_order(a: Date, b: Date)
    ensures
        date_lt(a, b) || date_lt(b, a) || a == b,
        !(date_lt(a, b) && date_lt(b, a)),
        date_lt(a, b) ==> a != b,
{
}

/// The next day is strictly later in calendar order.
pub proof fn lemma_next_ymd_lt(a: Date, b: Date)
    requires
        valid_ymd(a.y(), a.m(), a.d()),
        (b.y(), b.m(), b.d()) == next_ymd(a.y(), a.m(), a.d()),
    ensures
        date_lt(a, b),
{
}

/// Strictly-before comparison of two dates.
pub fn date_before(a: &Date, b: &Date) -> (r: bool)
    ensures
        r == date_lt(*a, *b),
{
    proof {
        use_type_invariant(a);
        use_type_invariant(b);
        Date::lemma_eq(*a, *b);
    }
    if a.year != b.year {
        a.year < b.year
    } else if a.month != b.month {
        a.month < b.month
    } else {
        a.day < b.day
    }
}

/// Number of days of month `m` of year `y`.
pub fn days_in_month_exec(y: i64, m: i64) -> (r: i64)
    requires
        1 <= y,
        1 <= m <= 12,
    ensures
        r == days_in_month(y as int, m as int),
{
    if m == 2 {
        if (y % 4 == 0 && y % 100 != 0) || y % 400 == 0 {
            29
        } else {
            28
        }
    } else if m == 4 || m == 6 || m == 9 || m == 11 {
        30
    } else {
        31
    }
}

} // verus!
