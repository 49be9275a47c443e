//! Calendar dates and times of day as plain values, the proleptic Gregorian
//! day count they are compared by, and the date arithmetic behind the
//! relative-range shortcuts of the worklist query bar.

use vstd::prelude::*;
use chrono::Datelike;
use crate::text::same_text;

verus! {

/// A calendar date in the proleptic Gregorian calendar.
#[derive(Clone, Copy, Debug, PartialEq, Eq, Structural)]
pub struct Date {
    pub year: i32,
    pub month: u32,
    pub day: u32,
}

/// A time of day, to the second.
#[derive(Clone, Copy, Debug, PartialEq, Eq, Structural)]
pub struct TimeOfDay {
    pub hour: u32,
    pub minute: u32,
    pub second: u32,
}

pub open spec fn is_leap_year(y: int) -> bool {
    y % 4 == 0 && (y % 100 != 0 || y % 400 == 0)
}

pub open spec fn year_length(y: int) -> int {
    if is_leap_year(y) {
        366
    } else {
        365
    }
}

pub open spec fn days_in_month(y: int, m: int) -> int {
    if m == 2 {
        if is_leap_year(y) {
            29
        } else {
            28
        }
    } else if m == 4 || m == 6 || m == 9 || m == 11 {
        30
    } else {
        31
    }
}

/// Days in the years before `y`, counted from the start of year 1.
pub open spec fn days_before_year(y: int) -> int {
    let p = y - 1;
    365 * p + p / 4 - p / 100 + p / 400
}

/// Days in the months of year `y` before month `m`.
pub open spec fn days_before_month(y: int, m: int) -> int {
    let common: int = if m == 1 {
        0
    } else if m == 2 {
        31
    } else if m == 3 {
        59
    } else if m == 4 {
        90
    } else if m == 5 {
        120
    } else if m == 6 {
        151
    } else if m == 7 {
        181
    } else if m == 8 {
        212
    } else if m == 9 {
        243
    } else if m == 10 {
        273
    } else if m == 11 {
        304
    } else {
        334
    };
    if m > 2 && is_leap_year(y) {
        common + 1
    } else {
        common
    }
}

/// The position of a date in the day count that starts with 0001-01-01 as day 1.
pub open spec fn day_number(d: Date) -> int {
    days_before_year(d.year as int) + days_before_month(d.year as int, d.month as int) + d.day
}

impl Date {
    /// Month and day name a day that exists in the year.
    pub open spec fn is_calendar_date(self) -> bool {
        1 <= self.month <= 12 && 1 <= self.day <= days_in_month(self.year as int, self.month as int)
    }

    /// A calendar date with a four-digit year.
    pub open spec fn wf(self) -> bool {
        self.is_calendar_date() && 1 <= self.year <= 9999
    }

    /// Lexicographic order on (year, month, day).
    pub open spec fn spec_le(self, other: Date) -> bool {
        self.year < other.year || (self.year == other.year && (self.month < other.month || (
        self.month == other.month && self.day <= other.day)))
    }

    /// Whether `self` falls on or before `other`.
    pub fn is_on_or_before(&self, other: &Date) -> (r: bool)
        ensures
            r == self.spec_le(*other),
    {
        self.year < other.year || (self.year == other.year && (self.month < other.month || (
        self.month == other.month && self.day <= other.day)))
    }
}

impl TimeOfDay {
    pub open spec fn wf(self) -> bool {
        self.hour < 24 && self.minute < 60 && self.second < 60
    }
}

proof fn lemma_div_step(x: int)
    ensures
        (x + 1) / 4 - x / 4 == (if (x + 1) % 4 == 0 { 1int } else { 0int }),
        (x + 1) / 100 - x / 100 == (if (x + 1) % 100 == 0 { 1int } else { 0int }),
        (x + 1) / 400 - x / 400 == (if (x + 1) % 400 == 0 { 1int } else { 0int }),
{
}

/// A year adds its own length to the day count.
proof fn lemma_year_step(y: int)
    ensures
        days_before_year(y + 1) == days_before_year(y) + year_length(y),
{
    lemma_div_step(y - 1);
}

proof fn lemma_years_monotone(a: int, b: int)
    requires
        a <= b,
    ensures
        days_before_year(a) + 365 * (b - a) <= days_before_year(b),
    decreases b - a,
{
    if a < b {
        lemma_years_monotone(a, b - 1);
        lemma_year_step(b - 1);
    }
}

/// A calendar date lies inside its own year in the day count.
proof fn lemma_within_year(d: Date)
    requires
        d.is_calendar_date(),
    ensures
        days_before_year(d.year as int) < day_number(d),
        day_number(d) <= days_before_year(d.year as int) + year_length(d.year as int),
{
}

/// Every date of an earlier year comes earlier in the day count.
pub proof fn lemma_earlier_year(a: Date, b: Date)
    requires
        a.is_calendar_date(),
        b.is_calendar_date(),
        a.year < b.year,
    ensures
        day_number(a) < day_number(b),
{
    lemma_within_year(a);
    lemma_within_year(b);
    lemma_year_step(a.year as int);
    lemma_years_monotone(a.year + 1, b.year as int);
}

/// The date `n` months before `d`, on the same day of the month, or on the
/// last day of the month where that day does not exist.
pub open spec fn months_back(d: Date, n: int) -> Date {
    let t = d.year * 12 + (d.month - 1) - n;
    let y = t / 12;
    let m = t % 12 + 1;
    let dim = days_in_month(y, m);
    Date { year: y as i32, month: m as u32, day: if d.day <= dim { d.day } else { dim as u32 } }
}

/// Relies on chrono's `NaiveDate::checked_sub_days`: the date `n` days
/// earlier, which lies well inside chrono's range for these inputs. The
/// date is handed over through `NaiveDate::from_ymd_opt`, which accepts
/// every calendar date of a four-digit year.
#[verifier::external_body]
fn chrono_sub_days(d: Date, n: u64) -> (r: Option<Date>)
    requires
        d.wf(),
        n <= 100_000,
    ensures
        r is Some,
        r->0.is_calendar_date(),
        day_number(r->0) == day_number(d) - n,
{
    let date = chrono::NaiveDate::from_ymd_opt(d.year, d.month, d.day)?;
    let x = date.checked_sub_days(chrono::Days::new(n))?;
    Some(Date { year: x.year(), month: x.month(), day: x.day() })
}

/// Relies on chrono's `NaiveDate::checked_sub_months`: the date `n` months
/// earlier, clamped to the end of a shorter month, and inside chrono's range
/// for these inputs. The date is handed over through `NaiveDate::from_ymd_opt`.
#[verifier::external_body]
fn chrono_sub_months(d: Date, n: u32) -> (r: Option<Date>)
    requires
        d.wf(),
        n <= 100_000,
    ensures
        r == Some(months_back(d, n as int)),
{
    let date = chrono::NaiveDate::from_ymd_opt(d.year, d.month, d.day)?;
    let x = date.checked_sub_months(chrono::Months::new(n))?;
    Some(Date { year: x.year(), month: x.month(), day: x.day() })
}

/// The shortcuts of the query bar that set a range ending today.
#[derive(Clone, Copy, Debug, PartialEq, Eq, Structural)]
pub enum RangeShortcut {
    OneDay,
    ThreeDays,
    OneWeek,
    OneMonth,
    OneYear,
    Any,
}

/// The first day that the unbounded shortcut reaches back to.
pub open spec fn epoch_floor() -> Date {
    Date { year: 1990, month: 1, day: 1 }
}

impl RangeShortcut {
    /// The label a shortcut button carries; every other label means `Any`.
    pub open spec fn spec_from_label(label: Seq<char>) -> RangeShortcut {
        if label == seq!['1', 'D'] {
            RangeShortcut::OneDay
        } else if label == seq!['3', 'D'] {
            RangeShortcut::ThreeDays
        } else if label == seq!['1', 'W'] {
            RangeShortcut::OneWeek
        } else if label == seq!['1', 'M'] {
            RangeShortcut::OneMonth
        } else if label == seq!['1', 'Y'] {
            RangeShortcut::OneYear
        } else {
            RangeShortcut::Any
        }
    }

    pub fn from_label(label: &str) -> (r: RangeShortcut)
        ensures
            r == Self::spec_from_label(label@),
    {
        proof {
            reveal_strlit("1D");
            reveal_strlit("3D");
            reveal_strlit("1W");
            reveal_strlit("1M");
            reveal_strlit("1Y");
        }
        assert("1D"@ =~= seq!['1', 'D']);
        assert("3D"@ =~= seq!['3', 'D']);
        assert("1W"@ =~= seq!['1', 'W']);
        assert("1M"@ =~= seq!['1', 'M']);
        assert("1Y"@ =~= seq!['1', 'Y']);
        if same_text(label, "1D") {
            RangeShortcut::OneDay
        } else if same_text(label, "3D") {
            RangeShortcut::ThreeDays
        } else if same_text(label, "1W") {
            RangeShortcut::OneWeek
        } else if same_text(label, "1M") {
            RangeShortcut::OneMonth
        } else if same_text(label, "1Y") {
            RangeShortcut::OneYear
        } else {
            RangeShortcut::Any
        }
    }

    /// How many days the shortcut reaches back, for the day-based ones.
    pub open spec fn days(self) -> int {
        match self {
            RangeShortcut::OneDay => 1,
            RangeShortcut::ThreeDays => 3,
            RangeShortcut::OneWeek => 7,
            _ => 0,
        }
    }

    /// How many months the shortcut reaches back, for the month-based ones.
    pub open spec fn months(self) -> int {
        match self {
            RangeShortcut::OneMonth => 1,
            RangeShortcut::OneYear => 12,
            _ => 0,
        }
    }

    pub open spec fn is_day_based(self) -> bool {
        self.days() > 0
    }

    pub open spec fn is_month_based(self) -> bool {
        self.months() > 0
    }
}

/// The calendar date with the given day number.
pub open spec fn date_with_number(n: int) -> Date {
    choose|x: Date| x.is_calendar_date() && day_number(x) == n
}

/// The start of the range that `s` selects when the range ends on `today`,
/// or `None` where that start would fall before year 1.
pub open spec fn relative_range_start_spec(today: Date, s: RangeShortcut) -> Option<Date> {
    if s == RangeShortcut::Any {
        Some(epoch_floor())
    } else if s.is_month_based() {
        if months_back(today, s.months()).year >= 1 {
            Some(months_back(today, s.months()))
        } else {
            None
        }
    } else if day_number(today) - s.days() >= 1 {
        Some(date_with_number(day_number(today) - s.days()))
    } else {
        None
    }
}

/// Two calendar dates with the same day number are the same date.
pub proof fn lemma_day_number_injective(a: Date, b: Date)
    requires
        a.is_calendar_date(),
        b.is_calendar_date(),
        day_number(a) == day_number(b),
    ensures
        a == b,
{
    if a.year < b.year {
        lemma_earlier_year(a, b);
    } else if b.year < a.year {
        lemma_earlier_year(b, a);
    }
}

/// The start of the range that `s` selects when the range ends on `today`,
/// or `None` where that start would fall before year 1.
pub fn relative_range_start(today: Date, s: RangeShortcut) -> (r: Option<Date>)
    requires
        today.wf(),
    ensures
        r == relative_range_start_spec(today, s),
        s.is_day_based() && r is Some ==> day_number(r->0) == day_number(today) - s.days(),
        r is Some ==> r->0.wf(),
        r is Some && s != RangeShortcut::Any ==> r->0.spec_le(today),
{
    match s {
        RangeShortcut::Any => Some(Date { year: 1990, month: 1, day: 1 }),
        RangeShortcut::OneMonth | RangeShortcut::OneYear => {
            let n: u32 = match s {
                RangeShortcut::OneMonth => 1,
                _ => 12,
            };
            let x = chrono_sub_months(today, n).unwrap();
            if x.year >= 1 {
                Some(x)
            } else {
                None
            }
        },
        _ => {
            let n: u64 = match s {
                RangeShortcut::OneDay => 1,
                RangeShortcut::ThreeDays => 3,
                _ => 7,
            };
            let x = chrono_sub_days(today, n).unwrap();
            proof {
                let first = Date { year: 1, month: 1, day: 1 };
                assert(day_number(first) == 1);
                if x.year > today.year {
                    lemma_earlier_year(today, x);
                }
                if x.year < 1 {
                    lemma_earlier_year(x, first);
                } else {
                    lemma_years_monotone(1, x.year as int);
                }
                if x.year == today.year {
                    assert(x.spec_le(today));
                }
                let n = day_number(today) - s.days();
                if n >= 1 {
                    let y = date_with_number(n);
                    assert(x.is_calendar_date() && day_number(x) == n);
                    lemma_day_number_injective(x, y);
                }
            }
            if x.year >= 1 {
                Some(x)
            } else {
                None
            }
        },
    }
}

} // verus!
