//! Calendar dates, on the proleptic Gregorian calendar.
use vstd::prelude::*;
use vstd::string::*;

use crate::text::{decimal, number};

verus! {

/// A calendar date.
#[derive(Clone, Copy, Debug, PartialEq, Eq, Structural)]
pub struct Date {
    pub year: i32,
    pub month: u8,
    pub day: u8,
}

/// Whether a year has a 29 February.
pub open spec fn leap(y: int) -> bool {
    y % 4 == 0 && (y % 100 != 0 || y % 400 == 0)
}

/// The days of a month.
pub open spec fn month_len(y: int, m: int) -> int {
    if m == 2 {
        if leap(y) {
            29
        } else {
            28
        }
    } else if m == 4 || m == 6 || m == 9 || m == 11 {
        30
    } else {
        31
    }
}

/// The days of a year before a month.
pub open spec fn days_before_month(y: int, m: int) -> int
    decreases m,
{
    if m <= 1 {
        0
    } else {
        days_before_month(y, m - 1) + month_len(y, m - 1)
    }
}

/// The day, counted from 1 January 1970.
pub open spec fn day_number(d: Date) -> int {
    days_before_year(d.year as int) + days_before_month(d.year as int, d.month as int) + d.day - 1
        - 719162
}

/// The days before a year, counted from 1 January of the year 1.
pub open spec fn days_before_year(y: int) -> int {
    let p = y - 1;
    365 * p + p / 4 - p / 100 + p / 400
}

/// Whether the parts are a date of the years -9999 to 9999.
pub open spec fn is_date(y: int, m: int, d: int) -> bool {
    -9999 <= y <= 9999 && 1 <= m <= 12 && 1 <= d <= month_len(y, m)
}

impl Date {
    /// The parts are a date.
    pub open spec fn wf(self) -> bool {
        is_date(self.year as int, self.month as int, self.day as int)
    }
}

/// The first date.
pub open spec fn first_date() -> Date {
    Date { year: -9999i32, month: 1, day: 1 }
}

/// The last date.
pub open spec fn last_date() -> Date {
    Date { year: 9999, month: 12, day: 31 }
}

/// The date some days later, or the first or last date where there is none.
pub open spec fn days_later(date: Date, days: int) -> Date {
    if day_number(date) + days < day_number(first_date()) {
        first_date()
    } else if day_number(date) + days > day_number(last_date()) {
        last_date()
    } else {
        choose|r: Date| #[trigger] r.wf() && day_number(r) == day_number(date) + days
    }
}

/// A year is 365 days long, or 366 in a leap year.
proof fn lemma_year_len(y: int)
    ensures
        days_before_year(y + 1) == days_before_year(y) + (if leap(y) {
            366int
        } else {
            365int
        }),
{
    let p = y - 1;
    assert((p + 1) / 4 == p / 4 + (if (p + 1) % 4 == 0 {
        1int
    } else {
        0int
    }));
    assert((p + 1) / 100 == p / 100 + (if (p + 1) % 100 == 0 {
        1int
    } else {
        0int
    }));
    assert((p + 1) / 400 == p / 400 + (if (p + 1) % 400 == 0 {
        1int
    } else {
        0int
    }));
    assert(y % 400 == 0 ==> y % 100 == 0);
    assert(y % 100 == 0 ==> y % 4 == 0);
}

/// A later year starts after the whole of an earlier one.
proof fn lemma_years_grow(a: int, b: int)
    requires
        a < b,
    ensures
        days_before_year(b) >= days_before_year(a) + (if leap(a) {
            366int
        } else {
            365int
        }),
    decreases b - a,
{
    lemma_year_len(b - 1);
    if a < b - 1 {
        lemma_years_grow(a, b - 1);
    } else {
        lemma_year_len(a);
    }
}

/// Within a year, a day's offset determines its month and day.
proof fn lemma_within_year(y: int, m: int, d: int, n: int, e: int)
    requires
        1 <= m <= 12,
        1 <= n <= 12,
        1 <= d <= month_len(y, m),
        1 <= e <= month_len(y, n),
    ensures
        0 <= days_before_month(y, m) + d - 1 < (if leap(y) {
            366int
        } else {
            365int
        }),
        days_before_month(y, m) + d == days_before_month(y, n) + e ==> m == n && d == e,
{
    reveal_with_fuel(days_before_month, 13);
}

/// A date is determined by its day.
pub proof fn lemma_day_number_injective(a: Date, b: Date)
    requires
        a.wf(),
        b.wf(),
        day_number(a) == day_number(b),
    ensures
        a == b,
{
    lemma_within_year(a.year as int, a.month as int, a.day as int, a.month as int, a.day as int);
    lemma_within_year(b.year as int, b.month as int, b.day as int, b.month as int, b.day as int);
    if a.year < b.year {
        lemma_years_grow(a.year as int, b.year as int);
    } else if b.year < a.year {
        lemma_years_grow(b.year as int, a.year as int);
    } else {
        lemma_within_year(
            a.year as int,
            a.month as int,
            a.day as int,
            b.month as int,
            b.day as int,
        );
    }
}

/// Every date lies between the first and the last one.
pub proof fn lemma_in_range(d: Date)
    requires
        d.wf(),
    ensures
        day_number(first_date()) <= day_number(d) <= day_number(last_date()),
{
    reveal_with_fuel(days_before_month, 13);
    lemma_within_year(d.year as int, d.month as int, d.day as int, d.month as int, d.day as int);
    if d.year > -9999 {
        lemma_years_grow(-9999, d.year as int);
    }
    if d.year < 9999 {
        lemma_years_grow(d.year as int, 9999);
    }
}

/// Stepping some days away and the same number of days back ends on the same date.
pub proof fn law_days_there_and_back(date: Date, days: int, step: Date)
    requires
        date.wf(),
        step.wf(),
        day_number(step) == day_number(date) + days,
    ensures
        days_later(date, days) == step,
        days_later(step, -days) == date,
{
    lemma_in_range(date);
    lemma_in_range(step);
    let there = days_later(date, days);
    assert(there.wf() && day_number(there) == day_number(step));
    lemma_day_number_injective(there, step);
    let back = days_later(step, -days);
    assert(back.wf() && day_number(back) == day_number(date));
    lemma_day_number_injective(back, date);
}

/// A date lies within some millions of days of the epoch.
proof fn lemma_day_bounds(d: Date)
    requires
        d.wf(),
    ensures
        -5_000_000 < day_number(d) < 5_000_000,
        -5_000_000 < day_number(first_date()),
        day_number(last_date()) < 5_000_000,
{
    lemma_within_year(d.year as int, d.month as int, d.day as int, d.month as int, d.day as int);
    lemma_within_year(9999, 12, 31, 12, 31);
}

// ── Trusted items ───────────────────────────────────────────────────────────

/// `time::Month::length`: the days of a month.
#[verifier::external_body]
fn length_of_month(year: i32, month: u8) -> (r: u8)
    requires
        1 <= month <= 12,
    ensures
        r == month_len(year as int, month as int),
{
    time::Month::try_from(month).expect("a month").length(year)
}

/// `time::Date::from_calendar_date`: whether the parts are a date.
#[verifier::external_body]
fn is_calendar_date(year: i32, month: u8, day: u8) -> (r: bool)
    requires
        1 <= month <= 12,
    ensures
        r == is_date(year as int, month as int, day as int),
{
    let m = time::Month::try_from(month).expect("a month");
    time::Date::from_calendar_date(year, m, day).is_ok()
}

/// The number of days beyond which a span of time no longer counts its seconds in 64 bits.
pub const MAX_DAYS: i64 = 100_000_000_000_000;

/// `time::Date::saturating_add`, with a whole number of days: the date that many
/// days later, or the first or last date where there is none. `time::Duration::days`
/// multiplies the days by the seconds of a day, which must not overflow.
#[verifier::external_body]
fn date_plus_days(date: Date, days: i64) -> (r: Date)
    requires
        date.wf(),
        -MAX_DAYS <= days <= MAX_DAYS,
    ensures
        r.wf(),
        if day_number(date) + days < day_number(first_date()) {
            r == first_date()
        } else if day_number(date) + days > day_number(last_date()) {
            r == last_date()
        } else {
            day_number(r) == day_number(date) + days
        },
{
    let m = time::Month::try_from(date.month).expect("a month");
    let d = time::Date::from_calendar_date(date.year, m, date.day).expect("a date");
    let r = d.saturating_add(time::Duration::days(days));
    Date { year: r.year(), month: r.month().into(), day: r.day() }
}

/// `time::OffsetDateTime::unix_timestamp`, of midnight UTC: the seconds of a date.
#[verifier::external_body]
fn seconds_of_date(date: Date) -> (r: i64)
    requires
        date.wf(),
    ensures
        r == day_number(date) * 86400,
{
    let m = time::Month::try_from(date.month).expect("a month");
    let d = time::Date::from_calendar_date(date.year, m, date.day).expect("a date");
    d.midnight().assume_utc().unix_timestamp()
}

/// `time::OffsetDateTime::from_unix_timestamp`: the date, in UTC, of a time in
/// seconds; `None` beyond the first and last dates.
#[verifier::external_body]
fn date_of_seconds(seconds: i64) -> (r: Option<Date>)
    ensures
        r is Some == (day_number(first_date()) * 86400 <= seconds < (day_number(last_date()) + 1)
            * 86400),
        r matches Some(d) ==> d.wf() && day_number(d) == seconds as int / 86400,
{
    let t = time::OffsetDateTime::from_unix_timestamp(seconds).ok()?;
    let d = t.date();
    Some(Date { year: d.year(), month: d.month().into(), day: d.day() })
}

// ── Operations ──────────────────────────────────────────────────────────────

/// Whether a time in seconds lies within the calendar.
pub open spec fn in_calendar(seconds: i64) -> bool {
    day_number(first_date()) * 86400 <= seconds < (day_number(last_date()) + 1) * 86400
}

impl Date {
    /// The date of these parts, if they are one.
    pub fn from_calendar_date(year: i32, month: u8, day: u8) -> (r: Option<Date>)
        ensures
            r == (if is_date(year as int, month as int, day as int) {
                Some(Date { year, month, day })
            } else {
                None
            }),
    {
        if month >= 1 && month <= 12 && is_calendar_date(year, month, day) {
            Some(Date { year, month, day })
        } else {
            None
        }
    }

    /// The date, in UTC, of a time in seconds.
    pub fn from_seconds(seconds: i64) -> (r: Option<Date>)
        ensures
            r is Some == in_calendar(seconds),
            r matches Some(d) ==> d.wf() && day_number(d) == seconds as int / 86400,
    {
        date_of_seconds(seconds)
    }

    /// Midnight of the date, in UTC, in seconds.
    pub fn midnight(self) -> (r: i64)
        requires
            self.wf(),
        ensures
            r == day_number(self) * 86400,
    {
        seconds_of_date(self)
    }

    /// The date some days later or earlier.
    pub fn plus_days(self, days: i64) -> (r: Date)
        requires
            self.wf(),
        ensures
            r.wf(),
            r == days_later(self, days as int),
    {
        let span: i64 = if days > MAX_DAYS {
            MAX_DAYS
        } else if days < -MAX_DAYS {
            -MAX_DAYS
        } else {
            days
        };
        let r = date_plus_days(self, span);
        proof {
            lemma_day_bounds(self);
            if day_number(r) == day_number(self) + days {
                law_days_there_and_back(self, days as int, r);
            }
        }
        r
    }

    /// The text of a date: `2026-06-15`.
    pub open spec fn text(self) -> Seq<char> {
        let sign = if self.year < 0 {
            "-"@
        } else {
            Seq::empty()
        };
        let y = if self.year < 0 {
            -(self.year as int)
        } else {
            self.year as int
        };
        sign + padded(y as nat, 4) + "-"@ + padded(self.month as nat, 2) + "-"@ + padded(
            self.day as nat,
            2,
        )
    }

    /// The text of a date.
    pub fn to_text(self) -> (r: String)
        requires
            self.wf(),
        ensures
            r@ == self.text(),
    {
        let mut s = String::new();
        let y: i32 = if self.year < 0 {
            -self.year
        } else {
            self.year
        };
        if self.year < 0 {
            s.append("-");
        }
        let ys = pad(y as u64, 4);
        s.append(ys.as_str());
        s.append("-");
        let ms = pad(self.month as u64, 2);
        s.append(ms.as_str());
        s.append("-");
        let ds = pad(self.day as u64, 2);
        s.append(ds.as_str());
        proof {
            assert(s@ =~= self.text());
        }
        s
    }
}

/// A number in decimal, with zeros before it up to a width.
pub open spec fn padded(n: nat, width: nat) -> Seq<char> {
    let d = decimal(n);
    if d.len() >= width {
        d
    } else {
        Seq::new((width - d.len()) as nat, |i: int| '0') + d
    }
}

/// A number in decimal, with zeros before it up to a width.
pub fn pad(n: u64, width: usize) -> (r: String)
    ensures
        r@ == padded(n as nat, width as nat),
{
    let d = number(n);
    let len: usize = d.as_str().unicode_len();
    if len >= width {
        return d;
    }
    let mut s = String::new();
    let k: usize = width - len;
    let mut i: usize = 0;
    proof {
        assert(s@ =~= Seq::new(0, |i: int| '0'));
    }
    while i < k
        invariant
            i <= k,
            s@ == Seq::new(i as nat, |i: int| '0'),
        decreases k - i,
    {
        s.push('0');
        proof {
            assert(s@ =~= Seq::new((i + 1) as nat, |i: int| '0'));
        }
        i = i + 1;
    }
    s.append(d.as_str());
    s
}

/// The date some whole months later: the day is cut to the length of the month,
/// and beyond the first and last years the date stays.
pub open spec fn months_later(date: Date, delta: int) -> Date {
    let total = date.year * 12 + (date.month - 1) + delta;
    let y = total / 12;
    let m = total % 12 + 1;
    let len = month_len(y, m);
    let d = if date.day < len {
        date.day as int
    } else {
        len
    };
    if -9999 <= y <= 9999 {
        Date { year: y as i32, month: m as u8, day: d as u8 }
    } else {
        date
    }
}

/// Shifts a date by whole months; short months cut the day.
pub fn shift_month(date: Date, delta: i32) -> (r: Date)
    requires
        date.wf(),
    ensures
        r.wf(),
        r == months_later(date, delta as int),
{
    let total: i64 = date.year as i64 * 12 + (date.month as i64 - 1) + delta as i64;
    let years: i64 = if total >= 0 {
        total / 12
    } else {
        -((-total + 11) / 12)
    };
    let year: i32 = years as i32;
    let month: u8 = (total - 12 * years + 1) as u8;
    proof {
        assert(year == total as int / 12);
        assert(month == total as int % 12 + 1);
    }
    let len: u8 = length_of_month(year, month);
    let day: u8 = if date.day < len {
        date.day
    } else {
        len
    };
    match Date::from_calendar_date(year, month, day) {
        Some(d) => d,
        None => date,
    }
}

/// A month step keeps the day wherever the target month has it, and otherwise ends
/// on the last day of that month; it never leaves the month aimed at.
pub proof fn law_month_step(date: Date, delta: int)
    requires
        date.wf(),
        -9999 <= (date.year * 12 + (date.month - 1) + delta) / 12 <= 9999,
    ensures
        ({
            let total = date.year * 12 + (date.month - 1) + delta;
            let r = months_later(date, delta);
            &&& r.wf()
            &&& r.year == total / 12
            &&& r.month == total % 12 + 1
            &&& r.day == date.day || (r.day < date.day && r.day == month_len(
                r.year as int,
                r.month as int,
            ))
        }),
{
}

/// The date on a day, counted from the epoch.
pub open spec fn date_on(day: int) -> Date {
    choose|d: Date| d.wf() && day_number(d) == day
}

/// The date of a time in seconds, in UTC; a time beyond the calendar has none.
pub open spec fn date_at(time: Option<i64>) -> Option<Date> {
    match time {
        Some(s) if in_calendar(s) => Some(date_on(s as int / 86400)),
        _ => None,
    }
}

/// The date of a time in seconds, in UTC.
pub fn date_of_time(time: Option<i64>) -> (r: Option<Date>)
    ensures
        r == date_at(time),
        r matches Some(d) ==> d.wf(),
{
    match time {
        Some(s) => match Date::from_seconds(s) {
            Some(d) => {
                proof {
                    lemma_day_number_injective(d, date_on(s as int / 86400));
                }
                Some(d)
            },
            None => None,
        },
        None => None,
    }
}

} // verus!
