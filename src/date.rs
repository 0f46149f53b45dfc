//! A second-resolution calendar clock in the proleptic Gregorian calendar.
//!
//! A `Date` is held as plain calendar fields; its position on the time line is
//! `instant`, the number of seconds since the first representable day.
use crate::text::{four_digits, two_digits};
use vstd::math::min;
use vstd::prelude::*;

verus! {

/// The first year that the calendar represents.
pub const FIRST_YEAR: i32 = -9999;

/// The last year that the calendar represents.
pub const LAST_YEAR: i32 = 9999;

/// Seconds in one calendar day.
pub const SECONDS_PER_DAY: i64 = 86400;

pub open spec fn is_leap_year(y: int) -> bool {
    y % 4 == 0 && (y % 100 != 0 || y % 400 == 0)
}

pub open spec fn days_in_year(y: int) -> int {
    if is_leap_year(y) {
        366
    } else {
        365
    }
}

pub open spec fn days_in_month(y: int, m: int) -> int {
    if m == 2 {
        if is_leap_year(y) {
            29
        } else {
            28
        }
    } else if m == 4 || m == 6 || m == 9 || m == 11 {
        30
    } else {
        31
    }
}

/// Days of year `y` that come before the first day of month `m`.
pub open spec fn days_before_month(y: int, m: int) -> int
    decreases m,
{
    if m <= 1 {
        0
    } else {
        days_before_month(y, m - 1) + days_in_month(y, m - 1)
    }
}

/// Days from the first day of `FIRST_YEAR` to the first day of year `y`.
pub open spec fn days_before_year(y: int) -> int
    decreases y - FIRST_YEAR,
{
    if y <= FIRST_YEAR {
        0
    } else {
        days_before_year(y - 1) + days_in_year(y - 1)
    }
}

/// A date and a time of day, to the second.
#[derive(Clone, Copy, Debug, PartialEq, Eq, Structural)]
pub struct Date {
    pub year: i32,
    pub month: u8,
    pub day: u8,
    pub hour: u8,
    pub minute: u8,
    pub second: u8,
}

impl Date {
    /// The fields name an existing day of the calendar and a time of day.
    pub open spec fn wf(self) -> bool {
        &&& FIRST_YEAR <= self.year <= LAST_YEAR
        &&& 1 <= self.month <= 12
        &&& 1 <= self.day <= days_in_month(self.year as int, self.month as int)
        &&& self.hour < 24
        &&& self.minute < 60
        &&& self.second < 60
    }

    /// Days from the first representable day to this one.
    pub open spec fn day_number(self) -> int {
        days_before_year(self.year as int) + days_before_month(self.year as int, self.month as int)
            + self.day - 1
    }

    pub open spec fn second_of_day(self) -> int {
        self.hour * 3600 + self.minute * 60 + self.second
    }

    /// Seconds from the first representable instant to this one.
    pub open spec fn instant(self) -> int {
        self.day_number() * SECONDS_PER_DAY + self.second_of_day()
    }

    /// The last representable second: 9999-12-31 23:59:59.
    pub open spec fn last() -> Date {
        Date { year: LAST_YEAR, month: 12, day: 31, hour: 23, minute: 59, second: 59 }
    }

    pub fn new(year: i32, month: u8, day: u8, hour: u8, minute: u8, second: u8) -> (r: Date)
        requires
            (Date { year, month, day, hour, minute, second }).wf(),
        ensures
            r == (Date { year, month, day, hour, minute, second }),
    {
        Date { year, month, day, hour, minute, second }
    }

    /// Moves one second forward; past the last representable second the date
    /// stays on it.
    pub fn add_one_second(&mut self)
        requires
            old(self).wf(),
        ensures
            final(self).wf(),
            final(self).instant() == min(old(self).instant() + 1, Date::last().instant()),
    {
        *self = saturating_add_seconds(*self, 1);
    }

    /// Moves to midnight of the following day (a whole day forward, then the
    /// time of day reset), or to midnight of the last day when there is none.
    pub fn set_next_day(&mut self)
        requires
            old(self).wf(),
        ensures
            final(self).wf(),
            final(self).day_number() == min(old(self).day_number() + 1, Date::last().day_number()),
            final(self).hour == 0,
            final(self).minute == 0,
            final(self).second == 0,
    {
        let later = saturating_add_seconds(*self, SECONDS_PER_DAY);
        proof {
            lemma_instant_split(*self);
            lemma_instant_split(later);
            lemma_at_most_last(*self);
            let last = Date::last();
            lemma_instant_split(last);
            if self.day_number() < last.day_number() {
                lemma_unique_split(later.day_number(), later.second_of_day(),
                    self.day_number() + 1, self.second_of_day(), SECONDS_PER_DAY as int);
            } else {
                lemma_unique_split(later.day_number(), later.second_of_day(),
                    last.day_number(), last.second_of_day(), SECONDS_PER_DAY as int);
            }
        }
        *self = Date { hour: 0, minute: 0, second: 0, ..later };
    }
}

/// The three-letter English abbreviation of month `m` (1 to 12).
pub open spec fn month_abbrev(m: int) -> Seq<char> {
    seq![
        seq!['J', 'a', 'n'], seq!['F', 'e', 'b'], seq!['M', 'a', 'r'], seq!['A', 'p', 'r'],
        seq!['M', 'a', 'y'], seq!['J', 'u', 'n'], seq!['J', 'u', 'l'], seq!['A', 'u', 'g'],
        seq!['S', 'e', 'p'], seq!['O', 'c', 't'], seq!['N', 'o', 'v'], seq!['D', 'e', 'c'],
    ][m - 1]
}

/// Four digits, preceded by a minus sign for years before year zero.
pub open spec fn year_text(y: int) -> Seq<char> {
    if y < 0 {
        seq!['-'] + four_digits(-y)
    } else {
        four_digits(y)
    }
}

/// A date as nginx writes `$time_local`, bracketed and with a fixed zone:
/// `[DD/Mon/YYYY:HH:MM:SS +0100]`.
pub open spec fn time_local_text(d: Date) -> Seq<char> {
    seq!['['] + two_digits(d.day as int) + seq!['/'] + month_abbrev(d.month as int) + seq!['/']
        + year_text(d.year as int) + seq![':'] + two_digits(d.hour as int) + seq![':']
        + two_digits(d.minute as int) + seq![':'] + two_digits(d.second as int) + seq![
        ' ',
        '+',
        '0',
        '1',
        '0',
        '0',
        ']',
    ]
}

/// Relies on time's `PrimitiveDateTime::format` with the format description
/// `[[[day]/[month repr:short]/[year]:[hour]:[minute]:[second] +0100]`:
/// day, hour, minute and second as two zero-padded digits, the month's short
/// English name, and the year as four zero-padded digits after a minus sign
/// when negative.
#[verifier::external_body]
pub(crate) fn format_time_local(d: &Date) -> (r: String)
    requires
        d.wf(),
    ensures
        r@ == time_local_text(*d),
{
    let month = time::Month::try_from(d.month).unwrap();
    let date = time::Date::from_calendar_date(d.year, month, d.day).unwrap();
    let at = date.with_hms(d.hour, d.minute, d.second).unwrap();
    let description = time::format_description::parse_borrowed::<1>(
        "[[[day]/[month repr:short]/[year]:[hour]:[minute]:[second] +0100]",
    ).unwrap();
    at.format(&description).unwrap()
}

/// Relies on time's `PrimitiveDateTime::saturating_add`: the date and time
/// `secs` seconds later in the proleptic Gregorian calendar, or
/// `PrimitiveDateTime::MAX` (9999-12-31 23:59:59.999999999, read here to the
/// second) when that lies past the end of the calendar.
#[verifier::external_body]
fn saturating_add_seconds(d: Date, secs: i64) -> (r: Date)
    requires
        d.wf(),
        secs >= 0,
    ensures
        r.wf(),
        r.instant() == min(d.instant() + secs, Date::last().instant()),
{
    let month = time::Month::try_from(d.month).unwrap();
    let date = time::Date::from_calendar_date(d.year, month, d.day).unwrap();
    let start = date.with_hms(d.hour, d.minute, d.second).unwrap();
    let r = start.saturating_add(time::Duration::seconds(secs));
    Date {
        year: r.year(),
        month: u8::from(r.month()),
        day: r.day(),
        hour: r.hour(),
        minute: r.minute(),
        second: r.second(),
    }
}

/// A number written as `q * k + r` with `0 <= r < k` has one such writing.
pub proof fn lemma_unique_split(q1: int, r1: int, q2: int, r2: int, k: int)
    requires
        k > 0,
        0 <= r1 < k,
        0 <= r2 < k,
        q1 * k + r1 == q2 * k + r2,
    ensures
        q1 == q2,
        r1 == r2,
{
    if q1 > q2 {
        assert((q1 - q2) * k >= k) by (nonlinear_arith)
            requires
                q1 > q2,
                k > 0,
        ;
        assert((q1 - q2) * k == q1 * k - q2 * k) by (nonlinear_arith);
    } else if q1 < q2 {
        assert((q2 - q1) * k >= k) by (nonlinear_arith)
            requires
                q2 > q1,
                k > 0,
        ;
        assert((q2 - q1) * k == q2 * k - q1 * k) by (nonlinear_arith);
    }
}

/// The time of day is a whole number of seconds below one day.
pub proof fn lemma_instant_split(d: Date)
    requires
        d.wf(),
    ensures
        0 <= d.second_of_day() < SECONDS_PER_DAY,
        d.second_of_day() == d.hour * 3600 + d.minute * 60 + d.second,
{
}

/// The months of a year fill it exactly.
pub proof fn lemma_months_fill_year(y: int)
    ensures
        days_before_month(y, 13) == days_in_year(y),
{
    reveal_with_fuel(days_before_month, 13);
}

/// Days before a month grow with the month.
pub proof fn lemma_days_before_month_grows(y: int, m1: int, m2: int)
    requires
        m1 <= m2,
    ensures
        days_before_month(y, m1) <= days_before_month(y, m2),
    decreases m2 - m1,
{
    if m1 < m2 {
        lemma_days_before_month_grows(y, m1, m2 - 1);
    }
}

/// Days before a year grow with the year.
pub proof fn lemma_days_before_year_grows(y1: int, y2: int)
    requires
        y1 <= y2,
    ensures
        days_before_year(y1) <= days_before_year(y2),
    decreases y2 - y1,
{
    if y1 < y2 {
        lemma_days_before_year_grows(y1, y2 - 1);
    }
}

/// A valid date's day lies within its year, and within its month.
pub proof fn lemma_day_number_bounds(d: Date)
    requires
        d.wf(),
    ensures
        days_before_year(d.year as int) <= d.day_number(),
        d.day_number() < days_before_year(d.year + 1),
        d.day_number() < days_before_year(d.year as int) + days_before_month(
            d.year as int,
            d.month + 1,
        ),
{
    lemma_months_fill_year(d.year as int);
    lemma_days_before_month_grows(d.year as int, 1, d.month as int);
    lemma_days_before_month_grows(d.year as int, d.month + 1, 13);
}

/// No valid date lies past the last representable second.
pub proof fn lemma_at_most_last(d: Date)
    requires
        d.wf(),
    ensures
        d.day_number() <= Date::last().day_number(),
        d.instant() <= Date::last().instant(),
{
    let last = Date::last();
    lemma_day_number_bounds(d);
    lemma_day_number_bounds(last);
    lemma_days_before_year_grows(d.year + 1, LAST_YEAR + 1);
    reveal_with_fuel(days_before_month, 13);
    assert(last.day_number() == days_before_year(LAST_YEAR + 1) - 1);
    lemma_instant_split(d);
    assert(d.day_number() * SECONDS_PER_DAY <= last.day_number() * SECONDS_PER_DAY)
        by (nonlinear_arith)
        requires
            d.day_number() <= last.day_number(),
    ;
}

/// Two valid dates on the same instant are the same date.
pub proof fn lemma_instant_injective(a: Date, b: Date)
    requires
        a.wf(),
        b.wf(),
        a.instant() == b.instant(),
    ensures
        a == b,
{
    lemma_unique_split(a.day_number(), a.second_of_day(), b.day_number(), b.second_of_day(),
        SECONDS_PER_DAY as int);
    lemma_unique_split(a.hour as int * 60 + a.minute, a.second as int,
        b.hour as int * 60 + b.minute, b.second as int, 60);
    lemma_unique_split(a.hour as int, a.minute as int, b.hour as int, b.minute as int, 60);
    lemma_day_number_bounds(a);
    lemma_day_number_bounds(b);
    if a.year < b.year {
        lemma_days_before_year_grows(a.year + 1, b.year as int);
    } else if b.year < a.year {
        lemma_days_before_year_grows(b.year + 1, a.year as int);
    }
    if a.month < b.month {
        lemma_days_before_month_grows(a.year as int, a.month + 1, b.month as int);
    } else if b.month < a.month {
        lemma_days_before_month_grows(b.year as int, b.month + 1, a.month as int);
    }
}

/// Advancing the clock one second, twice, reaches the same date as advancing
/// it two seconds at once (both saturate at the last representable second),
/// and neither step moves the clock backwards.
pub proof fn lemma_two_single_seconds(start: Date, once: Date, twice: Date, direct: Date)
    requires
        start.wf(),
        once.wf(),
        twice.wf(),
        direct.wf(),
        once.instant() == min(start.instant() + 1, Date::last().instant()),
        twice.instant() == min(once.instant() + 1, Date::last().instant()),
        direct.instant() == min(start.instant() + 2, Date::last().instant()),
    ensures
        twice == direct,
        start.instant() <= once.instant(),
        once.instant() <= twice.instant(),
{
    lemma_at_most_last(start);
    lemma_instant_injective(twice, direct);
}

} // verus!
