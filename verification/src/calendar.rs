//! Calendar arithmetic: weekday sets, month navigation and the month grid.
//!
//! Dates are held as plain `(year, month, day)` values; the `time` crate checks
//! and computes what only a calendar implementation knows (month lengths,
//! whether a date exists, and which weekday it falls on).
use vstd::prelude::*;

verus! {

/// A day of the week, numbered from Monday.
#[derive(Clone, Copy, PartialEq, Eq, Structural, Debug)]
pub enum Weekday {
    /// Monday.
    Monday,
    /// Tuesday.
    Tuesday,
    /// Wednesday.
    Wednesday,
    /// Thursday.
    Thursday,
    /// Friday.
    Friday,
    /// Saturday.
    Saturday,
    /// Sunday.
    Sunday,
}

impl Weekday {
    /// The number of days from Monday (Monday is 0, Sunday is 6).
    pub open spec fn num(self) -> int {
        match self {
            Weekday::Monday => 0,
            Weekday::Tuesday => 1,
            Weekday::Wednesday => 2,
            Weekday::Thursday => 3,
            Weekday::Friday => 4,
            Weekday::Saturday => 5,
            Weekday::Sunday => 6,
        }
    }

    /// The number of days from Monday.
    pub fn number_days_from_monday(self) -> (r: u8)
        ensures
            r == self.num(),
    {
        match self {
            Weekday::Monday => 0,
            Weekday::Tuesday => 1,
            Weekday::Wednesday => 2,
            Weekday::Thursday => 3,
            Weekday::Friday => 4,
            Weekday::Saturday => 5,
            Weekday::Sunday => 6,
        }
    }

    /// The weekday `n` days after Monday.
    pub fn from_number_days_from_monday(n: u8) -> (r: Weekday)
        requires
            n < 7,
        ensures
            r.num() == n,
    {
        match n {
            0 => Weekday::Monday,
            1 => Weekday::Tuesday,
            2 => Weekday::Wednesday,
            3 => Weekday::Thursday,
            4 => Weekday::Friday,
            5 => Weekday::Saturday,
            _ => Weekday::Sunday,
        }
    }

    /// The weekday `n` days after this one.
    pub fn nth_next(self, n: u8) -> (r: Weekday)
        ensures
            r.num() == (self.num() + n) % 7,
    {
        let k: u8 = (self.number_days_from_monday() + n % 7) % 7;
        Weekday::from_number_days_from_monday(k)
    }
}

/// Whether bit `d` of `bits` is set.
pub open spec fn bit_set(bits: u8, d: int) -> bool {
    0 <= d < 7 && (bits >> (d as u8)) & 1u8 == 1u8
}

/// A set of weekdays stored as a bitmask: bit `d` holds the weekday `d` days after Monday.
/// The eighth bit is always clear.
#[derive(Clone, Copy)]
pub struct WeekdaySet(pub u8);

impl WeekdaySet {
    /// Well-formedness: the eighth bit is clear.
    pub open spec fn wf(self) -> bool {
        self.0 < 128
    }

    /// The weekday numbers in the set.
    pub open spec fn has(self, d: int) -> bool {
        bit_set(self.0, d)
    }

    /// Whether the set holds no weekday.
    pub open spec fn empty_spec(self) -> bool {
        forall|d: int| 0 <= d < 7 ==> !self.has(d)
    }

    /// The set holding only `weekday`.
    pub fn single(weekday: Weekday) -> (r: WeekdaySet)
        ensures
            r.wf(),
            r.0 == (1u8 << (weekday.num() as u8)),
            r.0 <= 64,
            forall|d: int| 0 <= d < 7 ==> (r.has(d) <==> d == weekday.num()),
    {
        let n = weekday.number_days_from_monday();
        let bits: u8 = 1u8 << n;
        proof {
            assert(n < 7);
            assert((1u8 << n) <= 64) by (bit_vector)
                requires
                    n < 7,
            ;
            assert forall|d: int| 0 <= d < 7 implies (bit_set(bits, d) <==> d == n) by {
                let du = d as u8;
                assert(((bits >> du) & 1u8 == 1u8) <==> du == n) by (bit_vector)
                    requires
                        n < 7,
                        du < 7,
                        bits == (1u8 << n),
                ;
            }
        }
        WeekdaySet(bits)
    }

    /// Whether the set is empty.
    pub fn is_empty(self) -> (r: bool)
        requires
            self.wf(),
        ensures
            r == self.empty_spec(),
    {
        let b = self.0;
        proof {
            if b == 0 {
                assert forall|d: int| 0 <= d < 7 implies !self.has(d) by {
                    let du = d as u8;
                    assert((0u8 >> du) & 1u8 == 0u8) by (bit_vector);
                }
            } else {
                assert(b < 128 && b != 0 ==> ((b >> 0u8) & 1u8 == 1u8 || (b >> 1u8) & 1u8 == 1u8 || (b
                    >> 2u8) & 1u8 == 1u8 || (b >> 3u8) & 1u8 == 1u8 || (b >> 4u8) & 1u8 == 1u8 || (b >> 5u8)
                    & 1u8 == 1u8 || (b >> 6u8) & 1u8 == 1u8)) by (bit_vector);
                assert(self.has(0) || self.has(1) || self.has(2) || self.has(3) || self.has(4) || self.has(5)
                    || self.has(6));
            }
        }
        self.0 == 0
    }

    /// Whether the set holds `day`.
    pub fn contains(self, day: Weekday) -> (r: bool)
        ensures
            r == self.has(day.num()),
    {
        let single = WeekdaySet::single(day);
        let b = self.0;
        let s = single.0;
        let n = day.number_days_from_monday();
        proof {
            assert(((b & s) != 0u8) <==> ((b >> n) & 1u8 == 1u8)) by (bit_vector)
                requires
                    n < 7,
                    s == (1u8 << n),
            ;
        }
        b & s != 0
    }

    /// Removes `day`; returns whether it was present.
    pub fn remove(&mut self, day: Weekday) -> (r: bool)
        requires
            old(self).wf(),
        ensures
            r == old(self).has(day.num()),
            final(self).wf(),
            forall|d: int| 0 <= d < 7 ==> (final(self).has(d) <==> (old(self).has(d) && d != day.num())),
    {
        if self.contains(day) {
            let s = WeekdaySet::single(day).0;
            let b = self.0;
            let n = day.number_days_from_monday();
            proof {
                assert((b & !s) < 128u8) by (bit_vector)
                    requires
                        b < 128u8,
                ;
                assert forall|d: int| 0 <= d < 7 implies (bit_set(b & !s, d) <==> (bit_set(b, d) && d
                    != n)) by {
                    let du = d as u8;
                    assert((((b & !s) >> du) & 1u8 == 1u8) <==> ((b >> du) & 1u8 == 1u8 && du != n)) by (bit_vector)
                        requires
                            n < 7,
                            du < 7,
                            s == (1u8 << n),
                    ;
                }
            }
            self.0 = b & !s;
            return true;
        }
        false
    }

    /// Splits the set at `weekday`: the days before it (from Monday) and the days
    /// from it on (through Sunday).
    pub fn split_at(self, weekday: Weekday) -> (r: (WeekdaySet, WeekdaySet))
        requires
            self.wf(),
        ensures
            r.0.wf(),
            r.1.wf(),
            forall|d: int| 0 <= d < 7 ==> (r.0.has(d) <==> (self.has(d) && d < weekday.num())),
            forall|d: int| 0 <= d < 7 ==> (r.1.has(d) <==> (self.has(d) && d >= weekday.num())),
            r.0.0 | r.1.0 == self.0,
            r.0.0 & r.1.0 == 0,
    {
        let s = WeekdaySet::single(weekday).0;
        let n = weekday.number_days_from_monday();
        let b = self.0;
        let days_after: u8 = 0b1000_0000u8 - s;
        let days_before: u8 = days_after ^ 0b0111_1111u8;
        proof {
            assert((b & days_before) < 128u8 && (b & days_after) < 128u8) by (bit_vector)
                requires
                    b < 128u8,
            ;
            assert(((b & days_before) | (b & days_after)) == b && ((b & days_before) & (b & days_after))
                == 0u8) by (bit_vector)
                requires
                    b < 128u8,
                    n < 7,
                    s == (1u8 << n),
                    days_after as int + s as int == 128,
                    days_before == days_after ^ 0b0111_1111u8,
            ;
            assert forall|d: int| 0 <= d < 7 implies (bit_set(b & days_before, d) <==> (bit_set(b, d)
                && d < n)) by {
                let du = d as u8;
                assert((((b & days_before) >> du) & 1u8 == 1u8) <==> ((b >> du) & 1u8 == 1u8 && du < n)) by (bit_vector)
                    requires
                        n < 7,
                        du < 7,
                        s == (1u8 << n),
                        days_after as int + s as int == 128,
                        days_before == days_after ^ 0b0111_1111u8,
                ;
            }
            assert forall|d: int| 0 <= d < 7 implies (bit_set(b & days_after, d) <==> (bit_set(b, d)
                && d >= n)) by {
                let du = d as u8;
                assert((((b & days_after) >> du) & 1u8 == 1u8) <==> ((b >> du) & 1u8 == 1u8 && du >= n)) by (bit_vector)
                    requires
                        n < 7,
                        du < 7,
                        s == (1u8 << n),
                        days_after as int + s as int == 128,
                ;
            }
        }
        let r0 = WeekdaySet(b & days_before);
        let r1 = WeekdaySet(b & days_after);
        assert forall|d: int| 0 <= d < 7 implies (r0.has(d) <==> (self.has(d) && d < weekday.num())) by {
            let du = d as u8;
            assert((((b & days_before) >> du) & 1u8 == 1u8) <==> ((b >> du) & 1u8 == 1u8 && du < n)) by (bit_vector)
                requires
                    n < 7,
                    du < 7,
                    s == (1u8 << n),
                    days_after as int + s as int == 128,
                    days_before == days_after ^ 0b0111_1111u8,
            ;
            assert(self.has(d) == ((b >> du) & 1u8 == 1u8));
            assert(r0.has(d) == (((b & days_before) >> du) & 1u8 == 1u8));
            assert(d < weekday.num() <==> du < n);
        }
        (r0, r1)
    }

    /// The first day of the set counting from Monday, or `None` when it is empty.
    pub fn first(self) -> (r: Option<Weekday>)
        requires
            self.wf(),
        ensures
            r is None <==> self.empty_spec(),
            r matches Some(w) ==> self.has(w.num()) && forall|d: int| 0 <= d < w.num() ==> !self.has(d),
    {
        let mut d: u8 = 0;
        while d < 7
            invariant
                d <= 7,
                forall|e: int| 0 <= e < d ==> !self.has(e),
            decreases 7 - d,
        {
            let w = Weekday::from_number_days_from_monday(d);
            if self.contains(w) {
                return Some(w);
            }
            d = d + 1;
        }
        None
    }

    /// Iterates over the days of the set, starting at `start` and wrapping from Sunday to Monday.
    pub fn iter(self, start: Weekday) -> (r: WeekdaySetIter)
        ensures
            r.days == self,
            r.start == start,
    {
        WeekdaySetIter { days: self, start }
    }
}

/// An iterator over the days of a [`WeekdaySet`], starting from a given day.
pub struct WeekdaySetIter {
    /// The days not yet produced.
    pub days: WeekdaySet,
    /// The day from which the iteration starts.
    pub start: Weekday,
}

impl WeekdaySetIter {
    /// Produces the first remaining day at or after `start`, wrapping to the
    /// earliest remaining day of the week, and removes it.
    pub fn next(&mut self) -> (r: Option<Weekday>)
        requires
            old(self).days.wf(),
        ensures
            final(self).days.wf(),
            final(self).start == old(self).start,
            r is None <==> old(self).days.empty_spec(),
            r matches Some(w) ==> {
                let s = old(self).start.num();
                &&& old(self).days.has(w.num())
                &&& (w.num() >= s ==> forall|e: int| s <= e < w.num() ==> !old(self).days.has(e))
                &&& (w.num() < s ==> forall|e: int|
                    (0 <= e < w.num() || s <= e < 7) ==> !old(self).days.has(e))
                &&& forall|d: int|
                    0 <= d < 7 ==> (final(self).days.has(d) <==> (old(self).days.has(d) && d != w.num()))
            },
            r is None ==> final(self).days == old(self).days,
    {
        if self.days.is_empty() {
            return None;
        }
        let (before, after) = self.days.split_at(self.start);
        let days = if after.is_empty() {
            before
        } else {
            after
        };
        let next = match days.first() {
            Some(w) => w,
            None => {
                proof {
                    let w = choose|d: int| 0 <= d < 7 && self.days.has(d);
                    assert(before.has(w) || after.has(w));
                }
                return None;
            },
        };
        self.days.remove(next);
        Some(next)
    }
}

/// Splitting a set of weekdays at a weekday partitions it: two sets that hold exactly the
/// days of `s` before that weekday, and exactly those from it on, share no day and
/// together make `s`.
pub proof fn law_split_partitions(s: WeekdaySet, w: Weekday, before: WeekdaySet, after: WeekdaySet)
    requires
        s.wf(),
        before.wf(),
        after.wf(),
        forall|d: int| 0 <= d < 7 ==> (before.has(d) <==> (s.has(d) && d < w.num())),
        forall|d: int| 0 <= d < 7 ==> (after.has(d) <==> (s.has(d) && d >= w.num())),
    ensures
        before.0 | after.0 == s.0,
        before.0 & after.0 == 0,
{
    let b = before.0;
    let a = after.0;
    let x = s.0;
    let n = w.num() as u8;
    assert(before.has(0) == bit_set(b, 0) && after.has(0) == bit_set(a, 0) && s.has(0) == bit_set(x, 0));
    assert(before.has(1) == bit_set(b, 1) && after.has(1) == bit_set(a, 1) && s.has(1) == bit_set(x, 1));
    assert(before.has(2) == bit_set(b, 2) && after.has(2) == bit_set(a, 2) && s.has(2) == bit_set(x, 2));
    assert(before.has(3) == bit_set(b, 3) && after.has(3) == bit_set(a, 3) && s.has(3) == bit_set(x, 3));
    assert(before.has(4) == bit_set(b, 4) && after.has(4) == bit_set(a, 4) && s.has(4) == bit_set(x, 4));
    assert(before.has(5) == bit_set(b, 5) && after.has(5) == bit_set(a, 5) && s.has(5) == bit_set(x, 5));
    assert(before.has(6) == bit_set(b, 6) && after.has(6) == bit_set(a, 6) && s.has(6) == bit_set(x, 6));
    assert(b | a == x && b & a == 0u8) by (bit_vector)
        requires
            b < 128u8,
            a < 128u8,
            x < 128u8,
            ((b >> 0u8) & 1u8 == 1u8) == ((x >> 0u8) & 1u8 == 1u8 && 0u8 < n),
            ((b >> 1u8) & 1u8 == 1u8) == ((x >> 1u8) & 1u8 == 1u8 && 1u8 < n),
            ((b >> 2u8) & 1u8 == 1u8) == ((x >> 2u8) & 1u8 == 1u8 && 2u8 < n),
            ((b >> 3u8) & 1u8 == 1u8) == ((x >> 3u8) & 1u8 == 1u8 && 3u8 < n),
            ((b >> 4u8) & 1u8 == 1u8) == ((x >> 4u8) & 1u8 == 1u8 && 4u8 < n),
            ((b >> 5u8) & 1u8 == 1u8) == ((x >> 5u8) & 1u8 == 1u8 && 5u8 < n),
            ((b >> 6u8) & 1u8 == 1u8) == ((x >> 6u8) & 1u8 == 1u8 && 6u8 < n),
            ((a >> 0u8) & 1u8 == 1u8) == ((x >> 0u8) & 1u8 == 1u8 && 0u8 >= n),
            ((a >> 1u8) & 1u8 == 1u8) == ((x >> 1u8) & 1u8 == 1u8 && 1u8 >= n),
            ((a >> 2u8) & 1u8 == 1u8) == ((x >> 2u8) & 1u8 == 1u8 && 2u8 >= n),
            ((a >> 3u8) & 1u8 == 1u8) == ((x >> 3u8) & 1u8 == 1u8 && 3u8 >= n),
            ((a >> 4u8) & 1u8 == 1u8) == ((x >> 4u8) & 1u8 == 1u8 && 4u8 >= n),
            ((a >> 5u8) & 1u8 == 1u8) == ((x >> 5u8) & 1u8 == 1u8 && 5u8 >= n),
            ((a >> 6u8) & 1u8 == 1u8) == ((x >> 6u8) & 1u8 == 1u8 && 6u8 >= n),
    ;
}

/// Whether `y` is a leap year in the proleptic Gregorian calendar.
pub open spec fn is_leap_year(y: int) -> bool {
    y % 4 == 0 && (y % 100 != 0 || y % 400 == 0)
}

/// The number of days of month `m` (1 to 12) of year `y`.
pub open spec fn days_in_month(y: int, m: int) -> int {
    if m == 2 {
        if is_leap_year(y) {
            29
        } else {
            28
        }
    } else if m == 4 || m == 6 || m == 9 || m == 11 {
        30
    } else {
        31
    }
}

/// The smallest representable year.
pub const MIN_YEAR: i32 = -9999;

/// The largest representable year.
pub const MAX_YEAR: i32 = 9999;

/// A calendar date.
#[derive(Clone, Copy, PartialEq, Eq, Structural, Debug)]
pub struct CalendarDate {
    /// The year (astronomical numbering).
    pub year: i32,
    /// The month, 1 to 12.
    pub month: u8,
    /// The day of the month, from 1.
    pub day: u8,
}

impl CalendarDate {
    /// Whether the date exists and lies in the representable range.
    pub open spec fn valid(self) -> bool {
        &&& MIN_YEAR <= self.year <= MAX_YEAR
        &&& 1 <= self.month <= 12
        &&& 1 <= self.day <= days_in_month(self.year as int, self.month as int)
    }

    /// Chronological order.
    pub open spec fn before(self, other: CalendarDate) -> bool {
        ||| self.year < other.year
        ||| (self.year == other.year && self.month < other.month)
        ||| (self.year == other.year && self.month == other.month && self.day < other.day)
    }
}

/// The number of days from 1 January 1970 to a date of the proleptic Gregorian calendar
/// (negative before it).
pub open spec fn days_from_civil(year: int, month: int, day: int) -> int {
    let y = if month <= 2 {
        year - 1
    } else {
        year
    };
    let era = y / 400;
    let yoe = y - era * 400;
    let mp = if month > 2 {
        month - 3
    } else {
        month + 9
    };
    let doy = (153 * mp + 2) / 5 + day - 1;
    let doe = yoe * 365 + yoe / 4 - yoe / 100 + doy;
    era * 146097 + doe - 719468
}

/// The number of days from Monday of the weekday on which a date falls (1 January 1970
/// was a Thursday).
#[verifier::opaque]
pub open spec fn weekday_number(year: int, month: int, day: int) -> int {
    (days_from_civil(year, month, day) + 3) % 7
}

/// Calls `time::Month::length`, the number of days of a month in a given year.
/// Trusted: the result is the proleptic Gregorian month length.
#[verifier::external_body]
fn month_length(year: i32, month: u8) -> (r: u8)
    requires
        1 <= month <= 12,
    ensures
        r == days_in_month(year as int, month as int),
{
    time::Month::try_from(month).unwrap().length(year)
}

/// Calls `time::Date::from_calendar_date`. Trusted: it succeeds exactly when the
/// year is in `MIN_YEAR..=MAX_YEAR` and the day exists in that month, and then the
/// date holds the given year, month and day.
#[verifier::external_body]
fn checked_date(year: i32, month: u8, day: u8) -> (r: Option<CalendarDate>)
    requires
        1 <= month <= 12,
    ensures
        r is Some <==> (MIN_YEAR <= year <= MAX_YEAR && 1 <= day <= days_in_month(year as int, month as int)),
        r matches Some(d) ==> d == (CalendarDate { year, month, day }),
{
    match time::Date::from_calendar_date(year, time::Month::try_from(month).unwrap(), day) {
        Ok(d) => Some(CalendarDate { year: d.year(), month: d.month() as u8, day: d.day() }),
        Err(_) => None,
    }
}

/// Calls `time::Date::weekday` on a valid date. Trusted: the result is the weekday
/// that `weekday_number` gives for that date in the proleptic Gregorian calendar.
#[verifier::external_body]
fn weekday_of(date: CalendarDate) -> (r: Weekday)
    requires
        date.valid(),
    ensures
        r.num() == weekday_number(date.year as int, date.month as int, date.day as int),
{
    let d = time::Date::from_calendar_date(
        date.year,
        time::Month::try_from(date.month).unwrap(),
        date.day,
    ).unwrap();
    match d.weekday() {
        time::Weekday::Monday => Weekday::Monday,
        time::Weekday::Tuesday => Weekday::Tuesday,
        time::Weekday::Wednesday => Weekday::Wednesday,
        time::Weekday::Thursday => Weekday::Thursday,
        time::Weekday::Friday => Weekday::Friday,
        time::Weekday::Saturday => Weekday::Saturday,
        time::Weekday::Sunday => Weekday::Sunday,
    }
}

/// The weekday of a valid date.
pub fn weekday(date: CalendarDate) -> (r: Weekday)
    requires
        date.valid(),
    ensures
        r.num() == weekday_number(date.year as int, date.month as int, date.day as int),
{
    weekday_of(date)
}

/// The number of days in month `month` of `year`.
pub fn month_days(year: i32, month: u8) -> (r: u8)
    requires
        1 <= month <= 12,
    ensures
        r == days_in_month(year as int, month as int),
{
    month_length(year, month)
}

/// The date with the given parts, when it exists and is in range.
pub fn from_calendar_date(year: i32, month: u8, day: u8) -> (r: Option<CalendarDate>)
    requires
        1 <= month <= 12,
    ensures
        r is Some <==> (CalendarDate { year, month, day }).valid(),
        r matches Some(d) ==> d == (CalendarDate { year, month, day }),
{
    checked_date(year, month, day)
}

/// How many days the first day of `date`'s month lies after the most recent `weekday`:
/// the number of leading cells from the previous month in a week starting on `weekday`.
pub fn days_since(date: CalendarDate, weekday: Weekday) -> (r: i64)
    requires
        date.valid(),
    ensures
        r == (weekday_number(date.year as int, date.month as int, 1) - weekday.num()) % 7,
        0 <= r < 7,
{
    let first = CalendarDate { year: date.year, month: date.month, day: 1 };
    let lhs = weekday_of(first).number_days_from_monday() as i64;
    let rhs = weekday.number_days_from_monday() as i64;
    if lhs < rhs {
        7 + lhs - rhs
    } else {
        lhs - rhs
    }
}

/// The month after `m`.
pub open spec fn month_after(m: int) -> int {
    if m == 12 {
        1
    } else {
        m + 1
    }
}

/// The month before `m`.
pub open spec fn month_before(m: int) -> int {
    if m == 1 {
        12
    } else {
        m - 1
    }
}

/// The same day one month later, clamped to the length of that month, if in range.
pub open spec fn next_month_spec(date: CalendarDate) -> Option<CalendarDate> {
    let m = month_after(date.month as int);
    let y = date.year + if m == 1 {
        1int
    } else {
        0int
    };
    let dim = days_in_month(date.year as int, m);
    let d = if date.day <= dim {
        date.day as int
    } else {
        dim
    };
    if MIN_YEAR <= y <= MAX_YEAR && 1 <= d {
        Some(CalendarDate { year: y as i32, month: m as u8, day: d as u8 })
    } else {
        None
    }
}

/// The same day one month earlier, clamped to the length of that month, if in range.
pub open spec fn previous_month_spec(date: CalendarDate) -> Option<CalendarDate> {
    let m = month_before(date.month as int);
    let y = date.year - if m == 12 {
        1int
    } else {
        0int
    };
    let dim = days_in_month(date.year as int, m);
    let d = if date.day <= dim {
        date.day as int
    } else {
        dim
    };
    if MIN_YEAR <= y <= MAX_YEAR && 1 <= d {
        Some(CalendarDate { year: y as i32, month: m as u8, day: d as u8 })
    } else {
        None
    }
}

/// The same day in the next month, clamped to that month's length; `None` past the range.
pub fn next_month(date: CalendarDate) -> (r: Option<CalendarDate>)
    requires
        date.valid(),
    ensures
        r == next_month_spec(date),
        r matches Some(d) ==> d.valid(),
{
    let m: u8 = if date.month == 12 {
        1
    } else {
        date.month + 1
    };
    let last_day = month_length(date.year, m);
    let new_day = if date.day < last_day {
        date.day
    } else {
        last_day
    };
    if date.year == MAX_YEAR && m == 1 {
        return None;
    }
    let y: i32 = if m == 1 {
        date.year + 1
    } else {
        date.year
    };
    proof {
        if m == 2 {
            assert(is_leap_year(y as int) == is_leap_year(date.year as int));
        }
    }
    checked_date(y, m, new_day)
}

/// The same day in the previous month, clamped to that month's length; `None` before the range.
pub fn previous_month(date: CalendarDate) -> (r: Option<CalendarDate>)
    requires
        date.valid(),
    ensures
        r == previous_month_spec(date),
        r matches Some(d) ==> d.valid(),
{
    let m: u8 = if date.month == 1 {
        12
    } else {
        date.month - 1
    };
    let last_day = month_length(date.year, m);
    let new_day = if date.day < last_day {
        date.day
    } else {
        last_day
    };
    if date.year == MIN_YEAR && m == 12 {
        return None;
    }
    let y: i32 = if m == 12 {
        date.year - 1
    } else {
        date.year
    };
    proof {
        if m == 2 {
            assert(is_leap_year(y as int) == is_leap_year(date.year as int));
        }
    }
    checked_date(y, m, new_day)
}

/// The two-letter abbreviation of a weekday.
pub fn weekday_abbreviation(weekday: Weekday) -> (r: &'static str)
    ensures
        r@ == (match weekday {
            Weekday::Monday => "Mo"@,
            Weekday::Tuesday => "Tu"@,
            Weekday::Wednesday => "We"@,
            Weekday::Thursday => "Th"@,
            Weekday::Friday => "Fr"@,
            Weekday::Saturday => "Sa"@,
            Weekday::Sunday => "Su"@,
        }),
{
    match weekday {
        Weekday::Monday => "Mo",
        Weekday::Tuesday => "Tu",
        Weekday::Wednesday => "We",
        Weekday::Thursday => "Th",
        Weekday::Friday => "Fr",
        Weekday::Saturday => "Sa",
        Weekday::Sunday => "Su",
    }
}


/// The year and month before `(y, m)`.
pub open spec fn prev_year_month(y: int, m: int) -> (int, int) {
    if m == 1 {
        (y - 1, 12)
    } else {
        (y, m - 1)
    }
}

/// The year and month after `(y, m)`.
pub open spec fn next_year_month(y: int, m: int) -> (int, int) {
    if m == 12 {
        (y + 1, 1)
    } else {
        (y, m + 1)
    }
}

/// The date from plain parts.
pub open spec fn mk_date(y: int, m: int, d: int) -> CalendarDate {
    CalendarDate { year: y as i32, month: m as u8, day: d as u8 }
}

/// The last `n` days of the month before the view month (none before the range).
pub open spec fn grid_leading(view: CalendarDate, n: int) -> Seq<CalendarDate> {
    if view.year == MIN_YEAR && view.month == 1 {
        Seq::empty()
    } else {
        let (py, pm) = prev_year_month(view.year as int, view.month as int);
        let dim = days_in_month(py, pm);
        Seq::new(n as nat, |i: int| mk_date(py, pm, dim - n + 1 + i))
    }
}

/// Every day of the view month.
pub open spec fn grid_month(view: CalendarDate) -> Seq<CalendarDate> {
    Seq::new(
        days_in_month(view.year as int, view.month as int) as nat,
        |i: int| mk_date(view.year as int, view.month as int, i + 1),
    )
}

/// The first days of the next month that complete the last week (none past the range).
pub open spec fn grid_trailing(view: CalendarDate, filled: nat) -> Seq<CalendarDate> {
    let rem = filled % 7;
    if rem == 0 || (view.year == MAX_YEAR && view.month == 12) {
        Seq::empty()
    } else {
        let (ny, nm) = next_year_month(view.year as int, view.month as int);
        Seq::new((7 - rem) as nat, |i: int| mk_date(ny, nm, i + 1))
    }
}

/// The days shown in the month grid of `view`, week by week, when weeks start
/// `n` days before the first of the month.
pub open spec fn grid_spec(view: CalendarDate, n: int) -> Seq<CalendarDate> {
    let lead = grid_leading(view, n);
    let month = grid_month(view);
    lead + month + grid_trailing(view, lead.len() + month.len())
}

/// The days displayed by a month grid whose weeks start on `first_day_of_week`: the
/// trailing days of the previous month, every day of `view_date`'s month, then the first
/// days of the next month up to the end of the last week. Consecutive runs of seven
/// form the weeks.
pub fn calendar_grid(view_date: CalendarDate, first_day_of_week: Weekday) -> (r: Vec<CalendarDate>)
    requires
        view_date.valid(),
    ensures
        r@ == grid_spec(
            view_date,
            (weekday_number(view_date.year as int, view_date.month as int, 1) - first_day_of_week.num())
                % 7,
        ),
        forall|i: int| 0 <= i < r@.len() ==> r@[i].valid(),
{
    let n = days_since(view_date, first_day_of_week);
    let ghost ni = n as int;
    let mut grid: Vec<CalendarDate> = Vec::new();
    let y = view_date.year;
    let m = view_date.month;
    if !(y == MIN_YEAR && m == 1) {
        let py: i32 = if m == 1 {
            y - 1
        } else {
            y
        };
        let pm: u8 = if m == 1 {
            12
        } else {
            m - 1
        };
        let dim = month_length(py, pm);
        let mut k: u8 = 0;
        while (k as i64) < n
            invariant
                0 <= n < 7,
                k <= n,
                28 <= dim <= 31,
                dim == days_in_month(py as int, pm as int),
                (py as int, pm as int) == prev_year_month(y as int, m as int),
                MIN_YEAR <= py <= MAX_YEAR,
                1 <= pm <= 12,
                grid@ =~= grid_leading(view_date, n as int).take(k as int),
                view_date.year == y && view_date.month == m,
                !(y == MIN_YEAR && m == 1),
                forall|i: int| 0 <= i < grid@.len() ==> grid@[i].valid(),
            decreases n - k,
        {
            let day: u8 = dim - (n as u8) + 1 + k;
            grid.push(CalendarDate { year: py, month: pm, day });
            k = k + 1;
        }
    }
    let ghost lead_len = grid@.len();
    let dim = month_length(y, m);
    let mut d: u8 = 1;
    while d <= dim
        invariant
            1 <= d <= dim + 1,
            28 <= dim <= 31,
            dim == days_in_month(y as int, m as int),
            view_date.year == y && view_date.month == m,
            view_date.valid(),
            grid@.len() == lead_len + d - 1,
            grid@ =~= grid_leading(view_date, ni) + grid_month(view_date).take(d - 1),
            lead_len == grid_leading(view_date, ni).len(),
            forall|i: int| 0 <= i < grid@.len() ==> grid@[i].valid(),
        decreases dim + 1 - d,
    {
        grid.push(CalendarDate { year: y, month: m, day: d });
        d = d + 1;
    }
    let ghost filled: nat = grid@.len();
    assert(grid_month(view_date).take(dim as int) =~= grid_month(view_date));
    let rem = grid.len() % 7;
    if rem > 0 && !(y == MAX_YEAR && m == 12) {
        let ny: i32 = if m == 12 {
            y + 1
        } else {
            y
        };
        let nm: u8 = if m == 12 {
            1
        } else {
            m + 1
        };
        let count = 7 - rem;
        let ghost base = grid@;
        let mut k: usize = 0;
        while k < count
            invariant
                k <= count,
                count == 7 - rem,
                0 < rem < 7,
                rem == filled % 7,
                (ny as int, nm as int) == next_year_month(y as int, m as int),
                MIN_YEAR <= ny <= MAX_YEAR,
                1 <= nm <= 12,
                28 <= days_in_month(ny as int, nm as int),
                view_date.year == y && view_date.month == m,
                !(y == MAX_YEAR && m == 12),
                grid@ =~= base + grid_trailing(view_date, filled).take(k as int),
                forall|i: int| 0 <= i < grid@.len() ==> grid@[i].valid(),
            decreases count - k,
        {
            grid.push(CalendarDate { year: ny, month: nm, day: (k + 1) as u8 });
            k = k + 1;
        }
        assert(grid_trailing(view_date, filled).take(count as int) =~= grid_trailing(view_date, filled));
    } else {
        assert(grid_trailing(view_date, filled) =~= Seq::<CalendarDate>::empty());
        assert(grid@ =~= grid@ + grid_trailing(view_date, filled));
    }
    grid
}

/// A date never has fewer than 28 days in its month, nor more than 31.
pub proof fn law_month_length_bounds(y: int, m: int)
    ensures
        28 <= days_in_month(y, m) <= 31,
{
}

/// Moving a month forward and then back returns the same date, whenever the
/// day exists in every month (day 28 or earlier) and both moves stay in range.
pub proof fn law_month_round_trip(date: CalendarDate)
    requires
        date.valid(),
        date.day <= 28,
    ensures
        next_month_spec(date) matches Some(n) ==> previous_month_spec(n) == Some(date),
        previous_month_spec(date) matches Some(p) ==> next_month_spec(p) == Some(date),
{
}

/// When the grid reaches the next month (always, except for the last month of the
/// range), it holds whole weeks; it always holds every day of the view month in order.
pub proof fn law_grid_whole_weeks(view: CalendarDate, n: int)
    requires
        view.valid(),
        0 <= n < 7,
    ensures
        !(view.year == MAX_YEAR && view.month == 12) ==> grid_spec(view, n).len() % 7 == 0,
        grid_spec(view, n).subrange(
            grid_leading(view, n).len() as int,
            grid_leading(view, n).len() + days_in_month(view.year as int, view.month as int),
        ) == grid_month(view),
{
    let lead = grid_leading(view, n);
    let month = grid_month(view);
    let filled = lead.len() + month.len();
    assert(grid_spec(view, n) == lead + month + grid_trailing(view, filled));
    assert(grid_spec(view, n).subrange(lead.len() as int, (lead.len() + month.len()) as int) =~= month);
}


/// Whether `a` comes strictly before `b`.
pub fn date_before(a: CalendarDate, b: CalendarDate) -> (r: bool)
    ensures
        r == a.before(b),
{
    a.year < b.year || (a.year == b.year && (a.month < b.month || (a.month == b.month && a.day
        < b.day)))
}

/// `date` limited to the range from `min_date` to `max_date`.
pub fn clamp_date(date: CalendarDate, min_date: CalendarDate, max_date: CalendarDate) -> (r:
    CalendarDate)
    requires
        !max_date.before(min_date),
    ensures
        r == (if date.before(min_date) {
            min_date
        } else if max_date.before(date) {
            max_date
        } else {
            date
        }),
{
    if date_before(date, min_date) {
        min_date
    } else if date_before(max_date, date) {
        max_date
    } else {
        date
    }
}

/// The number of steps from month `first` forward to month `last`.
pub open spec fn month_steps(first: int, last: int) -> int {
    if last >= first {
        last - first
    } else {
        last + 12 - first
    }
}

/// The months from `first` to `last`, stepping forward and wrapping from December to January.
pub open spec fn month_cycle(first: int, last: int) -> Seq<u8> {
    Seq::new(
        (month_steps(first, last) + 1) as nat,
        |i: int| if first + i <= 12 {
            (first + i) as u8
        } else {
            (first + i - 12) as u8
        },
    )
}

/// The month numbers offered for `view_date`'s year: all twelve, except that in the
/// year of `min_date` the list starts at its month and in the year of `max_date` it
/// ends at its month.
pub fn calendar_month_options(view_date: CalendarDate, min_date: CalendarDate, max_date: CalendarDate) -> (r: Vec<u8>)
    requires
        1 <= min_date.month <= 12,
        1 <= max_date.month <= 12,
    ensures
        ({
            let first = if mk_date(view_date.year as int, 1, view_date.day as int).before(min_date) {
                min_date.month as int
            } else {
                1
            };
            let last = if max_date.before(mk_date(view_date.year as int, 12, view_date.day as int)) {
                max_date.month as int
            } else {
                12
            };
            r@ == month_cycle(first, last)
        }),
{
    let mut min_month: u8 = 1;
    if date_before(CalendarDate { year: view_date.year, month: 1, day: view_date.day }, min_date) {
        min_month = min_date.month;
    }
    let mut max_month: u8 = 12;
    if date_before(max_date, CalendarDate { year: view_date.year, month: 12, day: view_date.day }) {
        max_month = max_date.month;
    }
    let steps: u8 = if max_month >= min_month {
        max_month - min_month
    } else {
        max_month + 12 - min_month
    };
    let ghost target = month_cycle(min_month as int, max_month as int);
    let mut months: Vec<u8> = Vec::new();
    let mut month: u8 = min_month;
    let mut i: u8 = 0;
    while i <= steps
        invariant
            1 <= min_month <= 12,
            1 <= max_month <= 12,
            steps == month_steps(min_month as int, max_month as int),
            i <= steps + 1,
            i <= steps ==> month == (if min_month + i <= 12 {
                min_month + i
            } else {
                min_month + i - 12
            }),
            months@ =~= target.take(i as int),
            target == month_cycle(min_month as int, max_month as int),
        decreases steps + 1 - i,
    {
        months.push(month);
        month = if month == 12 {
            1
        } else {
            month + 1
        };
        i = i + 1;
    }
    proof {
        assert(target.take(i as int) =~= target);
    }
    months
}

/// The first and last year offered for `view_date`'s month: the years of `min_date` and
/// `max_date`, skipping either when that month falls outside the range in that year.
pub fn calendar_year_range(view_date: CalendarDate, min_date: CalendarDate, max_date: CalendarDate) -> (r: (i32, i32))
    requires
        min_date.valid(),
        max_date.valid(),
        1 <= view_date.month <= 12,
        min_date.day <= days_in_month(min_date.year as int, view_date.month as int),
        max_date.day <= days_in_month(max_date.year as int, view_date.month as int),
    ensures
        r.0 == min_date.year + (if view_date.month < min_date.month {
            1int
        } else {
            0int
        }),
        r.1 == max_date.year - (if view_date.month > max_date.month {
            1int
        } else {
            0int
        }),
{
    let mut min_year = min_date.year;
    if date_before(
        CalendarDate { year: min_date.year, month: view_date.month, day: min_date.day },
        min_date,
    ) {
        min_year = min_year + 1;
    }
    let mut max_year = max_date.year;
    if date_before(
        max_date,
        CalendarDate { year: max_date.year, month: view_date.month, day: max_date.day },
    ) {
        max_year = max_year - 1;
    }
    (min_year, max_year)
}

} // verus!
