//! Date ranges and the value changes of the date pickers.
use vstd::prelude::*;
use crate::calendar::{CalendarDate, date_before};

verus! {

/// A range of dates between two ends, given in either order.
#[derive(Clone, Copy, PartialEq, Eq, Structural, Debug)]
pub struct DateRange {
    /// The first end given.
    pub start: CalendarDate,
    /// The second end given.
    pub end: CalendarDate,
}

/// The earlier of two dates.
pub open spec fn earlier(a: CalendarDate, b: CalendarDate) -> CalendarDate {
    if b.before(a) {
        b
    } else {
        a
    }
}

/// The later of two dates.
pub open spec fn later(a: CalendarDate, b: CalendarDate) -> CalendarDate {
    if b.before(a) {
        a
    } else {
        b
    }
}

impl DateRange {
    /// Whether `date` lies between the two ends, both included.
    pub open spec fn holds(self, date: CalendarDate) -> bool {
        !date.before(earlier(self.start, self.end)) && !later(self.start, self.end).before(date)
    }

    /// The range with the given ends.
    pub fn new(start: CalendarDate, end: CalendarDate) -> (r: DateRange)
        ensures
            r == (DateRange { start, end }),
    {
        DateRange { start, end }
    }

    /// The earlier and the later end.
    pub fn to_min_max(&self) -> (r: (CalendarDate, CalendarDate))
        ensures
            r == (earlier(self.start, self.end), later(self.start, self.end)),
    {
        if date_before(self.end, self.start) {
            (self.end, self.start)
        } else {
            (self.start, self.end)
        }
    }

    /// Whether `date` lies in the range.
    pub fn contains(&self, date: CalendarDate) -> (r: bool)
        ensures
            r == self.holds(date),
    {
        let (min, max) = self.to_min_max();
        !date_before(date, min) && !date_before(max, date)
    }
}

/// Whether some range of `ranges` contains `date`.
pub open spec fn in_some_range(ranges: Seq<DateRange>, date: CalendarDate) -> bool {
    exists|k: int| 0 <= k < ranges.len() && #[trigger] ranges[k].holds(date)
}

/// Whether `date` lies in one of the disabled `ranges`.
pub fn in_any_range(ranges: &[DateRange], date: CalendarDate) -> (r: bool)
    ensures
        r == in_some_range(ranges@, date),
{
    let mut k: usize = 0;
    while k < ranges.len()
        invariant
            0 <= k <= ranges@.len(),
            forall|j: int| 0 <= j < k ==> !(#[trigger] ranges@[j]).holds(date),
        decreases ranges@.len() - k,
    {
        if ranges[k].contains(date) {
            return true;
        }
        k = k + 1;
    }
    false
}

/// The value state of a date picker.
pub struct DatePickerContext {
    /// The selected date.
    pub selected_date: Option<CalendarDate>,
}

impl DatePickerContext {
    /// `date` was chosen: returns whether the change callback is due, which is when it
    /// differs from the selected date.
    pub fn set_date(&self, date: Option<CalendarDate>) -> (r: bool)
        ensures
            r == (self.selected_date != date),
    {
        self.selected_date != date
    }
}

/// The value state of a date range picker.
pub struct DateRangePickerContext {
    /// The selected range.
    pub date_range: Option<DateRange>,
}

impl DateRangePickerContext {
    /// `range` was chosen: when it differs from the selected range it becomes the selected
    /// range and the change callback is due. Returns whether it is.
    pub fn set_range(&mut self, range: Option<DateRange>) -> (r: bool)
        ensures
            r == (old(self).date_range != range),
            final(self).date_range == range,
    {
        if self.date_range != range {
            self.date_range = range;
            true
        } else {
            false
        }
    }
}

/// A range contains both of its ends.
pub proof fn law_range_contains_ends(range: DateRange)
    ensures
        range.holds(range.start),
        range.holds(range.end),
{
}

/// The order in which the ends are given does not change which dates a range contains.
pub proof fn law_range_order_free(a: CalendarDate, b: CalendarDate, date: CalendarDate)
    ensures
        (DateRange { start: a, end: b }).holds(date) == (DateRange { start: b, end: a }).holds(date),
{
}

} // verus!
