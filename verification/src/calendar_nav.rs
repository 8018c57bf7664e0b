//! Keyboard navigation in a calendar grid and the decisions of a day cell.
use vstd::prelude::*;
use crate::calendar::{
    CalendarDate, MAX_YEAR, MIN_YEAR, Weekday, clamp_date, date_before, days_in_month, grid_leading,
    grid_month, grid_spec, grid_trailing, next_month, next_month_spec, previous_month, previous_month_spec, weekday, weekday_number,
};
use crate::text::{decimal, push_decimal, push_str};

verus! {

/// The day after `d`, if it is in range.
pub open spec fn next_day_spec(d: CalendarDate) -> Option<CalendarDate> {
    if (d.day as int) < days_in_month(d.year as int, d.month as int) {
        Some(CalendarDate { day: (d.day + 1) as u8, ..d })
    } else if d.month < 12 {
        Some(CalendarDate { year: d.year, month: (d.month + 1) as u8, day: 1 })
    } else if d.year < MAX_YEAR {
        Some(CalendarDate { year: (d.year + 1) as i32, month: 1, day: 1 })
    } else {
        None
    }
}

/// The day before `d`, if it is in range.
pub open spec fn previous_day_spec(d: CalendarDate) -> Option<CalendarDate> {
    if d.day > 1 {
        Some(CalendarDate { day: (d.day - 1) as u8, ..d })
    } else if d.month > 1 {
        Some(
            CalendarDate {
                year: d.year,
                month: (d.month - 1) as u8,
                day: days_in_month(d.year as int, d.month - 1) as u8,
            },
        )
    } else if d.year > MIN_YEAR {
        Some(CalendarDate { year: (d.year - 1) as i32, month: 12, day: 31 })
    } else {
        None
    }
}

/// `d` moved `n` days back, stopping at the first representable day.
pub open spec fn days_back(d: CalendarDate, n: nat) -> CalendarDate
    decreases n,
{
    if n == 0 {
        d
    } else {
        match previous_day_spec(d) {
            Some(p) => days_back(p, (n - 1) as nat),
            None => d,
        }
    }
}

/// `d` moved `n` days forward, stopping at the last representable day.
pub open spec fn days_forward(d: CalendarDate, n: nat) -> CalendarDate
    decreases n,
{
    if n == 0 {
        d
    } else {
        match next_day_spec(d) {
            Some(p) => days_forward(p, (n - 1) as nat),
            None => d,
        }
    }
}

/// Calls `time::Date::next_day`. Trusted: it gives the following day, and none after the
/// last representable day (31 December of `MAX_YEAR`).
#[verifier::external_body]
fn next_day(d: CalendarDate) -> (r: Option<CalendarDate>)
    requires
        d.valid(),
    ensures
        r == next_day_spec(d),
{
    let t = time::Date::from_calendar_date(d.year, time::Month::try_from(d.month).unwrap(), d.day).unwrap();
    match t.next_day() {
        Some(n) => Some(CalendarDate { year: n.year(), month: n.month() as u8, day: n.day() }),
        None => None,
    }
}

/// Calls `time::Date::previous_day`. Trusted: it gives the preceding day, and none before
/// the first representable day (1 January of `MIN_YEAR`).
#[verifier::external_body]
fn previous_day(d: CalendarDate) -> (r: Option<CalendarDate>)
    requires
        d.valid(),
    ensures
        r == previous_day_spec(d),
{
    let t = time::Date::from_calendar_date(d.year, time::Month::try_from(d.month).unwrap(), d.day).unwrap();
    match t.previous_day() {
        Some(n) => Some(CalendarDate { year: n.year(), month: n.month() as u8, day: n.day() }),
        None => None,
    }
}

/// Calls `time::Date::saturating_sub` with a duration of `n` days. Trusted: the result is
/// the date `n` days earlier, or the first representable day when that is out of range.
#[verifier::external_body]
fn days_before(d: CalendarDate, n: u32) -> (r: CalendarDate)
    requires
        d.valid(),
    ensures
        r == days_back(d, n as nat),
{
    let t = time::Date::from_calendar_date(d.year, time::Month::try_from(d.month).unwrap(), d.day).unwrap();
    let e = t.saturating_sub(time::Duration::days(n as i64));
    CalendarDate { year: e.year(), month: e.month() as u8, day: e.day() }
}

/// Calls `time::Date::saturating_add` with a duration of `n` days. Trusted: the result is
/// the date `n` days later, or the last representable day when that is out of range.
#[verifier::external_body]
fn days_after(d: CalendarDate, n: u32) -> (r: CalendarDate)
    requires
        d.valid(),
    ensures
        r == days_forward(d, n as nat),
{
    let t = time::Date::from_calendar_date(d.year, time::Month::try_from(d.month).unwrap(), d.day).unwrap();
    let e = t.saturating_add(time::Duration::days(n as i64));
    CalendarDate { year: e.year(), month: e.month() as u8, day: e.day() }
}

/// A navigation key of the calendar grid.
#[derive(Clone, Copy, PartialEq, Eq, Structural, Debug)]
pub enum CalendarKey {
    /// Left arrow: the previous day.
    ArrowLeft,
    /// Right arrow: the next day.
    ArrowRight,
    /// Up arrow: the previous week, or with shift the previous month.
    ArrowUp,
    /// Down arrow: the next week, or with shift the next month.
    ArrowDown,
    /// Any other key.
    Other,
}

/// What a key press in the calendar grid does.
#[derive(Clone, Copy, PartialEq, Eq, Structural, Debug)]
pub struct CalendarNav {
    /// The focused date afterwards.
    pub focused: Option<CalendarDate>,
    /// The date the view moves to, when it changes.
    pub view_change: Option<CalendarDate>,
    /// Whether the key's default action is prevented.
    pub prevent_default: bool,
}

/// The date a key moves focus to, as the grid sees it: `None` for a key that moves
/// nothing, `Some(None)` for a move past the representable range.
pub open spec fn key_target(focused: CalendarDate, key: CalendarKey, shift: bool) -> Option<Option<CalendarDate>> {
    match key {
        CalendarKey::ArrowLeft => Some(previous_day_spec(focused)),
        CalendarKey::ArrowRight => Some(next_day_spec(focused)),
        CalendarKey::ArrowUp => if shift {
            match previous_month_spec(focused) {
                Some(d) => Some(Some(d)),
                None => None,
            }
        } else {
            Some(Some(days_back(focused, 7)))
        },
        CalendarKey::ArrowDown => if shift {
            match next_month_spec(focused) {
                Some(d) => Some(Some(d)),
                None => None,
            }
        } else {
            Some(Some(days_forward(focused, 7)))
        },
        CalendarKey::Other => None,
    }
}

/// The outcome of moving focus to `target`: the view moves to the first of the target's
/// month when the month differs from the view's; focus follows when the target is within
/// `[min_date, max_date]`, and is lost when there is no target date.
pub open spec fn move_outcome(
    focused: CalendarDate,
    target: Option<CalendarDate>,
    view_date: CalendarDate,
    min_date: CalendarDate,
    max_date: CalendarDate,
) -> CalendarNav {
    CalendarNav {
        view_change: match target {
            Some(d) if d.month != view_date.month => Some(CalendarDate { day: 1, ..d }),
            _ => None,
        },
        focused: match target {
            Some(d) => if !d.before(min_date) && !max_date.before(d) {
                Some(d)
            } else {
                Some(focused)
            },
            None => None,
        },
        prevent_default: true,
    }
}

/// What a key press in the calendar grid does.
pub open spec fn calendar_keydown_spec(
    focused: Option<CalendarDate>,
    view_date: CalendarDate,
    min_date: CalendarDate,
    max_date: CalendarDate,
    key: CalendarKey,
    shift: bool,
) -> CalendarNav {
    match focused {
        None => CalendarNav { focused: None, view_change: None, prevent_default: false },
        Some(f) => match key_target(f, key, shift) {
            Some(target) => move_outcome(f, target, view_date, min_date, max_date),
            None => CalendarNav {
                focused: Some(f),
                view_change: None,
                prevent_default: key != CalendarKey::Other,
            },
        },
    }
}

fn move_focus(
    focused: CalendarDate,
    target: Option<CalendarDate>,
    view_date: CalendarDate,
    min_date: CalendarDate,
    max_date: CalendarDate,
) -> (r: CalendarNav)
    ensures
        r == move_outcome(focused, target, view_date, min_date, max_date),
{
    match target {
        Some(d) => {
            let view_change = if d.month != view_date.month {
                Some(CalendarDate { day: 1, ..d })
            } else {
                None
            };
            let in_range = !date_before(d, min_date) && !date_before(max_date, d);
            CalendarNav {
                focused: if in_range {
                    Some(d)
                } else {
                    Some(focused)
                },
                view_change,
                prevent_default: true,
            }
        },
        None => CalendarNav { focused: None, view_change: None, prevent_default: true },
    }
}

/// Applies a key press to the calendar grid whose focused date is `focused`.
pub fn calendar_keydown(
    focused: Option<CalendarDate>,
    view_date: CalendarDate,
    min_date: CalendarDate,
    max_date: CalendarDate,
    key: CalendarKey,
    shift: bool,
) -> (r: CalendarNav)
    requires
        focused matches Some(f) ==> f.valid(),
    ensures
        r == calendar_keydown_spec(focused, view_date, min_date, max_date, key, shift),
{
    let f = match focused {
        Some(f) => f,
        None => return CalendarNav { focused: None, view_change: None, prevent_default: false },
    };
    match key {
        CalendarKey::ArrowLeft => {
            let t = previous_day(f);
            move_focus(f, t, view_date, min_date, max_date)
        },
        CalendarKey::ArrowRight => {
            let t = next_day(f);
            move_focus(f, t, view_date, min_date, max_date)
        },
        CalendarKey::ArrowUp => {
            if shift {
                match previous_month(f) {
                    Some(d) => move_focus(f, Some(d), view_date, min_date, max_date),
                    None => CalendarNav { focused: Some(f), view_change: None, prevent_default: true },
                }
            } else {
                let t = days_before(f, 7);
                move_focus(f, Some(t), view_date, min_date, max_date)
            }
        },
        CalendarKey::ArrowDown => {
            if shift {
                match next_month(f) {
                    Some(d) => move_focus(f, Some(d), view_date, min_date, max_date),
                    None => CalendarNav { focused: Some(f), view_change: None, prevent_default: true },
                }
            } else {
                let t = days_after(f, 7);
                move_focus(f, Some(t), view_date, min_date, max_date)
            }
        },
        CalendarKey::Other => CalendarNav { focused: Some(f), view_change: None, prevent_default: false },
    }
}

/// Whether `d` lies within `[min_date, max_date]`.
pub open spec fn within(d: CalendarDate, min_date: CalendarDate, max_date: CalendarDate) -> bool {
    !d.before(min_date) && !max_date.before(d)
}

/// Keyboard moves in the grid never take focus out of the allowed range: a focused date
/// within `[min_date, max_date]` stays within it after any key.
pub proof fn law_keyboard_focus_stays_in_range(
    focused: CalendarDate,
    view_date: CalendarDate,
    min_date: CalendarDate,
    max_date: CalendarDate,
    key: CalendarKey,
    shift: bool,
)
    requires
        within(focused, min_date, max_date),
    ensures
        calendar_keydown_spec(Some(focused), view_date, min_date, max_date, key, shift).focused matches Some(g)
            ==> within(g, min_date, max_date),
{
}

/// Where a day cell's date lies relative to the month on view.
#[derive(Clone, Copy, PartialEq, Eq, Structural, Debug)]
pub enum RelativeMonth {
    /// Before the view's month, or before the allowed range.
    Last,
    /// In the view's month.
    Current,
    /// After the view's month, or after the allowed range.
    Next,
}

/// Where `date` lies: before `min_date` is `Last`, after `max_date` is `Next`, else by
/// comparing its month number with the view's.
pub fn relative_month(date: CalendarDate, view_date: CalendarDate, min_date: CalendarDate, max_date: CalendarDate) -> (r: RelativeMonth)
    ensures
        r == if date.before(min_date) {
            RelativeMonth::Last
        } else if max_date.before(date) {
            RelativeMonth::Next
        } else if date.month < view_date.month {
            RelativeMonth::Last
        } else if date.month == view_date.month {
            RelativeMonth::Current
        } else {
            RelativeMonth::Next
        },
{
    if date_before(date, min_date) {
        RelativeMonth::Last
    } else if date_before(max_date, date) {
        RelativeMonth::Next
    } else if date.month < view_date.month {
        RelativeMonth::Last
    } else if date.month == view_date.month {
        RelativeMonth::Current
    } else {
        RelativeMonth::Next
    }
}

/// The date whose cell takes keyboard focus: the focused date, else the selected date,
/// when in the view's month; else the view date.
pub fn focusable_date(focused: Option<CalendarDate>, selected: Option<CalendarDate>, view_date: CalendarDate) -> (r: CalendarDate)
    ensures
        r == match focused {
            Some(f) if f.month == view_date.month => f,
            _ => match selected {
                Some(s) if s.month == view_date.month => s,
                _ => view_date,
            },
        },
{
    match focused {
        Some(f) if f.month == view_date.month => f,
        _ => match selected {
            Some(s) if s.month == view_date.month => s,
            _ => view_date,
        },
    }
}

/// A click on the cell of `cell_date`, showing day `day` of the view's month: nothing
/// when the calendar is disabled; else the date selected afterwards (none when the cell
/// was the selected date) and the date focused afterwards.
pub fn day_select(
    disabled: bool,
    view_date: CalendarDate,
    day: u8,
    cell_date: CalendarDate,
    selected: Option<CalendarDate>,
) -> (r: Option<(Option<CalendarDate>, CalendarDate)>)
    requires
        1 <= view_date.month <= 12,
        1 <= day <= days_in_month(view_date.year as int, view_date.month as int),
    ensures
        r == if disabled {
            None
        } else {
            let date = CalendarDate { day, ..view_date };
            Some((if selected == Some(cell_date) {
                None
            } else {
                Some(date)
            }, date))
        },
{
    if disabled {
        return None;
    }
    let date = CalendarDate { day, ..view_date };
    let was_selected = match selected {
        Some(s) => s == cell_date,
        None => false,
    };
    Some((if was_selected {
        None
    } else {
        Some(date)
    }, date))
}

/// Going one day forward and then one day back returns to the same date, and so does going
/// back and then forward.
pub proof fn law_next_previous_day(d: CalendarDate)
    requires
        d.valid(),
    ensures
        next_day_spec(d) matches Some(n) ==> previous_day_spec(n) == Some(d),
        previous_day_spec(d) matches Some(p) ==> next_day_spec(p) == Some(d),
{
    match next_day_spec(d) {
        Some(n) => {
            if (d.day as int) < days_in_month(d.year as int, d.month as int) {
                assert(previous_day_spec(n) == Some(d));
            } else if d.month < 12 {
                assert(n.day == 1 && n.month == d.month + 1);
                assert(previous_day_spec(n) == Some(d));
            } else {
                assert(previous_day_spec(n) == Some(d));
            }
        },
        None => {},
    }
    match previous_day_spec(d) {
        Some(p) => {
            if d.day > 1 {
                assert(next_day_spec(p) == Some(d));
            } else if d.month > 1 {
                assert(next_day_spec(p) == Some(d));
            } else {
                assert(next_day_spec(p) == Some(d));
            }
        },
        None => {},
    }
}

/// The month grid is a run of consecutive days: each day after the first is the day
/// following the one before it, so the leading days of the previous month lead up to the
/// first of the month and the trailing days count up from the first of the next month.
pub proof fn law_grid_consecutive(view: CalendarDate, n: int)
    requires
        view.valid(),
        0 <= n < 7,
    ensures
        forall|i: int|
            0 <= i < grid_spec(view, n).len() - 1 ==> next_day_spec(#[trigger] grid_spec(view, n)[i]) == Some(
                grid_spec(view, n)[i + 1],
            ),
{
    let g = grid_spec(view, n);
    let lead = grid_leading(view, n);
    let month = grid_month(view);
    let trail = grid_trailing(view, lead.len() + month.len());
    let y = view.year as int;
    let m = view.month as int;
    let dim = days_in_month(y, m);
    crate::calendar::law_month_length_bounds(y, m);
    crate::calendar::law_month_length_bounds(y - 1, 12);
    crate::calendar::law_month_length_bounds(y, m - 1);
    crate::calendar::law_month_length_bounds(y + 1, 1);
    crate::calendar::law_month_length_bounds(y, m + 1);
    assert(g =~= lead + month + trail);
    let a = lead.len() as int;
    let b = a + dim;
    assert forall|i: int| 0 <= i < g.len() - 1 implies next_day_spec(#[trigger] g[i]) == Some(g[i + 1]) by {
        if i < a - 1 {
            assert(g[i] == lead[i] && g[i + 1] == lead[i + 1]);
        } else if i == a - 1 {
            assert(g[i] == lead[i] && g[i + 1] == month[0]);
        } else if i < b - 1 {
            assert(g[i] == month[i - a] && g[i + 1] == month[i - a + 1]);
        } else if i == b - 1 {
            assert(g[i] == month[i - a] && g[i + 1] == trail[0]);
        } else {
            assert(g[i] == trail[i - b] && g[i + 1] == trail[i - b + 1]);
        }
    }
}

/// Whether each of the `n` days after `d` is representable.
pub open spec fn forward_exact(d: CalendarDate, n: nat) -> bool
    decreases n,
{
    n == 0 || (next_day_spec(d) matches Some(x) && forward_exact(x, (n - 1) as nat))
}

/// Whether each of the `n` days before `d` is representable.
pub open spec fn back_exact(d: CalendarDate, n: nat) -> bool
    decreases n,
{
    n == 0 || (previous_day_spec(d) matches Some(x) && back_exact(x, (n - 1) as nat))
}

proof fn lemma_step_valid(d: CalendarDate)
    requires
        d.valid(),
    ensures
        next_day_spec(d) matches Some(n) ==> n.valid(),
        previous_day_spec(d) matches Some(p) ==> p.valid(),
{
    crate::calendar::law_month_length_bounds(d.year as int, d.month as int);
    crate::calendar::law_month_length_bounds(d.year as int, d.month - 1);
    crate::calendar::law_month_length_bounds(d.year + 1, 1);
    crate::calendar::law_month_length_bounds(d.year as int, d.month + 1);
    crate::calendar::law_month_length_bounds(d.year - 1, 12);
}

/// Going `m + 1` days back is going `m` days back and then one more, when possible.
proof fn lemma_back_last(e: CalendarDate, m: nat)
    ensures
        days_back(e, m + 1) == (match previous_day_spec(days_back(e, m)) {
            Some(p) => p,
            None => days_back(e, m),
        }),
    decreases m,
{
    if let Some(p) = previous_day_spec(e) {
        assert(days_back(e, m + 1) == days_back(p, m));
        if m > 0 {
            lemma_back_last(p, (m - 1) as nat);
            assert(days_back(e, m) == days_back(p, (m - 1) as nat));
            assert((m - 1) as nat + 1 == m);
        }
    } else {
        assert(days_back(e, m + 1) == e);
        assert(days_back(e, m) == e);
    }
}

/// Going `m + 1` days forward is going `m` days forward and then one more, when possible.
proof fn lemma_forward_last(e: CalendarDate, m: nat)
    ensures
        days_forward(e, m + 1) == (match next_day_spec(days_forward(e, m)) {
            Some(p) => p,
            None => days_forward(e, m),
        }),
    decreases m,
{
    if let Some(p) = next_day_spec(e) {
        assert(days_forward(e, m + 1) == days_forward(p, m));
        if m > 0 {
            lemma_forward_last(p, (m - 1) as nat);
            assert(days_forward(e, m) == days_forward(p, (m - 1) as nat));
            assert((m - 1) as nat + 1 == m);
        }
    } else {
        assert(days_forward(e, m + 1) == e);
        assert(days_forward(e, m) == e);
    }
}

/// Going `n` representable days forward and then `n` days back returns to the start.
pub proof fn law_forward_then_back(d: CalendarDate, n: nat)
    requires
        d.valid(),
        forward_exact(d, n),
    ensures
        days_back(days_forward(d, n), n) == d,
        days_forward(d, n).valid(),
    decreases n,
{
    if n > 0 {
        let x = next_day_spec(d)->0;
        lemma_step_valid(d);
        law_next_previous_day(d);
        law_forward_then_back(x, (n - 1) as nat);
        lemma_back_last(days_forward(d, n), (n - 1) as nat);
    }
}

/// Going `n` representable days back and then `n` days forward returns to the start.
pub proof fn law_back_then_forward(d: CalendarDate, n: nat)
    requires
        d.valid(),
        back_exact(d, n),
    ensures
        days_forward(days_back(d, n), n) == d,
        days_back(d, n).valid(),
    decreases n,
{
    if n > 0 {
        let x = previous_day_spec(d)->0;
        lemma_step_valid(d);
        law_next_previous_day(d);
        law_back_then_forward(x, (n - 1) as nat);
        lemma_forward_last(days_back(d, n), (n - 1) as nat);
    }
}

/// Down (without shift) moves focus one week later, to the date seven days after the
/// focused one, and Up from there comes back to the focused date.
pub proof fn law_week_down_then_up(
    f: CalendarDate,
    view_date: CalendarDate,
    min_date: CalendarDate,
    max_date: CalendarDate,
)
    requires
        f.valid(),
        forward_exact(f, 7),
        within(f, min_date, max_date),
        within(days_forward(f, 7), min_date, max_date),
    ensures
        ({
            let down = calendar_keydown_spec(Some(f), view_date, min_date, max_date, CalendarKey::ArrowDown, false);
            &&& down.focused == Some(days_forward(f, 7))
            &&& calendar_keydown_spec(down.focused, view_date, min_date, max_date, CalendarKey::ArrowUp, false).focused
                == Some(f)
        }),
{
    law_forward_then_back(f, 7);
}

/// Up (without shift) moves focus one week earlier, to the date seven days before the
/// focused one, and Down from there comes back to the focused date.
pub proof fn law_week_up_then_down(
    f: CalendarDate,
    view_date: CalendarDate,
    min_date: CalendarDate,
    max_date: CalendarDate,
)
    requires
        f.valid(),
        back_exact(f, 7),
        within(f, min_date, max_date),
        within(days_back(f, 7), min_date, max_date),
    ensures
        ({
            let up = calendar_keydown_spec(Some(f), view_date, min_date, max_date, CalendarKey::ArrowUp, false);
            &&& up.focused == Some(days_back(f, 7))
            &&& calendar_keydown_spec(up.focused, view_date, min_date, max_date, CalendarKey::ArrowDown, false).focused
                == Some(f)
        }),
{
    law_back_then_forward(f, 7);
}

impl RelativeMonth {
    /// The `data-month` text: `last`, `current` or `next`.
    pub fn as_str(self) -> (r: &'static str)
        ensures
            r@ == match self {
                RelativeMonth::Last => seq!['l', 'a', 's', 't'],
                RelativeMonth::Current => seq!['c', 'u', 'r', 'r', 'e', 'n', 't'],
                RelativeMonth::Next => seq!['n', 'e', 'x', 't'],
            },
    {
        match self {
            RelativeMonth::Last => {
                proof {
                    reveal_strlit("last");
                }
                "last"
            },
            RelativeMonth::Current => {
                proof {
                    reveal_strlit("current");
                }
                "current"
            },
            RelativeMonth::Next => {
                proof {
                    reveal_strlit("next");
                }
                "next"
            },
        }
    }
}

/// The column headers of the grid: the seven weekdays from `first_day_of_week` on.
pub fn weekday_headers(first_day_of_week: Weekday) -> (r: Vec<Weekday>)
    ensures
        r@.len() == 7,
        forall|i: int| 0 <= i < 7 ==> #[trigger] r@[i].num() == (first_day_of_week.num() + i) % 7,
{
    let mut r: Vec<Weekday> = Vec::new();
    let mut i: u8 = 0;
    while i < 7
        invariant
            i <= 7,
            r@.len() == i,
            forall|j: int| 0 <= j < i ==> #[trigger] r@[j].num() == (first_day_of_week.num() + j) % 7,
        decreases 7 - i,
    {
        r.push(first_day_of_week.nth_next(i));
        i = i + 1;
    }
    r
}

/// The English name of the weekday numbered `n` from Monday.
pub open spec fn weekday_name(n: int) -> Seq<char> {
    if n == 0 {
        seq!['M', 'o', 'n', 'd', 'a', 'y']
    } else if n == 1 {
        seq!['T', 'u', 'e', 's', 'd', 'a', 'y']
    } else if n == 2 {
        seq!['W', 'e', 'd', 'n', 'e', 's', 'd', 'a', 'y']
    } else if n == 3 {
        seq!['T', 'h', 'u', 'r', 's', 'd', 'a', 'y']
    } else if n == 4 {
        seq!['F', 'r', 'i', 'd', 'a', 'y']
    } else if n == 5 {
        seq!['S', 'a', 't', 'u', 'r', 'd', 'a', 'y']
    } else {
        seq!['S', 'u', 'n', 'd', 'a', 'y']
    }
}

/// The English name of month `m`.
pub open spec fn month_name(m: int) -> Seq<char> {
    if m == 1 {
        seq!['J', 'a', 'n', 'u', 'a', 'r', 'y']
    } else if m == 2 {
        seq!['F', 'e', 'b', 'r', 'u', 'a', 'r', 'y']
    } else if m == 3 {
        seq!['M', 'a', 'r', 'c', 'h']
    } else if m == 4 {
        seq!['A', 'p', 'r', 'i', 'l']
    } else if m == 5 {
        seq!['M', 'a', 'y']
    } else if m == 6 {
        seq!['J', 'u', 'n', 'e']
    } else if m == 7 {
        seq!['J', 'u', 'l', 'y']
    } else if m == 8 {
        seq!['A', 'u', 'g', 'u', 's', 't']
    } else if m == 9 {
        seq!['S', 'e', 'p', 't', 'e', 'm', 'b', 'e', 'r']
    } else if m == 10 {
        seq!['O', 'c', 't', 'o', 'b', 'e', 'r']
    } else if m == 11 {
        seq!['N', 'o', 'v', 'e', 'm', 'b', 'e', 'r']
    } else {
        seq!['D', 'e', 'c', 'e', 'm', 'b', 'e', 'r']
    }
}

fn weekday_text(w: Weekday) -> (r: &'static str)
    ensures
        r@ == weekday_name(w.num()),
{
    match w {
        Weekday::Monday => {
            proof {
                reveal_strlit("Monday");
            }
            "Monday"
        },
        Weekday::Tuesday => {
            proof {
                reveal_strlit("Tuesday");
            }
            "Tuesday"
        },
        Weekday::Wednesday => {
            proof {
                reveal_strlit("Wednesday");
            }
            "Wednesday"
        },
        Weekday::Thursday => {
            proof {
                reveal_strlit("Thursday");
            }
            "Thursday"
        },
        Weekday::Friday => {
            proof {
                reveal_strlit("Friday");
            }
            "Friday"
        },
        Weekday::Saturday => {
            proof {
                reveal_strlit("Saturday");
            }
            "Saturday"
        },
        Weekday::Sunday => {
            proof {
                reveal_strlit("Sunday");
            }
            "Sunday"
        },
    }
}

fn month_text(m: u8) -> (r: &'static str)
    requires
        1 <= m <= 12,
    ensures
        r@ == month_name(m as int),
{
    match m {
        1 => {
            proof {
                reveal_strlit("January");
            }
            "January"
        },
        2 => {
            proof {
                reveal_strlit("February");
            }
            "February"
        },
        3 => {
            proof {
                reveal_strlit("March");
            }
            "March"
        },
        4 => {
            proof {
                reveal_strlit("April");
            }
            "April"
        },
        5 => {
            proof {
                reveal_strlit("May");
            }
            "May"
        },
        6 => {
            proof {
                reveal_strlit("June");
            }
            "June"
        },
        7 => {
            proof {
                reveal_strlit("July");
            }
            "July"
        },
        8 => {
            proof {
                reveal_strlit("August");
            }
            "August"
        },
        9 => {
            proof {
                reveal_strlit("September");
            }
            "September"
        },
        10 => {
            proof {
                reveal_strlit("October");
            }
            "October"
        },
        11 => {
            proof {
                reveal_strlit("November");
            }
            "November"
        },
        _ => {
            proof {
                reveal_strlit("December");
            }
            "December"
        },
    }
}

/// The text of a year: a minus sign for years before 1, then the digits.
pub open spec fn year_text(y: int) -> Seq<char> {
    if y < 0 {
        seq!['-'] + decimal((-y) as nat)
    } else {
        decimal(y as nat)
    }
}

/// The spoken label of a day cell, such as `Monday, January 1, 2024`.
pub fn aria_label(date: CalendarDate) -> (r: String)
    requires
        date.valid(),
    ensures
        r@ == weekday_name(weekday_number(date.year as int, date.month as int, date.day as int)) + seq![
            ',',
            ' ',
        ] + month_name(date.month as int) + seq![' '] + decimal(date.day as nat) + seq![',', ' ']
            + year_text(date.year as int),
{
    let w = weekday(date);
    let mut out = String::new();
    proof {
        reveal_strlit(", ");
        reveal_strlit(" ");
        reveal_strlit("-");
    }
    push_str(&mut out, weekday_text(w));
    push_str(&mut out, ", ");
    push_str(&mut out, month_text(date.month));
    push_str(&mut out, " ");
    push_decimal(&mut out, date.day as u64);
    push_str(&mut out, ", ");
    if date.year < 0 {
        push_str(&mut out, "-");
        push_decimal(&mut out, (-(date.year as i64)) as u64);
    } else {
        push_decimal(&mut out, date.year as u64);
    }
    assert(out@ =~= weekday_name(weekday_number(date.year as int, date.month as int, date.day as int)) + seq![
        ',',
        ' ',
    ] + month_name(date.month as int) + seq![' '] + decimal(date.day as nat) + seq![',', ' ']
        + year_text(date.year as int));
    out
}

/// The state a calendar shares with its parts.
pub struct CalendarContext {
    /// The selected date.
    pub selected_date: Option<CalendarDate>,
    /// The date whose cell has keyboard focus.
    pub focused_date: Option<CalendarDate>,
    /// A date in the month on view.
    pub view_date: CalendarDate,
    /// Whether the calendar is disabled.
    pub disabled: bool,
    /// Today's date.
    pub today: CalendarDate,
    /// The weekday of the grid's first column.
    pub first_day_of_week: Weekday,
    /// The earliest date that can be viewed.
    pub min_date: CalendarDate,
    /// The latest date that can be viewed.
    pub max_date: CalendarDate,
}

impl CalendarContext {
    /// The selected date.
    pub fn selected_date(&self) -> (r: Option<CalendarDate>)
        ensures
            r == self.selected_date,
    {
        self.selected_date
    }

    /// Selects `date` (or clears the selection).
    pub fn set_selected_date(&mut self, date: Option<CalendarDate>)
        ensures
            *final(self) == (CalendarContext { selected_date: date, ..*old(self) }),
    {
        self.selected_date = date;
    }

    /// The date whose cell has keyboard focus.
    pub fn focused_date(&self) -> (r: Option<CalendarDate>)
        ensures
            r == self.focused_date,
    {
        self.focused_date
    }

    /// Gives keyboard focus to the cell of `date` (or to none).
    pub fn set_focused_date(&mut self, date: Option<CalendarDate>)
        ensures
            *final(self) == (CalendarContext { focused_date: date, ..*old(self) }),
    {
        self.focused_date = date;
    }

    /// A date in the month on view.
    pub fn view_date(&self) -> (r: CalendarDate)
        ensures
            r == self.view_date,
    {
        self.view_date
    }

    /// Views the month of `date`, limited to the range from `min_date` to `max_date`.
    pub fn set_view_date(&mut self, date: CalendarDate)
        requires
            !old(self).max_date.before(old(self).min_date),
        ensures
            *final(self) == (CalendarContext {
                view_date: if date.before(old(self).min_date) {
                    old(self).min_date
                } else if old(self).max_date.before(date) {
                    old(self).max_date
                } else {
                    date
                },
                ..*old(self)
            }),
    {
        self.view_date = clamp_date(date, self.min_date, self.max_date);
    }

    /// Whether the calendar is disabled.
    pub fn is_disabled(&self) -> (r: bool)
        ensures
            r == self.disabled,
    {
        self.disabled
    }
}

} // verus!
