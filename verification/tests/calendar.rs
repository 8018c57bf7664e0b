use dioxus_primitives::calendar::{
    calendar_grid, calendar_month_options, calendar_year_range, clamp_date, date_before, days_since,
    from_calendar_date, month_days, next_month, previous_month, weekday, weekday_abbreviation,
    CalendarDate, Weekday, WeekdaySet,
};
use dioxus_primitives::calendar_nav::{
    aria_label, calendar_keydown, day_select, focusable_date, relative_month, weekday_headers, CalendarKey,
    RelativeMonth,
};

fn date(year: i32, month: u8, day: u8) -> CalendarDate {
    CalendarDate { year, month, day }
}

#[test]
fn test_weekday_set() {
    let mut weekdays = WeekdaySet::single(Weekday::Monday);
    assert!(weekdays.contains(Weekday::Monday));
    assert!(!weekdays.contains(Weekday::Tuesday));

    assert!(weekdays.remove(Weekday::Monday));
    assert!(!weekdays.contains(Weekday::Monday));
    assert!(!weekdays.remove(Weekday::Monday));

    let all_days = WeekdaySet(0b111_1111);
    let empty_set = WeekdaySet(0b000_0000);
    let single_set = WeekdaySet::single(Weekday::Friday);
    let part_size_set = WeekdaySet(0b010_1010);

    let mut days = Vec::new();
    let mut it = all_days.iter(Weekday::Sunday);
    while let Some(d) = it.next() {
        days.push(d);
    }
    assert_eq!(days.len(), 7);
    assert_eq!(days[0], Weekday::Sunday);

    let mut iter = all_days.iter(Weekday::Wednesday);
    assert_eq!(iter.next(), Some(Weekday::Wednesday));
    assert_eq!(iter.next(), Some(Weekday::Thursday));

    assert_eq!(empty_set.first(), None);
    assert_eq!(single_set.first(), Some(Weekday::Friday));
    assert_eq!(part_size_set.first(), Some(Weekday::Tuesday));
    assert_eq!(all_days.first(), Some(Weekday::Monday));

    assert!(empty_set.is_empty());
    assert!(!part_size_set.is_empty());
    assert!(!single_set.is_empty());
    assert!(!all_days.is_empty());
}

#[test]
fn test_days_since() {
    let d = date(2024, 1, 1);
    assert_eq!(days_since(d, Weekday::Monday), 0);
    assert_eq!(days_since(d, Weekday::Sunday), 1);
    assert_eq!(days_since(d, Weekday::Tuesday), 6);
}

#[test]
fn test_month_navigation() {
    let d = date(2024, 1, 15);

    let next = next_month(d);
    assert!(next.is_some());
    assert_eq!(next.unwrap().month, 2);
    assert_eq!(next.unwrap().year, 2024);
    assert_eq!(next.unwrap().day, 15);

    let prev = previous_month(d);
    assert!(prev.is_some());
    assert_eq!(prev.unwrap().month, 12);
    assert_eq!(prev.unwrap().year, 2023);
    assert_eq!(prev.unwrap().day, 15);
}

fn weeks(grid: Vec<CalendarDate>) -> Vec<Vec<CalendarDate>> {
    grid.chunks(7).map(|w| w.to_vec()).collect()
}

#[test]
fn test_calendar_grid_weeks() {
    let feb_grid = weeks(calendar_grid(date(2021, 2, 15), Weekday::Monday));
    assert_eq!(feb_grid.len(), 4, "February 2021 should have exactly 4 weeks");
    let feb_days = feb_grid.iter().flatten().filter(|d| d.month == 2 && d.year == 2021).count();
    assert_eq!(feb_days, 28, "Should have all 28 days of February 2021");

    let may_grid = weeks(calendar_grid(date(2024, 5, 15), Weekday::Sunday));
    assert_eq!(
        may_grid.len(),
        5,
        "May 2024 should have exactly 5 weeks when starting from Sunday"
    );
    let may_days = may_grid.iter().flatten().filter(|d| d.month == 5 && d.year == 2024).count();
    assert_eq!(may_days, 31, "Should have all 31 days of May 2024");

    let dec_grid = weeks(calendar_grid(date(2018, 12, 15), Weekday::Sunday));
    assert_eq!(dec_grid.len(), 6, "December 2018 should have exactly 6 weeks");
    for week in &dec_grid {
        assert!(!week.is_empty(), "No week should be empty");
        assert_eq!(week.len(), 7, "Each week should have exactly 7 days");
    }
}

#[test]
fn grid_starts_with_previous_month_days() {
    let grid = calendar_grid(date(2024, 5, 15), Weekday::Sunday);
    assert_eq!(grid[0], date(2024, 4, 28));
    assert_eq!(grid[3], date(2024, 5, 1));
    assert_eq!(*grid.last().unwrap(), date(2024, 6, 1));
}

#[test]
fn weekday_of_known_dates() {
    assert_eq!(weekday(date(2024, 1, 1)), Weekday::Monday);
    assert_eq!(weekday(date(2000, 2, 29)), Weekday::Tuesday);
    assert_eq!(weekday_abbreviation(Weekday::Wednesday), "We");
}

#[test]
fn month_lengths() {
    assert_eq!(month_days(2024, 2), 29);
    assert_eq!(month_days(2023, 2), 28);
    assert_eq!(month_days(1900, 2), 28);
    assert_eq!(month_days(2000, 2), 29);
    assert_eq!(month_days(2023, 4), 30);
    assert_eq!(month_days(2023, 12), 31);
}

#[test]
fn calendar_date_validation() {
    assert_eq!(from_calendar_date(2023, 2, 29), None);
    assert_eq!(from_calendar_date(2024, 2, 29), Some(date(2024, 2, 29)));
    assert_eq!(from_calendar_date(10000, 1, 1), None);
    assert_eq!(from_calendar_date(2024, 4, 0), None);
}

#[test]
fn month_navigation_clamps_and_wraps() {
    assert_eq!(next_month(date(2024, 1, 31)), Some(date(2024, 2, 29)));
    assert_eq!(next_month(date(2023, 12, 31)), Some(date(2024, 1, 31)));
    assert_eq!(previous_month(date(2024, 3, 31)), Some(date(2024, 2, 29)));
    assert_eq!(next_month(date(9999, 12, 1)), None);
    assert_eq!(previous_month(date(-9999, 1, 1)), None);
}

#[test]
fn date_order_and_clamp() {
    assert!(date_before(date(2024, 1, 1), date(2024, 1, 2)));
    assert!(!date_before(date(2024, 1, 2), date(2024, 1, 2)));
    let lo = date(2024, 1, 1);
    let hi = date(2024, 12, 31);
    assert_eq!(clamp_date(date(2023, 6, 1), lo, hi), lo);
    assert_eq!(clamp_date(date(2025, 6, 1), lo, hi), hi);
    assert_eq!(clamp_date(date(2024, 6, 1), lo, hi), date(2024, 6, 1));
}

#[test]
fn month_options_and_year_range() {
    let lo = date(2024, 3, 10);
    let hi = date(2025, 8, 20);
    assert_eq!(calendar_month_options(date(2024, 5, 1), lo, hi), vec![3, 4, 5, 6, 7, 8, 9, 10, 11, 12]);
    assert_eq!(calendar_month_options(date(2025, 5, 1), lo, hi), vec![1, 2, 3, 4, 5, 6, 7, 8]);
    assert_eq!(calendar_year_range(date(2024, 5, 1), lo, hi), (2024, 2025));
    assert_eq!(calendar_year_range(date(2024, 1, 1), lo, hi), (2025, 2025));
}

#[test]
fn calendar_keyboard_moves() {
    let lo = date(1925, 1, 1);
    let hi = date(2050, 12, 31);
    let view = date(2024, 1, 1);
    let nav = calendar_keydown(Some(date(2024, 1, 31)), view, lo, hi, CalendarKey::ArrowRight, false);
    assert_eq!(nav.focused, Some(date(2024, 2, 1)));
    assert_eq!(nav.view_change, Some(date(2024, 2, 1)));
    assert!(nav.prevent_default);

    let nav = calendar_keydown(Some(date(2024, 1, 3)), view, lo, hi, CalendarKey::ArrowUp, false);
    assert_eq!(nav.focused, Some(date(2023, 12, 27)));
    assert_eq!(nav.view_change, Some(date(2023, 12, 1)));

    let nav = calendar_keydown(Some(date(2024, 1, 31)), view, lo, hi, CalendarKey::ArrowDown, true);
    assert_eq!(nav.focused, Some(date(2024, 2, 29)));

    let nav = calendar_keydown(Some(date(2024, 1, 10)), view, lo, hi, CalendarKey::ArrowLeft, false);
    assert_eq!(nav.focused, Some(date(2024, 1, 9)));
    assert_eq!(nav.view_change, None);

    let nav = calendar_keydown(None, view, lo, hi, CalendarKey::ArrowLeft, false);
    assert_eq!(nav.focused, None);
    assert!(!nav.prevent_default);
}

#[test]
fn calendar_keyboard_respects_range() {
    let lo = date(2024, 1, 1);
    let hi = date(2024, 1, 31);
    let view = date(2024, 1, 1);
    let nav = calendar_keydown(Some(date(2024, 1, 1)), view, lo, hi, CalendarKey::ArrowLeft, false);
    assert_eq!(nav.focused, Some(date(2024, 1, 1)));
    assert_eq!(nav.view_change, Some(date(2023, 12, 1)));
}

#[test]
fn calendar_keyboard_at_first_day_loses_focus() {
    let first = date(-9999, 1, 1);
    let nav = calendar_keydown(Some(first), first, first, date(9999, 12, 31), CalendarKey::ArrowLeft, false);
    assert_eq!(nav.focused, None);
}

#[test]
fn day_cells() {
    let lo = date(2024, 1, 5);
    let hi = date(2024, 12, 31);
    let view = date(2024, 3, 1);
    assert_eq!(relative_month(date(2024, 1, 1), view, lo, hi), RelativeMonth::Last);
    assert_eq!(relative_month(date(2024, 2, 28), view, lo, hi), RelativeMonth::Last);
    assert_eq!(relative_month(date(2024, 3, 9), view, lo, hi), RelativeMonth::Current);
    assert_eq!(relative_month(date(2024, 4, 1), view, lo, hi), RelativeMonth::Next);

    assert_eq!(focusable_date(Some(date(2024, 3, 9)), None, view), date(2024, 3, 9));
    assert_eq!(focusable_date(Some(date(2024, 4, 9)), Some(date(2024, 3, 2)), view), date(2024, 3, 2));
    assert_eq!(focusable_date(None, None, view), view);

    assert_eq!(day_select(true, view, 4, date(2024, 3, 4), None), None);
    assert_eq!(
        day_select(false, view, 4, date(2024, 3, 4), None),
        Some((Some(date(2024, 3, 4)), date(2024, 3, 4)))
    );
    assert_eq!(
        day_select(false, view, 4, date(2024, 3, 4), Some(date(2024, 3, 4))),
        Some((None, date(2024, 3, 4)))
    );
}

#[test]
fn day_cell_labels() {
    assert_eq!(aria_label(date(2024, 1, 1)), "Monday, January 1, 2024");
    assert_eq!(aria_label(date(2023, 12, 25)), "Monday, December 25, 2023");
    assert_eq!(aria_label(date(2024, 2, 29)), "Thursday, February 29, 2024");
    assert_eq!(RelativeMonth::Last.as_str(), "last");
    assert_eq!(RelativeMonth::Current.as_str(), "current");
    assert_eq!(RelativeMonth::Next.as_str(), "next");
}

#[test]
fn weekday_header_order() {
    let sunday_first = weekday_headers(Weekday::Sunday);
    assert_eq!(sunday_first.len(), 7);
    assert_eq!(sunday_first[0], Weekday::Sunday);
    assert_eq!(sunday_first[1], Weekday::Monday);
    assert_eq!(sunday_first[6], Weekday::Saturday);
    let thursday_first = weekday_headers(Weekday::Thursday);
    assert_eq!(thursday_first[0], Weekday::Thursday);
    assert_eq!(thursday_first[3], Weekday::Sunday);
    assert_eq!(thursday_first[6], Weekday::Wednesday);
}

#[test]
fn split_halves_partition_the_set() {
    let set = WeekdaySet(0b101_0101);
    let (before, after) = set.split_at(Weekday::Thursday);
    assert_eq!(before.0 | after.0, set.0);
    assert_eq!(before.0 & after.0, 0);
    assert_eq!(before.0, 0b000_0101);
    assert_eq!(after.0, 0b101_0000);
    let (b, a) = set.split_at(Weekday::Monday);
    assert_eq!((b.0, a.0), (0, set.0));
}
