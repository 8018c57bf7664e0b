use dioxus_primitives::calendar::{CalendarDate, Weekday};
use dioxus_primitives::calendar_nav::CalendarContext;
use dioxus_primitives::controlled::{unique_id_text, use_controlled, use_id_or};
use dioxus_primitives::date_picker::{DatePickerContext, DateRange, DateRangePickerContext};
use dioxus_primitives::focus::FocusState;
use dioxus_primitives::overlay::{AnimatedOpen, EscapeListenerStack};
use dioxus_primitives::pointer::{use_move_interaction, PointerTable};
use dioxus_primitives::selectable::use_single_selectable_value;
use dioxus_primitives::selection::{
    register_listbox_option, unregister_listbox_option, OptionState, RcPartialEqValue,
};

fn date(year: i32, month: u8, day: u8) -> CalendarDate {
    CalendarDate { year, month, day }
}

#[test]
fn controlled_state_reads_back_writes() {
    let mut s = use_controlled(None, 3u32);
    assert_eq!(*s.value(None), 3);
    s.set_value(7);
    assert_eq!(*s.value(None), 7);
    assert_eq!(*s.value(Some(&9)), 9);
    let c = use_controlled(Some(5u32), 3u32);
    assert_eq!(*c.value(None), 5);
}

#[test]
fn ids_prefer_the_users() {
    let mut generated = "dxc-4".to_string();
    assert_eq!(use_id_or(&mut generated, None), "dxc-4");
    let user = "mine".to_string();
    assert_eq!(use_id_or(&mut generated, Some(&user)), "mine");
    assert_eq!(use_id_or(&mut generated, None), "mine");
    assert_eq!(unique_id_text(0), "dxc-0");
    assert_eq!(unique_id_text(42), "dxc-42");
    assert_ne!(unique_id_text(1), unique_id_text(10));
}

#[test]
fn escape_goes_to_the_top_listener() {
    let mut stack = EscapeListenerStack::new();
    assert!(!stack.is_top(1));
    stack.push(1);
    stack.push(2);
    assert!(stack.is_top(2));
    assert!(!stack.is_top(1));
    stack.remove(2);
    assert!(stack.is_top(1));
    stack.push(3);
    stack.remove(1);
    assert!(stack.is_top(3));
    stack.remove(3);
    assert!(!stack.is_top(3));
}

#[test]
fn animated_open_waits_for_animations_to_close() {
    let mut a = AnimatedOpen::new();
    assert!(!a.visible());
    assert!(!a.open_changed(true));
    assert!(a.visible());
    assert!(a.open_changed(false));
    assert!(a.visible());
    a.animations_finished(false);
    assert!(!a.visible());
}

#[test]
fn pointers_are_tracked_by_id() {
    let mut t: PointerTable<(i64, i64)> = PointerTable::new();
    assert_eq!(t.pointer_position(1), None);
    t.track_pointer_down(1, (10, 20));
    t.add_pointer(2, (5, 5));
    assert_eq!(t.pointer_position(1), Some((10, 20)));
    t.update_pointer(1, (11, 21));
    assert_eq!(t.pointer_position(1), Some((11, 21)));
    assert_eq!(t.pointer_position(2), Some((5, 5)));
    t.update_pointer(7, (0, 0));
    assert_eq!(t.pointer_position(7), None);
    t.add_pointer(1, (99, 99));
    assert_eq!(t.pointer_position(1), Some((11, 21)));
    t.remove_pointer(1);
    assert_eq!(t.pointer_position(1), None);
    assert_eq!(t.pointer_position(2), Some((5, 5)));
}

#[test]
fn focus_controls_mount_only_when_focused_and_enabled() {
    let mut f = FocusState::new(false);
    f.add_update_item(0, false);
    f.add_update_item(1, true);
    assert!(!f.control_mount_focus(0));
    f.set_focus(Some(0));
    assert!(f.control_mount_focus(0));
    f.set_focus(Some(1));
    assert!(!f.control_mount_focus(1));
    assert!(!f.control_mount_focus(5));
}

#[test]
fn date_ranges() {
    let r = DateRange::new(date(2024, 3, 10), date(2024, 1, 5));
    assert_eq!(r.to_min_max(), (date(2024, 1, 5), date(2024, 3, 10)));
    assert!(r.contains(date(2024, 2, 1)));
    assert!(r.contains(date(2024, 1, 5)));
    assert!(r.contains(date(2024, 3, 10)));
    assert!(!r.contains(date(2024, 3, 11)));
    assert!(!r.contains(date(2023, 12, 31)));

    let picker = DatePickerContext { selected_date: Some(date(2024, 1, 1)) };
    assert!(!picker.set_date(Some(date(2024, 1, 1))));
    assert!(picker.set_date(None));
    assert!(picker.set_date(Some(date(2024, 1, 2))));

    let mut range_picker = DateRangePickerContext { date_range: None };
    let chosen = Some(DateRange::new(date(2024, 1, 1), date(2024, 1, 9)));
    assert!(range_picker.set_range(chosen));
    assert_eq!(range_picker.date_range, chosen);
    assert!(!range_picker.set_range(chosen));
    assert!(range_picker.set_range(None));
    assert_eq!(range_picker.date_range, None);
}

#[test]
fn calendar_context_clamps_the_view() {
    let mut ctx = CalendarContext {
        selected_date: None,
        focused_date: None,
        view_date: date(2024, 5, 1),
        disabled: false,
        today: date(2024, 5, 1),
        first_day_of_week: Weekday::Monday,
        min_date: date(2000, 1, 1),
        max_date: date(2030, 12, 31),
    };
    ctx.set_view_date(date(1999, 6, 1));
    assert_eq!(ctx.view_date(), date(2000, 1, 1));
    ctx.set_view_date(date(2040, 6, 1));
    assert_eq!(ctx.view_date(), date(2030, 12, 31));
    ctx.set_view_date(date(2024, 7, 4));
    assert_eq!(ctx.view_date(), date(2024, 7, 4));
    ctx.set_selected_date(Some(date(2024, 7, 9)));
    assert_eq!(ctx.selected_date(), Some(date(2024, 7, 9)));
    ctx.set_focused_date(Some(date(2024, 7, 10)));
    assert_eq!(ctx.focused_date(), Some(date(2024, 7, 10)));
    assert!(!ctx.is_disabled());
}

fn option(tab_index: usize, id: &str, text: &str) -> OptionState {
    OptionState {
        tab_index,
        value: RcPartialEqValue::new(text),
        text_value: text.to_string(),
        id: id.to_string(),
        disabled: false,
    }
}

#[test]
fn listbox_options_register_under_their_current_id() {
    let mut options: Vec<OptionState> = Vec::new();
    let mut previous: Option<String> = None;
    register_listbox_option(&mut options, &mut previous, option(0, "a", "Apple"));
    assert_eq!(options.len(), 1);
    assert_eq!(previous.as_deref(), Some("a"));
    register_listbox_option(&mut options, &mut previous, option(0, "a", "Apple"));
    assert_eq!(options.len(), 1);
    register_listbox_option(&mut options, &mut previous, option(0, "b", "Apple"));
    assert_eq!(options.len(), 1);
    assert_eq!(options[0].id, "b");
    let mut other: Option<String> = None;
    register_listbox_option(&mut options, &mut other, option(1, "c", "Cherry"));
    assert_eq!(options.len(), 2);
    unregister_listbox_option(&mut options, &previous);
    assert_eq!(options.len(), 1);
    assert_eq!(options[0].id, "c");
    unregister_listbox_option(&mut options, &None);
    assert_eq!(options.len(), 1);
}

#[test]
fn single_select_value_state() {
    let mut v = use_single_selectable_value(None);
    assert!(v.values(None).is_empty());
    let reported = v.set_value(RcPartialEqValue::new("x"));
    assert_eq!(reported.as_ref().map(|s| s.as_str()), Some("x"));
    let values = v.values(None);
    assert_eq!(values.len(), 1);
    assert_eq!(values[0].as_ref().map(|s| s.as_str()), Some("x"));
    let owner = Some(RcPartialEqValue::new("y"));
    let controlled = v.values(Some(&owner));
    assert_eq!(controlled[0].as_ref().map(|s| s.as_str()), Some("y"));
    assert!(v.values(Some(&None)).is_empty());
}

#[test]
fn drag_follows_the_driving_pointer() {
    let mut table: PointerTable<(i64, i64)> = PointerTable::new();
    let mut m = use_move_interaction::<(i64, i64)>(false);
    assert!(!m.start_pointer(&mut table, false, 4, (0, 0)));
    assert_eq!(table.pointer_position(4), None);
    assert!(m.start_pointer(&mut table, true, 4, (1, 2)));
    assert_eq!(m.active_pointer_id, Some(4));
    assert!(!m.start_pointer(&mut table, true, 5, (9, 9)));
    assert_eq!(m.pointer_move(&table), None);
    m.dragging = true;
    assert_eq!(m.pointer_move(&table), Some(((1, 2), None)));
    table.update_pointer(4, (3, 5));
    assert_eq!(m.pointer_move(&table), Some(((3, 5), Some((1, 2)))));
    table.remove_pointer(4);
    assert_eq!(m.pointer_move(&table), None);
    assert_eq!(m.active_pointer_id, None);
    assert_eq!(m.last_pointer_position, None);
    assert!(!m.dragging);
}
