use std::collections::HashMap;
use dioxus_primitives::accordion::{AccordionContext, NavKey};
use dioxus_primitives::date_segment::{
    blurred_clamp, date_element_bounds, entered_date, parse_segment, segment_display, segment_keydown, FocusMove,
    SegmentKey, SegmentType,
};
use dioxus_primitives::badge::{
    badge, separator_orientation, separator_role, AvatarCtx, AvatarState, BadgeProps, DEF_COLOR,
};
use dioxus_primitives::calendar::CalendarDate;
use dioxus_primitives::date_picker::DateRange;
use dioxus_primitives::drag_drop::{
    resolve_drop_index, resolve_drop_position, DragAndDropContext, DropPosition, ItemKey,
};
use dioxus_primitives::focus::{next_index, prev_index, FocusPlacement, FocusState};
use dioxus_primitives::radio::RadioGroupCtx;
use dioxus_primitives::recycle::{
    apply_pending_measurements, build_prefix_sums_adaptive, container_attributes, estimate_unmeasured_height,
    find_scroll_anchor, record_measurement, render_window, row_attributes,
};
use dioxus_primitives::styling::{
    CheckboxState, ContentAlign, ContentSide, LineCap, LineJoin, ScrollDirection, ScrollType, ViewBox,
};
use dioxus_primitives::text::usize_text;

#[test]
fn roving_index_moves() {
    assert_eq!(next_index(&[1, 3, 5], Some(3), false), Some(5));
    assert_eq!(next_index(&[1, 3, 5], Some(5), false), None);
    assert_eq!(next_index(&[1, 3, 5], Some(5), true), Some(1));
    assert_eq!(next_index(&[1, 3, 5], None, false), Some(1));
    assert_eq!(prev_index(&[1, 3, 5], Some(3), false), Some(1));
    assert_eq!(prev_index(&[1, 3, 5], Some(1), true), Some(5));
    assert_eq!(prev_index(&[1, 3, 5], None, true), Some(5));
    assert_eq!(prev_index(&[1, 3, 5], None, false), Some(1));
}

#[test]
fn focus_state_items() {
    let mut f = FocusState::new(false);
    f.add_update_item(2, false);
    f.add_update_item(0, false);
    f.add_update_item(1, true);
    assert_eq!(f.enabled_indices(), vec![0, 2]);
    f.focus_first();
    assert_eq!(f.current_focus(), Some(0));
    f.focus_next();
    assert_eq!(f.current_focus(), Some(2));
    f.focus_next();
    assert_eq!(f.current_focus(), None);
    assert_eq!(f.recent_focus(), Some(2));
    assert!(f.try_focus_placement(FocusPlacement::Last));
    assert!(f.is_focused(2));
    f.add_update_item(2, true);
    assert_eq!(f.current_focus(), None);
    f.remove_item(0);
    assert_eq!(f.enabled_indices(), Vec::<usize>::new());
    assert!(!f.try_focus_placement(FocusPlacement::First));
    assert!(!f.any_focused());
}

#[test]
fn radio_group_navigation() {
    let mut r = RadioGroupCtx::new("a".to_string(), true, true, false);
    r.register_item(0, "a".to_string());
    r.register_item(1, "b".to_string());
    r.register_item(2, "c".to_string());
    assert_eq!(r.item_count(), 3);
    assert_eq!(r.focus_next(), None);
    r.set_focus(Some(0));
    assert_eq!(r.focus_next(), Some("b".to_string()));
    r.sync_value("b".to_string());
    assert_eq!(r.focus_next(), Some("c".to_string()));
    assert_eq!(r.focus_next(), Some("a".to_string()));
    r.sync_value("a".to_string());
    assert_eq!(r.focus_prev(), Some("c".to_string()));
    assert_eq!(r.set_value("a".to_string()), None);
    assert_eq!(r.set_value("c".to_string()), Some("c".to_string()));
    r.focus_start();
    assert_eq!(r.select_focused_value(), None);
    r.focus_end();
    assert_eq!(r.select_focused_value(), Some("c".to_string()));

    let mut s = RadioGroupCtx::new("x".to_string(), false, true, true);
    s.register_item(0, "x".to_string());
    s.register_item(1, "y".to_string());
    s.set_focus(Some(1));
    assert_eq!(s.focus_next(), Some("y".to_string()));
    s.set_focus(Some(0));
    assert_eq!(s.focus_prev(), None);
}

#[test]
fn accordion_open_close() {
    let mut a = AccordionContext::new(false, false, true, false);
    let first = a.register_item();
    let second = a.register_item();
    assert_eq!((first, second), (0, 1));
    a.set_open(first);
    a.set_open(second);
    assert!(!a.is_open(first));
    assert!(a.is_open(second));
    assert!(a.trigger_click(second, false));
    assert!(!a.is_open(second));
    assert!(!a.trigger_click(first, true));
    assert!(!a.is_open(first));

    let mut strict = AccordionContext::new(true, false, false, true);
    strict.set_open(3);
    strict.set_closed(3);
    assert!(strict.is_open(3));
    strict.set_open(4);
    strict.set_closed(3);
    assert!(!strict.is_open(3));
    assert!(strict.is_open(4));
    assert!(strict.is_horizontal());
    assert!(!strict.is_disabled());
    assert!(!strict.trigger_keydown(NavKey::ArrowUp));
    strict.focus.add_update_item(0, false);
    strict.focus.add_update_item(1, false);
    assert!(strict.trigger_keydown(NavKey::ArrowRight));
    assert_eq!(strict.focus.current_focus(), Some(0));
    assert!(strict.trigger_keydown(NavKey::End));
    assert_eq!(strict.focus.current_focus(), Some(1));
}

#[test]
fn drop_resolution() {
    assert_eq!(resolve_drop_index(0, 2, DropPosition::After), 2);
    assert_eq!(resolve_drop_index(3, 1, DropPosition::Before), 1);
    assert_eq!(resolve_drop_index(1, 3, DropPosition::Before), 2);
    assert_eq!(resolve_drop_position(2, 1), DropPosition::Before);
    assert_eq!(resolve_drop_position(1, 2), DropPosition::After);
    assert_eq!(resolve_drop_position(1, 1), DropPosition::Undefined);
}

#[test]
fn keyboard_reordering() {
    let items: Vec<Result<&str, ()>> = vec![Ok("a"), Ok("b"), Ok("c")];
    let mut ctx = DragAndDropContext::new(items);
    ctx.set_focus(Some(0));
    assert!(ctx.item_keydown(0, ItemKey::Space, true));
    assert!(ctx.is_dragging);
    assert_eq!(ctx.announcement, "You have lifted an item in position 1 of 3");
    ctx.item_keydown(0, ItemKey::ArrowDown, true);
    assert_eq!(ctx.drop_to, Some(1));
    assert_eq!(ctx.announcement, "You have moved the item to position 2 of 3");
    ctx.item_keydown(0, ItemKey::Enter, true);
    assert!(!ctx.is_dragging);
    assert_eq!(ctx.list_items, vec![Ok("b"), Ok("a"), Ok("c")]);
    assert_eq!(ctx.focused_index, Some(1));
    assert_eq!(ctx.announcement, "You have dropped the item. It has moved from position 1 to position 2");

    ctx.item_keydown(2, ItemKey::Space, true);
    ctx.item_keydown(2, ItemKey::ArrowUp, true);
    ctx.item_keydown(2, ItemKey::Escape, true);
    assert!(!ctx.is_dragging);
    assert_eq!(ctx.drag_from, None);
    assert_eq!(ctx.drop_to, None);
    assert_eq!(ctx.drop_position, DropPosition::Undefined);
    assert_eq!(ctx.list_items, vec![Ok("b"), Ok("a"), Ok("c")]);
    assert_eq!(ctx.focused_index, Some(2));
    assert_eq!(ctx.announcement, "Movement cancelled. The item has returned to its starting position of 3");

    ctx.item_keydown(1, ItemKey::Delete, true);
    assert_eq!(ctx.list_items, vec![Ok("b"), Ok("c")]);
    assert_eq!(ctx.announcement, "Removed item from position 2. 2 items remaining");
    ctx.item_keydown(0, ItemKey::End, true);
    assert_eq!(ctx.focused_index, Some(1));
    ctx.item_keydown(0, ItemKey::Home, true);
    assert_eq!(ctx.focused_index, Some(0));
    assert!(!ctx.item_keydown(0, ItemKey::Other, true));
}

#[test]
fn recycle_prefix_and_anchor() {
    let prefix = build_prefix_sums_adaptive(&[10, 20, 30], &[true, false, true], 15);
    assert_eq!(prefix, vec![0, 10, 25, 55]);
    assert_eq!(find_scroll_anchor(&prefix, 12), (1, 2));
    assert_eq!(find_scroll_anchor(&prefix, 1000), (2, 29));
    assert_eq!(find_scroll_anchor(&[0], 5), (0, 0));
    assert_eq!(estimate_unmeasured_height(&[10, 20, 30], &[true, false, true], 7), 20);
    assert_eq!(estimate_unmeasured_height(&[10, 20], &[false, false], 7), 7);
    assert_eq!(build_prefix_sums_adaptive(&[0, 5], &[true, false], 0), vec![0, 1, 2]);
}

#[test]
fn recycle_measurements_keep_anchor() {
    let mut pending: HashMap<usize, u32> = HashMap::new();
    pending.insert(0, 30);
    let (h, f, scroll) = apply_pending_measurements(&[10, 10, 10], &[false, false, false], &pending, 15, 10);
    assert_eq!(h, vec![30, 10, 10]);
    assert_eq!(f, vec![true, false, false]);
    assert_eq!(scroll, 35);
}

#[test]
fn recycle_pending_map_applies_every_entry() {
    let mut pending: HashMap<usize, u32> = HashMap::new();
    pending.insert(1, 20);
    pending.insert(9, 50);
    let (h, f, scroll) = apply_pending_measurements(&[10, 10, 10], &[false, false, false], &pending, 0, 10);
    assert_eq!(h, vec![10, 20, 10]);
    assert_eq!(f, vec![false, true, false]);
    assert_eq!(scroll, 0);
}

#[test]
fn recycle_render_window() {
    let prefix = vec![0, 10, 20, 30, 40, 50];
    let (start, end, offset) = render_window(&prefix, 5, 20, 15, 0, 10);
    assert_eq!((start, end, offset), (2, 4, 20));
    let (start, end, _) = render_window(&prefix, 5, 20, 15, 1, 10);
    assert_eq!((start, end), (1, 5));
    assert_eq!(render_window(&[0], 0, 0, 100, 2, 10), (0, 0, 0));
}

const YEAR: SegmentType = SegmentType { lo: i32::MIN as i64, hi: i32::MAX as i64, signed: true };
const SMALL: SegmentType = SegmentType { lo: 0, hi: 255, signed: false };

fn chars(s: &str) -> Vec<char> {
    s.chars().collect()
}

#[test]
fn segment_parsing() {
    assert_eq!(parse_segment(&chars("42"), SMALL), Some(42));
    assert_eq!(parse_segment(&chars("+7"), SMALL), Some(7));
    assert_eq!(parse_segment(&chars("256"), SMALL), None);
    assert_eq!(parse_segment(&chars("-1"), SMALL), None);
    assert_eq!(parse_segment(&chars("-12"), YEAR), Some(-12));
    assert_eq!(parse_segment(&chars("1a"), SMALL), None);
    assert_eq!(parse_segment(&chars(""), SMALL), None);
    assert_eq!(parse_segment(&chars("-"), YEAR), None);
    assert_eq!(parse_segment(&chars("99999999999999999999"), YEAR), None);
}

#[test]
fn segment_typing() {
    let out = segment_keydown(SegmentKey::Character("1".to_string()), false, false, false, &chars(""), true, None, 5, 1, 12, 2, SMALL);
    assert_eq!(out.change, Some(Some(1)));
    assert_eq!(out.focus, FocusMove::Stay);
    assert!(!out.reset);
    assert!(out.prevent_default);

    let out = segment_keydown(SegmentKey::Character("2".to_string()), false, false, false, &chars("1"), false, Some(1), 5, 1, 12, 2, SMALL);
    assert_eq!(out.change, Some(Some(12)));
    assert_eq!(out.focus, FocusMove::Next);

    let out = segment_keydown(SegmentKey::Character("4".to_string()), false, false, false, &chars(""), false, None, 5, 1, 12, 2, SMALL);
    assert_eq!(out.change, Some(Some(4)));
    assert_eq!(out.focus, FocusMove::Next);

    let out = segment_keydown(SegmentKey::Character("9".to_string()), false, false, false, &chars("12"), false, Some(12), 5, 1, 12, 2, SMALL);
    assert_eq!(out.change, Some(Some(9)));

    let out = segment_keydown(SegmentKey::Character("5".to_string()), false, false, false, &chars("3"), false, Some(3), 5, 1, 31, 2, SMALL);
    assert_eq!(out.change, Some(Some(31)));

    let out = segment_keydown(SegmentKey::Character("x".to_string()), false, false, false, &chars("3"), false, Some(3), 5, 1, 31, 2, SMALL);
    assert_eq!(out.change, None);
    assert!(out.prevent_default);

    let out = segment_keydown(SegmentKey::Character("1".to_string()), true, false, false, &chars("3"), false, Some(3), 5, 1, 31, 2, SMALL);
    assert_eq!(out.change, None);
    assert!(!out.prevent_default);
}

#[test]
fn segment_editing_and_stepping() {
    let out = segment_keydown(SegmentKey::Backspace, false, false, false, &chars("1"), false, Some(1), 5, 1, 12, 2, SMALL);
    assert_eq!(out.change, Some(None));
    assert_eq!(out.focus, FocusMove::Prev);
    let out = segment_keydown(SegmentKey::Backspace, false, false, false, &chars("12"), false, Some(12), 5, 1, 12, 2, SMALL);
    assert_eq!(out.change, Some(Some(1)));
    let out = segment_keydown(SegmentKey::Delete, false, false, false, &chars("12"), false, Some(12), 5, 1, 12, 2, SMALL);
    assert_eq!(out.change, Some(Some(2)));
    let out = segment_keydown(SegmentKey::ArrowUp, false, false, false, &chars("12"), false, Some(12), 5, 1, 12, 2, SMALL);
    assert_eq!(out.change, Some(Some(1)));
    let out = segment_keydown(SegmentKey::ArrowDown, false, false, false, &chars("1"), false, Some(1), 5, 1, 12, 2, SMALL);
    assert_eq!(out.change, Some(Some(12)));
    let out = segment_keydown(SegmentKey::ArrowUp, false, false, false, &chars(""), false, None, 5, 1, 12, 2, SMALL);
    assert_eq!(out.change, Some(Some(5)));
    let out = segment_keydown(SegmentKey::Enter, false, false, false, &chars(""), false, None, 5, 1, 12, 2, SMALL);
    assert_eq!(out.focus, FocusMove::Next);
    assert!(out.prevent_default);
    let out = segment_keydown(SegmentKey::ArrowLeft, false, false, false, &chars(""), false, None, 5, 1, 12, 2, SMALL);
    assert_eq!(out.focus, FocusMove::Prev);
}

#[test]
fn segment_display_and_bounds() {
    assert_eq!(segment_display(Some(7), "M", 2), "07");
    assert_eq!(segment_display(Some(2024), "Y", 4), "2024");
    assert_eq!(segment_display(Some(-5), "Y", 4), "00-5");
    assert_eq!(segment_display(None, "D", 2), "DD");
    assert_eq!(blurred_clamp(false, Some(40), 1, 31), Some(31));
    assert_eq!(blurred_clamp(false, Some(0), 1, 31), Some(1));
    assert_eq!(blurred_clamp(false, Some(5), 1, 31), None);
    assert_eq!(blurred_clamp(true, Some(40), 1, 31), None);

    let lo = CalendarDate { year: 2020, month: 3, day: 10 };
    let hi = CalendarDate { year: 2024, month: 2, day: 20 };
    let b = date_element_bounds(Some(2020), Some(3), lo, hi);
    assert_eq!((b.min_year, b.max_year, b.min_month, b.max_month, b.min_day, b.max_day), (2020, 2024, 3, 12, 10, 31));
    let b = date_element_bounds(Some(2024), Some(2), lo, hi);
    assert_eq!((b.min_month, b.max_month, b.min_day, b.max_day), (1, 2, 1, 20));
    let b = date_element_bounds(Some(2023), Some(2), lo, hi);
    assert_eq!(b.max_day, 28);
    let b = date_element_bounds(None, None, lo, hi);
    assert_eq!((b.min_month, b.max_month, b.min_day, b.max_day), (1, 12, 1, 31));

    assert_eq!(entered_date(Some(2022), Some(2), Some(28), lo, hi, &[]), Some(CalendarDate { year: 2022, month: 2, day: 28 }));
    assert_eq!(entered_date(Some(2022), Some(2), Some(29), lo, hi, &[]), None);
    assert_eq!(entered_date(Some(2019), Some(2), Some(28), lo, hi, &[]), None);
    assert_eq!(entered_date(Some(2022), None, Some(28), lo, hi, &[]), None);
    assert_eq!(entered_date(Some(2022), Some(13), Some(1), lo, hi, &[]), None);
    let holidays = [DateRange::new(CalendarDate { year: 2022, month: 3, day: 5 }, CalendarDate { year: 2022, month: 3, day: 1 })];
    assert_eq!(entered_date(Some(2022), Some(3), Some(3), lo, hi, &holidays), None);
    assert_eq!(entered_date(Some(2022), Some(3), Some(5), lo, hi, &holidays), None);
    assert_eq!(
        entered_date(Some(2022), Some(3), Some(6), lo, hi, &holidays),
        Some(CalendarDate { year: 2022, month: 3, day: 6 })
    );
}

#[test]
fn styling_texts() {
    assert_eq!(ContentSide::Bottom.as_str(), "bottom");
    assert_eq!(ContentAlign::Center.as_str(), "center");
    assert_eq!(CheckboxState::Indeterminate.to_aria_checked(), "mixed");
    assert_eq!(CheckboxState::Checked.to_data_state(), "checked");
    assert!(CheckboxState::Indeterminate.is_checked());
    assert!(!CheckboxState::Unchecked.is_checked());
    assert_eq!(CheckboxState::Unchecked.not(), CheckboxState::Checked);
    assert_eq!(CheckboxState::Indeterminate.not(), CheckboxState::Unchecked);
    assert!(bool::from(CheckboxState::Checked));
    assert!(bool::from(CheckboxState::Indeterminate));
    assert!(!bool::from(CheckboxState::Unchecked));
    assert_eq!(ViewBox::new(0, 0, 24, 24).to_string(), "0 0 24 24");
    assert_eq!(ViewBox::default(), ViewBox::new(0, 0, 24, 24));
    assert_eq!(ViewBox::new(5, 65535, 100, 7).to_string(), "5 65535 100 7");
    assert_eq!(LineCap::default().to_class(), "round");
    assert_eq!(LineJoin::MiterClip.to_class(), "miter-clip");
    assert!(ScrollDirection::default() == ScrollDirection::Both);
    assert!(ScrollType::default() == ScrollType::Auto);
    assert_eq!(usize_text(0), "0");
    assert_eq!(usize_text(1234567), "1234567");
}

#[test]
fn radio_keys_follow_layout() {
    let mut r = RadioGroupCtx::new("a".to_string(), true, true, false);
    r.register_item(0, "a".to_string());
    r.register_item(1, "b".to_string());
    r.set_focus(Some(0));
    assert_eq!(r.item_keydown(NavKey::ArrowRight), (false, None));
    assert_eq!(r.item_keydown(NavKey::ArrowDown), (true, Some("b".to_string())));
    assert_eq!(r.item_keydown(NavKey::ArrowUp), (true, None));
    assert_eq!(r.item_keydown(NavKey::End), (true, None));
    assert!(r.item_tab_stop(1, false));
    assert!(!r.item_tab_stop(0, false));
    assert!(r.item_tab_stop(0, true));
    assert!(r.is_checked("a"));
    assert!(!r.is_checked("b"));

    let mut h = RadioGroupCtx::new(String::new(), false, true, true);
    h.register_item(0, "x".to_string());
    assert!(h.item_tab_stop(0, false));
    h.set_focus(Some(0));
    assert_eq!(h.item_keydown(NavKey::ArrowRight), (true, Some("x".to_string())));
    assert_eq!(h.item_keydown(NavKey::ArrowDown), (false, None));

    let plain = RadioGroupCtx::new("a".to_string(), false, false, false);
    assert!(plain.item_tab_stop(5, false));
}

fn badge_props(count: u32, overflow_count: u32, dot: bool, show_zero: bool, color: &str) -> BadgeProps {
    BadgeProps { count, overflow_count, dot, show_zero, color: color.to_string() }
}

#[test]
fn badge_text_and_color() {
    let r = badge(&badge_props(5, u32::MAX, false, false, "00ff00"));
    assert_eq!(r.text, "5");
    assert!(!r.padding);
    assert_eq!(r.color, "00ff00");
    assert!(r.visible);
    let r = badge(&badge_props(120, 99, false, false, "zz"));
    assert_eq!(r.text, "99+");
    assert!(r.padding);
    assert_eq!(r.color, DEF_COLOR);
    let r = badge(&badge_props(0, 99, true, false, "+Ab"));
    assert_eq!(r.text, "");
    assert!(r.dot);
    assert!(!r.visible);
    assert_eq!(r.color, "+Ab");
    assert!(badge(&badge_props(0, 9, false, true, "1")).visible);
    assert_eq!(badge(&badge_props(1, 9, false, true, "")).color, DEF_COLOR);
    assert_eq!(badge(&badge_props(1, 9, false, true, "123456789")).color, DEF_COLOR);
    assert_eq!(badge(&badge_props(1, 9, false, true, "FFFFFFFF")).color, "FFFFFFFF");
    assert_eq!(badge(&badge_props(1, 9, false, true, "-1")).color, DEF_COLOR);
    assert_eq!(badge(&badge_props(1, 9, false, true, "+")).color, DEF_COLOR);
    assert_eq!(badge(&badge_props(1, 9, false, true, "12g")).color, DEF_COLOR);
    assert_eq!(badge(&badge_props(1, 9, false, true, "0000000FF")).color, "0000000FF");
}

#[test]
fn avatar_states() {
    let mut a = AvatarCtx::new();
    assert_eq!(a.state.as_str(), "empty");
    assert!(a.show_fallback());
    assert!(!a.show_default_fallback());
    a.image_mounted();
    assert_eq!(a.state, AvatarState::Loading);
    assert!(!a.show_fallback());
    assert!(a.show_image());
    assert_eq!(a.image_failed(), AvatarState::Error);
    assert!(!a.show_image());
    assert!(a.show_default_fallback());
    a.fallback_mounted();
    assert!(!a.show_default_fallback());
    assert_eq!(a.image_loaded(), AvatarState::Loaded);
    assert_eq!(a.state.as_str(), "loaded");
    assert!(!a.show_fallback());
    assert_eq!(AvatarState::Loading.as_str(), "loading");
    assert_eq!(AvatarState::Error.as_str(), "error");
}

#[test]
fn separator_attributes() {
    assert_eq!(separator_role(true), "none");
    assert_eq!(separator_role(false), "separator");
    assert_eq!(separator_orientation(true, false), Some("horizontal"));
    assert_eq!(separator_orientation(false, false), Some("vertical"));
    assert_eq!(separator_orientation(true, true), None);
}

#[test]
fn deferred_focus_waits_for_items() {
    let mut f = FocusState::new(false);
    let mut pending = Some(FocusPlacement::Last);
    f.use_deferred_focus(&mut pending, true);
    assert!(matches!(pending, Some(FocusPlacement::Last)));
    assert_eq!(f.current_focus(), None);
    f.add_update_item(0, false);
    f.add_update_item(1, false);
    f.use_deferred_focus(&mut pending, true);
    assert!(pending.is_none());
    assert_eq!(f.current_focus(), Some(1));
    let mut dropped = Some(FocusPlacement::First);
    f.use_deferred_focus(&mut dropped, false);
    assert!(dropped.is_none());
    assert_eq!(f.current_focus(), Some(1));
}

#[test]
fn recycle_row_and_container_attributes() {
    let row = row_attributes(4, 100);
    assert_eq!(row.role, "listitem");
    assert_eq!(row.recycle_index, "4");
    assert_eq!(row.set_size, "100");
    assert_eq!(row.pos_in_set, "5");
    let c = container_attributes(500, 800);
    assert_eq!((c.role, c.tabindex, c.class, c.canvas_height), ("list", "0", "recycle-list-container", 800));
    assert_eq!(container_attributes(900, 800).canvas_height, 900);
}

#[test]
fn recycle_measurements_recorded_or_buffered() {
    let mut heights = vec![20u32, 20, 20];
    let mut flags = vec![false, true, false];
    let mut pending: HashMap<usize, u32> = HashMap::new();
    record_measurement(&mut heights, &mut flags, &mut pending, 1, 99, false);
    assert_eq!((heights.clone(), flags.clone()), (vec![20, 20, 20], vec![false, true, false]));
    record_measurement(&mut heights, &mut flags, &mut pending, 0, 33, true);
    record_measurement(&mut heights, &mut flags, &mut pending, 2, 40, true);
    record_measurement(&mut heights, &mut flags, &mut pending, 0, 35, true);
    let mut entries: Vec<(usize, u32)> = pending.iter().map(|(&k, &v)| (k, v)).collect();
    entries.sort();
    assert_eq!(entries, vec![(0, 35), (2, 40)]);
    assert_eq!(heights, vec![20, 20, 20]);
    record_measurement(&mut heights, &mut flags, &mut pending, 2, 41, false);
    assert_eq!(heights, vec![20, 20, 41]);
    assert_eq!(flags, vec![false, true, true]);
    record_measurement(&mut heights, &mut flags, &mut pending, 9, 41, false);
    assert_eq!(heights.len(), 3);
}
