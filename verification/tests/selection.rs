use dioxus_primitives::combobox::{contains_text, default_combobox_filter, ComboKey, ComboboxContext};
use dioxus_primitives::select::{ListKey, SelectContext, TypeaheadTimer};
use dioxus_primitives::selectable::{matching_enabled_indices, toggle_value, SelectableContext, SelectionMode};
use dioxus_primitives::selection::{
    option_text_value, remove_option, selected_text, sync_option, OptionState, RcPartialEqValue,
};
use dioxus_primitives::text_search::AdaptiveKeyboard;

fn option(tab_index: usize, value: &str, text: &str, disabled: bool) -> OptionState {
    OptionState {
        tab_index,
        value: RcPartialEqValue::new(value),
        text_value: text.to_string(),
        id: value.to_string(),
        disabled,
    }
}

fn fruits() -> Vec<OptionState> {
    vec![
        option(0, "apple", "Apple", false),
        option(1, "banana", "Banana", false),
        option(2, "cherry", "Cherry", true),
        option(3, "date", "Date", false),
    ]
}

#[test]
fn selected_text_in_selection_order() {
    let options = fruits();
    let values = vec![RcPartialEqValue::new("date"), RcPartialEqValue::new("kiwi"), RcPartialEqValue::new("apple")];
    assert_eq!(selected_text(&values, &options), Some("Date, Apple".to_string()));
    assert_eq!(selected_text(&[RcPartialEqValue::new("kiwi")], &options), None);
    assert_eq!(selected_text(&[], &options), None);
}

#[test]
fn sync_and_remove_options() {
    let mut options = fruits();
    sync_option(&mut options, option(1, "banana", "Banana", false));
    assert_eq!(options.len(), 4);
    sync_option(&mut options, option(7, "banana", "Bananas", false));
    assert_eq!(options.len(), 4);
    assert_eq!(options[1].tab_index, 7);
    assert_eq!(options[1].text_value, "Bananas");
    sync_option(&mut options, option(9, "fig", "Fig", false));
    assert_eq!(options.len(), 5);
    assert_eq!(options[4].id, "fig");
    remove_option(&mut options, "banana");
    assert_eq!(options.len(), 4);
    assert!(options.iter().all(|o| o.id != "banana"));
    remove_option(&mut options, "missing");
    assert_eq!(options.len(), 4);
}

#[test]
fn option_text_values() {
    assert_eq!(option_text_value(Some("v"), Some("Text".to_string())), "Text");
    assert_eq!(option_text_value(Some("v"), None), "v");
    assert_eq!(option_text_value(None, None), "");
    let v = RcPartialEqValue::new("x");
    assert_eq!(v.as_ref().map(|s| s.as_str()), Some("x"));
    assert!(v.same_value(&RcPartialEqValue::new("x")));
    assert!(!v.same_value(&RcPartialEqValue::new("y")));
}

#[test]
fn matching_indices_sorted_without_duplicates() {
    let options = vec![
        option(5, "a", "A", false),
        option(2, "b", "B", false),
        option(5, "c", "C", false),
        option(1, "d", "D", true),
        option(3, "e", "E", false),
    ];
    assert_eq!(matching_enabled_indices(&options, &[true, true, true, true, false]), vec![2, 5]);
    assert_eq!(matching_enabled_indices(&options, &[true; 5]), vec![2, 3, 5]);
    assert_eq!(matching_enabled_indices(&options, &[false; 5]), Vec::<usize>::new());
}

fn context(mode: SelectionMode) -> SelectableContext {
    let mut ctx = SelectableContext::new(mode, false, true);
    for o in fruits() {
        ctx.focus_state.add_update_item(o.tab_index, o.disabled);
        ctx.options.push(o);
    }
    ctx
}

#[test]
fn selectable_focus_and_select() {
    let mut ctx = context(SelectionMode::Single);
    let all = [true; 4];
    ctx.focus_first_where(&all);
    assert_eq!(ctx.focus_state.current_focus(), Some(0));
    ctx.focus_next_where(&all);
    assert_eq!(ctx.focus_state.current_focus(), Some(1));
    ctx.focus_next_where(&all);
    assert_eq!(ctx.focus_state.current_focus(), Some(3));
    ctx.focus_next_where(&all);
    assert_eq!(ctx.focus_state.current_focus(), Some(0));
    ctx.focus_prev_where(&all);
    assert_eq!(ctx.focus_state.current_focus(), Some(3));
    ctx.focus_last_where(&[true, true, true, false]);
    assert_eq!(ctx.focus_state.current_focus(), Some(1));
    assert_eq!(ctx.focused_option_id(), Some("banana".to_string()));
    assert_eq!(ctx.first_matching_enabled_index(&[false, true, true, true]), Some(1));
    assert_eq!(ctx.last_matching_enabled_index(&[true, true, true, false]), Some(1));

    assert!(ctx.select_focused().is_none());
    ctx.set_open(true);
    let v = ctx.select_focused().unwrap();
    assert!(v.same_value(&RcPartialEqValue::new("banana")));
    assert!(!ctx.open);

    let mut multi = context(SelectionMode::Multiple);
    multi.toggle_open();
    multi.focus_state.set_focus(Some(0));
    assert!(multi.select_focused().is_some());
    assert!(multi.open);
    assert!(multi.is_empty());
    multi.values.push(RcPartialEqValue::new("apple"));
    assert!(multi.is_selected(&RcPartialEqValue::new("apple")));
    assert!(!multi.is_selected(&RcPartialEqValue::new("date")));
    assert_eq!(multi.selected_text(), Some("Apple".to_string()));
}

#[test]
fn filter_matches_case_insensitively() {
    assert!(default_combobox_filter("  AP ", "Apple"));
    assert!(default_combobox_filter("", "Apple"));
    assert!(default_combobox_filter("   ", "Apple"));
    assert!(!default_combobox_filter("xyz", "Apple"));
    assert!(default_combobox_filter("nan", "BaNaNa"));
    assert!(contains_text("banana", "nan"));
    assert!(!contains_text("ban", "bank"));
    assert!(contains_text("abc", ""));
}

#[test]
fn combobox_input_flow() {
    let mut cb = ComboboxContext { selectable: context(SelectionMode::Single), query: String::new() };
    let all = [true; 4];
    cb.selectable.values.push(RcPartialEqValue::new("apple"));
    assert_eq!(cb.display_value(), "Apple");
    cb.on_input("Applex");
    assert_eq!(cb.query, "x");
    assert!(cb.selectable.open);
    assert_eq!(cb.display_value(), "x");
    let (handled, v) = cb.on_keydown(ComboKey::ArrowDown, &all, &all);
    assert!(handled && v.is_none());
    assert_eq!(cb.selectable.focus_state.current_focus(), Some(0));
    assert_eq!(cb.active_descendant(&all), Some("apple".to_string()));
    assert!(cb.is_visible(0, &all));
    assert!(!cb.is_visible(9, &all));
    assert!(cb.has_visible_options(&[false, false, true, false]));
    assert!(!cb.has_visible_options(&[false; 4]));
    let (handled, v) = cb.on_keydown(ComboKey::Enter, &all, &all);
    assert!(handled);
    assert!(v.unwrap().same_value(&RcPartialEqValue::new("apple")));
    assert!(!cb.selectable.open);
    let (handled, _) = cb.on_keydown(ComboKey::Home, &all, &all);
    assert!(!handled);
    let (handled, _) = cb.on_keydown(ComboKey::ArrowUp, &all, &all);
    assert!(handled);
    assert!(cb.selectable.open);
    assert_eq!(cb.selectable.initial_focus, Some(3));
    let (handled, _) = cb.on_keydown(ComboKey::Escape, &all, &all);
    assert!(handled && !cb.selectable.open);
    cb.on_click();
    assert!(cb.selectable.open);
    assert_eq!(cb.query, "");
    cb.on_blur();
    assert!(!cb.selectable.open);
}

#[test]
fn select_list_keys() {
    let mut sel = SelectContext {
        selectable: context(SelectionMode::Single),
        adaptive_keyboard: AdaptiveKeyboard::new(),
        typeahead_buffer: String::new(),
    };
    sel.set_open(true);
    let out = sel.list_keydown(ListKey::Character("B".to_string()), "KeyB");
    assert!(out.search && !out.handled);
    assert_eq!(sel.typeahead_buffer, "B");
    assert_eq!(sel.adaptive_keyboard.mapping("KeyB"), Some('b'));
    let out = sel.list_keydown(ListKey::ArrowDown, "ArrowDown");
    assert!(out.handled);
    assert_eq!(sel.typeahead_buffer, "");
    assert_eq!(sel.selectable.focus_state.current_focus(), Some(0));
    sel.selectable.focus_state.set_focus(Some(3));
    let out = sel.list_keydown(ListKey::Character(" ".to_string()), "Space");
    assert!(out.handled);
    assert!(out.selected.unwrap().same_value(&RcPartialEqValue::new("date")));
    assert!(!sel.selectable.open);
    assert!(!sel.multi());
    sel.set_open(true);
    let out = sel.list_keydown(ListKey::Escape, "Escape");
    assert!(out.handled && !sel.selectable.open);
}

#[test]
fn combobox_visible_navigation() {
    let mut cb = ComboboxContext { selectable: context(SelectionMode::Single), query: "an".to_string() };
    let visible = cb.predicate();
    assert_eq!(visible, vec![false, true, false, false]);
    assert_eq!(cb.predicate_for("a"), vec![true, true, false, true]);
    assert_eq!(cb.predicate_for(" "), vec![true, true, true, true]);
    let for_e = cb.predicate_for("E");
    assert_eq!(cb.first_visible_enabled_index_for_query(&for_e), Some(0));
    assert_eq!(cb.last_visible_enabled_index_for_query(&for_e), Some(3));
    cb.focus_first_visible(&visible);
    assert_eq!(cb.selectable.focus_state.current_focus(), Some(1));
    assert_eq!(cb.focused_visible_option_id(&visible), Some("banana".to_string()));
    cb.focus_next_visible(&visible);
    assert_eq!(cb.selectable.focus_state.current_focus(), Some(1));
    cb.focus_last_visible(&for_e);
    assert_eq!(cb.selectable.focus_state.current_focus(), Some(3));
    cb.focus_prev_visible(&for_e);
    assert_eq!(cb.selectable.focus_state.current_focus(), Some(0));
    assert_eq!(cb.focused_visible_option_id(&visible), None);
    assert!(cb.select_focused(&for_e).is_none());
    cb.selectable.set_open(true);
    let chosen = cb.select_focused(&for_e).unwrap();
    assert!(chosen.same_value(&RcPartialEqValue::new("apple")));
    assert!(!cb.selectable.open);
}

#[test]
fn multi_select_toggles_values() {
    let v = |s: &str| RcPartialEqValue::new(s);
    let texts = |vs: &[RcPartialEqValue]| -> Vec<String> { vs.iter().map(|x| x.as_ref().unwrap().clone()).collect() };
    let start = vec![v("pepperoni"), v("olive"), v("pepperoni")];
    let added = toggle_value(&start, &v("mushroom"));
    assert_eq!(texts(&added), vec!["pepperoni", "olive", "pepperoni", "mushroom"]);
    let removed = toggle_value(&start, &v("pepperoni"));
    assert_eq!(texts(&removed), vec!["olive", "pepperoni"]);
    let back = toggle_value(&added, &v("mushroom"));
    assert_eq!(texts(&back), texts(&start));
    assert_eq!(texts(&toggle_value(&[], &v("x"))), vec!["x"]);
}

#[test]
fn typeahead_timer_only_newest_clears() {
    let mut t = TypeaheadTimer::new();
    let first = t.restart();
    let second = t.restart();
    assert!(!t.fire(first));
    assert!(t.fire(second));
    assert!(!t.fire(second));
    let third = t.restart();
    t.cancel();
    assert!(!t.fire(third));
}
