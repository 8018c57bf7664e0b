use dioxus_primitives::menu::{MenuContext, MenuKey};
use dioxus_primitives::navbar::{NavbarContext, NavbarKey, NavbarNavContext, OpenDirection};

fn bar_with_menus(count: usize) -> NavbarContext {
    let mut bar = NavbarContext::new(false, true);
    for i in 0..count {
        bar.focus.add_update_item(i, false);
    }
    bar
}

fn menu_with_items(index: usize, count: usize) -> NavbarNavContext {
    let mut nav = NavbarNavContext::new(index, false, false);
    for i in 0..count {
        nav.focus.add_update_item(i, false);
    }
    nav
}

#[test]
fn navbar_bar_keys_move_between_menus() {
    let mut bar = bar_with_menus(3);
    bar.on_focus();
    assert_eq!(bar.focus.current_focus(), Some(0));
    assert!(bar.on_keydown(NavbarKey::ArrowRight));
    assert_eq!(bar.focus.current_focus(), Some(1));
    assert!(bar.on_keydown(NavbarKey::End));
    assert_eq!(bar.focus.current_focus(), Some(2));
    assert!(bar.on_keydown(NavbarKey::ArrowRight));
    assert_eq!(bar.focus.current_focus(), Some(0));
    assert!(bar.on_keydown(NavbarKey::ArrowLeft));
    assert_eq!(bar.focus.current_focus(), Some(2));
    assert!(bar.on_keydown(NavbarKey::Home));
    assert_eq!(bar.focus.current_focus(), Some(0));
    assert!(!bar.on_keydown(NavbarKey::Enter));
    assert_eq!(bar.focus.current_focus(), Some(0));
}

#[test]
fn navbar_menu_opens_and_directions() {
    let mut bar = bar_with_menus(3);
    let mut nav = menu_with_items(1, 2);
    assert_eq!(bar.open_direction(1), OpenDirection::Closed);
    assert!(bar.nav_keydown(&mut nav, NavbarKey::ArrowDown));
    assert_eq!(bar.open_nav, Some(1));
    assert!(bar.is_open(1));
    assert!(!bar.is_open(0));
    assert_eq!(bar.open_direction(0), OpenDirection::Start);
    assert_eq!(bar.open_direction(1), OpenDirection::Open);
    assert_eq!(bar.open_direction(2), OpenDirection::End);
    assert!(bar.nav_keydown(&mut nav, NavbarKey::ArrowDown));
    assert_eq!(nav.focus.current_focus(), Some(0));
    assert!(bar.nav_keydown(&mut nav, NavbarKey::ArrowDown));
    assert_eq!(nav.focus.current_focus(), Some(1));
    assert!(bar.nav_keydown(&mut nav, NavbarKey::ArrowUp));
    assert_eq!(nav.focus.current_focus(), Some(0));
    assert!(bar.item_focused(Some(&nav), 0));
    assert!(!bar.nav_keydown(&mut nav, NavbarKey::Home));
    assert!(bar.nav_keydown(&mut nav, NavbarKey::Enter));
    assert_eq!(bar.open_nav, None);
    assert!(!bar.item_focused(Some(&nav), 0));
    nav.sync_open(false);
    assert_eq!(nav.focus.current_focus(), None);
    assert!(bar.on_keydown(NavbarKey::Escape));
    assert_eq!(bar.open_nav, None);
}

#[test]
fn navbar_disabled_menu_ignores_input() {
    let mut bar = bar_with_menus(2);
    let mut nav = NavbarNavContext::new(0, true, false);
    assert!(!bar.nav_keydown(&mut nav, NavbarKey::Enter));
    bar.trigger_pointer_down(&nav);
    bar.nav_mouse_enter(&nav);
    assert_eq!(bar.open_nav, None);
    let mut disabled_bar = NavbarContext::new(true, false);
    assert_eq!(disabled_bar.item_keydown(false, NavbarKey::Enter), (true, false));
    assert_eq!(disabled_bar.item_keydown(false, NavbarKey::Other), (false, false));
    assert!(!disabled_bar.item_click(false));
}

#[test]
fn navbar_pointer_and_blur() {
    let mut bar = bar_with_menus(2);
    let nav0 = menu_with_items(0, 1);
    let nav1 = menu_with_items(1, 1);
    bar.trigger_pointer_down(&nav0);
    assert_eq!(bar.open_nav, Some(0));
    bar.nav_mouse_enter(&nav1);
    assert_eq!(bar.focus.current_focus(), Some(1));
    bar.sync_open_nav();
    assert_eq!(bar.open_nav, Some(1));
    assert!(bar.trigger_focused(&nav1));
    bar.trigger_blur(&nav1);
    assert_eq!(bar.open_nav, None);
    assert_eq!(bar.focus.current_focus(), None);
    bar.nav_mouse_enter(&nav0);
    assert_eq!(bar.open_nav, Some(0));
    bar.nav_mouse_leave(&nav0);
    assert_eq!(bar.focus.current_focus(), None);
    bar.trigger_pointer_down(&nav0);
    assert_eq!(bar.open_nav, None);
}

#[test]
fn navbar_items_choose_and_close() {
    let mut bar = bar_with_menus(2);
    bar.open_nav = Some(1);
    assert_eq!(bar.item_keydown(false, NavbarKey::Space), (true, true));
    assert_eq!(bar.open_nav, None);
    bar.open_nav = Some(1);
    assert_eq!(bar.item_keydown(true, NavbarKey::Enter), (true, false));
    assert_eq!(bar.open_nav, Some(1));
    assert!(bar.item_click(false));
    assert_eq!(bar.open_nav, None);

    bar.focus.set_focus(Some(1));
    assert!(bar.item_tab_stop(None, 1));
    bar.open_nav = Some(0);
    bar.item_blur(1);
    assert_eq!(bar.open_nav, None);
    assert_eq!(bar.focus.current_focus(), None);
    assert!(bar.item_tab_stop(None, 1));
    assert!(!bar.item_tab_stop(None, 0));

    let mut nav = menu_with_items(0, 2);
    nav.focus.set_focus(Some(1));
    bar.open_nav = Some(0);
    bar.focus.set_focus(Some(0));
    bar.nav_item_blur(&mut nav, 1);
    assert_eq!(bar.open_nav, None);
    assert_eq!(nav.focus.current_focus(), None);
    assert_eq!(bar.focus.current_focus(), None);
}

#[test]
fn menubar_keys() {
    let mut bar = bar_with_menus(3);
    let mut menu = menu_with_items(0, 2);
    bar.focus.set_focus(Some(0));
    assert!(bar.menubar_menu_keydown(&mut menu, NavbarKey::ArrowDown));
    assert_eq!(bar.open_nav, Some(0));
    assert!(bar.menubar_menu_keydown(&mut menu, NavbarKey::ArrowRight));
    assert_eq!(bar.focus.current_focus(), Some(1));
    assert!(bar.menubar_menu_keydown(&mut menu, NavbarKey::Escape));
    assert_eq!(bar.open_nav, None);
    assert!(bar.menubar_menu_keydown(&mut menu, NavbarKey::Enter));
    assert_eq!(bar.open_nav, Some(0));
    assert!(!bar.menubar_menu_keydown(&mut menu, NavbarKey::Other));
    bar.menubar_trigger_pointer_up(&menu);
    assert_eq!(bar.open_nav, None);
    assert_eq!(bar.focus.current_focus(), Some(0));
    let other = menu_with_items(2, 1);
    bar.menubar_trigger_mouse_enter(&other);
    assert_eq!(bar.focus.current_focus(), Some(0));
    bar.menubar_trigger_pointer_up(&other);
    assert_eq!(bar.open_nav, Some(2));
    bar.menubar_trigger_mouse_enter(&menu);
    assert_eq!(bar.focus.current_focus(), Some(0));
}

#[test]
fn dropdown_menu_keys() {
    let mut m = MenuContext::new(false, false, true);
    m.focus.add_update_item(0, false);
    m.focus.add_update_item(1, true);
    m.focus.add_update_item(2, false);
    assert!(m.dropdown_keydown(MenuKey::Enter));
    assert!(m.open);
    assert!(m.dropdown_keydown(MenuKey::ArrowDown));
    assert_eq!(m.focus.current_focus(), Some(0));
    assert!(m.dropdown_keydown(MenuKey::ArrowDown));
    assert_eq!(m.focus.current_focus(), Some(2));
    assert!(m.dropdown_keydown(MenuKey::ArrowDown));
    assert_eq!(m.focus.current_focus(), Some(0));
    assert!(m.dropdown_keydown(MenuKey::End));
    assert_eq!(m.focus.current_focus(), Some(2));
    assert!(m.dropdown_keydown(MenuKey::ArrowUp));
    assert_eq!(m.focus.current_focus(), Some(0));
    assert!(!m.dropdown_keydown(MenuKey::Other));
    assert!(m.dropdown_keydown(MenuKey::Escape));
    assert!(!m.open);
    assert_eq!(m.sync_open_with_focus(), Some(true));
    assert!(m.open);
    assert_eq!(m.sync_open_with_focus(), None);
    assert_eq!(m.dropdown_item_activate(false, Some(MenuKey::Enter)), (true, true));
    assert!(!m.open);
    m.dropdown_trigger_click();
    assert!(m.open);
    assert_eq!(m.dropdown_item_activate(true, None), (false, false));
    assert!(m.open);
    assert_eq!(m.dropdown_item_activate(false, Some(MenuKey::Other)), (false, false));

    let mut off = MenuContext::new(false, true, false);
    assert!(!off.dropdown_keydown(MenuKey::Enter));
    assert!(!off.open);
}

#[test]
fn context_menu_keys() {
    let mut m = MenuContext::new(false, false, false);
    m.focus.add_update_item(0, false);
    m.focus.add_update_item(1, false);
    assert!(m.context_trigger(10, -4));
    assert!(m.open);
    assert_eq!(m.position, (10, -4));
    assert!(m.context_content_keydown(MenuKey::Home));
    assert_eq!(m.focus.current_focus(), Some(0));
    assert!(m.context_content_keydown(MenuKey::ArrowDown));
    assert_eq!(m.focus.current_focus(), Some(1));
    assert!(m.context_content_keydown(MenuKey::ArrowDown));
    assert_eq!(m.focus.current_focus(), None);
    m.focus.set_focus(Some(1));
    m.item_blur(0);
    assert_eq!(m.focus.current_focus(), Some(1));
    m.item_blur(1);
    assert_eq!(m.focus.current_focus(), None);
    m.focus.set_focus(Some(0));
    assert_eq!(m.context_item_activate(false, None), (false, true));
    assert_eq!(m.focus.current_focus(), None);
    assert!(m.context_menu_keydown(MenuKey::Escape));
    assert!(!m.open);
    assert!(!m.context_menu_keydown(MenuKey::Escape));

    let mut off = MenuContext::new(false, true, false);
    assert!(!off.context_trigger(1, 1));
    assert!(!off.open);
    assert_eq!(off.position, (0, 0));
}
