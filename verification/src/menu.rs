//! Open state and keyboard navigation of dropdown and context menus.
use vstd::prelude::*;
use crate::focus::{FocusState, FocusView, next_index_spec, prev_index_spec, seq_first, seq_last};

verus! {

/// A key press in a menu.
#[derive(Clone, Copy, PartialEq, Eq, Structural, Debug)]
pub enum MenuKey {
    /// Enter.
    Enter,
    /// The space bar.
    Space,
    /// Escape.
    Escape,
    /// Down arrow.
    ArrowDown,
    /// Up arrow.
    ArrowUp,
    /// Home.
    Home,
    /// End.
    End,
    /// Any other key.
    Other,
}

/// Shared state of a dropdown or context menu: whether it is open, whether it is
/// disabled, roving focus over its items, and (for a context menu) where it opened.
pub struct MenuContext {
    /// Whether the menu is open.
    pub open: bool,
    /// Whether the menu is disabled.
    pub disabled: bool,
    /// Roving focus over the items.
    pub focus: FocusState,
    /// Where a context menu was opened, in client coordinates.
    pub position: (i32, i32),
}

/// The focus a navigation key moves to: down and up step from the most recent focus (up
/// only while open), Home and End jump.
pub open spec fn menu_move(f: FocusView, key: MenuKey, open: bool) -> FocusView {
    match key {
        MenuKey::ArrowDown => f.with_focus(next_index_spec(f.enabled(), f.recent_focus, f.roving_loop)),
        MenuKey::ArrowUp => if open {
            f.with_focus(prev_index_spec(f.enabled(), f.recent_focus, f.roving_loop))
        } else {
            f
        },
        MenuKey::Home => f.with_focus(seq_first(f.enabled())),
        MenuKey::End => f.with_focus(seq_last(f.enabled())),
        _ => f,
    }
}

/// Whether a key moves focus among the items.
pub open spec fn is_move_key(key: MenuKey) -> bool {
    key == MenuKey::ArrowDown || key == MenuKey::ArrowUp || key == MenuKey::Home || key == MenuKey::End
}

impl MenuContext {
    /// A closed menu with no focused item.
    pub fn new(open: bool, disabled: bool, roving_loop: bool) -> (r: MenuContext)
        ensures
            r.open == open,
            r.disabled == disabled,
            r.position == (0i32, 0i32),
            r.focus@ == (FocusView { roving_loop, recent_focus: None, current_focus: None, items: Seq::empty() }),
            r.focus@.wf(),
    {
        MenuContext { open, disabled, focus: FocusState::new(roving_loop), position: (0, 0) }
    }

    /// The menu is open exactly while an item has focus: returns the new open state to
    /// report when it changes.
    pub fn sync_open_with_focus(&mut self) -> (r: Option<bool>)
        ensures
            ({
                let focused = old(self).focus@.current_focus is Some;
                &&& r == if old(self).open != focused {
                    Some(focused)
                } else {
                    None
                }
                &&& final(self).open == focused
            }),
            final(self).focus == old(self).focus,
            final(self).disabled == old(self).disabled,
            final(self).position == old(self).position,
    {
        let focused = self.focus.any_focused();
        if self.open != focused {
            self.open = focused;
            Some(focused)
        } else {
            None
        }
    }

    /// A key press on a dropdown menu: Enter toggles it, Escape closes it, the arrows,
    /// Home and End move focus. Nothing happens while disabled. Returns whether the key
    /// was handled.
    pub fn dropdown_keydown(&mut self, key: MenuKey) -> (r: bool)
        ensures
            r == (!old(self).disabled && (key == MenuKey::Enter || key == MenuKey::Escape || is_move_key(key))),
            final(self).open == if r && key == MenuKey::Enter {
                !old(self).open
            } else if r && key == MenuKey::Escape {
                false
            } else {
                old(self).open
            },
            final(self).focus@ == if r {
                menu_move(old(self).focus@, key, old(self).open)
            } else {
                old(self).focus@
            },
            final(self).disabled == old(self).disabled,
            final(self).position == old(self).position,
    {
        if self.disabled {
            return false;
        }
        match key {
            MenuKey::Enter => {
                self.open = !self.open;
            },
            MenuKey::Escape => {
                self.open = false;
            },
            MenuKey::ArrowDown => self.focus.focus_next(),
            MenuKey::ArrowUp => {
                if self.open {
                    self.focus.focus_prev();
                }
            },
            MenuKey::Home => self.focus.focus_first(),
            MenuKey::End => self.focus.focus_last(),
            _ => return false,
        }
        true
    }

    /// A click on a dropdown menu's trigger toggles the menu.
    pub fn dropdown_trigger_click(&mut self)
        ensures
            final(self).open == !old(self).open,
            final(self).focus == old(self).focus,
            final(self).disabled == old(self).disabled,
            final(self).position == old(self).position,
    {
        self.open = !self.open;
    }

    /// A trigger lost focus to something outside the items: focus is cleared.
    pub fn trigger_blur(&mut self)
        ensures
            final(self).focus@ == if old(self).focus@.current_focus is None {
                old(self).focus@.with_focus(None)
            } else {
                old(self).focus@
            },
            final(self).open == old(self).open,
            final(self).disabled == old(self).disabled,
            final(self).position == old(self).position,
    {
        if !self.focus.any_focused() {
            self.focus.blur();
        }
    }

    /// A right click at `(x, y)` on a context menu's trigger: unless disabled, the menu
    /// opens there. Returns whether it opened.
    pub fn context_trigger(&mut self, x: i32, y: i32) -> (r: bool)
        ensures
            r == !old(self).disabled,
            final(self).open == (old(self).open || r),
            final(self).position == if r {
                (x, y)
            } else {
                old(self).position
            },
            final(self).focus == old(self).focus,
            final(self).disabled == old(self).disabled,
    {
        if self.disabled {
            return false;
        }
        self.position = (x, y);
        self.open = true;
        true
    }

    /// Escape on an open context menu closes it and clears focus. Returns whether the key
    /// was handled.
    pub fn context_menu_keydown(&mut self, key: MenuKey) -> (r: bool)
        ensures
            r == (old(self).open && key == MenuKey::Escape),
            final(self).open == (old(self).open && !r),
            final(self).focus@ == if r {
                old(self).focus@.with_focus(None)
            } else {
                old(self).focus@
            },
            final(self).disabled == old(self).disabled,
            final(self).position == old(self).position,
    {
        if self.open && key == MenuKey::Escape {
            self.open = false;
            self.focus.blur();
            return true;
        }
        false
    }

    /// A key press on a context menu's content: Escape clears focus (which closes the
    /// menu), the arrows, Home and End move focus. Returns whether the key was handled.
    pub fn context_content_keydown(&mut self, key: MenuKey) -> (r: bool)
        ensures
            r == (key == MenuKey::Escape || is_move_key(key)),
            final(self).focus@ == if key == MenuKey::Escape {
                old(self).focus@.with_focus(None)
            } else if r {
                menu_move(old(self).focus@, key, old(self).open)
            } else {
                old(self).focus@
            },
            final(self).open == old(self).open,
            final(self).disabled == old(self).disabled,
            final(self).position == old(self).position,
    {
        match key {
            MenuKey::Escape => self.focus.blur(),
            MenuKey::ArrowDown => self.focus.focus_next(),
            MenuKey::ArrowUp => {
                if self.open {
                    self.focus.focus_prev();
                }
            },
            MenuKey::Home => self.focus.focus_first(),
            MenuKey::End => self.focus.focus_last(),
            _ => return false,
        }
        true
    }

    /// Enter or space on an item (or a click when `key` is `None`): unless the item or
    /// menu is disabled, the item is chosen and the dropdown closes. Returns whether the key
    /// was handled and whether the item was chosen.
    pub fn dropdown_item_activate(&mut self, item_disabled: bool, key: Option<MenuKey>) -> (r: (bool, bool))
        ensures
            r.0 == match key {
                Some(k) => k == MenuKey::Enter || k == MenuKey::Space,
                None => false,
            },
            r.1 == ((key is None || r.0) && !(old(self).disabled || item_disabled)),
            final(self).open == (old(self).open && !r.1),
            final(self).focus == old(self).focus,
            final(self).disabled == old(self).disabled,
            final(self).position == old(self).position,
    {
        let handled = match key {
            Some(k) => k == MenuKey::Enter || k == MenuKey::Space,
            None => false,
        };
        if key.is_some() && !handled {
            return (false, false);
        }
        if self.disabled || item_disabled {
            return (handled, false);
        }
        self.open = false;
        (handled, true)
    }

    /// Enter or space on a context menu item (or a click when `key` is `None`): unless
    /// disabled, the item is chosen and focus is cleared, which closes the menu. Returns
    /// whether the key was handled and whether the item was chosen.
    pub fn context_item_activate(&mut self, item_disabled: bool, key: Option<MenuKey>) -> (r: (bool, bool))
        ensures
            r.0 == match key {
                Some(k) => k == MenuKey::Enter || k == MenuKey::Space,
                None => false,
            },
            r.1 == ((key is None || r.0) && !(old(self).disabled || item_disabled)),
            final(self).focus@ == if r.1 {
                old(self).focus@.with_focus(None)
            } else {
                old(self).focus@
            },
            final(self).open == old(self).open,
            final(self).disabled == old(self).disabled,
            final(self).position == old(self).position,
    {
        let handled = match key {
            Some(k) => k == MenuKey::Enter || k == MenuKey::Space,
            None => false,
        };
        if key.is_some() && !handled {
            return (false, false);
        }
        if self.disabled || item_disabled {
            return (handled, false);
        }
        self.focus.blur();
        (handled, true)
    }

    /// An item lost focus: when it held focus, focus is cleared.
    pub fn item_blur(&mut self, index: usize)
        ensures
            final(self).focus@ == if old(self).focus@.current_focus == Some(index) {
                old(self).focus@.with_focus(None)
            } else {
                old(self).focus@
            },
            final(self).open == old(self).open,
            final(self).disabled == old(self).disabled,
            final(self).position == old(self).position,
    {
        if self.focus.is_focused(index) {
            self.focus.blur();
        }
    }
}

} // verus!
