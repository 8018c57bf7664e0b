//! Which navigation menu is open and where focus goes in a navigation bar.
use vstd::prelude::*;
use crate::focus::{FocusState, FocusView, lookup_spec, next_index_spec, prev_index_spec, seq_first, seq_last};

verus! {

/// A key press in the navigation bar.
#[derive(Clone, Copy, PartialEq, Eq, Structural, Debug)]
pub enum NavbarKey {
    /// Escape.
    Escape,
    /// Left arrow.
    ArrowLeft,
    /// Right arrow.
    ArrowRight,
    /// Up arrow.
    ArrowUp,
    /// Down arrow.
    ArrowDown,
    /// Home.
    Home,
    /// End.
    End,
    /// Enter.
    Enter,
    /// The space bar.
    Space,
    /// Any other key.
    Other,
}

/// Where a navigation menu's content opens from, relative to the open menu.
#[derive(Clone, Copy, PartialEq, Eq, Structural, Debug)]
pub enum OpenDirection {
    /// The open menu lies after this one.
    Start,
    /// The open menu lies before this one.
    End,
    /// This menu is open.
    Open,
    /// No menu is open.
    Closed,
}

/// Shared state of a navigation bar: the open menu and roving focus over the menus.
pub struct NavbarContext {
    /// The index of the open menu.
    pub open_nav: Option<usize>,
    /// Whether the bar is disabled.
    pub disabled: bool,
    /// Roving focus over the menus.
    pub focus: FocusState,
}

/// State of one navigation menu: its index and roving focus over its items.
pub struct NavbarNavContext {
    /// The menu's index in the bar.
    pub index: usize,
    /// Roving focus over the menu's items.
    pub focus: FocusState,
    /// Whether the menu is disabled.
    pub disabled: bool,
}

/// The focused index moved by a bar key: left and right step, Home and End jump.
pub open spec fn bar_move(f: FocusView, key: NavbarKey) -> Option<usize> {
    match key {
        NavbarKey::ArrowLeft => prev_index_spec(f.enabled(), f.recent_focus, f.roving_loop),
        NavbarKey::ArrowRight => next_index_spec(f.enabled(), f.recent_focus, f.roving_loop),
        NavbarKey::Home => seq_first(f.enabled()),
        _ => seq_last(f.enabled()),
    }
}

impl NavbarContext {
    /// A bar with no open menu and no focus.
    pub fn new(disabled: bool, roving_loop: bool) -> (r: NavbarContext)
        ensures
            r.open_nav is None,
            r.disabled == disabled,
            r.focus@ == (FocusView { roving_loop, recent_focus: None, current_focus: None, items: Seq::empty() }),
            r.focus@.wf(),
    {
        NavbarContext { open_nav: None, disabled, focus: FocusState::new(roving_loop) }
    }

    /// While a menu is open, the open menu follows the focused menu.
    pub fn sync_open_nav(&mut self)
        ensures
            final(self).open_nav == if old(self).open_nav is Some {
                old(self).focus@.current_focus
            } else {
                None
            },
            final(self).focus == old(self).focus,
            final(self).disabled == old(self).disabled,
    {
        if self.open_nav.is_some() {
            self.open_nav = self.focus.current_focus();
        }
    }

    /// The bar received focus: the most recently focused enabled menu (else the first
    /// enabled one, else the first) takes it.
    pub fn on_focus(&mut self)
        requires
            old(self).focus@.wf(),
        ensures
            final(self).focus@ == old(self).focus@.with_focus(
                Some(
                    match old(self).focus@.recent_focus {
                        Some(i) if lookup_spec(old(self).focus@.items, i) == Some(false) => i,
                        _ => match seq_first(old(self).focus@.enabled()) {
                            Some(f) => f,
                            None => 0,
                        },
                    },
                ),
            ),
            final(self).open_nav == old(self).open_nav,
            final(self).disabled == old(self).disabled,
    {
        let target = self.focus.recent_focus_or_default();
        self.focus.set_focus(Some(target));
    }

    /// A key press on the bar: Escape closes the open menu; left, right, Home and End
    /// move focus among the menus. Returns whether the key was handled.
    pub fn on_keydown(&mut self, key: NavbarKey) -> (r: bool)
        ensures
            r == (key == NavbarKey::Escape || key == NavbarKey::ArrowLeft || key == NavbarKey::ArrowRight
                || key == NavbarKey::Home || key == NavbarKey::End),
            key == NavbarKey::Escape ==> final(self).open_nav is None && final(self).focus == old(self).focus,
            (r && key != NavbarKey::Escape) ==> final(self).open_nav == old(self).open_nav
                && final(self).focus@ == old(self).focus@.with_focus(bar_move(old(self).focus@, key)),
            !r ==> final(self).open_nav == old(self).open_nav && final(self).focus == old(self).focus,
            final(self).disabled == old(self).disabled,
    {
        match key {
            NavbarKey::Escape => {
                self.open_nav = None;
                true
            },
            NavbarKey::ArrowLeft => {
                self.focus.focus_prev();
                true
            },
            NavbarKey::ArrowRight => {
                self.focus.focus_next();
                true
            },
            NavbarKey::Home => {
                self.focus.focus_first();
                true
            },
            NavbarKey::End => {
                self.focus.focus_last();
                true
            },
            _ => false,
        }
    }

    /// Whether the menu `index` is open.
    pub fn is_open(&self, index: usize) -> (r: bool)
        ensures
            r == (self.open_nav == Some(index)),
    {
        match self.open_nav {
            Some(i) => i == index,
            None => false,
        }
    }

    /// Where the content of menu `index` opens from.
    pub fn open_direction(&self, index: usize) -> (r: OpenDirection)
        ensures
            r == match self.open_nav {
                Some(o) => if o > index {
                    OpenDirection::Start
                } else if o < index {
                    OpenDirection::End
                } else {
                    OpenDirection::Open
                },
                None => OpenDirection::Closed,
            },
    {
        match self.open_nav {
            Some(o) => if o > index {
                OpenDirection::Start
            } else if o < index {
                OpenDirection::End
            } else {
                OpenDirection::Open
            },
            None => OpenDirection::Closed,
        }
    }

    /// The pointer entered menu `nav`: unless disabled, it takes focus when a menu is
    /// open, and opens otherwise.
    pub fn nav_mouse_enter(&mut self, nav: &NavbarNavContext)
        ensures
            (old(self).disabled || nav.disabled) ==> final(self).open_nav == old(self).open_nav && final(self).focus
                == old(self).focus,
            !(old(self).disabled || nav.disabled) && old(self).open_nav is Some ==> final(self).open_nav
                == old(self).open_nav && final(self).focus@ == old(self).focus@.with_focus(Some(nav.index)),
            !(old(self).disabled || nav.disabled) && old(self).open_nav is None ==> final(self).open_nav
                == Some(nav.index) && final(self).focus == old(self).focus,
            final(self).disabled == old(self).disabled,
    {
        if self.disabled || nav.disabled {
            return;
        }
        if self.open_nav.is_some() {
            self.focus.set_focus(Some(nav.index));
        } else {
            self.open_nav = Some(nav.index);
        }
    }

    /// The pointer left menu `nav`: an open menu gives up the bar's focus.
    pub fn nav_mouse_leave(&mut self, nav: &NavbarNavContext)
        ensures
            final(self).open_nav == old(self).open_nav,
            final(self).focus@ == if old(self).open_nav == Some(nav.index) {
                old(self).focus@.with_focus(None)
            } else {
                old(self).focus@
            },
            final(self).disabled == old(self).disabled,
    {
        if self.is_open(nav.index) {
            self.focus.set_focus(None);
        }
    }

    /// A key press on menu `nav`: Enter toggles it, the down arrow opens it or moves to
    /// its next item, the up arrow moves to its previous item. Returns whether the key was
    /// handled.
    pub fn nav_keydown(&mut self, nav: &mut NavbarNavContext, key: NavbarKey) -> (r: bool)
        ensures
            ({
                let disabled = old(self).disabled || old(nav).disabled;
                let open = old(self).open_nav == Some(old(nav).index);
                let g = old(nav).focus@;
                &&& r == (!disabled && (key == NavbarKey::Enter || key == NavbarKey::ArrowDown || key
                    == NavbarKey::ArrowUp))
                &&& final(self).open_nav == if r && key == NavbarKey::Enter {
                    if open {
                        None
                    } else {
                        Some(old(nav).index)
                    }
                } else if r && key == NavbarKey::ArrowDown && !open {
                    Some(old(nav).index)
                } else {
                    old(self).open_nav
                }
                &&& final(nav).focus@ == if r && key == NavbarKey::ArrowDown && open {
                    g.with_focus(next_index_spec(g.enabled(), g.recent_focus, g.roving_loop))
                } else if r && key == NavbarKey::ArrowUp && open {
                    g.with_focus(prev_index_spec(g.enabled(), g.recent_focus, g.roving_loop))
                } else {
                    g
                }
            }),
            final(self).focus == old(self).focus,
            final(self).disabled == old(self).disabled,
            final(nav).index == old(nav).index,
            final(nav).disabled == old(nav).disabled,
    {
        if self.disabled || nav.disabled {
            return false;
        }
        let open = self.is_open(nav.index);
        match key {
            NavbarKey::Enter => {
                self.open_nav = if open {
                    None
                } else {
                    Some(nav.index)
                };
                true
            },
            NavbarKey::ArrowDown => {
                if open {
                    nav.focus.focus_next();
                } else {
                    self.open_nav = Some(nav.index);
                }
                true
            },
            NavbarKey::ArrowUp => {
                if open {
                    nav.focus.focus_prev();
                }
                true
            },
            _ => false,
        }
    }

    /// A pointer press on the trigger of menu `nav`: unless disabled, it toggles the menu.
    pub fn trigger_pointer_down(&mut self, nav: &NavbarNavContext)
        ensures
            final(self).open_nav == if old(self).disabled || nav.disabled {
                old(self).open_nav
            } else if old(self).open_nav == Some(nav.index) {
                None
            } else {
                Some(nav.index)
            },
            final(self).focus == old(self).focus,
            final(self).disabled == old(self).disabled,
    {
        if self.disabled || nav.disabled {
            return;
        }
        self.open_nav = if self.is_open(nav.index) {
            None
        } else {
            Some(nav.index)
        };
    }

    /// Whether the trigger of menu `nav` holds focus: the bar focuses the menu and none of
    /// its items is focused.
    pub fn trigger_focused(&self, nav: &NavbarNavContext) -> (r: bool)
        ensures
            r == (self.focus@.current_focus == Some(nav.index) && nav.focus@.current_focus is None),
    {
        self.focus.is_focused(nav.index) && !nav.focus.any_focused()
    }

    /// The trigger of menu `nav` lost focus: when it held focus, the bar loses focus and
    /// the menu closes.
    pub fn trigger_blur(&mut self, nav: &NavbarNavContext)
        ensures
            ({
                let held = old(self).focus@.current_focus == Some(nav.index) && nav.focus@.current_focus is None;
                &&& final(self).open_nav == if held {
                    None
                } else {
                    old(self).open_nav
                }
                &&& final(self).focus@ == if held {
                    old(self).focus@.with_focus(None)
                } else {
                    old(self).focus@
                }
            }),
            final(self).disabled == old(self).disabled,
    {
        if self.trigger_focused(nav) {
            self.focus.set_focus(None);
            self.open_nav = None;
        }
    }

    /// Whether the item `index` holds focus: within an open menu, that menu focuses it;
    /// directly in the bar, the bar focuses it.
    pub fn item_focused(&self, nav: Option<&NavbarNavContext>, index: usize) -> (r: bool)
        ensures
            r == match nav {
                Some(n) => n.focus@.current_focus == Some(index) && self.open_nav == Some(n.index),
                None => self.focus@.current_focus == Some(index),
            },
    {
        match nav {
            Some(n) => n.focus.is_focused(index) && self.is_open(n.index),
            None => self.focus.is_focused(index),
        }
    }

    /// Whether the item `index` is reached by Tab: it holds focus, or, directly in the bar,
    /// it was focused last.
    pub fn item_tab_stop(&self, nav: Option<&NavbarNavContext>, index: usize) -> (r: bool)
        ensures
            r == (match nav {
                Some(n) => n.focus@.current_focus == Some(index) && self.open_nav == Some(n.index),
                None => self.focus@.current_focus == Some(index),
            } || (nav is None && self.focus@.recent_focus == Some(index))),
    {
        self.item_focused(nav, index) || (nav.is_none() && self.focus.recent_focus() == Some(index))
    }

    /// Enter or space on the item `index`: unless disabled, the item is chosen (its
    /// callback is due and it is navigated to) and the open menu closes. Returns whether
    /// the key was handled and whether the item was chosen.
    pub fn item_keydown(&mut self, item_disabled: bool, key: NavbarKey) -> (r: (bool, bool))
        ensures
            r.0 == (key == NavbarKey::Enter || key == NavbarKey::Space),
            r.1 == (r.0 && !(old(self).disabled || item_disabled)),
            final(self).open_nav == if r.1 {
                None
            } else {
                old(self).open_nav
            },
            final(self).focus == old(self).focus,
            final(self).disabled == old(self).disabled,
    {
        if !(key == NavbarKey::Enter || key == NavbarKey::Space) {
            return (false, false);
        }
        if self.disabled || item_disabled {
            return (true, false);
        }
        self.open_nav = None;
        (true, true)
    }

    /// A click on an item: unless disabled, it is chosen and the open menu closes. Returns
    /// whether it was chosen.
    pub fn item_click(&mut self, item_disabled: bool) -> (r: bool)
        ensures
            r == !(old(self).disabled || item_disabled),
            final(self).open_nav == if r {
                None
            } else {
                old(self).open_nav
            },
            final(self).focus == old(self).focus,
            final(self).disabled == old(self).disabled,
    {
        if self.disabled || item_disabled {
            return false;
        }
        self.open_nav = None;
        true
    }

    /// An item directly in the bar lost focus: when it held focus, the bar's focus and
    /// the open menu are cleared.
    pub fn item_blur(&mut self, index: usize)
        ensures
            ({
                let held = old(self).focus@.current_focus == Some(index);
                &&& final(self).open_nav == if held {
                    None
                } else {
                    old(self).open_nav
                }
                &&& final(self).focus@ == if held {
                    old(self).focus@.with_focus(None)
                } else {
                    old(self).focus@
                }
            }),
            final(self).disabled == old(self).disabled,
    {
        if self.focus.is_focused(index) {
            self.focus.set_focus(None);
            self.open_nav = None;
        }
    }

    /// An item of menu `nav` lost focus: when it held focus, the menu's focus, the bar's
    /// focus and the open menu are all cleared.
    pub fn nav_item_blur(&mut self, nav: &mut NavbarNavContext, index: usize)
        ensures
            ({
                let held = old(nav).focus@.current_focus == Some(index) && old(self).open_nav == Some(
                    old(nav).index,
                );
                &&& final(self).open_nav == if held {
                    None
                } else {
                    old(self).open_nav
                }
                &&& final(self).focus@ == if held {
                    old(self).focus@.with_focus(None)
                } else {
                    old(self).focus@
                }
                &&& final(nav).focus@ == if held {
                    old(nav).focus@.with_focus(None)
                } else {
                    old(nav).focus@
                }
            }),
            final(self).disabled == old(self).disabled,
            final(nav).index == old(nav).index,
            final(nav).disabled == old(nav).disabled,
    {
        if nav.focus.is_focused(index) && self.is_open(nav.index) {
            nav.focus.blur();
            self.focus.set_focus(None);
            self.open_nav = None;
        }
    }
}

impl NavbarNavContext {
    /// A menu at `index` with no focused item.
    pub fn new(index: usize, disabled: bool, roving_loop: bool) -> (r: NavbarNavContext)
        ensures
            r.index == index,
            r.disabled == disabled,
            r.focus@ == (FocusView { roving_loop, recent_focus: None, current_focus: None, items: Seq::empty() }),
            r.focus@.wf(),
    {
        NavbarNavContext { index, focus: FocusState::new(roving_loop), disabled }
    }

    /// A closed menu gives up its item focus.
    pub fn sync_open(&mut self, is_open: bool)
        ensures
            final(self).focus@ == if is_open {
                old(self).focus@
            } else {
                old(self).focus@.with_focus(None)
            },
            final(self).index == old(self).index,
            final(self).disabled == old(self).disabled,
    {
        if !is_open {
            self.focus.blur();
        }
    }
}

/// A menubar keeps the same state as a navigation bar: the open menu and roving focus
/// over the menus.
pub type MenubarContext = NavbarContext;

/// A menubar menu keeps the same state as a navigation menu.
pub type MenubarMenuContext = NavbarNavContext;

impl NavbarContext {
    /// A key press on menubar menu `menu`: Enter toggles it and Escape closes it; left,
    /// right, Home and End move focus along the bar; the down arrow opens the menu and
    /// moves to its next item; the up arrow moves to its previous item while open. Enter
    /// and the vertical arrows do nothing while disabled. Returns whether the key was
    /// handled.
    pub fn menubar_menu_keydown(&mut self, menu: &mut NavbarNavContext, key: NavbarKey) -> (r: bool)
        ensures
            ({
                let disabled = old(self).disabled || old(menu).disabled;
                let open = old(self).open_nav == Some(old(menu).index);
                let g = old(menu).focus@;
                let bar_key = key == NavbarKey::ArrowLeft || key == NavbarKey::ArrowRight || key
                    == NavbarKey::Home || key == NavbarKey::End;
                let menu_key = key == NavbarKey::Enter || key == NavbarKey::ArrowDown || key
                    == NavbarKey::ArrowUp;
                &&& r == (key == NavbarKey::Escape || bar_key || (menu_key && !disabled))
                &&& final(self).open_nav == if key == NavbarKey::Escape {
                    None
                } else if r && key == NavbarKey::Enter {
                    if open {
                        None
                    } else {
                        Some(old(menu).index)
                    }
                } else if r && key == NavbarKey::ArrowDown {
                    Some(old(menu).index)
                } else {
                    old(self).open_nav
                }
                &&& final(self).focus@ == if bar_key {
                    old(self).focus@.with_focus(bar_move(old(self).focus@, key))
                } else {
                    old(self).focus@
                }
                &&& final(menu).focus@ == if r && key == NavbarKey::ArrowDown {
                    g.with_focus(next_index_spec(g.enabled(), g.recent_focus, g.roving_loop))
                } else if r && key == NavbarKey::ArrowUp && open {
                    g.with_focus(prev_index_spec(g.enabled(), g.recent_focus, g.roving_loop))
                } else {
                    g
                }
            }),
            final(self).disabled == old(self).disabled,
            final(menu).index == old(menu).index,
            final(menu).disabled == old(menu).disabled,
    {
        let disabled = self.disabled || menu.disabled;
        let open = self.is_open(menu.index);
        let handled = match key {
            NavbarKey::Enter | NavbarKey::ArrowDown | NavbarKey::ArrowUp => !disabled,
            NavbarKey::Escape | NavbarKey::ArrowLeft | NavbarKey::ArrowRight | NavbarKey::Home
            | NavbarKey::End => true,
            _ => false,
        };
        if !handled {
            return false;
        }
        match key {
            NavbarKey::Enter => {
                self.open_nav = if open {
                    None
                } else {
                    Some(menu.index)
                };
            },
            NavbarKey::Escape => {
                self.open_nav = None;
            },
            NavbarKey::ArrowLeft => self.focus.focus_prev(),
            NavbarKey::ArrowRight => self.focus.focus_next(),
            NavbarKey::ArrowDown => {
                if !open {
                    self.open_nav = Some(menu.index);
                }
                menu.focus.focus_next();
            },
            NavbarKey::ArrowUp => {
                if open {
                    menu.focus.focus_prev();
                }
            },
            NavbarKey::Home => self.focus.focus_first(),
            _ => self.focus.focus_last(),
        }
        true
    }

    /// A pointer release on the trigger of menubar menu `menu`: unless disabled, the menu
    /// toggles and the bar focuses it.
    pub fn menubar_trigger_pointer_up(&mut self, menu: &NavbarNavContext)
        ensures
            final(self).open_nav == if old(self).disabled || menu.disabled {
                old(self).open_nav
            } else if old(self).open_nav == Some(menu.index) {
                None
            } else {
                Some(menu.index)
            },
            final(self).focus@ == if old(self).disabled || menu.disabled {
                old(self).focus@
            } else {
                old(self).focus@.with_focus(Some(menu.index))
            },
            final(self).disabled == old(self).disabled,
    {
        if self.disabled || menu.disabled {
            return;
        }
        self.open_nav = if self.is_open(menu.index) {
            None
        } else {
            Some(menu.index)
        };
        self.focus.set_focus(Some(menu.index));
    }

    /// The pointer entered the trigger of menubar menu `menu`: while some menu is open,
    /// the bar focuses this one.
    pub fn menubar_trigger_mouse_enter(&mut self, menu: &NavbarNavContext)
        ensures
            final(self).focus@ == if !(old(self).disabled || menu.disabled) && old(self).open_nav is Some {
                old(self).focus@.with_focus(Some(menu.index))
            } else {
                old(self).focus@
            },
            final(self).open_nav == old(self).open_nav,
            final(self).disabled == old(self).disabled,
    {
        if !(self.disabled || menu.disabled) && self.open_nav.is_some() {
            self.focus.set_focus(Some(menu.index));
        }
    }
}

} // verus!
