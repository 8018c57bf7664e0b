//! Keyboard navigation and value changes of a radio group.
use vstd::prelude::*;
use std::collections::HashMap;
use crate::accordion::NavKey;

verus! {

broadcast use vstd::std_specs::hash::group_hash_axioms;

/// The abstract state of a [`RadioGroupCtx`].
pub struct RadioGroupView {
    /// The selected value.
    pub value: Seq<char>,
    /// The value of each registered item, by tab index.
    pub values: Map<usize, Seq<char>>,
    /// The most recently focused tab index.
    pub recent_focus: usize,
    /// The focused tab index.
    pub current_focus: Option<usize>,
    /// Whether moving past either end wraps around.
    pub roving_loop: bool,
    /// Whether only one item at a time is reached by Tab.
    pub roving_focus: bool,
    /// Whether the items are laid out horizontally.
    pub horizontal: bool,
}

/// The focus after moving forward from `current` among `count` items.
pub open spec fn next_focus_spec(current: usize, count: usize, roving_loop: bool) -> usize {
    let n = if current == usize::MAX {
        current
    } else {
        (current + 1) as usize
    };
    if n >= count {
        if roving_loop {
            0
        } else if count == 0 {
            0
        } else {
            (count - 1) as usize
        }
    } else {
        n
    }
}

/// The focus after moving back from `current` among `count` items.
pub open spec fn prev_focus_spec(current: usize, count: usize, roving_loop: bool) -> usize {
    if current == 0 && roving_loop {
        if count == 0 {
            0
        } else {
            (count - 1) as usize
        }
    } else if current == 0 {
        0
    } else {
        (current - 1) as usize
    }
}

/// Keyboard navigation state of a radio group.
pub struct RadioGroupCtx {
    value: String,
    values: HashMap<usize, String>,
    recent_focus: usize,
    current_focus: Option<usize>,
    roving_loop: bool,
    roving_focus: bool,
    horizontal: bool,
}

impl View for RadioGroupCtx {
    type V = RadioGroupView;

    closed spec fn view(&self) -> RadioGroupView {
        RadioGroupView {
            value: self.value@,
            values: self.values@.map_values(|s: String| s@),
            recent_focus: self.recent_focus,
            current_focus: self.current_focus,
            roving_loop: self.roving_loop,
            roving_focus: self.roving_focus,
            horizontal: self.horizontal,
        }
    }
}

impl RadioGroupView {
    /// The state after focusing `id` (or losing focus when `None`).
    pub open spec fn with_focus(self, id: Option<usize>) -> RadioGroupView {
        RadioGroupView {
            current_focus: id,
            recent_focus: match id {
                Some(i) => i,
                None => self.recent_focus,
            },
            ..self
        }
    }

    /// The value a move onto the focused item hands to the change callback: that item's
    /// value, unless it is the selected value already.
    pub open spec fn focused_change(self) -> Option<Seq<char>> {
        match self.current_focus {
            Some(f) => if self.values.contains_key(f) && self.values[f] != self.value {
                Some(self.values[f])
            } else {
                None
            },
            None => None,
        }
    }
}

/// A value as plain characters.
pub open spec fn text_of(s: Option<String>) -> Option<Seq<char>> {
    match s {
        Some(t) => Some(t@),
        None => None,
    }
}

impl RadioGroupCtx {
    /// A group with value `value`, no items and no focus.
    pub fn new(value: String, roving_loop: bool, roving_focus: bool, horizontal: bool) -> (r: RadioGroupCtx)
        ensures
            r@ == (RadioGroupView {
                value: value@,
                values: Map::empty(),
                recent_focus: 0,
                current_focus: None,
                roving_loop,
                roving_focus,
                horizontal,
            }),
    {
        let r = RadioGroupCtx {
            value,
            values: HashMap::new(),
            recent_focus: 0,
            current_focus: None,
            roving_loop,
            roving_focus,
            horizontal,
        };
        assert(r@.values =~= Map::<usize, Seq<char>>::empty());
        r
    }

    /// Registers the item with tab index `index` and value `value`.
    pub fn register_item(&mut self, index: usize, value: String)
        ensures
            final(self)@ == (RadioGroupView { values: old(self)@.values.insert(index, value@), ..old(self)@ }),
    {
        let ghost v = value@;
        self.values.insert(index, value);
        assert(self@.values =~= old(self)@.values.insert(index, v));
    }

    /// The selected value changed from outside.
    pub fn sync_value(&mut self, value: String)
        ensures
            final(self)@ == (RadioGroupView { value: value@, ..old(self)@ }),
    {
        self.value = value;
    }

    /// Focuses `id` (or records that focus left the group), remembering it as the most
    /// recent focus.
    pub fn set_focus(&mut self, id: Option<usize>)
        ensures
            final(self)@ == old(self)@.with_focus(id),
    {
        self.current_focus = id;
        if let Some(i) = id {
            self.recent_focus = i;
        }
    }

    /// The value to hand to the change callback when `value` is chosen: none when it is
    /// the selected value already.
    pub fn set_value(&self, value: String) -> (r: Option<String>)
        ensures
            text_of(r) == if value@ == self@.value {
                None
            } else {
                Some(value@)
            },
    {
        if self.value.eq(&value) {
            None
        } else {
            Some(value)
        }
    }

    /// The number of registered items.
    pub fn item_count(&self) -> (r: usize)
        ensures
            r == self@.values.len(),
    {
        assert(self@.values.dom() =~= self.values@.dom());
        self.values.len()
    }

    /// The value change for the focused item.
    pub fn select_focused_value(&self) -> (r: Option<String>)
        ensures
            text_of(r) == self@.focused_change(),
    {
        match self.current_focus {
            Some(f) => match self.values.get(&f) {
                Some(v) => {
                    let v = v.clone();
                    self.set_value(v)
                },
                None => None,
            },
            None => None,
        }
    }

    /// Moves focus to the next item (wrapping or stopping at the end) and returns the value
    /// change it causes; does nothing without focus.
    pub fn focus_next(&mut self) -> (r: Option<String>)
        ensures
            match old(self)@.current_focus {
                Some(c) => {
                    let n = next_focus_spec(c, old(self)@.values.len() as usize, old(self)@.roving_loop);
                    &&& final(self)@ == (RadioGroupView { current_focus: Some(n), ..old(self)@ })
                    &&& text_of(r) == final(self)@.focused_change()
                },
                None => final(self)@ == old(self)@ && r is None,
            },
    {
        match self.current_focus {
            Some(c) => {
                let mut n = if c == usize::MAX {
                    c
                } else {
                    c + 1
                };
                let count = self.item_count();
                if n >= count {
                    n = if self.roving_loop {
                        0
                    } else if count == 0 {
                        0
                    } else {
                        count - 1
                    };
                }
                self.current_focus = Some(n);
                self.select_focused_value()
            },
            None => None,
        }
    }

    /// Moves focus to the previous item (wrapping or stopping at the start) and returns the
    /// value change it causes; does nothing without focus.
    pub fn focus_prev(&mut self) -> (r: Option<String>)
        ensures
            match old(self)@.current_focus {
                Some(c) => {
                    let n = prev_focus_spec(c, old(self)@.values.len() as usize, old(self)@.roving_loop);
                    &&& final(self)@ == (RadioGroupView { current_focus: Some(n), ..old(self)@ })
                    &&& text_of(r) == final(self)@.focused_change()
                },
                None => final(self)@ == old(self)@ && r is None,
            },
    {
        match self.current_focus {
            Some(c) => {
                let count = self.item_count();
                let n = if c == 0 && self.roving_loop {
                    if count == 0 {
                        0
                    } else {
                        count - 1
                    }
                } else if c == 0 {
                    0
                } else {
                    c - 1
                };
                self.current_focus = Some(n);
                self.select_focused_value()
            },
            None => None,
        }
    }

    /// Focuses the first item.
    pub fn focus_start(&mut self)
        ensures
            final(self)@ == (RadioGroupView { current_focus: Some(0), ..old(self)@ }),
    {
        self.current_focus = Some(0);
    }

    /// Focuses the last item.
    pub fn focus_end(&mut self)
        ensures
            final(self)@ == (RadioGroupView {
                current_focus: Some(
                    if old(self)@.values.len() == 0 {
                        0
                    } else {
                        (old(self)@.values.len() - 1) as usize
                    },
                ),
                ..old(self)@
            }),
    {
        let count = self.item_count();
        let n = if count == 0 {
            0
        } else {
            count - 1
        };
        self.current_focus = Some(n);
    }
}

impl RadioGroupCtx {
    /// Whether the item `index` (checked or not) is reached by Tab: always without roving
    /// focus; else when checked, when focused, or, with nothing focused, when no value is
    /// selected.
    pub fn item_tab_stop(&self, index: usize, checked: bool) -> (r: bool)
        ensures
            r == (!self@.roving_focus || checked || self@.current_focus == Some(index) || (
            self@.current_focus is None && self@.value.len() == 0)),
    {
        if !self.roving_focus || checked {
            return true;
        }
        match self.current_focus {
            Some(f) => f == index,
            None => self.value.unicode_len() == 0,
        }
    }

    /// Whether the item with value `value` is checked.
    pub fn is_checked(&self, value: &str) -> (r: bool)
        ensures
            r == (self@.value == value@),
    {
        let v = value.to_owned();
        self.value.eq(&v)
    }

    /// A key press on an item: the arrows along the layout move focus (and select), Home
    /// and End focus the first and last item. Returns whether the key was handled and the
    /// value change to report.
    pub fn item_keydown(&mut self, key: NavKey) -> (r: (bool, Option<String>))
        ensures
            ({
                let h = old(self)@.horizontal;
                let back = (key == NavKey::ArrowUp && !h) || (key == NavKey::ArrowLeft && h);
                let forward = (key == NavKey::ArrowDown && !h) || (key == NavKey::ArrowRight && h);
                let n = old(self)@.values.len() as usize;
                &&& r.0 == (back || forward || key == NavKey::Home || key == NavKey::End)
                &&& (forward ==> match old(self)@.current_focus {
                    Some(c) => final(self)@ == (RadioGroupView {
                        current_focus: Some(next_focus_spec(c, n, old(self)@.roving_loop)),
                        ..old(self)@
                    }) && text_of(r.1) == final(self)@.focused_change(),
                    None => final(self)@ == old(self)@ && r.1 is None,
                })
                &&& (back ==> match old(self)@.current_focus {
                    Some(c) => final(self)@ == (RadioGroupView {
                        current_focus: Some(prev_focus_spec(c, n, old(self)@.roving_loop)),
                        ..old(self)@
                    }) && text_of(r.1) == final(self)@.focused_change(),
                    None => final(self)@ == old(self)@ && r.1 is None,
                })
                &&& (key == NavKey::Home ==> final(self)@ == (RadioGroupView { current_focus: Some(0), ..old(self)@ })
                    && r.1 is None)
                &&& (key == NavKey::End ==> final(self)@ == (RadioGroupView {
                    current_focus: Some(
                        if old(self)@.values.len() == 0 {
                            0
                        } else {
                            (old(self)@.values.len() - 1) as usize
                        },
                    ),
                    ..old(self)@
                }) && r.1 is None)
                &&& (!r.0 ==> final(self)@ == old(self)@ && r.1 is None)
            }),
    {
        let h = self.horizontal;
        let back = (key == NavKey::ArrowUp && !h) || (key == NavKey::ArrowLeft && h);
        let forward = (key == NavKey::ArrowDown && !h) || (key == NavKey::ArrowRight && h);
        if back {
            let c = self.focus_prev();
            return (true, c);
        }
        if forward {
            let c = self.focus_next();
            return (true, c);
        }
        match key {
            NavKey::Home => {
                self.focus_start();
                (true, None)
            },
            NavKey::End => {
                self.focus_end();
                (true, None)
            },
            _ => (false, None),
        }
    }
}

/// Moving forward and then back returns to the same item, except from the last item; with
/// wrapping on, forward from the last item reaches the first and back from the first
/// reaches the last.
pub proof fn law_radio_next_then_prev(current: usize, count: usize, roving_loop: bool)
    requires
        current < count,
    ensures
        current + 1 < count ==> prev_focus_spec(next_focus_spec(current, count, roving_loop), count, roving_loop)
            == current,
        roving_loop && current + 1 == count ==> next_focus_spec(current, count, roving_loop) == 0,
        roving_loop ==> prev_focus_spec(0, count, roving_loop) == count - 1,
        next_focus_spec(current, count, roving_loop) < count,
        prev_focus_spec(current, count, roving_loop) < count,
{
}

} // verus!
