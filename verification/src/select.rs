//! The select component's shared state: the listbox, typeahead buffer and learned
//! keyboard layout, and what a key press on the open list does.
use vstd::prelude::*;
use vstd::string::*;
use crate::focus::{FocusView, next_index_spec, prev_index_spec, seq_first, seq_last};
use crate::selectable::{SelectableContext, SelectionMode, focused_option, same_but_focus};
use crate::selection::RcPartialEqValue;
use crate::text_search::{AdaptiveKeyboard, learned};

verus! {

/// What `char::to_lowercase` yields for a character: its lower-case mapping by the
/// Unicode tables, one or more characters.
pub uninterp spec fn lowercase_chars_spec(c: char) -> Seq<char>;

/// Calls `char::to_lowercase` and collects what it yields. Trusted: the result is
/// `lowercase_chars_spec` of `c`, at least one character; the table is not stated.
#[verifier::external_body]
fn char_to_lowercase(c: char) -> (r: Vec<char>)
    ensures
        r@ == lowercase_chars_spec(c),
        r@.len() >= 1,
{
    c.to_lowercase().collect()
}

/// The first character of the lower-case mapping of `c` (`c` itself should the mapping be
/// empty).
pub open spec fn lowercase_char_spec(c: char) -> char {
    if lowercase_chars_spec(c).len() > 0 {
        lowercase_chars_spec(c)[0]
    } else {
        c
    }
}

/// The first character of the lower-case mapping of `c`.
fn lowercase_char(c: char) -> (r: char)
    ensures
        r == lowercase_char_spec(c),
{
    let chars = char_to_lowercase(c);
    if chars.len() > 0 {
        chars[0]
    } else {
        c
    }
}

/// A key press on the open select list.
#[derive(Clone, PartialEq, Eq, Debug)]
pub enum ListKey {
    /// A key that types text.
    Character(String),
    /// Up arrow.
    ArrowUp,
    /// Down arrow.
    ArrowDown,
    /// Home.
    Home,
    /// End.
    End,
    /// Enter.
    Enter,
    /// Escape.
    Escape,
    /// Any other key.
    Other,
}

/// What a key press on the list leads to beyond the state change.
#[derive(Clone, Debug)]
pub struct ListKeyOutcome {
    /// Whether the key's default action and propagation are stopped.
    pub handled: bool,
    /// The value to hand to the selection callback, if any.
    pub selected: Option<RcPartialEqValue>,
    /// Whether the typeahead buffer grew, so that the best match should take focus.
    pub search: bool,
}

/// Shared state of a select.
pub struct SelectContext {
    /// The listbox.
    pub selectable: SelectableContext,
    /// The keyboard layout learned from key presses.
    pub adaptive_keyboard: AdaptiveKeyboard,
    /// The text typed so far for typeahead search.
    pub typeahead_buffer: String,
}

impl SelectContext {
    /// The invariants of the parts.
    pub open spec fn wf(&self) -> bool {
        &&& self.selectable.focus_state@.wf()
        &&& self.adaptive_keyboard.wf()
    }

    /// Opens or closes the popup.
    pub fn set_open(&mut self, open: bool)
        ensures
            final(self).selectable == (SelectableContext { open, ..old(self).selectable }),
            final(self).adaptive_keyboard == old(self).adaptive_keyboard,
            final(self).typeahead_buffer == old(self).typeahead_buffer,
    {
        self.selectable.set_open(open);
    }

    /// Whether several values can be selected.
    pub fn multi(&self) -> (r: bool)
        ensures
            r == (self.selectable.selection_mode == SelectionMode::Multiple),
    {
        self.selectable.selection_mode.is_multiple()
    }

    /// Selects the focused item (see `SelectableContext::select_focused`).
    pub fn select_current_item(&mut self) -> (r: Option<RcPartialEqValue>)
        requires
            old(self).wf(),
        ensures
            match (old(self).selectable.open, focused_option(old(self).selectable)) {
                (true, Some(j)) => r matches Some(v) && v@ == old(self).selectable.options@[j].value@
                    && final(self).selectable == (SelectableContext {
                    open: old(self).selectable.selection_mode == SelectionMode::Multiple,
                    ..old(self).selectable
                }),
                _ => r is None && final(self).selectable == old(self).selectable,
            },
            final(self).adaptive_keyboard == old(self).adaptive_keyboard,
            final(self).typeahead_buffer == old(self).typeahead_buffer,
    {
        self.selectable.select_focused()
    }

    /// Learns that the physical key `physical_code` typed `logical_char`, taken in lower case.
    pub fn learn_from_keyboard_event(&mut self, physical_code: &str, logical_char: char)
        requires
            old(self).wf(),
        ensures
            final(self).wf(),
            final(self).adaptive_keyboard.mappings() == learned(
                old(self).adaptive_keyboard.mappings(),
                physical_code@,
                lowercase_char_spec(logical_char),
            ),
            final(self).selectable == old(self).selectable,
            final(self).typeahead_buffer == old(self).typeahead_buffer,
    {
        let c = lowercase_char(logical_char);
        self.adaptive_keyboard.learn_from_event(physical_code, c);
    }

    /// Appends typed text to the typeahead buffer.
    pub fn add_to_typeahead_buffer(&mut self, text: &str)
        ensures
            final(self).typeahead_buffer@ == old(self).typeahead_buffer@ + text@,
            final(self).selectable == old(self).selectable,
            final(self).adaptive_keyboard == old(self).adaptive_keyboard,
    {
        self.typeahead_buffer.append(text);
    }

    /// Empties the typeahead buffer.
    pub fn clear_typeahead(&mut self)
        ensures
            final(self).typeahead_buffer@ == Seq::<char>::empty(),
            final(self).selectable == old(self).selectable,
            final(self).adaptive_keyboard == old(self).adaptive_keyboard,
    {
        self.typeahead_buffer = String::new();
    }

    /// A key press on the open list, with the physical key `code`. A typing key first
    /// teaches the keyboard its first character; a space then selects the focused item,
    /// other text grows the typeahead buffer. Arrows, Home and End empty the buffer and move
    /// focus; Enter selects; Escape closes.
    pub fn list_keydown(&mut self, key: ListKey, code: &str) -> (r: ListKeyOutcome)
        requires
            old(self).wf(),
        ensures
            final(self).wf(),
            ({
                let o = old(self).selectable;
                let f = o.focus_state@;
                match key {
                    ListKey::Character(t) => {
                        &&& (t@.len() > 0 ==> final(self).adaptive_keyboard.mappings() == learned(
                            old(self).adaptive_keyboard.mappings(),
                            code@,
                            lowercase_char_spec(t@[0]),
                        ))
                        &&& (t@.len() == 0 ==> final(self).adaptive_keyboard == old(self).adaptive_keyboard)
                        &&& if t@ == seq![' '] {
                            &&& r.handled
                            &&& !r.search
                            &&& final(self).typeahead_buffer == old(self).typeahead_buffer
                            &&& match (o.open, focused_option(o)) {
                                (true, Some(j)) => r.selected matches Some(v) && v@ == o.options@[j].value@
                                    && final(self).selectable == (SelectableContext {
                                    open: o.selection_mode == SelectionMode::Multiple,
                                    ..o
                                }),
                                _ => r.selected is None && final(self).selectable == o,
                            }
                        } else {
                            &&& !r.handled
                            &&& r.search
                            &&& r.selected is None
                            &&& final(self).typeahead_buffer@ == old(self).typeahead_buffer@ + t@
                            &&& final(self).selectable == o
                        }
                    },
                    ListKey::ArrowUp | ListKey::ArrowDown | ListKey::Home | ListKey::End => {
                        &&& r.handled
                        &&& !r.search
                        &&& r.selected is None
                        &&& final(self).typeahead_buffer@ == Seq::<char>::empty()
                        &&& final(self).adaptive_keyboard == old(self).adaptive_keyboard
                        &&& same_but_focus(final(self).selectable, o)
                        &&& final(self).selectable.focus_state@ == f.with_focus(
                            match key {
                                ListKey::ArrowUp => prev_index_spec(f.enabled(), f.recent_focus, f.roving_loop),
                                ListKey::ArrowDown => next_index_spec(f.enabled(), f.recent_focus, f.roving_loop),
                                ListKey::Home => seq_first(f.enabled()),
                                _ => seq_last(f.enabled()),
                            },
                        )
                    },
                    ListKey::Enter => {
                        &&& r.handled
                        &&& !r.search
                        &&& final(self).typeahead_buffer == old(self).typeahead_buffer
                        &&& final(self).adaptive_keyboard == old(self).adaptive_keyboard
                        &&& match (o.open, focused_option(o)) {
                            (true, Some(j)) => r.selected matches Some(v) && v@ == o.options@[j].value@
                                && final(self).selectable == (SelectableContext {
                                open: o.selection_mode == SelectionMode::Multiple,
                                ..o
                            }),
                            _ => r.selected is None && final(self).selectable == o,
                        }
                    },
                    ListKey::Escape => {
                        &&& r.handled
                        &&& !r.search
                        &&& r.selected is None
                        &&& final(self).typeahead_buffer == old(self).typeahead_buffer
                        &&& final(self).adaptive_keyboard == old(self).adaptive_keyboard
                        &&& final(self).selectable == (SelectableContext { open: false, ..o })
                    },
                    ListKey::Other => {
                        &&& !r.handled
                        &&& !r.search
                        &&& r.selected is None
                        &&& final(self).typeahead_buffer == old(self).typeahead_buffer
                        &&& final(self).adaptive_keyboard == old(self).adaptive_keyboard
                        &&& final(self).selectable == o
                    },
                }
            }),
    {
        match key {
            ListKey::Character(t) => {
                if t.unicode_len() > 0 {
                    let c = t.as_str().get_char(0);
                    self.learn_from_keyboard_event(code, c);
                }
                proof {
                    reveal_strlit(" ");
                }
                if t.as_str().unicode_len() == 1 && t.as_str().get_char(0) == ' ' {
                    assert(t@ =~= seq![' ']);
                    let v = self.select_current_item();
                    return ListKeyOutcome { handled: true, selected: v, search: false };
                }
                assert(t@ != seq![' ']);
                self.add_to_typeahead_buffer(t.as_str());
                ListKeyOutcome { handled: false, selected: None, search: true }
            },
            ListKey::ArrowUp => {
                self.clear_typeahead();
                self.selectable.focus_state.focus_prev();
                ListKeyOutcome { handled: true, selected: None, search: false }
            },
            ListKey::ArrowDown => {
                self.clear_typeahead();
                self.selectable.focus_state.focus_next();
                ListKeyOutcome { handled: true, selected: None, search: false }
            },
            ListKey::Home => {
                self.clear_typeahead();
                self.selectable.focus_state.focus_first();
                ListKeyOutcome { handled: true, selected: None, search: false }
            },
            ListKey::End => {
                self.clear_typeahead();
                self.selectable.focus_state.focus_last();
                ListKeyOutcome { handled: true, selected: None, search: false }
            },
            ListKey::Enter => {
                let v = self.select_current_item();
                ListKeyOutcome { handled: true, selected: v, search: false }
            },
            ListKey::Escape => {
                self.set_open(false);
                ListKeyOutcome { handled: true, selected: None, search: false }
            },
            ListKey::Other => ListKeyOutcome { handled: false, selected: None, search: false },
        }
    }
}

/// The timer that empties the typeahead buffer some time after the last typed text: each
/// new text cancels the running timer and starts another; only the timer started last
/// empties the buffer when it fires, and closing the list cancels it.
pub struct TypeaheadTimer {
    /// The token of the running timer, if one runs.
    pub running: Option<u64>,
    /// The token the next timer gets.
    pub next_token: u64,
}

impl TypeaheadTimer {
    /// No timer runs.
    pub fn new() -> (r: TypeaheadTimer)
        ensures
            r.running is None,
            r.next_token == 0,
    {
        TypeaheadTimer { running: None, next_token: 0 }
    }

    /// Text was typed: the running timer (if any) is cancelled and a new one starts.
    /// Returns the token of the new timer.
    pub fn restart(&mut self) -> (r: u64)
        requires
            old(self).next_token < u64::MAX,
        ensures
            r == old(self).next_token,
            final(self).running == Some(r),
            final(self).next_token == old(self).next_token + 1,
    {
        let token = self.next_token;
        self.next_token = token + 1;
        self.running = Some(token);
        token
    }

    /// The timer with `token` fired: when it is the running one, it stops and the buffer is
    /// to be emptied. Returns whether to empty it.
    pub fn fire(&mut self, token: u64) -> (r: bool)
        ensures
            r == (old(self).running == Some(token)),
            final(self).running == if r {
                None
            } else {
                old(self).running
            },
            final(self).next_token == old(self).next_token,
    {
        if self.running == Some(token) {
            self.running = None;
            true
        } else {
            false
        }
    }

    /// The list closed: the running timer is cancelled (the buffer is emptied by the caller).
    pub fn cancel(&mut self)
        ensures
            final(self).running is None,
            final(self).next_token == old(self).next_token,
    {
        self.running = None;
    }
}

/// Tokens are handed out in increasing order, so after new text restarts the timer, no
/// timer started before it is the running one: only the newest timer empties the buffer.
pub proof fn law_stale_timer_ignored(next_token: u64, older: u64)
    requires
        older < next_token,
    ensures
        Some(next_token) != Some(older),
{
}

} // verus!
