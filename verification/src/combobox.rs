//! Filtering and visibility decisions of the combobox.
use vstd::prelude::*;
use crate::attributes::{is_white_space, leading_white_space, trim, trim_spec};
use crate::selectable::{
    SelectableContext, SelectionMode, focused_option, matching_spec, same_but_focus,
};
use crate::selection::{RcPartialEqValue, selected_text_spec, values_view};
use crate::focus::{FocusView, next_index_spec, prev_index_spec, seq_first, seq_last};
use crate::selection::{OptionView, first_where, first_where_prefix, lemma_first_where, options_view};

verus! {

/// What `str::to_lowercase` returns for a string: its characters mapped to lower case by
/// the Unicode tables (a character may map to several).
pub uninterp spec fn lowercase_spec(s: Seq<char>) -> Seq<char>;

/// Calls `str::to_lowercase`. Trusted: the result is `lowercase_spec` of the argument, and
/// it is empty exactly when the argument is (every character maps to one or more
/// characters); the mapping itself is not stated.
#[verifier::external_body]
fn to_lowercase(s: &str) -> (r: String)
    ensures
        r@ == lowercase_spec(s@),
        r@.len() == 0 <==> s@.len() == 0,
{
    s.to_lowercase()
}

/// Whether `needle` occurs in `hay` as a contiguous run.
pub open spec fn occurs_in(hay: Seq<char>, needle: Seq<char>) -> bool {
    exists|i: int| 0 <= i && i + needle.len() <= hay.len() && #[trigger] hay.subrange(i, i + needle.len()) == needle
}

/// Whether `needle` occurs in `hay`.
pub fn contains_text(hay: &str, needle: &str) -> (r: bool)
    ensures
        r == occurs_in(hay@, needle@),
{
    let n = hay.unicode_len();
    let m = needle.unicode_len();
    if m > n {
        assert forall|i: int| 0 <= i && i + needle@.len() <= hay@.len() implies #[trigger] hay@.subrange(i, i + needle@.len()) != needle@ by {}
        return false;
    }
    let mut i: usize = 0;
    while i <= n - m
        invariant
            m <= n,
            n == hay@.len(),
            m == needle@.len(),
            0 <= i <= n - m + 1,
            forall|k: int| 0 <= k < i ==> #[trigger] hay@.subrange(k, k + m) != needle@,
        decreases n - m + 1 - i,
    {
        let mut j: usize = 0;
        while j < m
            invariant
                m <= n,
                i <= n - m,
                n == hay@.len(),
                m == needle@.len(),
                0 <= j <= m,
                forall|t: int| 0 <= t < j ==> hay@[i + t] == needle@[t],
            ensures
                0 <= j <= m,
                forall|t: int| 0 <= t < j ==> hay@[i + t] == needle@[t],
                j < m ==> hay@[i + j] != needle@[j as int],
            decreases m - j,
        {
            if hay.get_char(i + j) != needle.get_char(j) {
                break;
            }
            j = j + 1;
        }
        if j == m {
            assert(hay@.subrange(i as int, i + m) =~= needle@);
            return true;
        }
        proof {
            assert(hay@.subrange(i as int, i + m)[j as int] != needle@[j as int]);
        }
        i = i + 1;
    }
    false
}

/// The default filter's decision: the trimmed query is empty, or its lower-case form
/// occurs in the lower-cased text.
pub open spec fn default_filter_spec(query: Seq<char>, text: Seq<char>) -> bool {
    let q = trim_spec(query);
    q.len() == 0 || occurs_in(lowercase_spec(text), lowercase_spec(q))
}

/// The default case-insensitive substring filter.
pub fn default_combobox_filter(query: &str, text: &str) -> (r: bool)
    ensures
        r == default_filter_spec(query@, text@),
{
    let q = to_lowercase(trim(query));
    if q.unicode_len() == 0 {
        return true;
    }
    let t = to_lowercase(text);
    contains_text(t.as_str(), q.as_str())
}

/// A query of whitespace only (or an empty one) lets every option through the default
/// filter.
pub proof fn law_blank_query_shows_all(query: Seq<char>, text: Seq<char>)
    requires
        forall|i: int| 0 <= i < query.len() ==> is_white_space(#[trigger] query[i]),
    ensures
        default_filter_spec(query, text),
{
    lemma_all_white_space(query);
}

proof fn lemma_all_white_space(s: Seq<char>)
    requires
        forall|i: int| 0 <= i < s.len() ==> is_white_space(#[trigger] s[i]),
    ensures
        leading_white_space(s) == s.len(),
        trim_spec(s).len() == 0,
    decreases s.len(),
{
    if s.len() > 0 {
        let t = s.drop_first();
        assert forall|i: int| 0 <= i < t.len() implies is_white_space(#[trigger] t[i]) by {
            assert(t[i] == s[i + 1]);
        }
        assert(is_white_space(s[0]));
        lemma_all_white_space(t);
    }
}

/// The option with tab index `k`.
pub open spec fn at_tab(k: usize) -> spec_fn(OptionView) -> bool {
    |o: OptionView| o.tab_index == k
}

/// The position of the first option with tab index `k`.
fn find_tab(options: &[crate::selection::OptionState], k: usize) -> (r: Option<usize>)
    ensures
        r matches Some(j) ==> j < options@.len() && first_where(options_view(options@), at_tab(k))
            == Some(j as int),
        r is None ==> first_where(options_view(options@), at_tab(k)) is None,
{
    let ghost s = options_view(options@);
    let mut i: usize = 0;
    while i < options.len()
        invariant
            0 <= i <= options@.len(),
            s == options_view(options@),
            first_where(s.take(i as int), at_tab(k)) is None,
        decreases options@.len() - i,
    {
        assert(s.take(i + 1).drop_last() =~= s.take(i as int));
        if options[i].tab_index == k {
            proof {
                assert(s.take(i + 1).last() == s[i as int]);
                first_where_prefix(s, at_tab(k), i + 1);
                lemma_first_where(s, at_tab(k));
            }
            return Some(i);
        }
        i = i + 1;
    }
    assert(s.take(i as int) =~= s);
    None
}

/// Shared state of a combobox: the selectable listbox and the typed query. Which options
/// the query lets through is decided by a filter and handed to the methods as one flag
/// per option.
pub struct ComboboxContext {
    /// The listbox state.
    pub selectable: SelectableContext,
    /// The typed query.
    pub query: String,
}

impl ComboboxContext {
    /// Opens or closes the popup; opening clears the focus.
    pub fn set_open(&mut self, open: bool)
        ensures
            final(self).selectable.open == open,
            same_but_focus(final(self).selectable, SelectableContext { open, ..old(self).selectable }),
            final(self).query == old(self).query,
            final(self).selectable.focus_state@ == if open {
                old(self).selectable.focus_state@.with_focus(None)
            } else {
                old(self).selectable.focus_state@
            },
    {
        if open {
            self.selectable.focus_state.set_focus(None);
        }
        self.selectable.set_open(open);
    }

    /// Whether the option with tab index `tab_index` passes the filter (`visible` holds the
    /// filter's answer for each option); false when there is no such option.
    pub fn is_visible(&self, tab_index: usize, visible: &[bool]) -> (r: bool)
        requires
            visible@.len() == self.selectable.options@.len(),
        ensures
            r == match first_where(options_view(self.selectable.options@), at_tab(tab_index)) {
                Some(j) => visible@[j],
                None => false,
            },
    {
        match find_tab(self.selectable.options.as_slice(), tab_index) {
            Some(j) => visible[j],
            None => false,
        }
    }

    /// Whether some option passes the filter.
    pub fn has_visible_options(&self, visible: &[bool]) -> (r: bool)
        requires
            visible@.len() == self.selectable.options@.len(),
        ensures
            r == exists|j: int| 0 <= j < visible@.len() && visible@[j],
    {
        let mut j: usize = 0;
        while j < visible.len()
            invariant
                0 <= j <= visible@.len(),
                forall|k: int| 0 <= k < j ==> !visible@[k],
            decreases visible@.len() - j,
        {
            if visible[j] {
                return true;
            }
            j = j + 1;
        }
        false
    }
}

impl ComboboxContext {
    /// The default filter's answer for each option under `query`, in option order.
    pub fn predicate_for(&self, query: &str) -> (r: Vec<bool>)
        ensures
            r@.len() == self.selectable.options@.len(),
            forall|j: int|
                0 <= j < r@.len() ==> #[trigger] r@[j] == default_filter_spec(
                    query@,
                    self.selectable.options@[j].text_value@,
                ),
    {
        let mut r: Vec<bool> = Vec::new();
        let mut j: usize = 0;
        while j < self.selectable.options.len()
            invariant
                0 <= j <= self.selectable.options@.len(),
                r@.len() == j,
                forall|k: int|
                    0 <= k < j ==> #[trigger] r@[k] == default_filter_spec(
                        query@,
                        self.selectable.options@[k].text_value@,
                    ),
            decreases self.selectable.options@.len() - j,
        {
            let pass = default_combobox_filter(query, self.selectable.options[j].text_value.as_str());
            r.push(pass);
            j = j + 1;
        }
        r
    }

    /// The default filter's answer for each option under the current query.
    pub fn predicate(&self) -> (r: Vec<bool>)
        ensures
            r@.len() == self.selectable.options@.len(),
            forall|j: int|
                0 <= j < r@.len() ==> #[trigger] r@[j] == default_filter_spec(
                    self.query@,
                    self.selectable.options@[j].text_value@,
                ),
    {
        self.predicate_for(self.query.as_str())
    }

    /// The smallest tab index of an enabled option that passes the filter for a query
    /// (`visible` holds the filter's answer for each option under that query).
    pub fn first_visible_enabled_index_for_query(&self, visible: &[bool]) -> (r: Option<usize>)
        requires
            visible@.len() == self.selectable.options@.len(),
        ensures
            r == seq_first(matching_spec(options_view(self.selectable.options@), visible@)),
    {
        self.selectable.first_matching_enabled_index(visible)
    }

    /// The largest tab index of an enabled option that passes the filter for a query.
    pub fn last_visible_enabled_index_for_query(&self, visible: &[bool]) -> (r: Option<usize>)
        requires
            visible@.len() == self.selectable.options@.len(),
        ensures
            r == seq_last(matching_spec(options_view(self.selectable.options@), visible@)),
    {
        self.selectable.last_matching_enabled_index(visible)
    }

    /// The id of the focused option when it passes the filter.
    pub fn focused_visible_option_id(&self, visible: &[bool]) -> (r: Option<String>)
        requires
            self.selectable.focus_state@.wf(),
            visible@.len() == self.selectable.options@.len(),
        ensures
            match focused_option(self.selectable) {
                Some(j) if visible@[j] => r matches Some(id) && id@ == self.selectable.options@[j].id@,
                _ => r is None,
            },
    {
        self.selectable.focused_option_id_where(visible)
    }

    /// Moves focus to the next enabled option that passes the filter.
    pub fn focus_next_visible(&mut self, visible: &[bool])
        requires
            visible@.len() == old(self).selectable.options@.len(),
        ensures
            same_but_focus(final(self).selectable, old(self).selectable),
            final(self).query == old(self).query,
            final(self).selectable.focus_state@ == old(self).selectable.focus_state@.with_focus(
                next_index_spec(
                    matching_spec(options_view(old(self).selectable.options@), visible@),
                    old(self).selectable.focus_state@.current_focus,
                    old(self).selectable.focus_state@.roving_loop,
                ),
            ),
    {
        self.selectable.focus_next_where(visible);
    }

    /// Moves focus to the previous enabled option that passes the filter.
    pub fn focus_prev_visible(&mut self, visible: &[bool])
        requires
            visible@.len() == old(self).selectable.options@.len(),
        ensures
            same_but_focus(final(self).selectable, old(self).selectable),
            final(self).query == old(self).query,
            final(self).selectable.focus_state@ == old(self).selectable.focus_state@.with_focus(
                prev_index_spec(
                    matching_spec(options_view(old(self).selectable.options@), visible@),
                    old(self).selectable.focus_state@.current_focus,
                    old(self).selectable.focus_state@.roving_loop,
                ),
            ),
    {
        self.selectable.focus_prev_where(visible);
    }

    /// Focuses the first enabled option that passes the filter (blurs when there is none).
    pub fn focus_first_visible(&mut self, visible: &[bool])
        requires
            visible@.len() == old(self).selectable.options@.len(),
        ensures
            same_but_focus(final(self).selectable, old(self).selectable),
            final(self).query == old(self).query,
            final(self).selectable.focus_state@ == old(self).selectable.focus_state@.with_focus(
                seq_first(matching_spec(options_view(old(self).selectable.options@), visible@)),
            ),
    {
        self.selectable.focus_first_where(visible);
    }

    /// Focuses the last enabled option that passes the filter (blurs when there is none).
    pub fn focus_last_visible(&mut self, visible: &[bool])
        requires
            visible@.len() == old(self).selectable.options@.len(),
        ensures
            same_but_focus(final(self).selectable, old(self).selectable),
            final(self).query == old(self).query,
            final(self).selectable.focus_state@ == old(self).selectable.focus_state@.with_focus(
                seq_last(matching_spec(options_view(old(self).selectable.options@), visible@)),
            ),
    {
        self.selectable.focus_last_where(visible);
    }

    /// Selects the focused option when the popup is open and the option passes the
    /// filter; returns the value handed to the change callback.
    pub fn select_focused(&mut self, visible: &[bool]) -> (r: Option<RcPartialEqValue>)
        requires
            old(self).selectable.focus_state@.wf(),
            visible@.len() == old(self).selectable.options@.len(),
        ensures
            final(self).query == old(self).query,
            match (old(self).selectable.open, focused_option(old(self).selectable)) {
                (true, Some(j)) if visible@[j] => r matches Some(v) && v@
                    == old(self).selectable.options@[j].value@ && final(self).selectable == (
                SelectableContext {
                    open: old(self).selectable.selection_mode == SelectionMode::Multiple,
                    ..old(self).selectable
                }),
                _ => r is None && final(self).selectable == old(self).selectable,
            },
    {
        self.selectable.select_focused_where(visible)
    }
}

/// A key press on the combobox input.
#[derive(Clone, Copy, PartialEq, Eq, Structural, Debug)]
pub enum ComboKey {
    /// Down arrow.
    ArrowDown,
    /// Up arrow.
    ArrowUp,
    /// Home.
    Home,
    /// End.
    End,
    /// Enter.
    Enter,
    /// Escape.
    Escape,
    /// Any other key.
    Other,
}

/// The text the combobox input shows: the query while open, else the selection's text.
pub open spec fn display_spec(open: bool, query: Seq<char>, selected: Option<Seq<char>>) -> Seq<char> {
    if open {
        query
    } else {
        match selected {
            Some(t) => t,
            None => Seq::empty(),
        }
    }
}

/// The query typed text leads to: while open, the text; while closed, the text without
/// the selection's text in front when it starts with it.
pub open spec fn next_query_spec(open: bool, value: Seq<char>, selected: Option<Seq<char>>) -> Seq<char> {
    if open {
        value
    } else {
        match selected {
            Some(t) => if t.len() <= value.len() && value.subrange(0, t.len() as int) == t {
                value.skip(t.len() as int)
            } else {
                value
            },
            None => value,
        }
    }
}

/// Whether `prefix` starts `s`.
fn starts_with(s: &str, prefix: &str) -> (r: bool)
    ensures
        r == (prefix@.len() <= s@.len() && s@.subrange(0, prefix@.len() as int) == prefix@),
{
    let n = prefix.unicode_len();
    if n > s.unicode_len() {
        return false;
    }
    let mut i: usize = 0;
    while i < n
        invariant
            0 <= i <= n,
            n == prefix@.len(),
            n <= s@.len(),
            forall|k: int| 0 <= k < i ==> s@[k] == prefix@[k],
        decreases n - i,
    {
        if s.get_char(i) != prefix.get_char(i) {
            assert(s@.subrange(0, n as int)[i as int] != prefix@[i as int]);
            return false;
        }
        i = i + 1;
    }
    assert(s@.subrange(0, n as int) =~= prefix@);
    true
}

/// The characters of `s` from position `from` on.
fn skip_chars(s: &str, from: usize) -> (r: String)
    requires
        from <= s@.len(),
    ensures
        r@ == s@.skip(from as int),
{
    let n = s.unicode_len();
    let mut out = String::new();
    let mut i: usize = from;
    while i < n
        invariant
            from <= i <= n,
            n == s@.len(),
            out@ == s@.subrange(from as int, i as int),
        decreases n - i,
    {
        let piece = s.substring_char(i, i + 1);
        out.append(piece);
        assert(out@ =~= s@.subrange(from as int, i + 1));
        i = i + 1;
    }
    assert(out@ =~= s@.skip(from as int));
    out
}

impl ComboboxContext {
    /// The text the input shows.
    pub fn display_value(&self) -> (r: String)
        ensures
            r@ == display_spec(
                self.selectable.open,
                self.query@,
                selected_text_spec(values_view(self.selectable.values@), options_view(self.selectable.options@)),
            ),
    {
        if self.selectable.open {
            self.query.clone()
        } else {
            match self.selectable.selected_text() {
                Some(t) => t,
                None => String::new(),
            }
        }
    }

    /// The id of the focused option that the filter lets through, while open.
    pub fn active_descendant(&self, visible: &[bool]) -> (r: Option<String>)
        requires
            self.selectable.focus_state@.wf(),
            visible@.len() == self.selectable.options@.len(),
        ensures
            match focused_option(self.selectable) {
                Some(j) if self.selectable.open && visible@[j] => r matches Some(id) && id@
                    == self.selectable.options@[j].id@,
                _ => r is None,
            },
    {
        if !self.selectable.open {
            return None;
        }
        self.selectable.focused_option_id_where(visible)
    }

    /// Typed text: sets the query (see `next_query_spec`); clears the focus when open,
    /// opens the popup when closed.
    pub fn on_input(&mut self, value: &str)
        ensures
            final(self).query@ == next_query_spec(
                old(self).selectable.open,
                value@,
                selected_text_spec(values_view(old(self).selectable.values@), options_view(old(self).selectable.options@)),
            ),
            final(self).selectable.open,
            same_but_focus(final(self).selectable, SelectableContext { open: true, ..old(self).selectable }),
            final(self).selectable.focus_state@ == old(self).selectable.focus_state@.with_focus(None),
    {
        let was_open = self.selectable.open;
        let next = if was_open {
            value.to_owned()
        } else {
            match self.selectable.selected_text() {
                Some(sel) => if starts_with(value, sel.as_str()) {
                    skip_chars(value, sel.unicode_len())
                } else {
                    value.to_owned()
                },
                None => value.to_owned(),
            }
        };
        self.query = next;
        if was_open {
            self.selectable.focus_state.set_focus(None);
        } else {
            self.set_open(true);
        }
    }

    /// A click on the input: a closed popup opens with an empty query.
    pub fn on_click(&mut self)
        ensures
            old(self).selectable.open ==> *final(self) == *old(self),
            !old(self).selectable.open ==> {
                &&& final(self).query@ == Seq::<char>::empty()
                &&& same_but_focus(final(self).selectable, SelectableContext { open: true, ..old(self).selectable })
                &&& final(self).selectable.focus_state@ == old(self).selectable.focus_state@.with_focus(None)
            },
    {
        if !self.selectable.open {
            self.query = String::new();
            self.set_open(true);
        }
    }

    /// The input lost focus: an open popup closes.
    pub fn on_blur(&mut self)
        ensures
            !final(self).selectable.open,
            same_but_focus(final(self).selectable, SelectableContext { open: false, ..old(self).selectable }),
            final(self).selectable.focus_state@ == old(self).selectable.focus_state@,
            final(self).query == old(self).query,
    {
        if self.selectable.open {
            self.set_open(false);
        }
    }

    /// A key press on the input. `visible` holds the filter's answer for each option under
    /// the current query, `visible_all` under an empty query. Returns whether the key was
    /// handled (its default action and propagation are then stopped) and the value to hand
    /// to the selection callback, if any.
    pub fn on_keydown(&mut self, key: ComboKey, visible: &[bool], visible_all: &[bool]) -> (r: (bool, Option<RcPartialEqValue>))
        requires
            old(self).selectable.focus_state@.wf(),
            visible@.len() == old(self).selectable.options@.len(),
            visible_all@.len() == old(self).selectable.options@.len(),
        ensures
            ({
                let o = old(self).selectable;
                let f = o.focus_state@;
                let open = o.open;
                let m = matching_spec(options_view(o.options@), visible@);
                let m_all = matching_spec(options_view(o.options@), visible_all@);
                match key {
                    ComboKey::ArrowDown | ComboKey::ArrowUp => {
                        &&& r.0
                        &&& r.1 is None
                        &&& if !open {
                            &&& final(self).query@ == Seq::<char>::empty()
                            &&& final(self).selectable.open
                            &&& same_but_focus(final(self).selectable, SelectableContext {
                                open: true,
                                initial_focus: if key == ComboKey::ArrowDown {
                                    seq_first(m_all)
                                } else {
                                    seq_last(m_all)
                                },
                                ..o
                            })
                            &&& final(self).selectable.focus_state@ == f.with_focus(None)
                        } else {
                            &&& final(self).query == old(self).query
                            &&& same_but_focus(final(self).selectable, o)
                            &&& final(self).selectable.focus_state@ == f.with_focus(
                                if key == ComboKey::ArrowDown {
                                    next_index_spec(m, f.current_focus, f.roving_loop)
                                } else {
                                    prev_index_spec(m, f.current_focus, f.roving_loop)
                                },
                            )
                        }
                    },
                    ComboKey::Home | ComboKey::End => if open {
                        &&& r.0
                        &&& r.1 is None
                        &&& final(self).query == old(self).query
                        &&& same_but_focus(final(self).selectable, o)
                        &&& final(self).selectable.focus_state@ == f.with_focus(
                            if key == ComboKey::Home {
                                seq_first(m)
                            } else {
                                seq_last(m)
                            },
                        )
                    } else {
                        !r.0 && r.1 is None && *final(self) == *old(self)
                    },
                    ComboKey::Enter => if open {
                        &&& r.0
                        &&& final(self).query == old(self).query
                        &&& match focused_option(o) {
                            Some(j) if visible@[j] => r.1 matches Some(v) && v@ == o.options@[j].value@
                                && final(self).selectable == (SelectableContext {
                                open: o.selection_mode == SelectionMode::Multiple,
                                ..o
                            }),
                            _ => r.1 is None && final(self).selectable == o,
                        }
                    } else {
                        !r.0 && r.1 is None && *final(self) == *old(self)
                    },
                    ComboKey::Escape => if open {
                        &&& r.0
                        &&& r.1 is None
                        &&& final(self).query == old(self).query
                        &&& !final(self).selectable.open
                        &&& same_but_focus(final(self).selectable, SelectableContext { open: false, ..o })
                        &&& final(self).selectable.focus_state@ == f
                    } else {
                        !r.0 && r.1 is None && *final(self) == *old(self)
                    },
                    ComboKey::Other => !r.0 && r.1 is None && *final(self) == *old(self),
                }
            }),
    {
        let open = self.selectable.open;
        match key {
            ComboKey::ArrowDown => {
                if !open {
                    self.query = String::new();
                    let first = self.selectable.first_matching_enabled_index(visible_all);
                    self.selectable.initial_focus = first;
                    self.set_open(true);
                    assert(self.query@ == Seq::<char>::empty());
                    assert(self.selectable.focus_state@ == old(self).selectable.focus_state@.with_focus(None));
                    assert(same_but_focus(self.selectable, SelectableContext {
                                open: true,
                                initial_focus: first,
                                ..old(self).selectable
                            }));
                } else {
                    self.selectable.focus_next_where(visible);
                }
                (true, None)
            },
            ComboKey::ArrowUp => {
                if !open {
                    self.query = String::new();
                    let last = self.selectable.last_matching_enabled_index(visible_all);
                    self.selectable.initial_focus = last;
                    self.set_open(true);
                } else {
                    self.selectable.focus_prev_where(visible);
                }
                (true, None)
            },
            ComboKey::Home => {
                if !open {
                    return (false, None);
                }
                self.selectable.focus_first_where(visible);
                (true, None)
            },
            ComboKey::End => {
                if !open {
                    return (false, None);
                }
                self.selectable.focus_last_where(visible);
                (true, None)
            },
            ComboKey::Enter => {
                if !open {
                    return (false, None);
                }
                let v = self.selectable.select_focused_where(visible);
                (true, v)
            },
            ComboKey::Escape => {
                if !open {
                    return (false, None);
                }
                self.set_open(false);
                (true, None)
            },
            ComboKey::Other => (false, None),
        }
    }
}

} // verus!
