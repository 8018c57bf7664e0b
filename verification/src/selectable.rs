//! Shared state and decisions of select-like listbox components.
use vstd::prelude::*;
use crate::focus::{
    FocusState, FocusView, lookup_spec, next_index_spec, prev_index_spec, seq_first, seq_last,
};
use crate::selection::{
    OptionState, OptionView, RcPartialEqValue, first_where, first_where_prefix, lemma_first_where,
    options_view, selected_text, selected_text_spec, values_view,
};

verus! {

/// Whether selecting an option replaces the current value or toggles it.
#[derive(Clone, Copy, PartialEq, Eq, Structural, Debug)]
pub enum SelectionMode {
    /// A single value is selected and the popup closes after selection.
    Single,
    /// Several values can be selected and the popup stays open after selection.
    Multiple,
}

impl SelectionMode {
    /// Whether several values can be selected.
    pub fn is_multiple(self) -> (r: bool)
        ensures
            r == (self == SelectionMode::Multiple),
    {
        match self {
            SelectionMode::Multiple => true,
            SelectionMode::Single => false,
        }
    }

    /// Whether the popup closes once a value is selected.
    pub open spec fn closes_on_select_spec(self) -> bool {
        self == SelectionMode::Single
    }

    /// Whether the popup closes once a value is selected.
    pub fn closes_on_select(self) -> (r: bool)
        ensures
            r == self.closes_on_select_spec(),
    {
        match self {
            SelectionMode::Single => true,
            SelectionMode::Multiple => false,
        }
    }
}

/// Each element is smaller than the next.
pub open spec fn strictly_increasing(q: Seq<usize>) -> bool {
    forall|i: int, j: int| 0 <= i < j < q.len() ==> q[i] < q[j]
}

/// Whether `k` is the tab index of an enabled option that `matches` marks.
pub open spec fn is_match(s: Seq<OptionView>, matches: Seq<bool>, k: usize) -> bool {
    exists|i: int| 0 <= i < s.len() && i < matches.len() && !s[i].disabled && matches[i] && s[i].tab_index == k
}

/// `q` lists, in increasing order and once each, the tab indices of the enabled options
/// that `matches` marks.
pub open spec fn lists_matches(q: Seq<usize>, s: Seq<OptionView>, matches: Seq<bool>) -> bool {
    &&& strictly_increasing(q)
    &&& forall|k: usize| q.contains(k) <==> is_match(s, matches, k)
}

/// The tab indices of the enabled options that `matches` marks, in increasing order and
/// once each.
pub open spec fn matching_spec(s: Seq<OptionView>, matches: Seq<bool>) -> Seq<usize> {
    choose|q: Seq<usize>| lists_matches(q, s, matches)
}

/// Two increasing sequences with the same elements are equal.
pub proof fn lemma_increasing_unique(a: Seq<usize>, b: Seq<usize>)
    requires
        strictly_increasing(a),
        strictly_increasing(b),
        forall|k: usize| a.contains(k) <==> b.contains(k),
    ensures
        a == b,
    decreases a.len(),
{
    if a.len() == 0 {
        if b.len() > 0 {
            assert(b.contains(b[0]));
        }
        assert(a =~= b);
    } else {
        assert(a.contains(a[0]));
        assert(b.len() > 0);
        assert(b.contains(b[0]));
        let i = choose|i: int| 0 <= i < a.len() && a[i] == b[0];
        let j = choose|j: int| 0 <= j < b.len() && b[j] == a[0];
        if i > 0 {
            assert(a[0] < a[i]);
            assert(b[0] <= b[j]) by {
                if j > 0 {
                    assert(b[0] < b[j]);
                }
            }
        }
        assert(a[0] == b[0]);
        let a2 = a.drop_first();
        let b2 = b.drop_first();
        assert forall|k: usize| a2.contains(k) <==> b2.contains(k) by {
            if a2.contains(k) {
                let x = choose|x: int| 0 <= x < a2.len() && a2[x] == k;
                assert(a[x + 1] == k);
                assert(a.contains(k));
                let y = choose|y: int| 0 <= y < b.len() && b[y] == k;
                assert(y != 0);
                assert(b2[y - 1] == k);
            }
            if b2.contains(k) {
                let x = choose|x: int| 0 <= x < b2.len() && b2[x] == k;
                assert(b[x + 1] == k);
                assert(b.contains(k));
                let y = choose|y: int| 0 <= y < a.len() && a[y] == k;
                assert(y != 0);
                assert(a2[y - 1] == k);
            }
        }
        lemma_increasing_unique(a2, b2);
        assert(a =~= seq![a[0]] + a2);
        assert(b =~= seq![b[0]] + b2);
    }
}

/// The tab indices of the enabled options that `matches` marks, in increasing order and
/// once each.
pub fn matching_enabled_indices(options: &[OptionState], matches: &[bool]) -> (r: Vec<usize>)
    requires
        matches@.len() == options@.len(),
    ensures
        lists_matches(r@, options_view(options@), matches@),
        r@ == matching_spec(options_view(options@), matches@),
{
    let ghost s = options_view(options@);
    let mut r: Vec<usize> = Vec::new();
    let mut i: usize = 0;
    while i < options.len()
        invariant
            0 <= i <= options@.len(),
            matches@.len() == options@.len(),
            s == options_view(options@),
            strictly_increasing(r@),
            forall|k: usize| r@.contains(k) <==> is_match(s.take(i as int), matches@, k),
        decreases options@.len() - i,
    {
        let ghost old_r = r@;
        assert forall|k: usize| is_match(s.take(i + 1), matches@, k) <==> (is_match(s.take(i as int), matches@, k)
            || (!s[i as int].disabled && matches@[i as int] && s[i as int].tab_index == k)) by {
            if is_match(s.take(i + 1), matches@, k) {
                let x = choose|x: int| 0 <= x < s.take(i + 1).len() && x < matches@.len() && !s.take(i + 1)[x].disabled
                    && matches@[x] && s.take(i + 1)[x].tab_index == k;
                if x < i {
                    assert(s.take(i as int)[x] == s[x]);
                }
            }
            if is_match(s.take(i as int), matches@, k) {
                let x = choose|x: int| 0 <= x < s.take(i as int).len() && x < matches@.len() && !s.take(i as int)[x].disabled
                    && matches@[x] && s.take(i as int)[x].tab_index == k;
                assert(s.take(i + 1)[x] == s[x]);
            }
            if !s[i as int].disabled && matches@[i as int] && s[i as int].tab_index == k {
                assert(s.take(i + 1)[i as int] == s[i as int]);
            }
        }
        if !options[i].disabled && matches[i] {
            let k = options[i].tab_index;
            let mut p: usize = 0;
            while p < r.len() && r[p] < k
                invariant
                    0 <= p <= r@.len(),
                    strictly_increasing(r@),
                    forall|x: int| 0 <= x < p ==> r@[x] < k,
                decreases r@.len() - p,
            {
                p = p + 1;
            }
            if p < r.len() && r[p] == k {
                assert(old_r[p as int] == k);
                assert(old_r.contains(k));
            } else {
                r.insert(p, k);
                proof {
                    assert forall|a: int, b: int| 0 <= a < b < r@.len() implies r@[a] < r@[b] by {
                        if b < p {
                            assert(r@[a] == old_r[a] && r@[b] == old_r[b]);
                        } else if b == p {
                            assert(r@[a] == old_r[a]);
                        } else if a < p {
                            assert(r@[b] == old_r[b - 1]);
                            assert(old_r[b - 1] >= k) by {
                                if b - 1 > p {
                                    assert(old_r[p as int] < old_r[b - 1]);
                                }
                            }
                        } else if a == p {
                            assert(r@[b] == old_r[b - 1]);
                            assert(old_r[b - 1] >= k) by {
                                if b - 1 > p {
                                    assert(old_r[p as int] < old_r[b - 1]);
                                }
                            }
                        } else {
                            assert(r@[a] == old_r[a - 1] && r@[b] == old_r[b - 1]);
                        }
                    }
                    assert forall|x: usize| r@.contains(x) <==> (old_r.contains(x) || x == k) by {
                        if r@.contains(x) {
                            let y = choose|y: int| 0 <= y < r@.len() && r@[y] == x;
                            if y < p {
                                assert(old_r[y] == x);
                            } else if y > p {
                                assert(old_r[y - 1] == x);
                            }
                        }
                        if old_r.contains(x) {
                            let y = choose|y: int| 0 <= y < old_r.len() && old_r[y] == x;
                            if y < p {
                                assert(r@[y] == x);
                            } else {
                                assert(r@[y + 1] == x);
                            }
                        }
                        if x == k {
                            assert(r@[p as int] == k);
                        }
                    }
                }
            }
        }
        proof {
            let cand = !s[i as int].disabled && matches@[i as int];
            let k0 = s[i as int].tab_index;
            assert forall|x: usize| r@.contains(x) <==> is_match(s.take(i + 1), matches@, x) by {
                if cand {
                    assert(r@.contains(x) <==> (old_r.contains(x) || x == k0));
                } else {
                    assert(r@ == old_r);
                }
            }
        }
        i = i + 1;
    }
    assert(s.take(i as int) =~= s);
    proof {
        let q = matching_spec(s, matches@);
        assert(lists_matches(r@, s, matches@));
        lemma_increasing_unique(r@, q);
    }
    r
}

/// The enabled option with tab index `k`.
pub open spec fn enabled_at(k: usize) -> spec_fn(OptionView) -> bool {
    |o: OptionView| o.tab_index == k && !o.disabled
}

/// The position of the first enabled option with tab index `k`.
fn find_enabled_at(options: &[OptionState], k: usize) -> (r: Option<usize>)
    ensures
        r matches Some(j) ==> j < options@.len() && first_where(options_view(options@), enabled_at(k))
            == Some(j as int),
        r is None ==> first_where(options_view(options@), enabled_at(k)) is None,
{
    let ghost s = options_view(options@);
    let mut i: usize = 0;
    while i < options.len()
        invariant
            0 <= i <= options@.len(),
            s == options_view(options@),
            first_where(s.take(i as int), enabled_at(k)) is None,
        decreases options@.len() - i,
    {
        assert(s.take(i + 1).drop_last() =~= s.take(i as int));
        if options[i].tab_index == k && !options[i].disabled {
            proof {
                assert(s.take(i + 1).last() == s[i as int]);
                first_where_prefix(s, enabled_at(k), i + 1);
                lemma_first_where(s, enabled_at(k));
            }
            return Some(i);
        }
        i = i + 1;
    }
    assert(s.take(i as int) =~= s);
    None
}

/// Shared state of a select-like listbox.
pub struct SelectableContext {
    /// Whether the popup is open.
    pub open: bool,
    /// The selected values, in selection order.
    pub values: Vec<RcPartialEqValue>,
    /// Whether one or several values can be selected.
    pub selection_mode: SelectionMode,
    /// The registered options.
    pub options: Vec<OptionState>,
    /// Roving focus over the options' tab indices.
    pub focus_state: FocusState,
    /// Whether the whole component is disabled.
    pub disabled: bool,
    /// The tab index to focus once the list is shown.
    pub initial_focus: Option<usize>,
}

/// The option a focused index stands for: the focus, when its item is registered and
/// enabled, and the first enabled option with that tab index.
pub open spec fn focused_option(c: SelectableContext) -> Option<int> {
    match c.focus_state@.current_focus {
        None => None,
        Some(index) => if lookup_spec(c.focus_state@.items, index) == Some(false) {
            first_where(options_view(c.options@), enabled_at(index))
        } else {
            None
        },
    }
}

/// Everything but the focus is the same in `a` and `b`, and the focus settings and items too.
pub open spec fn same_but_focus(a: SelectableContext, b: SelectableContext) -> bool {
    &&& a.open == b.open
    &&& a.values == b.values
    &&& a.selection_mode == b.selection_mode
    &&& a.options == b.options
    &&& a.disabled == b.disabled
    &&& a.initial_focus == b.initial_focus
}

impl SelectableContext {
    /// A closed context with no values and no options.
    pub fn new(selection_mode: SelectionMode, disabled: bool, roving_loop: bool) -> (r: SelectableContext)
        ensures
            !r.open,
            r.values@.len() == 0,
            r.selection_mode == selection_mode,
            r.options@.len() == 0,
            r.disabled == disabled,
            r.initial_focus is None,
            r.focus_state@ == (FocusView {
                roving_loop,
                recent_focus: None,
                current_focus: None,
                items: Seq::empty(),
            }),
            r.focus_state@.wf(),
    {
        SelectableContext {
            open: false,
            values: Vec::new(),
            selection_mode,
            options: Vec::new(),
            focus_state: FocusState::new(roving_loop),
            disabled,
            initial_focus: None,
        }
    }

    /// Opens or closes the popup.
    pub fn set_open(&mut self, open: bool)
        ensures
            *final(self) == (SelectableContext { open, ..*old(self) }),
    {
        self.open = open;
    }

    /// Opens a closed popup, closes an open one.
    pub fn toggle_open(&mut self)
        ensures
            *final(self) == (SelectableContext { open: !old(self).open, ..*old(self) }),
    {
        let open = !self.open;
        self.set_open(open);
    }

    /// The display text of the selected values.
    pub fn selected_text(&self) -> (r: Option<String>)
        ensures
            match selected_text_spec(values_view(self.values@), options_view(self.options@)) {
                Some(t) => r matches Some(x) && x@ == t,
                None => r is None,
            },
    {
        selected_text(self.values.as_slice(), self.options.as_slice())
    }

    /// Whether `value` is selected.
    pub fn is_selected(&self, value: &RcPartialEqValue) -> (r: bool)
        ensures
            r == values_view(self.values@).contains(value@),
    {
        let ghost vs = values_view(self.values@);
        let mut i: usize = 0;
        while i < self.values.len()
            invariant
                0 <= i <= self.values@.len(),
                vs == values_view(self.values@),
                forall|k: int| 0 <= k < i ==> vs[k] != value@,
            decreases self.values@.len() - i,
        {
            if self.values[i].same_value(value) {
                assert(vs[i as int] == value@);
                return true;
            }
            i = i + 1;
        }
        false
    }

    /// Whether nothing is selected.
    pub fn is_empty(&self) -> (r: bool)
        ensures
            r == (self.values@.len() == 0),
    {
        self.values.len() == 0
    }

    /// The position of the option for the focused index, when that index is enabled.
    fn focused_position(&self) -> (r: Option<usize>)
        requires
            self.focus_state@.wf(),
        ensures
            r matches Some(j) ==> j < self.options@.len() && focused_option(*self) == Some(j as int),
            r is None ==> focused_option(*self) is None,
    {
        let index = match self.focus_state.current_focus() {
            Some(i) => i,
            None => return None,
        };
        if !self.focus_state.is_enabled(index) {
            return None;
        }
        find_enabled_at(self.options.as_slice(), index)
    }

    /// The id of the option for the focused index, when that index is enabled.
    pub fn focused_option_id(&self) -> (r: Option<String>)
        requires
            self.focus_state@.wf(),
        ensures
            match focused_option(*self) {
                Some(j) => r matches Some(id) && id@ == self.options@[j].id@,
                None => r is None,
            },
    {
        match self.focused_position() {
            Some(j) => Some(self.options[j].id.clone()),
            None => None,
        }
    }

    /// Selects the option for the focused index while the popup is open: returns the value
    /// to hand to the selection callback and closes the popup in single mode; does nothing
    /// when closed or when no enabled option is focused.
    pub fn select_focused(&mut self) -> (r: Option<RcPartialEqValue>)
        requires
            old(self).focus_state@.wf(),
        ensures
            match (old(self).open, focused_option(*old(self))) {
                (true, Some(j)) => r matches Some(v) && v@ == old(self).options@[j].value@
                    && *final(self) == (SelectableContext {
                    open: old(self).selection_mode == SelectionMode::Multiple,
                    ..*old(self)
                }),
                _ => r is None && *final(self) == *old(self),
            },
    {
        if !self.open {
            return None;
        }
        match self.focused_position() {
            Some(j) => {
                let value = self.options[j].value.duplicate();
                Some(self.select_value(value))
            },
            None => None,
        }
    }

    /// Hands `value` to the selection callback (the result) and closes the popup in single
    /// mode.
    pub fn select_value(&mut self, value: RcPartialEqValue) -> (r: RcPartialEqValue)
        ensures
            r@ == value@,
            *final(self) == (SelectableContext {
                open: old(self).open && !old(self).selection_mode.closes_on_select_spec(),
                ..*old(self)
            }),
    {
        if self.selection_mode.closes_on_select() {
            self.set_open(false);
        }
        value
    }

    /// The smallest tab index among enabled options that `matches` marks.
    pub fn first_matching_enabled_index(&self, matches: &[bool]) -> (r: Option<usize>)
        requires
            matches@.len() == self.options@.len(),
        ensures
            r == seq_first(matching_spec(options_view(self.options@), matches@)),
    {
        let indices = matching_enabled_indices(self.options.as_slice(), matches);
        if indices.len() == 0 {
            None
        } else {
            Some(indices[0])
        }
    }

    /// The largest tab index among enabled options that `matches` marks.
    pub fn last_matching_enabled_index(&self, matches: &[bool]) -> (r: Option<usize>)
        requires
            matches@.len() == self.options@.len(),
        ensures
            r == seq_last(matching_spec(options_view(self.options@), matches@)),
    {
        let indices = matching_enabled_indices(self.options.as_slice(), matches);
        if indices.len() == 0 {
            None
        } else {
            Some(indices[indices.len() - 1])
        }
    }

    /// Moves focus to the next enabled option that `matches` marks.
    pub fn focus_next_where(&mut self, matches: &[bool])
        requires
            matches@.len() == old(self).options@.len(),
        ensures
            same_but_focus(*final(self), *old(self)),
            final(self).focus_state@ == old(self).focus_state@.with_focus(
                next_index_spec(
                    matching_spec(options_view(old(self).options@), matches@),
                    old(self).focus_state@.current_focus,
                    old(self).focus_state@.roving_loop,
                ),
            ),
    {
        let indices = matching_enabled_indices(self.options.as_slice(), matches);
        self.focus_state.focus_next_from_current(indices.as_slice());
    }

    /// Moves focus to the previous enabled option that `matches` marks.
    pub fn focus_prev_where(&mut self, matches: &[bool])
        requires
            matches@.len() == old(self).options@.len(),
        ensures
            same_but_focus(*final(self), *old(self)),
            final(self).focus_state@ == old(self).focus_state@.with_focus(
                prev_index_spec(
                    matching_spec(options_view(old(self).options@), matches@),
                    old(self).focus_state@.current_focus,
                    old(self).focus_state@.roving_loop,
                ),
            ),
    {
        let indices = matching_enabled_indices(self.options.as_slice(), matches);
        self.focus_state.focus_prev_from_current(indices.as_slice());
    }

    /// Focuses the first enabled option that `matches` marks (blurs when there is none).
    pub fn focus_first_where(&mut self, matches: &[bool])
        requires
            matches@.len() == old(self).options@.len(),
        ensures
            same_but_focus(*final(self), *old(self)),
            final(self).focus_state@ == old(self).focus_state@.with_focus(
                seq_first(matching_spec(options_view(old(self).options@), matches@)),
            ),
    {
        let index = self.first_matching_enabled_index(matches);
        self.focus_state.set_focus(index);
    }

    /// Focuses the last enabled option that `matches` marks (blurs when there is none).
    pub fn focus_last_where(&mut self, matches: &[bool])
        requires
            matches@.len() == old(self).options@.len(),
        ensures
            same_but_focus(*final(self), *old(self)),
            final(self).focus_state@ == old(self).focus_state@.with_focus(
                seq_last(matching_spec(options_view(old(self).options@), matches@)),
            ),
    {
        let index = self.last_matching_enabled_index(matches);
        self.focus_state.set_focus(index);
    }
    /// Selects the option for the focused index as `select_focused` does, but only when
    /// `visible` marks that option.
    pub fn select_focused_where(&mut self, visible: &[bool]) -> (r: Option<RcPartialEqValue>)
        requires
            old(self).focus_state@.wf(),
            visible@.len() == old(self).options@.len(),
        ensures
            match (old(self).open, focused_option(*old(self))) {
                (true, Some(j)) if visible@[j] => r matches Some(v) && v@ == old(self).options@[j].value@
                    && *final(self) == (SelectableContext {
                    open: old(self).selection_mode == SelectionMode::Multiple,
                    ..*old(self)
                }),
                _ => r is None && *final(self) == *old(self),
            },
    {
        if !self.open {
            return None;
        }
        match self.focused_position() {
            Some(j) => {
                if !visible[j] {
                    return None;
                }
                let value = self.options[j].value.duplicate();
                Some(self.select_value(value))
            },
            None => None,
        }
    }

    /// The id of the option for the focused index, as `focused_option_id` gives it, when
    /// `visible` marks that option.
    pub fn focused_option_id_where(&self, visible: &[bool]) -> (r: Option<String>)
        requires
            self.focus_state@.wf(),
            visible@.len() == self.options@.len(),
        ensures
            match focused_option(*self) {
                Some(j) if visible@[j] => r matches Some(id) && id@ == self.options@[j].id@,
                _ => r is None,
            },
    {
        match self.focused_position() {
            Some(j) => if visible[j] {
                Some(self.options[j].id.clone())
            } else {
                None
            },
            None => None,
        }
    }
}

/// The selected value of a single-select component as plain text, if any.
pub open spec fn single_value_spec(controlled: Option<Option<RcPartialEqValue>>, internal: Option<RcPartialEqValue>) -> Seq<Seq<char>> {
    let v = match controlled {
        Some(c) => c,
        None => internal,
    };
    match v {
        Some(x) => seq![x@],
        None => seq![],
    }
}

/// The value state of a single-select component: the value kept inside, which the owner's
/// value overrides whenever the owner controls it.
pub struct SingleSelectableValue {
    /// The value kept inside.
    pub internal: Option<RcPartialEqValue>,
}

/// Starts the value state of a single-select component with `default_value` kept inside.
pub fn use_single_selectable_value(default_value: Option<RcPartialEqValue>) -> (r: SingleSelectableValue)
    ensures
        r.internal == default_value,
{
    SingleSelectableValue { internal: default_value }
}

impl SingleSelectableValue {
    /// The selected values: none or one, the owner's value when it controls the state, else
    /// the value kept inside.
    pub fn values(&self, controlled: Option<&Option<RcPartialEqValue>>) -> (r: Vec<RcPartialEqValue>)
        ensures
            values_view(r@) == single_value_spec(
                match controlled {
                    Some(c) => Some(*c),
                    None => None,
                },
                self.internal,
            ),
    {
        let v = match controlled {
            Some(c) => c,
            None => &self.internal,
        };
        let mut r: Vec<RcPartialEqValue> = Vec::new();
        match v {
            Some(x) => r.push(x.duplicate()),
            None => {},
        }
        assert(values_view(r@) =~= single_value_spec(
            match controlled {
                Some(c) => Some(*c),
                None => None,
            },
            self.internal,
        ));
        r
    }

    /// An option was chosen: its value is kept inside and returned for the change callback.
    pub fn set_value(&mut self, incoming: RcPartialEqValue) -> (r: RcPartialEqValue)
        ensures
            final(self).internal matches Some(v) && v@ == incoming@,
            r@ == incoming@,
    {
        let reported = incoming.duplicate();
        self.internal = Some(incoming);
        reported
    }
}

/// Without an owner's value, the selected values after choosing a value are exactly that value.
pub proof fn law_single_value_read_after_write(v: RcPartialEqValue)
    ensures
        single_value_spec(None, Some(v)) == seq![v@],
{
}

/// The first position of `v` in `s` (meaningful when `s` contains `v`).
pub open spec fn first_position(s: Seq<Seq<char>>, v: Seq<char>) -> int {
    choose|i: int| 0 <= i < s.len() && s[i] == v && forall|j: int| 0 <= j < i ==> s[j] != v
}

/// The selected values after toggling `v`: its first occurrence removed when present,
/// else `v` appended.
pub open spec fn toggled(s: Seq<Seq<char>>, v: Seq<char>) -> Seq<Seq<char>> {
    if s.contains(v) {
        s.remove(first_position(s, v))
    } else {
        s.push(v)
    }
}

/// The selection of a multi-select after choosing `value`: a selected value leaves the
/// selection (its first occurrence), any other value joins it at the end.
pub fn toggle_value(values: &[RcPartialEqValue], value: &RcPartialEqValue) -> (r: Vec<RcPartialEqValue>)
    ensures
        values_view(r@) == toggled(values_view(values@), value@),
{
    let ghost s = values_view(values@);
    let mut r: Vec<RcPartialEqValue> = Vec::new();
    let mut found: bool = false;
    let mut i: usize = 0;
    while i < values.len()
        invariant
            0 <= i <= values@.len(),
            s == values_view(values@),
            !found ==> values_view(r@) == s.take(i as int) && forall|j: int| 0 <= j < i ==> s[j] != value@,
            found ==> s.contains(value@) && is_first_at(s, value@, first_position(s, value@))
                && first_position(s, value@) < i && values_view(r@) == s.take(
                i as int,
            ).remove(first_position(s, value@)),
        decreases values@.len() - i,
    {
        let same = values[i].same_value(value);
        if !found && same {
            proof {
                assert(s[i as int] == value@);
                assert(is_first_at(s, value@, i as int));
                lemma_first_position(s, value@, i as int);
                assert(s.take(i + 1).remove(i as int) =~= s.take(i as int));
            }
            found = true;
        } else {
            let ghost before = values_view(r@);
            r.push(values[i].duplicate());
            proof {
                if found {
                    let f = first_position(s, value@);
                    assert(values_view(r@) =~= before.push(s[i as int]));
                    let a = s.take(i + 1).remove(f);
                    let b = s.take(i as int).remove(f).push(s[i as int]);
                    assert(0 <= f < i);
                    assert(a.len() == b.len());
                    assert forall|k: int| 0 <= k < a.len() implies a[k] == b[k] by {
                        if k < f {
                            assert(a[k] == s[k]);
                            assert(b[k] == s[k]);
                        } else if k < i - 1 {
                            assert(a[k] == s[k + 1]);
                            assert(b[k] == s[k + 1]);
                        } else {
                            assert(a[k] == s[i as int]);
                        }
                    }
                    assert(a =~= b);
                } else {
                    assert(values_view(r@) =~= s.take(i + 1));
                }
            }
        }
        i = i + 1;
    }
    proof {
        assert(s.take(i as int) =~= s);
    }
    if !found {
        let ghost before = values_view(r@);
        r.push(value.duplicate());
        proof {
            assert(!s.contains(value@));
            assert(values_view(r@) =~= before.push(value@));
        }
    }
    r
}

/// Whether `i` is the first position of `v` in `s`.
pub open spec fn is_first_at(s: Seq<Seq<char>>, v: Seq<char>, i: int) -> bool {
    0 <= i < s.len() && s[i] == v && forall|j: int| 0 <= j < i ==> s[j] != v
}

proof fn lemma_first_position(s: Seq<Seq<char>>, v: Seq<char>, i: int)
    requires
        is_first_at(s, v, i),
    ensures
        first_position(s, v) == i,
{
    let c = first_position(s, v);
    assert(is_first_at(s, v, c));
    if c < i {
        assert(s[c] != v);
    } else if c > i {
        assert(s[i] != v);
    }
}

/// Choosing the same value twice in a multi-select leaves the selection as it was, when
/// the value was not selected before.
pub proof fn law_toggle_twice(s: Seq<Seq<char>>, v: Seq<char>)
    requires
        !s.contains(v),
    ensures
        toggled(s, v).contains(v),
        toggled(toggled(s, v), v) == s,
{
    let t = s.push(v);
    assert(t[s.len() as int] == v);
    assert forall|j: int| 0 <= j < s.len() implies t[j] != v by {
        assert(t[j] == s[j]);
    }
    assert(is_first_at(t, v, s.len() as int));
    lemma_first_position(t, v, s.len() as int);
    assert(t.remove(s.len() as int) =~= s);
}

} // verus!
