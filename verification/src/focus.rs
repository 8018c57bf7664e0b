//! Roving focus over a set of indexed items, some of which may be disabled.
//!
//! The registered items are kept in an ordered map from index to disabled flag; the
//! focus rules read it as the list of its `(index, disabled)` entries in increasing
//! index order.
use vstd::prelude::*;
use std::collections::BTreeMap;
use vstd::std_specs::btree::increasing_seq;
use vstd::std_specs::cmp::OrdSpec;
use vstd::std_specs::iter::IteratorSpec;

verus! {

broadcast use vstd::laws_cmp::group_laws_cmp;

/// Whether the keys of `items` strictly increase.
pub open spec fn keys_sorted(items: Seq<(usize, bool)>) -> bool {
    forall|i: int, j: int| 0 <= i < j < items.len() ==> items[i].0 < items[j].0
}

/// The first element of `s` that is greater than `c`.
pub open spec fn first_after(s: Seq<usize>, c: usize) -> Option<usize>
    decreases s.len(),
{
    if s.len() == 0 {
        None
    } else if s[0] > c {
        Some(s[0])
    } else {
        first_after(s.drop_first(), c)
    }
}

/// The last element of `s` that is less than `c`.
pub open spec fn last_before(s: Seq<usize>, c: usize) -> Option<usize>
    decreases s.len(),
{
    if s.len() == 0 {
        None
    } else if s.last() < c {
        Some(s.last())
    } else {
        last_before(s.drop_last(), c)
    }
}

/// The first element of `s`, if any.
pub open spec fn seq_first(s: Seq<usize>) -> Option<usize> {
    if s.len() > 0 {
        Some(s[0])
    } else {
        None
    }
}

/// The last element of `s`, if any.
pub open spec fn seq_last(s: Seq<usize>) -> Option<usize> {
    if s.len() > 0 {
        Some(s.last())
    } else {
        None
    }
}

/// The index that follows `current` among `indices`, wrapping to the first one
/// when `roving_loop` is set.
pub open spec fn next_index_spec(indices: Seq<usize>, current: Option<usize>, roving_loop: bool) -> Option<usize> {
    match current {
        Some(c) => match first_after(indices, c) {
            Some(x) => Some(x),
            None => if roving_loop {
                seq_first(indices)
            } else {
                None
            },
        },
        None => seq_first(indices),
    }
}

/// The index that precedes `current` among `indices`, wrapping to the last one
/// when `roving_loop` is set.
pub open spec fn prev_index_spec(indices: Seq<usize>, current: Option<usize>, roving_loop: bool) -> Option<usize> {
    match current {
        Some(c) => match last_before(indices, c) {
            Some(x) => Some(x),
            None => if roving_loop {
                seq_last(indices)
            } else {
                None
            },
        },
        None => if roving_loop {
            seq_last(indices)
        } else {
            seq_first(indices)
        },
    }
}

/// The indices of the enabled items, in the order of `items`.
pub open spec fn enabled_keys(items: Seq<(usize, bool)>) -> Seq<usize>
    decreases items.len(),
{
    if items.len() == 0 {
        Seq::empty()
    } else {
        let rest = enabled_keys(items.drop_last());
        if !items.last().1 {
            rest.push(items.last().0)
        } else {
            rest
        }
    }
}

/// Whether some item has index `k`.
pub open spec fn has_key(items: Seq<(usize, bool)>, k: usize) -> bool {
    exists|i: int| 0 <= i < items.len() && items[i].0 == k
}

/// The disabled flag of the item with index `k` (meaningful when `has_key`).
pub open spec fn disabled_of(items: Seq<(usize, bool)>, k: usize) -> bool {
    items[choose|i: int| 0 <= i < items.len() && items[i].0 == k].1
}

proof fn lemma_first_after(s: Seq<usize>, c: usize, i: int)
    requires
        0 <= i <= s.len(),
        forall|j: int| 0 <= j < i ==> s[j] <= c,
    ensures
        i < s.len() && s[i] > c ==> first_after(s, c) == Some(s[i]),
        i == s.len() ==> first_after(s, c) is None,
    decreases i,
{
    if i > 0 {
        lemma_first_after(s.drop_first(), c, i - 1);
    } else if s.len() > 0 {
    }
}

proof fn lemma_last_before(s: Seq<usize>, c: usize, i: int)
    requires
        0 <= i <= s.len(),
        forall|j: int| i <= j < s.len() ==> s[j] >= c,
    ensures
        i > 0 && s[i - 1] < c ==> last_before(s, c) == Some(s[i - 1]),
        i == 0 ==> last_before(s, c) is None,
    decreases s.len() - i,
{
    if i < s.len() {
        lemma_last_before(s.drop_last(), c, i);
    }
}

/// The elements found by `first_after` and `last_before` belong to the sequence.
pub proof fn lemma_first_after_contains(s: Seq<usize>, c: usize)
    ensures
        first_after(s, c) matches Some(x) ==> s.contains(x) && x > c,
        last_before(s, c) matches Some(x) ==> s.contains(x) && x < c,
    decreases s.len(),
{
    if s.len() > 0 {
        lemma_first_after_contains(s.drop_first(), c);
        lemma_first_after_contains(s.drop_last(), c);
        if first_after(s, c) is Some && s[0] <= c {
            let x = first_after(s, c)->0;
            let k = choose|k: int| 0 <= k < s.drop_first().len() && s.drop_first()[k] == x;
            assert(s[k + 1] == x);
        }
        if last_before(s, c) is Some && s.last() >= c {
            let x = last_before(s, c)->0;
            let k = choose|k: int| 0 <= k < s.drop_last().len() && s.drop_last()[k] == x;
            assert(s[k] == x);
        }
    }
}

/// Returns the index after `current` among `indices`, wrapping when `roving_loop` is set.
pub fn next_index(indices: &[usize], current: Option<usize>, roving_loop: bool) -> (r: Option<usize>)
    ensures
        r == next_index_spec(indices@, current, roving_loop),
{
    match current {
        Some(c) => {
            let mut i: usize = 0;
            while i < indices.len()
                invariant
                    0 <= i <= indices@.len(),
                    current == Some(c),
                    forall|j: int| 0 <= j < i ==> indices@[j] <= c,
                decreases indices@.len() - i,
            {
                let x = indices[i];
                if x > c {
                    proof {
                        assert(indices@[i as int] == x);
                        lemma_first_after(indices@, c, i as int);
                    }
                    return Some(x);
                }
                i = i + 1;
            }
            proof {
                lemma_first_after(indices@, c, i as int);
            }
            if roving_loop && indices.len() > 0 {
                Some(indices[0])
            } else {
                None
            }
        },
        None => {
            if indices.len() > 0 {
                Some(indices[0])
            } else {
                None
            }
        },
    }
}

/// Returns the index before `current` among `indices`, wrapping when `roving_loop` is set.
pub fn prev_index(indices: &[usize], current: Option<usize>, roving_loop: bool) -> (r: Option<usize>)
    ensures
        r == prev_index_spec(indices@, current, roving_loop),
{
    match current {
        Some(c) => {
            let mut i: usize = indices.len();
            while i > 0
                invariant
                    0 <= i <= indices@.len(),
                    current == Some(c),
                    forall|j: int| i <= j < indices@.len() ==> indices@[j] >= c,
                decreases i,
            {
                let x = indices[i - 1];
                if x < c {
                    proof {
                        assert(indices@[i - 1] == x);
                        lemma_last_before(indices@, c, i as int);
                    }
                    return Some(x);
                }
                i = i - 1;
            }
            proof {
                lemma_last_before(indices@, c, 0);
            }
            if roving_loop && indices.len() > 0 {
                Some(indices[indices.len() - 1])
            } else {
                None
            }
        },
        None => {
            if indices.len() == 0 {
                None
            } else if roving_loop {
                Some(indices[indices.len() - 1])
            } else {
                Some(indices[0])
            }
        },
    }
}


/// The optional disabled flag of the item with index `k`.
pub open spec fn lookup_spec(items: Seq<(usize, bool)>, k: usize) -> Option<bool> {
    if has_key(items, k) {
        Some(disabled_of(items, k))
    } else {
        None
    }
}

/// `items` with the entry for `k` set to `d`, keeping the keys sorted.
pub open spec fn set_key(items: Seq<(usize, bool)>, k: usize, d: bool) -> Seq<(usize, bool)>
    decreases items.len(),
{
    if items.len() == 0 {
        seq![(k, d)]
    } else if items[0].0 == k {
        seq![(k, d)] + items.drop_first()
    } else if items[0].0 > k {
        seq![(k, d)] + items
    } else {
        seq![items[0]] + set_key(items.drop_first(), k, d)
    }
}

/// `items` without any entry for `k`.
pub open spec fn remove_key(items: Seq<(usize, bool)>, k: usize) -> Seq<(usize, bool)>
    decreases items.len(),
{
    if items.len() == 0 {
        items
    } else if items[0].0 == k {
        remove_key(items.drop_first(), k)
    } else {
        seq![items[0]] + remove_key(items.drop_first(), k)
    }
}

/// In a key-sorted list, the entry at position `i` is the one found for its key.
pub proof fn lemma_entry_at(items: Seq<(usize, bool)>, i: int)
    requires
        keys_sorted(items),
        0 <= i < items.len(),
    ensures
        has_key(items, items[i].0),
        disabled_of(items, items[i].0) == items[i].1,
        lookup_spec(items, items[i].0) == Some(items[i].1),
{
    let k = items[i].0;
    assert(has_key(items, k));
    let j = choose|j: int| 0 <= j < items.len() && items[j].0 == k;
    if j < i {
        assert(items[j].0 < items[i].0);
    } else if j > i {
        assert(items[i].0 < items[j].0);
    }
}

/// The optional disabled flag that the map `m` holds for `k`.
pub open spec fn map_lookup(m: Map<usize, bool>, k: usize) -> Option<bool> {
    if m.contains_key(k) {
        Some(m[k])
    } else {
        None
    }
}

/// Whether the key-sorted list `s` holds exactly the entries of `m`.
pub open spec fn lists_map(s: Seq<(usize, bool)>, m: Map<usize, bool>) -> bool {
    &&& keys_sorted(s)
    &&& forall|x: usize| #[trigger] lookup_spec(s, x) == map_lookup(m, x)
}

/// The entries of `m` as `(index, disabled)` pairs in increasing index order.
pub open spec fn sorted_entries(m: Map<usize, bool>) -> Seq<(usize, bool)> {
    choose|s: Seq<(usize, bool)>| lists_map(s, m)
}

/// Dropping the first entry of a key-sorted list forgets exactly its key.
proof fn lemma_lookup_drop_first(s: Seq<(usize, bool)>)
    requires
        keys_sorted(s),
        s.len() > 0,
    ensures
        keys_sorted(s.drop_first()),
        forall|x: usize| #[trigger] lookup_spec(s.drop_first(), x) == (if x == s[0].0 {
            None
        } else {
            lookup_spec(s, x)
        }),
{
    let t = s.drop_first();
    assert forall|i: int, j: int| 0 <= i < j < t.len() implies t[i].0 < t[j].0 by {
        assert(t[i] == s[i + 1] && t[j] == s[j + 1]);
    }
    assert forall|x: usize| #[trigger] lookup_spec(t, x) == (if x == s[0].0 {
        None
    } else {
        lookup_spec(s, x)
    }) by {
        if has_key(t, x) {
            let i = choose|i: int| 0 <= i < t.len() && t[i].0 == x;
            assert(t[i] == s[i + 1]);
            lemma_entry_at(t, i);
            lemma_entry_at(s, i + 1);
            assert(s[0].0 < s[i + 1].0);
        } else if has_key(s, x) {
            let j = choose|j: int| 0 <= j < s.len() && s[j].0 == x;
            if j > 0 {
                assert(t[j - 1] == s[j]);
            }
        }
    }
}

/// Two key-sorted lists with the same lookups are the same list.
proof fn lemma_listing_unique(s: Seq<(usize, bool)>, t: Seq<(usize, bool)>)
    requires
        keys_sorted(s),
        keys_sorted(t),
        forall|x: usize| #[trigger] lookup_spec(s, x) == lookup_spec(t, x),
    ensures
        s == t,
    decreases s.len(),
{
    if s.len() == 0 {
        if t.len() > 0 {
            lemma_entry_at(t, 0);
            assert(lookup_spec(s, t[0].0) == lookup_spec(t, t[0].0));
        }
        assert(s =~= t);
    } else {
        lemma_entry_at(s, 0);
        assert(lookup_spec(s, s[0].0) == lookup_spec(t, s[0].0));
        let j = choose|j: int| 0 <= j < t.len() && t[j].0 == s[0].0;
        lemma_entry_at(t, 0);
        assert(lookup_spec(s, t[0].0) == lookup_spec(t, t[0].0));
        let i = choose|i: int| 0 <= i < s.len() && s[i].0 == t[0].0;
        if j > 0 {
            assert(t[0].0 < t[j].0);
        }
        if i > 0 {
            assert(s[0].0 < s[i].0);
        }
        assert(s[0] == t[0]);
        lemma_lookup_drop_first(s);
        lemma_lookup_drop_first(t);
        assert forall|x: usize| #[trigger] lookup_spec(s.drop_first(), x) == lookup_spec(
            t.drop_first(),
            x,
        ) by {
            assert(lookup_spec(s, x) == lookup_spec(t, x));
        }
        lemma_listing_unique(s.drop_first(), t.drop_first());
        assert(s =~= seq![s[0]] + s.drop_first());
        assert(t =~= seq![t[0]] + t.drop_first());
    }
}

/// Setting the entry for `k` keeps the keys sorted and changes only the lookup of `k`.
proof fn lemma_set_key_lookup(s: Seq<(usize, bool)>, k: usize, d: bool)
    requires
        keys_sorted(s),
    ensures
        keys_sorted(set_key(s, k, d)),
        forall|x: usize| #[trigger] lookup_spec(set_key(s, k, d), x) == (if x == k {
            Some(d)
        } else {
            lookup_spec(s, x)
        }),
    decreases s.len(),
{
    let r = set_key(s, k, d);
    lemma_set_key_sorted(s, k, d);
    lemma_entry_at(r, 0);
    if s.len() == 0 {
        assert forall|x: usize| #[trigger] lookup_spec(r, x) == (if x == k {
            Some(d)
        } else {
            lookup_spec(s, x)
        }) by {
            if has_key(r, x) {
                let i = choose|i: int| 0 <= i < r.len() && r[i].0 == x;
                assert(i == 0);
            }
        }
    } else {
        let t = s.drop_first();
        lemma_lookup_drop_first(s);
        lemma_lookup_drop_first(r);
        if s[0].0 == k {
            assert(r.drop_first() =~= t);
        } else if s[0].0 > k {
            assert(r.drop_first() =~= s);
        } else {
            lemma_set_key_lookup(t, k, d);
            assert(r.drop_first() =~= set_key(t, k, d));
            lemma_entry_at(s, 0);
        }
        assert forall|x: usize| #[trigger] lookup_spec(r, x) == (if x == k {
            Some(d)
        } else {
            lookup_spec(s, x)
        }) by {
            assert(lookup_spec(r.drop_first(), x) == lookup_spec(r.drop_first(), x));
            assert(lookup_spec(t, x) == lookup_spec(t, x));
        }
    }
}

/// Removing the entry for `k` keeps the keys sorted and forgets only `k`.
proof fn lemma_remove_key_lookup(s: Seq<(usize, bool)>, k: usize)
    requires
        keys_sorted(s),
    ensures
        keys_sorted(remove_key(s, k)),
        forall|x: usize| #[trigger] lookup_spec(remove_key(s, k), x) == (if x == k {
            None
        } else {
            lookup_spec(s, x)
        }),
    decreases s.len(),
{
    let r = remove_key(s, k);
    if s.len() > 0 {
        let t = s.drop_first();
        lemma_lookup_drop_first(s);
        lemma_remove_key_lookup(t, k);
        let rt = remove_key(t, k);
        if s[0].0 != k {
            assert(r =~= seq![s[0]] + rt);
            assert forall|i: int, j: int| 0 <= i < j < r.len() implies r[i].0 < r[j].0 by {
                if i == 0 {
                    let y = rt[j - 1].0;
                    assert(r[j] == rt[j - 1]);
                    lemma_entry_at(rt, j - 1);
                    assert(lookup_spec(rt, y) is Some);
                    assert(lookup_spec(t, y) is Some);
                    let m = choose|m: int| 0 <= m < t.len() && t[m].0 == y;
                    assert(t[m] == s[m + 1]);
                } else {
                    assert(r[i] == rt[i - 1] && r[j] == rt[j - 1]);
                }
            }
            lemma_lookup_drop_first(r);
            assert(r.drop_first() =~= rt);
            lemma_entry_at(r, 0);
            lemma_entry_at(s, 0);
        }
        assert forall|x: usize| #[trigger] lookup_spec(r, x) == (if x == k {
            None
        } else {
            lookup_spec(s, x)
        }) by {
            assert(lookup_spec(rt, x) == lookup_spec(rt, x));
            assert(lookup_spec(t, x) == lookup_spec(t, x));
            if s[0].0 != k {
                assert(lookup_spec(r.drop_first(), x) == lookup_spec(r.drop_first(), x));
            }
        }
    }
}

/// Every finite map has a key-sorted listing of its entries.
proof fn lemma_listing_exists(m: Map<usize, bool>)
    requires
        m.dom().finite(),
    ensures
        exists|s: Seq<(usize, bool)>| lists_map(s, m),
    decreases m.dom().len(),
{
    if m.dom().len() == 0 {
        assert(m.dom() =~= Set::empty()) by {
            if exists|x: usize| m.dom().contains(x) {
                let x = choose|x: usize| m.dom().contains(x);
                assert(m.dom().remove(x).len() < m.dom().len());
            }
        }
        let s = Seq::<(usize, bool)>::empty();
        assert(lists_map(s, m));
    } else {
        let k = m.dom().choose();
        let m2 = m.remove(k);
        assert(m2.dom() =~= m.dom().remove(k));
        lemma_listing_exists(m2);
        let s2 = choose|s: Seq<(usize, bool)>| lists_map(s, m2);
        let s = set_key(s2, k, m[k]);
        lemma_set_key_lookup(s2, k, m[k]);
        assert forall|x: usize| #[trigger] lookup_spec(s, x) == map_lookup(m, x) by {
            assert(lookup_spec(s2, x) == map_lookup(m2, x));
        }
        assert(lists_map(s, m));
    }
}

/// The sorted entries of a finite map list it, and are its only key-sorted listing.
pub proof fn lemma_sorted_entries(m: Map<usize, bool>, s: Seq<(usize, bool)>)
    requires
        m.dom().finite(),
    ensures
        lists_map(sorted_entries(m), m),
        lists_map(s, m) ==> sorted_entries(m) == s,
{
    lemma_listing_exists(m);
    let e = sorted_entries(m);
    if lists_map(s, m) {
        assert forall|x: usize| #[trigger] lookup_spec(s, x) == lookup_spec(e, x) by {
            assert(lookup_spec(s, x) == map_lookup(m, x));
            assert(lookup_spec(e, x) == map_lookup(m, x));
        }
        lemma_listing_unique(s, e);
    }
}

/// Which enabled item a placement request targets.
#[derive(Clone, Copy)]
pub enum FocusPlacement {
    /// The first enabled item.
    First,
    /// The last enabled item.
    Last,
}

/// The abstract state of a [`FocusState`].
pub struct FocusView {
    /// Whether moving past either end wraps around.
    pub roving_loop: bool,
    /// The most recently focused index.
    pub recent_focus: Option<usize>,
    /// The currently focused index.
    pub current_focus: Option<usize>,
    /// The registered items, as `(index, disabled)` pairs sorted by index.
    pub items: Seq<(usize, bool)>,
}

impl FocusView {
    /// Well-formedness: item indices strictly increase.
    pub open spec fn wf(self) -> bool {
        keys_sorted(self.items)
    }

    /// The state after focusing `index` (or blurring when `None`).
    pub open spec fn with_focus(self, index: Option<usize>) -> FocusView {
        FocusView {
            roving_loop: self.roving_loop,
            recent_focus: if index is Some {
                index
            } else {
                self.recent_focus
            },
            current_focus: index,
            items: self.items,
        }
    }

    /// The state with the item list replaced.
    pub open spec fn with_items(self, items: Seq<(usize, bool)>) -> FocusView {
        FocusView { items, ..self }
    }

    /// The enabled indices in increasing order.
    pub open spec fn enabled(self) -> Seq<usize> {
        enabled_keys(self.items)
    }

    /// The enabled item that focus skips to from a disabled `from`.
    pub open spec fn next_focus_skipping(self, from: usize) -> Option<usize> {
        next_index_spec(self.enabled(), Some(from), self.roving_loop)
    }

    /// The state after registering or updating the item `index`.
    pub open spec fn after_add_update(self, index: usize, disabled: bool) -> FocusView {
        let existing = lookup_spec(self.items, index);
        if existing == Some(disabled) {
            self
        } else {
            let updated = self.with_items(set_key(self.items, index, disabled));
            match self.current_focus {
                None => updated,
                Some(focused) => if disabled && existing is Some && focused == index {
                    updated.with_focus(None)
                } else if !disabled && lookup_spec(updated.items, focused) == Some(true) {
                    match updated.next_focus_skipping(focused) {
                        Some(next) => updated.with_focus(Some(next)),
                        None => updated,
                    }
                } else {
                    updated
                },
            }
        }
    }

    /// The state after unregistering the item `index`.
    pub open spec fn after_remove(self, index: usize) -> FocusView {
        let updated = self.with_items(remove_key(self.items, index));
        if has_key(self.items, index) && self.current_focus == Some(index) {
            updated.with_focus(None)
        } else {
            updated
        }
    }
}

/// Keys that the map's iterator yields in increasing order strictly increase.
proof fn lemma_increasing_keys(es: Seq<(&usize, &bool)>)
    requires
        increasing_seq(es.map_values(|kv: (&usize, &bool)| *kv.0)),
    ensures
        forall|i: int, j: int| 0 <= i < j < es.len() ==> *es[i].0 < *es[j].0,
{
    let ks = es.map_values(|kv: (&usize, &bool)| *kv.0);
    assert forall|i: int, j: int| 0 <= i < j < es.len() implies *es[i].0 < *es[j].0 by {
        assert(ks[i] == *es[i].0 && ks[j] == *es[j].0);
        assert(ks[i].cmp_spec(&ks[j]) is Less);
    }
}

/// Roving focus state shared by a group of focusable items.
pub struct FocusState {
    roving_loop: bool,
    recent_focus: Option<usize>,
    current_focus: Option<usize>,
    items: BTreeMap<usize, bool>,
}

impl View for FocusState {
    type V = FocusView;

    closed spec fn view(&self) -> FocusView {
        FocusView {
            roving_loop: self.roving_loop,
            recent_focus: self.recent_focus,
            current_focus: self.current_focus,
            items: sorted_entries(self.items@),
        }
    }
}

impl FocusState {
    /// The item list read off the map is its key-sorted listing.
    proof fn lemma_items(&self)
        ensures
            lists_map(self@.items, self.items@),
            self@.wf(),
    {
        lemma_sorted_entries(self.items@, Seq::empty());
    }

    /// Creates an empty focus state.
    pub fn new(roving_loop: bool) -> (r: FocusState)
        ensures
            r@ == (FocusView {
                roving_loop,
                recent_focus: None,
                current_focus: None,
                items: Seq::empty(),
            }),
            r@.wf(),
    {
        let r = FocusState {
            roving_loop,
            recent_focus: None,
            current_focus: None,
            items: BTreeMap::new(),
        };
        proof {
            lemma_sorted_entries(r.items@, Seq::empty());
            assert(lists_map(Seq::<(usize, bool)>::empty(), r.items@));
        }
        r
    }

    /// Focuses `index`, remembering it as the most recent focus; `None` blurs.
    pub fn set_focus(&mut self, index: Option<usize>)
        ensures
            final(self)@ == old(self)@.with_focus(index),
    {
        if let Some(idx) = index {
            self.recent_focus = Some(idx);
        }
        self.current_focus = index;
    }

    /// The enabled item indices in increasing order.
    pub fn enabled_indices(&self) -> (r: Vec<usize>)
        ensures
            r@ == self@.enabled(),
    {
        let ghost items = self@.items;
        let iter = self.items.iter();
        proof {
            self.lemma_items();
            let es = iter.remaining();
            let w = Seq::new(es.len(), |i: int| (*es[i].0, *es[i].1));
            lemma_increasing_keys(es);
            assert forall|i: int, j: int| 0 <= i < j < w.len() implies w[i].0 < w[j].0 by {
                assert(*es[i].0 < *es[j].0);
            }
            assert forall|x: usize| #[trigger] lookup_spec(w, x) == map_lookup(self.items@, x) by {
                if has_key(w, x) {
                    let i = choose|i: int| 0 <= i < w.len() && w[i].0 == x;
                    lemma_entry_at(w, i);
                    assert(self.items@.contains_key(*es[i].0));
                } else if self.items@.contains_key(x) {
                    assert(es.contains((&x, &self.items@[x])));
                    let i = choose|i: int| 0 <= i < es.len() && es[i] == (&x, &self.items@[x]);
                    assert(w[i].0 == x);
                }
            }
            lemma_sorted_entries(self.items@, w);
            assert(w == items);
        }
        let mut r: Vec<usize> = Vec::new();
        for (index, disabled) in it: iter
            invariant
                it.seq().len() == items.len(),
                forall|i: int| 0 <= i < items.len() ==> (*it.seq()[i].0, *it.seq()[i].1) == items[i],
                r@ == enabled_keys(items.take(it.index())),
        {
            proof {
                assert(items.take(it.index() + 1).drop_last() =~= items.take(it.index()));
                assert(items[it.index()] == (*index, *disabled));
            }
            if !*disabled {
                r.push(*index);
            }
        }
        proof {
            assert(items.take(items.len() as int) =~= items);
        }
        r
    }

    /// The smallest enabled index.
    pub fn first_enabled_index(&self) -> (r: Option<usize>)
        ensures
            r == seq_first(self@.enabled()),
    {
        let v = self.enabled_indices();
        if v.len() > 0 {
            Some(v[0])
        } else {
            None
        }
    }

    /// The largest enabled index.
    pub fn last_enabled_index(&self) -> (r: Option<usize>)
        ensures
            r == seq_last(self@.enabled()),
    {
        let v = self.enabled_indices();
        if v.len() > 0 {
            Some(v[v.len() - 1])
        } else {
            None
        }
    }

    /// Focuses the index after `current` among `indices`.
    pub fn focus_next_from(&mut self, current: Option<usize>, indices: &[usize])
        ensures
            final(self)@ == old(self)@.with_focus(
                next_index_spec(indices@, current, old(self)@.roving_loop),
            ),
    {
        let next = next_index(indices, current, self.roving_loop);
        self.set_focus(next);
    }

    /// Focuses the index before `current` among `indices`.
    pub fn focus_prev_from(&mut self, current: Option<usize>, indices: &[usize])
        ensures
            final(self)@ == old(self)@.with_focus(
                prev_index_spec(indices@, current, old(self)@.roving_loop),
            ),
    {
        let prev = prev_index(indices, current, self.roving_loop);
        self.set_focus(prev);
    }

    /// Focuses the enabled item after the most recently focused one.
    pub fn focus_next(&mut self)
        ensures
            final(self)@ == old(self)@.with_focus(
                next_index_spec(old(self)@.enabled(), old(self)@.recent_focus, old(self)@.roving_loop),
            ),
    {
        let indices = self.enabled_indices();
        let recent = self.recent_focus;
        self.focus_next_from(recent, indices.as_slice());
    }

    /// Focuses the enabled item before the most recently focused one.
    pub fn focus_prev(&mut self)
        ensures
            final(self)@ == old(self)@.with_focus(
                prev_index_spec(old(self)@.enabled(), old(self)@.recent_focus, old(self)@.roving_loop),
            ),
    {
        let indices = self.enabled_indices();
        let recent = self.recent_focus;
        self.focus_prev_from(recent, indices.as_slice());
    }

    /// Focuses the first enabled item (blurs when there is none).
    pub fn focus_first(&mut self)
        ensures
            final(self)@ == old(self)@.with_focus(seq_first(old(self)@.enabled())),
    {
        let first = self.first_enabled_index();
        self.set_focus(first);
    }

    /// Focuses the last enabled item (blurs when there is none).
    pub fn focus_last(&mut self)
        ensures
            final(self)@ == old(self)@.with_focus(seq_last(old(self)@.enabled())),
    {
        let last = self.last_enabled_index();
        self.set_focus(last);
    }

    /// Focuses the index after the current focus among `indices`.
    pub fn focus_next_from_current(&mut self, indices: &[usize])
        ensures
            final(self)@ == old(self)@.with_focus(
                next_index_spec(indices@, old(self)@.current_focus, old(self)@.roving_loop),
            ),
    {
        let current = self.current_focus;
        self.focus_next_from(current, indices);
    }

    /// Focuses the index before the current focus among `indices`.
    pub fn focus_prev_from_current(&mut self, indices: &[usize])
        ensures
            final(self)@ == old(self)@.with_focus(
                prev_index_spec(indices@, old(self)@.current_focus, old(self)@.roving_loop),
            ),
    {
        let current = self.current_focus;
        self.focus_prev_from(current, indices);
    }

    /// Focuses the first or last enabled item; returns whether there was one.
    pub fn try_focus_placement(&mut self, placement: FocusPlacement) -> (r: bool)
        ensures
            ({
                let target = match placement {
                    FocusPlacement::First => seq_first(old(self)@.enabled()),
                    FocusPlacement::Last => seq_last(old(self)@.enabled()),
                };
                &&& r == target is Some
                &&& r ==> final(self)@ == old(self)@.with_focus(target)
                &&& !r ==> final(self)@ == old(self)@
            }),
    {
        let target = match placement {
            FocusPlacement::First => self.first_enabled_index(),
            FocusPlacement::Last => self.last_enabled_index(),
        };
        match target {
            Some(index) => {
                self.set_focus(Some(index));
                true
            },
            None => false,
        }
    }

    /// A pending request to focus the first or last item, settled once the items are in
    /// place: while inactive the request is dropped; otherwise it is carried out when
    /// there is an enabled item, and then dropped.
    pub fn use_deferred_focus(&mut self, placement: &mut Option<FocusPlacement>, active: bool)
        ensures
            !active ==> *final(placement) is None && final(self)@ == old(self)@,
            active ==> match *old(placement) {
                None => *final(placement) is None && final(self)@ == old(self)@,
                Some(p) => {
                    let target = match p {
                        FocusPlacement::First => seq_first(old(self)@.enabled()),
                        FocusPlacement::Last => seq_last(old(self)@.enabled()),
                    };
                    &&& target is Some ==> *final(placement) is None && final(self)@ == old(self)@.with_focus(target)
                    &&& target is None ==> *final(placement) == Some(p) && final(self)@ == old(self)@
                },
            },
    {
        if !active {
            *placement = None;
            return;
        }
        match *placement {
            Some(p) => {
                if self.try_focus_placement(p) {
                    *placement = None;
                }
            },
            None => {},
        }
    }

    /// Removes focus.
    pub fn blur(&mut self)
        ensures
            final(self)@ == old(self)@.with_focus(None),
    {
        self.set_focus(None);
    }

    /// Whether some item is focused.
    pub fn any_focused(&self) -> (r: bool)
        ensures
            r == self@.current_focus is Some,
    {
        self.current_focus.is_some()
    }

    /// Whether the item `id` is focused.
    pub fn is_focused(&self, id: usize) -> (r: bool)
        ensures
            r == (self@.current_focus == Some(id)),
    {
        match self.current_focus {
            Some(x) => x == id,
            None => false,
        }
    }

    /// The currently focused index.
    pub fn current_focus(&self) -> (r: Option<usize>)
        ensures
            r == self@.current_focus,
    {
        self.current_focus
    }

    /// The most recently focused index.
    pub fn recent_focus(&self) -> (r: Option<usize>)
        ensures
            r == self@.recent_focus,
    {
        self.recent_focus
    }

    /// The disabled flag of the item `index`, if it is registered.
    pub fn lookup(&self, index: usize) -> (r: Option<bool>)
        requires
            self@.wf(),
        ensures
            r == lookup_spec(self@.items, index),
    {
        proof {
            self.lemma_items();
        }
        match self.items.get(&index) {
            Some(d) => Some(*d),
            None => None,
        }
    }

    /// Whether the item `index` is registered and enabled.
    pub fn is_enabled(&self, index: usize) -> (r: bool)
        requires
            self@.wf(),
        ensures
            r == (lookup_spec(self@.items, index) == Some(false)),
    {
        match self.lookup(index) {
            Some(d) => !d,
            None => false,
        }
    }

    /// Whether the mounted element of item `index` should take the browser's focus: the
    /// item is focused and enabled.
    pub fn control_mount_focus(&self, index: usize) -> (r: bool)
        requires
            self@.wf(),
        ensures
            r == (self@.current_focus == Some(index) && lookup_spec(self@.items, index) == Some(false)),
    {
        self.is_focused(index) && self.is_enabled(index)
    }

    /// The most recent focus if it is still enabled, else the first enabled index, else 0.
    pub fn recent_focus_or_default(&self) -> (r: usize)
        requires
            self@.wf(),
        ensures
            r == (match self@.recent_focus {
                Some(i) if lookup_spec(self@.items, i) == Some(false) => i,
                _ => match seq_first(self@.enabled()) {
                    Some(f) => f,
                    None => 0,
                },
            }),
    {
        if let Some(i) = self.recent_focus {
            if self.is_enabled(i) {
                return i;
            }
        }
        match self.first_enabled_index() {
            Some(f) => f,
            None => 0,
        }
    }

    /// The enabled item after `from`, wrapping when roving is on.
    pub fn next_focus_skipping(&self, from: usize) -> (r: Option<usize>)
        ensures
            r == self@.next_focus_skipping(from),
    {
        let indices = self.enabled_indices();
        next_index(indices.as_slice(), Some(from), self.roving_loop)
    }

    fn set_item(&mut self, index: usize, disabled: bool)
        requires
            old(self)@.wf(),
        ensures
            final(self)@ == old(self)@.with_items(set_key(old(self)@.items, index, disabled)),
            final(self)@.wf(),
    {
        let ghost before = self@.items;
        proof {
            self.lemma_items();
            lemma_set_key_lookup(before, index, disabled);
        }
        self.items.insert(index, disabled);
        proof {
            let u = set_key(before, index, disabled);
            assert forall|x: usize| #[trigger] lookup_spec(u, x) == map_lookup(self.items@, x) by {
                assert(lookup_spec(before, x) == map_lookup(old(self).items@, x));
            }
            lemma_sorted_entries(self.items@, u);
        }
    }

    /// Registers the item `index`, or updates its disabled flag, then moves focus
    /// off an item that became disabled, or off a disabled item when another became enabled.
    pub fn add_update_item(&mut self, index: usize, disabled: bool)
        requires
            old(self)@.wf(),
        ensures
            final(self)@ == old(self)@.after_add_update(index, disabled),
            final(self)@.wf(),
    {
        let existing = self.lookup(index);
        if existing == Some(disabled) {
            return;
        }
        let existed = existing.is_some();
        self.set_item(index, disabled);
        let focused = match self.current_focus {
            Some(f) => f,
            None => return,
        };
        if disabled && existed && focused == index {
            self.blur();
        } else if !disabled && self.lookup(focused) == Some(true) {
            if let Some(next) = self.next_focus_skipping(focused) {
                self.set_focus(Some(next));
            }
        }
    }

    /// Unregisters the item `index`, blurring if it was focused.
    pub fn remove_item(&mut self, index: usize)
        requires
            old(self)@.wf(),
        ensures
            final(self)@ == old(self)@.after_remove(index),
            final(self)@.wf(),
    {
        let ghost before = self@.items;
        proof {
            self.lemma_items();
            lemma_remove_key_lookup(before, index);
        }
        let removed = self.items.remove(&index).is_some();
        proof {
            let u = remove_key(before, index);
            assert forall|x: usize| #[trigger] lookup_spec(u, x) == map_lookup(self.items@, x) by {
                assert(lookup_spec(before, x) == map_lookup(old(self).items@, x));
            }
            lemma_sorted_entries(self.items@, u);
            assert(lookup_spec(before, index) == map_lookup(old(self).items@, index));
        }
        if removed && self.current_focus == Some(index) {
            self.set_focus(None);
        }
    }
}


/// Whether some entry of `items` has index `x` and is enabled.
pub open spec fn entry_enabled(items: Seq<(usize, bool)>, x: usize) -> bool {
    exists|i: int| 0 <= i < items.len() && items[i].0 == x && !items[i].1
}

/// Whether `s` strictly increases.
pub open spec fn strictly_ascending(s: Seq<usize>) -> bool {
    forall|i: int, j: int| 0 <= i < j < s.len() ==> s[i] < s[j]
}

/// The enabled indices strictly increase and are exactly the enabled entries.
pub proof fn lemma_enabled_keys(items: Seq<(usize, bool)>)
    requires
        keys_sorted(items),
    ensures
        strictly_ascending(enabled_keys(items)),
        forall|x: usize| #[trigger] enabled_keys(items).contains(x) <==> entry_enabled(items, x),
        forall|x: usize| #[trigger] entry_enabled(items, x) <==> lookup_spec(items, x) == Some(false),
    decreases items.len(),
{
    let e = enabled_keys(items);
    if items.len() > 0 {
        let t = items.drop_last();
        assert(keys_sorted(t)) by {
            assert forall|i: int, j: int| 0 <= i < j < t.len() implies t[i].0 < t[j].0 by {
                assert(t[i] == items[i] && t[j] == items[j]);
            }
        }
        lemma_enabled_keys(t);
        let et = enabled_keys(t);
        let last = items.last();
        assert forall|k: int| 0 <= k < et.len() implies et[k] < last.0 by {
            assert(et.contains(et[k]));
            assert(entry_enabled(t, et[k]));
            let i = choose|i: int| 0 <= i < t.len() && t[i].0 == et[k] && !t[i].1;
            assert(items[i] == t[i]);
        }
        assert forall|x: usize| e.contains(x) <==> entry_enabled(items, x) by {
            if e.contains(x) {
                if !last.1 && x == last.0 {
                    assert(items[items.len() - 1].0 == x);
                } else {
                    let k = choose|k: int| 0 <= k < e.len() && e[k] == x;
                    if !last.1 {
                        assert(k < et.len());
                    }
                    assert(et[k] == x);
                    assert(et.contains(x));
                    let i = choose|i: int| 0 <= i < t.len() && t[i].0 == x && !t[i].1;
                    assert(items[i] == t[i]);
                }
            }
            if entry_enabled(items, x) {
                let i = choose|i: int| 0 <= i < items.len() && items[i].0 == x && !items[i].1;
                if i == items.len() - 1 {
                    assert(e[e.len() - 1] == x);
                } else {
                    assert(t[i] == items[i]);
                    assert(entry_enabled(t, x));
                    assert(et.contains(x));
                    let k = choose|k: int| 0 <= k < et.len() && et[k] == x;
                    if !last.1 {
                        assert(e =~= et.push(last.0));
                    }
                    assert(e[k] == x);
                }
            }
        }
    }
    assert forall|x: usize| entry_enabled(items, x) <==> lookup_spec(items, x) == Some(false) by {
        if entry_enabled(items, x) {
            let i = choose|i: int| 0 <= i < items.len() && items[i].0 == x && !items[i].1;
            lemma_entry_at(items, i);
        }
        if lookup_spec(items, x) == Some(false) {
            let j = choose|j: int| 0 <= j < items.len() && items[j].0 == x;
            lemma_entry_at(items, j);
        }
    }
}

proof fn lemma_first_after_ascending(s: Seq<usize>, c: usize, x: usize)
    requires
        strictly_ascending(s),
        first_after(s, c) == Some(x),
    ensures
        forall|k: int| 0 <= k < s.len() && s[k] < x ==> s[k] <= c,
    decreases s.len(),
{
    if s.len() > 0 && s[0] <= c {
        let t = s.drop_first();
        lemma_first_after_ascending(t, c, x);
        assert forall|k: int| 0 <= k < s.len() && s[k] < x implies s[k] <= c by {
            if k > 0 {
                assert(s[k] == t[k - 1]);
            }
        }
    }
}

proof fn lemma_last_before_largest(s: Seq<usize>, c: usize)
    requires
        s.contains(c),
        strictly_ascending(s),
    ensures
        forall|x: usize| s.contains(x) && x < c ==> (last_before(s, c) matches Some(y) && x <= y),
    decreases s.len(),
{
    if s.len() > 0 {
        let t = s.drop_last();
        if s.last() >= c {
            if s.last() != c {
                let k = choose|k: int| 0 <= k < s.len() && s[k] == c;
                assert(t[k] == c);
                lemma_last_before_largest(t, c);
            }
            assert forall|x: usize| s.contains(x) && x < c implies (last_before(s, c) matches Some(y) && x
                <= y) by {
                let k = choose|k: int| 0 <= k < s.len() && s[k] == x;
                assert(k < s.len() - 1);
                assert(t[k] == x);
                assert(t.contains(x));
                if s.last() == c {
                    lemma_first_after_contains(t, c);
                    lemma_last_before_in_prefix(t, c, k);
                }
            }
        } else {
            assert forall|x: usize| s.contains(x) && x < c implies (last_before(s, c) matches Some(y) && x
                <= y) by {
                let k = choose|k: int| 0 <= k < s.len() && s[k] == x;
                if k < s.len() - 1 {
                    assert(s[k] < s[s.len() - 1]);
                }
            }
        }
    }
}

proof fn lemma_last_before_in_prefix(s: Seq<usize>, c: usize, k: int)
    requires
        strictly_ascending(s),
        forall|j: int| 0 <= j < s.len() ==> s[j] < c,
        0 <= k < s.len(),
    ensures
        last_before(s, c) matches Some(y) && s[k] <= y,
{
    if k < s.len() - 1 {
        assert(s[k] < s[s.len() - 1]);
    }
}

/// Moving focus forward and then back returns to where it started, as long as the
/// forward move did not wrap around.
pub proof fn law_next_then_prev(indices: Seq<usize>, c: usize, roving_loop: bool)
    requires
        strictly_ascending(indices),
        indices.contains(c),
        (next_index_spec(indices, Some(c), roving_loop) matches Some(n) && n > c),
    ensures
        prev_index_spec(indices, next_index_spec(indices, Some(c), roving_loop), roving_loop) == Some(c),
{
    let n = next_index_spec(indices, Some(c), roving_loop)->0;
    if first_after(indices, c) is None {
        // wrapped: the first index would not exceed c
        let k = choose|k: int| 0 <= k < indices.len() && indices[k] == c;
        if k > 0 {
            assert(indices[0] < indices[k]);
        }
        assert(false);
    }
    assert(first_after(indices, c) == Some(n));
    lemma_first_after_contains(indices, c);
    lemma_first_after_ascending(indices, c, n);
    lemma_last_before_largest(indices, n);
    lemma_first_after_contains(indices, n);
    let y = last_before(indices, n)->0;
    assert(indices.contains(y) && y < n);
    let ky = choose|k: int| 0 <= k < indices.len() && indices[k] == y;
    assert(indices[ky] <= c);
}

/// Every focus move among the enabled items lands on an enabled item.
pub proof fn law_focus_moves_land_on_enabled(v: FocusView, current: Option<usize>)
    requires
        v.wf(),
    ensures
        next_index_spec(v.enabled(), current, v.roving_loop) matches Some(x) ==> lookup_spec(v.items, x)
            == Some(false),
        prev_index_spec(v.enabled(), current, v.roving_loop) matches Some(x) ==> lookup_spec(v.items, x)
            == Some(false),
        seq_first(v.enabled()) matches Some(x) ==> lookup_spec(v.items, x) == Some(false),
        seq_last(v.enabled()) matches Some(x) ==> lookup_spec(v.items, x) == Some(false),
{
    let e = v.enabled();
    lemma_enabled_keys(v.items);
    if let Some(c) = current {
        lemma_first_after_contains(e, c);
    }
    if e.len() > 0 {
        assert(e.contains(e[0]));
        assert(e.contains(e[e.len() - 1]));
    }
}

proof fn lemma_set_key_keys(s: Seq<(usize, bool)>, k: usize, d: bool)
    ensures
        forall|x: usize| #[trigger] has_key(set_key(s, k, d), x) <==> (has_key(s, x) || x == k),
    decreases s.len(),
{
    let r = set_key(s, k, d);
    if s.len() > 0 {
        let t = s.drop_first();
        lemma_set_key_keys(t, k, d);
        assert forall|x: usize| has_key(r, x) <==> (has_key(s, x) || x == k) by {
            if s[0].0 == k {
                if has_key(s, x) {
                    let i = choose|i: int| 0 <= i < s.len() && s[i].0 == x;
                    if i > 0 {
                        assert(r[i] == s[i]);
                    } else {
                        assert(r[0].0 == x);
                    }
                }
                if x == k {
                    assert(r[0].0 == k);
                }
                if has_key(r, x) {
                    let i = choose|i: int| 0 <= i < r.len() && r[i].0 == x;
                    if i > 0 {
                        assert(s[i] == r[i]);
                    }
                }
            } else if s[0].0 > k {
                if has_key(s, x) {
                    let i = choose|i: int| 0 <= i < s.len() && s[i].0 == x;
                    assert(r[i + 1] == s[i]);
                }
                if x == k {
                    assert(r[0].0 == k);
                }
                if has_key(r, x) {
                    let i = choose|i: int| 0 <= i < r.len() && r[i].0 == x;
                    if i > 0 {
                        assert(s[i - 1] == r[i]);
                    }
                }
            } else {
                let rt = set_key(t, k, d);
                assert(r =~= seq![s[0]] + rt);
                if has_key(s, x) {
                    let i = choose|i: int| 0 <= i < s.len() && s[i].0 == x;
                    if i > 0 {
                        assert(t[i - 1] == s[i]);
                        assert(has_key(t, x));
                        assert(has_key(rt, x));
                        let j = choose|j: int| 0 <= j < rt.len() && rt[j].0 == x;
                        assert(r[j + 1] == rt[j]);
                    } else {
                        assert(r[0].0 == x);
                    }
                }
                if x == k {
                    assert(has_key(rt, k) == (has_key(t, k) || k == k));
                    assert(has_key(rt, k));
                    let j = choose|j: int| 0 <= j < rt.len() && rt[j].0 == k;
                    assert(r[j + 1] == rt[j]);
                }
                if has_key(r, x) {
                    let i = choose|i: int| 0 <= i < r.len() && r[i].0 == x;
                    if i > 0 {
                        assert(rt[i - 1] == r[i]);
                        assert(has_key(rt, x));
                        if x != k {
                            let j = choose|j: int| 0 <= j < t.len() && t[j].0 == x;
                            assert(s[j + 1] == t[j]);
                        }
                    } else {
                        assert(s[0].0 == x);
                    }
                }
            }
        }
    } else {
        assert forall|x: usize| has_key(r, x) <==> (has_key(s, x) || x == k) by {
            if x == k {
                assert(r[0].0 == k);
            }
        }
    }
}

proof fn lemma_remove_key_keys(s: Seq<(usize, bool)>, k: usize)
    ensures
        forall|x: usize| #[trigger] has_key(remove_key(s, k), x) <==> (has_key(s, x) && x != k),
    decreases s.len(),
{
    let r = remove_key(s, k);
    if s.len() > 0 {
        let t = s.drop_first();
        lemma_remove_key_keys(t, k);
        let rt = remove_key(t, k);
        assert forall|x: usize| has_key(r, x) <==> (has_key(s, x) && x != k) by {
            if has_key(s, x) && x != k {
                let i = choose|i: int| 0 <= i < s.len() && s[i].0 == x;
                if i > 0 {
                    assert(t[i - 1] == s[i]);
                    assert(has_key(t, x));
                    assert(has_key(rt, x));
                    let j = choose|j: int| 0 <= j < rt.len() && rt[j].0 == x;
                    if s[0].0 == k {
                        assert(r[j] == rt[j]);
                    } else {
                        assert(r[j + 1] == rt[j]);
                    }
                } else {
                    assert(r[0].0 == x);
                }
            }
            if has_key(r, x) {
                let i = choose|i: int| 0 <= i < r.len() && r[i].0 == x;
                if s[0].0 == k {
                    assert(rt[i] == r[i]);
                    assert(has_key(rt, x));
                    let j = choose|j: int| 0 <= j < t.len() && t[j].0 == x;
                    assert(s[j + 1] == t[j]);
                } else if i > 0 {
                    assert(rt[i - 1] == r[i]);
                    assert(has_key(rt, x));
                    let j = choose|j: int| 0 <= j < t.len() && t[j].0 == x;
                    assert(s[j + 1] == t[j]);
                } else {
                    assert(s[0].0 == x);
                }
            }
        }
    }
}

/// Whether the current focus, if any, is on a registered item.
pub open spec fn focus_registered(v: FocusView) -> bool {
    v.current_focus matches Some(c) ==> has_key(v.items, c)
}

/// Registering, updating and unregistering items never leaves focus on an
/// unregistered item; an item is registered exactly when it was added and not removed.
pub proof fn law_focus_stays_registered(v: FocusView, index: usize, disabled: bool)
    requires
        v.wf(),
        focus_registered(v),
    ensures
        focus_registered(v.after_add_update(index, disabled)),
        focus_registered(v.after_remove(index)),
        has_key(v.after_add_update(index, disabled).items, index),
        !has_key(v.after_remove(index).items, index),
        lookup_spec(v.after_add_update(index, disabled).items, index) == Some(disabled),
{
    lemma_set_key_keys(v.items, index, disabled);
    lemma_remove_key_keys(v.items, index);
    let u = set_key(v.items, index, disabled);
    lemma_set_key_sorted(v.items, index, disabled);
    let w = v.after_add_update(index, disabled);
    if lookup_spec(v.items, index) == Some(disabled) {
    } else {
        if let Some(c) = v.current_focus {
            let vu = v.with_items(u);
            if let Some(n) = vu.next_focus_skipping(c) {
                lemma_enabled_keys(u);
                lemma_first_after_contains(enabled_keys(u), c);
                if enabled_keys(u).len() > 0 {
                    assert(enabled_keys(u).contains(enabled_keys(u)[0]));
                }
                assert(entry_enabled(u, n));
            }
        }
    }
    assert(has_key(u, index));
    let j = choose|j: int| 0 <= j < u.len() && u[j].0 == index;
    lemma_entry_at(u, j);
    lemma_set_key_value(v.items, index, disabled);
}

proof fn lemma_set_key_sorted(s: Seq<(usize, bool)>, k: usize, d: bool)
    requires
        keys_sorted(s),
    ensures
        keys_sorted(set_key(s, k, d)),
        set_key(s, k, d).len() > 0,
        set_key(s, k, d)[0].0 == (if s.len() > 0 && s[0].0 < k {
            s[0].0
        } else {
            k
        }),
    decreases s.len(),
{
    if s.len() > 0 {
        let t = s.drop_first();
        lemma_set_key_sorted(t, k, d);
    }
}

proof fn lemma_set_key_value(s: Seq<(usize, bool)>, k: usize, d: bool)
    ensures
        exists|j: int| 0 <= j < set_key(s, k, d).len() && set_key(s, k, d)[j] == (k, d),
    decreases s.len(),
{
    let r = set_key(s, k, d);
    if s.len() == 0 || s[0].0 >= k {
        assert(r[0] == (k, d));
    } else {
        let t = s.drop_first();
        lemma_set_key_value(t, k, d);
        let j = choose|j: int| 0 <= j < set_key(t, k, d).len() && set_key(t, k, d)[j] == (k, d);
        assert(r[j + 1] == (k, d));
    }
}

} // verus!
