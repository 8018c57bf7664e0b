//! Open items and keyboard navigation of an accordion.
use vstd::prelude::*;
use crate::focus::{FocusState, FocusView, next_index_spec, prev_index_spec, seq_first, seq_last};

verus! {

/// A navigation key of an accordion trigger.
#[derive(Clone, Copy, PartialEq, Eq, Structural, Debug)]
pub enum NavKey {
    /// Up arrow.
    ArrowUp,
    /// Down arrow.
    ArrowDown,
    /// Left arrow.
    ArrowLeft,
    /// Right arrow.
    ArrowRight,
    /// Home.
    Home,
    /// End.
    End,
    /// Any other key.
    Other,
}

/// Shared state of an accordion.
pub struct AccordionContext {
    /// The id the next registered item gets.
    pub next_id: usize,
    /// The ids of the open items, in the order they were opened.
    pub open_items: Vec<usize>,
    /// Whether several items can be open at once.
    pub allow_multiple_open: bool,
    /// Whether the whole accordion is disabled.
    pub disabled: bool,
    /// Whether the last open item may be closed.
    pub collapsible: bool,
    /// Whether the items are laid out horizontally.
    pub horizontal: bool,
    /// Roving focus over the item ids.
    pub focus: FocusState,
}

/// The open items after opening `id`: it alone in single mode, else added at the end.
pub open spec fn opened(items: Seq<usize>, id: usize, multiple: bool) -> Seq<usize> {
    if multiple {
        items.push(id)
    } else {
        seq![id]
    }
}

/// Every id but `id`.
pub open spec fn other_than(id: usize) -> spec_fn(usize) -> bool {
    |x: usize| x != id
}

/// The open items after closing `id`: unchanged when the accordion is not collapsible
/// and exactly one item is open, else without `id`.
pub open spec fn closed(items: Seq<usize>, id: usize, collapsible: bool) -> Seq<usize> {
    if !collapsible && items.len() == 1 {
        items
    } else {
        items.filter(other_than(id))
    }
}

impl AccordionContext {
    /// The next id to hand out.
    pub open spec fn next_id_spec(&self) -> usize {
        self.next_id
    }

    /// The ids of the open items, in the order they were opened.
    pub open spec fn open_items_spec(&self) -> Seq<usize> {
        self.open_items@
    }

    /// An accordion with no items; focus wraps around.
    pub fn new(allow_multiple_open: bool, disabled: bool, collapsible: bool, horizontal: bool) -> (r: AccordionContext)
        ensures
            r.next_id_spec() == 0,
            r.open_items_spec() == Seq::<usize>::empty(),
            r.allow_multiple_open == allow_multiple_open,
            r.disabled == disabled,
            r.collapsible == collapsible,
            r.horizontal == horizontal,
            r.focus@ == (FocusView {
                roving_loop: true,
                recent_focus: None,
                current_focus: None,
                items: Seq::empty(),
            }),
            r.focus@.wf(),
    {
        AccordionContext {
            next_id: 0,
            open_items: Vec::new(),
            allow_multiple_open,
            disabled,
            collapsible,
            horizontal,
            focus: FocusState::new(true),
        }
    }

    /// Hands out a fresh item id.
    pub fn register_item(&mut self) -> (r: usize)
        requires
            old(self).next_id_spec() < usize::MAX,
        ensures
            r == old(self).next_id_spec(),
            final(self).next_id_spec() == old(self).next_id_spec() + 1,
            final(self).open_items_spec() == old(self).open_items_spec(),
            final(self).allow_multiple_open == old(self).allow_multiple_open,
            final(self).collapsible == old(self).collapsible,
            final(self).focus == old(self).focus,
    {
        let id = self.next_id;
        self.next_id = id + 1;
        id
    }

    /// Opens the item `id`, closing the others unless several may be open.
    pub fn set_open(&mut self, id: usize)
        ensures
            final(self).open_items_spec() == opened(old(self).open_items_spec(), id, old(self).allow_multiple_open),
            final(self).next_id_spec() == old(self).next_id_spec(),
            final(self).allow_multiple_open == old(self).allow_multiple_open,
            final(self).collapsible == old(self).collapsible,
            final(self).focus == old(self).focus,
    {
        if !self.allow_multiple_open {
            self.open_items.clear();
        }
        self.open_items.push(id);
        proof {
            if !old(self).allow_multiple_open {
                assert(self.open_items@ =~= seq![id]);
            }
        }
    }

    /// Closes the item `id`, unless it would close the last open item of an accordion that
    /// is not collapsible.
    pub fn set_closed(&mut self, id: usize)
        ensures
            final(self).open_items_spec() == closed(old(self).open_items_spec(), id, old(self).collapsible),
            final(self).next_id_spec() == old(self).next_id_spec(),
            final(self).allow_multiple_open == old(self).allow_multiple_open,
            final(self).collapsible == old(self).collapsible,
            final(self).focus == old(self).focus,
    {
        if !self.collapsible && self.open_items.len() == 1 {
            return;
        }
        let ghost s = self.open_items@;
        let ghost keep = other_than(id);
        let mut kept: Vec<usize> = Vec::new();
        let mut i: usize = 0;
        while i < self.open_items.len()
            invariant
                0 <= i <= self.open_items@.len(),
                s == self.open_items@,
                keep == other_than(id),
                kept@ == s.take(i as int).filter(keep),
            decreases self.open_items@.len() - i,
        {
            proof {
                assert(s.take(i + 1).drop_last() =~= s.take(i as int));
                reveal(Seq::filter);
            }
            let x = self.open_items[i];
            if x != id {
                kept.push(x);
            }
            i = i + 1;
        }
        assert(s.take(i as int) =~= s);
        self.open_items = kept;
    }

    /// Whether the item `id` is open.
    pub fn is_open(&self, id: usize) -> (r: bool)
        ensures
            r == self.open_items_spec().contains(id),
    {
        let mut i: usize = 0;
        while i < self.open_items.len()
            invariant
                0 <= i <= self.open_items@.len(),
                forall|k: int| 0 <= k < i ==> self.open_items@[k] != id,
            decreases self.open_items@.len() - i,
        {
            if self.open_items[i] == id {
                assert(self.open_items@[i as int] == id);
                return true;
            }
            i = i + 1;
        }
        false
    }

    /// Whether the whole accordion is disabled.
    pub fn is_disabled(&self) -> (r: bool)
        ensures
            r == self.disabled,
    {
        self.disabled
    }

    /// Whether the items are laid out horizontally.
    pub fn is_horizontal(&self) -> (r: bool)
        ensures
            r == self.horizontal,
    {
        self.horizontal
    }

    /// A click on the trigger of item `id`: nothing when it is disabled (result false);
    /// else the item's click callback is due (result true) and the item closes when open,
    /// opens when closed.
    pub fn trigger_click(&mut self, id: usize, item_disabled: bool) -> (r: bool)
        ensures
            r == !(old(self).disabled || item_disabled),
            final(self).open_items_spec() == if !r {
                old(self).open_items_spec()
            } else if old(self).open_items_spec().contains(id) {
                closed(old(self).open_items_spec(), id, old(self).collapsible)
            } else {
                opened(old(self).open_items_spec(), id, old(self).allow_multiple_open)
            },
            final(self).next_id_spec() == old(self).next_id_spec(),
            final(self).allow_multiple_open == old(self).allow_multiple_open,
            final(self).collapsible == old(self).collapsible,
            final(self).focus == old(self).focus,
    {
        if self.disabled || item_disabled {
            return false;
        }
        if self.is_open(id) {
            self.set_closed(id);
        } else {
            self.set_open(id);
        }
        true
    }

    /// A key press on a trigger: arrows along the layout move focus, Home and End go to the
    /// first and last item. Returns whether the key was handled (its default action is
    /// then prevented).
    pub fn trigger_keydown(&mut self, key: NavKey) -> (r: bool)
        ensures
            ({
                let f = old(self).focus@;
                let back = (key == NavKey::ArrowUp && !old(self).horizontal) || (key == NavKey::ArrowLeft
                    && old(self).horizontal);
                let forward = (key == NavKey::ArrowDown && !old(self).horizontal) || (key
                    == NavKey::ArrowRight && old(self).horizontal);
                &&& r == (back || forward || key == NavKey::Home || key == NavKey::End)
                &&& final(self).focus@ == if back {
                    f.with_focus(prev_index_spec(f.enabled(), f.recent_focus, f.roving_loop))
                } else if forward {
                    f.with_focus(next_index_spec(f.enabled(), f.recent_focus, f.roving_loop))
                } else if key == NavKey::Home {
                    f.with_focus(seq_first(f.enabled()))
                } else if key == NavKey::End {
                    f.with_focus(seq_last(f.enabled()))
                } else {
                    f
                }
            }),
            final(self).open_items_spec() == old(self).open_items_spec(),
            final(self).next_id_spec() == old(self).next_id_spec(),
            final(self).allow_multiple_open == old(self).allow_multiple_open,
            final(self).collapsible == old(self).collapsible,
            final(self).horizontal == old(self).horizontal,
    {
        let horizontal = self.horizontal;
        match key {
            NavKey::ArrowUp if !horizontal => self.focus.focus_prev(),
            NavKey::ArrowDown if !horizontal => self.focus.focus_next(),
            NavKey::ArrowLeft if horizontal => self.focus.focus_prev(),
            NavKey::ArrowRight if horizontal => self.focus.focus_next(),
            NavKey::Home => self.focus.focus_first(),
            NavKey::End => self.focus.focus_last(),
            _ => return false,
        }
        true
    }
}

/// In single mode at most one item is open: opening keeps the list at one item, and
/// closing never adds one.
pub proof fn law_single_mode_one_open(items: Seq<usize>, id: usize, collapsible: bool)
    requires
        items.len() <= 1,
    ensures
        opened(items, id, false).len() == 1,
        closed(items, id, collapsible).len() <= 1,
{
    reveal(Seq::filter);
    if items.len() == 1 {
        assert(items.drop_last() =~= Seq::<usize>::empty());
        assert(Seq::<usize>::empty().filter(other_than(id)) =~= Seq::<usize>::empty());
    } else {
        assert(items.filter(other_than(id)) =~= Seq::<usize>::empty());
    }
}

/// An item that was just opened is open; an item just closed in a collapsible accordion
/// is not.
pub proof fn law_open_then_closed(items: Seq<usize>, id: usize, multiple: bool)
    ensures
        opened(items, id, multiple).contains(id),
        !closed(items, id, true).contains(id),
{
    let o = opened(items, id, multiple);
    assert(o[o.len() - 1] == id);
    let c = items.filter(other_than(id));
    if c.contains(id) {
        let k = choose|k: int| 0 <= k < c.len() && c[k] == id;
        items.lemma_filter_pred(other_than(id), k);
    }
}

} // verus!
