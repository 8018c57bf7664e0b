//! Reordering a list by dragging or by keyboard, with spoken announcements.
use vstd::prelude::*;
use vstd::string::*;
use crate::text::{decimal, push_str, push_usize};

verus! {

/// Where an item is dropped relative to the item it hovers.
#[derive(Clone, Copy, PartialEq, Eq, Structural, Debug)]
pub enum DropPosition {
    /// Before the hovered item.
    Before,
    /// After the hovered item.
    After,
    /// Not determined.
    Undefined,
}

/// The final insertion index for an item taken from `from` and dropped at `position`
/// relative to the item `hovered`.
pub open spec fn resolve_drop_index_spec(from: int, hovered: int, position: DropPosition) -> int {
    let slot = match position {
        DropPosition::After => hovered + 1,
        _ => hovered,
    };
    if from < slot {
        slot - 1
    } else {
        slot
    }
}

/// Whether the drop index lies before or after the source index.
pub open spec fn resolve_drop_position_spec(from: int, to: int) -> DropPosition {
    if to < from {
        DropPosition::Before
    } else if to > from {
        DropPosition::After
    } else {
        DropPosition::Undefined
    }
}

/// Resolves the final insertion index from a hovered item and pointer position.
pub fn resolve_drop_index(from: usize, hovered: usize, position: DropPosition) -> (r: usize)
    requires
        position == DropPosition::After ==> hovered < usize::MAX,
    ensures
        r == resolve_drop_index_spec(from as int, hovered as int, position),
{
    let slot = match position {
        DropPosition::Before | DropPosition::Undefined => hovered,
        DropPosition::After => hovered + 1,
    };
    if from < slot {
        slot - 1
    } else {
        slot
    }
}

/// Resolves whether the final insertion index is before or after the source item.
pub fn resolve_drop_position(from: usize, to: usize) -> (r: DropPosition)
    ensures
        r == resolve_drop_position_spec(from as int, to as int),
{
    if to < from {
        DropPosition::Before
    } else if to > from {
        DropPosition::After
    } else {
        DropPosition::Undefined
    }
}

/// The announcement after removing the item at `index`.
pub open spec fn removed_message(index: int, remaining: int) -> Seq<char> {
    "Removed item from position "@ + decimal((index + 1) as nat) + ". "@ + decimal(remaining as nat)
        + " items remaining"@
}

/// The announcement after moving the dragged item to position `pos` (from 1).
pub open spec fn moved_message(pos: int, count: int) -> Seq<char> {
    "You have moved the item to position "@ + decimal(pos as nat) + " of "@ + decimal(count as nat)
}

/// The announcement after dropping the dragged item.
pub open spec fn dropped_message(from: int, to: int) -> Seq<char> {
    "You have dropped the item. It has moved from position "@ + decimal(from as nat)
        + " to position "@ + decimal(to as nat)
}

/// The announcement after lifting the item at position `pos` (from 1).
pub open spec fn lifted_message(pos: int, count: int) -> Seq<char> {
    "You have lifted an item in position "@ + decimal(pos as nat) + " of "@ + decimal(count as nat)
}

/// The value of an optional index, or `d`.
pub open spec fn or_default(o: Option<usize>, d: usize) -> usize {
    match o {
        Some(x) => x,
        None => d,
    }
}

/// The drag-and-drop state of a list of rendered items.
pub struct DragAndDropContext<T, E> {
    /// The index of the dragged item.
    pub drag_from: Option<usize>,
    /// The index the dragged item would be dropped at.
    pub drop_to: Option<usize>,
    /// Where the drop lies relative to the dragged item.
    pub drop_position: DropPosition,
    /// Whether an item is being dragged.
    pub is_dragging: bool,
    /// The rendered items.
    pub list_items: Vec<Result<T, E>>,
    /// The keyboard-focused item.
    pub focused_index: Option<usize>,
    /// The latest screen-reader announcement.
    pub announcement: String,
}

impl<T, E> DragAndDropContext<T, E> {
    /// A context over `list_items` with nothing dragged or focused.
    pub fn new(list_items: Vec<Result<T, E>>) -> (r: Self)
        ensures
            r.drag_from is None,
            r.drop_to is None,
            r.drop_position == DropPosition::Undefined,
            !r.is_dragging,
            r.list_items@ == list_items@,
            r.focused_index is None,
            r.announcement@ == Seq::<char>::empty(),
    {
        DragAndDropContext {
            drag_from: None,
            drop_to: None,
            drop_position: DropPosition::Undefined,
            is_dragging: false,
            list_items,
            focused_index: None,
            announcement: String::new(),
        }
    }

    /// Starts dragging the item at `index`.
    pub fn start_drag(&mut self, index: usize)
        ensures
            final(self).drag_from == Some(index),
            final(self).drop_to is None,
            final(self).drop_position == DropPosition::Undefined,
            final(self).is_dragging,
            final(self).list_items@ == old(self).list_items@,
            final(self).focused_index == old(self).focused_index,
            final(self).announcement@ == old(self).announcement@,
    {
        self.drag_from = Some(index);
        self.drop_to = None;
        self.drop_position = DropPosition::Undefined;
        self.is_dragging = true;
    }

    /// Ends the drag, focusing the drop target (or the dragged item).
    pub fn end_drag(&mut self)
        ensures
            final(self).focused_index == (match old(self).drop_to {
                Some(t) => Some(t),
                None => old(self).drag_from,
            }),
            final(self).drag_from is None,
            final(self).drop_to is None,
            final(self).drop_position == DropPosition::Undefined,
            !final(self).is_dragging,
            final(self).list_items@ == old(self).list_items@,
            final(self).announcement@ == old(self).announcement@,
    {
        let focus_target = match self.drop_to {
            Some(t) => Some(t),
            None => self.drag_from,
        };
        self.set_focus(focus_target);
        self.drag_from = None;
        self.drop_to = None;
        self.drop_position = DropPosition::Undefined;
        self.is_dragging = false;
    }

    /// Cancels the drag, focusing the dragged item.
    pub fn cancel_drag(&mut self)
        ensures
            final(self).focused_index == old(self).drag_from,
            final(self).drag_from is None,
            final(self).drop_to is None,
            final(self).drop_position == DropPosition::Undefined,
            !final(self).is_dragging,
            final(self).list_items@ == old(self).list_items@,
            final(self).announcement@ == old(self).announcement@,
    {
        let from = self.drag_from;
        self.set_focus(from);
        self.drag_from = None;
        self.drop_to = None;
        self.drop_position = DropPosition::Undefined;
        self.is_dragging = false;
    }

    /// Records the drop target for the pointer hovering `hovered` at `position`.
    pub fn drag_over(&mut self, hovered: usize, position: DropPosition)
        requires
            position == DropPosition::After ==> hovered < usize::MAX,
        ensures
            ({
                let from = or_default(old(self).drag_from, hovered);
                let to = resolve_drop_index_spec(from as int, hovered as int, position);
                &&& final(self).drop_to == Some(to as usize)
                &&& final(self).drop_position == resolve_drop_position_spec(from as int, to)
            }),
            final(self).drag_from == old(self).drag_from,
            final(self).is_dragging == old(self).is_dragging,
            final(self).list_items@ == old(self).list_items@,
            final(self).focused_index == old(self).focused_index,
            final(self).announcement@ == old(self).announcement@,
    {
        let from = match self.drag_from {
            Some(f) => f,
            None => hovered,
        };
        let resolved = resolve_drop_index(from, hovered, position);
        self.drop_to = Some(resolved);
        self.drop_position = resolve_drop_position(from, resolved);
    }

    /// Moves the dragged item to the drop target.
    pub fn drop(&mut self)
        requires
            old(self).drop_to matches Some(to) ==> (old(self).drag_from matches Some(from) && from
                < old(self).list_items@.len() && to < old(self).list_items@.len()),
        ensures
            match old(self).drop_to {
                None => final(self).list_items@ == old(self).list_items@,
                Some(to) => {
                    let from = old(self).drag_from->0;
                    final(self).list_items@ == old(self).list_items@.remove(from as int).insert(
                        to as int,
                        old(self).list_items@[from as int],
                    )
                },
            },
            final(self).drag_from == old(self).drag_from,
            final(self).drop_to == old(self).drop_to,
            final(self).drop_position == old(self).drop_position,
            final(self).is_dragging == old(self).is_dragging,
            final(self).focused_index == old(self).focused_index,
            final(self).announcement@ == old(self).announcement@,
    {
        let index = match self.drop_to {
            Some(i) => i,
            None => return,
        };
        let from = match self.drag_from {
            Some(f) => f,
            None => return,
        };
        let element = self.list_items.remove(from);
        self.list_items.insert(index, element);
    }

    /// Removes the item at `index`; when it rendered, moves focus to the nearest remaining
    /// item and announces the removal.
    pub fn remove(&mut self, index: usize)
        requires
            index < old(self).list_items@.len(),
        ensures
            final(self).list_items@ == old(self).list_items@.remove(index as int),
            old(self).list_items@[index as int] is Ok ==> {
                let n = old(self).list_items@.len() - 1;
                &&& final(self).focused_index == (if n == 0 {
                    None
                } else {
                    Some((if index < n - 1 {
                        index as int
                    } else {
                        n - 1
                    }) as usize)
                })
                &&& final(self).announcement@ == removed_message(index as int, n)
            },
            old(self).list_items@[index as int] is Err ==> final(self).focused_index == old(
                self,
            ).focused_index && final(self).announcement@ == old(self).announcement@,
            final(self).drag_from == old(self).drag_from,
            final(self).drop_to == old(self).drop_to,
            final(self).drop_position == old(self).drop_position,
            final(self).is_dragging == old(self).is_dragging,
    {
        let n0 = self.list_items.len();
        let removed = self.list_items.remove(index);
        if removed.is_ok() {
            let new_len = self.list_items.len();
            self.focused_index = if new_len == 0 {
                None
            } else if index < new_len - 1 {
                Some(index)
            } else {
                Some(new_len - 1)
            };
            let mut msg = String::new();
            push_str(&mut msg, "Removed item from position ");
            push_usize(&mut msg, index + 1);
            push_str(&mut msg, ". ");
            push_usize(&mut msg, new_len);
            push_str(&mut msg, " items remaining");
            self.announcement = msg;
        }
    }

    /// Replaces the announcement.
    pub fn announce(&mut self, msg: String)
        ensures
            final(self).announcement@ == msg@,
            final(self).drag_from == old(self).drag_from,
            final(self).drop_to == old(self).drop_to,
            final(self).drop_position == old(self).drop_position,
            final(self).is_dragging == old(self).is_dragging,
            final(self).list_items@ == old(self).list_items@,
            final(self).focused_index == old(self).focused_index,
    {
        self.announcement = msg;
    }

    /// The number of items.
    pub fn item_count(&self) -> (r: usize)
        ensures
            r == self.list_items@.len(),
    {
        self.list_items.len()
    }

    /// Whether the item at `index` has keyboard focus.
    pub fn is_focused(&self, index: usize) -> (r: bool)
        ensures
            r == (self.focused_index == Some(index)),
    {
        match self.focused_index {
            Some(f) => f == index,
            None => false,
        }
    }

    /// Sets the keyboard focus.
    pub fn set_focus(&mut self, id: Option<usize>)
        ensures
            final(self).focused_index == id,
            final(self).drag_from == old(self).drag_from,
            final(self).drop_to == old(self).drop_to,
            final(self).drop_position == old(self).drop_position,
            final(self).is_dragging == old(self).is_dragging,
            final(self).list_items@ == old(self).list_items@,
            final(self).announcement@ == old(self).announcement@,
    {
        self.focused_index = id;
    }

    /// Moves focus to the next item, wrapping to the first.
    pub fn focus_next(&mut self)
        requires
            old(self).focused_index is Some ==> old(self).list_items@.len() > 0,
        ensures
            final(self).focused_index == (match old(self).focused_index {
                Some(i) => Some(((i + 1) % (old(self).list_items@.len() as int)) as usize),
                None => None,
            }),
            final(self).drag_from == old(self).drag_from,
            final(self).drop_to == old(self).drop_to,
            final(self).drop_position == old(self).drop_position,
            final(self).is_dragging == old(self).is_dragging,
            final(self).list_items@ == old(self).list_items@,
            final(self).announcement@ == old(self).announcement@,
    {
        let index = match self.focused_index {
            Some(i) => i,
            None => return,
        };
        let len = self.list_items.len();
        let next = if index < len - 1 {
            index + 1
        } else {
            (index - (len - 1)) % len
        };
        proof {
            if index >= len - 1 {
                assert(index + 1 - len == index - (len - 1));
                assert((index + 1) % (len as int) == (index - (len - 1)) % (len as int)) by {
                    vstd::arithmetic::div_mod::lemma_mod_sub_multiples_vanish((index + 1) as int, len as int);
                }
            } else {
                vstd::arithmetic::div_mod::lemma_small_mod((index + 1) as nat, len as nat);
            }
        }
        self.focused_index = Some(next);
    }

    /// Moves focus to the previous item, wrapping to the last.
    pub fn focus_prev(&mut self)
        requires
            old(self).focused_index == Some(0usize) ==> old(self).list_items@.len() > 0,
        ensures
            final(self).focused_index == (match old(self).focused_index {
                Some(i) => Some(if i == 0 {
                    (old(self).list_items@.len() - 1) as usize
                } else {
                    (i - 1) as usize
                }),
                None => None,
            }),
            final(self).drag_from == old(self).drag_from,
            final(self).drop_to == old(self).drop_to,
            final(self).drop_position == old(self).drop_position,
            final(self).is_dragging == old(self).is_dragging,
            final(self).list_items@ == old(self).list_items@,
            final(self).announcement@ == old(self).announcement@,
    {
        let index = match self.focused_index {
            Some(i) => i,
            None => return,
        };
        let len = self.list_items.len();
        self.focused_index = Some(
            if index == 0 {
                len - 1
            } else {
                index - 1
            },
        );
    }

    /// Sets the drop position from the dragged and target indices, defaulting both to `from`.
    pub fn update_keyboard_drop_position(&mut self, from: usize)
        ensures
            final(self).drop_position == resolve_drop_position_spec(
                or_default(old(self).drag_from, from) as int,
                or_default(old(self).drop_to, from) as int,
            ),
            final(self).drag_from == old(self).drag_from,
            final(self).drop_to == old(self).drop_to,
            final(self).is_dragging == old(self).is_dragging,
            final(self).list_items@ == old(self).list_items@,
            final(self).focused_index == old(self).focused_index,
            final(self).announcement@ == old(self).announcement@,
    {
        let drag_from = match self.drag_from {
            Some(f) => f,
            None => from,
        };
        let drop_to = match self.drop_to {
            Some(t) => t,
            None => from,
        };
        self.drop_position = resolve_drop_position(drag_from, drop_to);
    }

    /// Moves the drop target one item up, wrapping to the last item.
    pub fn move_up(&mut self, from: usize)
        requires
            or_default(old(self).drop_to, from) == 0 ==> old(self).list_items@.len() > 0,
        ensures
            ({
                let current = or_default(old(self).drop_to, from);
                let n = old(self).list_items@.len();
                final(self).drop_to == Some(
                    if current == 0 {
                        (n - 1) as usize
                    } else {
                        (current - 1) as usize
                    },
                )
            }),
            final(self).drop_position == resolve_drop_position_spec(
                or_default(old(self).drag_from, from) as int,
                final(self).drop_to->0 as int,
            ),
            final(self).drag_from == old(self).drag_from,
            final(self).is_dragging == old(self).is_dragging,
            final(self).list_items@ == old(self).list_items@,
            final(self).focused_index == old(self).focused_index,
            final(self).announcement@ == old(self).announcement@,
    {
        let current = match self.drop_to {
            Some(t) => t,
            None => from,
        };
        let len = self.list_items.len();
        let new_index = if current == 0 {
            len - 1
        } else {
            current - 1
        };
        self.drop_to = Some(new_index);
        self.update_keyboard_drop_position(from);
    }

    /// Moves the drop target one item down, wrapping to the first item.
    pub fn move_down(&mut self, from: usize)
        requires
            old(self).list_items@.len() > 0,
            or_default(old(self).drop_to, from) < usize::MAX,
        ensures
            ({
                let current = or_default(old(self).drop_to, from);
                let n = old(self).list_items@.len();
                final(self).drop_to == Some(((current + 1) % (n as int)) as usize)
            }),
            final(self).drop_position == resolve_drop_position_spec(
                or_default(old(self).drag_from, from) as int,
                final(self).drop_to->0 as int,
            ),
            final(self).drag_from == old(self).drag_from,
            final(self).is_dragging == old(self).is_dragging,
            final(self).list_items@ == old(self).list_items@,
            final(self).focused_index == old(self).focused_index,
            final(self).announcement@ == old(self).announcement@,
    {
        let current = match self.drop_to {
            Some(t) => t,
            None => from,
        };
        let len = self.list_items.len();
        let new_index = (current + 1) % len;
        self.drop_to = Some(new_index);
        self.update_keyboard_drop_position(from);
    }

    /// Announces the position the dragged item would move to.
    pub fn announce_move(&mut self, index: usize)
        requires
            or_default(old(self).drop_to, index) < usize::MAX,
        ensures
            final(self).announcement@ == moved_message(
                or_default(old(self).drop_to, index) + 1,
                old(self).list_items@.len() as int,
            ),
            final(self).drag_from == old(self).drag_from,
            final(self).drop_to == old(self).drop_to,
            final(self).drop_position == old(self).drop_position,
            final(self).is_dragging == old(self).is_dragging,
            final(self).list_items@ == old(self).list_items@,
            final(self).focused_index == old(self).focused_index,
    {
        let pos = match self.drop_to {
            Some(t) => t,
            None => index,
        } + 1;
        let count = self.item_count();
        let mut msg = String::new();
        push_str(&mut msg, "You have moved the item to position ");
        push_usize(&mut msg, pos);
        push_str(&mut msg, " of ");
        push_usize(&mut msg, count);
        self.announce(msg);
    }

    /// Lifts the item at `index`, or drops the lifted item, announcing either.
    pub fn toggle_drag(&mut self, index: usize)
        requires
            index < usize::MAX,
            or_default(old(self).drag_from, index) < usize::MAX,
            or_default(old(self).drop_to, index) < usize::MAX,
            old(self).is_dragging ==> (old(self).drop_to matches Some(to) ==> (old(
                self,
            ).drag_from matches Some(from) && from < old(self).list_items@.len() && to < old(
                self,
            ).list_items@.len())),
        ensures
            old(self).is_dragging ==> {
                &&& final(self).list_items@ == (match old(self).drop_to {
                    None => old(self).list_items@,
                    Some(to) => old(self).list_items@.remove(old(self).drag_from->0 as int).insert(
                        to as int,
                        old(self).list_items@[old(self).drag_from->0 as int],
                    ),
                })
                &&& final(self).focused_index == (match old(self).drop_to {
                    Some(t) => Some(t),
                    None => old(self).drag_from,
                })
                &&& !final(self).is_dragging
                &&& final(self).drag_from is None
                &&& final(self).drop_to is None
                &&& final(self).drop_position == DropPosition::Undefined
                &&& final(self).announcement@ == dropped_message(
                    or_default(old(self).drag_from, index) + 1,
                    or_default(old(self).drop_to, index) + 1,
                )
            },
            !old(self).is_dragging ==> {
                &&& final(self).list_items@ == old(self).list_items@
                &&& final(self).focused_index == old(self).focused_index
                &&& final(self).is_dragging
                &&& final(self).drag_from == Some(index)
                &&& final(self).drop_to == Some(index)
                &&& final(self).drop_position == DropPosition::Undefined
                &&& final(self).announcement@ == lifted_message(
                    index + 1,
                    old(self).list_items@.len() as int,
                )
            },
    {
        if self.is_dragging {
            let from = match self.drag_from {
                Some(f) => f,
                None => index,
            } + 1;
            let to = match self.drop_to {
                Some(t) => t,
                None => index,
            } + 1;
            self.drop();
            self.end_drag();
            let mut msg = String::new();
            push_str(&mut msg, "You have dropped the item. It has moved from position ");
            push_usize(&mut msg, from);
            push_str(&mut msg, " to position ");
            push_usize(&mut msg, to);
            self.announce(msg);
        } else {
            let count = self.item_count();
            self.start_drag(index);
            self.drag_over(index, DropPosition::Undefined);
            let mut msg = String::new();
            push_str(&mut msg, "You have lifted an item in position ");
            push_usize(&mut msg, index + 1);
            push_str(&mut msg, " of ");
            push_usize(&mut msg, count);
            self.announce(msg);
        }
    }
}

/// Lifting an item with the keyboard and dropping it right away leaves the list as it
/// was and focuses the item.
pub proof fn law_lift_then_drop_keeps_list<T>(items: Seq<T>, index: int)
    requires
        0 <= index < items.len(),
    ensures
        items.remove(index).insert(index, items[index]) == items,
        resolve_drop_index_spec(index, index, DropPosition::Undefined) == index,
        resolve_drop_position_spec(index, index) == DropPosition::Undefined,
{
    assert(items.remove(index).insert(index, items[index]) =~= items);
}

/// Dropping moves exactly the dragged item: the result holds it at the target index and
/// every other item in its original order.
pub proof fn law_drop_moves_one_item<T>(items: Seq<T>, from: int, to: int)
    requires
        0 <= from < items.len(),
        0 <= to < items.len(),
    ensures
        items.remove(from).insert(to, items[from])[to] == items[from],
        items.remove(from).insert(to, items[from]).len() == items.len(),
        items.remove(from).insert(to, items[from]).remove(to) == items.remove(from),
{
    assert(items.remove(from).insert(to, items[from]).remove(to) =~= items.remove(from));
}

/// Dropping an item on the lower half of another item puts it right after that item, and
/// on the upper half right before it: in the list with the dragged item moved to the
/// resolved index, the hovered item sits just before it (after) or just after it (before).
pub proof fn law_drop_lands_next_to_hovered<T>(items: Seq<T>, from: int, hovered: int, position: DropPosition)
    requires
        0 <= from < items.len(),
        0 <= hovered < items.len(),
        from != hovered,
        position != DropPosition::Undefined,
    ensures
        ({
            let to = resolve_drop_index_spec(from, hovered, position);
            let moved = items.remove(from).insert(to, items[from]);
            &&& 0 <= to < items.len()
            &&& moved.len() == items.len()
            &&& moved[to] == items[from]
            &&& position == DropPosition::After ==> 0 < to && moved[to - 1] == items[hovered]
            &&& position == DropPosition::Before ==> to + 1 < items.len() && moved[to + 1] == items[hovered]
        }),
{
    let to = resolve_drop_index_spec(from, hovered, position);
    let r = items.remove(from);
    let moved = r.insert(to, items[from]);
    if hovered < from {
        assert(r[hovered] == items[hovered]);
    } else {
        assert(r[hovered - 1] == items[hovered]);
    }
    if position == DropPosition::After {
        assert(moved[to - 1] == r[to - 1]);
    } else {
        assert(moved[to + 1] == r[to]);
    }
}

/// Moving the drop target down and then up returns it to where it was.
pub proof fn law_move_down_then_up(current: int, n: int)
    requires
        0 <= current < n,
    ensures
        ({
            let down = (current + 1) % n;
            let up = if down == 0 {
                n - 1
            } else {
                down - 1
            };
            up == current
        }),
{
    if current + 1 < n {
        vstd::arithmetic::div_mod::lemma_small_mod((current + 1) as nat, n as nat);
    } else {
        assert((current + 1) % n == 0) by {
            vstd::arithmetic::div_mod::lemma_mod_self_0(n);
        }
    }
}

/// The announcement after a keyboard drag is cancelled, with the item back at position
/// `pos` (from 1).
pub open spec fn cancelled_message(pos: int) -> Seq<char> {
    "Movement cancelled. The item has returned to its starting position of "@ + decimal(pos as nat)
}

/// A key press on a list item.
#[derive(Clone, Copy, PartialEq, Eq, Structural, Debug)]
pub enum ItemKey {
    /// Up arrow.
    ArrowUp,
    /// Down arrow.
    ArrowDown,
    /// Enter.
    Enter,
    /// The space bar.
    Space,
    /// Escape.
    Escape,
    /// Delete or Backspace.
    Delete,
    /// Home.
    Home,
    /// End.
    End,
    /// Any other key.
    Other,
}

impl<T, E> DragAndDropContext<T, E> {
    /// The state is consistent: dragged and target indices lie in the list, a drag always
    /// has a dragged item, and nothing is dragged or targeted outside a drag.
    pub open spec fn wf(&self) -> bool {
        &&& self.list_items@.len() < usize::MAX
        &&& self.drag_from matches Some(f) ==> f < self.list_items@.len()
        &&& self.drop_to matches Some(t) ==> t < self.list_items@.len()
        &&& self.is_dragging ==> self.drag_from is Some
        &&& !self.is_dragging ==> self.drag_from is None && self.drop_to is None
    }

    /// A key press on the item at `index`: arrows move the drop target while dragging and
    /// the focus otherwise; Enter and space lift or drop; Escape cancels a drag; Delete
    /// removes a removable item outside a drag; Home and End focus the first and last
    /// item outside a drag. Returns whether the key's default action is prevented.
    pub fn item_keydown(&mut self, index: usize, key: ItemKey, removable: bool) -> (r: bool)
        requires
            old(self).wf(),
            index < old(self).list_items@.len(),
        ensures
            r == (key != ItemKey::Other),
            final(self).wf(),
            (key == ItemKey::ArrowUp || key == ItemKey::ArrowDown) && old(self).is_dragging ==> {
                &&& final(self).is_dragging
                &&& final(self).drag_from == old(self).drag_from
                &&& final(self).drop_position == resolve_drop_position_spec(
                    old(self).drag_from->0 as int,
                    final(self).drop_to->0 as int,
                )
            },
            (key == ItemKey::ArrowUp || key == ItemKey::ArrowDown || key == ItemKey::Home || key
                == ItemKey::End || key == ItemKey::Escape) && !old(self).is_dragging ==> {
                &&& final(self).drag_from == old(self).drag_from
                &&& final(self).drop_to == old(self).drop_to
                &&& final(self).drop_position == old(self).drop_position
                &&& final(self).announcement@ == old(self).announcement@
            },
            (key == ItemKey::Home || key == ItemKey::End) && old(self).is_dragging ==> {
                &&& final(self).is_dragging
                &&& final(self).drag_from == old(self).drag_from
                &&& final(self).drop_to == old(self).drop_to
                &&& final(self).drop_position == old(self).drop_position
                &&& final(self).announcement@ == old(self).announcement@
            },
            key == ItemKey::Escape && !old(self).is_dragging ==> final(self).focused_index == old(
                self,
            ).focused_index,
            key == ItemKey::ArrowUp && old(self).is_dragging ==> {
                let current = or_default(old(self).drop_to, index);
                let to = if current == 0 {
                    (old(self).list_items@.len() - 1) as usize
                } else {
                    (current - 1) as usize
                };
                &&& final(self).drop_to == Some(to)
                &&& final(self).announcement@ == moved_message(to + 1, old(self).list_items@.len() as int)
                &&& final(self).list_items@ == old(self).list_items@
                &&& final(self).focused_index == old(self).focused_index
            },
            key == ItemKey::ArrowDown && old(self).is_dragging ==> {
                let current = or_default(old(self).drop_to, index);
                let to = ((current + 1) % (old(self).list_items@.len() as int)) as usize;
                &&& final(self).drop_to == Some(to)
                &&& final(self).announcement@ == moved_message(to + 1, old(self).list_items@.len() as int)
                &&& final(self).list_items@ == old(self).list_items@
                &&& final(self).focused_index == old(self).focused_index
            },
            key == ItemKey::ArrowUp && !old(self).is_dragging ==> {
                &&& final(self).focused_index == (match old(self).focused_index {
                    Some(i) => Some(if i == 0 {
                        (old(self).list_items@.len() - 1) as usize
                    } else {
                        (i - 1) as usize
                    }),
                    None => None,
                })
                &&& final(self).list_items@ == old(self).list_items@
                &&& !final(self).is_dragging
            },
            key == ItemKey::ArrowDown && !old(self).is_dragging ==> {
                &&& final(self).focused_index == (match old(self).focused_index {
                    Some(i) => Some(((i + 1) % (old(self).list_items@.len() as int)) as usize),
                    None => None,
                })
                &&& final(self).list_items@ == old(self).list_items@
                &&& !final(self).is_dragging
            },
            (key == ItemKey::Enter || key == ItemKey::Space) ==> final(self).is_dragging
                == !old(self).is_dragging,
            (key == ItemKey::Enter || key == ItemKey::Space) && !old(self).is_dragging ==> {
                &&& final(self).drag_from == Some(index)
                &&& final(self).drop_to == Some(index)
                &&& final(self).drop_position == DropPosition::Undefined
                &&& final(self).list_items@ == old(self).list_items@
                &&& final(self).focused_index == old(self).focused_index
                &&& final(self).announcement@ == lifted_message(index + 1, old(self).list_items@.len() as int)
            },
            (key == ItemKey::Enter || key == ItemKey::Space) && old(self).is_dragging ==> {
                &&& final(self).list_items@ == (match old(self).drop_to {
                    None => old(self).list_items@,
                    Some(to) => old(self).list_items@.remove(old(self).drag_from->0 as int).insert(
                        to as int,
                        old(self).list_items@[old(self).drag_from->0 as int],
                    ),
                })
                &&& final(self).focused_index == (match old(self).drop_to {
                    Some(t) => Some(t),
                    None => old(self).drag_from,
                })
                &&& final(self).drag_from is None
                &&& final(self).drop_to is None
                &&& final(self).drop_position == DropPosition::Undefined
                &&& final(self).announcement@ == dropped_message(
                    old(self).drag_from->0 + 1,
                    or_default(old(self).drop_to, index) + 1,
                )
            },
            key == ItemKey::Escape ==> final(self).list_items@ == old(self).list_items@
                && !final(self).is_dragging,
            key == ItemKey::Escape && old(self).is_dragging ==> {
                &&& final(self).focused_index == old(self).drag_from
                &&& final(self).drag_from is None
                &&& final(self).drop_to is None
                &&& final(self).drop_position == DropPosition::Undefined
                &&& final(self).announcement@ == cancelled_message(or_default(old(self).drag_from, index) + 1)
            },
            key == ItemKey::Delete ==> {
                &&& final(self).is_dragging == old(self).is_dragging
                &&& final(self).drag_from == old(self).drag_from
                &&& final(self).drop_to == old(self).drop_to
                &&& final(self).drop_position == old(self).drop_position
            },
            key == ItemKey::Delete && !old(self).is_dragging && removable && (old(self).list_items@[index as int] is Ok) ==> {
                let n = old(self).list_items@.len() - 1;
                &&& final(self).focused_index == (if n == 0 {
                    None
                } else {
                    Some((if index < n - 1 {
                        index as int
                    } else {
                        n - 1
                    }) as usize)
                })
                &&& final(self).announcement@ == removed_message(index as int, n)
            },
            key == ItemKey::Delete && !(!old(self).is_dragging && removable && (old(self).list_items@[index as int] is Ok)) ==> {
                &&& final(self).focused_index == old(self).focused_index
                &&& final(self).announcement@ == old(self).announcement@
            },
            key == ItemKey::Delete ==> final(self).list_items@ == if !old(self).is_dragging && removable {
                old(self).list_items@.remove(index as int)
            } else {
                old(self).list_items@
            },
            key == ItemKey::Home ==> final(self).list_items@ == old(self).list_items@ && final(self).focused_index
                == if old(self).is_dragging {
                old(self).focused_index
            } else {
                Some(0usize)
            },
            key == ItemKey::End ==> final(self).list_items@ == old(self).list_items@ && final(self).focused_index
                == if old(self).is_dragging {
                old(self).focused_index
            } else {
                Some((old(self).list_items@.len() - 1) as usize)
            },
            key == ItemKey::Other ==> final(self).list_items@ == old(self).list_items@
                && final(self).focused_index == old(self).focused_index
                && final(self).is_dragging == old(self).is_dragging,
    {
        match key {
            ItemKey::ArrowUp => {
                if self.is_dragging {
                    self.move_up(index);
                    self.announce_move(index);
                } else {
                    self.focus_prev();
                }
                true
            },
            ItemKey::ArrowDown => {
                if self.is_dragging {
                    self.move_down(index);
                    self.announce_move(index);
                } else {
                    self.focus_next();
                }
                true
            },
            ItemKey::Enter | ItemKey::Space => {
                self.toggle_drag(index);
                true
            },
            ItemKey::Escape => {
                if self.is_dragging {
                    let pos = match self.drag_from {
                        Some(f) => f,
                        None => index,
                    } + 1;
                    self.cancel_drag();
                    let mut msg = String::new();
                    push_str(&mut msg, "Movement cancelled. The item has returned to its starting position of ");
                    push_usize(&mut msg, pos);
                    self.announce(msg);
                }
                true
            },
            ItemKey::Delete => {
                if !self.is_dragging && removable {
                    self.remove(index);
                }
                true
            },
            ItemKey::Home => {
                if !self.is_dragging {
                    self.set_focus(Some(0));
                }
                true
            },
            ItemKey::End => {
                if !self.is_dragging {
                    let n = self.item_count();
                    self.set_focus(if n == 0 {
                        None
                    } else {
                        Some(n - 1)
                    });
                }
                true
            },
            ItemKey::Other => false,
        }
    }
}

} // verus!
