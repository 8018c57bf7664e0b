//! The pointers that are down, with the position each was last seen at.
use vstd::prelude::*;

verus! {

/// Whether `j` is the first entry of `s` with pointer id `id`.
pub open spec fn is_first_with_id<P>(s: Seq<(i32, P)>, id: i32, j: int) -> bool {
    &&& 0 <= j < s.len()
    &&& s[j].0 == id
    &&& forall|k: int| 0 <= k < j ==> s[k].0 != id
}

/// The position of the first entry of `s` with pointer id `id`.
pub open spec fn first_with_id<P>(s: Seq<(i32, P)>, id: i32) -> Option<int> {
    if exists|j: int| is_first_with_id(s, id, j) {
        Some(choose|j: int| is_first_with_id(s, id, j))
    } else {
        None
    }
}

/// Every entry whose pointer id is not `id`.
pub open spec fn other_id<P>(id: i32) -> spec_fn((i32, P)) -> bool {
    |e: (i32, P)| e.0 != id
}

/// There is at most one first entry with a given id.
pub proof fn lemma_first_with_id_unique<P>(s: Seq<(i32, P)>, id: i32, j: int)
    requires
        is_first_with_id(s, id, j),
    ensures
        first_with_id(s, id) == Some(j),
{
    let c = choose|k: int| is_first_with_id(s, id, k);
    assert(is_first_with_id(s, id, c));
    if c < j {
        assert(s[c].0 != id);
    } else if c > j {
        assert(s[j].0 != id);
    }
}

/// The pointers that are down, in the order they went down, each with the position it was
/// last seen at.
pub struct PointerTable<P> {
    pointers: Vec<(i32, P)>,
}

impl<P> View for PointerTable<P> {
    type V = Seq<(i32, P)>;

    closed spec fn view(&self) -> Seq<(i32, P)> {
        self.pointers@
    }
}

impl<P: Copy> PointerTable<P> {
    /// A table with no pointer down.
    pub fn new() -> (r: PointerTable<P>)
        ensures
            r@ == Seq::<(i32, P)>::empty(),
    {
        PointerTable { pointers: Vec::new() }
    }

    /// A pointer went down at `position`: it is added after the others.
    pub fn add_pointer(&mut self, pointer_id: i32, position: P)
        ensures
            final(self)@ == old(self)@.push((pointer_id, position)),
    {
        self.pointers.push((pointer_id, position));
    }

    /// Records a pointer going down at `position`, as the handler of a press does.
    pub fn track_pointer_down(&mut self, pointer_id: i32, position: P)
        ensures
            final(self)@ == old(self)@.push((pointer_id, position)),
    {
        self.add_pointer(pointer_id, position);
    }

    /// The position in the table of the first entry for `pointer_id`.
    fn find(&self, pointer_id: i32) -> (r: Option<usize>)
        ensures
            match r {
                Some(j) => first_with_id(self@, pointer_id) == Some(j as int),
                None => first_with_id(self@, pointer_id) is None,
            },
    {
        let mut i: usize = 0;
        while i < self.pointers.len()
            invariant
                0 <= i <= self@.len(),
                self@ == self.pointers@,
                forall|k: int| 0 <= k < i ==> self@[k].0 != pointer_id,
            decreases self@.len() - i,
        {
            if self.pointers[i].0 == pointer_id {
                proof {
                    lemma_first_with_id_unique(self@, pointer_id, i as int);
                }
                return Some(i);
            }
            i = i + 1;
        }
        proof {
            if exists|j: int| is_first_with_id(self@, pointer_id, j) {
                let j = choose|j: int| is_first_with_id(self@, pointer_id, j);
                assert(self@[j].0 != pointer_id);
            }
        }
        None
    }

    /// The last seen position of `pointer_id`, taken from its first entry; `None` when it
    /// is not down.
    pub fn pointer_position(&self, pointer_id: i32) -> (r: Option<P>)
        ensures
            r == match first_with_id(self@, pointer_id) {
                Some(j) => Some(self@[j].1),
                None => None,
            },
    {
        match self.find(pointer_id) {
            Some(j) => Some(self.pointers[j].1),
            None => None,
        }
    }

    /// `pointer_id` moved to `position`: its first entry records it; nothing changes when
    /// it is not down.
    pub fn update_pointer(&mut self, pointer_id: i32, position: P)
        ensures
            final(self)@ == match first_with_id(old(self)@, pointer_id) {
                Some(j) => old(self)@.update(j, (pointer_id, position)),
                None => old(self)@,
            },
    {
        match self.find(pointer_id) {
            Some(j) => {
                self.pointers.set(j, (pointer_id, position));
            },
            None => {},
        }
    }

    /// `pointer_id` went up: every entry for it is removed, the others keep their order.
    pub fn remove_pointer(&mut self, pointer_id: i32)
        ensures
            final(self)@ == old(self)@.filter(other_id(pointer_id)),
    {
        let ghost s = self@;
        let mut kept: Vec<(i32, P)> = Vec::new();
        let mut i: usize = 0;
        while i < self.pointers.len()
            invariant
                0 <= i <= s.len(),
                s == self.pointers@,
                kept@ == s.take(i as int).filter(other_id(pointer_id)),
            decreases s.len() - i,
        {
            let e = self.pointers[i];
            proof {
                reveal(Seq::filter);
                assert(s.take(i + 1).drop_last() =~= s.take(i as int));
                assert(s.take(i + 1).last() == e);
            }
            if e.0 != pointer_id {
                kept.push(e);
            }
            i = i + 1;
        }
        proof {
            assert(s.take(i as int) =~= s);
        }
        self.pointers = kept;
    }
}

/// A pointer that went down is found at the position it went down at, unless an earlier
/// entry for the same id is still down.
pub proof fn law_position_after_down<P>(s: Seq<(i32, P)>, id: i32, position: P)
    requires
        first_with_id(s, id) is None,
    ensures
        first_with_id(s.push((id, position)), id) == Some(s.len() as int),
        s.push((id, position))[s.len() as int].1 == position,
{
    let t = s.push((id, position));
    assert forall|k: int| 0 <= k < s.len() implies t[k].0 != id by {
        if t[k].0 == id {
            assert(s[k].0 == id);
            lemma_first_exists(s, id, k);
        }
    }
    lemma_first_with_id_unique(t, id, s.len() as int);
}

/// When some entry has id `id`, a first such entry exists.
proof fn lemma_first_exists<P>(s: Seq<(i32, P)>, id: i32, k: int)
    requires
        0 <= k < s.len(),
        s[k].0 == id,
    ensures
        first_with_id(s, id) is Some,
    decreases k,
{
    if forall|m: int| 0 <= m < k ==> s[m].0 != id {
        assert(is_first_with_id(s, id, k));
    } else {
        let m = choose|m: int| 0 <= m < k && s[m].0 == id;
        lemma_first_exists(s, id, m);
    }
}

/// After a pointer goes up, it is no longer found.
pub proof fn law_gone_after_up<P>(s: Seq<(i32, P)>, id: i32)
    ensures
        first_with_id(s.filter(other_id(id)), id) is None,
{
    broadcast use vstd::seq_lib::group_filter_ensures;
    let t = s.filter(other_id(id));
    if first_with_id(t, id) is Some {
        let j = choose|j: int| is_first_with_id(t, id, j);
        assert(other_id::<P>(id)(t[j]));
    }
}

/// Moving a pointer that is down makes it found at the new position, and leaves every other
/// pointer where it was.
pub proof fn law_position_after_move<P>(s: Seq<(i32, P)>, id: i32, position: P, other: i32)
    requires
        first_with_id(s, id) is Some,
        other != id,
    ensures
        ({
            let t = s.update(first_with_id(s, id)->0, (id, position));
            &&& first_with_id(t, id) == first_with_id(s, id)
            &&& t[first_with_id(t, id)->0].1 == position
            &&& first_with_id(t, other) == first_with_id(s, other)
        }),
{
    let j = first_with_id(s, id)->0;
    let t = s.update(j, (id, position));
    assert forall|k: int| #![trigger t[k]] #![trigger s[k]] 0 <= k < s.len() implies t[k].0 == s[k].0 by {}
    assert(is_first_with_id(s, id, j));
    assert(is_first_with_id(t, id, j));
    lemma_first_with_id_unique(t, id, j);
    match first_with_id(s, other) {
        Some(o) => {
            assert(is_first_with_id(s, other, o));
            assert(is_first_with_id(t, other, o));
            lemma_first_with_id_unique(t, other, o);
        },
        None => {
            if first_with_id(t, other) is Some {
                let o = choose|o: int| is_first_with_id(t, other, o);
                assert(is_first_with_id(s, other, o));
            }
        },
    }
}

/// The pointer state of a control that can be dragged: the pointer that drives the drag,
/// the position it was last seen at, and whether a drag is on.
pub struct MoveTracking<P> {
    /// The pointer that drives the drag.
    pub active_pointer_id: Option<i32>,
    /// The position the driving pointer was last seen at.
    pub last_pointer_position: Option<P>,
    /// Whether a drag is on.
    pub dragging: bool,
}

/// The tracking state after the drag ends.
pub open spec fn ended<P>(m: MoveTracking<P>) -> MoveTracking<P> {
    MoveTracking { active_pointer_id: None, last_pointer_position: None, dragging: false }
}

/// Starts the pointer state of a draggable control.
pub fn use_move_interaction<P>(dragging: bool) -> (r: MoveTracking<P>)
    ensures
        r.active_pointer_id is None,
        r.last_pointer_position is None,
        r.dragging == dragging,
{
    MoveTracking { active_pointer_id: None, last_pointer_position: None, dragging }
}

impl<P: Copy> MoveTracking<P> {
    /// A pointer went down on the control: with no pointer driving yet and the primary
    /// button, `pointer_id` starts driving and is tracked at `position`. Returns whether
    /// it did.
    pub fn start_pointer(&mut self, pointers: &mut PointerTable<P>, primary: bool, pointer_id: i32, position: P) -> (r: bool)
        ensures
            r == (old(self).active_pointer_id is None && primary),
            r ==> final(self).active_pointer_id == Some(pointer_id) && final(pointers)@ == old(pointers)@.push(
                (pointer_id, position),
            ),
            !r ==> final(self).active_pointer_id == old(self).active_pointer_id && final(pointers)@ == old(pointers)@,
            final(self).last_pointer_position == old(self).last_pointer_position,
            final(self).dragging == old(self).dragging,
    {
        if self.active_pointer_id.is_some() || !primary {
            return false;
        }
        self.active_pointer_id = Some(pointer_id);
        pointers.track_pointer_down(pointer_id, position);
        true
    }

    /// The driving pointer may have moved: during a drag, returns its current position and
    /// the position it was last seen at (none the first time), and remembers the current
    /// one. When the driving pointer is no longer down the drag ends.
    pub fn pointer_move(&mut self, pointers: &PointerTable<P>) -> (r: Option<(P, Option<P>)>)
        ensures
            match (old(self).dragging, old(self).active_pointer_id) {
                (true, Some(id)) => match first_with_id(pointers@, id) {
                    Some(j) => r == Some((pointers@[j].1, old(self).last_pointer_position))
                        && *final(self) == (MoveTracking {
                        last_pointer_position: Some(pointers@[j].1),
                        ..*old(self)
                    }),
                    None => r is None && *final(self) == ended(*old(self)),
                },
                _ => r is None && *final(self) == *old(self),
            },
    {
        if !self.dragging {
            return None;
        }
        let id = match self.active_pointer_id {
            Some(id) => id,
            None => return None,
        };
        match pointers.pointer_position(id) {
            Some(position) => {
                let last = self.last_pointer_position;
                self.last_pointer_position = Some(position);
                Some((position, last))
            },
            None => {
                self.end_pointer();
                None
            },
        }
    }

    /// The drag ends: no pointer drives and no position is remembered.
    pub fn end_pointer(&mut self)
        ensures
            *final(self) == ended(*old(self)),
    {
        self.active_pointer_id = None;
        self.last_pointer_position = None;
        self.dragging = false;
    }
}

} // verus!
