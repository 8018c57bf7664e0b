//! Which overlay answers Escape, and how long a closing overlay stays in the document.
use vstd::prelude::*;

verus! {

/// Every scope but `id`.
pub open spec fn not_scope(id: usize) -> spec_fn(usize) -> bool {
    |x: usize| x != id
}

/// The scopes listening for Escape, in the order they were mounted. Only the most recently
/// mounted one that is still mounted answers.
pub struct EscapeListenerStack {
    scopes: Vec<usize>,
}

impl View for EscapeListenerStack {
    type V = Seq<usize>;

    closed spec fn view(&self) -> Seq<usize> {
        self.scopes@
    }
}

impl EscapeListenerStack {
    /// A stack with no listener.
    pub fn new() -> (r: EscapeListenerStack)
        ensures
            r@ == Seq::<usize>::empty(),
    {
        EscapeListenerStack { scopes: Vec::new() }
    }

    /// The scope `scope_id` mounted a listener: it goes on top.
    pub fn push(&mut self, scope_id: usize)
        ensures
            final(self)@ == old(self)@.push(scope_id),
    {
        self.scopes.push(scope_id);
    }

    /// The scope `scope_id` unmounted: its entries leave, the others keep their order.
    pub fn remove(&mut self, scope_id: usize)
        ensures
            final(self)@ == old(self)@.filter(not_scope(scope_id)),
    {
        let ghost s = self@;
        let mut kept: Vec<usize> = Vec::new();
        let mut i: usize = 0;
        while i < self.scopes.len()
            invariant
                0 <= i <= s.len(),
                s == self.scopes@,
                kept@ == s.take(i as int).filter(not_scope(scope_id)),
            decreases s.len() - i,
        {
            let x = self.scopes[i];
            proof {
                reveal(Seq::filter);
                assert(s.take(i + 1).drop_last() =~= s.take(i as int));
            }
            if x != scope_id {
                kept.push(x);
            }
            i = i + 1;
        }
        proof {
            assert(s.take(i as int) =~= s);
        }
        self.scopes = kept;
    }

    /// Whether Escape goes to `scope_id`: it is on top.
    pub fn is_top(&self, scope_id: usize) -> (r: bool)
        ensures
            r == (self@.len() > 0 && self@.last() == scope_id),
    {
        if self.scopes.len() == 0 {
            false
        } else {
            self.scopes[self.scopes.len() - 1] == scope_id
        }
    }
}

/// Removing a scope that is not on the stack leaves it as it was.
proof fn lemma_filter_absent(s: Seq<usize>, id: usize)
    requires
        !s.contains(id),
    ensures
        s.filter(not_scope(id)) == s,
    decreases s.len(),
{
    reveal(Seq::filter);
    if s.len() > 0 {
        assert(!s.drop_last().contains(id)) by {
            if s.drop_last().contains(id) {
                let k = choose|k: int| 0 <= k < s.drop_last().len() && s.drop_last()[k] == id;
                assert(s[k] == id);
            }
        }
        lemma_filter_absent(s.drop_last(), id);
        assert(s.drop_last().push(s.last()) =~= s);
    }
}

/// A listener that was just mounted answers Escape; unmounting it right away restores the
/// stack as it was, when the scope was not on it before.
pub proof fn law_mount_then_unmount(s: Seq<usize>, id: usize)
    requires
        !s.contains(id),
    ensures
        s.push(id).last() == id,
        s.push(id).filter(not_scope(id)) == s,
{
    reveal(Seq::filter);
    assert(s.push(id).drop_last() =~= s);
    lemma_filter_absent(s, id);
}

/// After a scope unmounts it never answers Escape.
pub proof fn law_unmounted_not_top(s: Seq<usize>, id: usize)
    ensures
        !(s.filter(not_scope(id)).len() > 0 && s.filter(not_scope(id)).last() == id),
{
    broadcast use vstd::seq_lib::group_filter_ensures;
    let t = s.filter(not_scope(id));
    if t.len() > 0 {
        assert(not_scope(id)(t[t.len() - 1]));
    }
}

/// Whether an overlay that opens and closes with an animation is in the document.
pub struct AnimatedOpen {
    /// Whether the overlay is in the document.
    pub show_in_dom: bool,
}

impl AnimatedOpen {
    /// An overlay that is not in the document.
    pub fn new() -> (r: AnimatedOpen)
        ensures
            !r.show_in_dom,
    {
        AnimatedOpen { show_in_dom: false }
    }

    /// The open flag changed to `open`: opening shows the overlay at once; closing keeps it
    /// until its animations end. Returns whether the caller must wait for them and then
    /// call `animations_finished`.
    pub fn open_changed(&mut self, open: bool) -> (r: bool)
        ensures
            r == !open,
            final(self).show_in_dom == (open || old(self).show_in_dom),
    {
        if open {
            self.show_in_dom = true;
            false
        } else {
            true
        }
    }

    /// The animations that followed a change to `open` ended: the overlay is in the
    /// document exactly when `open`.
    pub fn animations_finished(&mut self, open: bool)
        ensures
            final(self).show_in_dom == open,
    {
        self.show_in_dom = open;
    }

    /// Whether the overlay is in the document.
    pub fn visible(&self) -> (r: bool)
        ensures
            r == self.show_in_dom,
    {
        self.show_in_dom
    }
}

} // verus!
