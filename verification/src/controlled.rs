//! State that is either controlled by its owner or kept inside, and element ids.
use vstd::prelude::*;
use crate::text::{decimal, push_str, push_usize};
use crate::date_segment::{digits_value, lemma_decimal_digits};

verus! {

/// The value seen by the component: the owner's value when it controls the state, else
/// the value kept inside.
pub open spec fn controlled_value<T>(internal: T, prop: Option<T>) -> T {
    match prop {
        Some(p) => p,
        None => internal,
    }
}

/// State that is either controlled or uncontrolled: the value kept inside, which the
/// owner's value overrides whenever it is given.
pub struct ControlledState<T> {
    /// The value kept inside.
    pub internal: T,
}

/// Starts a controlled or uncontrolled state: the value kept inside starts as the owner's
/// value when given, else as `default`.
pub fn use_controlled<T>(prop: Option<T>, default: T) -> (r: ControlledState<T>)
    ensures
        r.internal == controlled_value(default, prop),
{
    match prop {
        Some(p) => ControlledState { internal: p },
        None => ControlledState { internal: default },
    }
}

impl<T> ControlledState<T> {
    /// The current value: the owner's value when given, else the value kept inside.
    pub fn value<'a>(&'a self, prop: Option<&'a T>) -> (r: &'a T)
        ensures
            *r == controlled_value(
                self.internal,
                match prop {
                    Some(p) => Some(*p),
                    None => None,
                },
            ),
    {
        match prop {
            Some(p) => p,
            None => &self.internal,
        }
    }

    /// A new value was chosen: it is kept inside (the owner is told of it by the caller).
    pub fn set_value(&mut self, x: T)
        ensures
            final(self).internal == x,
    {
        self.internal = x;
    }
}

/// Uncontrolled state reads back the last value set; controlled state always reads the
/// owner's value.
pub proof fn law_controlled_read_after_write<T>(x: T, owner: T)
    ensures
        controlled_value(x, None) == x,
        controlled_value(x, Some(owner)) == owner,
{
}

/// The id an element uses: the one its user gave, which also replaces the generated id
/// kept in `gen_id`; without one, the id kept in `gen_id`.
pub fn use_id_or(gen_id: &mut String, user_id: Option<&String>) -> (r: String)
    ensures
        match user_id {
            Some(u) => final(gen_id)@ == u@ && r@ == u@,
            None => final(gen_id)@ == old(gen_id)@ && r@ == old(gen_id)@,
        },
{
    match user_id {
        Some(u) => {
            *gen_id = u.clone();
            u.clone()
        },
        None => gen_id.clone(),
    }
}

/// The text of the `n`-th generated id: `dxc-` followed by `n`.
pub open spec fn unique_id_spec(n: nat) -> Seq<char> {
    seq!['d', 'x', 'c', '-'] + decimal(n)
}

/// The `n`-th generated id.
pub fn unique_id_text(n: usize) -> (r: String)
    ensures
        r@ == unique_id_spec(n as nat),
{
    let mut out = String::new();
    proof {
        reveal_strlit("dxc-");
    }
    push_str(&mut out, "dxc-");
    push_usize(&mut out, n);
    out
}

/// Ids generated from different counts differ.
pub proof fn law_unique_ids_differ(n: nat, m: nat)
    requires
        n != m,
    ensures
        unique_id_spec(n) != unique_id_spec(m),
{
    lemma_decimal_digits(n);
    lemma_decimal_digits(m);
    if unique_id_spec(n) == unique_id_spec(m) {
        assert(unique_id_spec(n).skip(4) =~= decimal(n));
        assert(unique_id_spec(m).skip(4) =~= decimal(m));
        assert(digits_value(decimal(n)) == digits_value(decimal(m)));
    }
}

} // verus!
