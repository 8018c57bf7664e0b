//! Registered options of select-like components and the text of a selection.
use vstd::prelude::*;
use vstd::string::*;

verus! {

/// A programmatic option value, compared by equality. The library holds a value by the
/// text that identifies it.
#[derive(Clone, Debug)]
pub struct RcPartialEqValue {
    value: String,
}

impl View for RcPartialEqValue {
    type V = Seq<char>;

    closed spec fn view(&self) -> Seq<char> {
        self.value@
    }
}

impl RcPartialEqValue {
    /// Wraps a value.
    pub fn new(value: &str) -> (r: RcPartialEqValue)
        ensures
            r@ == value@,
    {
        RcPartialEqValue { value: value.to_owned() }
    }

    /// The value's text.
    pub fn as_ref(&self) -> (r: Option<&String>)
        ensures
            r matches Some(s) && s@ == self@,
    {
        Some(&self.value)
    }

    /// Whether two values are equal.
    pub fn same_value(&self, other: &RcPartialEqValue) -> (r: bool)
        ensures
            r == (self@ == other@),
    {
        self.value.eq(&other.value)
    }

    /// A copy of this value.
    pub fn duplicate(&self) -> (r: RcPartialEqValue)
        ensures
            r@ == self@,
    {
        RcPartialEqValue { value: self.value.clone() }
    }
}

/// An option as plain values.
pub struct OptionView {
    /// Focus/navigation index.
    pub tab_index: usize,
    /// The option's value.
    pub value: Seq<char>,
    /// Display/search text.
    pub text_value: Seq<char>,
    /// DOM id.
    pub id: Seq<char>,
    /// Whether the option is disabled.
    pub disabled: bool,
}

/// Registered option metadata shared by select-like components.
#[derive(Clone, Debug)]
pub struct OptionState {
    /// Focus/navigation index.
    pub tab_index: usize,
    /// Programmatic option value.
    pub value: RcPartialEqValue,
    /// Display/search text.
    pub text_value: String,
    /// DOM id.
    pub id: String,
    /// Whether this option is disabled.
    pub disabled: bool,
}

impl View for OptionState {
    type V = OptionView;

    open spec fn view(&self) -> OptionView {
        OptionView {
            tab_index: self.tab_index,
            value: self.value@,
            text_value: self.text_value@,
            id: self.id@,
            disabled: self.disabled,
        }
    }
}

impl OptionState {
    /// Whether two options are equal in every field.
    pub fn same_option(&self, other: &OptionState) -> (r: bool)
        ensures
            r == (self@ == other@),
    {
        self.tab_index == other.tab_index && self.disabled == other.disabled
            && self.value.same_value(&other.value) && self.text_value.eq(&other.text_value)
            && self.id.eq(&other.id)
    }

    /// A copy of this option.
    pub fn duplicate(&self) -> (r: OptionState)
        ensures
            r@ == self@,
    {
        OptionState {
            tab_index: self.tab_index,
            value: self.value.duplicate(),
            text_value: self.text_value.clone(),
            id: self.id.clone(),
            disabled: self.disabled,
        }
    }
}

/// The options as plain values.
pub open spec fn options_view(s: Seq<OptionState>) -> Seq<OptionView> {
    Seq::new(s.len(), |i: int| s[i]@)
}

/// The values as plain values.
pub open spec fn values_view(s: Seq<RcPartialEqValue>) -> Seq<Seq<char>> {
    Seq::new(s.len(), |i: int| s[i]@)
}

/// The index of the first option that satisfies `p`.
pub open spec fn first_where(s: Seq<OptionView>, p: spec_fn(OptionView) -> bool) -> Option<int>
    decreases s.len(),
{
    if s.len() == 0 {
        None
    } else {
        match first_where(s.drop_last(), p) {
            Some(j) => Some(j),
            None => if p(s.last()) {
                Some(s.len() - 1)
            } else {
                None
            },
        }
    }
}

/// What `first_where` says, spelt out.
pub proof fn lemma_first_where(s: Seq<OptionView>, p: spec_fn(OptionView) -> bool)
    ensures
        first_where(s, p) matches Some(j) ==> 0 <= j < s.len() && p(s[j]) && forall|k: int|
            0 <= k < j ==> !p(#[trigger] s[k]),
        first_where(s, p) is None ==> forall|k: int| 0 <= k < s.len() ==> !p(#[trigger] s[k]),
    decreases s.len(),
{
    if s.len() > 0 {
        let t = s.drop_last();
        lemma_first_where(t, p);
        assert forall|k: int| 0 <= k < t.len() implies #[trigger] t[k] == s[k] by {}
        match first_where(t, p) {
            Some(j) => {
                assert forall|k: int| 0 <= k < j implies !p(#[trigger] s[k]) by {
                    assert(t[k] == s[k]);
                }
            },
            None => {
                assert forall|k: int| 0 <= k < t.len() implies !p(#[trigger] s[k]) by {
                    assert(t[k] == s[k]);
                }
            },
        }
    }
}

/// The option whose value is `v`.
pub open spec fn has_value(v: Seq<char>) -> spec_fn(OptionView) -> bool {
    |o: OptionView| o.value == v
}

/// The option whose id is `id`.
pub open spec fn has_id(id: Seq<char>) -> spec_fn(OptionView) -> bool {
    |o: OptionView| o.id == id
}

/// The texts of the options selected by `values`, in the order of `values`; a value
/// that no option has contributes nothing.
pub open spec fn selected_parts(values: Seq<Seq<char>>, options: Seq<OptionView>) -> Seq<Seq<char>>
    decreases values.len(),
{
    if values.len() == 0 {
        Seq::empty()
    } else {
        let p = selected_parts(values.drop_last(), options);
        match first_where(options, has_value(values.last())) {
            Some(j) => p.push(options[j].text_value),
            None => p,
        }
    }
}

/// `parts` joined with `sep` between neighbours.
pub open spec fn join_with(parts: Seq<Seq<char>>, sep: Seq<char>) -> Seq<char>
    decreases parts.len(),
{
    if parts.len() == 0 {
        Seq::empty()
    } else if parts.len() == 1 {
        parts[0]
    } else {
        join_with(parts.drop_last(), sep) + sep + parts.last()
    }
}

/// The display text of a selection: the selected texts joined by `", "`, or none when
/// no value has an option.
pub open spec fn selected_text_spec(values: Seq<Seq<char>>, options: Seq<OptionView>) -> Option<Seq<char>> {
    let parts = selected_parts(values, options);
    if parts.len() == 0 {
        None
    } else {
        Some(join_with(parts, seq![',', ' ']))
    }
}

/// The index of the first option whose value is `v`.
fn find_value(options: &[OptionState], v: &RcPartialEqValue) -> (r: Option<usize>)
    ensures
        r matches Some(j) ==> j < options@.len() && first_where(options_view(options@), has_value(v@))
            == Some(j as int),
        r is None ==> first_where(options_view(options@), has_value(v@)) is None,
{
    let ghost s = options_view(options@);
    let mut i: usize = 0;
    while i < options.len()
        invariant
            0 <= i <= options@.len(),
            s == options_view(options@),
            first_where(s.take(i as int), has_value(v@)) is None,
        decreases options@.len() - i,
    {
        assert(s.take(i + 1).drop_last() =~= s.take(i as int));
        if options[i].value.same_value(v) {
            proof {
                assert(s.take(i + 1).last() == s[i as int]);
                first_where_prefix(s, has_value(v@), i + 1);
                lemma_first_where(s, has_value(v@));
            }
            return Some(i);
        }
        i = i + 1;
    }
    assert(s.take(i as int) =~= s);
    None
}

/// A first match inside a prefix is the first match of the whole sequence.
pub proof fn first_where_prefix(s: Seq<OptionView>, p: spec_fn(OptionView) -> bool, n: int)
    requires
        0 <= n <= s.len(),
        first_where(s.take(n), p) is Some,
    ensures
        first_where(s, p) == first_where(s.take(n), p),
    decreases s.len() - n,
{
    if n < s.len() {
        assert(s.take(n + 1).drop_last() =~= s.take(n));
        first_where_prefix(s, p, n + 1);
    } else {
        assert(s.take(n) =~= s);
    }
}

/// Display text for the selected values, in selection order, joined by `", "`; `None`
/// when none of them has an option.
pub fn selected_text(values: &[RcPartialEqValue], options: &[OptionState]) -> (r: Option<String>)
    ensures
        match selected_text_spec(values_view(values@), options_view(options@)) {
            Some(t) => r matches Some(x) && x@ == t,
            None => r is None,
        },
{
    let ghost vs = values_view(values@);
    let ghost os = options_view(options@);
    let mut out = String::new();
    let mut count: usize = 0;
    let mut i: usize = 0;
    while i < values.len()
        invariant
            0 <= i <= values@.len(),
            vs == values_view(values@),
            os == options_view(options@),
            count <= i,
            count == selected_parts(vs.take(i as int), os).len(),
            out@ == join_with(selected_parts(vs.take(i as int), os), seq![',', ' ']),
        decreases values@.len() - i,
    {
        assert(vs.take(i + 1).drop_last() =~= vs.take(i as int));
        assert(vs.take(i + 1).last() == values@[i as int]@);
        let ghost parts = selected_parts(vs.take(i as int), os);
        let ghost before = out@;
        match find_value(options, &values[i]) {
            Some(j) => {
                let ghost t = os[j as int].text_value;
                assert(selected_parts(vs.take(i + 1), os) == parts.push(t));
                if count > 0 {
                    proof {
                        reveal_strlit(", ");
                    }
                    out.append(", ");
                }
                let text = options[j].text_value.as_str();
                assert(text@ == t);
                out.append(text);
                proof {
                    if parts.len() == 0 {
                        assert(out@ =~= t);
                        assert(join_with(parts.push(t), seq![',', ' ']) == t);
                    } else {
                        assert(parts.push(t).drop_last() =~= parts);
                        assert(out@ =~= before + seq![',', ' '] + t);
                    }
                }
                count = count + 1;
            },
            None => {
                assert(selected_parts(vs.take(i + 1), os) == parts);
            },
        }
        i = i + 1;
    }
    assert(vs.take(i as int) =~= vs);
    if count == 0 {
        None
    } else {
        Some(out)
    }
}

/// The options after registering `o`: unchanged when an equal option is already there,
/// else the first option with `o`'s id is replaced, else `o` is added at the end.
pub open spec fn sync_spec(s: Seq<OptionView>, o: OptionView) -> Seq<OptionView> {
    if s.contains(o) {
        s
    } else {
        match first_where(s, has_id(o.id)) {
            Some(j) => s.update(j, o),
            None => s.push(o),
        }
    }
}

/// The options without those whose id is `id`, in their order.
pub open spec fn remove_spec(s: Seq<OptionView>, id: Seq<char>) -> Seq<OptionView>
    decreases s.len(),
{
    if s.len() == 0 {
        s
    } else {
        let rest = remove_spec(s.drop_last(), id);
        if s.last().id == id {
            rest
        } else {
            rest.push(s.last())
        }
    }
}

/// Inserts or updates a registered option.
pub fn sync_option(options: &mut Vec<OptionState>, option_state: OptionState)
    ensures
        options_view(final(options)@) == sync_spec(options_view(old(options)@), option_state@),
{
    let ghost s = options_view(options@);
    let mut i: usize = 0;
    while i < options.len()
        invariant
            0 <= i <= options@.len(),
            s == options_view(options@),
            s == options_view(old(options)@),
            forall|k: int| 0 <= k < i ==> s[k] != option_state@,
        decreases options@.len() - i,
    {
        if options[i].same_option(&option_state) {
            assert(s[i as int] == option_state@);
            return;
        }
        i = i + 1;
    }
    assert(!s.contains(option_state@));
    let mut j: usize = 0;
    while j < options.len()
        invariant
            0 <= j <= options@.len(),
            s == options_view(options@),
            s == options_view(old(options)@),
            !s.contains(option_state@),
            first_where(s.take(j as int), has_id(option_state@.id)) is None,
        decreases options@.len() - j,
    {
        assert(s.take(j + 1).drop_last() =~= s.take(j as int));
        if options[j].id.eq(&option_state.id) {
            proof {
                assert(s.take(j + 1).last() == s[j as int]);
                assert(s[j as int].id == option_state@.id);
                assert(first_where(s.take(j + 1), has_id(option_state@.id)) == Some(j as int));
                first_where_prefix(s, has_id(option_state@.id), j + 1);
                assert(sync_spec(s, option_state@) == s.update(j as int, option_state@));
            }
            options.set(j, option_state);
            proof {
                assert(options_view(options@) =~= s.update(j as int, option_state@));
            }
            return;
        }
        j = j + 1;
    }
    assert(s.take(j as int) =~= s);
    options.push(option_state);
    assert(options_view(options@) =~= s.push(option_state@));
}

/// Removes every registered option whose id is `id`.
pub fn remove_option(options: &mut Vec<OptionState>, id: &str)
    ensures
        options_view(final(options)@) == remove_spec(options_view(old(options)@), id@),
{
    let ghost s = options_view(options@);
    let mut kept: Vec<OptionState> = Vec::new();
    let mut i: usize = 0;
    let n = options.len();
    while i < n
        invariant
            0 <= i <= n,
            n == options@.len(),
            s == options_view(options@),
            s == options_view(old(options)@),
            options_view(kept@) == remove_spec(s.take(i as int), id@),
        decreases n - i,
    {
        assert(s.take(i + 1).drop_last() =~= s.take(i as int));
        assert(s.take(i + 1).last() == s[i as int]);
        let o = &options[i];
        if !str_eq(o.id.as_str(), id) {
            kept.push(o.duplicate());
            assert(options_view(kept@) =~= remove_spec(s.take(i as int), id@).push(s[i as int]));
        }
        i = i + 1;
    }
    assert(s.take(i as int) =~= s);
    *options = kept;
}

/// Whether two strings are equal.
pub(crate) fn str_eq(a: &str, b: &str) -> (r: bool)
    ensures
        r == (a@ == b@),
{
    let n = a.unicode_len();
    if n != b.unicode_len() {
        return false;
    }
    let mut i: usize = 0;
    while i < n
        invariant
            0 <= i <= n,
            n == a@.len(),
            n == b@.len(),
            forall|k: int| 0 <= k < i ==> a@[k] == b@[k],
        decreases n - i,
    {
        if a.get_char(i) != b.get_char(i) {
            return false;
        }
        i = i + 1;
    }
    assert(a@ =~= b@);
    true
}

/// An option's searchable text: the explicit `text_value` when given, else the option
/// value's own text when the value is a string, else empty.
pub fn option_text_value(value_text: Option<&str>, text_value: Option<String>) -> (r: String)
    ensures
        r@ == match text_value {
            Some(t) => t@,
            None => match value_text {
                Some(v) => v@,
                None => Seq::<char>::empty(),
            },
        },
{
    match text_value {
        Some(t) => t,
        None => match value_text {
            Some(v) => v.to_owned(),
            None => String::new(),
        },
    }
}

/// After an option is registered it is among the options, and registering it again
/// changes nothing.
pub proof fn law_sync_registers_once(s: Seq<OptionView>, o: OptionView)
    ensures
        sync_spec(s, o).contains(o),
        sync_spec(sync_spec(s, o), o) == sync_spec(s, o),
{
    let t = sync_spec(s, o);
    if !s.contains(o) {
        lemma_first_where(s, has_id(o.id));
        match first_where(s, has_id(o.id)) {
            Some(j) => {
                assert(t[j] == o);
            },
            None => {
                assert(t[t.len() - 1] == o);
            },
        }
    }
}

/// Removing by id leaves no option with that id and keeps every other option.
pub proof fn law_remove_option(s: Seq<OptionView>, id: Seq<char>)
    ensures
        forall|k: int| 0 <= k < remove_spec(s, id).len() ==> #[trigger] remove_spec(s, id)[k].id != id,
        forall|k: int| 0 <= k < s.len() && s[k].id != id ==> remove_spec(s, id).contains(#[trigger] s[k]),
    decreases s.len(),
{
    if s.len() > 0 {
        let t = s.drop_last();
        law_remove_option(t, id);
        let r = remove_spec(t, id);
        assert forall|k: int| 0 <= k < s.len() && s[k].id != id implies remove_spec(s, id).contains(#[trigger] s[k]) by {
            if k < s.len() - 1 {
                assert(t[k] == s[k]);
                assert(r.contains(t[k]));
                let x = choose|x: int| 0 <= x < r.len() && r[x] == t[k];
                if s.last().id != id {
                    assert(remove_spec(s, id)[x] == s[k]);
                }
            } else {
                assert(remove_spec(s, id)[r.len() as int] == s[k]);
            }
        }
    }
}

/// The options after an option registers under its current id: the entry under the id
/// it registered with before, when that differs, leaves first.
pub open spec fn register_spec(s: Seq<OptionView>, previous_id: Option<Seq<char>>, o: OptionView) -> Seq<OptionView> {
    let cleared = match previous_id {
        Some(p) => if p != o.id {
            remove_spec(s, p)
        } else {
            s
        },
        None => s,
    };
    sync_spec(cleared, o)
}

/// An option (re)registers with the listbox: the entry under its previous id, when that
/// differs from its current id, is removed; then the option is synced in, and its id is
/// remembered as the previous one.
pub fn register_listbox_option(options: &mut Vec<OptionState>, previous_id: &mut Option<String>, option: OptionState)
    ensures
        options_view(final(options)@) == register_spec(
            options_view(old(options)@),
            match *old(previous_id) {
                Some(p) => Some(p@),
                None => None,
            },
            option@,
        ),
        match *final(previous_id) {
            Some(p) => p@ == option@.id,
            None => false,
        },
{
    let stale = match previous_id {
        Some(p) => !str_eq(p.as_str(), option.id.as_str()),
        None => false,
    };
    if stale {
        match previous_id {
            Some(p) => remove_option(options, p.as_str()),
            None => {},
        }
    }
    let id = option.id.clone();
    sync_option(options, option);
    *previous_id = Some(id);
}

/// An option unmounts: the entry under the id it registered with leaves.
pub fn unregister_listbox_option(options: &mut Vec<OptionState>, previous_id: &Option<String>)
    ensures
        options_view(final(options)@) == match *previous_id {
            Some(p) => remove_spec(options_view(old(options)@), p@),
            None => options_view(old(options)@),
        },
{
    match previous_id {
        Some(p) => remove_option(options, p.as_str()),
        None => {},
    }
}

} // verus!
