//! Merging of element attribute lists.
//!
//! Attributes with the same name and namespace are combined: a later occurrence
//! replaces an earlier one, except that `class` texts are joined with a single
//! space. The result is ordered by attribute name.
use vstd::prelude::*;
use vstd::string::*;

verus! {

/// Lexicographic order on character sequences by code point.
pub open spec fn seq_lt(a: Seq<char>, b: Seq<char>) -> bool
    decreases a.len(),
{
    if a.len() == 0 {
        b.len() > 0
    } else if b.len() == 0 {
        false
    } else if a[0] != b[0] {
        a[0] < b[0]
    } else {
        seq_lt(a.drop_first(), b.drop_first())
    }
}

/// The value of an attribute: a text, or a value of another kind that is carried through.
pub enum AttributeValue<T> {
    /// A text value.
    Text(String),
    /// Any other value.
    Other(T),
}

/// The abstract value of an attribute.
pub enum AttributeValueView<T> {
    /// A text value.
    Text(Seq<char>),
    /// Any other value.
    Other(T),
}

impl<T> View for AttributeValue<T> {
    type V = AttributeValueView<T>;

    open spec fn view(&self) -> AttributeValueView<T> {
        match self {
            AttributeValue::Text(s) => AttributeValueView::Text(s@),
            AttributeValue::Other(v) => AttributeValueView::Other(*v),
        }
    }
}

/// An element attribute.
pub struct Attribute<T> {
    /// The attribute name.
    pub name: String,
    /// The attribute namespace, if any.
    pub namespace: Option<String>,
    /// Whether the attribute must be re-applied on every render.
    pub volatile: bool,
    /// The attribute value.
    pub value: AttributeValue<T>,
}

/// The abstract content of an attribute.
pub struct AttributeView<T> {
    /// The attribute name.
    pub name: Seq<char>,
    /// The attribute namespace, if any.
    pub namespace: Option<Seq<char>>,
    /// The volatility flag.
    pub volatile: bool,
    /// The value.
    pub value: AttributeValueView<T>,
}

/// The view of an optional string.
pub open spec fn opt_view(s: Option<String>) -> Option<Seq<char>> {
    match s {
        Some(x) => Some(x@),
        None => None,
    }
}

impl<T> View for Attribute<T> {
    type V = AttributeView<T>;

    open spec fn view(&self) -> AttributeView<T> {
        AttributeView {
            name: self.name@,
            namespace: opt_view(self.namespace),
            volatile: self.volatile,
            value: self.value@,
        }
    }
}

/// The views of a sequence of attributes.
pub open spec fn attrs_view<T>(s: Seq<Attribute<T>>) -> Seq<AttributeView<T>> {
    s.map_values(|a: Attribute<T>| a@)
}

/// The attributes of all lists, list after list.
pub open spec fn flatten_lists<T>(lists: Seq<Vec<Attribute<T>>>) -> Seq<AttributeView<T>>
    decreases lists.len(),
{
    if lists.len() == 0 {
        Seq::empty()
    } else {
        flatten_lists(lists.drop_last()) + attrs_view(lists.last()@)
    }
}

/// The name `class`.
pub open spec fn class_name() -> Seq<char> {
    seq!['c', 'l', 'a', 's', 's']
}

/// Whether `c` has the Unicode `White_Space` property, which is what `char::is_whitespace`
/// and `str::trim` test.
pub open spec fn is_white_space(c: char) -> bool {
    let x = c as u32;
    ||| 0x09 <= x <= 0x0D
    ||| x == 0x20
    ||| x == 0x85
    ||| x == 0xA0
    ||| x == 0x1680
    ||| 0x2000 <= x <= 0x200A
    ||| x == 0x2028
    ||| x == 0x2029
    ||| x == 0x202F
    ||| x == 0x205F
    ||| x == 0x3000
}

/// The number of whitespace characters at the start of `s`.
pub open spec fn leading_white_space(s: Seq<char>) -> nat
    decreases s.len(),
{
    if s.len() > 0 && is_white_space(s[0]) {
        1 + leading_white_space(s.drop_first())
    } else {
        0
    }
}

/// The number of whitespace characters at the end of `s`.
pub open spec fn trailing_white_space(s: Seq<char>) -> nat
    decreases s.len(),
{
    if s.len() > 0 && is_white_space(s.last()) {
        1 + trailing_white_space(s.drop_last())
    } else {
        0
    }
}

/// The text left of `s` once leading and trailing whitespace is removed.
pub open spec fn trim_spec(s: Seq<char>) -> Seq<char> {
    if leading_white_space(s) >= s.len() {
        Seq::empty()
    } else {
        s.subrange(leading_white_space(s) as int, s.len() - trailing_white_space(s))
    }
}

/// The two class lists joined: both trimmed, separated by one space when both are non-empty.
pub open spec fn join_spec(a: Seq<char>, b: Seq<char>) -> Seq<char> {
    let (x, y) = (trim_spec(a), trim_spec(b));
    if x.len() > 0 && y.len() > 0 {
        x + seq![' '] + y
    } else {
        x + y
    }
}

/// The smallest name among the attributes (the first one when several are equal).
pub open spec fn min_name<T>(s: Seq<AttributeView<T>>) -> Seq<char>
    decreases s.len(),
{
    if s.len() == 0 {
        Seq::empty()
    } else if s.len() == 1 {
        s[0].name
    } else {
        let m = min_name(s.drop_last());
        if seq_lt(s.last().name, m) {
            s.last().name
        } else {
            m
        }
    }
}

/// The attributes named `n`, in order.
pub open spec fn group_of<T>(s: Seq<AttributeView<T>>, n: Seq<char>) -> Seq<AttributeView<T>>
    decreases s.len(),
{
    if s.len() == 0 {
        Seq::empty()
    } else {
        let g = group_of(s.drop_last(), n);
        if s.last().name == n {
            g.push(s.last())
        } else {
            g
        }
    }
}

/// The attributes not named `n`, in order.
pub open spec fn rest_of<T>(s: Seq<AttributeView<T>>, n: Seq<char>) -> Seq<AttributeView<T>>
    decreases s.len(),
{
    if s.len() == 0 {
        Seq::empty()
    } else {
        let g = rest_of(s.drop_last(), n);
        if s.last().name != n {
            g.push(s.last())
        } else {
            g
        }
    }
}

/// The position of the first attribute with namespace `ns`, or -1.
pub open spec fn ns_index<T>(acc: Seq<AttributeView<T>>, ns: Option<Seq<char>>) -> int
    decreases acc.len(),
{
    if acc.len() == 0 {
        -1
    } else if acc[0].namespace == ns {
        0
    } else {
        let r = ns_index(acc.drop_first(), ns);
        if r < 0 {
            -1
        } else {
            r + 1
        }
    }
}

/// A later `class` attribute combined into an earlier one: texts are joined and the
/// attribute stays volatile if either was; any other value pair takes the later attribute.
pub open spec fn combine_class<T>(earlier: AttributeView<T>, later: AttributeView<T>) -> AttributeView<T> {
    match (earlier.value, later.value) {
        (AttributeValueView::Text(x), AttributeValueView::Text(y)) => AttributeView {
            name: later.name,
            namespace: later.namespace,
            volatile: earlier.volatile || later.volatile,
            value: AttributeValueView::Text(join_spec(x, y)),
        },
        _ => later,
    }
}

/// Adds `a` to the attributes collected for one name: it replaces (or, for `class`,
/// combines into) the entry with the same namespace, or is appended.
pub open spec fn add_to_group<T>(acc: Seq<AttributeView<T>>, a: AttributeView<T>) -> Seq<AttributeView<T>> {
    let i = ns_index(acc, a.namespace);
    if i < 0 {
        acc.push(a)
    } else if a.name == class_name() {
        acc.update(i, combine_class(acc[i], a))
    } else {
        acc.update(i, a)
    }
}

/// All attributes of one name folded into one per namespace.
pub open spec fn fold_group<T>(g: Seq<AttributeView<T>>) -> Seq<AttributeView<T>>
    decreases g.len(),
{
    if g.len() == 0 {
        Seq::empty()
    } else {
        add_to_group(fold_group(g.drop_last()), g.last())
    }
}

/// The merged attributes: the group of the smallest name, then the merge of the rest.
pub open spec fn merge_spec<T>(s: Seq<AttributeView<T>>) -> Seq<AttributeView<T>>
    decreases s.len(),
    via merge_spec_decreases::<T>
{
    if s.len() == 0 {
        Seq::empty()
    } else {
        let m = min_name(s);
        fold_group(group_of(s, m)) + merge_spec(rest_of(s, m))
    }
}

#[via_fn]
proof fn merge_spec_decreases<T>(s: Seq<AttributeView<T>>) {
    if s.len() > 0 {
        lemma_min_name_present(s);
        lemma_group_rest_len(s, min_name(s));
    }
}

/// The smallest name is the name of some attribute.
pub proof fn lemma_min_name_present<T>(s: Seq<AttributeView<T>>)
    requires
        s.len() > 0,
    ensures
        exists|i: int| 0 <= i < s.len() && s[i].name == min_name(s),
    decreases s.len(),
{
    if s.len() == 1 {
        assert(s[0].name == min_name(s));
    } else {
        let t = s.drop_last();
        lemma_min_name_present(t);
        if seq_lt(s.last().name, min_name(t)) {
            assert(s[s.len() - 1].name == min_name(s));
        } else {
            let i = choose|i: int| 0 <= i < t.len() && t[i].name == min_name(t);
            assert(s[i] == t[i]);
        }
    }
}

/// Splitting by a name keeps every attribute, and a present name leaves fewer behind.
pub proof fn lemma_group_rest_len<T>(s: Seq<AttributeView<T>>, n: Seq<char>)
    ensures
        group_of(s, n).len() + rest_of(s, n).len() == s.len(),
        (exists|i: int| 0 <= i < s.len() && s[i].name == n) ==> rest_of(s, n).len() < s.len(),
    decreases s.len(),
{
    if s.len() > 0 {
        let t = s.drop_last();
        lemma_group_rest_len(t, n);
        if exists|i: int| 0 <= i < s.len() && s[i].name == n {
            let i = choose|i: int| 0 <= i < s.len() && s[i].name == n;
            if i < s.len() - 1 {
                assert(t[i] == s[i]);
            }
        }
    }
}

/// Whether `c` has the Unicode `White_Space` property.
pub fn is_white_space_char(c: char) -> (r: bool)
    ensures
        r == is_white_space(c),
{
    let x = c as u32;
    (0x09 <= x && x <= 0x0D) || x == 0x20 || x == 0x85 || x == 0xA0 || x == 0x1680 || (0x2000 <= x
        && x <= 0x200A) || x == 0x2028 || x == 0x2029 || x == 0x202F || x == 0x205F || x == 0x3000
}

/// `s` without its leading and trailing whitespace, as `str::trim` gives it.
pub fn trim(s: &str) -> (r: &str)
    ensures
        r@ == trim_spec(s@),
{
    proof {
        lemma_leading_white_space(s@);
        lemma_trailing_white_space(s@);
    }
    let n = s.unicode_len();
    let mut l: usize = 0;
    while l < n && is_white_space_char(s.get_char(l))
        invariant
            l <= n,
            n == s@.len(),
            forall|j: int| 0 <= j < l ==> is_white_space(#[trigger] s@[j]),
        decreases n - l,
    {
        l = l + 1;
    }
    proof {
        let lw = leading_white_space(s@);
        if l < lw {
            assert(is_white_space(s@[l as int]));
        }
        if lw < l {
            assert(is_white_space(s@[lw as int]));
        }
    }
    if l >= n {
        return s.substring_char(0, 0);
    }
    let mut t: usize = 0;
    while t < n && is_white_space_char(s.get_char(n - 1 - t))
        invariant
            t <= n,
            n == s@.len(),
            forall|j: int| n - t <= j < n ==> is_white_space(#[trigger] s@[j]),
        decreases n - t,
    {
        t = t + 1;
    }
    proof {
        let tw = trailing_white_space(s@);
        if t < tw {
            assert(is_white_space(s@[n - 1 - t]));
        }
        if tw < t {
            assert(is_white_space(s@[n - 1 - tw]));
        }
        assert(!is_white_space(s@[l as int]));
        if n - t <= l {
            assert(is_white_space(s@[l as int]));
        }
    }
    s.substring_char(l, n - t)
}

/// Joins two class lists: both are trimmed, and a single space separates them
/// when both are non-empty.
pub fn join_class(a: &str, b: &str) -> (r: String)
    ensures
        r@ == join_spec(a@, b@),
{
    let a = trim(a);
    let b = trim(b);
    let mut r = String::from_str(a);
    if !a.is_empty() && !b.is_empty() {
        proof {
            reveal_strlit(" ");
        }
        r.append(" ");
    }
    r.append(b);
    r
}

/// Whether `a` comes before `b` in code point order.
pub fn str_less(a: &str, b: &str) -> (r: bool)
    ensures
        r == seq_lt(a@, b@),
{
    let la = a.unicode_len();
    let lb = b.unicode_len();
    let mut i: usize = 0;
    proof {
        assert(a@.skip(0) =~= a@);
        assert(b@.skip(0) =~= b@);
    }
    while i < la && i < lb
        invariant
            la == a@.len(),
            lb == b@.len(),
            i <= la,
            i <= lb,
            seq_lt(a@, b@) == seq_lt(a@.skip(i as int), b@.skip(i as int)),
        decreases la - i,
    {
        let ca = a.get_char(i);
        let cb = b.get_char(i);
        if ca != cb {
            return ca < cb;
        }
        proof {
            assert(a@.skip(i as int).drop_first() =~= a@.skip(i + 1));
            assert(b@.skip(i as int).drop_first() =~= b@.skip(i + 1));
        }
        i = i + 1;
    }
    i == la && i < lb
}

/// Whether two optional namespaces are equal.
fn namespace_eq(a: &Option<String>, b: &Option<String>) -> (r: bool)
    ensures
        r == (opt_view(*a) == opt_view(*b)),
{
    match (a, b) {
        (None, None) => true,
        (Some(x), Some(y)) => x.eq(y),
        _ => false,
    }
}

proof fn lemma_ns_index<T>(acc: Seq<AttributeView<T>>, ns: Option<Seq<char>>, i: int)
    requires
        0 <= i <= acc.len(),
        forall|j: int| 0 <= j < i ==> acc[j].namespace != ns,
    ensures
        i < acc.len() && acc[i].namespace == ns ==> ns_index(acc, ns) == i,
        i == acc.len() ==> ns_index(acc, ns) == -1,
    decreases i,
{
    if i > 0 {
        lemma_ns_index(acc.drop_first(), ns, i - 1);
    }
}

proof fn lemma_attrs_view_push<T>(s: Seq<Attribute<T>>, a: Attribute<T>)
    ensures
        attrs_view(s.push(a)) == attrs_view(s).push(a@),
{
    assert(attrs_view(s.push(a)) =~= attrs_view(s).push(a@));
}

/// Adds `a` to the attributes collected for its name.
fn add_by_namespace<T>(acc: &mut Vec<Attribute<T>>, a: Attribute<T>)
    ensures
        attrs_view(final(acc)@) == add_to_group(attrs_view(old(acc)@), a@),
{
    let ghost old_view = attrs_view(acc@);
    let mut i: usize = 0;
    while i < acc.len() && !namespace_eq(&acc[i].namespace, &a.namespace)
        invariant
            0 <= i <= acc@.len(),
            old_view == attrs_view(acc@),
            forall|j: int| 0 <= j < i ==> old_view[j].namespace != a@.namespace,
        decreases acc@.len() - i,
    {
        i = i + 1;
    }
    proof {
        lemma_ns_index(old_view, a@.namespace, i as int);
    }
    if i == acc.len() {
        proof {
            lemma_attrs_view_push(acc@, a);
        }
        acc.push(a);
        return;
    }
    proof {
        reveal_strlit("class");
        assert("class"@ =~= class_name());
    }
    let class = String::from_str("class");
    let is_class = a.name.eq(&class);
    let ghost av = a@;
    let ghost ei = old_view[i as int];
    if is_class {
        let joined: Option<String> = match (&acc[i].value, &a.value) {
            (AttributeValue::Text(x), AttributeValue::Text(y)) => Some(join_class(x.as_str(), y.as_str())),
            _ => None,
        };
        let was_volatile = acc[i].volatile;
        match joined {
            Some(text) => {
                let merged = Attribute {
                    name: a.name,
                    namespace: a.namespace,
                    volatile: was_volatile || a.volatile,
                    value: AttributeValue::Text(text),
                };
                assert(merged@ == combine_class(ei, av));
                acc.set(i, merged);
            },
            None => {
                assert(av == combine_class(ei, av));
                acc.set(i, a);
            },
        }
        assert(attrs_view(acc@) =~= old_view.update(i as int, combine_class(ei, av)));
    } else {
        acc.set(i, a);
        assert(attrs_view(acc@) =~= old_view.update(i as int, av));
    }
}

/// Merges attribute lists. For each attribute name, in increasing name order, the
/// attributes of that name (list after list, each list in its own order) are folded
/// into one per namespace: a later one replaces an earlier one, except that `class`
/// texts are joined with a single space (both trimmed) and stay volatile if either was.
pub fn merge_attributes<T>(lists: Vec<Vec<Attribute<T>>>) -> (r: Vec<Attribute<T>>)
    ensures
        attrs_view(r@) == merge_spec(flatten_lists(lists@)),
{
    let ghost orig = lists@;
    let n = lists.len();
    assert(orig.len() == n);
    let mut lists = lists;
    let mut all: Vec<Attribute<T>> = Vec::new();
    let mut k: usize = 0;
    while lists.len() > 0
        invariant
            k <= orig.len(),
            orig.len() <= usize::MAX,
            lists@.len() == orig.len() - k,
            lists@ == orig.skip(k as int),
            attrs_view(all@) == flatten_lists(orig.take(k as int)),
        decreases lists@.len(),
    {
        let mut l = lists.remove(0);
        proof {
            assert(orig.take(k + 1).drop_last() =~= orig.take(k as int));
            assert(orig.skip(k as int).drop_first() =~= orig.skip(k + 1));
            assert(attrs_view(all@ + l@) =~= attrs_view(all@) + attrs_view(l@));
        }
        all.append(&mut l);
        k = k + 1;
    }
    proof {
        assert(orig.take(k as int) =~= orig);
    }
    let ghost target = merge_spec(flatten_lists(orig));
    let mut merged: Vec<Attribute<T>> = Vec::new();
    while all.len() > 0
        invariant
            attrs_view(merged@) + merge_spec(attrs_view(all@)) == target,
        decreases all@.len(),
    {
        let ghost s = attrs_view(all@);
        // the smallest name, first occurrence
        let mut mi: usize = 0;
        let mut j: usize = 1;
        while j < all.len()
            invariant
                all@.len() > 0,
                s == attrs_view(all@),
                1 <= j <= all@.len(),
                mi < all@.len(),
                s[mi as int].name == min_name(s.take(j as int)),
            decreases all@.len() - j,
        {
            proof {
                assert(s.take(j + 1).drop_last() =~= s.take(j as int));
            }
            if str_less(all[j].name.as_str(), all[mi].name.as_str()) {
                mi = j;
            }
            j = j + 1;
        }
        proof {
            assert(s.take(j as int) =~= s);
        }
        let m = all[mi].name.clone();
        let ghost mname = m@;
        proof {
            assert(mname == min_name(s));
            lemma_min_name_present(s);
            lemma_group_rest_len(s, mname);
        }
        // split into the attributes named m and the others
        let mut group: Vec<Attribute<T>> = Vec::new();
        let mut rest: Vec<Attribute<T>> = Vec::new();
        let mut q: usize = 0;
        while all.len() > 0
            invariant
                q <= s.len(),
                s.len() <= usize::MAX,
                m@ == mname,
                attrs_view(all@) == s.skip(q as int),
                attrs_view(group@) == group_of(s.take(q as int), mname),
                attrs_view(rest@) == rest_of(s.take(q as int), mname),
            decreases all@.len(),
        {
            let ghost before = all@;
            assert(attrs_view(before).len() == before.len());
            assert(q < s.len());
            let a = all.remove(0);
            proof {
                assert(attrs_view(before)[0] == before[0]@);
                assert(a@ == s[q as int]);
                assert(s.take(q + 1).drop_last() =~= s.take(q as int));
                assert forall|i: int| 0 <= i < all@.len() implies attrs_view(all@)[i] == s.skip(q + 1)[i] by {
                    assert(all@[i] == before[i + 1]);
                    assert(attrs_view(before)[i + 1] == before[i + 1]@);
                }
                assert(attrs_view(all@) =~= s.skip(q + 1));
                assert(s.take(q + 1).last() == s[q as int]);
                lemma_attrs_view_push(group@, a);
                lemma_attrs_view_push(rest@, a);
            }
            if a.name.eq(&m) {
                group.push(a);
            } else {
                rest.push(a);
            }
            q = q + 1;
        }
        proof {
            assert(s.take(q as int) =~= s);
        }
        // fold the group into one attribute per namespace
        let ghost g = attrs_view(group@);
        let mut by_ns: Vec<Attribute<T>> = Vec::new();
        let mut p: usize = 0;
        while group.len() > 0
            invariant
                p <= g.len(),
                g.len() <= usize::MAX,
                attrs_view(group@) == g.skip(p as int),
                attrs_view(by_ns@) == fold_group(g.take(p as int)),
            decreases group@.len(),
        {
            let ghost before = group@;
            assert(attrs_view(before).len() == before.len());
            assert(p < g.len());
            let a = group.remove(0);
            proof {
                assert(attrs_view(before)[0] == before[0]@);
                assert(a@ == g[p as int]);
                assert(g.take(p + 1).drop_last() =~= g.take(p as int));
                assert forall|i: int| 0 <= i < group@.len() implies attrs_view(group@)[i] == g.skip(p + 1)[i] by {
                    assert(group@[i] == before[i + 1]);
                    assert(attrs_view(before)[i + 1] == before[i + 1]@);
                }
                assert(attrs_view(group@) =~= g.skip(p + 1));
                assert(g.take(p + 1).last() == g[p as int]);
            }
            add_by_namespace(&mut by_ns, a);
            p = p + 1;
        }
        proof {
            assert(g.take(p as int) =~= g);
            assert(attrs_view(merged@ + by_ns@) =~= attrs_view(merged@) + attrs_view(by_ns@));
            assert(merge_spec(s) == fold_group(group_of(s, mname)) + merge_spec(rest_of(s, mname)));
            assert(attrs_view(merged@ + by_ns@) + merge_spec(attrs_view(rest@)) =~= attrs_view(merged@)
                + merge_spec(s));
        }
        merged.append(&mut by_ns);
        all = rest;
    }
    proof {
        assert(attrs_view(all@) =~= Seq::<AttributeView<T>>::empty());
        assert(attrs_view(merged@) + merge_spec(attrs_view(all@)) =~= attrs_view(merged@));
    }
    merged
}

/// No name comes before itself.
pub proof fn lemma_seq_lt_irreflexive(a: Seq<char>)
    ensures
        !seq_lt(a, a),
    decreases a.len(),
{
    if a.len() > 0 {
        lemma_seq_lt_irreflexive(a.drop_first());
    }
}

/// The order on names is transitive.
pub proof fn lemma_seq_lt_transitive(a: Seq<char>, b: Seq<char>, c: Seq<char>)
    requires
        seq_lt(a, b),
        seq_lt(b, c),
    ensures
        seq_lt(a, c),
    decreases a.len(),
{
    if a.len() > 0 && b.len() > 0 && c.len() > 0 {
        if a[0] == b[0] && b[0] == c[0] {
            lemma_seq_lt_transitive(a.drop_first(), b.drop_first(), c.drop_first());
        }
    }
}

/// Of two different names, one comes before the other.
pub proof fn lemma_seq_lt_total(a: Seq<char>, b: Seq<char>)
    requires
        a != b,
    ensures
        seq_lt(a, b) || seq_lt(b, a),
    decreases a.len(),
{
    if a.len() > 0 && b.len() > 0 {
        if a[0] == b[0] {
            if a.drop_first() == b.drop_first() {
                assert(a =~= seq![a[0]] + a.drop_first());
                assert(b =~= seq![b[0]] + b.drop_first());
            }
            lemma_seq_lt_total(a.drop_first(), b.drop_first());
        }
    } else if a.len() == 0 && b.len() == 0 {
        assert(a =~= b);
    }
}

/// No attribute's name comes before the smallest name.
pub proof fn lemma_min_name_least<T>(s: Seq<AttributeView<T>>)
    ensures
        forall|i: int| 0 <= i < s.len() ==> !seq_lt(#[trigger] s[i].name, min_name(s)),
    decreases s.len(),
{
    if s.len() == 1 {
        lemma_seq_lt_irreflexive(s[0].name);
    } else if s.len() > 1 {
        let t = s.drop_last();
        lemma_min_name_least(t);
        let m = min_name(t);
        assert forall|i: int| 0 <= i < s.len() implies !seq_lt(#[trigger] s[i].name, min_name(s)) by {
            if seq_lt(s.last().name, m) {
                if i < s.len() - 1 {
                    assert(s[i] == t[i]);
                    if seq_lt(s[i].name, s.last().name) {
                        lemma_seq_lt_transitive(s[i].name, s.last().name, m);
                    }
                } else {
                    lemma_seq_lt_irreflexive(s.last().name);
                }
            } else {
                if i < s.len() - 1 {
                    assert(s[i] == t[i]);
                }
            }
        }
    }
}

/// Whether some attribute is named `n`.
pub open spec fn has_name<T>(s: Seq<AttributeView<T>>, n: Seq<char>) -> bool {
    exists|i: int| 0 <= i < s.len() && s[i].name == n
}

/// The attributes named `n` all carry that name, and the others keep theirs.
proof fn lemma_group_rest_names<T>(s: Seq<AttributeView<T>>, n: Seq<char>)
    ensures
        forall|i: int| 0 <= i < group_of(s, n).len() ==> #[trigger] group_of(s, n)[i].name == n,
        forall|i: int| 0 <= i < rest_of(s, n).len() ==> (#[trigger] rest_of(s, n)[i]).name != n
            && has_name(s, rest_of(s, n)[i].name),
        has_name(s, n) ==> group_of(s, n).len() > 0,
        forall|x: Seq<char>| x != n && has_name(s, x) ==> has_name(rest_of(s, n), x),
    decreases s.len(),
{
    if s.len() > 0 {
        let t = s.drop_last();
        lemma_group_rest_names(t, n);
        let r = rest_of(s, n);
        let rt = rest_of(t, n);
        assert forall|i: int| 0 <= i < r.len() implies (#[trigger] r[i]).name != n && has_name(s, r[i].name) by {
            if i < rt.len() {
                assert(r[i] == rt[i]);
                let j = choose|j: int| 0 <= j < t.len() && t[j].name == rt[i].name;
                assert(s[j] == t[j]);
            } else {
                assert(r[i] == s.last());
                assert(s[s.len() - 1].name == r[i].name);
            }
        }
        if has_name(s, n) {
            let j = choose|j: int| 0 <= j < s.len() && s[j].name == n;
            if j < s.len() - 1 {
                assert(t[j] == s[j]);
            }
        }
        assert forall|x: Seq<char>| x != n && has_name(s, x) implies has_name(rest_of(s, n), x) by {
            let j = choose|j: int| 0 <= j < s.len() && s[j].name == x;
            if j < s.len() - 1 {
                assert(t[j] == s[j]);
                assert(has_name(t, x));
                let k = choose|k: int| 0 <= k < rt.len() && rt[k].name == x;
                assert(r[k] == rt[k]);
            } else {
                assert(r[rt.len() as int] == s.last());
            }
        }
    }
}

proof fn lemma_ns_index_bound<T>(acc: Seq<AttributeView<T>>, ns: Option<Seq<char>>)
    ensures
        ns_index(acc, ns) < acc.len(),
    decreases acc.len(),
{
    if acc.len() > 0 && acc[0].namespace != ns {
        lemma_ns_index_bound(acc.drop_first(), ns);
    }
}

/// Folding attributes that all carry name `n` gives attributes that all carry `n`, and
/// at least one when there was one.
proof fn lemma_fold_group_names<T>(g: Seq<AttributeView<T>>, n: Seq<char>)
    requires
        forall|i: int| 0 <= i < g.len() ==> #[trigger] g[i].name == n,
    ensures
        forall|i: int| 0 <= i < fold_group(g).len() ==> #[trigger] fold_group(g)[i].name == n,
        g.len() > 0 ==> fold_group(g).len() > 0,
    decreases g.len(),
{
    if g.len() > 0 {
        let t = g.drop_last();
        assert forall|i: int| 0 <= i < t.len() implies #[trigger] t[i].name == n by {
            assert(t[i] == g[i]);
        }
        lemma_fold_group_names(t, n);
        let acc = fold_group(t);
        let a = g.last();
        assert(a.name == n);
        lemma_ns_index_bound(acc, a.namespace);
    }
}

/// The names of the merged attributes, in order, never decrease.
pub open spec fn names_sorted<T>(s: Seq<AttributeView<T>>) -> bool {
    forall|i: int, j: int| 0 <= i < j < s.len() ==> !seq_lt(#[trigger] s[j].name, #[trigger] s[i].name)
}

/// The merged attributes come in order of name, and they carry exactly the names of the
/// input attributes.
pub proof fn law_merge_sorted_by_name<T>(s: Seq<AttributeView<T>>)
    ensures
        names_sorted(merge_spec(s)),
        forall|x: Seq<char>| has_name(merge_spec(s), x) <==> has_name(s, x),
    decreases s.len(),
{
    if s.len() > 0 {
        let m = min_name(s);
        lemma_min_name_present(s);
        lemma_group_rest_len(s, m);
        lemma_min_name_least(s);
        lemma_group_rest_names(s, m);
        let g = group_of(s, m);
        let r = rest_of(s, m);
        lemma_fold_group_names(g, m);
        law_merge_sorted_by_name(r);
        let f = fold_group(g);
        let mr = merge_spec(r);
        let out = merge_spec(s);
        assert(out == f + mr);
        lemma_seq_lt_irreflexive(m);
        assert forall|i: int, j: int| 0 <= i < j < out.len() implies !seq_lt(#[trigger] out[j].name, #[trigger] out[i].name) by {
            if j < f.len() {
                assert(out[i].name == m && out[j].name == m);
            } else if i < f.len() {
                assert(out[i].name == m);
                assert(out[j] == mr[j - f.len()]);
                assert(has_name(mr, mr[j - f.len()].name));
                assert(has_name(r, out[j].name));
                let k = choose|k: int| 0 <= k < r.len() && r[k].name == out[j].name;
                assert(has_name(s, rest_of(s, m)[k].name));
                let q = choose|q: int| 0 <= q < s.len() && s[q].name == r[k].name;
                assert(!seq_lt(s[q].name, m));
            } else {
                assert(out[i] == mr[i - f.len()]);
                assert(out[j] == mr[j - f.len()]);
            }
        }
        assert forall|x: Seq<char>| has_name(out, x) <==> has_name(s, x) by {
            if has_name(out, x) {
                let i = choose|i: int| 0 <= i < out.len() && out[i].name == x;
                if i < f.len() {
                    assert(x == m);
                } else {
                    assert(out[i] == mr[i - f.len()]);
                    assert(has_name(mr, x));
                    assert(has_name(r, x));
                    let k = choose|k: int| 0 <= k < r.len() && r[k].name == x;
                    assert(rest_of(s, m)[k].name == x);
                    assert(has_name(s, rest_of(s, m)[k].name));
                }
            }
            if has_name(s, x) {
                if x == m {
                    assert(out[0] == f[0]);
                } else {
                    assert(has_name(r, x));
                    assert(has_name(mr, x));
                    let k = choose|k: int| 0 <= k < mr.len() && mr[k].name == x;
                    assert(out[f.len() + k] == mr[k]);
                }
            }
        }
    } else {
        assert(merge_spec(s) =~= Seq::<AttributeView<T>>::empty());
    }
}

/// The last attribute with name `n` and namespace `ns`.
pub open spec fn last_pair<T>(s: Seq<AttributeView<T>>, n: Seq<char>, ns: Option<Seq<char>>) -> Option<AttributeView<T>>
    decreases s.len(),
{
    if s.len() == 0 {
        None
    } else if s.last().name == n && s.last().namespace == ns {
        Some(s.last())
    } else {
        last_pair(s.drop_last(), n, ns)
    }
}

/// No two attributes share both name and namespace.
pub open spec fn pairs_unique<T>(s: Seq<AttributeView<T>>) -> bool {
    forall|i: int, j: int|
        0 <= i < s.len() && 0 <= j < s.len() && i != j && #[trigger] s[i].name == #[trigger] s[j].name
            ==> s[i].namespace != s[j].namespace
}

proof fn lemma_ns_index_found<T>(acc: Seq<AttributeView<T>>, ns: Option<Seq<char>>)
    ensures
        ns_index(acc, ns) >= 0 ==> acc[ns_index(acc, ns)].namespace == ns,
        ns_index(acc, ns) < 0 ==> forall|j: int| 0 <= j < acc.len() ==> #[trigger] acc[j].namespace != ns,
    decreases acc.len(),
{
    if acc.len() > 0 && acc[0].namespace != ns {
        let t = acc.drop_first();
        lemma_ns_index_found(t, ns);
        lemma_ns_index_bound(t, ns);
        let r = ns_index(t, ns);
        if r >= 0 {
            assert(acc[r + 1] == t[r]);
        }
        if ns_index(t, ns) < 0 {
            assert forall|j: int| 0 <= j < acc.len() implies #[trigger] acc[j].namespace != ns by {
                if j > 0 {
                    assert(acc[j] == t[j - 1]);
                }
            }
        }
    }
}

/// Folding attributes of one name, not `class`, keeps one attribute per namespace: the
/// last one of that namespace.
proof fn lemma_fold_group_last<T>(g: Seq<AttributeView<T>>, n: Seq<char>)
    requires
        forall|i: int| 0 <= i < g.len() ==> #[trigger] g[i].name == n,
    ensures
        forall|i: int, j: int|
            0 <= i < fold_group(g).len() && 0 <= j < fold_group(g).len() && i != j ==> #[trigger] fold_group(
                g,
            )[i].namespace != #[trigger] fold_group(g)[j].namespace,
        n != class_name() ==> forall|ns: Option<Seq<char>>| #[trigger] last_pair(g, n, ns) is Some
            ==> exists|k: int| 0 <= k < fold_group(g).len() && fold_group(g)[k] == last_pair(g, n, ns)->0,
        forall|k: int| 0 <= k < fold_group(g).len() ==> last_pair(g, n, #[trigger] fold_group(g)[k].namespace) is Some,
    decreases g.len(),
{
    if g.len() > 0 {
        let t = g.drop_last();
        assert forall|i: int| 0 <= i < t.len() implies #[trigger] t[i].name == n by {
            assert(t[i] == g[i]);
        }
        lemma_fold_group_last(t, n);
        lemma_fold_group_names(t, n);
        let acc = fold_group(t);
        let a = g.last();
        let f = fold_group(g);
        assert(f == add_to_group(acc, a));
        lemma_ns_index_found(acc, a.namespace);
        lemma_ns_index_bound(acc, a.namespace);
        let i = ns_index(acc, a.namespace);
        if i >= 0 {
            assert(f[i].namespace == a.namespace) by {
                if a.name == class_name() {
                    assert(f[i] == combine_class(acc[i], a));
                }
            }
        }
        assert forall|x: int, y: int| 0 <= x < f.len() && 0 <= y < f.len() && x != y implies #[trigger] f[x].namespace
            != #[trigger] f[y].namespace by {
            if i < 0 {
                if x < acc.len() && y < acc.len() {
                    assert(f[x] == acc[x] && f[y] == acc[y]);
                } else if x < acc.len() {
                    assert(f[x] == acc[x]);
                } else {
                    assert(f[y] == acc[y]);
                }
            } else {
                if x != i && y != i {
                    assert(f[x] == acc[x] && f[y] == acc[y]);
                } else if x == i {
                    assert(f[y] == acc[y]);
                    assert(acc[i].namespace == a.namespace);
                } else {
                    assert(f[x] == acc[x]);
                    assert(acc[i].namespace == a.namespace);
                }
            }
        }
        assert forall|k: int| 0 <= k < f.len() implies last_pair(g, n, #[trigger] f[k].namespace) is Some by {
            if f[k].namespace != a.namespace {
                assert(f[k] == acc[k]);
                assert(last_pair(t, n, acc[k].namespace) is Some);
            }
        }
        if n != class_name() {
            assert forall|ns: Option<Seq<char>>| #[trigger] last_pair(g, n, ns) is Some implies exists|k: int|
                0 <= k < f.len() && f[k] == last_pair(g, n, ns)->0 by {
                let b = last_pair(g, n, ns)->0;
                if ns == a.namespace {
                    assert(b == a);
                    if i < 0 {
                        assert(f[acc.len() as int] == a);
                    } else {
                        assert(f[i] == a);
                    }
                } else {
                    assert(last_pair(t, n, ns) == Some(b));
                    let k = choose|k: int| 0 <= k < acc.len() && acc[k] == b;
                    assert(acc[k].namespace == ns) by {
                        lemma_last_pair_fields(t, n, ns);
                    }
                    if i >= 0 {
                        assert(k != i);
                    }
                    assert(f[k] == b);
                }
            }
        }
    }
}

/// The last attribute with a name and namespace has them.
proof fn lemma_last_pair_fields<T>(s: Seq<AttributeView<T>>, n: Seq<char>, ns: Option<Seq<char>>)
    ensures
        last_pair(s, n, ns) matches Some(a) ==> a.name == n && a.namespace == ns,
        last_pair(s, n, ns) is Some <==> exists|i: int| 0 <= i < s.len() && s[i].name == n && s[i].namespace == ns,
    decreases s.len(),
{
    if s.len() > 0 {
        let t = s.drop_last();
        lemma_last_pair_fields(t, n, ns);
        if exists|i: int| 0 <= i < s.len() && s[i].name == n && s[i].namespace == ns {
            let i = choose|i: int| 0 <= i < s.len() && s[i].name == n && s[i].namespace == ns;
            if i < s.len() - 1 {
                assert(t[i] == s[i]);
            }
        }
        if exists|i: int| 0 <= i < t.len() && t[i].name == n && t[i].namespace == ns {
            let i = choose|i: int| 0 <= i < t.len() && t[i].name == n && t[i].namespace == ns;
            assert(s[i] == t[i]);
        }
    }
}

/// Taking out the attributes of another name leaves those named `n` as they were.
proof fn lemma_group_of_rest<T>(s: Seq<AttributeView<T>>, m: Seq<char>, n: Seq<char>)
    requires
        m != n,
    ensures
        group_of(rest_of(s, m), n) == group_of(s, n),
    decreases s.len(),
{
    if s.len() > 0 {
        let t = s.drop_last();
        lemma_group_of_rest(t, m, n);
        let r = rest_of(s, m);
        if s.last().name != m {
            assert(r.drop_last() == rest_of(t, m));
        } else {
            assert(r == rest_of(t, m));
        }
    }
}

/// The last attribute of a name and namespace is the last one in that name's group.
proof fn lemma_last_pair_group<T>(s: Seq<AttributeView<T>>, n: Seq<char>, ns: Option<Seq<char>>)
    ensures
        last_pair(group_of(s, n), n, ns) == last_pair(s, n, ns),
    decreases s.len(),
{
    if s.len() > 0 {
        let t = s.drop_last();
        lemma_last_pair_group(t, n, ns);
        let g = group_of(s, n);
        if s.last().name == n {
            assert(g.drop_last() == group_of(t, n));
        }
    }
}

/// The merged attributes named `n` are the fold of that name's group, in one block.
proof fn lemma_merge_block<T>(s: Seq<AttributeView<T>>, n: Seq<char>)
    requires
        has_name(s, n),
    ensures
        exists|a: Seq<AttributeView<T>>, b: Seq<AttributeView<T>>|
            merge_spec(s) == a + fold_group(group_of(s, n)) + b && (forall|k: int|
                0 <= k < a.len() ==> #[trigger] a[k].name != n) && (forall|k: int|
                0 <= k < b.len() ==> #[trigger] b[k].name != n),
    decreases s.len(),
{
    let m = min_name(s);
    lemma_min_name_present(s);
    lemma_group_rest_len(s, m);
    lemma_group_rest_names(s, m);
    let g = group_of(s, m);
    let r = rest_of(s, m);
    lemma_fold_group_names(g, m);
    let f = fold_group(g);
    let mr = merge_spec(r);
    assert(merge_spec(s) == f + mr);
    if n == m {
        law_merge_sorted_by_name(r);
        assert forall|k: int| 0 <= k < mr.len() implies #[trigger] mr[k].name != n by {
            assert(has_name(mr, mr[k].name));
            if mr[k].name == n {
                assert(has_name(r, n));
                let q = choose|q: int| 0 <= q < r.len() && r[q].name == n;
                assert(rest_of(s, m)[q].name != m);
            }
        }
        assert(merge_spec(s) == Seq::<AttributeView<T>>::empty() + f + mr);
    } else {
        assert(has_name(r, n));
        lemma_merge_block(r, n);
        lemma_group_of_rest(s, m, n);
        let (a2, b2) = choose|a: Seq<AttributeView<T>>, b: Seq<AttributeView<T>>|
            mr == a + fold_group(group_of(r, n)) + b && (forall|k: int| 0 <= k < a.len() ==> #[trigger] a[k].name != n)
                && (forall|k: int| 0 <= k < b.len() ==> #[trigger] b[k].name != n);
        let a = f + a2;
        assert forall|k: int| 0 <= k < a.len() implies #[trigger] a[k].name != n by {
            if k < f.len() {
                assert(a[k] == f[k]);
            } else {
                assert(a[k] == a2[k - f.len()]);
            }
        }
        assert(merge_spec(s) == a + fold_group(group_of(s, n)) + b2);
    }
}

/// Later attributes win: for a name other than `class`, the merged attributes hold, for
/// each namespace used with that name, the last input attribute with that name and
/// namespace; and no two merged attributes share both name and namespace.
pub proof fn law_merge_later_wins<T>(s: Seq<AttributeView<T>>, n: Seq<char>, ns: Option<Seq<char>>)
    requires
        n != class_name(),
    ensures
        last_pair(s, n, ns) matches Some(a) ==> exists|k: int|
            0 <= k < merge_spec(s).len() && merge_spec(s)[k] == a,
        pairs_unique(merge_spec(s)),
    decreases s.len(),
{
    lemma_merge_unique(s);
    if last_pair(s, n, ns) is Some {
        lemma_last_pair_fields(s, n, ns);
        let i = choose|i: int| 0 <= i < s.len() && s[i].name == n && s[i].namespace == ns;
        assert(has_name(s, n));
        lemma_merge_block(s, n);
        let (a, b) = choose|a: Seq<AttributeView<T>>, b: Seq<AttributeView<T>>|
            merge_spec(s) == a + fold_group(group_of(s, n)) + b && (forall|k: int| 0 <= k < a.len() ==> #[trigger] a[k].name != n)
                && (forall|k: int| 0 <= k < b.len() ==> #[trigger] b[k].name != n);
        let g = group_of(s, n);
        lemma_group_rest_names(s, n);
        lemma_fold_group_last(g, n);
        lemma_last_pair_group(s, n, ns);
        let x = last_pair(s, n, ns)->0;
        assert(last_pair(g, n, ns) == Some(x));
        let k = choose|k: int| 0 <= k < fold_group(g).len() && fold_group(g)[k] == x;
        assert(merge_spec(s)[a.len() + k] == x);
    }
}

/// No two merged attributes share both name and namespace.
proof fn lemma_merge_unique<T>(s: Seq<AttributeView<T>>)
    ensures
        pairs_unique(merge_spec(s)),
    decreases s.len(),
{
    if s.len() > 0 {
        let m = min_name(s);
        lemma_min_name_present(s);
        lemma_group_rest_len(s, m);
        lemma_group_rest_names(s, m);
        let g = group_of(s, m);
        let r = rest_of(s, m);
        lemma_fold_group_names(g, m);
        lemma_fold_group_last(g, m);
        lemma_merge_unique(r);
        law_merge_sorted_by_name(r);
        let f = fold_group(g);
        let mr = merge_spec(r);
        let out = merge_spec(s);
        assert(out == f + mr);
        assert forall|i: int, j: int|
            0 <= i < out.len() && 0 <= j < out.len() && i != j && #[trigger] out[i].name == #[trigger] out[j].name implies out[i].namespace
                != out[j].namespace by {
            if i < f.len() && j < f.len() {
                assert(out[i] == f[i] && out[j] == f[j]);
            } else if i >= f.len() && j >= f.len() {
                assert(out[i] == mr[i - f.len()] && out[j] == mr[j - f.len()]);
            } else {
                let (p, q) = if i < f.len() {
                    (i, j)
                } else {
                    (j, i)
                };
                assert(out[p] == f[p]);
                assert(out[q] == mr[q - f.len()]);
                assert(has_name(mr, mr[q - f.len()].name));
                assert(has_name(r, out[q].name));
                let z = choose|z: int| 0 <= z < r.len() && r[z].name == out[q].name;
                assert(rest_of(s, m)[z].name != m);
            }
        }
    } else {
        assert(merge_spec(s) =~= Seq::<AttributeView<T>>::empty());
    }
}

/// The `class` attributes with namespace `ns`, combined in input order: each later one is
/// combined into the result so far as the merge combines classes.
pub open spec fn class_fold<T>(s: Seq<AttributeView<T>>, ns: Option<Seq<char>>) -> Option<AttributeView<T>>
    decreases s.len(),
{
    if s.len() == 0 {
        None
    } else {
        let prev = class_fold(s.drop_last(), ns);
        let a = s.last();
        if a.name == class_name() && a.namespace == ns {
            match prev {
                Some(p) => Some(combine_class(p, a)),
                None => Some(a),
            }
        } else {
            prev
        }
    }
}

proof fn lemma_class_fold_fields<T>(s: Seq<AttributeView<T>>, ns: Option<Seq<char>>)
    ensures
        class_fold(s, ns) matches Some(c) ==> c.name == class_name() && c.namespace == ns,
    decreases s.len(),
{
    if s.len() > 0 {
        lemma_class_fold_fields(s.drop_last(), ns);
    }
}

proof fn lemma_class_fold_group<T>(s: Seq<AttributeView<T>>, ns: Option<Seq<char>>)
    ensures
        class_fold(group_of(s, class_name()), ns) == class_fold(s, ns),
    decreases s.len(),
{
    if s.len() > 0 {
        let t = s.drop_last();
        lemma_class_fold_group(t, ns);
        let g = group_of(s, class_name());
        if s.last().name == class_name() {
            assert(g.drop_last() == group_of(t, class_name()));
        }
    }
}

/// Folding `class` attributes keeps, for each namespace that occurs, their combination.
proof fn lemma_fold_group_class<T>(g: Seq<AttributeView<T>>, ns: Option<Seq<char>>)
    requires
        forall|i: int| 0 <= i < g.len() ==> #[trigger] g[i].name == class_name(),
    ensures
        class_fold(g, ns) matches Some(c) ==> exists|k: int| 0 <= k < fold_group(g).len() && fold_group(g)[k] == c,
        class_fold(g, ns) is None ==> forall|k: int| 0 <= k < fold_group(g).len() ==> #[trigger] fold_group(g)[k].namespace != ns,
    decreases g.len(),
{
    if g.len() > 0 {
        let t = g.drop_last();
        assert forall|i: int| 0 <= i < t.len() implies #[trigger] t[i].name == class_name() by {
            assert(t[i] == g[i]);
        }
        lemma_fold_group_class(t, ns);
        lemma_fold_group_last(t, class_name());
        lemma_class_fold_fields(t, ns);
        let acc = fold_group(t);
        let a = g.last();
        let f = fold_group(g);
        assert(f == add_to_group(acc, a));
        lemma_ns_index_found(acc, a.namespace);
        lemma_ns_index_bound(acc, a.namespace);
        let i = ns_index(acc, a.namespace);
        if a.namespace == ns {
            if i < 0 {
                assert(class_fold(t, ns) is None) by {
                    if class_fold(t, ns) is Some {
                        let c = class_fold(t, ns)->0;
                        let k = choose|k: int| 0 <= k < acc.len() && acc[k] == c;
                        assert(acc[k].namespace == ns);
                    }
                }
                assert(f[acc.len() as int] == a);
            } else {
                assert(class_fold(t, ns) is Some);
                let c = class_fold(t, ns)->0;
                let k = choose|k: int| 0 <= k < acc.len() && acc[k] == c;
                assert(acc[k].namespace == ns);
                assert(k == i);
                assert(f[i] == combine_class(c, a));
            }
        } else {
            match class_fold(t, ns) {
                Some(c) => {
                    let k = choose|k: int| 0 <= k < acc.len() && acc[k] == c;
                    assert(acc[k].namespace == ns);
                    if i >= 0 {
                        assert(k != i);
                    }
                    assert(f[k] == c);
                },
                None => {
                    assert forall|k: int| 0 <= k < f.len() implies #[trigger] f[k].namespace != ns by {
                        if i < 0 {
                            if k < acc.len() {
                                assert(f[k] == acc[k]);
                            } else {
                                assert(f[k] == a);
                            }
                        } else if k != i {
                            assert(f[k] == acc[k]);
                        } else {
                            assert(f[k] == combine_class(acc[i], a));
                        }
                    }
                },
            }
        }
    }
}

/// Every `class` attribute of one namespace ends up in one merged attribute: their texts
/// trimmed and joined with single spaces in input order, volatile when any of them was
/// (when a value is not text, the later attribute replaces the earlier).
pub proof fn law_merge_joins_classes<T>(s: Seq<AttributeView<T>>, ns: Option<Seq<char>>)
    ensures
        class_fold(s, ns) matches Some(c) ==> exists|k: int|
            0 <= k < merge_spec(s).len() && merge_spec(s)[k] == c,
{
    if class_fold(s, ns) is Some {
        let n = class_name();
        lemma_class_fold_group(s, ns);
        lemma_group_rest_names(s, n);
        let g = group_of(s, n);
        assert(g.len() > 0) by {
            if g.len() == 0 {
                assert(class_fold(g, ns) is None);
            }
        }
        assert(has_name(s, n)) by {
            assert(g[0].name == n);
            lemma_group_has_name(s, n);
        }
        lemma_merge_block(s, n);
        let (a, b) = choose|a: Seq<AttributeView<T>>, b: Seq<AttributeView<T>>|
            merge_spec(s) == a + fold_group(group_of(s, n)) + b && (forall|k: int| 0 <= k < a.len() ==> #[trigger] a[k].name != n)
                && (forall|k: int| 0 <= k < b.len() ==> #[trigger] b[k].name != n);
        lemma_fold_group_class(g, ns);
        let c = class_fold(s, ns)->0;
        let k = choose|k: int| 0 <= k < fold_group(g).len() && fold_group(g)[k] == c;
        assert(merge_spec(s)[a.len() + k] == c);
    }
}

/// A non-empty group means the name occurs.
proof fn lemma_group_has_name<T>(s: Seq<AttributeView<T>>, n: Seq<char>)
    requires
        group_of(s, n).len() > 0,
    ensures
        has_name(s, n),
    decreases s.len(),
{
    if s.len() > 0 {
        let t = s.drop_last();
        if s.last().name == n {
            assert(s[s.len() - 1].name == n);
        } else {
            assert(group_of(s, n) == group_of(t, n));
            lemma_group_has_name(t, n);
            let j = choose|j: int| 0 <= j < t.len() && t[j].name == n;
            assert(s[j] == t[j]);
        }
    }
}

/// Whether some attribute has name `n` and namespace `ns`.
pub open spec fn has_pair<T>(s: Seq<AttributeView<T>>, n: Seq<char>, ns: Option<Seq<char>>) -> bool {
    exists|i: int| 0 <= i < s.len() && s[i].name == n && s[i].namespace == ns
}

/// Folding attributes of one name keeps exactly the namespaces they use.
proof fn lemma_fold_group_pairs<T>(g: Seq<AttributeView<T>>, n: Seq<char>)
    requires
        forall|i: int| 0 <= i < g.len() ==> #[trigger] g[i].name == n,
    ensures
        forall|ns: Option<Seq<char>>| #[trigger] has_pair(fold_group(g), n, ns) <==> has_pair(g, n, ns),
    decreases g.len(),
{
    if g.len() > 0 {
        let t = g.drop_last();
        assert forall|i: int| 0 <= i < t.len() implies #[trigger] t[i].name == n by {
            assert(t[i] == g[i]);
        }
        lemma_fold_group_pairs(t, n);
        lemma_fold_group_names(t, n);
        lemma_fold_group_names(g, n);
        let acc = fold_group(t);
        let a = g.last();
        let f = fold_group(g);
        assert(f == add_to_group(acc, a));
        lemma_ns_index_found(acc, a.namespace);
        lemma_ns_index_bound(acc, a.namespace);
        let i = ns_index(acc, a.namespace);
        assert(a.name == n);
        assert forall|ns: Option<Seq<char>>| #[trigger] has_pair(f, n, ns) <==> has_pair(g, n, ns) by {
            if has_pair(f, n, ns) {
                let k = choose|k: int| 0 <= k < f.len() && f[k].name == n && f[k].namespace == ns;
                if ns == a.namespace {
                    assert(g[g.len() - 1] == a);
                } else {
                    if i < 0 {
                        if k < acc.len() {
                            assert(f[k] == acc[k]);
                        } else {
                            assert(f[k] == a);
                        }
                    } else {
                        if k != i {
                            assert(f[k] == acc[k]);
                        } else {
                            assert(f[i] == a || f[i] == combine_class(acc[i], a));
                        }
                    }
                    assert(has_pair(acc, n, ns));
                    assert(has_pair(t, n, ns));
                    let j = choose|j: int| 0 <= j < t.len() && t[j].name == n && t[j].namespace == ns;
                    assert(g[j] == t[j]);
                }
            }
            if has_pair(g, n, ns) {
                let j = choose|j: int| 0 <= j < g.len() && g[j].name == n && g[j].namespace == ns;
                if ns == a.namespace {
                    if i < 0 {
                        assert(f[acc.len() as int] == a);
                    } else {
                        assert(f[i] == a || f[i] == combine_class(acc[i], a));
                        assert(f[i].namespace == ns);
                        assert(f[i].name == n);
                    }
                } else {
                    assert(j < g.len() - 1);
                    assert(t[j] == g[j]);
                    assert(has_pair(t, n, ns));
                    assert(has_pair(acc, n, ns));
                    let k = choose|k: int| 0 <= k < acc.len() && acc[k].name == n && acc[k].namespace == ns;
                    if i >= 0 {
                        assert(k != i);
                    }
                    assert(f[k] == acc[k]);
                }
            }
        }
    }
}

/// An attribute's pair occurs in the input exactly when it occurs in the group of its
/// name or among the rest.
proof fn lemma_group_rest_pairs<T>(s: Seq<AttributeView<T>>, m: Seq<char>)
    ensures
        forall|n: Seq<char>, ns: Option<Seq<char>>|
            #[trigger] has_pair(s, n, ns) <==> (has_pair(group_of(s, m), n, ns) || has_pair(
                rest_of(s, m),
                n,
                ns,
            )),
    decreases s.len(),
{
    if s.len() > 0 {
        let t = s.drop_last();
        lemma_group_rest_pairs(t, m);
        let g = group_of(s, m);
        let r = rest_of(s, m);
        let gt = group_of(t, m);
        let rt = rest_of(t, m);
        let a = s.last();
        assert forall|n: Seq<char>, ns: Option<Seq<char>>|
            #[trigger] has_pair(s, n, ns) <==> (has_pair(g, n, ns) || has_pair(r, n, ns)) by {
            if has_pair(s, n, ns) {
                let j = choose|j: int| 0 <= j < s.len() && s[j].name == n && s[j].namespace == ns;
                if j == s.len() - 1 {
                    if a.name == m {
                        assert(g[g.len() - 1] == a);
                    } else {
                        assert(r[r.len() - 1] == a);
                    }
                } else {
                    assert(t[j] == s[j]);
                    assert(has_pair(t, n, ns));
                    if has_pair(gt, n, ns) {
                        let k = choose|k: int| 0 <= k < gt.len() && gt[k].name == n && gt[k].namespace == ns;
                        assert(g[k] == gt[k]);
                    } else {
                        let k = choose|k: int| 0 <= k < rt.len() && rt[k].name == n && rt[k].namespace == ns;
                        assert(r[k] == rt[k]);
                    }
                }
            }
            if has_pair(g, n, ns) {
                let k = choose|k: int| 0 <= k < g.len() && g[k].name == n && g[k].namespace == ns;
                if a.name == m && k == g.len() - 1 {
                    assert(s[s.len() - 1] == a);
                } else {
                    assert(g[k] == gt[k]);
                    assert(has_pair(gt, n, ns));
                    assert(has_pair(t, n, ns));
                    let j = choose|j: int| 0 <= j < t.len() && t[j].name == n && t[j].namespace == ns;
                    assert(s[j] == t[j]);
                }
            }
            if has_pair(r, n, ns) {
                let k = choose|k: int| 0 <= k < r.len() && r[k].name == n && r[k].namespace == ns;
                if a.name != m && k == r.len() - 1 {
                    assert(s[s.len() - 1] == a);
                } else {
                    assert(r[k] == rt[k]);
                    assert(has_pair(rt, n, ns));
                    assert(has_pair(t, n, ns));
                    let j = choose|j: int| 0 <= j < t.len() && t[j].name == n && t[j].namespace == ns;
                    assert(s[j] == t[j]);
                }
            }
        }
    } else {
        assert forall|n: Seq<char>, ns: Option<Seq<char>>|
            #[trigger] has_pair(s, n, ns) <==> (has_pair(group_of(s, m), n, ns) || has_pair(
                rest_of(s, m),
                n,
                ns,
            )) by {}
    }
}

/// The merged attributes carry exactly the (name, namespace) pairs of the input.
pub proof fn law_merge_keeps_pairs<T>(s: Seq<AttributeView<T>>)
    ensures
        forall|n: Seq<char>, ns: Option<Seq<char>>| #[trigger] has_pair(merge_spec(s), n, ns) <==> has_pair(s, n, ns),
    decreases s.len(),
{
    if s.len() > 0 {
        let m = min_name(s);
        lemma_min_name_present(s);
        lemma_group_rest_len(s, m);
        lemma_group_rest_names(s, m);
        let g = group_of(s, m);
        let r = rest_of(s, m);
        lemma_fold_group_names(g, m);
        lemma_fold_group_pairs(g, m);
        lemma_group_rest_pairs(s, m);
        law_merge_keeps_pairs(r);
        let f = fold_group(g);
        let mr = merge_spec(r);
        let out = merge_spec(s);
        assert(out == f + mr);
        assert forall|n: Seq<char>, ns: Option<Seq<char>>| #[trigger] has_pair(out, n, ns) <==> has_pair(s, n, ns) by {
            if has_pair(out, n, ns) {
                let k = choose|k: int| 0 <= k < out.len() && out[k].name == n && out[k].namespace == ns;
                if k < f.len() {
                    assert(out[k] == f[k]);
                    assert(n == m);
                    assert(has_pair(f, m, ns));
                } else {
                    assert(out[k] == mr[k - f.len()]);
                    assert(has_pair(mr, n, ns));
                }
            }
            if has_pair(s, n, ns) {
                if has_pair(g, n, ns) {
                    let k = choose|k: int| 0 <= k < g.len() && g[k].name == n && g[k].namespace == ns;
                    assert(n == m);
                    assert(has_pair(f, m, ns));
                    let q = choose|q: int| 0 <= q < f.len() && f[q].name == m && f[q].namespace == ns;
                    assert(out[q] == f[q]);
                } else {
                    assert(has_pair(r, n, ns));
                    assert(has_pair(mr, n, ns));
                    let q = choose|q: int| 0 <= q < mr.len() && mr[q].name == n && mr[q].namespace == ns;
                    assert(out[f.len() + q] == mr[q]);
                }
            }
        }
    } else {
        assert(merge_spec(s) =~= Seq::<AttributeView<T>>::empty());
        assert forall|n: Seq<char>, ns: Option<Seq<char>>| #[trigger] has_pair(merge_spec(s), n, ns) <==> has_pair(s, n, ns) by {}
    }
}

proof fn lemma_leading_white_space(s: Seq<char>)
    ensures
        leading_white_space(s) <= s.len(),
        forall|i: int| 0 <= i < leading_white_space(s) ==> is_white_space(#[trigger] s[i]),
        leading_white_space(s) < s.len() ==> !is_white_space(s[leading_white_space(s) as int]),
    decreases s.len(),
{
    if s.len() > 0 && is_white_space(s[0]) {
        let t = s.drop_first();
        lemma_leading_white_space(t);
        assert forall|i: int| 0 <= i < leading_white_space(s) implies is_white_space(#[trigger] s[i]) by {
            if i > 0 {
                assert(s[i] == t[i - 1]);
            }
        }
        if leading_white_space(s) < s.len() {
            assert(s[leading_white_space(s) as int] == t[leading_white_space(t) as int]);
        }
    }
}

proof fn lemma_trailing_white_space(s: Seq<char>)
    ensures
        trailing_white_space(s) <= s.len(),
        forall|i: int| s.len() - trailing_white_space(s) <= i < s.len() ==> is_white_space(#[trigger] s[i]),
        trailing_white_space(s) < s.len() ==> !is_white_space(s[s.len() - 1 - trailing_white_space(s)]),
    decreases s.len(),
{
    if s.len() > 0 && is_white_space(s.last()) {
        let t = s.drop_last();
        lemma_trailing_white_space(t);
        assert forall|i: int| s.len() - trailing_white_space(s) <= i < s.len() implies is_white_space(
            #[trigger] s[i],
        ) by {
            if i < s.len() - 1 {
                assert(s[i] == t[i]);
            }
        }
        if trailing_white_space(s) < s.len() {
            assert(s[s.len() - 1 - trailing_white_space(s)] == t[t.len() - 1 - trailing_white_space(t)]);
        }
    }
}

/// A trimmed text that is not empty starts and ends with a character that is not
/// whitespace.
proof fn lemma_trim_ends(s: Seq<char>)
    ensures
        trim_spec(s).len() > 0 ==> !is_white_space(trim_spec(s)[0]) && !is_white_space(
            trim_spec(s).last(),
        ),
{
    lemma_leading_white_space(s);
    lemma_trailing_white_space(s);
    let l = leading_white_space(s);
    let t = trailing_white_space(s);
    if l < s.len() {
        assert(t <= s.len() - 1 - l) by {
            if t > s.len() - 1 - l {
                assert(is_white_space(s[l as int]));
            }
        }
    }
}

/// A text that is empty or starts and ends with a character that is not whitespace is its
/// own trimmed form.
proof fn lemma_trim_identity(s: Seq<char>)
    requires
        s.len() == 0 || (!is_white_space(s[0]) && !is_white_space(s.last())),
    ensures
        trim_spec(s) == s,
{
    if s.len() > 0 {
        assert(leading_white_space(s) == 0);
        assert(trailing_white_space(s) == 0);
        assert(s.subrange(0, s.len() as int) =~= s);
    }
}

/// The trimmed, non-empty texts of `ws`, in order, joined with single spaces.
pub open spec fn joined_words(ws: Seq<Seq<char>>) -> Seq<char>
    decreases ws.len(),
{
    if ws.len() == 0 {
        Seq::empty()
    } else {
        let prev = joined_words(ws.drop_last());
        let w = trim_spec(ws.last());
        if w.len() == 0 {
            prev
        } else if prev.len() == 0 {
            w
        } else {
            prev + seq![' '] + w
        }
    }
}

proof fn lemma_joined_words_ends(ws: Seq<Seq<char>>)
    ensures
        joined_words(ws).len() > 0 ==> !is_white_space(joined_words(ws)[0]) && !is_white_space(
            joined_words(ws).last(),
        ),
    decreases ws.len(),
{
    if ws.len() > 0 {
        lemma_joined_words_ends(ws.drop_last());
        lemma_trim_ends(ws.last());
        let prev = joined_words(ws.drop_last());
        let w = trim_spec(ws.last());
        if w.len() > 0 && prev.len() > 0 {
            let j = prev + seq![' '] + w;
            assert(j[0] == prev[0]);
            assert(j.last() == w.last());
        }
    }
}

/// Whether every `class` attribute with namespace `ns` holds text.
pub open spec fn classes_are_text<T>(s: Seq<AttributeView<T>>, ns: Option<Seq<char>>) -> bool {
    forall|i: int|
        0 <= i < s.len() && s[i].name == class_name() && s[i].namespace == ns ==> (#[trigger] s[i]).value is Text
}

/// The texts of the `class` attributes with namespace `ns`, in input order.
pub open spec fn class_texts<T>(s: Seq<AttributeView<T>>, ns: Option<Seq<char>>) -> Seq<Seq<char>>
    decreases s.len(),
{
    if s.len() == 0 {
        Seq::empty()
    } else {
        let prev = class_texts(s.drop_last(), ns);
        let a = s.last();
        if a.name == class_name() && a.namespace == ns {
            match a.value {
                AttributeValueView::Text(x) => prev.push(x),
                AttributeValueView::Other(_) => prev,
            }
        } else {
            prev
        }
    }
}

/// Whether some `class` attribute with namespace `ns` is volatile.
pub open spec fn class_volatile<T>(s: Seq<AttributeView<T>>, ns: Option<Seq<char>>) -> bool {
    exists|i: int| 0 <= i < s.len() && s[i].name == class_name() && s[i].namespace == ns && #[trigger] s[i].volatile
}

/// When every `class` attribute of namespace `ns` holds text, their combination holds the
/// one text when there is one, else the trimmed non-empty texts joined with single spaces,
/// and it is volatile when any of them is.
proof fn lemma_class_fold_text<T>(s: Seq<AttributeView<T>>, ns: Option<Seq<char>>)
    requires
        classes_are_text(s, ns),
    ensures
        class_texts(s, ns).len() == 0 <==> class_fold(s, ns) is None,
        class_texts(s, ns).len() == 0 ==> forall|i: int|
            0 <= i < s.len() ==> !((#[trigger] s[i]).name == class_name() && s[i].namespace == ns),
        class_texts(s, ns).len() >= 1 ==> class_fold(s, ns) == Some(
            AttributeView {
                name: class_name(),
                namespace: ns,
                volatile: class_volatile(s, ns),
                value: AttributeValueView::<T>::Text(
                    if class_texts(s, ns).len() == 1 {
                        class_texts(s, ns)[0]
                    } else {
                        joined_words(class_texts(s, ns))
                    },
                ),
            },
        ),
    decreases s.len(),
{
    if s.len() > 0 {
        let t = s.drop_last();
        assert forall|i: int|
            0 <= i < t.len() && t[i].name == class_name() && t[i].namespace == ns implies (#[trigger] t[i]).value is Text by {
            assert(t[i] == s[i]);
        }
        lemma_class_fold_text(t, ns);
        lemma_class_fold_fields(t, ns);
        let a = s.last();
        let vt = class_texts(t, ns);
        let v = class_texts(s, ns);
        assert(class_volatile(t, ns) ==> class_volatile(s, ns)) by {
            if class_volatile(t, ns) {
                let i = choose|i: int|
                    0 <= i < t.len() && t[i].name == class_name() && t[i].namespace == ns && #[trigger] t[i].volatile;
                assert(s[i] == t[i]);
            }
        }
        if a.name == class_name() && a.namespace == ns {
            assert(s[s.len() - 1] == a);
            let y = a.value->Text_0;
            assert(v == vt.push(y));
            assert(class_volatile(s, ns) == (class_volatile(t, ns) || a.volatile)) by {
                if class_volatile(s, ns) && !a.volatile {
                    let i = choose|i: int|
                        0 <= i < s.len() && s[i].name == class_name() && s[i].namespace == ns && #[trigger] s[i].volatile;
                    assert(i < s.len() - 1);
                    assert(t[i] == s[i]);
                }
            }
            if vt.len() == 0 {
                assert(v[0] == y);
                assert(!class_volatile(t, ns)) by {
                    if class_volatile(t, ns) {
                        let i = choose|i: int|
                            0 <= i < t.len() && t[i].name == class_name() && t[i].namespace == ns && #[trigger] t[i].volatile;
                        assert(!(t[i].name == class_name() && t[i].namespace == ns));
                    }
                }
                assert(a.value == AttributeValueView::<T>::Text(y));
            } else {
                let x = if vt.len() == 1 {
                    vt[0]
                } else {
                    joined_words(vt)
                };
                if vt.len() == 1 {
                    assert(vt.drop_last() =~= Seq::<Seq<char>>::empty());
                    assert(joined_words(vt.drop_last()) == Seq::<char>::empty());
                    assert(vt.last() == vt[0]);
                    assert(trim_spec(x) == joined_words(vt));
                } else {
                    lemma_joined_words_ends(vt);
                    lemma_trim_identity(joined_words(vt));
                }
                assert(trim_spec(x) == joined_words(vt));
                assert(v.drop_last() =~= vt);
                assert(join_spec(x, y) == joined_words(v));
                let p = class_fold(t, ns)->0;
                assert(p.value == AttributeValueView::<T>::Text(x));
                assert(class_fold(s, ns) == Some(combine_class(p, a)));
            }
        } else {
            assert(v == vt);
            if vt.len() == 0 {
                assert forall|i: int| 0 <= i < s.len() implies !((#[trigger] s[i]).name == class_name()
                    && s[i].namespace == ns) by {
                    if i < s.len() - 1 {
                        assert(s[i] == t[i]);
                    }
                }
            }
            assert(class_volatile(s, ns) == class_volatile(t, ns)) by {
                if class_volatile(s, ns) {
                    let i = choose|i: int|
                        0 <= i < s.len() && s[i].name == class_name() && s[i].namespace == ns && #[trigger] s[i].volatile;
                    assert(i < s.len() - 1);
                    assert(t[i] == s[i]);
                }
            }
        }
    }
}

/// The merge of attribute lists: the result comes sorted by name; its (name, namespace)
/// pairs are distinct and are exactly those of the input; for a name other than `class`,
/// each pair holds its last input attribute; and the `class` attributes of one namespace,
/// when two or more of them hold text and none holds anything else, become one attribute
/// whose text is their trimmed non-empty texts in input order joined with single spaces,
/// volatile when any of them is. (`merge_attributes` returns `merge_spec` of the lists
/// taken one after another.)
pub proof fn law_merge_attributes<T>(s: Seq<AttributeView<T>>)
    ensures
        names_sorted(merge_spec(s)),
        pairs_unique(merge_spec(s)),
        forall|n: Seq<char>, ns: Option<Seq<char>>| #[trigger] has_pair(merge_spec(s), n, ns) <==> has_pair(s, n, ns),
        forall|n: Seq<char>, ns: Option<Seq<char>>|
            n != class_name() && #[trigger] last_pair(s, n, ns) is Some ==> merge_spec(s).contains(
                last_pair(s, n, ns)->0,
            ),
        forall|ns: Option<Seq<char>>|
            classes_are_text(s, ns) && #[trigger] class_texts(s, ns).len() >= 2 ==> merge_spec(s).contains(
                AttributeView {
                    name: class_name(),
                    namespace: ns,
                    volatile: class_volatile(s, ns),
                    value: AttributeValueView::<T>::Text(joined_words(class_texts(s, ns))),
                },
            ),
{
    law_merge_sorted_by_name(s);
    law_merge_keeps_pairs(s);
    assert forall|n: Seq<char>, ns: Option<Seq<char>>|
        n != class_name() && #[trigger] last_pair(s, n, ns) is Some implies merge_spec(s).contains(
            last_pair(s, n, ns)->0,
        ) by {
        law_merge_later_wins(s, n, ns);
    }
    lemma_merge_unique(s);
    assert forall|ns: Option<Seq<char>>|
        classes_are_text(s, ns) && #[trigger] class_texts(s, ns).len() >= 2 implies merge_spec(s).contains(
            AttributeView {
                name: class_name(),
                namespace: ns,
                volatile: class_volatile(s, ns),
                value: AttributeValueView::<T>::Text(joined_words(class_texts(s, ns))),
            },
        ) by {
        lemma_class_fold_text(s, ns);
        law_merge_joins_classes(s, ns);
    }
}

} // verus!
