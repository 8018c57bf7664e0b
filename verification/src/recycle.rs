//! Layout arithmetic of a virtualised list whose items have measured or estimated heights.
use vstd::prelude::*;
use std::collections::HashMap;
use vstd::std_specs::iter::IteratorSpec;
use crate::text::{decimal, usize_text};

verus! {

/// `a + b`, saturating at `u32::MAX`.
pub open spec fn sat_add(a: int, b: int) -> int {
    if a + b > u32::MAX {
        u32::MAX as int
    } else {
        a + b
    }
}

/// The height used for item `i`: its measurement when flagged as measured, otherwise
/// `adaptive`; never less than 1.
pub open spec fn effective_height(heights: Seq<u32>, flags: Seq<bool>, adaptive: u32, i: int) -> int {
    let h = if i < flags.len() && flags[i] {
        heights[i]
    } else {
        adaptive
    };
    if h < 1 {
        1
    } else {
        h as int
    }
}

/// The saturating sum of the effective heights of the first `n` items.
pub open spec fn prefix_spec(heights: Seq<u32>, flags: Seq<bool>, adaptive: u32, n: int) -> int
    decreases n,
{
    if n <= 0 {
        0
    } else {
        sat_add(prefix_spec(heights, flags, adaptive, n - 1), effective_height(heights, flags, adaptive, n - 1))
    }
}

/// Prefix sums of the item heights, substituting `adaptive` for unmeasured items:
/// entry `i` is the offset of item `i`, and the last entry is the total height.
pub fn build_prefix_sums_adaptive(heights: &[u32], flags: &[bool], adaptive: u32) -> (r: Vec<u32>)
    ensures
        r@.len() == heights@.len() + 1,
        forall|i: int| 0 <= i < r@.len() ==> r@[i] == prefix_spec(heights@, flags@, adaptive, i),
{
    let mut prefix: Vec<u32> = Vec::new();
    prefix.push(0u32);
    let mut acc: u32 = 0;
    let mut i: usize = 0;
    while i < heights.len()
        invariant
            0 <= i <= heights@.len(),
            prefix@.len() == i + 1,
            acc == prefix_spec(heights@, flags@, adaptive, i as int),
            forall|j: int| 0 <= j < prefix@.len() ==> prefix@[j] == prefix_spec(heights@, flags@, adaptive, j),
        decreases heights@.len() - i,
    {
        let measured = i < flags.len() && flags[i];
        let h0 = if measured {
            heights[i]
        } else {
            adaptive
        };
        let h = if h0 < 1 {
            1
        } else {
            h0
        };
        acc = acc.saturating_add(h);
        prefix.push(acc);
        i = i + 1;
    }
    prefix
}

/// Prefix sums never decrease.
pub proof fn law_prefix_monotone(heights: Seq<u32>, flags: Seq<bool>, adaptive: u32, a: int, b: int)
    requires
        0 <= a <= b,
    ensures
        prefix_spec(heights, flags, adaptive, a) <= prefix_spec(heights, flags, adaptive, b),
        0 <= prefix_spec(heights, flags, adaptive, b) <= u32::MAX,
    decreases b,
{
    if b > 0 {
        law_prefix_monotone(heights, flags, adaptive, 0, b - 1);
        if a < b {
            law_prefix_monotone(heights, flags, adaptive, a, b - 1);
        }
    }
}

/// The position of the first element of `s` greater than `x`, or the length of `s`.
pub open spec fn first_greater(s: Seq<u32>, x: u32) -> int
    decreases s.len(),
{
    if s.len() == 0 {
        0
    } else if s[0] > x {
        0
    } else {
        1 + first_greater(s.drop_first(), x)
    }
}

/// The position of the first element of `s` at least `x`, or the length of `s`.
pub open spec fn first_at_least(s: Seq<u32>, x: u32) -> int
    decreases s.len(),
{
    if s.len() == 0 {
        0
    } else if s[0] >= x {
        0
    } else {
        1 + first_at_least(s.drop_first(), x)
    }
}

proof fn lemma_first_greater(s: Seq<u32>, x: u32, i: int)
    requires
        0 <= i <= s.len(),
        forall|j: int| 0 <= j < i ==> s[j] <= x,
        i < s.len() ==> s[i] > x,
    ensures
        first_greater(s, x) == i,
    decreases i,
{
    if i > 0 {
        lemma_first_greater(s.drop_first(), x, i - 1);
    }
}

proof fn lemma_first_at_least(s: Seq<u32>, x: u32, i: int)
    requires
        0 <= i <= s.len(),
        forall|j: int| 0 <= j < i ==> s[j] < x,
        i < s.len() ==> s[i] >= x,
    ensures
        first_at_least(s, x) == i,
    decreases i,
{
    if i > 0 {
        lemma_first_at_least(s.drop_first(), x, i - 1);
    }
}

proof fn lemma_first_greater_bound(s: Seq<u32>, x: u32, k: int)
    requires
        0 <= k < s.len(),
        s[k] > x,
    ensures
        first_greater(s, x) <= k,
    decreases k,
{
    if k > 0 && s[0] <= x {
        lemma_first_greater_bound(s.drop_first(), x, k - 1);
    }
}

/// The number of leading elements of `s` that are at most `x` (for a sorted `s`,
/// the number of elements at most `x`).
pub fn count_at_most(s: &[u32], x: u32) -> (r: usize)
    ensures
        r == first_greater(s@, x),
        r <= s@.len(),
{
    let mut i: usize = 0;
    while i < s.len() && s[i] <= x
        invariant
            0 <= i <= s@.len(),
            forall|j: int| 0 <= j < i ==> s@[j] <= x,
        decreases s@.len() - i,
    {
        i = i + 1;
    }
    proof {
        lemma_first_greater(s@, x, i as int);
    }
    i
}

/// The number of leading elements of `s` that are below `x`.
pub fn count_below(s: &[u32], x: u32) -> (r: usize)
    ensures
        r == first_at_least(s@, x),
        r <= s@.len(),
{
    let mut i: usize = 0;
    while i < s.len() && s[i] < x
        invariant
            0 <= i <= s@.len(),
            forall|j: int| 0 <= j < i ==> s@[j] < x,
        decreases s@.len() - i,
    {
        i = i + 1;
    }
    proof {
        lemma_first_at_least(s@, x, i as int);
    }
    i
}

/// `a - b`, or 0 when `b > a`.
pub open spec fn sat_sub(a: int, b: int) -> int {
    if a > b {
        a - b
    } else {
        0
    }
}

/// The item holding scroll offset `current_scroll` (clamped to the list) and the offset
/// into that item.
pub open spec fn scroll_anchor_spec(prefix: Seq<u32>, current_scroll: u32) -> (int, int) {
    if prefix.len() <= 1 {
        (0, 0)
    } else {
        let max_scroll = sat_sub(prefix.last() as int, 1);
        let clamped = if current_scroll < max_scroll {
            current_scroll as int
        } else {
            max_scroll
        };
        let pp = sat_sub(first_greater(prefix, clamped as u32), 1);
        let idx = if pp < prefix.len() - 2 {
            pp
        } else {
            prefix.len() - 2
        };
        (idx, sat_sub(clamped, prefix[idx] as int))
    }
}

/// Finds the item at the (clamped) scroll offset and the offset into it.
pub fn find_scroll_anchor(prefix: &[u32], current_scroll: u32) -> (r: (usize, u32))
    ensures
        (r.0 as int, r.1 as int) == scroll_anchor_spec(prefix@, current_scroll),
{
    if prefix.len() <= 1 {
        return (0, 0);
    }
    let max_scroll = prefix[prefix.len() - 1].saturating_sub(1);
    let clamped_scroll = if current_scroll < max_scroll {
        current_scroll
    } else {
        max_scroll
    };
    let pp = count_at_most(prefix, clamped_scroll).saturating_sub(1);
    let last = prefix.len() - 2;
    let anchor_idx = if pp < last {
        pp
    } else {
        last
    };
    let anchor_offset = clamped_scroll.saturating_sub(prefix[anchor_idx]);
    (anchor_idx, anchor_offset)
}

proof fn lemma_first_greater_props(s: Seq<u32>, x: u32)
    ensures
        0 <= first_greater(s, x) <= s.len(),
        forall|j: int| 0 <= j < first_greater(s, x) ==> s[j] <= x,
        first_greater(s, x) < s.len() ==> s[first_greater(s, x)] > x,
    decreases s.len(),
{
    if s.len() > 0 && s[0] <= x {
        let t = s.drop_first();
        lemma_first_greater_props(t, x);
        assert forall|j: int| 0 <= j < first_greater(s, x) implies s[j] <= x by {
            if j > 0 {
                assert(s[j] == t[j - 1]);
            }
        }
    }
}

proof fn lemma_first_at_least_props(s: Seq<u32>, x: u32)
    ensures
        0 <= first_at_least(s, x) <= s.len(),
        forall|j: int| 0 <= j < first_at_least(s, x) ==> s[j] < x,
        first_at_least(s, x) < s.len() ==> s[first_at_least(s, x)] >= x,
    decreases s.len(),
{
    if s.len() > 0 && s[0] < x {
        let t = s.drop_first();
        lemma_first_at_least_props(t, x);
        assert forall|j: int| 0 <= j < first_at_least(s, x) implies s[j] < x by {
            if j > 0 {
                assert(s[j] == t[j - 1]);
            }
        }
    }
}

/// Whether `p` starts at 0 and never decreases, as prefix sums of heights do.
pub open spec fn offsets_sorted(p: Seq<u32>) -> bool {
    &&& p.len() > 0
    &&& p[0] == 0
    &&& forall|i: int, j: int| 0 <= i <= j < p.len() ==> p[i] <= p[j]
}

/// For item offsets that start at 0 and never decrease, the anchor is an item of the list
/// that starts at or before the clamped scroll offset, and (unless it is the last item)
/// the next item starts after it; the anchor offset is the distance from the item's start.
pub proof fn law_anchor_holds_scroll(p: Seq<u32>, current_scroll: u32)
    requires
        offsets_sorted(p),
        p.len() >= 2,
    ensures
        ({
            let (idx, off) = scroll_anchor_spec(p, current_scroll);
            let max_scroll = sat_sub(p.last() as int, 1);
            let clamped = if current_scroll < max_scroll {
                current_scroll as int
            } else {
                max_scroll
            };
            &&& 0 <= idx <= p.len() - 2
            &&& p[idx] <= clamped
            &&& off == clamped - p[idx]
            &&& idx < p.len() - 2 ==> clamped < p[idx + 1]
        }),
{
    let max_scroll = sat_sub(p.last() as int, 1);
    let clamped = if current_scroll < max_scroll {
        current_scroll as int
    } else {
        max_scroll
    };
    lemma_first_greater_props(p, clamped as u32);
    let fg = first_greater(p, clamped as u32);
    assert(p[0] <= clamped);
    assert(fg >= 1);
}

/// For item offsets that start at 0, never decrease and end above 0, the rendered window
/// always contains the item that holds the (clamped) scroll offset.
pub proof fn law_window_covers_anchor(
    p: Seq<u32>,
    count: int,
    current_scroll: u32,
    viewport_height: u32,
    buffer: u32,
    estimated_item_height: u32,
)
    requires
        offsets_sorted(p),
        p.len() == count + 1,
        count >= 1,
        p[count] > 0,
    ensures
        ({
            let (start, end) = render_window_spec(
                p,
                count,
                current_scroll,
                viewport_height,
                buffer,
                estimated_item_height,
            );
            let (idx, _off) = scroll_anchor_spec(p, current_scroll);
            start <= idx < end
        }),
{
    law_anchor_holds_scroll(p, current_scroll);
    let (idx, off) = scroll_anchor_spec(p, current_scroll);
    let viewport_px = if viewport_height > estimated_item_height {
        viewport_height as int
    } else {
        estimated_item_height as int
    };
    let buffer_px = if buffer * estimated_item_height > u32::MAX {
        u32::MAX as int
    } else {
        buffer * estimated_item_height
    };
    let total = p.last();
    let max_scroll = sat_sub(total as int, 1);
    let clamped = if current_scroll < max_scroll {
        current_scroll as int
    } else {
        max_scroll
    };
    let x = sat_sub(clamped, buffer_px);
    assert(0 <= buffer_px) by (nonlinear_arith)
        requires
            buffer_px == (if buffer * estimated_item_height > u32::MAX {
                u32::MAX as int
            } else {
                buffer * estimated_item_height
            }),
    ;
    lemma_first_greater_props(p, x as u32);
    lemma_first_greater_props(p, clamped as u32);
    let fx = first_greater(p, x as u32);
    let fc = first_greater(p, clamped as u32);
    assert(fx <= fc) by {
        if fx > fc {
            assert(p[fc] <= x);
        }
    }
    assert(fc <= count) by {
        if fc > count {
            assert(p[count] <= clamped);
        }
    }
    let end_target = sat_add(sat_add(clamped, viewport_px), buffer_px);
    lemma_first_at_least_props(p, end_target as u32);
    let e = first_at_least(p, end_target as u32);
    if end_target > clamped {
        assert(e >= idx + 1) by {
            if e <= idx {
                assert(p[e] <= p[idx]);
            }
        }
    }
}

/// The number of measured flags.
pub open spec fn count_measured(flags: Seq<bool>) -> int
    decreases flags.len(),
{
    if flags.len() == 0 {
        0
    } else {
        count_measured(flags.drop_last()) + if flags.last() {
            1int
        } else {
            0int
        }
    }
}

/// The sum of the heights whose flag (at the same position) is set.
pub open spec fn measured_total(heights: Seq<u32>, flags: Seq<bool>, n: int) -> int
    decreases n,
{
    if n <= 0 {
        0
    } else {
        measured_total(heights, flags, n - 1) + if flags[n - 1] {
            heights[n - 1] as int
        } else {
            0int
        }
    }
}

/// The smaller of two lengths.
pub open spec fn min_len(a: int, b: int) -> int {
    if a < b {
        a
    } else {
        b
    }
}

/// The height assumed for unmeasured items: the average of the measured ones
/// (clamped to `1..=u32::MAX`), or `fallback` when none is measured.
pub open spec fn estimate_spec(heights: Seq<u32>, flags: Seq<bool>, fallback: u32) -> int {
    let c = count_measured(flags);
    if c == 0 {
        fallback as int
    } else {
        let avg = measured_total(heights, flags, min_len(heights.len() as int, flags.len() as int)) / c;
        if avg < 1 {
            1
        } else if avg > u32::MAX {
            u32::MAX as int
        } else {
            avg
        }
    }
}

proof fn lemma_measured_total_bound(heights: Seq<u32>, flags: Seq<bool>, n: int)
    requires
        0 <= n <= heights.len(),
        n <= flags.len(),
    ensures
        0 <= measured_total(heights, flags, n) <= n * u32::MAX,
    decreases n,
{
    if n > 0 {
        lemma_measured_total_bound(heights, flags, n - 1);
    }
}

proof fn lemma_count_measured_bound(flags: Seq<bool>)
    ensures
        0 <= count_measured(flags) <= flags.len(),
    decreases flags.len(),
{
    if flags.len() > 0 {
        lemma_count_measured_bound(flags.drop_last());
    }
}

/// Estimates the height of unmeasured items from the measured ones.
pub fn estimate_unmeasured_height(heights: &[u32], flags: &[bool], fallback: u32) -> (r: u32)
    requires
        heights@.len() <= u32::MAX,
    ensures
        r == estimate_spec(heights@, flags@, fallback),
{
    let mut count: u64 = 0;
    let mut i: usize = 0;
    while i < flags.len()
        invariant
            0 <= i <= flags@.len(),
            count == count_measured(flags@.take(i as int)),
            count <= i,
        decreases flags@.len() - i,
    {
        proof {
            assert(flags@.take(i + 1).drop_last() =~= flags@.take(i as int));
            lemma_count_measured_bound(flags@.take(i as int));
        }
        if flags[i] {
            count = count + 1;
        }
        i = i + 1;
    }
    proof {
        assert(flags@.take(i as int) =~= flags@);
    }
    if count == 0 {
        return fallback;
    }
    let n = if heights.len() < flags.len() {
        heights.len()
    } else {
        flags.len()
    };
    let mut total: u64 = 0;
    let mut k: usize = 0;
    while k < n
        invariant
            0 <= k <= n,
            n <= heights@.len(),
            n <= flags@.len(),
            heights@.len() <= u32::MAX,
            total == measured_total(heights@, flags@, k as int),
        decreases n - k,
    {
        proof {
            lemma_measured_total_bound(heights@, flags@, k as int);
            assert(k * u32::MAX <= u32::MAX * u32::MAX) by (nonlinear_arith)
                requires
                    k <= u32::MAX,
            ;
        }
        if flags[k] {
            total = total + heights[k] as u64;
        }
        k = k + 1;
    }
    let avg = total / count;
    proof {
        lemma_measured_total_bound(heights@, flags@, n as int);
        assert(avg <= total) by (nonlinear_arith)
            requires
                count >= 1,
                avg == total / count,
        ;
        assert(n * u32::MAX <= u32::MAX * u32::MAX) by (nonlinear_arith)
            requires
                n <= u32::MAX,
        ;
    }
    if avg < 1 {
        1
    } else if avg > u32::MAX as u64 {
        u32::MAX
    } else {
        avg as u32
    }
}


/// The heights with each pending measurement written to its item (when in range).
pub open spec fn apply_heights(heights: Seq<u32>, pending: Map<usize, u32>) -> Seq<u32> {
    Seq::new(
        heights.len(),
        |i: int|
            if pending.contains_key(i as usize) {
                pending[i as usize]
            } else {
                heights[i]
            },
    )
}

/// The flags with each item that has a pending measurement marked measured (when in range).
pub open spec fn apply_flags(flags: Seq<bool>, pending: Map<usize, u32>) -> Seq<bool> {
    Seq::new(flags.len(), |i: int| pending.contains_key(i as usize) || flags[i])
}

/// Whether one of the first `n` entries of `s` is for item `i`.
pub open spec fn seen(s: Seq<(&usize, &u32)>, n: int, i: int) -> bool {
    exists|j: int| 0 <= j < n && *s[j].0 == i
}

/// The scroll offset that keeps the same point of the same item at the top after the
/// heights change: the item's new offset plus the old offset into it, limited to the
/// item's new height.
pub open spec fn compensated_scroll_spec(
    heights: Seq<u32>,
    flags: Seq<bool>,
    pending: Map<usize, u32>,
    current_scroll: u32,
    estimated_item_height: u32,
) -> int {
    let old_adaptive = estimate_spec(heights, flags, estimated_item_height) as u32;
    let old_prefix = Seq::new(
        (heights.len() + 1) as nat,
        |i: int| prefix_spec(heights, flags, old_adaptive, i) as u32,
    );
    let (anchor_idx, anchor_offset) = scroll_anchor_spec(old_prefix, current_scroll);
    let nh = apply_heights(heights, pending);
    let nf = apply_flags(flags, pending);
    let new_adaptive = estimate_spec(nh, nf, estimated_item_height) as u32;
    if nh.len() == 0 {
        0
    } else {
        let h = if anchor_idx < nf.len() && nf[anchor_idx] {
            nh[anchor_idx] as int
        } else {
            new_adaptive as int
        };
        let anchor_height = if h < 1 {
            1
        } else {
            h
        };
        let limit = sat_sub(anchor_height, 1);
        sat_add(
            prefix_spec(nh, nf, new_adaptive, anchor_idx),
            if anchor_offset < limit {
                anchor_offset
            } else {
                limit
            },
        )
    }
}

/// The prefix sums as a sequence of offsets.
pub open spec fn offsets(heights: Seq<u32>, flags: Seq<bool>, adaptive: u32) -> Seq<u32> {
    Seq::new((heights.len() + 1) as nat, |i: int| prefix_spec(heights, flags, adaptive, i) as u32)
}

proof fn lemma_offsets_sorted(heights: Seq<u32>, flags: Seq<bool>, adaptive: u32)
    ensures
        offsets_sorted(offsets(heights, flags, adaptive)),
        forall|i: int|
            0 <= i <= heights.len() ==> #[trigger] offsets(heights, flags, adaptive)[i] as int == prefix_spec(
                heights,
                flags,
                adaptive,
                i,
            ),
{
    let p = offsets(heights, flags, adaptive);
    assert forall|i: int| 0 <= i <= heights.len() implies #[trigger] p[i] as int == prefix_spec(heights, flags, adaptive, i) by {
        law_prefix_monotone(heights, flags, adaptive, 0, i);
    }
    assert forall|i: int, j: int| 0 <= i <= j < p.len() implies p[i] <= p[j] by {
        law_prefix_monotone(heights, flags, adaptive, i, j);
        assert(p[i] as int == prefix_spec(heights, flags, adaptive, i));
        assert(p[j] as int == prefix_spec(heights, flags, adaptive, j));
    }
}

/// After measurements arrive, the compensated scroll offset points into the anchor item
/// (the item that held the old scroll offset) as the new heights lay it out: at or after
/// its start, and before its end unless the total height saturates.
pub proof fn law_compensated_scroll_in_anchor(
    heights: Seq<u32>,
    flags: Seq<bool>,
    pending: Map<usize, u32>,
    current_scroll: u32,
    estimated_item_height: u32,
)
    requires
        heights.len() > 0,
    ensures
        ({
            let old_adaptive = estimate_spec(heights, flags, estimated_item_height) as u32;
            let (idx, off) = scroll_anchor_spec(offsets(heights, flags, old_adaptive), current_scroll);
            let nh = apply_heights(heights, pending);
            let nf = apply_flags(flags, pending);
            let new_adaptive = estimate_spec(nh, nf, estimated_item_height) as u32;
            let start = prefix_spec(nh, nf, new_adaptive, idx);
            let end = prefix_spec(nh, nf, new_adaptive, idx + 1);
            let c = compensated_scroll_spec(heights, flags, pending, current_scroll, estimated_item_height);
            &&& 0 <= idx < heights.len()
            &&& start <= c <= end
            &&& end < u32::MAX ==> c < end
        }),
{
    let old_adaptive = estimate_spec(heights, flags, estimated_item_height) as u32;
    let p = offsets(heights, flags, old_adaptive);
    lemma_offsets_sorted(heights, flags, old_adaptive);
    law_anchor_holds_scroll(p, current_scroll);
    let (idx, off) = scroll_anchor_spec(p, current_scroll);
    let nh = apply_heights(heights, pending);
    let nf = apply_flags(flags, pending);
    let new_adaptive = estimate_spec(nh, nf, estimated_item_height) as u32;
    law_prefix_monotone(nh, nf, new_adaptive, idx, idx + 1);
    assert(p[idx] as int == prefix_spec(heights, flags, old_adaptive, idx));
}

/// Applies buffered height measurements and computes the scroll offset that keeps the
/// item at the top of the viewport in place.
pub fn apply_pending_measurements(
    heights: &[u32],
    flags: &[bool],
    pending: &HashMap<usize, u32>,
    current_scroll: u32,
    estimated_item_height: u32,
) -> (r: (Vec<u32>, Vec<bool>, u32))
    requires
        heights@.len() <= u32::MAX,
    ensures
        r.0@ == apply_heights(heights@, pending@),
        r.1@ == apply_flags(flags@, pending@),
        r.2 == compensated_scroll_spec(heights@, flags@, pending@, current_scroll, estimated_item_height),
{
    let old_adaptive = estimate_unmeasured_height(heights, flags, estimated_item_height);
    let old_prefix = build_prefix_sums_adaptive(heights, flags, old_adaptive);
    let (anchor_idx, anchor_offset) = find_scroll_anchor(old_prefix.as_slice(), current_scroll);
    proof {
        assert(old_prefix@ =~= Seq::new(
            (heights@.len() + 1) as nat,
            |i: int| prefix_spec(heights@, flags@, old_adaptive, i) as u32,
        ));
    }
    let mut next_heights: Vec<u32> = Vec::new();
    let mut i: usize = 0;
    while i < heights.len()
        invariant
            0 <= i <= heights@.len(),
            next_heights@ =~= heights@.take(i as int),
        decreases heights@.len() - i,
    {
        next_heights.push(heights[i]);
        i = i + 1;
    }
    let mut next_flags: Vec<bool> = Vec::new();
    let mut i: usize = 0;
    while i < flags.len()
        invariant
            0 <= i <= flags@.len(),
            next_flags@ =~= flags@.take(i as int),
        decreases flags@.len() - i,
    {
        next_flags.push(flags[i]);
        i = i + 1;
    }
    proof {
        assert(heights@.take(heights@.len() as int) =~= heights@);
        assert(flags@.take(flags@.len() as int) =~= flags@);
    }
    let iter = pending.iter();
    let ghost es = iter.remaining();
    let ghost mut n: int = 0;
    for (idx, height) in it: iter
        invariant
            it.seq() == es,
            n == it.index(),
            forall|j: int|
                0 <= j < es.len() ==> pending@.contains_key(*es[j].0) && pending@[*es[j].0] == *es[j].1,
            forall|k: usize| #[trigger] pending@.contains_key(k) ==> es.contains((&k, &pending@[k])),
            next_heights@.len() == heights@.len(),
            next_flags@.len() == flags@.len(),
            forall|i: int|
                0 <= i < heights@.len() ==> #[trigger] next_heights@[i] == if seen(es, n, i) {
                    pending@[i as usize]
                } else {
                    heights@[i]
                },
            forall|i: int|
                0 <= i < flags@.len() ==> #[trigger] next_flags@[i] == (seen(es, n, i) || flags@[i]),
    {
        proof {
            assert(*es[n].0 == *idx && *es[n].1 == *height);
            assert forall|i: int| #[trigger] seen(es, n + 1, i) == (seen(es, n, i) || i == *idx) by {
                if i == *idx {
                    assert(*es[n].0 == i);
                }
                if seen(es, n + 1, i) && i != *idx {
                    let j = choose|j: int| 0 <= j < n + 1 && *es[j].0 == i;
                    assert(j < n);
                }
            }
        }
        if *idx < next_heights.len() {
            next_heights.set(*idx, *height);
        }
        if *idx < next_flags.len() {
            next_flags.set(*idx, true);
        }
        proof {
            n = n + 1;
        }
    }
    proof {
        assert forall|i: int| 0 <= i < heights@.len() || 0 <= i < flags@.len() implies seen(es, n, i)
            == pending@.contains_key(i as usize) by {
            if pending@.contains_key(i as usize) {
                let k = i as usize;
                assert(es.contains((&k, &pending@[k])));
                let j = choose|j: int| 0 <= j < es.len() && es[j] == (&k, &pending@[k]);
                assert(*es[j].0 == i);
            }
            if seen(es, n, i) {
                let j = choose|j: int| 0 <= j < n && *es[j].0 == i;
                assert(pending@.contains_key(*es[j].0));
            }
        }
        assert(next_heights@ =~= apply_heights(heights@, pending@));
        assert(next_flags@ =~= apply_flags(flags@, pending@));
    }
    let new_adaptive = estimate_unmeasured_height(next_heights.as_slice(), next_flags.as_slice(), estimated_item_height);
    let new_prefix = build_prefix_sums_adaptive(next_heights.as_slice(), next_flags.as_slice(), new_adaptive);
    let compensated = if next_heights.len() == 0 {
        0
    } else {
        let measured = anchor_idx < next_flags.len() && next_flags[anchor_idx];
        let h = if measured {
            next_heights[anchor_idx]
        } else {
            new_adaptive
        };
        let anchor_height = if h < 1 {
            1
        } else {
            h
        };
        let limit = anchor_height.saturating_sub(1);
        let off = if anchor_offset < limit {
            anchor_offset
        } else {
            limit
        };
        new_prefix[anchor_idx].saturating_add(off)
    };
    (next_heights, next_flags, compensated)
}

/// The range of items to render: from the item at the top of the (clamped) viewport less
/// the buffer, to the first item starting at or past its bottom plus the buffer; never
/// empty when there are items.
pub open spec fn render_window_spec(
    prefix: Seq<u32>,
    count: int,
    current_scroll: u32,
    viewport_height: u32,
    buffer: u32,
    estimated_item_height: u32,
) -> (int, int) {
    if count == 0 {
        (0, 0)
    } else {
        let viewport_px = if viewport_height > estimated_item_height {
            viewport_height as int
        } else {
            estimated_item_height as int
        };
        let buffer_px = if buffer * estimated_item_height > u32::MAX {
            u32::MAX as int
        } else {
            buffer * estimated_item_height
        };
        let total = prefix.last();
        let max_scroll = sat_sub(total as int, 1);
        let clamped = if current_scroll < max_scroll {
            current_scroll as int
        } else {
            max_scroll
        };
        let start = sat_sub(first_greater(prefix, sat_sub(clamped, buffer_px) as u32), 1);
        let end_target = sat_add(sat_add(clamped, viewport_px), buffer_px);
        let e = first_at_least(prefix, end_target as u32);
        let end = if e < count {
            e
        } else {
            count
        };
        if end <= start {
            (start, if start + 1 < count {
                start + 1
            } else {
                count
            })
        } else {
            (start, end)
        }
    }
}

/// Computes which items a virtualised list renders and the offset of the first one.
pub fn render_window(
    prefix: &[u32],
    count: usize,
    current_scroll: u32,
    viewport_height: u32,
    buffer: u32,
    estimated_item_height: u32,
) -> (r: (usize, usize, u32))
    requires
        prefix@.len() == count + 1,
    ensures
        (r.0 as int, r.1 as int) == render_window_spec(
            prefix@,
            count as int,
            current_scroll,
            viewport_height,
            buffer,
            estimated_item_height,
        ),
        r.0 <= count,
        r.2 == prefix@[r.0 as int],
        r.1 <= count,
        count > 0 && prefix@[count as int] > 0 ==> r.0 < r.1,
{
    let viewport_px = if viewport_height > estimated_item_height {
        viewport_height
    } else {
        estimated_item_height
    };
    proof {
        assert(buffer as int * estimated_item_height as int <= u32::MAX as int * u32::MAX as int)
            by (nonlinear_arith)
            requires
                buffer <= u32::MAX,
                estimated_item_height <= u32::MAX,
        ;
    }
    let prod: u64 = buffer as u64 * estimated_item_height as u64;
    let buffer_px: u32 = if prod > u32::MAX as u64 {
        u32::MAX
    } else {
        prod as u32
    };
    let total = prefix[prefix.len() - 1];
    if count == 0 {
        return (0, 0, prefix[0]);
    }
    let max_scroll = total.saturating_sub(1);
    let clamped = if current_scroll < max_scroll {
        current_scroll
    } else {
        max_scroll
    };
    let x = clamped.saturating_sub(buffer_px);
    proof {
        if total > 0 {
            lemma_first_greater_bound(prefix@, x, count as int);
        }
    }
    let start = count_at_most(prefix, x).saturating_sub(1);
    let end_target = clamped.saturating_add(viewport_px).saturating_add(buffer_px);
    let e = count_below(prefix, end_target);
    let mut end = if e < count {
        e
    } else {
        count
    };
    if end <= start {
        end = if start + 1 < count {
            start + 1
        } else {
            count
        };
    }
    (start, end, prefix[start])
}

/// The accessibility attributes of a rendered row.
pub struct RowAttributes {
    /// The row's `role`: `listitem`.
    pub role: &'static str,
    /// The row's `data-recycle-index`: its index.
    pub recycle_index: String,
    /// The row's `aria-setsize`: the number of items in the whole list.
    pub set_size: String,
    /// The row's `aria-posinset`: its position, from 1.
    pub pos_in_set: String,
}

/// The attributes of the row for item `idx` in a list of `count` items, so that screen
/// readers announce the whole list's size although only some rows are rendered.
pub fn row_attributes(idx: usize, count: usize) -> (r: RowAttributes)
    requires
        idx < usize::MAX,
    ensures
        r.role@ == seq!['l', 'i', 's', 't', 'i', 't', 'e', 'm'],
        r.recycle_index@ == decimal(idx as nat),
        r.set_size@ == decimal(count as nat),
        r.pos_in_set@ == decimal((idx + 1) as nat),
{
    proof {
        reveal_strlit("listitem");
    }
    RowAttributes {
        role: "listitem",
        recycle_index: usize_text(idx),
        set_size: usize_text(count),
        pos_in_set: usize_text(idx + 1),
    }
}

/// The attributes of the list's container.
pub struct ContainerAttributes {
    /// The container's `role`: `list`.
    pub role: &'static str,
    /// The container's `tabindex`: `0`.
    pub tabindex: &'static str,
    /// The container's `class`: `recycle-list-container`.
    pub class: &'static str,
    /// The height of the scrolling canvas: the total height, at least the viewport's.
    pub canvas_height: u32,
}

/// The container's attributes for a list of total height `total_height` shown in a
/// viewport of `viewport_px`.
pub fn container_attributes(total_height: u32, viewport_px: u32) -> (r: ContainerAttributes)
    ensures
        r.role@ == seq!['l', 'i', 's', 't'],
        r.tabindex@ == seq!['0'],
        r.class@ == "recycle-list-container"@,
        r.canvas_height == if total_height > viewport_px {
            total_height
        } else {
            viewport_px
        },
{
    proof {
        reveal_strlit("list");
        reveal_strlit("0");
    }
    ContainerAttributes {
        role: "list",
        tabindex: "0",
        class: "recycle-list-container",
        canvas_height: if total_height > viewport_px {
            total_height
        } else {
            viewport_px
        },
    }
}

/// A rendered row measured height `measured`. A row already measured is left alone;
/// while the list scrolls the measurement waits among the pending ones (replacing an
/// earlier one of the same row); otherwise it is recorded at once and the row is flagged
/// measured.
pub fn record_measurement(
    heights: &mut Vec<u32>,
    flags: &mut Vec<bool>,
    pending: &mut HashMap<usize, u32>,
    idx: usize,
    measured: u32,
    is_scrolling: bool,
)
    ensures
        ({
            let already = idx < old(flags)@.len() && old(flags)@[idx as int];
            if already {
                &&& final(heights)@ == old(heights)@
                &&& final(flags)@ == old(flags)@
                &&& final(pending)@ == old(pending)@
            } else if is_scrolling {
                &&& final(heights)@ == old(heights)@
                &&& final(flags)@ == old(flags)@
                &&& final(pending)@ == old(pending)@.insert(idx, measured)
            } else {
                &&& final(heights)@ == if idx < old(heights)@.len() {
                    old(heights)@.update(idx as int, measured)
                } else {
                    old(heights)@
                }
                &&& final(flags)@ == if idx < old(flags)@.len() {
                    old(flags)@.update(idx as int, true)
                } else {
                    old(flags)@
                }
                &&& final(pending)@ == old(pending)@
            }
        }),
{
    if idx < flags.len() && flags[idx] {
        return;
    }
    if is_scrolling {
        pending.insert(idx, measured);
        return;
    }
    if idx < heights.len() {
        heights.set(idx, measured);
    }
    if idx < flags.len() {
        flags.set(idx, true);
    }
}

} // verus!
