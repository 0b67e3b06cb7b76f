//! The order in which chunks were reserved does not show in the free
//! ranges.

use crate::gap::ascending;
use crate::gap::bump;
use crate::gap::counters_of;
use crate::gap::free_ranges;
use crate::gap::lemma_bump_ascending;
use crate::gap::lemma_counters_ascending;
use vstd::prelude::*;
use vstd::seq_lib::*;

verus! {

/// The counters `d` after the chunk `c` was reserved.
pub open spec fn stepped(d: Seq<(int, int)>, c: (int, int)) -> Seq<(int, int)> {
    bump(bump(d, c.0, 1), c.1, -1)
}

proof fn lemma_front(a: (int, int), s: Seq<(int, int)>)
    ensures
        (seq![a] + s).len() == s.len() + 1,
        (seq![a] + s)[0] == a,
        (seq![a] + s).skip(1) == s,
{
    assert((seq![a] + s).skip(1) =~= s);
}

/// The counters after a bump, by the place of the key.
proof fn lemma_bump_shape(d: Seq<(int, int)>, k: int, by: int)
    requires
        ascending(d),
    ensures
        d.len() == 0 ==> bump(d, k, by) == seq![(k, by)] + Seq::<(int, int)>::empty(),
        d.len() > 0 && d[0].0 == k ==> bump(d, k, by) == seq![(k, d[0].1 + by)] + d.skip(1),
        d.len() > 0 && k < d[0].0 ==> bump(d, k, by) == seq![(k, by)] + d,
        d.len() > 0 && k > d[0].0 ==> bump(d, k, by) == seq![d[0]] + bump(d.skip(1), k, by),
        d.len() > 0 ==> ascending(d.skip(1)),
        bump(d, k, by).len() > 0,
        d.len() > 0 ==> bump(d, k, by)[0].0 == (if k < d[0].0 {
            k
        } else {
            d[0].0
        }),
        d.len() == 0 ==> bump(d, k, by)[0].0 == k,
{
    if d.len() == 0 {
        assert(seq![(k, by)] + Seq::<(int, int)>::empty() =~= seq![(k, by)]);
    } else {
        let t = d.skip(1);
        assert forall|i: int, j: int| 0 <= i < j < t.len() implies (#[trigger] t[i]).0 < (
        #[trigger] t[j]).0 by {
            assert(t[i] == d[i + 1]);
            assert(t[j] == d[j + 1]);
        }
        if d[0].0 == k {
            lemma_front((k, d[0].1 + by), t);
        } else if k < d[0].0 {
            lemma_front((k, by), d);
        } else {
            lemma_front(d[0], bump(t, k, by));
        }
    }
}

/// Two bumps give the same counters in either order.
proof fn lemma_bump_commutes(d: Seq<(int, int)>, k1: int, x: int, k2: int, y: int)
    requires
        ascending(d),
    ensures
        bump(bump(d, k1, x), k2, y) == bump(bump(d, k2, y), k1, x),
    decreases d.len(),
{
    let b1 = bump(d, k1, x);
    let b2 = bump(d, k2, y);
    lemma_bump_shape(d, k1, x);
    lemma_bump_shape(d, k2, y);
    lemma_bump_ascending(d, k1, x);
    lemma_bump_ascending(d, k2, y);
    lemma_bump_shape(b1, k2, y);
    lemma_bump_shape(b2, k1, x);
    let none = Seq::<(int, int)>::empty();
    if d.len() == 0 {
        lemma_front((k1, x), none);
        lemma_front((k2, y), none);
        lemma_bump_shape(none, k1, x);
        lemma_bump_shape(none, k2, y);
    } else {
        let h = d[0];
        let t = d.skip(1);
        if k1 == h.0 {
            lemma_front((k1, h.1 + x), t);
        } else if k1 < h.0 {
            lemma_front((k1, x), d);
        } else {
            lemma_front(h, bump(t, k1, x));
        }
        if k2 == h.0 {
            lemma_front((k2, h.1 + y), t);
        } else if k2 < h.0 {
            lemma_front((k2, y), d);
        } else {
            lemma_front(h, bump(t, k2, y));
        }
        if k1 > h.0 && k2 > h.0 {
            lemma_bump_commutes(t, k1, x, k2, y);
        }
    }
}

/// Two chunks give the same counters in either order.
proof fn lemma_step_commutes(d: Seq<(int, int)>, a: (int, int), b: (int, int))
    requires
        ascending(d),
    ensures
        stepped(stepped(d, a), b) == stepped(stepped(d, b), a),
{
    let a0 = bump(d, a.0, 1);
    let b0 = bump(d, b.0, 1);
    lemma_bump_ascending(d, a.0, 1);
    lemma_bump_ascending(d, b.0, 1);
    // The end of `a` and the start of `b` change places,
    lemma_bump_commutes(a0, a.1, -1, b.0, 1);
    // then the two starts,
    lemma_bump_commutes(d, a.0, 1, b.0, 1);
    let ba = bump(b0, a.0, 1);
    lemma_bump_ascending(b0, a.0, 1);
    // then the two ends,
    lemma_bump_commutes(ba, a.1, -1, b.1, -1);
    // then the start of `a` and the end of `b`.
    lemma_bump_commutes(b0, a.0, 1, b.1, -1);
}

/// A chunk may be moved to the end of the chunks.
proof fn lemma_counters_moved(chunks: Seq<(int, int)>, j: int)
    requires
        0 <= j < chunks.len(),
    ensures
        counters_of(chunks) == stepped(counters_of(chunks.remove(j)), chunks[j]),
    decreases chunks.len(),
{
    let pre = chunks.drop_last();
    let last = chunks.last();
    if j == chunks.len() - 1 {
        assert(chunks.remove(j) =~= pre);
    } else {
        let without = pre.remove(j);
        lemma_counters_moved(pre, j);
        lemma_counters_ascending(without);
        lemma_step_commutes(counters_of(without), pre[j], last);
        assert(chunks.remove(j).drop_last() =~= without);
        assert(chunks.remove(j).last() == last);
    }
}

/// Chunks that differ only in their order leave the same counters.
proof fn lemma_counters_permuted(a: Seq<(int, int)>, b: Seq<(int, int)>)
    requires
        a.to_multiset() == b.to_multiset(),
    ensures
        counters_of(a) == counters_of(b),
    decreases a.len(),
{
    broadcast use vstd::multiset::group_multiset_axioms;

    to_multiset_len(a);
    to_multiset_len(b);
    if a.len() > 0 {
        let c = a.last();
        let before = a.drop_last();
        assert(a =~= before.push(c));
        to_multiset_build(before, c);
        to_multiset_contains(b, c);
        assert(a.to_multiset().count(c) > 0);
        let j = choose|j: int| 0 <= j < b.len() && b[j] == c;
        let rest = b.remove(j);
        to_multiset_remove(b, j);
        assert(before.to_multiset() =~= rest.to_multiset());
        lemma_counters_permuted(before, rest);
        lemma_counters_moved(b, j);
    } else {
        assert(b.len() == 0);
    }
}

/// The free ranges do not depend on the order in which the chunks were
/// reserved: chunks that are the same but for their order leave the same
/// free ranges in every window.
pub proof fn lemma_order_of_reservations(
    a: Seq<(int, int)>,
    b: Seq<(int, int)>,
    lo: int,
    hi: int,
)
    requires
        a.to_multiset() == b.to_multiset(),
    ensures
        free_ranges(a, lo, hi) == free_ranges(b, lo, hi),
{
    lemma_counters_permuted(a, b);
}

} // verus!
