//! Sweep-line search for unused address ranges.
//!
//! Every reserved chunk `start..end` adds one to a counter kept at `start`
//! and takes one from a counter kept at `end`. Walking the counters in
//! ascending order while summing them gives, for every point, the number of
//! chunks that cover it; the stretches of a window on which that number is
//! not positive are the free ranges.

use crate::ip::IpAddr;
use crate::ip::Ipv4Addr;
use crate::ip::Ipv4Net;
use crate::ip::Ipv6Addr;
use core::ops::Range;
use vstd::prelude::*;

verus! {

/// A totally ordered domain of points, ordered as the integers `ordinal` maps them to.
pub trait Point: Copy {
    /// The position of the point on the integer line.
    spec fn ordinal(self) -> int;

    /// Distinct points have distinct positions.
    proof fn ordinal_injective(a: Self, b: Self)
        ensures
            a.ordinal() == b.ordinal() ==> a == b,
    ;

    /// Strict order of two points.
    fn precedes(&self, other: &Self) -> (r: bool)
        ensures
            r == (self.ordinal() < other.ordinal()),
    ;
}

impl Point for Ipv4Addr {
    open spec fn ordinal(self) -> int {
        self.0 as int
    }

    proof fn ordinal_injective(a: Self, b: Self) {
    }

    fn precedes(&self, other: &Self) -> (r: bool) {
        self.0 < other.0
    }
}

impl Point for Ipv6Addr {
    open spec fn ordinal(self) -> int {
        self.0 as int
    }

    proof fn ordinal_injective(a: Self, b: Self) {
    }

    fn precedes(&self, other: &Self) -> (r: bool) {
        self.0 < other.0
    }
}

impl Point for IpAddr {
    /// Every IPv4 address comes before every IPv6 address.
    open spec fn ordinal(self) -> int {
        match self {
            IpAddr::V4(a) => a.0 as int,
            IpAddr::V6(a) => 0x1_0000_0000 + a.0 as int,
        }
    }

    proof fn ordinal_injective(a: Self, b: Self) {
    }

    fn precedes(&self, other: &Self) -> (r: bool) {
        match (self, other) {
            (IpAddr::V4(a), IpAddr::V4(b)) => a.0 < b.0,
            (IpAddr::V4(_), IpAddr::V6(_)) => true,
            (IpAddr::V6(_), IpAddr::V4(_)) => false,
            (IpAddr::V6(a), IpAddr::V6(b)) => a.0 < b.0,
        }
    }
}

/// The largest number of chunks a finder takes.
pub const MAX_CHUNKS: u32 = 0x3fff_ffff;

/// Keys strictly ascending.
pub open spec fn ascending(d: Seq<(int, int)>) -> bool {
    forall|i: int, j: int| 0 <= i < j < d.len() ==> (#[trigger] d[i]).0 < (#[trigger] d[j]).0
}

/// The counters `d` after `by` was added to the counter at `k`, which is
/// created at its place in the order where it did not exist.
pub open spec fn bump(d: Seq<(int, int)>, k: int, by: int) -> Seq<(int, int)>
    decreases d.len(),
{
    if d.len() == 0 {
        seq![(k, by)]
    } else if d[0].0 == k {
        seq![(k, d[0].1 + by)] + d.skip(1)
    } else if k < d[0].0 {
        seq![(k, by)] + d
    } else {
        seq![d[0]] + bump(d.skip(1), k, by)
    }
}

/// The counters that a sequence of reserved chunks leaves behind.
pub open spec fn counters_of(chunks: Seq<(int, int)>) -> Seq<(int, int)>
    decreases chunks.len(),
{
    if chunks.len() == 0 {
        Seq::empty()
    } else {
        let c = chunks.last();
        bump(bump(counters_of(chunks.drop_last()), c.0, 1), c.1, -1)
    }
}

/// `k` moved into `lo..=hi`.
pub open spec fn clamped(k: int, lo: int, hi: int) -> int {
    if k < lo {
        lo
    } else if k > hi {
        hi
    } else {
        k
    }
}

/// The free ranges that a walk over the counters `d` emits, having arrived
/// at `last` with the running sum `depth`.
pub open spec fn sweep(d: Seq<(int, int)>, lo: int, hi: int, last: int, depth: int) -> Seq<
    (int, int),
>
    decreases d.len(),
{
    if d.len() == 0 {
        if depth <= 0 && hi > last {
            seq![(last, hi)]
        } else {
            Seq::empty()
        }
    } else {
        let k = clamped(d[0].0, lo, hi);
        let rest = sweep(d.skip(1), lo, hi, k, depth + d[0].1);
        if depth <= 0 && k > last {
            seq![(last, k)] + rest
        } else {
            rest
        }
    }
}

/// The free ranges of the window `lo..hi` under the reserved chunks, each
/// as its two ends, in ascending order. A window whose end lies before its
/// start has none.
pub open spec fn free_ranges(chunks: Seq<(int, int)>, lo: int, hi: int) -> Seq<(int, int)> {
    if lo <= hi {
        sweep(counters_of(chunks), lo, hi, lo, 0)
    } else {
        Seq::empty()
    }
}

/// The number of chunks that begin at or before `x`, less the number of
/// chunks that end at or before `x`.
pub open spec fn depth_at(chunks: Seq<(int, int)>, x: int) -> int
    decreases chunks.len(),
{
    if chunks.len() == 0 {
        0
    } else {
        let c = chunks.last();
        depth_at(chunks.drop_last(), x) + (if c.0 <= x {
            1int
        } else {
            0int
        }) - (if c.1 <= x {
            1int
        } else {
            0int
        })
    }
}

/// `x` lies in one of the ranges `g`, each taken without its end.
pub open spec fn covered(g: Seq<(int, int)>, x: int) -> bool {
    exists|i: int| 0 <= i < g.len() && (#[trigger] g[i]).0 <= x < g[i].1
}

/// No chunk ends before it starts.
pub open spec fn well_formed(chunks: Seq<(int, int)>) -> bool {
    forall|i: int| 0 <= i < chunks.len() ==> (#[trigger] chunks[i]).0 <= chunks[i].1
}

/// The sum of the counters kept at or below `x`.
pub open spec fn sum_upto(d: Seq<(int, int)>, x: int) -> int
    decreases d.len(),
{
    if d.len() == 0 {
        0
    } else {
        (if d[0].0 <= x {
            d[0].1
        } else {
            0int
        }) + sum_upto(d.skip(1), x)
    }
}

/// The sum of the first `n` counters.
pub open spec fn sum_first(d: Seq<(int, int)>, n: int) -> int
    decreases n,
{
    if n <= 0 || d.len() == 0 {
        0
    } else {
        d[0].1 + sum_first(d.skip(1), n - 1)
    }
}

pub(crate) proof fn lemma_bump_ascending(d: Seq<(int, int)>, k: int, by: int)
    requires
        ascending(d),
    ensures
        ascending(bump(d, k, by)),
        forall|i: int|
            0 <= i < bump(d, k, by).len() ==> (#[trigger] bump(d, k, by)[i]).0 == k || exists|j: int|
                0 <= j < d.len() && (#[trigger] d[j]).0 == bump(d, k, by)[i].0,
    decreases d.len(),
{
    let b = bump(d, k, by);
    if d.len() == 0 {
    } else if d[0].0 == k {
        assert forall|i: int| 0 <= i < b.len() implies (#[trigger] b[i]).0 == k || exists|j: int|
            0 <= j < d.len() && (#[trigger] d[j]).0 == b[i].0 by {
            if i > 0 {
                assert(d[i].0 == b[i].0);
            }
        }
        assert forall|i: int, j: int| 0 <= i < j < b.len() implies (#[trigger] b[i]).0 < (
        #[trigger] b[j]).0 by {
            assert(b[j] == d[j]);
            if i > 0 {
                assert(b[i] == d[i]);
            } else {
                assert(d[0].0 < d[j].0);
            }
        }
    } else if k < d[0].0 {
        assert forall|i: int| 0 <= i < b.len() implies (#[trigger] b[i]).0 == k || exists|j: int|
            0 <= j < d.len() && (#[trigger] d[j]).0 == b[i].0 by {
            if i > 0 {
                assert(d[i - 1].0 == b[i].0);
            }
        }
        assert forall|i: int, j: int| 0 <= i < j < b.len() implies (#[trigger] b[i]).0 < (
        #[trigger] b[j]).0 by {
            assert(b[j] == d[j - 1]);
            if i > 0 {
                assert(b[i] == d[i - 1]);
            } else {
                assert(d[0].0 <= d[j - 1].0);
            }
        }
    } else {
        let t = d.skip(1);
        assert(ascending(t)) by {
            assert forall|i: int, j: int| 0 <= i < j < t.len() implies (#[trigger] t[i]).0 < (
            #[trigger] t[j]).0 by {
                assert(t[i] == d[i + 1]);
                assert(t[j] == d[j + 1]);
            }
        }
        lemma_bump_ascending(t, k, by);
        let bt = bump(t, k, by);
        assert(b == seq![d[0]] + bt);
        assert forall|i: int| 0 <= i < b.len() implies (#[trigger] b[i]).0 == k || exists|j: int|
            0 <= j < d.len() && (#[trigger] d[j]).0 == b[i].0 by {
            if i == 0 {
                assert(d[0].0 == b[0].0);
            } else {
                assert(b[i] == bt[i - 1]);
                if bt[i - 1].0 != k {
                    let j = choose|j: int| 0 <= j < t.len() && (#[trigger] t[j]).0 == bt[i - 1].0;
                    assert(d[j + 1].0 == b[i].0);
                }
            }
        }
        assert forall|i: int, j: int| 0 <= i < j < b.len() implies (#[trigger] b[i]).0 < (
        #[trigger] b[j]).0 by {
            assert(b[j] == bt[j - 1]);
            if i > 0 {
                assert(b[i] == bt[i - 1]);
            } else {
                if bt[j - 1].0 != k {
                    let m = choose|m: int| 0 <= m < t.len() && (#[trigger] t[m]).0 == bt[j - 1].0;
                    assert(t[m] == d[m + 1]);
                    assert(d[0].0 < d[m + 1].0);
                }
            }
        }
    }
}

/// What `bump` does, told by the place at which `k` belongs.
proof fn lemma_bump_at(d: Seq<(int, int)>, k: int, by: int, at: int)
    requires
        0 <= at <= d.len(),
        forall|j: int| 0 <= j < at ==> (#[trigger] d[j]).0 < k,
        at < d.len() ==> k <= d[at].0,
    ensures
        at < d.len() && d[at].0 == k ==> bump(d, k, by) == d.update(at, (k, d[at].1 + by)),
        !(at < d.len() && d[at].0 == k) ==> bump(d, k, by) == d.insert(at, (k, by)),
    decreases at,
{
    if at == 0 {
        if d.len() > 0 && d[0].0 == k {
            assert(seq![(k, d[0].1 + by)] + d.skip(1) =~= d.update(0, (k, d[0].1 + by)));
        } else {
            assert(seq![(k, by)] + d =~= d.insert(0, (k, by)));
        }
    } else {
        assert(d[0].0 < k);
        let t = d.skip(1);
        assert forall|j: int| 0 <= j < at - 1 implies (#[trigger] t[j]).0 < k by {
            assert(t[j] == d[j + 1]);
        }
        lemma_bump_at(t, k, by, at - 1);
        if at < d.len() && d[at].0 == k {
            assert(seq![d[0]] + t.update(at - 1, (k, d[at].1 + by)) =~= d.update(
                at,
                (k, d[at].1 + by),
            ));
        } else {
            assert(seq![d[0]] + t.insert(at - 1, (k, by)) =~= d.insert(at, (k, by)));
        }
    }
}

proof fn lemma_sum_upto_bump(d: Seq<(int, int)>, k: int, by: int, x: int)
    ensures
        sum_upto(bump(d, k, by), x) == sum_upto(d, x) + (if k <= x {
            by
        } else {
            0int
        }),
    decreases d.len(),
{
    let b = bump(d, k, by);
    if d.len() == 0 {
        assert(b[0] == (k, by));
        assert(b.skip(1) =~= Seq::<(int, int)>::empty());
        assert(sum_upto(b.skip(1), x) == 0);
    } else if d[0].0 == k {
        assert(b[0] == (k, d[0].1 + by));
        assert(b.skip(1) =~= d.skip(1));
    } else if k < d[0].0 {
        assert(b[0] == (k, by));
        assert(b.skip(1) =~= d);
    } else {
        lemma_sum_upto_bump(d.skip(1), k, by, x);
        assert(b[0] == d[0]);
        assert(b.skip(1) =~= bump(d.skip(1), k, by));
    }
}

pub(crate) proof fn lemma_counters_ascending(chunks: Seq<(int, int)>)
    ensures
        ascending(counters_of(chunks)),
    decreases chunks.len(),
{
    if chunks.len() > 0 {
        let c = chunks.last();
        lemma_counters_ascending(chunks.drop_last());
        lemma_bump_ascending(counters_of(chunks.drop_last()), c.0, 1);
        lemma_bump_ascending(bump(counters_of(chunks.drop_last()), c.0, 1), c.1, -1);
    }
}

proof fn lemma_sum_upto_counters(chunks: Seq<(int, int)>, x: int)
    ensures
        sum_upto(counters_of(chunks), x) == depth_at(chunks, x),
    decreases chunks.len(),
{
    if chunks.len() > 0 {
        let c = chunks.last();
        let d0 = counters_of(chunks.drop_last());
        lemma_sum_upto_counters(chunks.drop_last(), x);
        lemma_sum_upto_bump(d0, c.0, 1, x);
        lemma_sum_upto_bump(bump(d0, c.0, 1), c.1, -1, x);
    }
}

proof fn lemma_depth_bounded(chunks: Seq<(int, int)>, x: int)
    ensures
        -chunks.len() <= depth_at(chunks, x) <= chunks.len(),
    decreases chunks.len(),
{
    if chunks.len() > 0 {
        lemma_depth_bounded(chunks.drop_last(), x);
    }
}

/// On ascending counters, the sum of the first `n` is the sum of those kept
/// at or below the key of the `n`th.
proof fn lemma_sum_first_upto(d: Seq<(int, int)>, n: int)
    requires
        ascending(d),
        0 < n <= d.len(),
    ensures
        sum_first(d, n) == sum_upto(d, d[n - 1].0),
    decreases n,
{
    let t = d.skip(1);
    assert(ascending(t)) by {
        assert forall|i: int, j: int| 0 <= i < j < t.len() implies (#[trigger] t[i]).0 < (
        #[trigger] t[j]).0 by {
            assert(t[i] == d[i + 1]);
            assert(t[j] == d[j + 1]);
        }
    }
    if n == 1 {
        lemma_sum_upto_above(t, d[0].0);
        assert(sum_first(t, 0) == 0);
    } else {
        lemma_sum_first_upto(t, n - 1);
        assert(t[n - 2] == d[n - 1]);
        assert(d[0].0 < d[n - 1].0);
    }
}

/// Counters whose keys all lie above `x` add nothing to the sum up to `x`.
proof fn lemma_sum_upto_above(d: Seq<(int, int)>, x: int)
    requires
        forall|i: int| 0 <= i < d.len() ==> (#[trigger] d[i]).0 > x,
    ensures
        sum_upto(d, x) == 0,
    decreases d.len(),
{
    if d.len() > 0 {
        let t = d.skip(1);
        assert forall|i: int| 0 <= i < t.len() implies (#[trigger] t[i]).0 > x by {
            assert(t[i] == d[i + 1]);
        }
        lemma_sum_upto_above(t, x);
    }
}

proof fn lemma_sum_first_step(d: Seq<(int, int)>, n: int)
    requires
        0 <= n < d.len(),
    ensures
        sum_first(d, n + 1) == sum_first(d, n) + d[n].1,
    decreases n,
{
    if n == 0 {
        assert(sum_first(d.skip(1), 0) == 0);
    } else {
        lemma_sum_first_step(d.skip(1), n - 1);
        assert(d.skip(1)[n - 1] == d[n]);
    }
}

/// The sum of the first `n` counters of a finder is a depth, and so within
/// the number of its chunks.
proof fn lemma_sum_first_bounded(chunks: Seq<(int, int)>, n: int)
    requires
        0 <= n <= counters_of(chunks).len(),
    ensures
        -chunks.len() <= sum_first(counters_of(chunks), n) <= chunks.len(),
{
    let d = counters_of(chunks);
    if n > 0 {
        lemma_counters_ascending(chunks);
        lemma_sum_first_upto(d, n);
        lemma_sum_upto_counters(chunks, d[n - 1].0);
        lemma_depth_bounded(chunks, d[n - 1].0);
    }
}

/// Every range of a sweep lies between the place it started from and the
/// end of the window, is not empty, and ends where the next one starts or
/// before.
proof fn lemma_sweep_ordered(d: Seq<(int, int)>, lo: int, hi: int, last: int, depth: int)
    requires
        ascending(d),
        lo <= last <= hi,
        forall|i: int| 0 <= i < d.len() ==> last == lo || (#[trigger] d[i]).0 >= last,
    ensures
        forall|i: int|
            0 <= i < sweep(d, lo, hi, last, depth).len() ==> last <= (#[trigger] sweep(
                d,
                lo,
                hi,
                last,
                depth,
            )[i]).0 < sweep(d, lo, hi, last, depth)[i].1 <= hi,
        forall|i: int, j: int|
            0 <= i < j < sweep(d, lo, hi, last, depth).len() ==> (#[trigger] sweep(
                d,
                lo,
                hi,
                last,
                depth,
            )[i]).1 <= (#[trigger] sweep(d, lo, hi, last, depth)[j]).0,
    decreases d.len(),
{
    let s = sweep(d, lo, hi, last, depth);
    if d.len() > 0 {
        let k = clamped(d[0].0, lo, hi);
        let t = d.skip(1);
        let rest = sweep(t, lo, hi, k, depth + d[0].1);
        lemma_skip_ascending(d, lo, hi, last);
        lemma_sweep_ordered(t, lo, hi, k, depth + d[0].1);
        if depth <= 0 && k > last {
            assert(s[0] == (last, k));
            assert forall|i: int| 0 <= i < s.len() implies last <= (#[trigger] s[i]).0 < s[i].1
                <= hi by {
                if i > 0 {
                    assert(s[i] == rest[i - 1]);
                }
            }
            assert forall|i: int, j: int| 0 <= i < j < s.len() implies (#[trigger] s[i]).1 <= (
            #[trigger] s[j]).0 by {
                assert(s[j] == rest[j - 1]);
                if i > 0 {
                    assert(s[i] == rest[i - 1]);
                }
            }
        } else {
            assert forall|i: int| 0 <= i < s.len() implies last <= (#[trigger] s[i]).0 < s[i].1
                <= hi by {
                assert(s[i] == rest[i]);
            }
        }
    }
}

/// What a walk over ascending counters that has arrived at `last` knows of
/// the counters after the first.
proof fn lemma_skip_ascending(d: Seq<(int, int)>, lo: int, hi: int, last: int)
    requires
        ascending(d),
        d.len() > 0,
        lo <= last <= hi,
        forall|i: int| 0 <= i < d.len() ==> last == lo || (#[trigger] d[i]).0 >= last,
    ensures
        ascending(d.skip(1)),
        last <= clamped(d[0].0, lo, hi) <= hi,
        forall|i: int|
            0 <= i < d.skip(1).len() ==> clamped(d[0].0, lo, hi) == lo || (#[trigger] d.skip(
                1,
            )[i]).0 >= clamped(d[0].0, lo, hi),
{
    let t = d.skip(1);
    let k = clamped(d[0].0, lo, hi);
    assert forall|i: int, j: int| 0 <= i < j < t.len() implies (#[trigger] t[i]).0 < (
    #[trigger] t[j]).0 by {
        assert(t[i] == d[i + 1]);
        assert(t[j] == d[j + 1]);
    }
    assert forall|i: int| 0 <= i < t.len() implies k == lo || (#[trigger] t[i]).0 >= k by {
        assert(t[i] == d[i + 1]);
        assert(d[0].0 < d[i + 1].0);
    }
    assert(last == lo || d[0].0 >= last);
}

/// A point of the window at or after the place a sweep started from is
/// covered by the sweep exactly where the running sum, with the counters
/// up to the point added, is not positive.
proof fn lemma_sweep_covers(d: Seq<(int, int)>, lo: int, hi: int, last: int, depth: int, x: int)
    requires
        ascending(d),
        lo <= last <= hi,
        last <= x < hi,
        forall|i: int| 0 <= i < d.len() ==> last == lo || (#[trigger] d[i]).0 >= last,
    ensures
        covered(sweep(d, lo, hi, last, depth), x) <==> depth + sum_upto(d, x) <= 0,
    decreases d.len(),
{
    let s = sweep(d, lo, hi, last, depth);
    if d.len() == 0 {
        if depth <= 0 {
            assert(s[0].0 <= x < s[0].1);
        }
    } else {
        let k0 = d[0].0;
        let k = clamped(k0, lo, hi);
        let t = d.skip(1);
        let rest = sweep(t, lo, hi, k, depth + d[0].1);
        lemma_skip_ascending(d, lo, hi, last);
        lemma_sweep_ordered(t, lo, hi, k, depth + d[0].1);
        if x < k {
            // No counter is kept at or below `x`.
            assert(k0 > x);
            assert forall|i: int| 0 <= i < d.len() implies (#[trigger] d[i]).0 > x by {
                if i > 0 {
                    assert(d[0].0 < d[i].0);
                }
            }
            lemma_sum_upto_above(d, x);
            if depth <= 0 {
                assert(s[0] == (last, k));
                assert(s[0].0 <= x < s[0].1);
            } else {
                assert(s == rest);
                if covered(s, x) {
                    let i = choose|i: int| 0 <= i < s.len() && (#[trigger] s[i]).0 <= x < s[i].1;
                    assert(k <= rest[i].0);
                }
            }
        } else {
            lemma_sweep_covers(t, lo, hi, k, depth + d[0].1, x);
            assert(k0 <= x);
            if depth <= 0 && k > last {
                assert(s == seq![(last, k)] + rest);
                if covered(rest, x) {
                    let i = choose|i: int|
                        0 <= i < rest.len() && (#[trigger] rest[i]).0 <= x < rest[i].1;
                    assert(s[i + 1] == rest[i]);
                }
                if covered(s, x) {
                    let i = choose|i: int| 0 <= i < s.len() && (#[trigger] s[i]).0 <= x < s[i].1;
                    assert(i > 0);
                    assert(s[i] == rest[i - 1]);
                }
            } else {
                assert(s == rest);
            }
        }
    }
}

/// Two walks over counters with the same keys emit the same ranges where
/// their running sums are positive at the same places.
proof fn lemma_sweep_same_signs(
    d1: Seq<(int, int)>,
    d2: Seq<(int, int)>,
    lo: int,
    hi: int,
    last: int,
    depth1: int,
    depth2: int,
)
    requires
        d1.len() == d2.len(),
        forall|i: int| 0 <= i < d1.len() ==> (#[trigger] d1[i]).0 == d2[i].0,
        forall|n: int|
            0 <= n <= d1.len() ==> ((depth1 + #[trigger] sum_first(d1, n) <= 0) <==> (depth2
                + sum_first(d2, n) <= 0)),
    ensures
        sweep(d1, lo, hi, last, depth1) == sweep(d2, lo, hi, last, depth2),
    decreases d1.len(),
{
    assert(sum_first(d1, 0) == 0);
    assert(sum_first(d2, 0) == 0);
    if d1.len() > 0 {
        let t1 = d1.skip(1);
        let t2 = d2.skip(1);
        let k = clamped(d1[0].0, lo, hi);
        assert forall|i: int| 0 <= i < t1.len() implies (#[trigger] t1[i]).0 == t2[i].0 by {
            assert(t1[i] == d1[i + 1]);
            assert(t2[i] == d2[i + 1]);
        }
        assert forall|n: int| 0 <= n <= t1.len() implies ((depth1 + d1[0].1 + #[trigger] sum_first(
            t1,
            n,
        ) <= 0) <==> (depth2 + d2[0].1 + sum_first(t2, n) <= 0)) by {
            assert(sum_first(d1, n + 1) == d1[0].1 + sum_first(t1, n));
            assert(sum_first(d2, n + 1) == d2[0].1 + sum_first(t2, n));
        }
        lemma_sweep_same_signs(t1, t2, lo, hi, k, depth1 + d1[0].1, depth2 + d2[0].1);
    }
}

/// Adding to a counter that exists keeps the keys and changes the sums of
/// the first `n` counters from that counter on.
proof fn lemma_bump_present(d: Seq<(int, int)>, k: int, by: int, at: int)
    requires
        ascending(d),
        0 <= at < d.len(),
        d[at].0 == k,
    ensures
        bump(d, k, by) == d.update(at, (k, d[at].1 + by)),
        forall|n: int|
            0 <= n <= d.len() ==> #[trigger] sum_first(d.update(at, (k, d[at].1 + by)), n)
                == sum_first(d, n) + (if n > at {
                by
            } else {
                0int
            }),
{
    assert forall|j: int| 0 <= j < at implies (#[trigger] d[j]).0 < k by {}
    lemma_bump_at(d, k, by, at);
    let u = d.update(at, (k, d[at].1 + by));
    assert forall|n: int| 0 <= n <= d.len() implies #[trigger] sum_first(u, n) == sum_first(d, n)
        + (if n > at {
        by
    } else {
        0int
    }) by {
        lemma_sum_first_update(d, at, (k, d[at].1 + by), n);
    }
}

proof fn lemma_sum_first_update(d: Seq<(int, int)>, at: int, e: (int, int), n: int)
    requires
        0 <= at < d.len(),
        0 <= n <= d.len(),
    ensures
        sum_first(d.update(at, e), n) == sum_first(d, n) + (if n > at {
            e.1 - d[at].1
        } else {
            0int
        }),
    decreases n,
{
    let u = d.update(at, e);
    if n > 0 {
        if at == 0 {
            assert(u.skip(1) =~= d.skip(1));
        } else {
            assert(u.skip(1) =~= d.skip(1).update(at - 1, e));
            lemma_sum_first_update(d.skip(1), at - 1, e, n - 1);
        }
    }
}

/// After `bump`, a counter is kept at `k`.
proof fn lemma_bump_has_key(d: Seq<(int, int)>, k: int, by: int)
    ensures
        exists|i: int| 0 <= i < bump(d, k, by).len() && (#[trigger] bump(d, k, by)[i]).0 == k,
    decreases d.len(),
{
    let b = bump(d, k, by);
    if d.len() == 0 {
        assert(b[0].0 == k);
    } else if d[0].0 == k {
        assert(b[0].0 == k);
    } else if k < d[0].0 {
        assert(b[0].0 == k);
    } else {
        lemma_bump_has_key(d.skip(1), k, by);
        let bt = bump(d.skip(1), k, by);
        let i = choose|i: int| 0 <= i < bt.len() && (#[trigger] bt[i]).0 == k;
        assert(b[i + 1] == bt[i]);
    }
}

/// `bump` keeps the keys that were there.
proof fn lemma_bump_keeps_key(d: Seq<(int, int)>, k: int, by: int, key: int)
    requires
        exists|i: int| 0 <= i < d.len() && (#[trigger] d[i]).0 == key,
    ensures
        exists|i: int| 0 <= i < bump(d, k, by).len() && (#[trigger] bump(d, k, by)[i]).0 == key,
    decreases d.len(),
{
    let b = bump(d, k, by);
    let w = choose|i: int| 0 <= i < d.len() && (#[trigger] d[i]).0 == key;
    if d[0].0 == k {
        if w == 0 {
            assert(b[0].0 == key);
        } else {
            assert(b[w] == d[w]);
        }
    } else if k < d[0].0 {
        assert(b[w + 1] == d[w]);
    } else {
        if w == 0 {
            assert(b[0] == d[0]);
        } else {
            let t = d.skip(1);
            assert(t[w - 1].0 == key);
            lemma_bump_keeps_key(t, k, by, key);
            let bt = bump(t, k, by);
            let i = choose|i: int| 0 <= i < bt.len() && (#[trigger] bt[i]).0 == key;
            assert(b[i + 1] == bt[i]);
        }
    }
}

/// Where every chunk is well formed, no depth is negative.
proof fn lemma_depth_nonnegative(chunks: Seq<(int, int)>, x: int)
    requires
        well_formed(chunks),
    ensures
        depth_at(chunks, x) >= 0,
    decreases chunks.len(),
{
    if chunks.len() > 0 {
        let p = chunks.drop_last();
        assert forall|i: int| 0 <= i < p.len() implies (#[trigger] p[i]).0 <= p[i].1 by {
            assert(p[i] == chunks[i]);
        }
        lemma_depth_nonnegative(p, x);
        assert(chunks.last() == chunks[chunks.len() - 1]);
    }
}

/// A positive depth at `x` comes from a chunk that holds `x`.
proof fn lemma_depth_positive_reserved(chunks: Seq<(int, int)>, x: int)
    requires
        depth_at(chunks, x) > 0,
    ensures
        reserved(chunks, x),
    decreases chunks.len(),
{
    if chunks.len() > 0 {
        let p = chunks.drop_last();
        let c = chunks.last();
        if c.0 <= x < c.1 {
            assert(chunks[chunks.len() - 1] == c);
        } else {
            lemma_depth_positive_reserved(p, x);
            let i = choose|i: int| 0 <= i < p.len() && (#[trigger] p[i]).0 <= x < p[i].1;
            assert(chunks[i] == p[i]);
        }
    }
}

/// Among well formed chunks, a chunk that holds `x` makes the depth at `x`
/// positive.
proof fn lemma_reserved_depth_positive(chunks: Seq<(int, int)>, x: int)
    requires
        well_formed(chunks),
        reserved(chunks, x),
    ensures
        depth_at(chunks, x) > 0,
    decreases chunks.len(),
{
    let w = choose|i: int| 0 <= i < chunks.len() && (#[trigger] chunks[i]).0 <= x < chunks[i].1;
    let p = chunks.drop_last();
    let c = chunks.last();
    assert(c == chunks[chunks.len() - 1]);
    assert forall|i: int| 0 <= i < p.len() implies (#[trigger] p[i]).0 <= p[i].1 by {
        assert(p[i] == chunks[i]);
    }
    lemma_depth_nonnegative(p, x);
    if w < chunks.len() - 1 {
        assert(p[w] == chunks[w]);
        lemma_reserved_depth_positive(p, x);
    }
}

/// `x` lies in one of the chunks, each taken without its end.
pub open spec fn reserved(chunks: Seq<(int, int)>, x: int) -> bool {
    exists|i: int| 0 <= i < chunks.len() && (#[trigger] chunks[i]).0 <= x < chunks[i].1
}

/// The free ranges lie in the window, none is empty, each ends where the
/// next starts or before, and every point of the window lies in a free
/// range or in a reserved chunk. A point of a free range is one at which no
/// more chunks have begun than have ended; among chunks none of which ends
/// before it starts, no free range meets a chunk.
pub proof fn lemma_free_ranges_partition(chunks: Seq<(int, int)>, lo: int, hi: int)
    ensures
        forall|i: int|
            0 <= i < free_ranges(chunks, lo, hi).len() ==> lo <= (#[trigger] free_ranges(
                chunks,
                lo,
                hi,
            )[i]).0 < free_ranges(chunks, lo, hi)[i].1 <= hi,
        forall|i: int, j: int|
            0 <= i < j < free_ranges(chunks, lo, hi).len() ==> (#[trigger] free_ranges(
                chunks,
                lo,
                hi,
            )[i]).1 <= (#[trigger] free_ranges(chunks, lo, hi)[j]).0,
        forall|x: int|
            lo <= x < hi ==> (#[trigger] covered(free_ranges(chunks, lo, hi), x) <==> depth_at(
                chunks,
                x,
            ) <= 0),
        forall|x: int|
            lo <= x < hi ==> #[trigger] covered(free_ranges(chunks, lo, hi), x) || reserved(
                chunks,
                x,
            ),
        well_formed(chunks) ==> forall|x: int|
            lo <= x < hi ==> !(#[trigger] covered(free_ranges(chunks, lo, hi), x) && reserved(
                chunks,
                x,
            )),
{
    let g = free_ranges(chunks, lo, hi);
    if lo <= hi {
        let d = counters_of(chunks);
        lemma_counters_ascending(chunks);
        lemma_sweep_ordered(d, lo, hi, lo, 0);
        assert forall|x: int| lo <= x < hi implies (#[trigger] covered(g, x) <==> depth_at(
            chunks,
            x,
        ) <= 0) by {
            lemma_sweep_covers(d, lo, hi, lo, 0, x);
            lemma_sum_upto_counters(chunks, x);
        }
        assert forall|x: int| lo <= x < hi implies #[trigger] covered(g, x) || reserved(
            chunks,
            x,
        ) by {
            if depth_at(chunks, x) > 0 {
                lemma_depth_positive_reserved(chunks, x);
            }
        }
        if well_formed(chunks) {
            assert forall|x: int| lo <= x < hi implies !(#[trigger] covered(g, x) && reserved(
                chunks,
                x,
            )) by {
                if reserved(chunks, x) {
                    lemma_reserved_depth_positive(chunks, x);
                }
            }
        }
    }
}

/// Every free range that a walk emits begins where the walk had arrived
/// or at a counter, moved into the window.
proof fn lemma_sweep_starts(d: Seq<(int, int)>, lo: int, hi: int, last: int, depth: int)
    ensures
        forall|i: int|
            0 <= i < sweep(d, lo, hi, last, depth).len() ==> (#[trigger] sweep(
                d,
                lo,
                hi,
                last,
                depth,
            )[i]).0 == last || exists|j: int|
                0 <= j < d.len() && clamped((#[trigger] d[j]).0, lo, hi) == sweep(
                    d,
                    lo,
                    hi,
                    last,
                    depth,
                )[i].0,
    decreases d.len(),
{
    if d.len() > 0 {
        let k = clamped(d[0].0, lo, hi);
        let t = d.skip(1);
        let rest = sweep(t, lo, hi, k, depth + d[0].1);
        let g = sweep(d, lo, hi, last, depth);
        lemma_sweep_starts(t, lo, hi, k, depth + d[0].1);
        assert forall|i: int| 0 <= i < g.len() implies (#[trigger] g[i]).0 == last || exists|j: int|
            0 <= j < d.len() && clamped((#[trigger] d[j]).0, lo, hi) == g[i].0 by {
            let shift: int = if depth <= 0 && k > last {
                1
            } else {
                0
            };
            if i >= shift {
                let r = rest[i - shift];
                assert(g[i] == r);
                if r.0 == k {
                    assert(clamped(d[0].0, lo, hi) == g[i].0);
                } else {
                    let j = choose|j: int|
                        0 <= j < t.len() && clamped((#[trigger] t[j]).0, lo, hi) == r.0;
                    assert(t[j] == d[j + 1]);
                    assert(clamped(d[j + 1].0, lo, hi) == g[i].0);
                }
            }
        }
    }
}

/// A counter is kept only where a chunk starts or ends.
proof fn lemma_counters_at_ends(chunks: Seq<(int, int)>)
    ensures
        forall|j: int|
            0 <= j < counters_of(chunks).len() ==> exists|c: int|
                0 <= c < chunks.len() && ((#[trigger] chunks[c]).0 == (#[trigger] counters_of(
                    chunks,
                )[j]).0 || chunks[c].1 == counters_of(chunks)[j].0),
    decreases chunks.len(),
{
    if chunks.len() > 0 {
        let p = chunks.drop_last();
        let c = chunks.last();
        let d0 = counters_of(p);
        let d1 = bump(d0, c.0, 1);
        let d2 = counters_of(chunks);
        lemma_counters_at_ends(p);
        lemma_counters_ascending(p);
        lemma_bump_ascending(d0, c.0, 1);
        lemma_bump_ascending(d1, c.1, -1);
        assert forall|j: int| 0 <= j < d2.len() implies exists|w: int|
            0 <= w < chunks.len() && ((#[trigger] chunks[w]).0 == (#[trigger] d2[j]).0
                || chunks[w].1 == d2[j].0) by {
            let key = d2[j].0;
            let n = chunks.len() - 1;
            assert(chunks[n] == c);
            if key == c.1 || key == c.0 {
                assert(chunks[n].0 == key || chunks[n].1 == key);
            } else {
                let a = choose|a: int| 0 <= a < d1.len() && (#[trigger] d1[a]).0 == d2[j].0;
                let b = choose|b: int| 0 <= b < d0.len() && (#[trigger] d0[b]).0 == d1[a].0;
                let w = choose|w: int|
                    0 <= w < p.len() && ((#[trigger] p[w]).0 == d0[b].0 || p[w].1 == d0[b].0);
                assert(chunks[w] == p[w]);
            }
        }
    }
}

/// Whether a chunk without a point is reserved at `k`.
pub open spec fn empty_at(chunks: Seq<(int, int)>, k: int) -> bool {
    exists|i: int| 0 <= i < chunks.len() && (#[trigger] chunks[i]).0 == k && chunks[i].1 == k
}

/// Among chunks none of which ends before it starts, the free ranges are
/// as long as they can be: a free range ends at the end of the window or
/// where a chunk holds the next point, it begins at the start of the
/// window or where a chunk holds the point before, and no free range
/// begins where another one ends. The one exception is a chunk without a
/// point, `k..k`: the free ranges on its two sides meet at `k`.
pub proof fn lemma_free_ranges_maximal(chunks: Seq<(int, int)>, lo: int, hi: int)
    requires
        well_formed(chunks),
    ensures
        forall|i: int, j: int|
            0 <= i < j < free_ranges(chunks, lo, hi).len() && (#[trigger] free_ranges(
                chunks,
                lo,
                hi,
            )[i]).1 == (#[trigger] free_ranges(chunks, lo, hi)[j]).0 ==> empty_at(
                chunks,
                free_ranges(chunks, lo, hi)[i].1,
            ),
        forall|i: int|
            0 <= i < free_ranges(chunks, lo, hi).len() && (#[trigger] free_ranges(
                chunks,
                lo,
                hi,
            )[i]).1 < hi ==> reserved(chunks, free_ranges(chunks, lo, hi)[i].1) || empty_at(
                chunks,
                free_ranges(chunks, lo, hi)[i].1,
            ),
        forall|i: int|
            0 <= i < free_ranges(chunks, lo, hi).len() && lo < (#[trigger] free_ranges(
                chunks,
                lo,
                hi,
            )[i]).0 ==> reserved(chunks, free_ranges(chunks, lo, hi)[i].0 - 1) || empty_at(
                chunks,
                free_ranges(chunks, lo, hi)[i].0,
            ),
{
    let g = free_ranges(chunks, lo, hi);
    if lo <= hi {
        let d = counters_of(chunks);
        lemma_free_ranges_partition(chunks, lo, hi);
        lemma_sweep_starts(d, lo, hi, lo, 0);
        lemma_counters_at_ends(chunks);
        assert forall|i: int, j: int| 0 <= i < j < g.len() && (#[trigger] g[i]).1 == (
        #[trigger] g[j]).0 implies empty_at(chunks, g[i].1) by {
            let k = g[i].1;
            assert(lo <= g[i].0 < k);
            assert(k < g[j].1 <= hi);
            assert(covered(g, k - 1)) by {
                assert(g[i].0 <= k - 1 < g[i].1);
            }
            assert(covered(g, k)) by {
                assert(g[j].0 <= k < g[j].1);
            }
            assert(!reserved(chunks, k - 1));
            assert(!reserved(chunks, k));
            let m = choose|m: int| 0 <= m < d.len() && clamped((#[trigger] d[m]).0, lo, hi) == g[j].0;
            assert(d[m].0 == k);
            let c = choose|c: int|
                0 <= c < chunks.len() && ((#[trigger] chunks[c]).0 == d[m].0 || chunks[c].1
                    == d[m].0);
            assert(chunks[c].0 <= chunks[c].1);
            if chunks[c].0 == k {
                if chunks[c].1 > k {
                    assert(chunks[c].0 <= k < chunks[c].1);
                    assert(reserved(chunks, k));
                }
            } else {
                if chunks[c].0 < k {
                    assert(chunks[c].0 <= k - 1 < chunks[c].1);
                    assert(reserved(chunks, k - 1));
                }
            }
            assert(chunks[c].0 == k && chunks[c].1 == k);
        }
        assert forall|i: int| 0 <= i < g.len() && (#[trigger] g[i]).1 < hi implies reserved(
            chunks,
            g[i].1,
        ) || empty_at(chunks, g[i].1) by {
            let e = g[i].1;
            assert(lo <= g[i].0 < e);
            if covered(g, e) {
                let j = choose|j: int| 0 <= j < g.len() && (#[trigger] g[j]).0 <= e < g[j].1;
                if j < i {
                    assert(g[j].1 <= g[i].0);
                } else if j > i {
                    assert(g[i].1 <= g[j].0);
                    assert(g[i].1 == g[j].0);
                }
            }
        }
        assert forall|i: int| 0 <= i < g.len() && lo < (#[trigger] g[i]).0 implies reserved(
            chunks,
            g[i].0 - 1,
        ) || empty_at(chunks, g[i].0) by {
            let x = g[i].0 - 1;
            assert(g[i].0 < g[i].1 <= hi);
            if covered(g, x) {
                let j = choose|j: int| 0 <= j < g.len() && (#[trigger] g[j]).0 <= x < g[j].1;
                if j > i {
                    assert(g[i].1 <= g[j].0);
                } else if j < i {
                    assert(g[j].1 <= g[i].0);
                    assert(g[j].1 == g[i].0);
                }
            }
        }
    }
}

/// Among chunks none of which ends before it starts, reserving a chunk a
/// second time leaves the free ranges of every window as they were.
pub proof fn lemma_reserve_idempotent(chunks: Seq<(int, int)>, c: (int, int), lo: int, hi: int)
    requires
        well_formed(chunks),
        c.0 <= c.1,
    ensures
        free_ranges(chunks.push(c).push(c), lo, hi) == free_ranges(chunks.push(c), lo, hi),
{
    if lo <= hi {
        let once = chunks.push(c);
        let twice = once.push(c);
        assert(twice.drop_last() == once);
        assert(once.drop_last() == chunks);
        assert(well_formed(once)) by {
            assert forall|i: int| 0 <= i < once.len() implies (#[trigger] once[i]).0 <= once[i].1 by {
                if i < chunks.len() {
                    assert(once[i] == chunks[i]);
                }
            }
        }
        let d1 = counters_of(once);
        let mid = bump(d1, c.0, 1);
        let d2 = counters_of(twice);
        assert(d2 == bump(mid, c.1, -1));
        lemma_counters_ascending(once);
        lemma_counters_ascending(twice);
        lemma_bump_ascending(d1, c.0, 1);
        // Both ends of `c` are keys of `d1` already.
        let d0 = counters_of(chunks);
        lemma_bump_has_key(d0, c.0, 1);
        lemma_bump_keeps_key(bump(d0, c.0, 1), c.1, -1, c.0);
        lemma_bump_has_key(bump(d0, c.0, 1), c.1, -1);
        let a = choose|i: int| 0 <= i < d1.len() && (#[trigger] d1[i]).0 == c.0;
        lemma_bump_present(d1, c.0, 1, a);
        lemma_bump_keeps_key(d1, c.0, 1, c.1);
        let b = choose|i: int| 0 <= i < mid.len() && (#[trigger] mid[i]).0 == c.1;
        lemma_bump_present(mid, c.1, -1, b);
        assert(d2.len() == d1.len());
        assert forall|i: int| 0 <= i < d1.len() implies (#[trigger] d1[i]).0 == d2[i].0 by {}
        assert forall|n: int| 0 <= n <= d1.len() implies ((0 + #[trigger] sum_first(d1, n) <= 0)
            <==> (0 + sum_first(d2, n) <= 0)) by {
            if n > 0 {
                let x = d1[n - 1].0;
                lemma_sum_first_upto(d1, n);
                lemma_sum_first_upto(d2, n);
                lemma_sum_upto_counters(once, x);
                lemma_sum_upto_counters(twice, x);
                lemma_depth_nonnegative(chunks, x);
            } else {
                assert(sum_first(d1, 0) == 0);
                assert(sum_first(d2, 0) == 0);
            }
        }
        lemma_sweep_same_signs(d1, d2, lo, hi, lo, 0, 0);
    }
}

/// The chunks as pairs of positions.
pub open spec fn positions<V: Point>(chunks: Seq<(V, V)>) -> Seq<(int, int)> {
    chunks.map_values(|c: (V, V)| (c.0.ordinal(), c.1.ordinal()))
}

/// The ranges as pairs of positions.
pub open spec fn range_positions<V: Point>(ranges: Seq<Range<V>>) -> Seq<(int, int)> {
    ranges.map_values(|r: Range<V>| (r.start.ordinal(), r.end.ordinal()))
}

/// The counters as pairs of a position and a sum.
pub open spec fn counter_positions<V: Point>(counters: Seq<(V, i32)>) -> Seq<(int, int)> {
    counters.map_values(|c: (V, i32)| (c.0.ordinal(), c.1 as int))
}

/// Finds the stretches of a window that no reserved chunk covers.
pub struct GapFinder<V> {
    reserved_chunks: Vec<(V, i32)>,
    count: u32,
    chunks: Ghost<Seq<(V, V)>>,
}

impl<V: Point> GapFinder<V> {
    /// The counters are those of the chunks reserved so far, of which there
    /// are no more than the finder takes.
    pub closed spec fn wf(&self) -> bool {
        &&& self.count as int == self.chunks@.len()
        &&& self.count <= MAX_CHUNKS
        &&& counter_positions(self.reserved_chunks@) == counters_of(positions(self.chunks@))
    }

    /// The chunks reserved so far, each as its start and its end, in the
    /// order in which they were reserved.
    pub closed spec fn reservations(&self) -> Seq<(V, V)> {
        self.chunks@
    }

    /// A finder with nothing reserved.
    pub fn new() -> (r: Self)
        ensures
            r.wf(),
            r.reservations() == Seq::<(V, V)>::empty(),
    {
        let r = GapFinder { reserved_chunks: Vec::new(), count: 0, chunks: Ghost(Seq::empty()) };
        proof {
            assert(counter_positions(r.reserved_chunks@) =~= Seq::<(int, int)>::empty());
            assert(positions(r.chunks@) =~= Seq::<(int, int)>::empty());
        }
        r
    }

    /// The number of chunks reserved so far.
    pub fn len(&self) -> (r: u32)
        requires
            self.wf(),
        ensures
            r as int == self.reservations().len(),
            r <= MAX_CHUNKS,
    {
        self.count
    }

    fn adjust(counters: &mut Vec<(V, i32)>, key: V, by: i32)
        requires
            ascending(counter_positions(old(counters)@)),
            by == 1 || by == -1,
            forall|i: int|
                0 <= i < old(counters)@.len() ==> i32::MIN < (#[trigger] old(counters)@[i]).1
                    < i32::MAX,
        ensures
            counter_positions(final(counters)@) == bump(
                counter_positions(old(counters)@),
                key.ordinal(),
                by as int,
            ),
    {
        let ghost before = counter_positions(counters@);
        let mut at: usize = 0;
        while at < counters.len() && counters[at].0.precedes(&key)
            invariant
                at <= counters.len(),
                counters@ == old(counters)@,
                forall|j: int| 0 <= j < at ==> (#[trigger] before[j]).0 < key.ordinal(),
                before == counter_positions(counters@),
            decreases counters.len() - at,
        {
            at += 1;
        }
        proof {
            lemma_bump_at(before, key.ordinal(), by as int, at as int);
        }
        if at < counters.len() && !key.precedes(&counters[at].0) {
            let sum: i32 = counters[at].1;
            counters.set(at, (key, sum + by));
            proof {
                assert(before[at as int].0 == key.ordinal());
                assert(counter_positions(counters@) =~= before.update(
                    at as int,
                    (key.ordinal(), before[at as int].1 + by),
                ));
            }
        } else {
            counters.insert(at, (key, by));
            proof {
                assert(counter_positions(counters@) =~= before.insert(
                    at as int,
                    (key.ordinal(), by as int),
                ));
            }
        }
    }

    /// Reserves the chunk from `chunk.start` up to `chunk.end`.
    pub fn reserve(&mut self, chunk: Range<V>)
        requires
            old(self).wf(),
            old(self).reservations().len() < MAX_CHUNKS,
        ensures
            final(self).wf(),
            final(self).reservations() == old(self).reservations().push((chunk.start, chunk.end)),
    {
        let ghost before = positions(self.chunks@);
        let ghost d0 = counters_of(before);
        proof {
            lemma_counters_ascending(before);
            Self::lemma_counters_small(before);
            assert forall|i: int| 0 <= i < self.reserved_chunks@.len() implies i32::MIN < (
            #[trigger] self.reserved_chunks@[i]).1 < i32::MAX by {
                assert(d0[i].1 == self.reserved_chunks@[i].1);
            }
        }
        Self::adjust(&mut self.reserved_chunks, chunk.start, 1);
        proof {
            lemma_bump_ascending(d0, chunk.start.ordinal(), 1);
            Self::lemma_bumped_small(d0, chunk.start.ordinal(), 1, 2 * before.len() as int);
            assert forall|i: int| 0 <= i < self.reserved_chunks@.len() implies i32::MIN < (
            #[trigger] self.reserved_chunks@[i]).1 < i32::MAX by {
                let b = bump(d0, chunk.start.ordinal(), 1);
                assert(b[i].1 == self.reserved_chunks@[i].1);
            }
        }
        Self::adjust(&mut self.reserved_chunks, chunk.end, -1);
        self.count = self.count + 1;
        self.chunks = Ghost(self.chunks@.push((chunk.start, chunk.end)));
        proof {
            let after = positions(self.chunks@);
            assert(after =~= before.push((chunk.start.ordinal(), chunk.end.ordinal())));
            assert(after.drop_last() =~= before);
        }
    }

    /// No counter of a finder is further from zero than twice the number of
    /// its chunks.
    proof fn lemma_counters_small(chunks: Seq<(int, int)>)
        ensures
            forall|i: int|
                0 <= i < counters_of(chunks).len() ==> -2 * chunks.len() <= (
                #[trigger] counters_of(chunks)[i]).1 <= 2 * chunks.len(),
        decreases chunks.len(),
    {
        if chunks.len() > 0 {
            let p = chunks.drop_last();
            let c = chunks.last();
            Self::lemma_counters_small(p);
            Self::lemma_bumped_small(counters_of(p), c.0, 1, 2 * p.len() as int);
            Self::lemma_bumped_small(bump(counters_of(p), c.0, 1), c.1, -1, 2 * p.len() as int + 1);
        }
    }

    proof fn lemma_bumped_small(d: Seq<(int, int)>, k: int, by: int, bound: int)
        requires
            by == 1 || by == -1,
            bound >= 0,
            forall|i: int| 0 <= i < d.len() ==> -bound <= (#[trigger] d[i]).1 <= bound,
        ensures
            forall|i: int|
                0 <= i < bump(d, k, by).len() ==> -bound - 1 <= (#[trigger] bump(d, k, by)[i]).1
                    <= bound + 1,
        decreases d.len(),
    {
        let b = bump(d, k, by);
        if d.len() == 0 {
        } else if d[0].0 == k {
            assert forall|i: int| 0 <= i < b.len() implies -bound - 1 <= (#[trigger] b[i]).1
                <= bound + 1 by {
                if i > 0 {
                    assert(b[i] == d[i]);
                } else {
                    assert(b[0].1 == d[0].1 + by);
                }
            }
        } else if k < d[0].0 {
            assert forall|i: int| 0 <= i < b.len() implies -bound - 1 <= (#[trigger] b[i]).1
                <= bound + 1 by {
                if i > 0 {
                    assert(b[i] == d[i - 1]);
                }
            }
        } else {
            let t = d.skip(1);
            assert forall|i: int| 0 <= i < t.len() implies -bound <= (#[trigger] t[i]).1
                <= bound by {
                assert(t[i] == d[i + 1]);
            }
            Self::lemma_bumped_small(t, k, by, bound);
            let bt = bump(t, k, by);
            assert forall|i: int| 0 <= i < b.len() implies -bound - 1 <= (#[trigger] b[i]).1
                <= bound + 1 by {
                if i > 0 {
                    assert(b[i] == bt[i - 1]);
                } else {
                    assert(b[0] == d[0]);
                }
            }
        }
    }

    /// The free ranges of the window from `window.start` up to
    /// `window.end`, in ascending order.
    pub fn gaps(&self, window: Range<V>) -> (r: Vec<Range<V>>)
        requires
            self.wf(),
        ensures
            range_positions(r@) == free_ranges(
                positions(self.reservations()),
                window.start.ordinal(),
                window.end.ordinal(),
            ),
    {
        let mut out: Vec<Range<V>> = Vec::new();
        let ghost lo = window.start.ordinal();
        let ghost hi = window.end.ordinal();
        let ghost chunks = positions(self.chunks@);
        let ghost d = counters_of(chunks);
        proof {
            assert(range_positions(out@) =~= Seq::<(int, int)>::empty());
        }
        if window.end.precedes(&window.start) {
            return out;
        }
        let mut last_key = window.start;
        let mut current_value: i32 = 0;
        let mut at: usize = 0;
        proof {
            assert(d.skip(0) =~= d);
            assert(sum_first(d, 0) == 0);
        }
        while at < self.reserved_chunks.len()
            invariant
                self.wf(),
                lo == window.start.ordinal(),
                hi == window.end.ordinal(),
                lo <= hi,
                chunks == positions(self.chunks@),
                d == counters_of(chunks),
                d == counter_positions(self.reserved_chunks@),
                at <= self.reserved_chunks.len(),
                current_value as int == sum_first(d, at as int),
                range_positions(out@) + sweep(
                    d.skip(at as int),
                    lo,
                    hi,
                    last_key.ordinal(),
                    current_value as int,
                ) == sweep(d, lo, hi, lo, 0),
            decreases self.reserved_chunks.len() - at,
        {
            let key = self.reserved_chunks[at].0;
            let increment = self.reserved_chunks[at].1;
            let current_key = if key.precedes(&window.start) {
                window.start
            } else if window.end.precedes(&key) {
                window.end
            } else {
                key
            };
            let ghost tail = d.skip(at as int);
            let ghost seen = range_positions(out@);
            proof {
                assert(tail[0] == d[at as int]);
                assert(tail.skip(1) =~= d.skip(at as int + 1));
                assert(current_key.ordinal() == clamped(tail[0].0, lo, hi));
                lemma_sum_first_step(d, at as int);
                lemma_sum_first_bounded(chunks, at as int + 1);
            }
            if current_value <= 0 && last_key.precedes(&current_key) {
                out.push(Range { start: last_key, end: current_key });
                proof {
                    assert(range_positions(out@) =~= seen + seq![
                        (last_key.ordinal(), current_key.ordinal()),
                    ]);
                    assert(range_positions(out@) + sweep(
                        d.skip(at as int + 1),
                        lo,
                        hi,
                        current_key.ordinal(),
                        current_value + increment,
                    ) =~= seen + sweep(tail, lo, hi, last_key.ordinal(), current_value as int));
                }
            }
            current_value = current_value + increment;
            last_key = current_key;
            at += 1;
        }
        proof {
            assert(d.skip(at as int) =~= Seq::<(int, int)>::empty());
        }
        let ghost seen = range_positions(out@);
        if current_value <= 0 && last_key.precedes(&window.end) {
            out.push(Range { start: last_key, end: window.end });
            proof {
                assert(range_positions(out@) =~= seen + seq![(last_key.ordinal(), hi)]);
            }
        } else {
            proof {
                assert(seen + Seq::<(int, int)>::empty() =~= seen);
            }
        }
        out
    }
}

impl GapFinder<Ipv4Addr> {
    /// Reserves the single address `ip`.
    pub fn reserve_ipv4(&mut self, ip: Ipv4Addr)
        requires
            old(self).wf(),
            old(self).reservations().len() < MAX_CHUNKS,
        ensures
            final(self).wf(),
            final(self).reservations() == old(self).reservations().push(
                (
                    Ipv4Addr(crate::ip::saturating_sub_v4(ip.0, 1)),
                    Ipv4Addr(crate::ip::saturating_add_v4(ip.0, 1)),
                ),
            ),
    {
        self.reserve(Range { start: ip.saturating_sub(1), end: ip.saturating_add(1) })
    }

    /// Reserves the addresses from `ip.start` to `ip.end`, both included.
    pub fn reserve_ipv4_range(&mut self, ip: Range<Ipv4Addr>)
        requires
            old(self).wf(),
            old(self).reservations().len() < MAX_CHUNKS,
        ensures
            final(self).wf(),
            final(self).reservations() == old(self).reservations().push(
                (
                    Ipv4Addr(crate::ip::saturating_sub_v4(ip.start.0, 1)),
                    Ipv4Addr(crate::ip::saturating_add_v4(ip.end.0, 1)),
                ),
            ),
    {
        self.reserve(Range { start: ip.start.saturating_sub(1), end: ip.end.saturating_add(1) })
    }

    /// Reserves every address of the network `net`.
    pub fn reserve_ipv4_net(&mut self, net: Ipv4Net)
        requires
            old(self).wf(),
            old(self).reservations().len() < MAX_CHUNKS,
        ensures
            final(self).wf(),
            final(self).reservations() == old(self).reservations().push(
                (
                    Ipv4Addr(crate::ip::saturating_sub_v4(net.spec_network().0, 1)),
                    Ipv4Addr(crate::ip::saturating_add_v4(net.spec_broadcast().0, 1)),
                ),
            ),
    {
        self.reserve_ipv4_range(Range { start: net.network(), end: net.broadcast() })
    }

    /// The free ranges among the host addresses of `net`: the window runs
    /// from the address after the network address to the address before the
    /// broadcast address.
    pub fn find_gaps_ipv4(&self, net: Ipv4Net) -> (r: Vec<Range<Ipv4Addr>>)
        requires
            self.wf(),
        ensures
            range_positions(r@) == free_ranges(
                positions(self.reservations()),
                crate::ip::saturating_add_v4(net.spec_network().0, 1) as int,
                crate::ip::saturating_sub_v4(net.spec_broadcast().0, 1) as int,
            ),
    {
        self.gaps(
            Range { start: net.network().saturating_add(1), end: net.broadcast().saturating_sub(1) },
        )
    }
}

impl GapFinder<Ipv6Addr> {
    /// Reserves the single address `ip`.
    pub fn reserve_ipv6(&mut self, ip: Ipv6Addr)
        requires
            old(self).wf(),
            old(self).reservations().len() < MAX_CHUNKS,
        ensures
            final(self).wf(),
            final(self).reservations() == old(self).reservations().push(
                (
                    Ipv6Addr(crate::ip::saturating_sub_v6(ip.0, 1)),
                    Ipv6Addr(crate::ip::saturating_add_v6(ip.0, 1)),
                ),
            ),
    {
        self.reserve(Range { start: ip.saturating_sub(1), end: ip.saturating_add(1) })
    }
}

impl GapFinder<IpAddr> {
    /// Reserves the single address `ip`.
    pub fn reserve_ip(&mut self, ip: IpAddr)
        requires
            old(self).wf(),
            old(self).reservations().len() < MAX_CHUNKS,
        ensures
            final(self).wf(),
            final(self).reservations() == old(self).reservations().push(
                match ip {
                    IpAddr::V4(a) => (
                        IpAddr::V4(Ipv4Addr(crate::ip::saturating_sub_v4(a.0, 1))),
                        IpAddr::V4(Ipv4Addr(crate::ip::saturating_add_v4(a.0, 1))),
                    ),
                    IpAddr::V6(a) => (
                        IpAddr::V6(Ipv6Addr(crate::ip::saturating_sub_v6(a.0, 1))),
                        IpAddr::V6(Ipv6Addr(crate::ip::saturating_add_v6(a.0, 1))),
                    ),
                },
            ),
    {
        let chunk = match ip {
            IpAddr::V4(a) => Range {
                start: IpAddr::V4(a.saturating_sub(1)),
                end: IpAddr::V4(a.saturating_add(1)),
            },
            IpAddr::V6(a) => Range {
                start: IpAddr::V6(a.saturating_sub(1)),
                end: IpAddr::V6(a.saturating_add(1)),
            },
        };
        self.reserve(chunk)
    }
}

} // verus!
