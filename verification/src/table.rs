//! Tables of entries that are found by their keys.
//!
//! A table is a list in which no two entries have the same key. An entry
//! that is added goes to the end, so the entries stay in the order in which
//! their keys were first seen.

use vstd::prelude::*;

verus! {

/// An entry of a table.
pub trait Keyed: View + Sized {
    /// What an entry is found by.
    type Key;

    /// The key of an entry.
    spec fn key(v: Self::V) -> Self::Key;

    /// Whether two entries have the same key.
    fn same_key(&self, other: &Self) -> (r: bool)
        ensures
            r == (Self::key(self@) == Self::key(other@)),
    ;
}

/// The entries as the specifications see them.
pub open spec fn entry_views<E: View>(entries: Seq<E>) -> Seq<E::V> {
    Seq::new(entries.len(), |i: int| entries[i]@)
}

/// The place of the first entry with the key `k`; the length of the list
/// where there is none.
pub open spec fn position<E: Keyed>(s: Seq<E::V>, k: E::Key) -> int
    decreases s.len(),
{
    if s.len() == 0 {
        0
    } else if E::key(s[0]) == k {
        0
    } else {
        1 + position::<E>(s.skip(1), k)
    }
}

/// Whether an entry has the key `k`.
pub open spec fn has_key<E: Keyed>(s: Seq<E::V>, k: E::Key) -> bool {
    position::<E>(s, k) < s.len()
}

/// The list with `fresh` added at the end where no entry has its key.
pub open spec fn ensured<E: Keyed>(s: Seq<E::V>, fresh: E::V) -> Seq<E::V> {
    if has_key::<E>(s, E::key(fresh)) {
        s
    } else {
        s.push(fresh)
    }
}

/// The list in which the entry with the key of `fresh`, which is `fresh`
/// itself where there was none, has been changed by `change`.
pub open spec fn amended<E: Keyed>(s: Seq<E::V>, fresh: E::V, change: spec_fn(E::V) -> E::V) -> Seq<
    E::V,
> {
    let e = ensured::<E>(s, fresh);
    let at = position::<E>(e, E::key(fresh));
    e.update(at, change(e[at]))
}

/// The list in which `entry` stands in the place of the entry with its
/// key, or at the end where there was none.
pub open spec fn replaced<E: Keyed>(s: Seq<E::V>, entry: E::V) -> Seq<E::V> {
    let at = position::<E>(s, E::key(entry));
    if at < s.len() {
        s.update(at, entry)
    } else {
        s.push(entry)
    }
}

/// The place that `position` names is in the list or at its end, no entry
/// before it has the key, and the entry at it has.
pub proof fn lemma_position<E: Keyed>(s: Seq<E::V>, k: E::Key)
    ensures
        0 <= position::<E>(s, k) <= s.len(),
        forall|j: int| 0 <= j < position::<E>(s, k) ==> E::key(#[trigger] s[j]) != k,
        position::<E>(s, k) < s.len() ==> E::key(s[position::<E>(s, k)]) == k,
    decreases s.len(),
{
    if s.len() > 0 && E::key(s[0]) != k {
        let t = s.skip(1);
        lemma_position::<E>(t, k);
        assert forall|j: int| 0 <= j < position::<E>(s, k) implies E::key(#[trigger] s[j])
            != k by {
            if j > 0 {
                assert(t[j - 1] == s[j]);
            }
        }
        if position::<E>(s, k) < s.len() {
            assert(t[position::<E>(t, k)] == s[position::<E>(s, k)]);
        }
    }
}

/// A place before which no entry has the key, and at which the list ends
/// or an entry has the key, is the place that `position` names.
pub proof fn lemma_position_is<E: Keyed>(s: Seq<E::V>, k: E::Key, at: int)
    requires
        0 <= at <= s.len(),
        forall|j: int| 0 <= j < at ==> E::key(#[trigger] s[j]) != k,
        at < s.len() ==> E::key(s[at]) == k,
    ensures
        position::<E>(s, k) == at,
    decreases at,
{
    if at > 0 {
        let t = s.skip(1);
        assert(E::key(s[0]) != k);
        assert forall|j: int| 0 <= j < at - 1 implies E::key(#[trigger] t[j]) != k by {
            assert(t[j] == s[j + 1]);
        }
        if at < s.len() {
            assert(t[at - 1] == s[at]);
        }
        lemma_position_is::<E>(t, k, at - 1);
    }
}

/// The place of the first entry with the key of `probe`; the length of the
/// table where there is none.
pub fn find<E: Keyed>(table: &Vec<E>, probe: &E) -> (r: usize)
    ensures
        r == position::<E>(entry_views(table@), E::key(probe@)),
        r <= table@.len(),
{
    let mut at: usize = 0;
    while at < table.len()
        invariant
            at <= table.len(),
            forall|j: int| 0 <= j < at ==> E::key(#[trigger] entry_views(table@)[j]) != E::key(probe@),
        decreases table.len() - at,
    {
        if table[at].same_key(probe) {
            proof {
                assert(entry_views(table@)[at as int] == table@[at as int]@);
                lemma_position_is::<E>(entry_views(table@), E::key(probe@), at as int);
            }
            return at;
        }
        proof {
            assert(entry_views(table@)[at as int] == table@[at as int]@);
        }
        at += 1;
    }
    proof {
        lemma_position_is::<E>(entry_views(table@), E::key(probe@), at as int);
    }
    at
}

/// Adds `fresh` at the end of the table where no entry has its key, and
/// says where the entry with that key is.
pub fn ensure<E: Keyed>(table: &mut Vec<E>, fresh: E) -> (r: usize)
    ensures
        entry_views(final(table)@) == ensured::<E>(entry_views(old(table)@), fresh@),
        r == position::<E>(entry_views(final(table)@), E::key(fresh@)),
        r < final(table)@.len(),
        final(table)@.len() >= old(table)@.len(),
        r < old(table)@.len() ==> final(table)@ == old(table)@,
        r >= old(table)@.len() ==> final(table)@ == old(table)@.push(fresh),
{
    let at = find(table, &fresh);
    let ghost before = entry_views(table@);
    if at == table.len() {
        table.push(fresh);
        proof {
            assert(entry_views(table@) =~= before.push(fresh@));
            lemma_position::<E>(before, E::key(fresh@));
            assert forall|j: int| 0 <= j < at implies E::key(#[trigger] entry_views(table@)[j])
                != E::key(fresh@) by {
                assert(entry_views(table@)[j] == before[j]);
            }
            lemma_position_is::<E>(entry_views(table@), E::key(fresh@), at as int);
        }
    }
    at
}

/// Puts `entry` in the place of the entry with its key, or at the end of
/// the table where there is none.
pub fn replace<E: Keyed>(table: &mut Vec<E>, entry: E)
    ensures
        entry_views(final(table)@) == replaced::<E>(entry_views(old(table)@), entry@),
{
    let at = find(table, &entry);
    let ghost before = entry_views(table@);
    if at == table.len() {
        table.push(entry);
        proof {
            assert(entry_views(table@) =~= before.push(entry@));
        }
    } else {
        table.set(at, entry);
        proof {
            assert(entry_views(table@) =~= before.update(at as int, entry@));
        }
    }
}

/// Puts `entry` in the place `at`.
pub fn put<E: View>(table: &mut Vec<E>, at: usize, entry: E)
    requires
        at < old(table)@.len(),
    ensures
        entry_views(final(table)@) == entry_views(old(table)@).update(at as int, entry@),
        final(table)@.len() == old(table)@.len(),
{
    let ghost before = entry_views(table@);
    table.set(at, entry);
    proof {
        assert(entry_views(table@) =~= before.update(at as int, entry@));
    }
}

/// Whether no two entries have the same key.
pub open spec fn unique_keys<E: Keyed>(s: Seq<E::V>) -> bool {
    forall|i: int, j: int| 0 <= i < j < s.len() ==> E::key(#[trigger] s[i]) != E::key(#[trigger] s[j])
}

/// A table stays a table: with an entry ensured, amended by a change that
/// keeps the key, or replaced, still no two entries have the same key.
pub proof fn lemma_unique_keys<E: Keyed>(s: Seq<E::V>, fresh: E::V, change: spec_fn(E::V) -> E::V)
    requires
        unique_keys::<E>(s),
    ensures
        unique_keys::<E>(ensured::<E>(s, fresh)),
        unique_keys::<E>(replaced::<E>(s, fresh)),
        (forall|v: E::V| E::key(#[trigger] change(v)) == E::key(v)) ==> unique_keys::<E>(
            amended::<E>(s, fresh, change),
        ),
{
    let k = E::key(fresh);
    lemma_position::<E>(s, k);
    let e = ensured::<E>(s, fresh);
    assert(unique_keys::<E>(e)) by {
        assert forall|i: int, j: int| 0 <= i < j < e.len() implies E::key(#[trigger] e[i])
            != E::key(#[trigger] e[j]) by {
            if j < s.len() {
                assert(e[i] == s[i] && e[j] == s[j]);
            } else {
                assert(e[i] == s[i]);
            }
        }
    }
    let r = replaced::<E>(s, fresh);
    assert forall|i: int, j: int| 0 <= i < j < r.len() implies E::key(#[trigger] r[i]) != E::key(
        #[trigger] r[j],
    ) by {
        let at = position::<E>(s, k);
        if at < s.len() {
            assert(E::key(r[at]) == E::key(s[at]));
            assert(E::key(r[i]) == E::key(s[i]));
            assert(E::key(r[j]) == E::key(s[j]));
        } else if j < s.len() {
            assert(r[i] == s[i] && r[j] == s[j]);
        } else {
            assert(r[i] == s[i]);
        }
    }
    if forall|v: E::V| E::key(#[trigger] change(v)) == E::key(v) {
        lemma_position::<E>(e, k);
        if !has_key::<E>(s, k) {
            assert forall|j: int| 0 <= j < s.len() implies E::key(#[trigger] e[j]) != k by {
                assert(e[j] == s[j]);
            }
            lemma_position_is::<E>(e, k, s.len() as int);
        }
        let at = position::<E>(e, k);
        let a = amended::<E>(s, fresh, change);
        assert forall|i: int, j: int| 0 <= i < j < a.len() implies E::key(#[trigger] a[i])
            != E::key(#[trigger] a[j]) by {
            assert(at < e.len());
            assert(a == e.update(at, change(e[at])));
            assert(E::key(change(e[at])) == E::key(e[at]));
            if i == at {
                assert(a[i] == change(e[at]));
            } else {
                assert(a[i] == e[i]);
            }
            if j == at {
                assert(a[j] == change(e[at]));
            } else {
                assert(a[j] == e[j]);
            }
            assert(E::key(e[i]) != E::key(e[j]));
        }
    }
}

} // verus!
