//! Small specification helpers shared by the simulation stages:
//! first-minimum selection over a sequence of keys, counting set flags,
//! and dropping flagged elements from a sequence.

use vstd::prelude::*;

verus! {

/// Index of the first occurrence of the minimum of `keys`, scanning left
/// to right from position `k` with `best` the index of the least key seen
/// so far (earlier keys win ties).
pub open spec fn first_min_from(keys: Seq<int>, k: int, best: int) -> int
    decreases keys.len() - k,
{
    if k < 0 || k >= keys.len() {
        best
    } else {
        first_min_from(keys, k + 1, if keys[k] < keys[best] { k } else { best })
    }
}

/// Index of the first occurrence of the minimum of a non-empty `keys`.
pub open spec fn first_min_idx(keys: Seq<int>) -> int {
    first_min_from(keys, 1, 0)
}

pub proof fn lemma_first_min_from(keys: Seq<int>, k: int, best: int)
    requires
        0 <= best < keys.len(),
        0 <= k <= keys.len(),
    ensures
        0 <= first_min_from(keys, k, best) < keys.len(),
        keys[first_min_from(keys, k, best)] <= keys[best],
        forall|j: int| k <= j < keys.len() ==> keys[first_min_from(keys, k, best)] <= #[trigger] keys[j],
    decreases keys.len() - k,
{
    if k < keys.len() {
        let nb = if keys[k] < keys[best] {
            k
        } else {
            best
        };
        lemma_first_min_from(keys, k + 1, nb);
    }
}

pub proof fn lemma_first_min_idx(keys: Seq<int>)
    requires
        keys.len() > 0,
    ensures
        0 <= first_min_idx(keys) < keys.len(),
        forall|j: int| 0 <= j < keys.len() ==> keys[first_min_idx(keys)] <= #[trigger] keys[j],
{
    lemma_first_min_from(keys, 1, 0);
}

/// The indices among `0 .. n` whose entry in `ps` equals `p`, ascending.
pub open spec fn group_upto(ps: Seq<crate::Position>, p: crate::Position, n: int) -> Seq<usize>
    decreases n,
{
    if n <= 0 {
        Seq::empty()
    } else if ps[n - 1] == p {
        group_upto(ps, p, n - 1).push((n - 1) as usize)
    } else {
        group_upto(ps, p, n - 1)
    }
}

/// The indices whose entry in `ps` equals `p`, ascending.
pub open spec fn group_of(ps: Seq<crate::Position>, p: crate::Position) -> Seq<usize> {
    group_upto(ps, p, ps.len() as int)
}

pub proof fn lemma_group_upto(ps: Seq<crate::Position>, p: crate::Position, n: int)
    requires
        0 <= n <= ps.len(),
        ps.len() <= usize::MAX,
    ensures
        forall|t: int|
            0 <= t < group_upto(ps, p, n).len() ==> 0 <= #[trigger] group_upto(ps, p, n)[t] < n
                && ps[group_upto(ps, p, n)[t] as int] == p,
        forall|t1: int, t2: int|
            0 <= t1 < t2 < group_upto(ps, p, n).len() ==> group_upto(ps, p, n)[t1] < group_upto(
                ps,
                p,
                n,
            )[t2],
        forall|k: int|
            0 <= k < n && ps[k] == p ==> group_upto(ps, p, n).contains(k as usize),
        group_upto(ps, p, n).no_duplicates(),
    decreases n,
{
    if n > 0 {
        lemma_group_upto(ps, p, n - 1);
        let g = group_upto(ps, p, n);
        let gd = group_upto(ps, p, n - 1);
        if ps[n - 1] == p {
            assert forall|k: int| 0 <= k < n && ps[k] == p implies g.contains(k as usize) by {
                if k < n - 1 {
                    let t = choose|t: int| 0 <= t < gd.len() && gd[t] == k as usize;
                    assert(g[t] == k as usize);
                } else {
                    assert(g[g.len() - 1] == (n - 1) as usize);
                }
            }
        }
        assert forall|t1: int, t2: int| 0 <= t1 < t2 < g.len() implies g[t1] < g[t2] by {
            if ps[n - 1] == p {
                if t2 == g.len() - 1 {
                    assert(g[t1] == gd[t1]);
                    assert(gd[t1] < n - 1);
                    assert(g[t2] == (n - 1) as usize);
                } else {
                    assert(g[t1] == gd[t1] && g[t2] == gd[t2]);
                    assert(gd[t1] < gd[t2]);
                }
            } else {
                assert(g[t1] == gd[t1] && g[t2] == gd[t2]);
                assert(gd[t1] < gd[t2]);
            }
        }
        assert forall|t1: int, t2: int|
            0 <= t1 < group_upto(ps, p, n).len() && 0 <= t2 < group_upto(ps, p, n).len() && t1
                != t2 implies g[t1] != g[t2] by {
            if t1 < t2 {
                assert(g[t1] < g[t2]);
            } else {
                assert(g[t2] < g[t1]);
            }
        }
    }
}

/// Removing an element keeps a duplicate-free sequence duplicate-free,
/// and every remaining element was already there.
pub proof fn lemma_remove_keeps<A>(s: Seq<A>, m: int)
    requires
        0 <= m < s.len(),
        s.no_duplicates(),
    ensures
        s.remove(m).no_duplicates(),
        forall|t: int| 0 <= t < s.remove(m).len() ==> s.contains(#[trigger] s.remove(m)[t]),
{
    let r = s.remove(m);
    assert forall|t: int| 0 <= t < r.len() implies s.contains(#[trigger] r[t]) by {
        if t < m {
            assert(r[t] == s[t]);
        } else {
            assert(r[t] == s[t + 1]);
        }
    }
    assert forall|t1: int, t2: int|
        0 <= t1 < r.len() && 0 <= t2 < r.len() && t1 != t2 implies r[t1] != r[t2] by {
        let u1 = if t1 < m {
            t1
        } else {
            t1 + 1
        };
        let u2 = if t2 < m {
            t2
        } else {
            t2 + 1
        };
        assert(r[t1] == s[u1] && r[t2] == s[u2]);
    }
}

/// Number of `true` entries in a sequence of flags.
pub open spec fn count_true(s: Seq<bool>) -> int
    decreases s.len(),
{
    if s.len() == 0 {
        0
    } else {
        count_true(s.drop_last()) + if s.last() {
            1int
        } else {
            0int
        }
    }
}

pub proof fn lemma_count_true_bounds(s: Seq<bool>)
    ensures
        0 <= count_true(s) <= s.len(),
    decreases s.len(),
{
    if s.len() > 0 {
        lemma_count_true_bounds(s.drop_last());
    }
}

/// Setting a flag that was `false` raises the count by one.
pub proof fn lemma_count_true_set(s: Seq<bool>, i: int)
    requires
        0 <= i < s.len(),
        !s[i],
    ensures
        count_true(s.update(i, true)) == count_true(s) + 1,
    decreases s.len(),
{
    let t = s.update(i, true);
    if i == s.len() - 1 {
        assert(t.drop_last() =~= s.drop_last());
    } else {
        assert(t.drop_last() =~= s.drop_last().update(i, true));
        lemma_count_true_set(s.drop_last(), i);
    }
}

/// Counting set flags distributes over concatenation.
pub proof fn lemma_count_true_add(a: Seq<bool>, b: Seq<bool>)
    ensures
        count_true(a + b) == count_true(a) + count_true(b),
    decreases b.len(),
{
    if b.len() == 0 {
        assert(a + b =~= a);
    } else {
        assert((a + b).drop_last() =~= a + b.drop_last());
        lemma_count_true_add(a, b.drop_last());
    }
}

/// The elements of `s` whose flag in `f` is not set, in order.
pub open spec fn keep_unflagged<A>(s: Seq<A>, f: Seq<bool>) -> Seq<A>
    decreases s.len(),
{
    if s.len() == 0 {
        Seq::empty()
    } else if f[s.len() - 1] {
        keep_unflagged(s.drop_last(), f.drop_last())
    } else {
        keep_unflagged(s.drop_last(), f.drop_last()).push(s.last())
    }
}

pub proof fn lemma_keep_unflagged_len<A>(s: Seq<A>, f: Seq<bool>)
    requires
        f.len() == s.len(),
    ensures
        keep_unflagged(s, f).len() == s.len() - count_true(f),
    decreases s.len(),
{
    lemma_count_true_bounds(f);
    if s.len() > 0 {
        lemma_keep_unflagged_len(s.drop_last(), f.drop_last());
    }
}

/// Every kept element occurs in the original sequence.
pub proof fn lemma_keep_unflagged_contains<A>(s: Seq<A>, f: Seq<bool>, i: int)
    requires
        f.len() == s.len(),
        0 <= i < keep_unflagged(s, f).len(),
    ensures
        s.contains(keep_unflagged(s, f)[i]),
    decreases s.len(),
{
    if s.len() > 0 {
        let k = keep_unflagged(s, f);
        let kd = keep_unflagged(s.drop_last(), f.drop_last());
        if !f[s.len() - 1] && i == k.len() - 1 {
            assert(k[i] == s.last());
            assert(s[s.len() - 1] == s.last());
        } else {
            lemma_keep_unflagged_contains(s.drop_last(), f.drop_last(), i);
            let j = choose|j: int| 0 <= j < s.drop_last().len() && s.drop_last()[j] == kd[i];
            assert(s[j] == kd[i]);
        }
    }
}

} // verus!

