//! Dense ranking of total scores, and the laws it obeys.

use vstd::prelude::*;

verus! {

/// Position `j` is where the score `s[j]` occurs for the first time.
pub open spec fn first_at(s: Seq<u64>, j: int) -> bool {
    forall|k: int| 0 <= k < j ==> s[k] != s[j]
}

/// How many distinct scores among the first `n` are strictly above `v`.
pub open spec fn count_above(s: Seq<u64>, v: u64, n: int) -> nat
    decreases n,
{
    if n <= 0 {
        0
    } else {
        count_above(s, v, n - 1) + if s[n - 1] > v && first_at(s, n - 1) {
            1nat
        } else {
            0nat
        }
    }
}

/// The dense rank of score `v` among the scores `s`: one more than the
/// number of distinct scores above it. The top score has rank one and
/// equal scores share a rank.
pub open spec fn dense_rank(s: Seq<u64>, v: u64) -> nat {
    count_above(s, v, s.len() as int) + 1
}

/// Some score among the first `n` equals `t`.
pub open spec fn occurs(s: Seq<u64>, t: u64, n: int) -> bool {
    exists|k: int| 0 <= k < n && s[k] == t
}

proof fn lemma_count_bound(s: Seq<u64>, v: u64, n: int, i: int)
    requires
        0 <= n <= s.len(),
    ensures
        count_above(s, v, n) <= n,
        0 <= i < n && s[i] <= v ==> count_above(s, v, n) < n,
    decreases n,
{
    if n > 0 {
        lemma_count_bound(s, v, n - 1, i);
    }
}

proof fn lemma_count_zero(s: Seq<u64>, v: u64, n: int)
    requires
        0 <= n <= s.len(),
        forall|k: int| 0 <= k < n ==> s[k] <= v,
    ensures
        count_above(s, v, n) == 0,
    decreases n,
{
    if n > 0 {
        lemma_count_zero(s, v, n - 1);
    }
}

proof fn lemma_count_positive(s: Seq<u64>, v: u64, n: int)
    requires
        0 <= n <= s.len(),
        count_above(s, v, n) > 0,
    ensures
        exists|k: int| 0 <= k < n && s[k] > v,
    decreases n,
{
    if count_above(s, v, n - 1) > 0 {
        lemma_count_positive(s, v, n - 1);
        let k = choose|k: int| 0 <= k < n - 1 && s[k] > v;
        assert(0 <= k < n && s[k] > v);
    } else {
        assert(s[n - 1] > v);
    }
}

/// Among the first `n` scores above `v`, one is the smallest.
proof fn lemma_least_above(s: Seq<u64>, v: u64, n: int) -> (m: int)
    requires
        0 <= n <= s.len(),
        exists|k: int| 0 <= k < n && s[k] > v,
    ensures
        0 <= m < n,
        s[m] > v,
        forall|k: int| 0 <= k < n && s[k] > v ==> s[k] >= s[m],
    decreases n,
{
    if exists|k: int| 0 <= k < n - 1 && s[k] > v {
        let m0 = lemma_least_above(s, v, n - 1);
        if s[n - 1] > v && s[n - 1] < s[m0] {
            n - 1
        } else {
            m0
        }
    } else {
        n - 1
    }
}

/// Among the first `n` scores, one is the largest.
proof fn lemma_greatest(s: Seq<u64>, n: int) -> (m: int)
    requires
        0 < n <= s.len(),
    ensures
        0 <= m < n,
        forall|k: int| 0 <= k < n ==> s[k] <= s[m],
    decreases n,
{
    if n == 1 {
        0
    } else {
        let m0 = lemma_greatest(s, n - 1);
        if s[n - 1] > s[m0] {
            n - 1
        } else {
            m0
        }
    }
}

/// When `t` is the least score above `v`, the scores above `v` are those
/// above `t` and `t` itself.
proof fn lemma_count_step(s: Seq<u64>, v: u64, t: u64, n: int)
    requires
        0 <= n <= s.len(),
        v < t,
        forall|k: int| 0 <= k < n && s[k] > v ==> s[k] >= t,
    ensures
        count_above(s, v, n) == count_above(s, t, n) + if occurs(s, t, n) {
            1nat
        } else {
            0nat
        },
    decreases n,
{
    if n > 0 {
        lemma_count_step(s, v, t, n - 1);
        let x = s[n - 1];
        if x == t {
            if first_at(s, n - 1) {
                assert(!occurs(s, t, n - 1));
            } else {
                let k = choose|k: int| 0 <= k < n - 1 && #[trigger] s[k] == x;
                assert(occurs(s, t, n - 1));
            }
            assert(occurs(s, t, n));
        } else {
            if occurs(s, t, n) {
                let k = choose|k: int| 0 <= k < n && s[k] == t;
                assert(k != n - 1);
                assert(occurs(s, t, n - 1));
            }
            if occurs(s, t, n - 1) {
                let k = choose|k: int| 0 <= k < n - 1 && s[k] == t;
                assert(occurs(s, t, n));
            }
        }
    }
}

/// A higher score never has fewer distinct scores below it: every score
/// above `w` is above `v`, and so is `w` itself when it occurs.
proof fn lemma_count_order(s: Seq<u64>, v: u64, w: u64, n: int)
    requires
        0 <= n <= s.len(),
        v < w,
    ensures
        count_above(s, v, n) >= count_above(s, w, n) + if occurs(s, w, n) {
            1nat
        } else {
            0nat
        },
    decreases n,
{
    if n > 0 {
        lemma_count_order(s, v, w, n - 1);
        let x = s[n - 1];
        if x == w {
            if first_at(s, n - 1) {
                assert(!occurs(s, w, n - 1));
            } else {
                let k = choose|k: int| 0 <= k < n - 1 && #[trigger] s[k] == x;
                assert(occurs(s, w, n - 1));
            }
            assert(occurs(s, w, n));
        } else {
            if occurs(s, w, n) {
                let k = choose|k: int| 0 <= k < n && s[k] == w;
                assert(k != n - 1);
                assert(occurs(s, w, n - 1));
            }
            if occurs(s, w, n - 1) {
                let k = choose|k: int| 0 <= k < n - 1 && s[k] == w;
                assert(occurs(s, w, n));
            }
        }
    }
}

/// Dense ranks are at least one, and below the number of scores.
pub proof fn lemma_rank_bounds(s: Seq<u64>, i: int)
    requires
        0 <= i < s.len(),
    ensures
        1 <= dense_rank(s, s[i]) <= s.len(),
{
    lemma_count_bound(s, s[i], s.len() as int, i);
}

/// Dense ranks leave no gap and follow the scores: equal scores share a
/// rank, a higher score has a smaller rank, some score has rank one, and
/// below every rank above one there is a score with the rank just above it.
pub proof fn lemma_dense(s: Seq<u64>)
    ensures
        forall|i: int, j: int|
            0 <= i < s.len() && 0 <= j < s.len() && s[i] == s[j] ==> dense_rank(s, s[i])
                == dense_rank(s, s[j]),
        forall|i: int, j: int|
            0 <= i < s.len() && 0 <= j < s.len() && s[i] > s[j] ==> dense_rank(s, s[i])
                < dense_rank(s, s[j]),
        forall|i: int| 0 <= i < s.len() ==> 1 <= #[trigger] dense_rank(s, s[i]) <= s.len(),
        s.len() > 0 ==> exists|j: int| 0 <= j < s.len() && dense_rank(s, s[j]) == 1,
        forall|i: int|
            0 <= i < s.len() && dense_rank(s, s[i]) > 1 ==> exists|j: int|
                0 <= j < s.len() && #[trigger] dense_rank(s, s[j]) + 1 == dense_rank(s, s[i]),
{
    let n = s.len() as int;
    assert forall|i: int| 0 <= i < n implies 1 <= #[trigger] dense_rank(s, s[i]) <= n by {
        lemma_rank_bounds(s, i);
    }
    assert forall|i: int, j: int|
        0 <= i < n && 0 <= j < n && s[i] > s[j] implies dense_rank(s, s[i]) < dense_rank(
        s,
        s[j],
    ) by {
        lemma_count_order(s, s[j], s[i], n);
        assert(occurs(s, s[i], n));
    }
    if n > 0 {
        let m = lemma_greatest(s, n);
        lemma_count_zero(s, s[m], n);
        assert(dense_rank(s, s[m]) == 1);
    }
    assert forall|i: int| 0 <= i < n && dense_rank(s, s[i]) > 1 implies exists|j: int|
        0 <= j < n && #[trigger] dense_rank(s, s[j]) + 1 == dense_rank(s, s[i]) by {
        let v = s[i];
        lemma_count_positive(s, v, n);
        let m = lemma_least_above(s, v, n);
        lemma_count_step(s, v, s[m], n);
        assert(occurs(s, s[m], n));
        assert(dense_rank(s, s[m]) + 1 == dense_rank(s, s[i]));
    }
}

/// Counting over a shorter prefix never gives more.
pub proof fn lemma_count_prefix(s: Seq<u64>, v: u64, m: int, n: int)
    requires
        0 <= m <= n <= s.len(),
    ensures
        count_above(s, v, m) <= count_above(s, v, n),
    decreases n - m,
{
    if m < n {
        lemma_count_prefix(s, v, m, n - 1);
    }
}

} // verus!
