//! Ranking of scored items, best first, keeping at most `k` of them.
//!
//! Scores are 64-bit IEEE-754 floats carried as their bit patterns
//! (`f64::to_bits`).  Items are ranked by inserting each one, in order,
//! in front of the first already ranked item whose score is below its
//! own, and cutting the ranking to `k` items after every insertion.
use vstd::prelude::*;

verus! {

/// The value of the sign bit set in a bit pattern.
pub open spec fn sign_mask() -> int {
    0x8000_0000_0000_0000
}

/// The largest magnitude (bit pattern without the sign) that is not a NaN:
/// that of an infinity.
pub open spec fn infinity_magnitude() -> int {
    0x7ff0_0000_0000_0000
}

/// Whether the sign bit is set.
pub open spec fn is_negative_bits(x: u64) -> bool {
    x >= sign_mask()
}

/// The bit pattern without its sign bit.
pub open spec fn magnitude(x: u64) -> int {
    if is_negative_bits(x) {
        x - sign_mask()
    } else {
        x as int
    }
}

/// Whether the bit pattern is a NaN.
pub open spec fn is_nan_bits(x: u64) -> bool {
    magnitude(x) > infinity_magnitude()
}

/// An integer that orders the non-NaN floats as their values do
/// (both zeros get 0).
pub open spec fn order_key(x: u64) -> int {
    if is_negative_bits(x) {
        -magnitude(x)
    } else {
        magnitude(x)
    }
}

/// `a < b` on the floats with bit patterns `a` and `b`: false where
/// either is a NaN.
pub open spec fn float_less(a: u64, b: u64) -> bool {
    !is_nan_bits(a) && !is_nan_bits(b) && order_key(a) < order_key(b)
}

/// Decides `a < b` on the floats with bit patterns `a` and `b`.
pub fn score_less(a: u64, b: u64) -> (r: bool)
    ensures
        r == float_less(a, b),
{
    let sign: u64 = 0x8000_0000_0000_0000;
    let infinity: u64 = 0x7ff0_0000_0000_0000;
    let ma: u64 = if a >= sign {
        a - sign
    } else {
        a
    };
    let mb: u64 = if b >= sign {
        b - sign
    } else {
        b
    };
    if ma > infinity || mb > infinity {
        return false;
    }
    let ka: i64 = if a >= sign {
        -(ma as i64)
    } else {
        ma as i64
    };
    let kb: i64 = if b >= sign {
        -(mb as i64)
    } else {
        mb as i64
    };
    ka < kb
}

/// The first position at or after `from` in `ranked` whose item's score is
/// below `s`, or the length of `ranked`.
pub open spec fn first_below(ranked: Seq<usize>, scores: Seq<u64>, s: u64, from: nat) -> nat
    decreases ranked.len() - from,
{
    if from >= ranked.len() {
        ranked.len()
    } else if float_less(scores[ranked[from as int] as int], s) {
        from
    } else {
        first_below(ranked, scores, s, from + 1)
    }
}

/// `s` cut to its first `k` elements.
pub open spec fn cut<A>(s: Seq<A>, k: nat) -> Seq<A> {
    if s.len() <= k {
        s
    } else {
        s.take(k as int)
    }
}

/// The ranking after item `i` has been inserted into `ranked`.
pub open spec fn insert_ranked(ranked: Seq<usize>, scores: Seq<u64>, i: usize, k: nat) -> Seq<
    usize,
> {
    cut(ranked.insert(first_below(ranked, scores, scores[i as int], 0) as int, i), k)
}

/// The ranking of the first `n` items by their scores, at most `k` long:
/// the positions of the items, best first.
pub open spec fn ranked_indices(scores: Seq<u64>, n: nat, k: nat) -> Seq<usize>
    decreases n,
{
    if n == 0 {
        Seq::empty()
    } else {
        insert_ranked(ranked_indices(scores, (n - 1) as nat, k), scores, (n - 1) as usize, k)
    }
}

/// Item `i` comes before item `j` in the best-first order that keeps equal
/// scores in their original order.
pub open spec fn ranks_before(scores: Seq<u64>, i: usize, j: usize) -> bool {
    order_key(scores[i as int]) > order_key(scores[j as int]) || (order_key(scores[i as int])
        == order_key(scores[j as int]) && i < j)
}

/// None of the first `n` scores is a NaN.
pub open spec fn free_of_nan(scores: Seq<u64>, n: nat) -> bool {
    forall|i: int| 0 <= i < n ==> !is_nan_bits(#[trigger] scores[i])
}

/// Every position in `r` is below `n`, and none occurs twice.
pub open spec fn distinct_below(r: Seq<usize>, n: nat) -> bool {
    &&& forall|a: int| 0 <= a < r.len() ==> #[trigger] r[a] < n
    &&& forall|a: int, b: int| 0 <= a < b < r.len() ==> #[trigger] r[a] != #[trigger] r[b]
}

/// `r` lists its items best first, equal scores in their original order.
pub open spec fn best_first(scores: Seq<u64>, r: Seq<usize>) -> bool {
    forall|a: int, b: int|
        0 <= a < b < r.len() ==> ranks_before(scores, #[trigger] r[a], #[trigger] r[b])
}

/// Every one of the first `n` items that `r` leaves out comes after all of
/// those it keeps, and `r` then holds `k` items.
pub open spec fn keeps_the_best(scores: Seq<u64>, r: Seq<usize>, n: nat, k: nat) -> bool {
    forall|j: usize|
        j < n && !(#[trigger] r.contains(j)) ==> r.len() == k && forall|a: int|
            0 <= a < r.len() ==> ranks_before(scores, #[trigger] r[a], j)
}

proof fn lemma_first_below(ranked: Seq<usize>, scores: Seq<u64>, s: u64, from: nat)
    requires
        from <= ranked.len(),
    ensures
        from <= first_below(ranked, scores, s, from) <= ranked.len(),
        forall|a: int|
            from <= a < first_below(ranked, scores, s, from) ==> !float_less(
                scores[#[trigger] ranked[a] as int],
                s,
            ),
        first_below(ranked, scores, s, from) < ranked.len() ==> float_less(
            scores[ranked[first_below(ranked, scores, s, from) as int] as int],
            s,
        ),
    decreases ranked.len() - from,
{
    if from < ranked.len() && !float_less(scores[ranked[from as int] as int], s) {
        lemma_first_below(ranked, scores, s, from + 1);
    }
}

proof fn lemma_ranks_before_transitive(scores: Seq<u64>, i: usize, j: usize, l: usize)
    requires
        ranks_before(scores, i, j),
        ranks_before(scores, j, l),
    ensures
        ranks_before(scores, i, l),
{
}

/// The ranking of the first `n` of the scores holds `min(n, k)` distinct
/// positions of those items; where none of their scores is a NaN, it lists
/// them best first, equal scores in their original order, and every item
/// left out comes after all the items kept: the ranking is the first `k`
/// items of the stable best-first order.
pub proof fn lemma_ranking_is_stable_top_k(scores: Seq<u64>, n: nat, k: nat)
    requires
        n <= scores.len(),
        n <= usize::MAX,
    ensures
        ranked_indices(scores, n, k).len() == if n <= k {
            n
        } else {
            k
        },
        distinct_below(ranked_indices(scores, n, k), n),
        free_of_nan(scores, n) ==> best_first(scores, ranked_indices(scores, n, k)),
        free_of_nan(scores, n) ==> keeps_the_best(scores, ranked_indices(scores, n, k), n, k),
    decreases n,
{
    if n > 0 {
        let m = (n - 1) as nat;
        let i = m as usize;
        let r0 = ranked_indices(scores, m, k);
        lemma_ranking_is_stable_top_k(scores, m, k);
        let p = first_below(r0, scores, scores[i as int], 0);
        lemma_first_below(r0, scores, scores[i as int], 0);
        let ins = r0.insert(p as int, i);
        r0.insert_ensures(p as int, i);
        let r = ranked_indices(scores, n, k);
        assert(r == cut(ins, k));
        assert(forall|a: int| 0 <= a < r.len() ==> r[a] == #[trigger] ins[a]);
        // positions and distinctness
        assert forall|a: int| 0 <= a < ins.len() implies #[trigger] ins[a] < n by {
            if a > p {
                assert(ins[a] == r0[a - 1]);
            }
        }
        assert forall|a: int, b: int| 0 <= a < b < ins.len() implies #[trigger] ins[a]
            != #[trigger] ins[b] by {
            if a < p && b < p {
            } else if a < p && b == p {
                assert(r0[a] < m);
            } else if a < p {
                assert(ins[b] == r0[b - 1]);
            } else if a == p {
                assert(ins[b] == r0[b - 1]);
                assert(r0[b - 1] < m);
            } else {
                assert(ins[a] == r0[a - 1]);
                assert(ins[b] == r0[b - 1]);
            }
        }
        if free_of_nan(scores, n) {
            assert(free_of_nan(scores, m));
            assert(!is_nan_bits(scores[i as int]));
            // the new item follows every item before position p and precedes the others
            assert forall|a: int| 0 <= a < p implies ranks_before(scores, #[trigger] r0[a], i) by {
                assert(r0[a] < m);
                assert(!is_nan_bits(scores[r0[a] as int]));
            }
            assert forall|a: int| p <= a < r0.len() implies ranks_before(scores, i, #[trigger] r0[a]) by {
                assert(!is_nan_bits(scores[r0[p as int] as int]));
                if a > p {
                    assert(ranks_before(scores, r0[p as int], r0[a]));
                }
            }
            assert forall|a: int, b: int| 0 <= a < b < ins.len() implies ranks_before(
                scores,
                #[trigger] ins[a],
                #[trigger] ins[b],
            ) by {
                if a < p && b < p {
                    assert(ranks_before(scores, r0[a], r0[b]));
                } else if a < p && b == p {
                    assert(ranks_before(scores, r0[a], i));
                } else if a < p {
                    assert(ins[b] == r0[b - 1]);
                    assert(ranks_before(scores, r0[a], r0[b - 1]));
                } else if a == p {
                    assert(ins[b] == r0[b - 1]);
                    assert(ranks_before(scores, i, r0[b - 1]));
                } else {
                    assert(ins[a] == r0[a - 1]);
                    assert(ins[b] == r0[b - 1]);
                    assert(ranks_before(scores, r0[a - 1], r0[b - 1]));
                }
            }
            assert(best_first(scores, r));
            assert forall|j: usize| j < n && !(#[trigger] r.contains(j)) implies r.len() == k
                && forall|a: int| 0 <= a < r.len() ==> ranks_before(scores, #[trigger] r[a], j) by {
                // the position of j in ins, which lies beyond the cut
                let q: int = if j == i {
                    p as int
                } else if r0.contains(j) {
                    let x = choose|x: int| 0 <= x < r0.len() && r0[x] == j;
                    if x < p {
                        x
                    } else {
                        x + 1
                    }
                } else {
                    -1
                };
                if q >= 0 {
                    assert(ins[q] == j);
                    if q < r.len() {
                        assert(r[q] == j);
                        assert(r.contains(j));
                    }
                    assert(ins.len() > k);
                    assert forall|a: int| 0 <= a < r.len() implies ranks_before(
                        scores,
                        #[trigger] r[a],
                        j,
                    ) by {
                        assert(r[a] == ins[a]);
                        assert(a < q);
                    }
                } else {
                    assert(!r0.contains(j));
                    assert(r0.len() == k);
                    assert forall|a: int| 0 <= a < r.len() implies ranks_before(
                        scores,
                        #[trigger] r[a],
                        j,
                    ) by {
                        if a < p {
                            assert(r[a] == r0[a]);
                        } else if a == p {
                            assert(r[a] == i);
                            assert(ranks_before(scores, i, r0[k - 1]));
                            assert(ranks_before(scores, r0[k - 1], j));
                            lemma_ranks_before_transitive(scores, i, r0[k - 1], j);
                        } else {
                            assert(r[a] == r0[a - 1]);
                        }
                    }
                }
            }
        }
    }
}

/// Ranks all items by their scores, best first, keeping at most `k`;
/// returns their positions.
pub fn rank_indices(scores: &Vec<u64>, k: usize) -> (r: Vec<usize>)
    ensures
        r@ == ranked_indices(scores@, scores@.len(), k as nat),
{
    let n = scores.len();
    let mut ranked: Vec<usize> = Vec::new();
    let mut i: usize = 0;
    while i < n
        invariant
            n == scores@.len(),
            i <= n,
            ranked@ == ranked_indices(scores@, i as nat, k as nat),
            forall|a: int| 0 <= a < ranked@.len() ==> ranked@[a] < i,
        decreases n - i,
    {
        let s = scores[i];
        let mut p: usize = 0;
        while p < ranked.len() && !score_less(scores[ranked[p]], s)
            invariant
                n == scores@.len(),
                i < n,
                s == scores@[i as int],
                p <= ranked@.len(),
                forall|a: int| 0 <= a < ranked@.len() ==> ranked@[a] < i,
                first_below(ranked@, scores@, s, 0) == first_below(ranked@, scores@, s, p as nat),
            decreases ranked@.len() - p,
        {
            p = p + 1;
        }
        proof {
            assert(first_below(ranked@, scores@, s, 0) == p as nat);
        }
        let ghost before = ranked@;
        ranked.insert(p, i);
        if ranked.len() > k {
            ranked.truncate(k);
        }
        proof {
            assert(ranked@ == insert_ranked(before, scores@, i, k as nat));
            assert forall|a: int| 0 <= a < ranked@.len() implies ranked@[a] < i + 1 by {
                before.insert_ensures(p as int, i);
            }
        }
        i = i + 1;
    }
    ranked
}

} // verus!
