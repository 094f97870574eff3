//! Levenshtein edit distance, computed with a cap.
use vstd::prelude::*;

verus! {

/// Edit counts above this bound are not told apart: a comparison stops once
/// it is certain to exceed it.
pub const DISTANCE_CAP: u32 = 10;

/// The smaller of two naturals.
pub open spec fn min2(x: nat, y: nat) -> nat {
    if x <= y {
        x
    } else {
        y
    }
}

/// The smallest of three naturals.
pub open spec fn min3(x: nat, y: nat, z: nat) -> nat {
    min2(x, min2(y, z))
}

/// The Levenshtein distance: the least number of single-character insertions,
/// deletions and substitutions that turn `a` into `b`.
pub open spec fn lev(a: Seq<char>, b: Seq<char>) -> nat
    decreases a.len() + b.len(),
{
    if a.len() == 0 {
        b.len()
    } else if b.len() == 0 {
        a.len()
    } else {
        min3(
            lev(a.drop_last(), b) + 1,
            lev(a, b.drop_last()) + 1,
            lev(a.drop_last(), b.drop_last()) + if a.last() == b.last() {
                0nat
            } else {
                1nat
            },
        )
    }
}

/// The distance as the resolver sees it: exact up to `DISTANCE_CAP`, and
/// `DISTANCE_CAP + 1` for anything further apart.
pub open spec fn capped_distance(a: Seq<char>, b: Seq<char>) -> nat {
    min2(lev(a, b), DISTANCE_CAP as nat + 1)
}

/// Levenshtein distance is symmetric.
pub proof fn lemma_lev_symmetric(a: Seq<char>, b: Seq<char>)
    ensures
        lev(a, b) == lev(b, a),
    decreases a.len() + b.len(),
{
    if a.len() > 0 && b.len() > 0 {
        lemma_lev_symmetric(a.drop_last(), b);
        lemma_lev_symmetric(a, b.drop_last());
        lemma_lev_symmetric(a.drop_last(), b.drop_last());
    }
}

/// A sequence is at distance zero from itself.
pub proof fn lemma_lev_identity(a: Seq<char>)
    ensures
        lev(a, a) == 0,
    decreases a.len(),
{
    if a.len() > 0 {
        lemma_lev_identity(a.drop_last());
    }
}

/// The distance between two strings is the same in either order.
pub proof fn lemma_distance_symmetric(a: Seq<char>, b: Seq<char>)
    ensures
        capped_distance(a, b) == capped_distance(b, a),
{
    lemma_lev_symmetric(a, b);
}

/// Every string is at distance zero from itself.
pub proof fn lemma_distance_identity(a: Seq<char>)
    ensures
        capped_distance(a, a) == 0,
{
    lemma_lev_identity(a);
}

/// One step of the recurrence, stated on prefixes.
proof fn lemma_lev_prefix_step(a: Seq<char>, b: Seq<char>, i: int, j: int)
    requires
        0 < i <= a.len(),
        0 < j <= b.len(),
    ensures
        lev(a.take(i), b.take(j)) == min3(
            lev(a.take(i - 1), b.take(j)) + 1,
            lev(a.take(i), b.take(j - 1)) + 1,
            lev(a.take(i - 1), b.take(j - 1)) + if a[i - 1] == b[j - 1] {
                0nat
            } else {
                1nat
            },
        ),
{
    assert(a.take(i).drop_last() == a.take(i - 1));
    assert(b.take(j).drop_last() == b.take(j - 1));
}

/// Once a whole row of the table has reached `k`, every later row stays there.
proof fn lemma_row_saturated(a: Seq<char>, b: Seq<char>, i: int, k: nat)
    requires
        0 <= i < a.len(),
        forall|j: int| 0 <= j <= b.len() ==> #[trigger] lev(a.take(i), b.take(j)) >= k,
    ensures
        forall|j: int| 0 <= j <= b.len() ==> #[trigger] lev(a.take(i + 1), b.take(j)) >= k,
{
    assert forall|j: int| 0 <= j <= b.len() implies #[trigger] lev(a.take(i + 1), b.take(j))
        >= k by {
        lemma_row_saturated_upto(a, b, i, k, j);
    }
}

proof fn lemma_row_saturated_upto(a: Seq<char>, b: Seq<char>, i: int, k: nat, j: int)
    requires
        0 <= i < a.len(),
        0 <= j <= b.len(),
        forall|l: int| 0 <= l <= b.len() ==> #[trigger] lev(a.take(i), b.take(l)) >= k,
    ensures
        lev(a.take(i + 1), b.take(j)) >= k,
    decreases j,
{
    if j == 0 {
        assert(lev(a.take(i), b.take(0)) >= k);
        assert(b.take(0).len() == 0);
    } else {
        lemma_row_saturated_upto(a, b, i, k, j - 1);
        lemma_lev_prefix_step(a, b, i + 1, j);
        assert(lev(a.take(i), b.take(j)) >= k);
        assert(lev(a.take(i), b.take(j - 1)) >= k);
    }
}

/// A saturated row forces the full distance to the cap as well.
proof fn lemma_saturated_to_end(a: Seq<char>, b: Seq<char>, i: int, k: nat)
    requires
        0 <= i <= a.len(),
        forall|j: int| 0 <= j <= b.len() ==> #[trigger] lev(a.take(i), b.take(j)) >= k,
    ensures
        lev(a, b) >= k,
    decreases a.len() - i,
{
    if i < a.len() {
        lemma_row_saturated(a, b, i, k);
        lemma_saturated_to_end(a, b, i + 1, k);
    } else {
        assert(a.take(i) == a);
        assert(b.take(b.len() as int) == b);
    }
}

/// The characters of `s`, in order.
pub fn chars_of(s: &str) -> (r: Vec<char>)
    ensures
        r@ == s@,
{
    let mut out: Vec<char> = Vec::new();
    for c in it: s.chars()
        invariant
            it.seq() == s@,
            out@ == s@.take(it.index()),
    {
        out.push(c);
        assert(s@.take(it.index() + 1) == s@.take(it.index()).push(c));
    }
    assert(s@.take(s@.len() as int) == s@);
    out
}

/// `min(lev(a, b), limit)`, computed row by row; it stops as soon as a whole
/// row has reached `limit`, since no later row can fall below it.
pub fn levenshtein_within(a: &Vec<char>, b: &Vec<char>, limit: u32) -> (r: u32)
    requires
        limit < u32::MAX,
    ensures
        r as nat == min2(lev(a@, b@), limit as nat),
{
    let n = a.len();
    let m = b.len();
    let ghost k = limit as nat;
    let mut prev: Vec<u32> = Vec::new();
    prev.push(0);
    assert(lev(a@.take(0), b@.take(0)) == 0) by {
        assert(a@.take(0).len() == 0);
    }
    let mut j: usize = 0;
    while j < m
        invariant
            j <= m,
            m == b@.len(),
            k == limit as nat,
            prev@.len() == j + 1,
            forall|l: int|
                0 <= l <= j ==> #[trigger] prev@[l] as nat == min2(lev(a@.take(0), b@.take(l)), k),
        decreases m - j,
    {
        assert(a@.take(0).len() == 0);
        assert(b@.take(j + 1).len() == j + 1);
        assert(lev(a@.take(0), b@.take(j + 1)) == j + 1);
        let v: u32 = if j < limit as usize {
            j as u32 + 1
        } else {
            limit
        };
        prev.push(v);
        j = j + 1;
    }
    let mut i: usize = 0;
    while i < n
        invariant
            i <= n,
            n == a@.len(),
            m == b@.len(),
            limit < u32::MAX,
            k == limit as nat,
            prev@.len() == m + 1,
            forall|l: int|
                0 <= l <= m ==> #[trigger] prev@[l] as nat == min2(lev(a@.take(i as int), b@.take(l)), k),
        decreases n - i,
    {
        let mut cur: Vec<u32> = Vec::new();
        assert(b@.take(0).len() == 0);
        assert(a@.take(i + 1).len() == i + 1);
        assert(lev(a@.take(i + 1), b@.take(0)) == i + 1);
        let first: u32 = if i < limit as usize {
            i as u32 + 1
        } else {
            limit
        };
        cur.push(first);
        let mut row_min: u32 = first;
        let mut j: usize = 0;
        while j < m
            invariant
                i < n,
                j <= m,
                n == a@.len(),
                m == b@.len(),
                limit < u32::MAX,
                k == limit as nat,
                prev@.len() == m + 1,
                cur@.len() == j + 1,
                forall|l: int|
                    0 <= l <= m ==> #[trigger] prev@[l] as nat == min2(
                        lev(a@.take(i as int), b@.take(l)),
                        k,
                    ),
                forall|l: int|
                    0 <= l <= j ==> #[trigger] cur@[l] as nat == min2(
                        lev(a@.take(i + 1), b@.take(l)),
                        k,
                    ),
                forall|l: int| 0 <= l <= j ==> row_min <= #[trigger] cur@[l],
            decreases m - j,
        {
            let cost: u32 = if a[i] == b[j] {
                0
            } else {
                1
            };
            let up = prev[j + 1] + 1;
            let left = cur[j] + 1;
            let diag = prev[j] + cost;
            let mut v = up;
            if left < v {
                v = left;
            }
            if diag < v {
                v = diag;
            }
            if limit < v {
                v = limit;
            }
            proof {
                lemma_lev_prefix_step(a@, b@, i + 1, j + 1);
            }
            cur.push(v);
            if v < row_min {
                row_min = v;
            }
            j = j + 1;
        }
        if row_min >= limit {
            proof {
                assert forall|l: int| 0 <= l <= b@.len() implies #[trigger] lev(
                    a@.take(i + 1),
                    b@.take(l),
                ) >= k by {
                    assert(cur@[l] >= row_min);
                }
                lemma_saturated_to_end(a@, b@, i + 1, k);
            }
            return limit;
        }
        prev = cur;
        i = i + 1;
    }
    assert(a@.take(n as int) == a@);
    assert(b@.take(m as int) == b@);
    prev[m]
}

/// The distance between `a` and `b`, exact up to `DISTANCE_CAP` and
/// `DISTANCE_CAP + 1` beyond it.
pub fn distance(a: &str, b: &str) -> (r: u32)
    ensures
        r as nat == capped_distance(a@, b@),
{
    let va = chars_of(a);
    let vb = chars_of(b);
    levenshtein_within(&va, &vb, DISTANCE_CAP + 1)
}

} // verus!
