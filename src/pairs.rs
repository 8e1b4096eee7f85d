use vstd::prelude::*;

verus! {

/// Whether `p` names two distinct bodies among `n`, the lower index first.
pub open spec fn is_pair(p: (usize, usize), n: int) -> bool {
    p.0 < p.1 && p.1 < n
}

/// Lexicographic order on index pairs.
pub open spec fn pair_before(a: (usize, usize), b: (usize, usize)) -> bool {
    a.0 < b.0 || (a.0 == b.0 && a.1 < b.1)
}

/// Whether `s` holds the pair `(i, j)`.
pub open spec fn holds_pair(s: Seq<(usize, usize)>, i: usize, j: usize) -> bool {
    exists|k: int| 0 <= k < s.len() && #[trigger] s[k] == (i, j)
}

/// Number of pairs whose lower index is below `i`, among `n` bodies.
pub open spec fn pairs_below(i: nat, n: nat) -> nat
    decreases i,
{
    if i == 0 {
        0
    } else {
        let k = (i - 1) as nat;
        pairs_below(k, n) + (if k + 1 < n { (n - k - 1) as nat } else { 0 })
    }
}

proof fn lemma_pairs_below(i: nat, n: nat)
    requires
        i <= n,
    ensures
        2 * pairs_below(i, n) == i * (2 * n - i - 1),
    decreases i,
{
    if i > 0 {
        let k = (i - 1) as nat;
        lemma_pairs_below(k, n);
        assert(2 * pairs_below(i, n) == i * (2 * n - i - 1)) by (nonlinear_arith)
            requires
                2 * pairs_below(k, n) == k * (2 * n - k - 1),
                pairs_below(i, n) == pairs_below(k, n) + (n - k - 1),
                k + 1 == i,
                i <= n,
        ;
    } else {
        assert(i * (2 * n - i - 1) == 0) by (nonlinear_arith)
            requires
                i == 0,
        ;
    }
}

/// The order in which pairwise interactions among `n` bodies are evaluated:
/// every unordered pair of distinct indices exactly once, written with the
/// lower index first, in lexicographic order.
pub fn pair_schedule(n: usize) -> (r: Vec<(usize, usize)>)
    ensures
        forall|k: int| 0 <= k < r@.len() ==> is_pair(#[trigger] r@[k], n as int),
        forall|k1: int, k2: int|
            0 <= k1 < k2 < r@.len() ==> pair_before(#[trigger] r@[k1], #[trigger] r@[k2]),
        forall|i: usize, j: usize| i < j < n ==> #[trigger] holds_pair(r@, i, j),
        2 * r@.len() == n * (n - 1),
        n < 2 ==> r@.len() == 0,
{
    let mut r: Vec<(usize, usize)> = Vec::new();
    let mut i: usize = 0;
    while i < n
        invariant
            i <= n,
            forall|k: int| 0 <= k < r@.len() ==> is_pair(#[trigger] r@[k], n as int),
            forall|k: int| 0 <= k < r@.len() ==> (#[trigger] r@[k]).0 < i,
            forall|k1: int, k2: int|
                0 <= k1 < k2 < r@.len() ==> pair_before(#[trigger] r@[k1], #[trigger] r@[k2]),
            forall|a: usize, b: usize| a < b < n && a < i ==> #[trigger] holds_pair(r@, a, b),
            r@.len() == pairs_below(i as nat, n as nat),
        decreases n - i,
    {
        let mut j: usize = i + 1;
        while j < n
            invariant
                i < n,
                i < j <= n,
                forall|k: int| 0 <= k < r@.len() ==> is_pair(#[trigger] r@[k], n as int),
                forall|k: int| 0 <= k < r@.len() ==> pair_before(#[trigger] r@[k], (i, j)),
                forall|k: int| 0 <= k < r@.len() ==> (#[trigger] r@[k]).0 <= i,
                forall|k1: int, k2: int|
                    0 <= k1 < k2 < r@.len() ==> pair_before(#[trigger] r@[k1], #[trigger] r@[k2]),
                forall|a: usize, b: usize|
                    a < b < n && (a < i || (a == i && b < j)) ==> #[trigger] holds_pair(r@, a, b),
                r@.len() == pairs_below(i as nat, n as nat) + (j - i - 1),
            decreases n - j,
        {
            let ghost pre = r@;
            r.push((i, j));
            assert forall|a: usize, b: usize|
                a < b < n && (a < i || (a == i && b < j + 1)) implies #[trigger] holds_pair(
                r@,
                a,
                b,
            ) by {
                if a == i && b == j {
                    assert(r@[pre.len() as int] == (a, b));
                } else {
                    assert(holds_pair(pre, a, b));
                    let k = choose|k: int| 0 <= k < pre.len() && #[trigger] pre[k] == (a, b);
                    assert(r@[k] == (a, b));
                }
            }
            j = j + 1;
        }
        assert(pairs_below((i + 1) as nat, n as nat) == pairs_below(i as nat, n as nat) + (n - i - 1));
        i = i + 1;
    }
    proof {
        lemma_pairs_below(n as nat, n as nat);
        assert(2 * r@.len() == n * (n - 1)) by (nonlinear_arith)
            requires
                2 * r@.len() == n * (2 * n - n - 1),
        ;
        if n < 2 {
            assert(n * (n - 1) == 0) by (nonlinear_arith)
                requires
                    n < 2,
            ;
        }
    }
    r
}

} // verus!
