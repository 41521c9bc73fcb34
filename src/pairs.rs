//! Enumerating the unordered pairs of a set of indices.
use itertools::Itertools;
use vstd::prelude::*;

verus! {

/// The index pairs `(a, b)` with `i <= a < b < n`, in lexicographic order.
pub open spec fn index_pairs_from(i: int, n: int) -> Seq<(usize, usize)>
    decreases n - i,
{
    if i >= n {
        seq![]
    } else {
        Seq::new((n - i - 1) as nat, |k: int| (i as usize, (i + 1 + k) as usize)) + index_pairs_from(
            i + 1,
            n,
        )
    }
}

/// Every pair below `n`, in lexicographic order.
pub open spec fn index_pairs_below(n: int) -> Seq<(usize, usize)> {
    index_pairs_from(0, n)
}

/// Relies on `itertools::Itertools::tuple_combinations` over `0..n`: each
/// pair of indices below `n` once, the smaller first, in lexicographic order.
#[verifier::external_body]
pub(crate) fn index_pairs(n: usize) -> (r: Vec<(usize, usize)>)
    ensures
        r@ == index_pairs_below(n as int),
{
    (0..n).tuple_combinations().collect()
}

/// Every pair from `index_pairs_from(i, n)` holds two distinct indices in
/// `[i, n)`, the smaller first.
pub proof fn lemma_index_pairs_bounds(i: int, n: int)
    requires
        0 <= i,
        n <= usize::MAX,
    ensures
        forall|k: int|
            0 <= k < index_pairs_from(i, n).len() ==> i <= (#[trigger] index_pairs_from(i, n)[k]).0
                < index_pairs_from(i, n)[k].1 < n,
    decreases n - i,
{
    if i < n {
        lemma_index_pairs_bounds(i + 1, n);
        let head = Seq::new((n - i - 1) as nat, |k: int| (i as usize, (i + 1 + k) as usize));
        let rest = index_pairs_from(i + 1, n);
        assert forall|k: int| 0 <= k < index_pairs_from(i, n).len() implies i <= (
        #[trigger] index_pairs_from(i, n)[k]).0 < index_pairs_from(i, n)[k].1 < n by {
            if k >= head.len() {
                assert(index_pairs_from(i, n)[k] == rest[k - head.len()]);
            }
        }
    }
}

/// There are at most `(n - i) * n` pairs from `index_pairs_from(i, n)`.
pub proof fn lemma_index_pairs_len(i: int, n: int)
    requires
        0 <= i <= n,
    ensures
        index_pairs_from(i, n).len() <= (n - i) * n,
    decreases n - i,
{
    if i < n {
        lemma_index_pairs_len(i + 1, n);
        assert((n - i - 1) + (n - i - 1) * n <= (n - i) * n) by (nonlinear_arith)
            requires
                0 <= i < n,
        ;
    }
}

} // verus!
