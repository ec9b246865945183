//! The first position satisfying a predicate.
use vstd::prelude::*;

verus! {

/// `j` is the first position below `n` where `p` holds.
pub open spec fn is_first_match(n: int, p: spec_fn(int) -> bool, j: int) -> bool {
    &&& 0 <= j < n
    &&& p(j)
    &&& forall|k: int| 0 <= k < j ==> !#[trigger] p(k)
}

/// The first position below `n` where `p` holds, if any.
pub open spec fn first_match(n: int, p: spec_fn(int) -> bool) -> Option<int> {
    if exists|j: int| 0 <= j < n && #[trigger] p(j) {
        Some(choose|j: int| is_first_match(n, p, j))
    } else {
        None
    }
}

proof fn lemma_first_match_exists(n: int, p: spec_fn(int) -> bool, j: int)
    requires
        0 <= j < n,
        p(j),
    ensures
        exists|k: int| is_first_match(n, p, k),
    decreases j,
{
    if exists|k: int| 0 <= k < j && #[trigger] p(k) {
        let k = choose|k: int| 0 <= k < j && #[trigger] p(k);
        lemma_first_match_exists(n, p, k);
    } else {
        assert(is_first_match(n, p, j));
    }
}

/// `first_match` answers the first match, or nothing when no position matches.
pub proof fn lemma_first_match(n: int, p: spec_fn(int) -> bool)
    ensures
        match first_match(n, p) {
            Some(j) => is_first_match(n, p, j),
            None => forall|k: int| 0 <= k < n ==> !#[trigger] p(k),
        },
{
    if exists|j: int| 0 <= j < n && #[trigger] p(j) {
        let j = choose|j: int| 0 <= j < n && #[trigger] p(j);
        lemma_first_match_exists(n, p, j);
    }
}

/// A first match found by a scan is the one `first_match` names.
pub proof fn lemma_first_match_is(n: int, p: spec_fn(int) -> bool, j: int)
    requires
        is_first_match(n, p, j),
    ensures
        first_match(n, p) == Some(j),
{
    lemma_first_match(n, p);
    let c = first_match(n, p).unwrap();
    if c < j {
        assert(!p(c));
    } else if c > j {
        assert(!p(j));
    }
}

} // verus!
