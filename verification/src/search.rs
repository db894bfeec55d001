//! The first position at which something holds.
use vstd::prelude::*;

verus! {

/// `i` is the first position below `n` at which `p` holds.
pub open spec fn is_first(n: int, p: spec_fn(int) -> bool, i: int) -> bool {
    &&& 0 <= i < n
    &&& p(i)
    &&& forall|k: int| 0 <= k < i ==> !#[trigger] p(k)
}

/// The first position below `n` at which `p` holds, if there is one.
pub open spec fn first_where(n: int, p: spec_fn(int) -> bool) -> Option<int> {
    if exists|i: int| is_first(n, p, i) {
        Some(choose|i: int| is_first(n, p, i))
    } else {
        None
    }
}

/// The first position is `i` where `p` holds at `i` and nowhere before.
pub proof fn lemma_first_where_some(n: int, p: spec_fn(int) -> bool, i: int)
    requires
        is_first(n, p, i),
    ensures
        first_where(n, p) == Some(i),
{
    let c = choose|c: int| is_first(n, p, c);
    if c < i {
        assert(!p(c));
    }
    if i < c {
        assert(!p(i));
    }
}

/// There is no first position where `p` holds nowhere below `n`.
pub proof fn lemma_first_where_none(n: int, p: spec_fn(int) -> bool)
    requires
        forall|k: int| 0 <= k < n ==> !#[trigger] p(k),
    ensures
        first_where(n, p).is_none(),
{
}

/// What `first_where` gives is a first position, and where it gives none,
/// `p` holds nowhere below `n`.
pub proof fn lemma_first_where(n: int, p: spec_fn(int) -> bool)
    ensures
        match first_where(n, p) {
            Some(i) => is_first(n, p, i),
            None => forall|k: int| 0 <= k < n ==> !#[trigger] p(k),
        },
{
    if first_where(n, p).is_none() {
        assert forall|k: int| 0 <= k < n implies !#[trigger] p(k) by {
            if p(k) {
                lemma_least(n, p, k);
            }
        }
    }
}

/// Where `p` holds at `k`, it holds at a first position.
proof fn lemma_least(n: int, p: spec_fn(int) -> bool, k: int)
    requires
        0 <= k < n,
        p(k),
    ensures
        exists|i: int| is_first(n, p, i),
    decreases k,
{
    if exists|j: int| 0 <= j < k && #[trigger] p(j) {
        let j = choose|j: int| 0 <= j < k && #[trigger] p(j);
        lemma_least(n, p, j);
    } else {
        assert(is_first(n, p, k));
    }
}

} // verus!
