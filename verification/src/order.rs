//! Stable ordering of positions by name.
use crate::text::lemma_name_le_antisymmetric;
use crate::text::lemma_name_le_reflexive;
use crate::text::lemma_name_le_total;
use crate::text::lemma_name_le_transitive;
use crate::text::name_le;
use crate::text::str_le;
use vstd::prelude::*;

verus! {

/// The characters of each string of a list.
pub open spec fn views_of(names: Seq<String>) -> Seq<Seq<char>> {
    Seq::new(names.len(), |i: int| names[i]@)
}

/// Position `i` comes before position `j` in the stable order by name: its
/// name is smaller, or the names are the same and `i` is the earlier one.
pub open spec fn before(names: Seq<Seq<char>>, i: int, j: int) -> bool {
    if names[i] == names[j] {
        i < j
    } else {
        name_le(names[i], names[j])
    }
}

/// The position `v` stands somewhere in `order`.
pub open spec fn holds(order: Seq<usize>, v: int) -> bool {
    exists|k: int| 0 <= k < order.len() && #[trigger] order[k] == v
}

/// `order` holds each position below `n` once.
pub open spec fn is_arrangement(order: Seq<usize>, n: int) -> bool {
    &&& order.len() == n
    &&& forall|k: int| 0 <= k < n ==> 0 <= #[trigger] order[k] < n
    &&& forall|a: int, b: int| 0 <= a < b < n ==> #[trigger] order[a] != #[trigger] order[b]
    &&& forall|v: int| 0 <= v < n ==> #[trigger] holds(order, v)
}

/// The positions in `order` stand in the stable order by name.
pub open spec fn in_order(names: Seq<Seq<char>>, order: Seq<usize>) -> bool {
    forall|a: int, b: int|
        0 <= a < b < order.len() ==> before(names, #[trigger] order[a] as int, #[trigger] order[b] as int)
}

/// A position that comes before another has a name that is at most the
/// other's.
pub proof fn lemma_before_le(names: Seq<Seq<char>>, i: int, j: int)
    requires
        before(names, i, j),
    ensures
        name_le(names[i], names[j]),
{
    lemma_name_le_reflexive(names[i]);
}

/// The names stand in ascending order.
pub open spec fn ascending(names: Seq<Seq<char>>) -> bool {
    forall|a: int, b: int| 0 <= a < b < names.len() ==> name_le(#[trigger] names[a], #[trigger] names[b])
}

/// In a strictly increasing list of positions below its length, each
/// position stands at its own place, at least.
proof fn lemma_increasing_lower(order: Seq<usize>, k: int)
    requires
        forall|a: int, b: int| 0 <= a < b < order.len() ==> #[trigger] order[a] < #[trigger] order[b],
        0 <= k < order.len(),
    ensures
        order[k] >= k,
    decreases k,
{
    if k > 0 {
        lemma_increasing_lower(order, k - 1);
    }
}

/// In a strictly increasing list of positions below its length, each
/// position stands at its own place, at most.
proof fn lemma_increasing_upper(order: Seq<usize>, k: int)
    requires
        forall|a: int, b: int| 0 <= a < b < order.len() ==> #[trigger] order[a] < #[trigger] order[b],
        forall|a: int| 0 <= a < order.len() ==> #[trigger] order[a] < order.len(),
        0 <= k < order.len(),
    ensures
        order[k] <= k,
    decreases order.len() - k,
{
    if k < order.len() - 1 {
        lemma_increasing_upper(order, k + 1);
    }
}

/// The stable order of distinct names that already ascend leaves every
/// position in its place.
pub proof fn lemma_ascending_stays(names: Seq<Seq<char>>, order: Seq<usize>)
    requires
        names.no_duplicates(),
        ascending(names),
        is_arrangement(order, names.len() as int),
        in_order(names, order),
    ensures
        forall|k: int| 0 <= k < order.len() ==> #[trigger] order[k] == k,
{
    assert forall|a: int, b: int| 0 <= a < b < order.len() implies #[trigger] order[a]
        < #[trigger] order[b] by {
        if order[a] > order[b] {
            assert(before(names, order[a] as int, order[b] as int));
            assert(name_le(names[order[b] as int], names[order[a] as int]));
            lemma_name_le_antisymmetric(names[order[a] as int], names[order[b] as int]);
        }
    }
    assert forall|k: int| 0 <= k < order.len() implies #[trigger] order[k] == k by {
        lemma_increasing_lower(order, k);
        lemma_increasing_upper(order, k);
    }
}

/// The positions of a list of names, in the stable order by name.
pub fn sorted_order(names: &Vec<String>) -> (order: Vec<usize>)
    ensures
        is_arrangement(order@, names.len() as int),
        in_order(views_of(names@), order@),
{
    let ghost ns = views_of(names@);
    let n = names.len();
    let mut order: Vec<usize> = Vec::new();
    let mut i: usize = 0;
    while i < n
        invariant
            i <= n,
            n == names.len(),
            ns == views_of(names@),
            is_arrangement(order@, i as int),
            in_order(ns, order@),
        decreases n - i,
    {
        let ghost prev = order@;
        order.push(i);
        let mut pos: usize = i;
        while pos > 0 && !str_le(names[order[pos - 1]].as_str(), names[i].as_str())
            invariant
                i < n,
                n == names.len(),
                ns == views_of(names@),
                is_arrangement(prev, i as int),
                in_order(ns, prev),
                order.len() == i + 1,
                pos <= i,
                forall|k: int| 0 <= k <= i ==> #[trigger] order[k] <= i,
                forall|k: int| 0 <= k < pos ==> order[k] == prev[k],
                forall|k: int| pos < k <= i ==> order[k] == prev[k - 1],
                forall|k: int| pos <= k < i ==> !name_le(ns[#[trigger] prev[k] as int], ns[i as int]),
            decreases pos,
        {
            let moved = order[pos - 1];
            order.set(pos, moved);
            pos -= 1;
        }
        order.set(pos, i);
        proof {
            let cur = order@;
            assert forall|a: int, b: int| 0 <= a < b < cur.len() implies before(
                ns,
                #[trigger] cur[a] as int,
                #[trigger] cur[b] as int,
            ) by {
                if b < pos {
                    assert(cur[a] == prev[a] && cur[b] == prev[b]);
                } else if b == pos {
                    assert(cur[a] == prev[a] && cur[b] == i);
                    assert(prev[a] < i);
                    assert(name_le(ns[prev[pos - 1] as int], ns[i as int]));
                    if a < pos - 1 {
                        lemma_before_le(ns, prev[a] as int, prev[pos - 1] as int);
                        lemma_name_le_transitive(
                            ns[prev[a] as int],
                            ns[prev[pos - 1] as int],
                            ns[i as int],
                        );
                    }
                } else if a == pos {
                    assert(cur[a] == i && cur[b] == prev[b - 1]);
                    assert(!name_le(ns[prev[b - 1] as int], ns[i as int]));
                    lemma_name_le_total(ns[i as int], ns[prev[b - 1] as int]);
                    lemma_name_le_reflexive(ns[i as int]);
                } else if a < pos {
                    assert(cur[a] == prev[a] && cur[b] == prev[b - 1]);
                    assert(before(ns, prev[a] as int, prev[b - 1] as int));
                } else {
                    assert(cur[a] == prev[a - 1] && cur[b] == prev[b - 1]);
                    assert(before(ns, prev[a - 1] as int, prev[b - 1] as int));
                }
            }
            assert forall|v: int| 0 <= v < i + 1 implies #[trigger] holds(cur, v) by {
                if v == i {
                    assert(cur[pos as int] == v);
                } else {
                    assert(holds(prev, v));
                    let k = choose|k: int| 0 <= k < prev.len() && #[trigger] prev[k] == v;
                    if k < pos {
                        assert(cur[k] == v);
                    } else {
                        assert(cur[k + 1] == v);
                    }
                }
            }
        }
        i += 1;
    }
    order
}

} // verus!
