//! Stable ranking of selected items by a numeric key, highest key first.
//!
//! A ranking is a list of positions into the input. It is described by a
//! predicate that admits exactly one list, so every function that returns a
//! ranking returns a fully determined value.

use vstd::prelude::*;

verus! {

/// Position `a` is ranked before position `b`: its key is higher, or the
/// keys are equal and `a` comes first in the input.
pub open spec fn ranks_before(keys: Seq<u64>, a: int, b: int) -> bool {
    keys[a] > keys[b] || (keys[a] == keys[b] && a < b)
}

/// `order` lists exactly the selected positions of `keys`, best first.
pub open spec fn is_ranking(keys: Seq<u64>, selected: Seq<bool>, order: Seq<usize>) -> bool {
    &&& selected.len() == keys.len()
    &&& forall|i: int|
        0 <= i < order.len() ==> (#[trigger] order[i]) < keys.len() && selected[order[i] as int]
    &&& forall|i: int, j: int|
        0 <= i < j < order.len() ==> ranks_before(keys, #[trigger] order[i] as int, #[trigger] order[j] as int)
    &&& forall|k: int|
        0 <= k < keys.len() && #[trigger] selected[k] ==> exists|i: int|
            0 <= i < order.len() && #[trigger] order[i] == k
}

/// The ranking of the selected positions of `keys`.
pub open spec fn ranking(keys: Seq<u64>, selected: Seq<bool>) -> Seq<usize> {
    choose|order: Seq<usize>| is_ranking(keys, selected, order)
}

/// How many positions a selection keeps.
pub open spec fn selected_count(selected: Seq<bool>) -> nat
    decreases selected.len(),
{
    if selected.len() == 0 {
        0
    } else {
        selected_count(selected.drop_last()) + if selected.last() {
            1nat
        } else {
            0nat
        }
    }
}

/// A selection that keeps every position.
pub open spec fn select_all(n: nat) -> Seq<bool> {
    Seq::new(n, |i: int| true)
}

/// The items of `items` at the positions that `order` lists.
pub open spec fn arranged<T>(items: Seq<T>, order: Seq<usize>) -> Seq<T> {
    Seq::new(order.len(), |i: int| items[order[i] as int])
}

proof fn lemma_rankings_agree_upto(
    keys: Seq<u64>,
    selected: Seq<bool>,
    a: Seq<usize>,
    b: Seq<usize>,
    n: int,
)
    requires
        is_ranking(keys, selected, a),
        is_ranking(keys, selected, b),
        0 <= n <= a.len(),
        n <= b.len(),
    ensures
        forall|i: int| 0 <= i < n ==> a[i] == b[i],
    decreases n,
{
    if n > 0 {
        lemma_rankings_agree_upto(keys, selected, a, b, n - 1);
        let i = n - 1;
        let x = a[i] as int;
        let y = b[i] as int;
        assert(selected[x]);
        assert(selected[y]);
        let j = choose|j: int| 0 <= j < a.len() && a[j] == y;
        let k = choose|k: int| 0 <= k < b.len() && b[k] == x;
        if j < i {
            assert(b[j] == a[j]);
            assert(ranks_before(keys, b[j] as int, b[i] as int));
        }
        if k < i {
            assert(a[k] == b[k]);
            assert(ranks_before(keys, a[k] as int, a[i] as int));
        }
        if j > i {
            assert(ranks_before(keys, a[i] as int, a[j] as int));
        }
        if k > i {
            assert(ranks_before(keys, b[i] as int, b[k] as int));
        }
    }
}

/// Keys and a selection admit at most one ranking.
pub proof fn lemma_ranking_unique(
    keys: Seq<u64>,
    selected: Seq<bool>,
    a: Seq<usize>,
    b: Seq<usize>,
)
    requires
        is_ranking(keys, selected, a),
        is_ranking(keys, selected, b),
    ensures
        a == b,
{
    if a.len() < b.len() {
        lemma_rankings_agree_upto(keys, selected, a, b, a.len() as int);
        let x = b[a.len() as int] as int;
        assert(selected[x]);
        let j = choose|j: int| 0 <= j < a.len() && a[j] == x;
        assert(b[j] == a[j]);
        assert(ranks_before(keys, b[j] as int, b[a.len() as int] as int));
    } else if b.len() < a.len() {
        lemma_rankings_agree_upto(keys, selected, a, b, b.len() as int);
        let x = a[b.len() as int] as int;
        assert(selected[x]);
        let j = choose|j: int| 0 <= j < b.len() && b[j] == x;
        assert(a[j] == b[j]);
        assert(ranks_before(keys, a[j] as int, a[b.len() as int] as int));
    } else {
        lemma_rankings_agree_upto(keys, selected, a, b, a.len() as int);
        assert(a =~= b);
    }
}

/// Whatever satisfies the ranking predicate is the ranking.
pub proof fn lemma_is_the_ranking(keys: Seq<u64>, selected: Seq<bool>, order: Seq<usize>)
    requires
        is_ranking(keys, selected, order),
    ensures
        order == ranking(keys, selected),
{
    lemma_ranking_unique(keys, selected, order, ranking(keys, selected));
}

/// How many leading positions of `order` carry a key of at least `key`.
pub open spec fn leading_at_least(keys: Seq<u64>, order: Seq<usize>, key: u64) -> nat
    decreases order.len(),
{
    if order.len() > 0 && keys[order[0] as int] >= key {
        1 + leading_at_least(keys, order.drop_first(), key)
    } else {
        0
    }
}

proof fn lemma_leading_at_least(keys: Seq<u64>, order: Seq<usize>, key: u64)
    ensures
        leading_at_least(keys, order, key) <= order.len(),
        forall|i: int|
            0 <= i < leading_at_least(keys, order, key) ==> keys[(#[trigger] order[i]) as int]
                >= key,
        leading_at_least(keys, order, key) < order.len() ==> keys[order[leading_at_least(
            keys,
            order,
            key,
        ) as int] as int] < key,
    decreases order.len(),
{
    if order.len() > 0 && keys[order[0] as int] >= key {
        let rest = order.drop_first();
        lemma_leading_at_least(keys, rest, key);
        assert forall|i: int| 0 <= i < leading_at_least(keys, order, key) implies keys[(
        #[trigger] order[i]) as int] >= key by {
            if i > 0 {
                assert(order[i] == rest[i - 1]);
            }
        }
        if leading_at_least(keys, order, key) < order.len() {
            assert(order[leading_at_least(keys, order, key) as int] == rest[leading_at_least(
                keys,
                rest,
                key,
            ) as int]);
        }
    }
}

/// The ranking of the first `n` positions, built one position at a time.
proof fn lemma_build_ranking(keys: Seq<u64>, selected: Seq<bool>, n: nat) -> (order: Seq<usize>)
    requires
        selected.len() == keys.len(),
        n <= keys.len(),
        n <= usize::MAX,
    ensures
        order.len() == selected_count(selected.take(n as int)),
        forall|i: int|
            0 <= i < order.len() ==> (#[trigger] order[i]) < n && selected[order[i] as int],
        forall|i: int, j: int|
            0 <= i < j < order.len() ==> ranks_before(
                keys,
                #[trigger] order[i] as int,
                #[trigger] order[j] as int,
            ),
        forall|k: int|
            0 <= k < n && #[trigger] selected[k] ==> exists|i: int|
                0 <= i < order.len() && #[trigger] order[i] == k,
    decreases n,
{
    if n == 0 {
        assert(selected.take(0) =~= Seq::<bool>::empty());
        Seq::<usize>::empty()
    } else {
        let next = (n - 1) as nat;
        let before = lemma_build_ranking(keys, selected, next);
        assert(selected.take(n as int).drop_last() =~= selected.take(next as int));
        assert(selected.take(n as int).last() == selected[next as int]);
        if selected[next as int] {
            let key = keys[next as int];
            lemma_leading_at_least(keys, before, key);
            let at = leading_at_least(keys, before, key) as int;
            let order = before.insert(at, next as usize);
            assert forall|i: int, j: int| 0 <= i < j < order.len() implies ranks_before(
                keys,
                #[trigger] order[i] as int,
                #[trigger] order[j] as int,
            ) by {
                if j < at {
                    assert(order[i] == before[i] && order[j] == before[j]);
                } else if j == at {
                    assert(order[i] == before[i]);
                } else if i < at {
                    assert(order[i] == before[i] && order[j] == before[j - 1]);
                } else if i == at {
                    assert(order[j] == before[j - 1]);
                    if at < j - 1 {
                        assert(ranks_before(keys, before[at] as int, before[j - 1] as int));
                    }
                } else {
                    assert(order[i] == before[i - 1] && order[j] == before[j - 1]);
                }
            }
            assert forall|i: int| 0 <= i < order.len() implies (#[trigger] order[i]) < n
                && selected[order[i] as int] by {
                if i < at {
                    assert(order[i] == before[i]);
                } else if i > at {
                    assert(order[i] == before[i - 1]);
                }
            }
            assert forall|k: int| 0 <= k < n && #[trigger] selected[k] implies exists|i: int|
                0 <= i < order.len() && #[trigger] order[i] == k by {
                if k == next {
                    assert(order[at] == k);
                } else {
                    let i0 = choose|i: int| 0 <= i < before.len() && before[i] == k;
                    if i0 < at {
                        assert(order[i0] == k);
                    } else {
                        assert(order[i0 + 1] == k);
                    }
                }
            }
            order
        } else {
            before
        }
    }
}

/// Every selection of at most `usize::MAX` positions has a ranking, and the
/// ranking lists as many positions as are selected.
pub proof fn lemma_ranking_exists(keys: Seq<u64>, selected: Seq<bool>)
    requires
        selected.len() == keys.len(),
        keys.len() <= usize::MAX,
    ensures
        is_ranking(keys, selected, ranking(keys, selected)),
        ranking(keys, selected).len() == selected_count(selected),
{
    let order = lemma_build_ranking(keys, selected, keys.len());
    assert(selected.take(keys.len() as int) =~= selected);
    assert(is_ranking(keys, selected, order));
    lemma_is_the_ranking(keys, selected, order);
}

/// A selection that keeps every position keeps all of them.
pub proof fn lemma_select_all_count(n: nat)
    ensures
        selected_count(select_all(n)) == n,
    decreases n,
{
    if n > 0 {
        assert(select_all(n).drop_last() =~= select_all((n - 1) as nat));
        lemma_select_all_count((n - 1) as nat);
    }
}

/// Of two selected positions, the one that ranks before the other comes
/// first in the ranking.
pub proof fn lemma_ranked_first(keys: Seq<u64>, selected: Seq<bool>, a: int, b: int)
    requires
        selected.len() == keys.len(),
        keys.len() <= usize::MAX,
        0 <= a < keys.len(),
        0 <= b < keys.len(),
        selected[a],
        selected[b],
        ranks_before(keys, a, b),
    ensures
        exists|i: int, j: int|
            0 <= i < j < ranking(keys, selected).len() && #[trigger] ranking(keys, selected)[i]
                == a && #[trigger] ranking(keys, selected)[j] == b,
{
    lemma_ranking_exists(keys, selected);
    let order = ranking(keys, selected);
    let i = choose|i: int| 0 <= i < order.len() && order[i] == a;
    let j = choose|j: int| 0 <= j < order.len() && order[j] == b;
    if j < i {
        assert(ranks_before(keys, order[j] as int, order[i] as int));
    }
    assert(order[i] == a && order[j] == b);
}

/// A position that is not selected occurs nowhere in the ranking.
pub proof fn lemma_unselected_absent(keys: Seq<u64>, selected: Seq<bool>, k: int)
    requires
        selected.len() == keys.len(),
        keys.len() <= usize::MAX,
        0 <= k < keys.len(),
        !selected[k],
    ensures
        forall|i: int|
            0 <= i < ranking(keys, selected).len() ==> #[trigger] ranking(keys, selected)[i] != k,
{
    lemma_ranking_exists(keys, selected);
}

/// The keys along a ranking never increase.
pub proof fn lemma_ranking_descends(keys: Seq<u64>, selected: Seq<bool>, i: int, j: int)
    requires
        selected.len() == keys.len(),
        keys.len() <= usize::MAX,
        0 <= i <= j < ranking(keys, selected).len(),
    ensures
        ranking(keys, selected)[i] < keys.len(),
        ranking(keys, selected)[j] < keys.len(),
        keys[ranking(keys, selected)[i] as int] >= keys[ranking(keys, selected)[j] as int],
{
    lemma_ranking_exists(keys, selected);
    let order = ranking(keys, selected);
    if i < j {
        assert(ranks_before(keys, order[i] as int, order[j] as int));
    }
}

/// Ranks the selected positions by key, highest first; equal keys keep the
/// order of the input.
pub fn rank_selected(keys: &Vec<u64>, selected: &Vec<bool>) -> (order: Vec<usize>)
    requires
        keys.len() == selected.len(),
    ensures
        is_ranking(keys@, selected@, order@),
        order@ == ranking(keys@, selected@),
        order@.len() == selected_count(selected@),
{
    let mut order: Vec<usize> = Vec::new();
    let mut next: usize = 0;
    proof {
        assert(selected@.take(0) =~= Seq::<bool>::empty());
    }
    while next < keys.len()
        invariant
            next <= keys.len(),
            keys.len() == selected.len(),
            order@.len() == selected_count(selected@.take(next as int)),
            forall|i: int|
                0 <= i < order.len() ==> (#[trigger] order[i]) < next && selected[order[i] as int],
            forall|i: int, j: int|
                0 <= i < j < order.len() ==> ranks_before(
                    keys@,
                    #[trigger] order[i] as int,
                    #[trigger] order[j] as int,
                ),
            forall|k: int|
                0 <= k < next && #[trigger] selected[k] ==> exists|i: int|
                    0 <= i < order.len() && #[trigger] order[i] == k,
        decreases keys.len() - next,
    {
        proof {
            assert(selected@.take(next + 1).drop_last() =~= selected@.take(next as int));
            assert(selected@.take(next + 1).last() == selected@[next as int]);
        }
        if selected[next] {
            let key = keys[next];
            let mut at: usize = 0;
            while at < order.len() && keys[order[at]] >= key
                invariant
                    at <= order.len(),
                    next < keys.len(),
                    key == keys[next as int],
                    forall|i: int| 0 <= i < order.len() ==> (#[trigger] order[i]) < next,
                    forall|i: int| 0 <= i < at ==> keys[(#[trigger] order[i]) as int] >= key,
                decreases order.len() - at,
            {
                at = at + 1;
            }
            let ghost before = order@;
            order.insert(at, next);
            proof {
                assert forall|i: int, j: int| 0 <= i < j < order.len() implies ranks_before(
                    keys@,
                    #[trigger] order[i] as int,
                    #[trigger] order[j] as int,
                ) by {
                    if j < at {
                        assert(order[i] == before[i] && order[j] == before[j]);
                    } else if j == at {
                        assert(order[i] == before[i]);
                    } else if i < at {
                        assert(order[i] == before[i] && order[j] == before[j - 1]);
                    } else if i == at {
                        assert(order[j] == before[j - 1]);
                        if at < j - 1 {
                            assert(ranks_before(keys@, before[at as int] as int, before[j - 1] as int));
                        }
                    } else {
                        assert(order[i] == before[i - 1] && order[j] == before[j - 1]);
                    }
                }
                assert forall|k: int| 0 <= k < next + 1 && #[trigger] selected[k] implies exists|
                    i: int,
                | 0 <= i < order.len() && #[trigger] order[i] == k by {
                    if k == next {
                        assert(order[at as int] == k);
                    } else {
                        let i0 = choose|i: int| 0 <= i < before.len() && before[i] == k;
                        if i0 < at {
                            assert(order[i0] == k);
                        } else {
                            assert(order[i0 + 1] == k);
                        }
                    }
                }
            }
        }
        next = next + 1;
    }
    proof {
        assert(selected@.take(selected.len() as int) =~= selected@);
        lemma_is_the_ranking(keys@, selected@, order@);
    }
    order
}

} // verus!
