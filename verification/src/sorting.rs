//! Putting items in the order of their keys, such that items with equal keys
//! stay in the order they came in.

use vstd::prelude::*;

verus! {

/// The run `order` of positions, which rises by key, with position `i` put
/// behind the last position whose key is not greater.
pub open spec fn insert_by_key(order: Seq<int>, keys: Seq<i128>, i: int) -> Seq<int>
    decreases order.len(),
{
    if order.len() == 0 {
        seq![i]
    } else if keys[order.last()] <= keys[i] {
        order.push(i)
    } else {
        insert_by_key(order.drop_last(), keys, i).push(order.last())
    }
}

/// The positions of the first `n` keys, in the order of the keys; among equal
/// keys, in the order of the positions.
pub open spec fn stable_order_of(keys: Seq<i128>, n: int) -> Seq<int>
    decreases n,
{
    if n <= 0 {
        Seq::<int>::empty()
    } else {
        insert_by_key(stable_order_of(keys, n - 1), keys, n - 1)
    }
}

/// The positions of the keys, in the order of the keys; among equal keys, in
/// the order of the positions.
pub open spec fn stable_order(keys: Seq<i128>) -> Seq<int> {
    stable_order_of(keys, keys.len() as int)
}

/// The items at the positions that `order` lists.
pub open spec fn reorder<T>(items: Seq<T>, order: Seq<int>) -> Seq<T> {
    Seq::new(order.len(), |k: int| items[order[k]])
}

/// Whether `order` lists each of the positions below `n` once, with keys that
/// never fall, and equal keys in the order of their positions.
pub open spec fn is_stable_order(order: Seq<int>, keys: Seq<i128>, n: int) -> bool {
    &&& order.len() == n
    &&& forall|k: int| 0 <= k < n ==> 0 <= #[trigger] order[k] < n
    &&& forall|p: int| 0 <= p < n ==> #[trigger] order.contains(p)
    &&& forall|a: int, b: int| 0 <= a < b < n ==> #[trigger] order[a] != #[trigger] order[b]
    &&& forall|a: int, b: int|
        0 <= a < b < n ==> keys[#[trigger] order[a]] <= keys[#[trigger] order[b]]
    &&& forall|a: int, b: int|
        0 <= a < b < n && keys[#[trigger] order[a]] == keys[#[trigger] order[b]] ==> order[a]
            < order[b]
}

/// Where `insert_by_key` puts the new position: behind `cut` positions.
proof fn lemma_insert_at(order: Seq<int>, keys: Seq<i128>, i: int, cut: int)
    requires
        0 <= cut <= order.len(),
        forall|k: int| cut <= k < order.len() ==> keys[#[trigger] order[k]] > keys[i],
        cut > 0 ==> keys[order[cut - 1]] <= keys[i],
    ensures
        insert_by_key(order, keys, i) == order.take(cut).push(i) + order.skip(cut),
    decreases order.len(),
{
    if order.len() == 0 {
        assert(order.take(0).push(i) + order.skip(0) == seq![i]);
    } else if cut == order.len() {
        assert(order.take(cut) == order);
        assert(order.push(i) + order.skip(cut) == order.push(i));
    } else {
        assert(keys[order[order.len() - 1]] > keys[i]);
        let shorter = order.drop_last();
        assert forall|k: int| cut <= k < shorter.len() implies keys[#[trigger] shorter[k]]
            > keys[i] by {
            assert(shorter[k] == order[k]);
        }
        lemma_insert_at(shorter, keys, i, cut);
        assert(shorter.take(cut) == order.take(cut));
        assert((order.take(cut).push(i) + shorter.skip(cut)).push(order.last()) == order.take(
            cut,
        ).push(i) + order.skip(cut));
    }
}

/// Putting one more position into a stable order of the positions before it
/// gives a stable order again.
proof fn lemma_insert_keeps_order(order: Seq<int>, keys: Seq<i128>, n: int)
    requires
        0 <= n < keys.len(),
        is_stable_order(order, keys, n),
    ensures
        is_stable_order(insert_by_key(order, keys, n), keys, n + 1),
    decreases order.len(),
{
    let cut = first_greater(order, keys, n);
    lemma_first_greater(order, keys, n);
    lemma_insert_at(order, keys, n, cut);
    let next = insert_by_key(order, keys, n);
    assert(next == order.take(cut).push(n) + order.skip(cut));
    assert(next.len() == n + 1);
    assert forall|k: int| 0 <= k < n + 1 implies 0 <= #[trigger] next[k] < n + 1 by {
        if k < cut {
            assert(next[k] == order[k]);
        } else if k > cut {
            assert(next[k] == order[k - 1]);
        }
    }
    assert forall|p: int| 0 <= p < n + 1 implies #[trigger] next.contains(p) by {
        if p == n {
            assert(next[cut] == n);
        } else {
            assert(order.contains(p));
            let k0 = choose|k: int| 0 <= k < order.len() && order[k] == p;
            if k0 < cut {
                assert(next[k0] == p);
            } else {
                assert(next[k0 + 1] == order[k0]);
            }
        }
    }
    assert forall|a: int, b: int| 0 <= a < b < n + 1 implies #[trigger] next[a]
        != #[trigger] next[b] by {
        let oa = if a < cut {
            order[a]
        } else if a == cut {
            n
        } else {
            order[a - 1]
        };
        let ob = if b < cut {
            order[b]
        } else if b == cut {
            n
        } else {
            order[b - 1]
        };
        assert(next[a] == oa);
        assert(next[b] == ob);
    }
    assert forall|a: int, b: int| 0 <= a < b < n + 1 implies keys[#[trigger] next[a]]
        <= keys[#[trigger] next[b]] by {
        let oa = if a < cut {
            order[a]
        } else if a == cut {
            n
        } else {
            order[a - 1]
        };
        let ob = if b < cut {
            order[b]
        } else if b == cut {
            n
        } else {
            order[b - 1]
        };
        assert(next[a] == oa);
        assert(next[b] == ob);
        if b == cut {
            assert(keys[order[a]] <= keys[order[cut - 1]]);
        }
    }
    assert forall|a: int, b: int|
        0 <= a < b < n + 1 && keys[#[trigger] next[a]] == keys[#[trigger] next[b]] implies next[a]
        < next[b] by {
        let oa = if a < cut {
            order[a]
        } else if a == cut {
            n
        } else {
            order[a - 1]
        };
        let ob = if b < cut {
            order[b]
        } else if b == cut {
            n
        } else {
            order[b - 1]
        };
        assert(next[a] == oa);
        assert(next[b] == ob);
    }
}

/// The first place in `order` whose key is greater than that of `i`, or the
/// length where there is none.
pub open spec fn first_greater(order: Seq<int>, keys: Seq<i128>, i: int) -> int
    decreases order.len(),
{
    if order.len() == 0 || keys[order.last()] <= keys[i] {
        order.len() as int
    } else {
        first_greater(order.drop_last(), keys, i)
    }
}

proof fn lemma_first_greater(order: Seq<int>, keys: Seq<i128>, i: int)
    ensures
        0 <= first_greater(order, keys, i) <= order.len(),
        forall|k: int|
            first_greater(order, keys, i) <= k < order.len() ==> keys[#[trigger] order[k]]
                > keys[i],
        first_greater(order, keys, i) > 0 ==> keys[order[first_greater(order, keys, i) - 1]]
            <= keys[i],
    decreases order.len(),
{
    if order.len() == 0 || keys[order.last()] <= keys[i] {
    } else {
        let shorter = order.drop_last();
        lemma_first_greater(shorter, keys, i);
        let cut = first_greater(shorter, keys, i);
        assert forall|k: int| cut <= k < order.len() implies keys[#[trigger] order[k]]
            > keys[i] by {
            if k < shorter.len() {
                assert(shorter[k] == order[k]);
            }
        }
        if cut > 0 {
            assert(shorter[cut - 1] == order[cut - 1]);
        }
    }
}

/// The order of the keys lists every position once, rises by key, and keeps
/// positions with equal keys in their order.
pub proof fn lemma_stable_order(keys: Seq<i128>)
    ensures
        is_stable_order(stable_order(keys), keys, keys.len() as int),
{
    lemma_stable_order_of(keys, keys.len() as int);
}

proof fn lemma_stable_order_of(keys: Seq<i128>, n: int)
    requires
        0 <= n <= keys.len(),
    ensures
        is_stable_order(stable_order_of(keys, n), keys, n),
    decreases n,
{
    if n > 0 {
        lemma_stable_order_of(keys, n - 1);
        lemma_insert_keeps_order(stable_order_of(keys, n - 1), keys, n - 1);
    }
}

/// Items whose keys never fall are in their stable order already.
pub proof fn lemma_sorted_keys_stay(keys: Seq<i128>, n: int)
    requires
        0 <= n <= keys.len(),
        forall|a: int, b: int| 0 <= a <= b < keys.len() ==> keys[a] <= keys[b],
    ensures
        stable_order_of(keys, n) == Seq::new(n as nat, |k: int| k),
    decreases n,
{
    if n > 0 {
        lemma_sorted_keys_stay(keys, n - 1);
        let before = Seq::new((n - 1) as nat, |k: int| k);
        if n > 1 {
            assert(before.last() == n - 2);
        }
        assert(insert_by_key(before, keys, n - 1) == before.push(n - 1));
        assert(before.push(n - 1) == Seq::new(n as nat, |k: int| k));
    }
}

/// Puts `items` in the stable order of `keys`, and `keys` with them.
pub fn sort_by_keys<T>(items: &mut Vec<T>, keys: &mut Vec<i128>)
    requires
        old(items).len() == old(keys).len(),
    ensures
        final(items)@ == reorder(old(items)@, stable_order(old(keys)@)),
        final(keys)@ == reorder(old(keys)@, stable_order(old(keys)@)),
{
    let n = items.len();
    let ghost keys0 = keys@;
    let ghost items0 = items@;
    let ghost mut order: Seq<int> = Seq::new(n as nat, |k: int| k);
    let mut i: usize = 0;
    assert(order.take(0) == stable_order_of(keys0, 0));
    assert(items@ == reorder(items0, order));
    assert(keys@ == reorder(keys0, order));
    while i < n
        invariant
            i <= n,
            n == keys0.len(),
            n == items0.len(),
            order.len() == n,
            items@ == reorder(items0, order),
            keys@ == reorder(keys0, order),
            order.take(i as int) == stable_order_of(keys0, i as int),
            forall|k: int| i <= k < n ==> order[k] == k,
        decreases n - i,
    {
        let key = keys[i];
        let mut j: usize = i;
        let ghost sorted = order.take(i as int);
        proof {
            lemma_first_greater(sorted, keys0, i as int);
            lemma_stable_order_of(keys0, i as int);
        }
        while j > 0 && keys[j - 1] > key
            invariant
                j <= i,
                i < n,
                n == keys0.len(),
                order.len() == n,
                keys@ == reorder(keys0, order),
                sorted == order.take(i as int),
                key == keys0[i as int],
                is_stable_order(sorted, keys0, i as int),
                forall|k: int| j <= k < i ==> keys0[#[trigger] sorted[k]] > key,
            decreases j,
        {
            assert(keys@[j - 1] == keys0[order[j - 1]]);
            assert(sorted[j - 1] == order[j - 1]);
            j = j - 1;
        }
        proof {
            if j > 0 {
                assert(keys@[j - 1] == keys0[order[j - 1]]);
                assert(sorted[j - 1] == order[j - 1]);
            }
            lemma_insert_at(sorted, keys0, i as int, j as int);
        }
        let ghost next = (sorted.take(j as int).push(i as int) + sorted.skip(j as int))
            + order.skip(i + 1);
        if j < i {
            let item = items.remove(i);
            items.insert(j, item);
            let k = keys.remove(i);
            keys.insert(j, k);
        }
        proof {
            assert(next.len() == n);
            assert forall|k: int| 0 <= k < n implies #[trigger] items@[k] == items0[next[k]] by {
                if k < j {
                    assert(next[k] == order[k]);
                } else if k == j {
                    assert(next[k] == i);
                } else if k <= i {
                    assert(next[k] == sorted[k - 1]);
                    assert(sorted[k - 1] == order[k - 1]);
                } else {
                    assert(next[k] == order[k]);
                }
            }
            assert forall|k: int| 0 <= k < n implies #[trigger] keys@[k] == keys0[next[k]] by {
                if k < j {
                    assert(next[k] == order[k]);
                } else if k == j {
                    assert(next[k] == i);
                } else if k <= i {
                    assert(next[k] == sorted[k - 1]);
                    assert(sorted[k - 1] == order[k - 1]);
                } else {
                    assert(next[k] == order[k]);
                }
            }
            assert(items@ == reorder(items0, next));
            assert(keys@ == reorder(keys0, next));
            assert(next.take(i + 1) == sorted.take(j as int).push(i as int) + sorted.skip(
                j as int,
            ));
            assert forall|k: int| i + 1 <= k < n implies next[k] == k by {
                assert(next[k] == order[k]);
            }
            order = next;
        }
        i = i + 1;
    }
    assert(order.take(n as int) == order);
}

} // verus!
