//! Sorting by a key. Items with the same key keep their order.

use vstd::prelude::*;

verus! {

/// The list with one more item, put behind every item whose key is not larger.
pub open spec fn placed<T>(s: Seq<(u128, T)>, item: (u128, T)) -> Seq<(u128, T)>
    decreases s.len(),
{
    if s.len() == 0 || s.last().0 <= item.0 {
        s.push(item)
    } else {
        placed(s.drop_last(), item).push(s.last())
    }
}

/// The list sorted by key; items with the same key stay in the order they came in.
pub open spec fn sorted<T>(s: Seq<(u128, T)>) -> Seq<(u128, T)>
    decreases s.len(),
{
    if s.len() == 0 {
        Seq::empty()
    } else {
        placed(sorted(s.drop_last()), s.last())
    }
}

/// The keys do not decrease.
pub open spec fn ascending<T>(s: Seq<(u128, T)>) -> bool {
    forall|i: int, j: int| 0 <= i <= j < s.len() ==> s[i].0 <= s[j].0
}

/// The items with one key, in order.
pub open spec fn with_key<T>(s: Seq<(u128, T)>, key: u128) -> Seq<(u128, T)> {
    s.filter(|p: (u128, T)| p.0 == key)
}

proof fn lemma_placed<T>(s: Seq<(u128, T)>, item: (u128, T), key: u128)
    requires
        ascending(s),
    ensures
        ascending(placed(s, item)),
        placed(s, item).to_multiset() == s.to_multiset().insert(item),
        placed(s, item).len() == s.len() + 1,
        s.len() > 0 ==> placed(s, item).last().0 == (if s.last().0 <= item.0 {
            item.0
        } else {
            s.last().0
        }),
        s.len() == 0 ==> placed(s, item).last() == item,
        with_key(placed(s, item), key) == (if item.0 == key {
            with_key(s, key).push(item)
        } else {
            with_key(s, key)
        }),
    decreases s.len(),
{
    broadcast use vstd::seq_lib::group_to_multiset_ensures;

    reveal(Seq::filter);
    let p = |q: (u128, T)| q.0 == key;
    if s.len() == 0 || s.last().0 <= item.0 {
        assert(s.push(item).drop_last() =~= s);
        assert forall|i: int, j: int| 0 <= i <= j < s.push(item).len() implies s.push(item)[i].0
            <= s.push(item)[j].0 by {
            if i < s.len() && j == s.len() {
                assert(s[i].0 <= s[s.len() - 1].0);
            }
        }
    } else {
        let head = s.drop_last();
        lemma_placed(head, item, key);
        let h = placed(head, item);
        let r = h.push(s.last());
        assert(r.drop_last() =~= h);
        assert(head.push(s.last()) =~= s);
        assert(s.to_multiset() =~= head.to_multiset().insert(s.last()));
        assert(r.to_multiset() =~= s.to_multiset().insert(item));
        assert forall|i: int, j: int| 0 <= i <= j < r.len() implies r[i].0 <= r[j].0 by {
            if i < h.len() && j == h.len() {
                assert(h[i].0 <= h[h.len() - 1].0);
                if head.len() > 0 {
                    assert(s[s.len() - 2].0 <= s[s.len() - 1].0);
                }
            }
        }
        if s.last().0 == key {
            assert(item.0 != key);
        }
    }
}

/// Sorting gives the same items in ascending order of their keys, and leaves items
/// with the same key in the order they came in.
pub proof fn law_sorted<T>(s: Seq<(u128, T)>, key: u128)
    ensures
        ascending(sorted(s)),
        sorted(s).to_multiset() == s.to_multiset(),
        sorted(s).len() == s.len(),
        with_key(sorted(s), key) == with_key(s, key),
    decreases s.len(),
{
    broadcast use vstd::seq_lib::group_to_multiset_ensures;

    reveal(Seq::filter);
    if s.len() > 0 {
        law_sorted(s.drop_last(), key);
        lemma_placed(sorted(s.drop_last()), s.last(), key);
        assert(s.drop_last().push(s.last()) =~= s);
    } else {
        assert(sorted(s) =~= s);
    }
}

/// Each item with its key.
pub open spec fn keyed<T>(s: Seq<T>, f: spec_fn(T) -> u128) -> Seq<(u128, T)> {
    s.map_values(|t: T| (f(t), t))
}

/// The items in ascending order of their keys; items with the same key stay in the order
/// they came in.
pub open spec fn sorted_by<T>(s: Seq<T>, f: spec_fn(T) -> u128) -> Seq<T> {
    sorted(keyed(s, f)).map_values(|p: (u128, T)| p.1)
}

/// Sorting by a key gives the same items in ascending order of their keys, none lost and
/// none made up, and leaves items with the same key in the order they came in.
pub proof fn law_sorted_by<T>(s: Seq<T>, f: spec_fn(T) -> u128, key: u128)
    ensures
        sorted_by(s, f).to_multiset() == s.to_multiset(),
        sorted_by(s, f).len() == s.len(),
        forall|i: int, j: int|
            0 <= i <= j < s.len() ==> f(#[trigger] sorted_by(s, f)[i]) <= f(
                #[trigger] sorted_by(s, f)[j],
            ),
        sorted_by(s, f).filter(|t: T| f(t) == key) == s.filter(|t: T| f(t) == key),
{
    broadcast use vstd::seq_lib::group_to_multiset_ensures;

    let k = keyed(s, f);
    let all = sorted(k);
    let unpair = |p: (u128, T)| p.1;
    law_sorted(k, key);
    assert forall|i: int| 0 <= i < all.len() implies (#[trigger] all[i]).0 == f(all[i].1) by {
        assert(all.contains(all[i]));
        assert(all.to_multiset().count(all[i]) > 0);
        assert(k.contains(all[i]));
    }
    assert(keyed(sorted_by(s, f), f) =~= all);
    assert forall|i: int, j: int| 0 <= i <= j < s.len() implies f(#[trigger] sorted_by(s, f)[i])
        <= f(#[trigger] sorted_by(s, f)[j]) by {
        assert(all[i].0 <= all[j].0);
    }
    lemma_filter_keyed(s, f, key);
    lemma_filter_keyed(sorted_by(s, f), f, key);
    assert(k.map_values(unpair) =~= s);
    lemma_same_items(k, all, unpair);
}

/// The items with one key are those that have it among the keyed ones.
proof fn lemma_filter_keyed<T>(s: Seq<T>, f: spec_fn(T) -> u128, key: u128)
    ensures
        with_key(keyed(s, f), key).map_values(|p: (u128, T)| p.1) == s.filter(
            |t: T| f(t) == key,
        ),
    decreases s.len(),
{
    reveal(Seq::filter);
    let unpair = |p: (u128, T)| p.1;
    if s.len() > 0 {
        let head = s.drop_last();
        lemma_filter_keyed(head, f, key);
        assert(keyed(s, f).drop_last() =~= keyed(head, f));
        assert(with_key(keyed(s, f), key).map_values(unpair) =~= if f(s.last()) == key {
            with_key(keyed(head, f), key).map_values(unpair).push(s.last())
        } else {
            with_key(keyed(head, f), key).map_values(unpair)
        });
    } else {
        assert(with_key(keyed(s, f), key).map_values(unpair) =~= s.filter(|t: T| f(t) == key));
    }
}

/// Lists with the same items have the same items after a map.
proof fn lemma_same_items<A, B>(a: Seq<A>, b: Seq<A>, f: spec_fn(A) -> B)
    requires
        a.to_multiset() == b.to_multiset(),
    ensures
        a.map_values(f).to_multiset() == b.map_values(f).to_multiset(),
    decreases a.len(),
{
    broadcast use vstd::seq_lib::group_to_multiset_ensures;

    if a.len() == 0 {
        a.to_multiset_ensures();
        b.to_multiset_ensures();
        assert(b.len() == 0);
        assert(a.map_values(f) =~= b.map_values(f));
    } else {
        let x = a.last();
        let rest = a.drop_last();
        assert(a =~= rest.push(x));
        assert(b.to_multiset().count(x) > 0);
        assert(b.contains(x));
        let i = choose|i: int| 0 <= i < b.len() && b[i] == x;
        let b2 = b.remove(i);
        assert(b2.to_multiset() =~= rest.to_multiset());
        lemma_same_items(rest, b2, f);
        assert(a.map_values(f) =~= rest.map_values(f).push(f(x)));
        assert(b2.map_values(f) =~= b.map_values(f).remove(i));
        assert(b.map_values(f)[i] == f(x));
        assert(b.map_values(f).to_multiset() =~= b2.map_values(f).to_multiset().insert(f(x)));
    }
}

/// Where an item goes, found from the end of an ascending list.
proof fn lemma_placed_at<T>(s: Seq<(u128, T)>, item: (u128, T), p: int)
    requires
        0 <= p <= s.len(),
        p == 0 || s[p - 1].0 <= item.0,
        forall|i: int| p <= i < s.len() ==> s[i].0 > item.0,
    ensures
        placed(s, item) == s.insert(p, item),
    decreases s.len(),
{
    if p == s.len() {
        assert(s.push(item) =~= s.insert(p, item));
    } else {
        lemma_placed_at(s.drop_last(), item, p);
        assert(s.drop_last().insert(p, item).push(s.last()) =~= s.insert(p, item));
    }
}

/// The list with every item replaced by what `f` makes of it, under the same key.
pub open spec fn relabelled<T, U>(s: Seq<(u128, T)>, f: spec_fn(T) -> U) -> Seq<(u128, U)> {
    s.map_values(|p: (u128, T)| (p.0, f(p.1)))
}

proof fn lemma_placed_relabelled<T, U>(s: Seq<(u128, T)>, item: (u128, T), f: spec_fn(T) -> U)
    ensures
        relabelled(placed(s, item), f) == placed(relabelled(s, f), (item.0, f(item.1))),
    decreases s.len(),
{
    if s.len() == 0 || s.last().0 <= item.0 {
        assert(relabelled(s.push(item), f) =~= relabelled(s, f).push((item.0, f(item.1))));
    } else {
        lemma_placed_relabelled(s.drop_last(), item, f);
        assert(relabelled(s, f).drop_last() =~= relabelled(s.drop_last(), f));
        assert(relabelled(placed(s.drop_last(), item).push(s.last()), f) =~= relabelled(
            placed(s.drop_last(), item),
            f,
        ).push((s.last().0, f(s.last().1))));
    }
}

/// Sorting does not look at what is sorted, only at the keys.
pub proof fn lemma_sorted_relabelled<T, U>(s: Seq<(u128, T)>, f: spec_fn(T) -> U)
    ensures
        relabelled(sorted(s), f) == sorted(relabelled(s, f)),
    decreases s.len(),
{
    if s.len() > 0 {
        lemma_sorted_relabelled(s.drop_last(), f);
        lemma_placed_relabelled(sorted(s.drop_last()), s.last(), f);
        assert(relabelled(s, f).drop_last() =~= relabelled(s.drop_last(), f));
    } else {
        assert(relabelled(sorted(s), f) =~= sorted(relabelled(s, f)));
    }
}

/// Sorts a list by key and drops the keys.
pub fn in_order_of_keys<T>(items: Vec<(u128, T)>) -> (r: Vec<T>)
    ensures
        r@ == sorted(items@).map_values(|p: (u128, T)| p.1),
{
    let sorted = sort_by_key(items);
    let ghost after = sorted@;
    let mut out: Vec<T> = Vec::new();
    for pair in it: sorted
        invariant
            it.seq() == after,
            out@ == after.take(it.index() as int).map_values(|p: (u128, T)| p.1),
    {
        proof {
            assert(after.take(it.index() + 1).map_values(|p: (u128, T)| p.1) =~= after.take(
                it.index() as int,
            ).map_values(|p: (u128, T)| p.1).push(pair.1));
        }
        out.push(pair.1);
    }
    assert(after.take(after.len() as int) =~= after);
    out
}

/// Sorts a list by key.
pub fn sort_by_key<T>(items: Vec<(u128, T)>) -> (r: Vec<(u128, T)>)
    ensures
        r@ == sorted(items@),
{
    let ghost all = items@;
    let mut out: Vec<(u128, T)> = Vec::new();
    for item in it: items
        invariant
            it.seq() == all,
            out@ == sorted(all.take(it.index() as int)),
    {
        let mut p: usize = out.len();
        while p > 0 && out[p - 1].0 > item.0
            invariant
                p <= out@.len(),
                forall|i: int| p <= i < out@.len() ==> out@[i].0 > item.0,
            decreases p,
        {
            p = p - 1;
        }
        proof {
            lemma_placed_at(out@, item, p as int);
            assert(all.take(it.index() + 1).drop_last() =~= all.take(it.index() as int));
        }
        out.insert(p, item);
    }
    assert(all.take(all.len() as int) =~= all);
    out
}

} // verus!
