//! Putting a list in the order of a key.
//!
//! The order is made by insertion: every element is put behind the last
//! element whose key is not greater than its own. Elements of the same key
//! therefore keep the order in which they came.

use vstd::prelude::*;

verus! {

/// The keys of `list` never fall from one element to the next.
pub open spec fn is_ordered<T>(list: Seq<T>, key: spec_fn(T) -> int) -> bool {
    forall|i: int, j: int| 0 <= i < j < list.len() ==> key(#[trigger] list[i]) <= key(#[trigger] list[j])
}

/// The keys of `list` rise from each element to the next.
pub open spec fn is_rising<T>(list: Seq<T>, key: spec_fn(T) -> int) -> bool {
    forall|i: int, j: int| 0 <= i < j < list.len() ==> key(#[trigger] list[i]) < key(#[trigger] list[j])
}

/// Where an element of key `k` goes into `list`: behind the last element
/// whose key is at most `k`.
pub open spec fn insert_position<T>(list: Seq<T>, key: spec_fn(T) -> int, k: int) -> int
    decreases list.len(),
{
    if list.len() == 0 {
        0
    } else if key(list.last()) <= k {
        list.len() as int
    } else {
        insert_position(list.drop_last(), key, k)
    }
}

/// `list` with `element` put where its key places it.
pub open spec fn inserted<T>(list: Seq<T>, key: spec_fn(T) -> int, element: T) -> Seq<T> {
    list.insert(insert_position(list, key, key(element)), element)
}

/// The elements of `list` in the order of their keys. Elements of the
/// same key keep the order they had.
pub open spec fn ordered<T>(list: Seq<T>, key: spec_fn(T) -> int) -> Seq<T>
    decreases list.len(),
{
    if list.len() == 0 {
        seq![]
    } else {
        inserted(ordered(list.drop_last(), key), key, list.last())
    }
}

/// The place of a new element lies within the list or at its end; what
/// stands before it has a key that is not greater, what stands behind it a
/// greater one.
pub proof fn lemma_insert_position<T>(list: Seq<T>, key: spec_fn(T) -> int, k: int)
    ensures
        0 <= insert_position(list, key, k) <= list.len(),
        forall|i: int| insert_position(list, key, k) <= i < list.len() ==> key(#[trigger] list[i]) > k,
        insert_position(list, key, k) > 0 ==> key(list[insert_position(list, key, k) - 1]) <= k,
    decreases list.len(),
{
    if list.len() > 0 && key(list.last()) > k {
        let front = list.drop_last();
        lemma_insert_position(front, key, k);
        let p = insert_position(list, key, k);
        assert forall|i: int| p <= i < list.len() implies key(#[trigger] list[i]) > k by {
            if i < list.len() - 1 {
                assert(front[i] == list[i]);
            }
        }
        if p > 0 {
            assert(front[p - 1] == list[p - 1]);
        }
    }
}

/// Putting an element where its key places it keeps a list in order.
pub proof fn lemma_inserted_is_ordered<T>(list: Seq<T>, key: spec_fn(T) -> int, element: T)
    requires
        is_ordered(list, key),
    ensures
        is_ordered(inserted(list, key, element), key),
        inserted(list, key, element).len() == list.len() + 1,
        inserted(list, key, element).to_multiset() == list.to_multiset().insert(element),
{
    broadcast use vstd::seq_lib::group_to_multiset_ensures;

    lemma_insert_position(list, key, key(element));
    let p = insert_position(list, key, key(element));
    let out = inserted(list, key, element);
    assert forall|i: int, j: int| 0 <= i < j < out.len() implies key(#[trigger] out[i]) <= key(
        #[trigger] out[j],
    ) by {
        if j < p {
            assert(out[i] == list[i] && out[j] == list[j]);
        } else if j == p {
            assert(out[i] == list[i]);
            assert(out[j] == element);
            if i < p - 1 {
                assert(key(list[i]) <= key(list[p - 1]));
            }
        } else if i < p {
            assert(out[i] == list[i] && out[j] == list[j - 1]);
            if i < j - 1 {
                assert(key(list[i]) <= key(list[j - 1]));
            }
        } else if i == p {
            assert(out[i] == element && out[j] == list[j - 1]);
            assert(key(list[j - 1]) > key(element));
        } else {
            assert(out[i] == list[i - 1] && out[j] == list[j - 1]);
        }
    }
}

/// Ordering a list puts it in order and neither adds nor loses an
/// element.
pub proof fn lemma_ordered<T>(list: Seq<T>, key: spec_fn(T) -> int)
    ensures
        is_ordered(ordered(list, key), key),
        ordered(list, key).len() == list.len(),
        ordered(list, key).to_multiset() == list.to_multiset(),
    decreases list.len(),
{
    broadcast use vstd::seq_lib::group_to_multiset_ensures;

    if list.len() > 0 {
        let front = list.drop_last();
        lemma_ordered(front, key);
        lemma_inserted_is_ordered(ordered(front, key), key, list.last());
        assert(list =~= front.push(list.last()));
    } else {
        assert(ordered(list, key) =~= list);
    }
}

/// A list in order that holds the same elements as a list of rising keys
/// is that list.
pub proof fn lemma_order_is_unique<T>(a: Seq<T>, b: Seq<T>, key: spec_fn(T) -> int)
    requires
        is_ordered(a, key),
        is_rising(b, key),
        a.to_multiset() == b.to_multiset(),
    ensures
        a == b,
    decreases a.len(),
{
    broadcast use vstd::seq_lib::group_to_multiset_ensures;

    assert(a.len() == b.len()) by {
        vstd::seq_lib::to_multiset_len(a);
        vstd::seq_lib::to_multiset_len(b);
    }
    if a.len() == 0 {
        assert(a =~= b);
    } else {
        let n = a.len() as int;
        assert(a.contains(a.last()));
        assert(b.contains(b.last()));
        assert(b.to_multiset().count(a.last()) > 0);
        assert(a.to_multiset().count(b.last()) > 0);
        assert(b.contains(a.last()));
        assert(a.contains(b.last()));
        let j = choose|j: int| 0 <= j < b.len() && b[j] == a.last();
        let i = choose|i: int| 0 <= i < a.len() && a[i] == b.last();
        assert(key(a[i]) <= key(a[n - 1]) || i == n - 1);
        assert(key(b[j]) <= key(b[n - 1]));
        if j < n - 1 {
            assert(key(b[j]) < key(b[n - 1]));
        }
        assert(a.last() == b.last());
        let x = a.last();
        assert(a =~= a.drop_last().push(x));
        assert(b =~= b.drop_last().push(x));
        assert(a.drop_last().to_multiset() =~= a.to_multiset().remove(x)) by {
            assert(a.drop_last().push(x).to_multiset() =~= a.drop_last().to_multiset().insert(x));
        }
        assert(b.drop_last().to_multiset() =~= b.to_multiset().remove(x)) by {
            assert(b.drop_last().push(x).to_multiset() =~= b.drop_last().to_multiset().insert(x));
        }
        assert forall|p: int, q: int| 0 <= p < q < a.drop_last().len() implies key(
            #[trigger] a.drop_last()[p],
        ) <= key(#[trigger] a.drop_last()[q]) by {
            assert(a.drop_last()[p] == a[p] && a.drop_last()[q] == a[q]);
        }
        assert forall|p: int, q: int| 0 <= p < q < b.drop_last().len() implies key(
            #[trigger] b.drop_last()[p],
        ) < key(#[trigger] b.drop_last()[q]) by {
            assert(b.drop_last()[p] == b[p] && b.drop_last()[q] == b[q]);
        }
        lemma_order_is_unique(a.drop_last(), b.drop_last(), key);
    }
}

} // verus!
