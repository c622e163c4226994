//! Sorting items by a key without disturbing the order of equal keys.

use vstd::prelude::*;

verus! {

/// An item with the sequence of numbers that it is ordered by.
pub trait Keyed: Sized {
    /// The key.
    spec fn key(&self) -> Seq<u32>;

    /// Computes the key.
    fn sort_key(&self) -> (key: Vec<u32>)
        ensures
            key@ == self.key(),
    ;
}

/// Lexicographic order: the first difference decides, and a proper prefix
/// comes before what it is a prefix of.
pub open spec fn precedes(a: Seq<u32>, b: Seq<u32>) -> bool
    decreases a.len(),
{
    if a.len() == 0 {
        b.len() > 0
    } else if b.len() == 0 {
        false
    } else if a[0] != b[0] {
        a[0] < b[0]
    } else {
        precedes(a.skip(1), b.skip(1))
    }
}

/// No item comes before one that stands further to the front.
pub open spec fn ascending<T: Keyed>(items: Seq<T>) -> bool {
    forall|i: int, j: int|
        #![trigger items[i], items[j]]
        0 <= i < j < items.len() ==> !precedes(items[j].key(), items[i].key())
}

/// Having a given key.
pub open spec fn has_key<T: Keyed>(key: Seq<u32>) -> spec_fn(T) -> bool {
    |item: T| item.key() == key
}

/// The items that have a given key, in order.
pub open spec fn having_key<T: Keyed>(items: Seq<T>, key: Seq<u32>) -> Seq<T> {
    items.filter(has_key(key))
}

/// `sorted` holds the items of `items` by ascending key, and items with the
/// same key in the order that they had.
pub open spec fn stably_sorted<T: Keyed>(items: Seq<T>, sorted: Seq<T>) -> bool {
    &&& ascending(sorted)
    &&& sorted.len() == items.len()
    &&& forall|key: Seq<u32>| #[trigger] having_key(sorted, key) == having_key(items, key)
}

/// Of any two keys at most one precedes the other, and equal keys neither.
pub proof fn precedes_is_asymmetric(a: Seq<u32>, b: Seq<u32>)
    ensures
        precedes(a, b) ==> !precedes(b, a),
        !precedes(a, b) && !precedes(b, a) ==> a == b,
    decreases a.len(),
{
    if a.len() > 0 && b.len() > 0 && a[0] == b[0] {
        precedes_is_asymmetric(a.skip(1), b.skip(1));
        if a.skip(1) == b.skip(1) {
            assert(a =~= seq![a[0]] + a.skip(1));
            assert(b =~= seq![b[0]] + b.skip(1));
        }
    } else if a.len() == 0 && b.len() == 0 {
        assert(a =~= b);
    }
}

/// The order of keys is transitive.
pub proof fn precedes_is_transitive(a: Seq<u32>, b: Seq<u32>, c: Seq<u32>)
    requires
        precedes(a, b),
        precedes(b, c),
    ensures
        precedes(a, c),
    decreases a.len(),
{
    if a.len() > 0 && b.len() > 0 && c.len() > 0 && a[0] == b[0] && b[0] == c[0] {
        precedes_is_transitive(a.skip(1), b.skip(1), c.skip(1));
    }
}

proof fn lemma_not_precedes_transitive(a: Seq<u32>, b: Seq<u32>, c: Seq<u32>)
    requires
        !precedes(b, a),
        !precedes(c, b),
    ensures
        !precedes(c, a),
{
    precedes_is_asymmetric(a, b);
    precedes_is_asymmetric(b, c);
    if precedes(c, a) {
        if a == b {
        } else {
            precedes_is_transitive(c, a, b);
        }
    }
}

/// Tells whether a key comes before another.
pub fn comes_before(a: &[u32], b: &[u32]) -> (result: bool)
    ensures
        result == precedes(a@, b@),
{
    let mut i: usize = 0;
    assert(a@.skip(0) =~= a@);
    assert(b@.skip(0) =~= b@);
    loop
        invariant
            i <= a@.len(),
            i <= b@.len(),
            precedes(a@, b@) == precedes(a@.skip(i as int), b@.skip(i as int)),
        decreases a@.len() - i,
    {
        let ghost x = a@.skip(i as int);
        let ghost y = b@.skip(i as int);
        if i == a.len() {
            return i < b.len();
        }
        if i == b.len() {
            return false;
        }
        assert(x[0] == a@[i as int]);
        assert(y[0] == b@[i as int]);
        if a[i] != b[i] {
            return a[i] < b[i];
        }
        assert(x.skip(1) =~= a@.skip(i + 1));
        assert(y.skip(1) =~= b@.skip(i + 1));
        i += 1;
    }
}

proof fn lemma_filter_none<T>(s: Seq<T>, pred: spec_fn(T) -> bool)
    requires
        forall|i: int| 0 <= i < s.len() ==> !pred(#[trigger] s[i]),
    ensures
        s.filter(pred) == Seq::<T>::empty(),
    decreases s.len(),
{
    reveal(Seq::filter);
    if s.len() > 0 {
        lemma_filter_none(s.drop_last(), pred);
    }
}

proof fn lemma_insert<T: Keyed>(sorted: Seq<T>, at: int, item: T)
    requires
        ascending(sorted),
        0 <= at <= sorted.len(),
        forall|i: int| at <= i < sorted.len() ==> precedes(item.key(), #[trigger] sorted[i].key()),
        at > 0 ==> !precedes(item.key(), sorted[at - 1].key()),
    ensures
        ascending(sorted.insert(at, item)),
        forall|key: Seq<u32>| #[trigger]
            having_key(sorted.insert(at, item), key) == having_key(sorted.push(item), key),
{
    let after = sorted.insert(at, item);
    assert forall|i: int, j: int|
        #![trigger after[i], after[j]]
        0 <= i < j < after.len() implies !precedes(after[j].key(), after[i].key()) by {
        if i < at && j == at {
            if i < at - 1 {
                assert(!precedes(sorted[at - 1].key(), sorted[i].key()));
                lemma_not_precedes_transitive(sorted[i].key(), sorted[at - 1].key(), item.key());
            }
        } else if i == at {
            precedes_is_asymmetric(item.key(), sorted[j - 1].key());
        } else {
            let a = if i < at { i } else { i - 1 };
            let b = if j < at { j } else { j - 1 };
            assert(after[i] == sorted[a]);
            assert(after[j] == sorted[b]);
        }
    }
    assert forall|key: Seq<u32>| #[trigger]
        having_key(after, key) == having_key(sorted.push(item), key) by {
        let pred = has_key::<T>(key);
        let front = sorted.take(at);
        let back = sorted.skip(at);
        assert(after =~= front + seq![item] + back);
        assert(sorted.push(item) =~= front + back + seq![item]);
        Seq::filter_distributes_over_add(front + seq![item], back, pred);
        Seq::filter_distributes_over_add(front, seq![item], pred);
        Seq::filter_distributes_over_add(front + back, seq![item], pred);
        Seq::filter_distributes_over_add(front, back, pred);
        if item.key() == key {
            assert forall|i: int| 0 <= i < back.len() implies !pred(#[trigger] back[i]) by {
                assert(back[i] == sorted[at + i]);
                precedes_is_asymmetric(item.key(), sorted[at + i].key());
            }
            lemma_filter_none(back, pred);
        } else {
            lemma_filter_none(seq![item], pred);
        }
        assert(having_key(after, key) =~= having_key(sorted.push(item), key));
    }
}

/// Sorts items by their keys, keeping the order of items with equal keys.
pub fn stable_sort<T: Keyed>(items: Vec<T>) -> (sorted: Vec<T>)
    ensures
        stably_sorted(items@, sorted@),
{
    let ghost all = items@;
    let mut sorted: Vec<T> = Vec::new();
    let mut rest: Vec<T> = items;
    let ghost mut done: int = 0;
    assert(all.take(0) =~= Seq::<T>::empty());
    assert(rest@ =~= all.skip(0));
    while rest.len() > 0
        invariant
            0 <= done <= all.len(),
            rest@ == all.skip(done),
            stably_sorted(all.take(done), sorted@),
        decreases rest@.len(),
    {
        let item = rest.remove(0);
        let key = item.sort_key();
        let mut at: usize = sorted.len();
        let mut searching: bool = true;
        while searching
            invariant
                at <= sorted@.len(),
                key@ == item.key(),
                forall|i: int| at <= i < sorted@.len() ==> precedes(
                    item.key(),
                    #[trigger] sorted@[i].key(),
                ),
                !searching ==> (at > 0 ==> !precedes(item.key(), sorted@[at - 1].key())),
            decreases at + (if searching { 1int } else { 0int }),
        {
            if at == 0 {
                searching = false;
            } else {
                let other = sorted[at - 1].sort_key();
                if comes_before(key.as_slice(), other.as_slice()) {
                    at -= 1;
                } else {
                    searching = false;
                }
            }
        }
        let ghost before = sorted@;
        proof {
            lemma_insert(before, at as int, item);
        }
        sorted.insert(at, item);
        proof {
            assert(sorted@ =~= before.insert(at as int, item));
            let longer = all.take(done + 1);
            assert(longer =~= all.take(done).push(item));
            assert forall|k: Seq<u32>| #[trigger]
                having_key(sorted@, k) == having_key(longer, k) by {
                let pred = has_key::<T>(k);
                assert(having_key(before.insert(at as int, item), k) == having_key(
                    before.push(item),
                    k,
                ));
                assert(having_key(before, k) == having_key(all.take(done), k));
                assert(before.push(item) =~= before + seq![item]);
                assert(longer =~= all.take(done) + seq![item]);
                Seq::filter_distributes_over_add(before, seq![item], pred);
                Seq::filter_distributes_over_add(all.take(done), seq![item], pred);
            }
            done = done + 1;
            assert(rest@ =~= all.skip(done));
        }
    }
    assert(all.take(done) =~= all);
    sorted
}

/// Where two items of a sequence stand in what a filter leaves of it: one behind
/// the other, as they did.
pub proof fn lemma_filter_keeps_pairs<T>(s: Seq<T>, pred: spec_fn(T) -> bool, i: int, j: int) -> (at: (
    int,
    int,
))
    requires
        0 <= i < j < s.len(),
        pred(s[i]),
        pred(s[j]),
    ensures
        0 <= at.0 < at.1 < s.filter(pred).len(),
        s.filter(pred)[at.0] == s[i],
        s.filter(pred)[at.1] == s[j],
    decreases s.len(),
{
    reveal(Seq::filter);
    let front = s.drop_last();
    if j < s.len() - 1 {
        let at = lemma_filter_keeps_pairs(front, pred, i, j);
        assert(s.filter(pred)[at.0] == front.filter(pred)[at.0]);
        assert(s.filter(pred)[at.1] == front.filter(pred)[at.1]);
        at
    } else {
        let first = lemma_filter_keeps(front, pred, i);
        assert(s.filter(pred)[first] == front.filter(pred)[first]);
        (first, front.filter(pred).len() as int)
    }
}

proof fn lemma_filter_keeps<T>(s: Seq<T>, pred: spec_fn(T) -> bool, i: int) -> (at: int)
    requires
        0 <= i < s.len(),
        pred(s[i]),
    ensures
        0 <= at < s.filter(pred).len(),
        s.filter(pred)[at] == s[i],
    decreases s.len(),
{
    reveal(Seq::filter);
    let front = s.drop_last();
    if i < s.len() - 1 {
        let at = lemma_filter_keeps(front, pred, i);
        assert(s.filter(pred)[at] == front.filter(pred)[at]);
        at
    } else {
        front.filter(pred).len() as int
    }
}

/// Where what a filter leaves of a sequence comes from.
proof fn lemma_filter_origin<T>(s: Seq<T>, pred: spec_fn(T) -> bool, p: int, q: int) -> (from: (
    int,
    int,
))
    requires
        0 <= p <= q < s.filter(pred).len(),
    ensures
        0 <= from.0 <= from.1 < s.len(),
        p < q ==> from.0 < from.1,
        s[from.0] == s.filter(pred)[p],
        s[from.1] == s.filter(pred)[q],
    decreases s.len(),
{
    reveal(Seq::filter);
    let front = s.drop_last();
    let kept = front.filter(pred);
    if q < kept.len() {
        lemma_filter_origin(front, pred, p, q)
    } else if p == q {
        (s.len() - 1, s.len() - 1)
    } else {
        let from = lemma_filter_origin(front, pred, p, p);
        (from.0, s.len() - 1)
    }
}

proof fn lemma_same_key_pairs<T: Keyed>(
    items: Seq<T>,
    sorted: Seq<T>,
    key: Seq<u32>,
    i: int,
    j: int,
) -> (from: (int, int))
    requires
        having_key(sorted, key) == having_key(items, key),
        0 <= i < j < sorted.len(),
        sorted[i].key() == key,
        sorted[j].key() == key,
    ensures
        0 <= from.0 < from.1 < items.len(),
        items[from.0] == sorted[i],
        items[from.1] == sorted[j],
{
    let pred = has_key::<T>(key);
    let at = lemma_filter_keeps_pairs(sorted, pred, i, j);
    lemma_filter_origin(items, pred, at.0, at.1)
}

/// Sorting adds nothing and does not exchange items with equal keys: two items
/// with the same key come from two items in the same order.
pub proof fn sorting_keeps_order<T: Keyed>(items: Seq<T>, sorted: Seq<T>, i: int, j: int) -> (from:
    (int, int))
    requires
        stably_sorted(items, sorted),
        0 <= i < j < sorted.len(),
        sorted[i].key() == sorted[j].key(),
    ensures
        0 <= from.0 < from.1 < items.len(),
        items[from.0] == sorted[i],
        items[from.1] == sorted[j],
{
    assert(having_key(sorted, sorted[i].key()) == having_key(items, sorted[i].key()));
    lemma_same_key_pairs(items, sorted, sorted[i].key(), i, j)
}

/// Sorting neither adds nor loses an item: each is found in the sorted sequence
/// exactly if it was there before.
pub proof fn sorting_keeps_items<T: Keyed>(items: Seq<T>, sorted: Seq<T>, item: T)
    requires
        stably_sorted(items, sorted),
    ensures
        items.contains(item) <==> sorted.contains(item),
        items.len() == sorted.len(),
{
    let pred = has_key::<T>(item.key());
    assert(having_key(sorted, item.key()) == having_key(items, item.key()));
    if items.contains(item) {
        let i = choose|i: int| 0 <= i < items.len() && items[i] == item;
        let at = lemma_filter_keeps(items, pred, i);
        let from = lemma_filter_origin(sorted, pred, at, at);
        assert(sorted[from.0] == item);
    }
    if sorted.contains(item) {
        let i = choose|i: int| 0 <= i < sorted.len() && sorted[i] == item;
        let at = lemma_filter_keeps(sorted, pred, i);
        let from = lemma_filter_origin(items, pred, at, at);
        assert(items[from.0] == item);
    }
}

/// The first number in which two keys differ decides their order, and a key comes
/// before every longer one that begins with it.
pub proof fn first_difference_decides(front: Seq<u32>, a: Seq<u32>, b: Seq<u32>)
    ensures
        a.len() > 0 && b.len() > 0 && a[0] < b[0] ==> precedes(front + a, front + b),
        b.len() > 0 ==> precedes(front, front + b),
        !precedes(front, front),
    decreases front.len(),
{
    if front.len() == 0 {
        assert(front + a =~= a);
        assert(front + b =~= b);
    } else {
        first_difference_decides(front.skip(1), a, b);
        assert((front + a).skip(1) =~= front.skip(1) + a);
        assert((front + b).skip(1) =~= front.skip(1) + b);
    }
}

} // verus!
