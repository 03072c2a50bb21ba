//! Sorting that keeps the order of items which compare equal.

use crate::text::views;
use vstd::prelude::*;

verus! {

/// A way to order the items of a list by what they stand for.
pub trait Order<T: View> {
    /// Whether the first may stand before the second.
    spec fn le(&self) -> spec_fn(T::V, T::V) -> bool;

    /// Of two one may stand before the other.
    proof fn total(&self, a: T::V, b: T::V)
        ensures
            (self.le())(a, b) || (self.le())(b, a),
    ;

    /// The order is transitive.
    proof fn transitive(&self, a: T::V, b: T::V, c: T::V)
        requires
            (self.le())(a, b),
            (self.le())(b, c),
        ensures
            (self.le())(a, c),
    ;

    /// Compares two items.
    fn compare(&self, a: &T, b: &T) -> (le: bool)
        ensures
            le == (self.le())(a@, b@),
    ;
}

/// The items of a list that rank like a given one, in their order.
pub open spec fn rank_class<V>(le: spec_fn(V, V) -> bool, items: Seq<V>, like: V) -> Seq<V> {
    items.filter(|x: V| le(x, like) && le(like, x))
}

/// Whether every item of a list may stand before those behind it.
pub open spec fn in_order<V>(le: spec_fn(V, V) -> bool, items: Seq<V>) -> bool {
    forall|i: int, j: int| 0 <= i <= j < items.len() ==> le(items[i], items[j])
}

/// Whether a list is another one in order, with items of the same rank left
/// in the order in which they stood.
pub open spec fn sorted_from<V>(
    le: spec_fn(V, V) -> bool,
    sorted: Seq<V>,
    items: Seq<V>,
) -> bool {
    &&& in_order(le, sorted)
    &&& sorted.to_multiset() == items.to_multiset()
    &&& forall|like: V| #[trigger] rank_class(le, sorted, like) == rank_class(le, items, like)
}

/// Puts a list in order.
pub fn sort<T: View, O: Order<T>>(items: Vec<T>, order: &O) -> (sorted: Vec<T>)
    ensures
        sorted_from(order.le(), views(sorted@), views(items@)),
    decreases items@.len(),
{
    let n: usize = items.len();
    if n < 2 {
        proof {
            if n == 1 {
                order.total(items@[0]@, items@[0]@);
            }
        }
        return items;
    }
    let ghost le = order.le();
    let ghost all = views(items@);
    let mut left = items;
    let right = left.split_off(n / 2);
    let ghost l0 = views(left@);
    let ghost r0 = views(right@);
    let left = sort(left, order);
    let right = sort(right, order);
    let ghost l = views(left@);
    let ghost r = views(right@);
    let sorted = merge(left, right, order);
    proof {
        assert(all == l0 + r0);
        vstd::seq_lib::lemma_multiset_commutative(l0, r0);
        vstd::seq_lib::lemma_multiset_commutative(l, r);
        assert forall|like: T::V| #[trigger]
            rank_class(le, views(sorted@), like) == rank_class(le, all, like) by {
            let p = |x: T::V| le(x, like) && le(like, x);
            Seq::filter_distributes_over_add(l0, r0, p);
            Seq::filter_distributes_over_add(l, r, p);
            assert(rank_class(le, l, like) == rank_class(le, l0, like));
            assert(rank_class(le, r, like) == rank_class(le, r0, like));
            assert(rank_class(le, views(sorted@), like) == rank_class(le, l + r, like));
        }
    }
    sorted
}

/// Merges two lists in order; where items rank the same, those of the left
/// list come first.
fn merge<T: View, O: Order<T>>(left: Vec<T>, right: Vec<T>, order: &O) -> (merged: Vec<T>)
    requires
        in_order(order.le(), views(left@)),
        in_order(order.le(), views(right@)),
    ensures
        in_order(order.le(), views(merged@)),
        views(merged@).to_multiset() == (views(left@) + views(right@)).to_multiset(),
        forall|like: T::V| #[trigger]
            rank_class(order.le(), views(merged@), like) == rank_class(
                order.le(),
                views(left@) + views(right@),
                like,
            ),
{
    let ghost le = order.le();
    let ghost l0 = views(left@);
    let ghost r0 = views(right@);
    let mut left = left;
    let mut right = right;
    let mut back: Vec<T> = Vec::new();
    let ghost mut tail: Seq<T::V> = Seq::empty();
    proof {
        assert(l0.skip(l0.len() as int) == Seq::<T::V>::empty());
        assert(r0.skip(r0.len() as int) == Seq::<T::V>::empty());
        assert(l0.take(l0.len() as int) == l0);
        assert(r0.take(r0.len() as int) == r0);
        assert(tail + tail == tail);
        assert(views(back@).reverse() == tail);
    }
    while left.len() > 0 || right.len() > 0
        invariant
            le == order.le(),
            in_order(le, l0),
            in_order(le, r0),
            left@.len() <= l0.len(),
            right@.len() <= r0.len(),
            views(left@) == l0.take(left@.len() as int),
            views(right@) == r0.take(right@.len() as int),
            views(back@).reverse() == tail,
            merge_state(le, l0, r0, left@.len() as int, right@.len() as int, tail),
        decreases left@.len() + right@.len(),
    {
        let ghost l = left@.len() as int;
        let ghost r = right@.len() as int;
        let ghost left_before = views(left@);
        let ghost right_before = views(right@);
        proof {
            if l > 0 {
                assert(left_before[l - 1] == l0[l - 1]);
            }
            if r > 0 {
                assert(right_before[r - 1] == r0[r - 1]);
            }
        }
        let from_right = if left.len() == 0 {
            true
        } else if right.len() == 0 {
            false
        } else {
            order.compare(&left[left.len() - 1], &right[right.len() - 1])
        };
        if from_right {
            let item = right.pop().unwrap();
            proof {
                take_right(*order, l0, r0, l, r, tail);
                tail = seq![item@] + tail;
            }
            let ghost back_before = views(back@);
            back.push(item);
            assert(views(back@) == back_before.push(item@));
            assert(views(back@).reverse() == tail);
            assert(views(right@) == r0.take(r - 1)) by {
                assert(views(right@) == right_before.take(r - 1));
            }
        } else {
            let item = left.pop().unwrap();
            proof {
                take_left(*order, l0, r0, l, r, tail);
                tail = seq![item@] + tail;
            }
            let ghost back_before = views(back@);
            back.push(item);
            assert(views(back@) == back_before.push(item@));
            assert(views(back@).reverse() == tail);
            assert(views(left@) == l0.take(l - 1)) by {
                assert(views(left@) == left_before.take(l - 1));
            }
        }
    }
    proof {
        assert(l0.skip(0) == l0);
        assert(r0.skip(0) == r0);
    }
    let mut merged: Vec<T> = Vec::new();
    while back.len() > 0
        invariant
            views(merged@) + views(back@).reverse() == tail,
        decreases back@.len(),
    {
        let ghost b = views(back@);
        let ghost m = views(merged@);
        let item = back.pop().unwrap();
        merged.push(item);
        assert(views(back@) == b.drop_last());
        assert(views(merged@) == m.push(item@));
        assert(m + b.reverse() == views(merged@) + views(back@).reverse());
    }
    assert(views(merged@) + views(back@).reverse() == views(merged@));
    merged
}

/// What holds while two lists are merged from the back: `tail` is made of what
/// was taken from both.
spec fn merge_state<V>(
    le: spec_fn(V, V) -> bool,
    left: Seq<V>,
    right: Seq<V>,
    l: int,
    r: int,
    tail: Seq<V>,
) -> bool {
    let taken = left.skip(l) + right.skip(r);
    &&& in_order(le, tail)
    &&& tail.to_multiset() == taken.to_multiset()
    &&& forall|i: int, k: int|
        0 <= i < l && 0 <= k < tail.len() ==> le(#[trigger] left[i], #[trigger] tail[k])
    &&& forall|i: int, k: int|
        0 <= i < r && 0 <= k < tail.len() ==> le(#[trigger] right[i], #[trigger] tail[k])
    &&& forall|i: int, k: int|
        0 <= i < r && l <= k < left.len() ==> !le(#[trigger] left[k], #[trigger] right[i])
    &&& forall|like: V| #[trigger] rank_class(le, tail, like) == rank_class(le, taken, like)
}

proof fn take_right<T: View, O: Order<T>>(
    order: O,
    left: Seq<T::V>,
    right: Seq<T::V>,
    l: int,
    r: int,
    tail: Seq<T::V>,
)
    requires
        in_order(order.le(), left),
        in_order(order.le(), right),
        0 <= l <= left.len(),
        0 < r <= right.len(),
        l > 0 ==> (order.le())(left[l - 1], right[r - 1]),
        merge_state(order.le(), left, right, l, r, tail),
    ensures
        merge_state(order.le(), left, right, l, r - 1, seq![right[r - 1]] + tail),
{
    let le = order.le();
    let item = right[r - 1];
    let new = seq![item] + tail;
    let taken = left.skip(l) + right.skip(r);
    let taken_new = left.skip(l) + right.skip(r - 1);
    assert(right.skip(r - 1) == seq![item] + right.skip(r));
    order.total(item, item);
    assert(in_order(le, new));
    assert forall|i: int, k: int| 0 <= i < l && 0 <= k < new.len() implies le(
        #[trigger] left[i],
        #[trigger] new[k],
    ) by {
        if k == 0 {
            order.transitive(left[i], left[l - 1], item);
        } else {
            assert(new[k] == tail[k - 1]);
        }
    }
    assert forall|i: int, k: int| 0 <= i < r - 1 && 0 <= k < new.len() implies le(
        #[trigger] right[i],
        #[trigger] new[k],
    ) by {
        if k > 0 {
            assert(new[k] == tail[k - 1]);
        }
    }
    vstd::seq_lib::lemma_multiset_commutative(seq![item], tail);
    vstd::seq_lib::lemma_multiset_commutative(left.skip(l), right.skip(r));
    vstd::seq_lib::lemma_multiset_commutative(left.skip(l), right.skip(r - 1));
    vstd::seq_lib::lemma_multiset_commutative(seq![item], right.skip(r));
    assert(new.to_multiset() == taken_new.to_multiset());
    assert forall|like: T::V| #[trigger]
        rank_class(le, new, like) == rank_class(le, taken_new, like) by {
        let p = |x: T::V| le(x, like) && le(like, x);
        Seq::filter_distributes_over_add(seq![item], tail, p);
        Seq::filter_distributes_over_add(left.skip(l), right.skip(r), p);
        Seq::filter_distributes_over_add(left.skip(l), right.skip(r - 1), p);
        Seq::filter_distributes_over_add(seq![item], right.skip(r), p);
        assert(rank_class(le, tail, like) == rank_class(le, taken, like));
        if p(item) {
            assert forall|k: int| 0 <= k < left.skip(l).len() implies !p(
                #[trigger] left.skip(l)[k],
            ) by {
                let z = left[l + k];
                assert(!le(z, item));
                if le(z, like) {
                    order.transitive(z, like, item);
                }
            }
            left.skip(l).lemma_all_neg_filter_empty(p);
        } else {
            assert forall|k: int| 0 <= k < seq![item].len() implies !p(
                #[trigger] seq![item][k],
            ) by {}
            seq![item].lemma_all_neg_filter_empty(p);
        }
        assert(new.filter(p) == taken_new.filter(p));
    }
}

proof fn take_left<T: View, O: Order<T>>(
    order: O,
    left: Seq<T::V>,
    right: Seq<T::V>,
    l: int,
    r: int,
    tail: Seq<T::V>,
)
    requires
        in_order(order.le(), left),
        in_order(order.le(), right),
        0 < l <= left.len(),
        0 <= r <= right.len(),
        r > 0 ==> !(order.le())(left[l - 1], right[r - 1]),
        merge_state(order.le(), left, right, l, r, tail),
    ensures
        merge_state(order.le(), left, right, l - 1, r, seq![left[l - 1]] + tail),
{
    let le = order.le();
    let item = left[l - 1];
    let new = seq![item] + tail;
    let taken = left.skip(l) + right.skip(r);
    let taken_new = left.skip(l - 1) + right.skip(r);
    assert(left.skip(l - 1) == seq![item] + left.skip(l));
    assert(taken_new == seq![item] + taken);
    order.total(item, item);
    assert(in_order(le, new));
    assert forall|i: int, k: int| 0 <= i < l - 1 && 0 <= k < new.len() implies le(
        #[trigger] left[i],
        #[trigger] new[k],
    ) by {
        if k > 0 {
            assert(new[k] == tail[k - 1]);
        }
    }
    assert forall|i: int, k: int| 0 <= i < r && 0 <= k < new.len() implies le(
        #[trigger] right[i],
        #[trigger] new[k],
    ) by {
        if k == 0 {
            order.total(right[r - 1], item);
            order.transitive(right[i], right[r - 1], item);
        } else {
            assert(new[k] == tail[k - 1]);
        }
    }
    assert forall|i: int, k: int| 0 <= i < r && l - 1 <= k < left.len() implies !le(
        #[trigger] left[k],
        #[trigger] right[i],
    ) by {
        if k == l - 1 && le(item, right[i]) {
            order.transitive(item, right[i], right[r - 1]);
        }
    }
    vstd::seq_lib::lemma_multiset_commutative(seq![item], tail);
    vstd::seq_lib::lemma_multiset_commutative(seq![item], taken);
    assert forall|like: T::V| #[trigger]
        rank_class(le, new, like) == rank_class(le, taken_new, like) by {
        let p = |x: T::V| le(x, like) && le(like, x);
        Seq::filter_distributes_over_add(seq![item], tail, p);
        Seq::filter_distributes_over_add(seq![item], taken, p);
        assert(rank_class(le, tail, like) == rank_class(le, taken, like));
    }
}

/// There is one way to put a list in order that keeps the order of items of
/// the same rank.
pub proof fn sorting_has_one_outcome<V>(
    le: spec_fn(V, V) -> bool,
    a: Seq<V>,
    b: Seq<V>,
    items: Seq<V>,
)
    requires
        sorted_from(le, a, items),
        sorted_from(le, b, items),
    ensures
        a == b,
{
    assert forall|like: V| #[trigger] rank_class(le, a, like) == rank_class(le, b, like) by {
        assert(rank_class(le, a, like) == rank_class(le, items, like));
        assert(rank_class(le, b, like) == rank_class(le, items, like));
    }
    ordered_lists_agree(le, a, b);
}

proof fn ordered_lists_agree<V>(le: spec_fn(V, V) -> bool, a: Seq<V>, b: Seq<V>)
    requires
        in_order(le, a),
        in_order(le, b),
        a.to_multiset() == b.to_multiset(),
        forall|like: V| #[trigger] rank_class(le, a, like) == rank_class(le, b, like),
    ensures
        a == b,
    decreases a.len(),
{
    a.to_multiset_ensures();
    b.to_multiset_ensures();
    assert(a.len() == b.len());
    if a.len() > 0 {
        let x = a[0];
        let y = b[0];
        let p = |z: V| le(z, x) && le(x, z);
        assert(a.contains(x) && b.contains(y));
        assert(a.to_multiset().count(x) > 0 && b.to_multiset().count(y) > 0);
        assert(b.contains(x) && a.contains(y));
        let i = choose|i: int| 0 <= i < b.len() && b[i] == x;
        let j = choose|j: int| 0 <= j < a.len() && a[j] == y;
        assert(le(b[0], b[i]));
        assert(le(a[0], a[j]));
        assert(le(a[0], a[0]));
        assert(p(x) && p(y));
        let a1 = a.drop_first();
        let b1 = b.drop_first();
        assert(a == seq![x] + a1);
        assert(b == seq![y] + b1);
        Seq::filter_distributes_over_add(seq![x], a1, p);
        Seq::filter_distributes_over_add(seq![y], b1, p);
        assert(seq![x].filter(p) == seq![x]) by {
            Seq::<V>::empty().lemma_filter_push(x, p);
            assert(Seq::<V>::empty().push(x) == seq![x]);
        }
        assert(seq![y].filter(p) == seq![y]) by {
            Seq::<V>::empty().lemma_filter_push(y, p);
            assert(Seq::<V>::empty().push(y) == seq![y]);
        }
        assert(rank_class(le, a, x) == rank_class(le, b, x));
        assert(a.filter(p)[0] == x);
        assert(b.filter(p)[0] == y);
        assert(x == y);
        assert forall|like: V| #[trigger] rank_class(le, a1, like) == rank_class(le, b1, like) by {
            let q = |z: V| le(z, like) && le(like, z);
            Seq::filter_distributes_over_add(seq![x], a1, q);
            Seq::filter_distributes_over_add(seq![x], b1, q);
            assert(rank_class(le, a, like) == rank_class(le, b, like));
            let head = seq![x].filter(q);
            assert(head + a1.filter(q) == head + b1.filter(q));
            assert(a1.filter(q) == (head + a1.filter(q)).skip(head.len() as int));
            assert(b1.filter(q) == (head + b1.filter(q)).skip(head.len() as int));
        }
        vstd::seq_lib::to_multiset_remove(a, 0);
        vstd::seq_lib::to_multiset_remove(b, 0);
        assert(a.remove(0) == a1);
        assert(b.remove(0) == b1);
        ordered_lists_agree(le, a1, b1);
    } else {
        assert(a =~= b);
    }
}

} // verus!
