//! Lists: searching and filtering them.

use crate::order::in_order;
use vstd::prelude::*;

verus! {

/// The position of the first item with a property; the length of the list
/// where there is none.
pub open spec fn first_index<V>(items: Seq<V>, p: spec_fn(V) -> bool) -> int
    decreases items.len(),
{
    if items.len() == 0 {
        0
    } else if p(items[0]) {
        0
    } else {
        1 + first_index(items.drop_first(), p)
    }
}

/// A position with the property, behind positions that all lack it, is the
/// first; and so is the end where all positions lack it.
pub proof fn first_index_is<V>(items: Seq<V>, p: spec_fn(V) -> bool, at: int)
    requires
        0 <= at <= items.len(),
        forall|k: int| 0 <= k < at ==> !p(#[trigger] items[k]),
        at < items.len() ==> p(items[at]),
    ensures
        first_index(items, p) == at,
    decreases items.len(),
{
    if items.len() > 0 && at > 0 {
        assert(!p(items[0]));
        let rest = items.drop_first();
        assert forall|k: int| 0 <= k < at - 1 implies !p(#[trigger] rest[k]) by {
            assert(rest[k] == items[k + 1]);
        }
        first_index_is(rest, p, at - 1);
    }
}

/// No position in front of the first one has the property.
pub proof fn first_index_before<V>(items: Seq<V>, p: spec_fn(V) -> bool, k: int)
    requires
        0 <= k < items.len(),
    ensures
        0 <= first_index(items, p) <= items.len(),
        k < first_index(items, p) ==> !p(items[k]),
        first_index(items, p) < items.len() ==> p(items[first_index(items, p)]),
    decreases items.len(),
{
    if !p(items[0]) {
        let rest = items.drop_first();
        if rest.len() == 0 {
            assert(first_index(rest, p) == 0);
        } else if k > 0 {
            first_index_before(rest, p, k - 1);
            assert(items[k] == rest[k - 1]);
        } else {
            first_index_before(rest, p, 0);
        }
    }
}

/// Lists with the same items hold the same items.
pub proof fn same_items<V>(a: Seq<V>, b: Seq<V>, x: V)
    requires
        a.to_multiset() == b.to_multiset(),
    ensures
        a.contains(x) <==> b.contains(x),
{
    a.to_multiset_ensures();
    b.to_multiset_ensures();
    assert(a.contains(x) <==> a.to_multiset().count(x) > 0);
    assert(b.contains(x) <==> b.to_multiset().count(x) > 0);
}

/// A filter that lets every item pass leaves a list as it is.
pub proof fn filter_keeps_all<V>(items: Seq<V>, p: spec_fn(V) -> bool)
    requires
        forall|i: int| 0 <= i < items.len() ==> p(#[trigger] items[i]),
    ensures
        items.filter(p) == items,
    decreases items.len(),
{
    if items.len() > 0 {
        let rest = items.drop_last();
        assert forall|i: int| 0 <= i < rest.len() implies p(#[trigger] rest[i]) by {
            assert(rest[i] == items[i]);
        }
        filter_keeps_all(rest, p);
        assert(items == rest.push(items.last()));
        assert(p(items[items.len() - 1]));
        rest.lemma_filter_push(items.last(), p);
    } else {
        assert(items.filter(p) =~= items);
    }
}

/// A filter leaves what it lets pass in order.
pub proof fn filter_keeps_order<V>(
    le: spec_fn(V, V) -> bool,
    items: Seq<V>,
    p: spec_fn(V) -> bool,
)
    requires
        in_order(le, items),
    ensures
        in_order(le, items.filter(p)),
        forall|i: int|
            0 <= i < items.filter(p).len() ==> items.contains(#[trigger] items.filter(p)[i]),
    decreases items.len(),
{
    if items.len() > 0 {
        let rest = items.drop_last();
        let last = items.last();
        assert forall|i: int, j: int| 0 <= i <= j < rest.len() implies le(rest[i], rest[j]) by {
            assert(le(items[i], items[j]));
        }
        filter_keeps_order(le, rest, p);
        assert(items == rest.push(last));
        rest.lemma_filter_push(last, p);
        let kept = rest.filter(p);
        let now = items.filter(p);
        assert forall|i: int| 0 <= i < now.len() implies items.contains(#[trigger] now[i]) by {
            if i < kept.len() {
                assert(rest.contains(kept[i]));
                let k = choose|k: int| 0 <= k < rest.len() && rest[k] == kept[i];
                assert(items[k] == now[i]);
            } else {
                assert(items[items.len() - 1] == now[i]);
            }
        }
        assert forall|i: int, j: int| 0 <= i <= j < now.len() implies le(now[i], now[j]) by {
            if j >= kept.len() {
                assert(items.contains(now[i]));
                let k = choose|k: int| 0 <= k < items.len() && items[k] == now[i];
                assert(le(items[k], items[items.len() - 1]));
            }
        }
    }
}

/// A filter lets all or none of the copies of an item pass.
pub proof fn count_of_filter<V>(items: Seq<V>, p: spec_fn(V) -> bool, x: V)
    ensures
        items.filter(p).to_multiset().count(x) == (if p(x) {
            items.to_multiset().count(x)
        } else {
            0
        }),
    decreases items.len(),
{
    items.to_multiset_ensures();
    items.filter(p).to_multiset_ensures();
    if items.len() > 0 {
        let rest = items.drop_last();
        count_of_filter(rest, p, x);
        rest.to_multiset_ensures();
        rest.filter(p).to_multiset_ensures();
        assert(items == rest.push(items.last()));
        rest.lemma_filter_push(items.last(), p);
        assert(items.to_multiset() == rest.to_multiset().insert(items.last()));
    } else {
        assert(items.filter(p) == items);
    }
}

/// Two filters may be applied in either order.
pub proof fn filters_commute<V>(items: Seq<V>, p: spec_fn(V) -> bool, q: spec_fn(V) -> bool)
    ensures
        items.filter(p).filter(q) == items.filter(q).filter(p),
    decreases items.len(),
{
    if items.len() > 0 {
        let rest = items.drop_last();
        let last = items.last();
        filters_commute(rest, p, q);
        assert(items == rest.push(last));
        rest.lemma_filter_push(last, p);
        rest.lemma_filter_push(last, q);
        rest.filter(p).lemma_filter_push(last, q);
        rest.filter(q).lemma_filter_push(last, p);
    } else {
        assert(items.filter(p) == items);
        assert(items.filter(q) == items);
    }
}

} // verus!
