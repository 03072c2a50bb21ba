//! Lists of message numbers as the mail server takes them.

use crate::order::{sort, Order};
use crate::text::{
    decimal, decimal_is_injective, decimal_not_empty, join, joined, texts, to_decimal, views,
};
use vstd::prelude::*;
use vstd::string::*;

verus! {

broadcast use vstd::string::group_string_axioms;

/// Numbers from the smallest up.
pub open spec fn ascending() -> spec_fn(u32, u32) -> bool {
    |a: u32, b: u32| a <= b
}

/// The order of numbers from the smallest up.
pub struct Ascending;

impl Order<u32> for Ascending {
    open spec fn le(&self) -> spec_fn(u32, u32) -> bool {
        ascending()
    }

    proof fn total(&self, a: u32, b: u32) {
    }

    proof fn transitive(&self, a: u32, b: u32, c: u32) {
    }

    fn compare(&self, a: &u32, b: &u32) -> bool {
        *a <= *b
    }
}

/// Whether every number is greater than the one in front of it.
pub open spec fn increasing(uids: Seq<u32>) -> bool {
    forall|i: int, j: int| 0 <= i < j < uids.len() ==> uids[i] < uids[j]
}

/// Whether two lists hold the same numbers.
pub open spec fn same_numbers(a: Seq<u32>, b: Seq<u32>) -> bool {
    forall|u: u32| #[trigger] a.contains(u) <==> b.contains(u)
}

/// The runs of successive numbers in an increasing list, each by its first and
/// its last number.
pub open spec fn runs_of(uids: Seq<u32>) -> Seq<(u32, u32)>
    decreases uids.len(),
{
    if uids.len() == 0 {
        Seq::empty()
    } else {
        let before = runs_of(uids.drop_last());
        let uid = uids.last();
        if before.len() > 0 && before.last().1 + 1 == uid {
            before.drop_last().push((before.last().0, uid))
        } else {
            before.push((uid, uid))
        }
    }
}

/// A run as the server takes it.
pub open spec fn shown_run(run: (u32, u32)) -> Seq<char> {
    if run.0 == run.1 {
        decimal(run.0 as nat)
    } else {
        decimal(run.0 as nat) + ":"@ + decimal(run.1 as nat)
    }
}

/// Runs as the server takes them.
pub open spec fn shown_runs(runs: Seq<(u32, u32)>) -> Seq<char> {
    joined(runs.map_values(|run: (u32, u32)| shown_run(run)), ","@)
}

/// The runs of an increasing list stand in order with a gap between any two,
/// so that no list of runs for the same numbers is shorter, and they hold
/// exactly the numbers of the list.
pub proof fn runs_are_compact_and_exact(uids: Seq<u32>)
    requires
        increasing(uids),
    ensures
        forall|i: int|
            0 <= i < runs_of(uids).len() ==> (#[trigger] runs_of(uids)[i]).0 <= runs_of(uids)[i].1,
        forall|i: int, j: int|
            0 <= i < j < runs_of(uids).len() ==> (#[trigger] runs_of(uids)[i]).1 + 1 < (
            #[trigger] runs_of(uids)[j]).0,
        forall|u: u32| #[trigger]
            uids.contains(u) <==> exists|i: int|
                0 <= i < runs_of(uids).len() && (#[trigger] runs_of(uids)[i]).0 <= u
                    <= runs_of(uids)[i].1,
        uids.len() > 0 ==> runs_of(uids).len() > 0 && runs_of(uids).last().1 == uids.last(),
    decreases uids.len(),
{
    if uids.len() > 0 {
        let rest = uids.drop_last();
        let uid = uids.last();
        runs_are_compact_and_exact(rest);
        let before = runs_of(rest);
        let runs = runs_of(uids);
        assert forall|u: u32| #[trigger] uids.contains(u) implies exists|i: int|
            0 <= i < runs.len() && (#[trigger] runs[i]).0 <= u <= runs[i].1 by {
            let k = choose|k: int| 0 <= k < uids.len() && uids[k] == u;
            if k < rest.len() {
                assert(rest[k] == u);
                assert(rest.contains(u));
                let i = choose|i: int|
                    0 <= i < before.len() && (#[trigger] before[i]).0 <= u <= before[i].1;
                assert(runs[i].0 <= u <= runs[i].1);
            } else {
                assert(runs[runs.len() - 1].0 <= u <= runs[runs.len() - 1].1);
            }
        }
        assert forall|u: u32|
            (exists|i: int|
                0 <= i < runs.len() && (#[trigger] runs[i]).0 <= u <= runs[i].1) implies #[trigger]
        uids.contains(u) by {
            let i = choose|i: int|
                0 <= i < runs.len() && (#[trigger] runs[i]).0 <= u <= runs[i].1;
            if u == uid {
                assert(uids[uids.len() - 1] == u);
            } else {
                if i < before.len() {
                    assert(before[i].0 <= u <= before[i].1);
                }
                assert(rest.contains(u));
                let k = choose|k: int| 0 <= k < rest.len() && rest[k] == u;
                assert(uids[k] == u);
            }
        }
    }
}

/// Increasing lists of the same numbers are the same list, so the text that
/// names a selection depends on nothing but the numbers selected.
pub proof fn increasing_list_is_unique(a: Seq<u32>, b: Seq<u32>)
    requires
        increasing(a),
        increasing(b),
        same_numbers(a, b),
    ensures
        a == b,
    decreases a.len(),
{
    if a.len() > 0 && b.len() > 0 {
        let x = a.last();
        let y = b.last();
        assert(a.contains(x) && b.contains(y)) by {
            assert(a[a.len() - 1] == x);
            assert(b[b.len() - 1] == y);
        }
        assert(b.contains(x) && a.contains(y));
        assert(x == y);
        let a1 = a.drop_last();
        let b1 = b.drop_last();
        assert forall|u: u32| #[trigger] a1.contains(u) <==> b1.contains(u) by {
            if a1.contains(u) {
                let k = choose|k: int| 0 <= k < a1.len() && a1[k] == u;
                assert(a[k] == u);
                assert(a.contains(u));
                assert(b.contains(u));
                let m = choose|m: int| 0 <= m < b.len() && b[m] == u;
                assert(b1[m] == u);
            }
            if b1.contains(u) {
                let k = choose|k: int| 0 <= k < b1.len() && b1[k] == u;
                assert(b[k] == u);
                assert(a.contains(u));
                let m = choose|m: int| 0 <= m < a.len() && a[m] == u;
                assert(a1[m] == u);
            }
        }
        increasing_list_is_unique(a1, b1);
        assert(a == a1.push(x));
        assert(b == b1.push(y));
    } else if a.len() > 0 {
        assert(a.contains(a[0]));
    } else if b.len() > 0 {
        assert(b.contains(b[0]));
        assert(a.contains(b[0]));
    } else {
        assert(a =~= b);
    }
}

/// Puts numbers in increasing order, each of them once.
pub fn sort_numbers(uids: Vec<u32>) -> (sorted: Vec<u32>)
    ensures
        increasing(sorted@),
        same_numbers(sorted@, uids@),
{
    let ghost given = uids@;
    let all = sort(uids, &Ascending);
    proof {
        assert(views(all@) == all@);
        assert(views(given) == given);
        assert forall|u: u32| #[trigger] all@.contains(u) <==> given.contains(u) by {
            all@.to_multiset_ensures();
            given.to_multiset_ensures();
            assert(all@.contains(u) <==> all@.to_multiset().count(u) > 0);
            assert(given.contains(u) <==> given.to_multiset().count(u) > 0);
        }
    }
    let mut sorted: Vec<u32> = Vec::new();
    let mut i: usize = 0;
    while i < all.len()
        invariant
            i <= all@.len(),
            forall|a: int, b: int| 0 <= a <= b < all@.len() ==> all@[a] <= all@[b],
            increasing(sorted@),
            i == 0 ==> sorted@.len() == 0,
            i > 0 ==> sorted@.len() > 0 && sorted@.last() == all@[i - 1],
            forall|u: u32| #[trigger]
                sorted@.contains(u) <==> all@.take(i as int).contains(u),
        decreases all@.len() - i,
    {
        let uid = all[i];
        let ghost before = sorted@;
        if sorted.len() == 0 || sorted[sorted.len() - 1] != uid {
            sorted.push(uid);
        }
        proof {
            assert(all@.take(i + 1) == all@.take(i as int).push(uid));
            assert forall|u: u32| #[trigger]
                sorted@.contains(u) <==> all@.take(i + 1).contains(u) by {
                let next = all@.take(i + 1);
                if sorted@.contains(u) {
                    let k = choose|k: int| 0 <= k < sorted@.len() && sorted@[k] == u;
                    if k < before.len() {
                        assert(before[k] == u);
                        assert(before.contains(u));
                        let m = choose|m: int|
                            0 <= m < all@.take(i as int).len() && all@.take(i as int)[m] == u;
                        assert(next[m] == u);
                    } else {
                        assert(next[i as int] == u);
                    }
                }
                if next.contains(u) {
                    let k = choose|k: int| 0 <= k < next.len() && next[k] == u;
                    if k < i {
                        assert(all@.take(i as int)[k] == u);
                        assert(before.contains(u));
                        let m = choose|m: int| 0 <= m < before.len() && before[m] == u;
                        assert(sorted@[m] == u);
                    } else {
                        assert(sorted@[sorted@.len() - 1] == u);
                    }
                }
            }
        }
        i += 1;
    }
    assert(all@.take(i as int) == all@);
    sorted
}

/// Writes a run as the server takes it.
fn show_run(first: u32, last: u32) -> (text: String)
    ensures
        text@ == shown_run((first, last)),
{
    let mut text = to_decimal(first as u64);
    if first != last {
        text.append(":");
        text.append(to_decimal(last as u64).as_str());
    }
    text
}

/// Names a selection of messages to the server: puts the numbers in
/// increasing order, each of them once, and writes their runs.
pub fn uid_set(uids: &mut Vec<u32>) -> (set: String)
    ensures
        increasing(final(uids)@),
        same_numbers(final(uids)@, old(uids)@),
        set@ == shown_runs(runs_of(final(uids)@)),
{
    let mut given: Vec<u32> = Vec::new();
    std::mem::swap(&mut given, uids);
    let sorted = sort_numbers(given);
    let mut ranges: Vec<String> = Vec::new();
    let ghost mut done: Seq<(u32, u32)> = Seq::empty();
    let mut start: Option<u32> = None;
    let mut previous: u32 = 0;
    let mut i: usize = 0;
    while i < sorted.len()
        invariant
            increasing(sorted@),
            i <= sorted@.len(),
            start is None <==> i == 0,
            i == 0 ==> done.len() == 0,
            start matches Some(first) ==> {
                &&& previous == sorted@[i - 1]
                &&& runs_of(sorted@.take(i as int)) == done.push((first, previous))
            },
            texts(ranges@) == done.map_values(|run: (u32, u32)| shown_run(run)),
        decreases sorted@.len() - i,
    {
        let uid = sorted[i];
        proof {
            assert(sorted@.take(i + 1).drop_last() == sorted@.take(i as int));
            assert(sorted@.take(i + 1).last() == uid);
            assert(sorted@.take(0) == Seq::<u32>::empty());
        }
        match start {
            None => {
                start = Some(uid);
                previous = uid;
                assert(done == Seq::<(u32, u32)>::empty());
                assert(sorted@.take(i as int) == Seq::<u32>::empty());
                assert(runs_of(sorted@.take(i as int)) == Seq::<(u32, u32)>::empty());
                assert(runs_of(sorted@.take(i + 1)) == done.push((uid, uid)));
            },
            Some(first) => {
                let ghost before = runs_of(sorted@.take(i as int));
                assert(before.drop_last() == done);
                if uid == previous.saturating_add(1) {
                    assert(previous < uid);
                    previous = uid;
                } else {
                    assert(previous < uid);
                    let shown = show_run(first, previous);
                    let ghost so_far = texts(ranges@);
                    ranges.push(shown);
                    proof {
                        assert(texts(ranges@) == so_far.push(shown@));
                        done = done.push((first, previous));
                        assert(done.map_values(|run: (u32, u32)| shown_run(run)) == so_far.push(
                            shown_run((first, previous)),
                        ));
                    }
                    start = Some(uid);
                    previous = uid;
                }
            },
        }
        i += 1;
    }
    proof {
        assert(sorted@.take(i as int) == sorted@);
    }
    if let Some(first) = start {
        let shown = show_run(first, previous);
        let ghost so_far = texts(ranges@);
        ranges.push(shown);
        proof {
            assert(texts(ranges@) == so_far.push(shown@));
            assert(done.push((first, previous)).map_values(|run: (u32, u32)| shown_run(run))
                == so_far.push(shown_run((first, previous))));
        }
    }
    *uids = sorted;
    join(&ranges, ",")
}

/// A text that names messages to the server can be read in one way only.
pub proof fn selection_text_is_unambiguous(a: Seq<(u32, u32)>, b: Seq<(u32, u32)>)
    requires
        shown_runs(a) == shown_runs(b),
    ensures
        a == b,
{
    let shown = |run: (u32, u32)| shown_run(run);
    let left = a.map_values(shown);
    let right = b.map_values(shown);
    assert forall|i: int| 0 <= i < left.len() implies is_item(#[trigger] left[i]) by {
        shown_run_is_item(a[i]);
    }
    assert forall|i: int| 0 <= i < right.len() implies is_item(#[trigger] right[i]) by {
        shown_run_is_item(b[i]);
    }
    items_can_be_told_apart(left, right);
    assert(a.len() == left.len() && b.len() == right.len());
    assert forall|i: int| 0 <= i < a.len() implies a[i] == b[i] by {
        assert(left[i] == shown_run(a[i]));
        assert(right[i] == shown_run(b[i]));
        shown_run_identifies_run(a[i], b[i]);
    }
}

/// Whether a text can stand between commas.
spec fn is_item(text: Seq<char>) -> bool {
    text.len() > 0 && forall|i: int| 0 <= i < text.len() ==> #[trigger] text[i] != ','
}

proof fn shown_run_is_item(run: (u32, u32))
    ensures
        is_item(shown_run(run)),
{
    reveal_strlit(":");
    decimal_not_empty(run.0 as nat);
    decimal_not_empty(run.1 as nat);
    let first = decimal(run.0 as nat);
    let last = decimal(run.1 as nat);
    let text = shown_run(run);
    assert forall|i: int| 0 <= i < text.len() implies #[trigger] text[i] != ',' by {
        if run.0 == run.1 || i < first.len() {
            assert(text[i] == first[i]);
        } else if i == first.len() {
            assert(text[i] == ':');
        } else {
            assert(text[i] == last[i - first.len() - 1]);
        }
    }
}

proof fn shown_run_identifies_run(a: (u32, u32), b: (u32, u32))
    requires
        shown_run(a) == shown_run(b),
    ensures
        a == b,
{
    reveal_strlit(":");
    decimal_not_empty(a.0 as nat);
    decimal_not_empty(a.1 as nat);
    decimal_not_empty(b.0 as nat);
    decimal_not_empty(b.1 as nat);
    let n = decimal(a.0 as nat).len() as int;
    let m = decimal(b.0 as nat).len() as int;
    if a.0 == a.1 && b.0 == b.1 {
        decimal_is_injective(a.0 as nat, b.0 as nat);
    } else if a.0 == a.1 {
        assert(shown_run(b)[m] == ':');
        assert(shown_run(a)[m] == decimal(a.0 as nat)[m]);
    } else if b.0 == b.1 {
        assert(shown_run(a)[n] == ':');
        assert(shown_run(b)[n] == decimal(b.0 as nat)[n]);
    } else {
        assert(shown_run(a)[n] == ':');
        assert(shown_run(b)[m] == ':');
        if n < m {
            assert(shown_run(b)[n] == decimal(b.0 as nat)[n]);
        }
        if m < n {
            assert(shown_run(a)[m] == decimal(a.0 as nat)[m]);
        }
        assert(shown_run(a).take(n) == decimal(a.0 as nat));
        assert(shown_run(b).take(m) == decimal(b.0 as nat));
        assert(shown_run(a).skip(n + 1) == decimal(a.1 as nat));
        assert(shown_run(b).skip(m + 1) == decimal(b.1 as nat));
        decimal_is_injective(a.0 as nat, b.0 as nat);
        decimal_is_injective(a.1 as nat, b.1 as nat);
    }
}

/// Lists of items that read the same with commas between them are the same.
proof fn items_can_be_told_apart(a: Seq<Seq<char>>, b: Seq<Seq<char>>)
    requires
        forall|i: int| 0 <= i < a.len() ==> is_item(#[trigger] a[i]),
        forall|i: int| 0 <= i < b.len() ==> is_item(#[trigger] b[i]),
        joined(a, ","@) == joined(b, ","@),
    ensures
        a == b,
    decreases a.len(),
{
    reveal_strlit(",");
    let text = joined(a, ","@);
    if a.len() > 0 {
        joined_ends_in_item(a);
    }
    if b.len() > 0 {
        joined_ends_in_item(b);
    }
    if a.len() > 1 && b.len() > 1 {
        let n = a.last().len() as int;
        let m = b.last().len() as int;
        if n < m {
            assert(text[text.len() - 1 - n] == ',');
            assert(text[text.len() - 1 - n] == b.last()[m - 1 - n]);
        }
        if m < n {
            assert(text[text.len() - 1 - m] == ',');
            assert(text[text.len() - 1 - m] == a.last()[n - 1 - m]);
        }
        let rest_a = joined(a.drop_last(), ","@);
        let rest_b = joined(b.drop_last(), ","@);
        assert(text.take(text.len() - 1 - n) == rest_a);
        assert(text.take(text.len() - 1 - m) == rest_b);
        assert(text.skip(text.len() - n) == a.last());
        assert(text.skip(text.len() - m) == b.last());
        items_can_be_told_apart(a.drop_last(), b.drop_last());
        assert(a == a.drop_last().push(a.last()));
        assert(b == b.drop_last().push(b.last()));
    } else if a.len() > 1 && b.len() == 1 {
        let n = a.last().len() as int;
        assert(text[text.len() - 1 - n] == ',');
        assert(b[0][text.len() - 1 - n] != ',');
    } else if b.len() > 1 && a.len() == 1 {
        let m = b.last().len() as int;
        assert(text[text.len() - 1 - m] == ',');
        assert(a[0][text.len() - 1 - m] != ',');
    } else if a.len() == 1 && b.len() == 1 {
        assert(a == seq![a[0]]);
        assert(b == seq![b[0]]);
    } else {
        assert(a == b);
    }
}

/// Items with commas between them end in the last item, with a comma in front
/// of it unless it is the only one.
proof fn joined_ends_in_item(list: Seq<Seq<char>>)
    requires
        list.len() > 0,
        forall|i: int| 0 <= i < list.len() ==> is_item(#[trigger] list[i]),
    ensures
        joined(list, ","@).len() >= list.last().len() > 0,
        list.len() > 1 ==> {
            let text = joined(list, ","@);
            let n = list.last().len() as int;
            &&& text.len() >= n + 1
            &&& text[text.len() - 1 - n] == ','
            &&& forall|k: int|
                0 <= k < n ==> text[text.len() - n + k] == #[trigger] list.last()[k]
        },
{
    reveal_strlit(",");
    assert(is_item(list[list.len() - 1]));
    if list.len() > 1 {
        let rest = joined(list.drop_last(), ","@);
        let text = joined(list, ","@);
        assert(text == rest + ","@ + list.last());
        let n = list.last().len() as int;
        assert(text.len() == rest.len() + 1 + n);
        assert(text[rest.len() as int] == ',');
    }
}

} // verus!
