//! What holds of the numbers of messages as the server reads them.

use crate::listing::{first_listed, last_places, number_list, page_size};
use crate::text::{decimal, decimal_not_empty, digit, joined};
use crate::uids::{increasing, runs_are_compact_and_exact, runs_of, shown_run, shown_runs};
use vstd::prelude::*;
use vstd::string::*;

verus! {

broadcast use vstd::string::group_string_axioms;

/// How a server reads a number.
pub open spec fn value_of(digits: Seq<char>) -> nat
    decreases digits.len(),
{
    if digits.len() == 0 {
        0
    } else {
        value_of(digits.drop_last()) * 10 + (digits.last() as nat - '0' as nat) as nat
    }
}

/// Whether a text is made of digits.
pub open spec fn is_number(text: Seq<char>) -> bool {
    text.len() > 0 && forall|i: int| 0 <= i < text.len() ==> '0' <= #[trigger] text[i] <= '9'
}

/// A number that is written down reads as the same number.
pub proof fn numbers_read_back(n: nat)
    ensures
        is_number(decimal(n)),
        value_of(decimal(n)) == n,
    decreases n,
{
    decimal_not_empty(n);
    if n >= 10 {
        numbers_read_back(n / 10);
        assert(decimal(n).drop_last() == decimal(n / 10));
        assert(decimal(n).last() == digit(n % 10));
    } else {
        assert(decimal(n).drop_last() == Seq::<char>::empty());
        assert(value_of(decimal(n).drop_last()) == 0);
    }
}

/// Whether a server reads an item of a selection as one that covers a number:
/// the number itself, or two numbers with a colon between them around it.
pub open spec fn covers(item: Seq<char>, uid: nat) -> bool {
    ||| is_number(item) && value_of(item) == uid
    ||| exists|at: int|
        {
            &&& 0 <= at < item.len()
            &&& #[trigger] item[at] == ':'
            &&& is_number(item.take(at))
            &&& is_number(item.skip(at + 1))
            &&& value_of(item.take(at)) <= uid <= value_of(item.skip(at + 1))
        }
}

/// The items of a selection, as a server reads them: what stands between
/// commas.
pub open spec fn items_of(set: Seq<char>) -> Seq<Seq<char>>
    decreases set.len(),
{
    if set.len() == 0 {
        seq![Seq::empty()]
    } else {
        let before = items_of(set.drop_last());
        if set.last() == ',' {
            before.push(Seq::empty())
        } else {
            before.drop_last().push(before.last().push(set.last()))
        }
    }
}

/// Whether a server reads a selection as one that names a number.
pub open spec fn selects(set: Seq<char>, uid: nat) -> bool {
    exists|i: int| 0 <= i < items_of(set).len() && covers(#[trigger] items_of(set)[i], uid)
}

proof fn items_are_not_empty(set: Seq<char>)
    ensures
        items_of(set).len() > 0,
    decreases set.len(),
{
    if set.len() > 0 {
        items_are_not_empty(set.drop_last());
    }
}

proof fn items_behind_text(set: Seq<char>, more: Seq<char>)
    requires
        !more.contains(','),
    ensures
        items_of(set + more) == items_of(set).drop_last().push(items_of(set).last() + more),
    decreases more.len(),
{
    items_are_not_empty(set);
    if more.len() == 0 {
        assert(set + more == set);
        assert(items_of(set).last() + more == items_of(set).last());
        assert(items_of(set) == items_of(set).drop_last().push(items_of(set).last()));
    } else {
        let short = more.drop_last();
        assert(more.contains(more.last()));
        if short.contains(',') {
            let k = choose|k: int| 0 <= k < short.len() && short[k] == ',';
            assert(more[k] == ',');
        }
        items_behind_text(set, short);
        assert((set + more).drop_last() == set + short);
        assert((set + more).last() == more.last());
        let before = items_of(set).drop_last().push(items_of(set).last() + short);
        assert(before.drop_last() == items_of(set).drop_last());
        assert((items_of(set).last() + short).push(more.last()) == items_of(set).last() + more);
    }
}

/// Items without commas are read back from what they are joined to.
pub proof fn items_read_back(list: Seq<Seq<char>>)
    requires
        list.len() > 0,
        forall|i: int| 0 <= i < list.len() ==> !(#[trigger] list[i]).contains(','),
    ensures
        items_of(joined(list, ","@)) == list,
    decreases list.len(),
{
    reveal_strlit(",");
    let empty = Seq::<char>::empty();
    if list.len() == 1 {
        items_behind_text(empty, list[0]);
        assert(empty + list[0] == list[0]);
        assert(items_of(empty).drop_last().push(empty + list[0]) == list);
    } else {
        let before = list.drop_last();
        assert forall|i: int| 0 <= i < before.len() implies !(#[trigger] before[i]).contains(
            ',',
        ) by {
            assert(before[i] == list[i]);
        }
        items_read_back(before);
        let front = joined(before, ","@) + ","@;
        assert(front.drop_last() == joined(before, ","@));
        assert(front.last() == ',');
        assert(items_of(front) == before.push(empty));
        items_behind_text(front, list.last());
        assert(before.push(empty).drop_last() == before);
        assert(empty + list.last() == list.last());
        assert(before.push(list.last()) == list);
    }
}

proof fn numbers_have_no_signs(n: nat)
    ensures
        !decimal(n).contains(','),
        !decimal(n).contains(':'),
{
    decimal_not_empty(n);
}

/// A run is read as one that covers exactly the numbers from its first to its
/// last.
pub proof fn runs_read_back(run: (u32, u32), uid: u32)
    requires
        run.0 <= run.1,
    ensures
        !shown_run(run).contains(','),
        covers(shown_run(run), uid as nat) <==> run.0 <= uid <= run.1,
{
    reveal_strlit(":");
    let a = decimal(run.0 as nat);
    let b = decimal(run.1 as nat);
    numbers_read_back(run.0 as nat);
    numbers_read_back(run.1 as nat);
    numbers_have_no_signs(run.0 as nat);
    numbers_have_no_signs(run.1 as nat);
    let item = shown_run(run);
    if run.0 == run.1 {
        assert forall|at: int| 0 <= at < item.len() implies #[trigger] item[at] != ':' by {
            assert(item.contains(item[at]));
        }
    } else {
        let n = a.len() as int;
        assert(item == a + ":"@ + b);
        assert(item[n] == ':');
        assert(item.take(n) == a);
        assert(item.skip(n + 1) == b);
        assert(!is_number(item));
        assert forall|i: int| 0 <= i < item.len() && i != n implies #[trigger] item[i] != ':'
            && item[i] != ',' by {
            if i < n {
                assert(item[i] == a[i]);
                assert(a.contains(a[i]));
            } else {
                assert(item[i] == b[i - n - 1]);
                assert(b.contains(b[i - n - 1]));
            }
        }
    }
}

/// The text that names messages to the server names exactly those messages.
pub proof fn selections_read_back(uids: Seq<u32>)
    requires
        increasing(uids),
        uids.len() > 0,
    ensures
        forall|uid: u32| #[trigger]
            selects(shown_runs(runs_of(uids)), uid as nat) <==> uids.contains(uid),
{
    runs_are_compact_and_exact(uids);
    let runs = runs_of(uids);
    let list = runs.map_values(|run: (u32, u32)| shown_run(run));
    assert forall|i: int| 0 <= i < list.len() implies !(#[trigger] list[i]).contains(',') by {
        runs_read_back(runs[i], 0);
    }
    items_read_back(list);
    assert forall|uid: u32| #[trigger]
        selects(shown_runs(runs), uid as nat) <==> uids.contains(uid) by {
        if selects(shown_runs(runs), uid as nat) {
            let i = choose|i: int|
                0 <= i < list.len() && covers(#[trigger] list[i], uid as nat);
            runs_read_back(runs[i], uid);
        }
        if uids.contains(uid) {
            let i = choose|i: int|
                0 <= i < runs.len() && (#[trigger] runs[i]).0 <= uid <= runs[i].1;
            runs_read_back(runs[i], uid);
            assert(covers(list[i], uid as nat));
        }
    }
}

/// Numbers that are listed for the server are read as exactly those numbers.
pub proof fn number_lists_read_back(uids: Seq<u32>)
    requires
        uids.len() > 0,
    ensures
        forall|uid: u32| #[trigger]
            selects(number_list(uids), uid as nat) <==> uids.contains(uid),
{
    let list = uids.map_values(|uid: u32| decimal(uid as nat));
    assert forall|i: int| 0 <= i < list.len() implies !(#[trigger] list[i]).contains(',') by {
        numbers_have_no_signs(uids[i] as nat);
    }
    items_read_back(list);
    assert forall|uid: u32| #[trigger]
        selects(number_list(uids), uid as nat) <==> uids.contains(uid) by {
        assert forall|i: int| 0 <= i < list.len() implies (covers(#[trigger] list[i], uid as nat)
            <==> uids[i] == uid) by {
            numbers_read_back(uids[i] as nat);
            numbers_have_no_signs(uids[i] as nat);
            assert forall|at: int| 0 <= at < list[i].len() implies #[trigger] list[i][at]
                != ':' by {
                assert(list[i].contains(list[i][at]));
            }
        }
        if uids.contains(uid) {
            let i = choose|i: int| 0 <= i < uids.len() && uids[i] == uid;
            assert(covers(list[i], uid as nat));
        }
    }
}

/// The number of one message is read as that number.
pub proof fn single_numbers_read_back(n: u32)
    ensures
        forall|uid: u32| #[trigger] selects(decimal(n as nat), uid as nat) <==> uid == n,
{
    let uids = seq![n];
    number_lists_read_back(uids);
    let list = uids.map_values(|uid: u32| decimal(uid as nat));
    assert(list == seq![decimal(n as nat)]);
    assert(number_list(uids) == decimal(n as nat));
    assert forall|uid: u32| #[trigger] selects(decimal(n as nat), uid as nat) <==> uid == n by {
        assert(selects(number_list(uids), uid as nat) <==> uids.contains(uid));
        if uid == n {
            assert(uids[0] == uid);
        }
    }
}

/// The last places of a folder are read as a range that ends at the last
/// message and holds as many messages as are asked for, at least one and at
/// most a hundred, or all where there are fewer.
pub proof fn last_places_read_back(present: u32, limit: usize, place: u32)
    requires
        present > 0,
    ensures
        selects(last_places(present, limit), place as nat) <==> 1 <= place <= present && present
            - place < (if limit < 1 {
            1
        } else if limit > 100 {
            100
        } else {
            limit as int
        }),
{
    reveal_strlit(":");
    let first = first_listed(present, limit);
    let a = decimal(first);
    let b = decimal(present as nat);
    numbers_read_back(first);
    numbers_read_back(present as nat);
    numbers_have_no_signs(first);
    numbers_have_no_signs(present as nat);
    let item = last_places(present, limit);
    let n = a.len() as int;
    assert(item == a + ":"@ + b);
    assert forall|i: int| 0 <= i < item.len() && i != n implies #[trigger] item[i] != ':'
        && item[i] != ',' by {
        if i < n {
            assert(item[i] == a[i]);
            assert(a.contains(a[i]));
        } else {
            assert(item[i] == b[i - n - 1]);
            assert(b.contains(b[i - n - 1]));
        }
    }
    assert(item[n] == ':');
    assert(item.take(n) == a);
    assert(item.skip(n + 1) == b);
    assert(!item.contains(','));
    let list = seq![item];
    assert(joined(list, ","@) == item);
    items_read_back(list);
    assert(!is_number(item));
    assert(items_of(item)[0] == item);
    assert(covers(item, place as nat) <==> first <= place <= present);
}

/// A list has as many messages as are asked for, but at least one and at most
/// a hundred.
pub proof fn page_size_is_limited(limit: usize)
    ensures
        1 <= page_size(limit) <= 100,
        1 <= limit <= 100 ==> page_size(limit) == limit,
        limit == 0 ==> page_size(limit) == 1,
        limit > 100 ==> page_size(limit) == 100,
{
}

} // verus!
