//! The label list of an account.

use crate::cache::{is_labels_path, labels_file, CacheFile};
use crate::laws::labels::{
    created_labels_are_listed, deleted_labels_are_gone, is_list_with, renamed_labels_are_listed,
    takes_over,
};
use crate::lists::{
    count_of_filter, filter_keeps_all, filter_keeps_order, filters_commute, first_index,
    first_index_before, first_index_is, same_items,
};
use crate::model::{Label, LabelView};
use crate::order::{in_order, rank_class, sort, sorted_from, sorting_has_one_outcome, Order};
use crate::text::{not_after, text_le, text_le_total, text_le_transitive, texts, views};
use vstd::prelude::*;
use vstd::string::*;

verus! {

broadcast use vstd::string::group_string_axioms;

/// Labels by their names.
pub open spec fn by_name() -> spec_fn(LabelView, LabelView) -> bool {
    |a: LabelView, b: LabelView| text_le(a.name, b.name)
}

/// The order of labels by their names.
pub struct ByName;

impl Order<Label> for ByName {
    open spec fn le(&self) -> spec_fn(LabelView, LabelView) -> bool {
        by_name()
    }

    proof fn total(&self, a: LabelView, b: LabelView) {
        text_le_total(a.name, b.name);
    }

    proof fn transitive(&self, a: LabelView, b: LabelView, c: LabelView) {
        text_le_transitive(a.name, b.name, c.name);
    }

    fn compare(&self, a: &Label, b: &Label) -> bool {
        not_after(a.name.as_str(), b.name.as_str())
    }
}

/// Whether a label has a name.
pub open spec fn has_name(name: Seq<char>) -> spec_fn(LabelView) -> bool {
    |label: LabelView| label.name == name
}

/// Whether a label has another name.
pub open spec fn has_other_name(name: Seq<char>) -> spec_fn(LabelView) -> bool {
    |label: LabelView| label.name != name
}

/// What the stored label list stands for: nothing where none is stored.
pub open spec fn stored_labels(stored: Option<Vec<Label>>) -> Seq<LabelView> {
    match stored {
        Some(labels) => views(labels@),
        None => Seq::empty(),
    }
}

/// Looks for a label by its name.
fn find_label(labels: &Vec<Label>, name: &str) -> (at: usize)
    ensures
        at == first_index(views(labels@), has_name(name@)),
        at <= labels@.len(),
        at < labels@.len() ==> labels@[at as int].name@ == name@,
{
    let mut i: usize = 0;
    while i < labels.len()
        invariant
            i <= labels@.len(),
            forall|k: int| 0 <= k < i ==> !has_name(name@)(#[trigger] views(labels@)[k]),
        decreases labels@.len() - i,
    {
        if labels[i].name.as_str().eq(name) {
            proof {
                assert(has_name(name@)(views(labels@)[i as int]));
                first_index_is(views(labels@), has_name(name@), i as int);
            }
            return i;
        }
        i += 1;
    }
    proof {
        first_index_is(views(labels@), has_name(name@), i as int);
    }
    i
}

/// Drops the labels of a name.
fn drop_label(labels: Vec<Label>, name: &str) -> (kept: Vec<Label>)
    ensures
        views(kept@) == views(labels@).filter(has_other_name(name@)),
{
    let ghost all = views(labels@);
    let mut kept: Vec<Label> = Vec::new();
    for label in it: labels
        invariant
            all == views(labels@),
            it.seq() == labels@,
            views(kept@) == all.take(it.index() as int).filter(has_other_name(name@)),
    {
        let ghost i = it.index() as int;
        let ghost before = views(kept@);
        proof {
            assert(all.take(i + 1) == all.take(i).push(label@));
            all.take(i).lemma_filter_push(label@, has_other_name(name@));
        }
        if !label.name.as_str().eq(name) {
            kept.push(label);
            assert(views(kept@) == before.push(label@));
        }
    }
    assert(all.take(all.len() as int) == all);
    kept
}

/// The label list of an account: what its file holds, or nothing where the
/// file is missing or cannot be read.
pub fn read_labels(stored: Option<Vec<Label>>) -> (labels: Vec<Label>)
    ensures
        views(labels@) == stored_labels(stored),
        stored matches Some(list) ==> labels@ == list@,
{
    match stored {
        Some(list) => list,
        None => {
            let labels: Vec<Label> = Vec::new();
            assert(views(labels@) == Seq::<LabelView>::empty());
            labels
        },
    }
}

/// The file to write for a label list.
pub fn write_labels(email: &str, labels: Vec<Label>) -> (file: CacheFile<Vec<Label>>)
    ensures
        is_labels_path(texts(file.path@), email@),
        file.value == labels,
{
    CacheFile { path: labels_file(email), value: labels }
}

/// Adds a label that no message carries yet, in the order of the names; an
/// error where there is a label of that name.
pub fn create_label(
    email: &str,
    stored: Option<Vec<Label>>,
    name: &str,
) -> (file: Result<CacheFile<Vec<Label>>, String>)
    ensures
        file is Err <==> exists|i: int|
            0 <= i < stored_labels(stored).len() && (#[trigger] stored_labels(stored)[i]).name
                == name@,
        file matches Err(e) ==> e@ == "Метка с таким названием уже есть"@,
        file matches Ok(f) ==> is_labels_path(texts(f.path@), email@) && sorted_from(
            by_name(),
            views(f.value@),
            stored_labels(stored).push(LabelView { name: name@, count: 0 }),
        ),
        file matches Ok(f) ==> is_list_with(views(f.value@), stored_labels(stored), name@),
{
    let ghost before = stored_labels(stored);
    let mut labels = read_labels(stored);
    let at: usize = find_label(&labels, name);
    if at < labels.len() {
        assert(before[at as int].name == name@);
        return Err("Метка с таким названием уже есть".to_owned());
    }
    proof {
        assert forall|i: int| 0 <= i < before.len() implies (#[trigger] before[i]).name
            != name@ by {
            first_index_before(before, has_name(name@), i);
        }
    }
    let label = Label { name: name.to_owned(), count: 0 };
    labels.push(label);
    assert(views(labels@) == before.push(LabelView { name: name@, count: 0 }));
    let sorted = sort(labels, &ByName);
    proof {
        created_labels_are_listed(before, name@, views(sorted@));
    }
    Ok(write_labels(email, sorted))
}

/// A sum that stops at the greatest number.
pub open spec fn saturating_sum(a: u32, b: u32) -> u32 {
    if a + b > u32::MAX {
        u32::MAX
    } else {
        (a + b) as u32
    }
}

/// The number of messages that carry the first label of a name.
pub open spec fn count_of(labels: Seq<LabelView>, name: Seq<char>) -> u32 {
    let at = first_index(labels, has_name(name));
    if at < labels.len() {
        labels[at].count
    } else {
        0
    }
}

/// A label list in which a label is renamed, before it is put in order: where
/// there is a label of the new name, that one takes over the messages.
pub open spec fn renamed(
    labels: Seq<LabelView>,
    old_name: Seq<char>,
    new_name: Seq<char>,
) -> Seq<LabelView> {
    let count = count_of(labels, old_name);
    let rest = labels.filter(has_other_name(old_name));
    let at = first_index(rest, has_name(new_name));
    if at < rest.len() {
        rest.update(
            at,
            LabelView { name: new_name, count: saturating_sum(rest[at].count, count) },
        )
    } else {
        rest.push(LabelView { name: new_name, count })
    }
}

/// Renames a label.
pub fn rename_label(
    email: &str,
    stored: Option<Vec<Label>>,
    old_name: &str,
    new_name: &str,
) -> (file: CacheFile<Vec<Label>>)
    ensures
        is_labels_path(texts(file.path@), email@),
        sorted_from(
            by_name(),
            views(file.value@),
            renamed(stored_labels(stored), old_name@, new_name@),
        ),
        takes_over(views(file.value@), stored_labels(stored), old_name@, new_name@),
{
    let ghost before = stored_labels(stored);
    let labels = read_labels(stored);
    let at: usize = find_label(&labels, old_name);
    let count: u32 = if at < labels.len() {
        assert(before[at as int] == labels@[at as int]@);
        labels[at].count
    } else {
        0
    };
    let mut rest = drop_label(labels, old_name);
    let ghost kept = views(rest@);
    let at: usize = find_label(&rest, new_name);
    if at < rest.len() {
        let ghost list = rest@;
        assert(kept[at as int] == list[at as int]@);
        let sum: u32 = rest[at].count.saturating_add(count);
        rest[at].count = sum;
        proof {
            assert(views(rest@) == kept.update(
                at as int,
                LabelView { name: new_name@, count: sum },
            ));
        }
    } else {
        let label = Label { name: new_name.to_owned(), count };
        rest.push(label);
        assert(views(rest@) == kept.push(LabelView { name: new_name@, count }));
    }
    let sorted = sort(rest, &ByName);
    proof {
        renamed_labels_are_listed(before, old_name@, new_name@, views(sorted@));
    }
    write_labels(email, sorted)
}

/// Deletes a label.
pub fn delete_label(
    email: &str,
    stored: Option<Vec<Label>>,
    name: &str,
) -> (file: CacheFile<Vec<Label>>)
    ensures
        is_labels_path(texts(file.path@), email@),
        views(file.value@) == stored_labels(stored).filter(has_other_name(name@)),
        forall|label: LabelView| #[trigger]
            views(file.value@).contains(label) <==> stored_labels(stored).contains(label)
                && label.name != name@,
{
    proof {
        assert forall|label: LabelView| #[trigger]
            stored_labels(stored).filter(has_other_name(name@)).contains(label)
                <==> stored_labels(stored).contains(label) && label.name != name@ by {
            deleted_labels_are_gone(stored_labels(stored), name@, label);
        }
    }
    let labels = read_labels(stored);
    write_labels(email, drop_label(labels, name))
}

// ---------------------------------------------------------------------------
// The list that is shown
// ---------------------------------------------------------------------------

/// Whether every label's name comes before those of the labels behind it.
pub open spec fn names_increase(labels: Seq<LabelView>) -> bool {
    forall|i: int, j: int|
        0 <= i < j < labels.len() ==> text_le(labels[i].name, labels[j].name) && labels[i].name
            != labels[j].name
}

/// Whether no two labels have the same name.
pub open spec fn names_differ(labels: Seq<LabelView>) -> bool {
    forall|i: int, j: int|
        0 <= i < labels.len() && 0 <= j < labels.len() && i != j ==> labels[i].name
            != labels[j].name
}

/// Whether a label is the last of its name in a list.
pub open spec fn is_last_of_name(labels: Seq<LabelView>, label: LabelView) -> bool {
    exists|i: int|
        {
            &&& 0 <= i < labels.len()
            &&& #[trigger] labels[i] == label
            &&& forall|j: int| i < j < labels.len() ==> (#[trigger] labels[j]).name != label.name
        }
}

/// The labels to show: one of each name, the last that is stored, in the order
/// of the names.
pub fn list_labels(stored: Option<Vec<Label>>) -> (shown: Vec<Label>)
    ensures
        names_increase(views(shown@)),
        forall|label: LabelView| #[trigger]
            views(shown@).contains(label) <==> is_last_of_name(stored_labels(stored), label),
{
    let ghost all = stored_labels(stored);
    let labels = read_labels(stored);
    let mut shown: Vec<Label> = Vec::new();
    assert(all.take(0) == Seq::<LabelView>::empty());
    for label in it: labels
        invariant
            all == views(labels@),
            it.seq() == labels@,
            names_differ(views(shown@)),
            forall|l: LabelView| #[trigger]
                views(shown@).contains(l) <==> is_last_of_name(all.take(it.index() as int), l),
    {
        let ghost i = it.index() as int;
        let ghost before = views(shown@);
        let ghost new = label@;
        let at: usize = find_label(&shown, label.name.as_str());
        proof {
            assert(all[i] == new);
            if shown@.len() > 0 {
                first_index_before(before, has_name(new.name), 0);
            }
            assert forall|k: int| 0 <= k < before.len() && k != at implies (
            #[trigger] before[k]).name != new.name by {
                first_index_before(before, has_name(new.name), k);
                if at < before.len() {
                    assert(before[at as int].name == new.name);
                }
            }
        }
        if at < shown.len() {
            let count: u32 = label.count;
            shown[at].count = count;
            assert(views(shown@) == before.update(at as int, new));
        } else {
            shown.push(label);
            assert(views(shown@) == before.push(new));
        }
        proof {
            let now = views(shown@);
            assert(now[at as int] == new);
            last_of_name_step(all, i);
            assert forall|l: LabelView| #[trigger] now.contains(l) <==> is_last_of_name(
                all.take(i + 1),
                l,
            ) by {
                if now.contains(l) {
                    let k = choose|k: int| 0 <= k < now.len() && now[k] == l;
                    if k != at {
                        assert(before[k] == l);
                        assert(before.contains(l));
                    }
                }
                if l == new {
                    assert(now.contains(l));
                } else if is_last_of_name(all.take(i + 1), l) {
                    assert(before.contains(l));
                    let k = choose|k: int| 0 <= k < before.len() && before[k] == l;
                    assert(k != at);
                    assert(now[k] == l);
                }
            }
        }
    }
    let ghost unsorted = views(shown@);
    assert(all.take(all.len() as int) == all);
    let sorted = sort(shown, &ByName);
    proof {
        permutation_keeps_names(unsorted, views(sorted@));
        assert forall|l: LabelView| #[trigger] views(sorted@).contains(l)
            <==> unsorted.contains(l) by {
            same_items(unsorted, views(sorted@), l);
        }
    }
    sorted
}

/// A label list one item longer: its last item is the last of its name, and the
/// others of that name are not any more.
proof fn last_of_name_step(all: Seq<LabelView>, i: int)
    requires
        0 <= i < all.len(),
    ensures
        forall|l: LabelView| #[trigger]
            is_last_of_name(all.take(i + 1), l) <==> l == all[i] || (l.name != all[i].name
                && is_last_of_name(all.take(i), l)),
{
    let next = all.take(i + 1);
    let before = all.take(i);
    assert forall|l: LabelView| #[trigger]
        is_last_of_name(next, l) <==> l == all[i] || (l.name != all[i].name && is_last_of_name(
            before,
            l,
        )) by {
        if is_last_of_name(next, l) {
            let k = choose|k: int|
                {
                    &&& 0 <= k < next.len()
                    &&& #[trigger] next[k] == l
                    &&& forall|j: int| k < j < next.len() ==> (#[trigger] next[j]).name != l.name
                };
            if k < i {
                assert(next[i] == all[i]);
                assert(before[k] == l);
                assert forall|j: int| k < j < before.len() implies (#[trigger] before[j]).name
                    != l.name by {
                    assert(next[j] == before[j]);
                }
            }
        }
        if l == all[i] {
            assert(next[i] == l);
        }
        if l.name != all[i].name && is_last_of_name(before, l) {
            let k = choose|k: int|
                {
                    &&& 0 <= k < before.len()
                    &&& #[trigger] before[k] == l
                    &&& forall|j: int|
                        k < j < before.len() ==> (#[trigger] before[j]).name != l.name
                };
            assert(next[k] == l);
            assert forall|j: int| k < j < next.len() implies (#[trigger] next[j]).name
                != l.name by {
                if j < i {
                    assert(next[j] == before[j]);
                }
            }
        }
    }
}

/// Putting labels of different names in another order leaves the names
/// different; in the order of the names they increase.
proof fn permutation_keeps_names(a: Seq<LabelView>, b: Seq<LabelView>)
    requires
        names_differ(a),
        a.to_multiset() == b.to_multiset(),
    ensures
        names_differ(b),
        in_order(by_name(), b) ==> names_increase(b),
{
    assert(a.no_duplicates()) by {
        assert forall|i: int, j: int| 0 <= i < a.len() && 0 <= j < a.len() && i != j implies a[i]
            != a[j] by {
            assert(a[i].name != a[j].name);
        }
    }
    a.lemma_multiset_has_no_duplicates();
    b.lemma_multiset_has_no_duplicates_conv();
    assert forall|i: int, j: int| 0 <= i < b.len() && 0 <= j < b.len() && i != j implies b[i].name
        != b[j].name by {
        assert(b.contains(b[i]) && b.contains(b[j]));
        same_items(a, b, b[i]);
        same_items(a, b, b[j]);
        let k = choose|k: int| 0 <= k < a.len() && a[k] == b[i];
        let m = choose|m: int| 0 <= m < a.len() && a[m] == b[j];
        assert(b[i] != b[j]);
        assert(k != m);
    }
}

// ---------------------------------------------------------------------------
// What holds of label lists
// ---------------------------------------------------------------------------

/// A label list in which the names differ keeps that when a label is created.
pub proof fn creating_keeps_names_different(
    labels: Seq<LabelView>,
    name: Seq<char>,
    after: Seq<LabelView>,
)
    requires
        names_differ(labels),
        forall|i: int| 0 <= i < labels.len() ==> (#[trigger] labels[i]).name != name,
        sorted_from(by_name(), after, labels.push(LabelView { name, count: 0 })),
    ensures
        names_increase(after),
{
    permutation_keeps_names(labels.push(LabelView { name, count: 0 }), after);
}

/// Deleting a label that was just created gives back the list as it was, where
/// that was in the order of the names.
pub proof fn deleting_undoes_creating(
    labels: Seq<LabelView>,
    name: Seq<char>,
    after: Seq<LabelView>,
)
    requires
        in_order(by_name(), labels),
        forall|i: int| 0 <= i < labels.len() ==> (#[trigger] labels[i]).name != name,
        sorted_from(by_name(), after, labels.push(LabelView { name, count: 0 })),
    ensures
        after.filter(has_other_name(name)) == labels,
{
    let le = by_name();
    let other = has_other_name(name);
    let with = labels.push(LabelView { name, count: 0 });
    let back = after.filter(other);
    assert(with.filter(other) == labels) by {
        labels.lemma_filter_push(LabelView { name, count: 0 }, other);
        filter_keeps_all(labels, other);
    }
    filter_keeps_order(le, after, other);
    assert forall|l: LabelView| back.to_multiset().count(l) == labels.to_multiset().count(l) by {
        count_of_filter(after, other, l);
        count_of_filter(with, other, l);
    }
    assert(back.to_multiset() =~= labels.to_multiset());
    assert forall|like: LabelView| #[trigger]
        rank_class(le, back, like) == rank_class(
            le,
            labels,
            like,
        ) by {
        let p = |x: LabelView| le(x, like) && le(like, x);
        filters_commute(after, other, p);
        filters_commute(with, other, p);
        assert(rank_class(le, after, like) == rank_class(
            le,
            with,
            like,
        ));
    }
    sorting_has_one_outcome(le, back, labels, labels);
}

/// What renaming makes of a label list in which the names differ: the old name
/// is gone, the new one counts the messages of both, the other labels are as
/// they were, and the names still differ.
pub proof fn renaming_moves_the_messages(
    labels: Seq<LabelView>,
    old_name: Seq<char>,
    new_name: Seq<char>,
    after: Seq<LabelView>,
)
    requires
        names_differ(labels),
        old_name != new_name,
        sorted_from(by_name(), after, renamed(labels, old_name, new_name)),
    ensures
        names_increase(after),
        forall|l: LabelView| #[trigger]
            after.contains(l) <==> (l.name != old_name && l.name != new_name && labels.contains(l))
                || l == (LabelView {
                name: new_name,
                count: saturating_sum(
                    count_of(labels, new_name),
                    count_of(labels, old_name),
                ),
            }),
{
    let count = count_of(labels, old_name);
    let rest = labels.filter(has_other_name(old_name));
    let at = first_index(rest, has_name(new_name));
    let made = renamed(labels, old_name, new_name);
    filter_keeps_names(labels, old_name);
    if rest.len() > 0 {
        first_index_before(rest, has_name(new_name), 0);
    }
    assert forall|k: int| 0 <= k < rest.len() && k != at implies (#[trigger] rest[k]).name
        != new_name by {
        first_index_before(rest, has_name(new_name), k);
    }
    let joint = LabelView {
        name: new_name,
        count: saturating_sum(count_of(labels, new_name), count),
    };
    assert(at < made.len());
    assert(made[at] == joint) by {
        let first = first_index(labels, has_name(new_name));
        if labels.len() > 0 {
            first_index_before(labels, has_name(new_name), 0);
        }
        if at < rest.len() {
            assert(rest.contains(rest[at]));
            let k = choose|k: int| 0 <= k < labels.len() && labels[k] == rest[at];
            first_index_before(labels, has_name(new_name), k);
            assert(first == k);
        } else if first < labels.len() {
            assert(labels.contains(labels[first]));
            assert(rest.contains(labels[first]));
            let k = choose|k: int| 0 <= k < rest.len() && rest[k] == labels[first];
            assert(rest[k].name == new_name);
        }
    }
    assert forall|k: int| 0 <= k < made.len() && k != at implies (#[trigger] made[k]).name
        != new_name && made[k] == rest[k] by {}
    assert(names_differ(made));
    permutation_keeps_names(made, after);
    assert forall|l: LabelView| #[trigger]
        after.contains(l) <==> (l.name != old_name && l.name != new_name && labels.contains(l)) || l
            == joint by {
        same_items(made, after, l);
        if made.contains(l) {
            let k = choose|k: int| 0 <= k < made.len() && made[k] == l;
            if k != at {
                assert(rest.contains(rest[k]));
            }
        }
        if l == joint {
            assert(made.contains(made[at]));
        }
        if l.name != old_name && l.name != new_name && labels.contains(l) {
            assert(rest.contains(l));
            let k = choose|k: int| 0 <= k < rest.len() && rest[k] == l;
            assert(made[k] == l);
        }
    }
}

proof fn filter_keeps_names(labels: Seq<LabelView>, name: Seq<char>)
    requires
        names_differ(labels),
    ensures
        names_differ(labels.filter(has_other_name(name))),
        forall|l: LabelView| #[trigger]
            labels.filter(has_other_name(name)).contains(l) <==> labels.contains(l) && l.name
                != name,
    decreases labels.len(),
{
    let p = has_other_name(name);
    if labels.len() > 0 {
        let rest = labels.drop_last();
        let last = labels.last();
        filter_keeps_names(rest, name);
        assert(labels == rest.push(last));
        rest.lemma_filter_push(last, p);
        let kept = rest.filter(p);
        let now = labels.filter(p);
        assert forall|l: LabelView| #[trigger] now.contains(l) <==> labels.contains(l) && l.name
            != name by {
            if now.contains(l) {
                let k = choose|k: int| 0 <= k < now.len() && now[k] == l;
                if k < kept.len() {
                    assert(kept.contains(l));
                    let m = choose|m: int| 0 <= m < rest.len() && rest[m] == l;
                    assert(labels[m] == l);
                } else {
                    assert(labels[labels.len() - 1] == l);
                }
            }
            if labels.contains(l) && l.name != name {
                let k = choose|k: int| 0 <= k < labels.len() && labels[k] == l;
                if k < rest.len() {
                    assert(rest[k] == l);
                    assert(rest.contains(l));
                    assert(kept.contains(l));
                    let m = choose|m: int| 0 <= m < kept.len() && kept[m] == l;
                    assert(now[m] == l);
                } else {
                    assert(now[now.len() - 1] == l);
                }
            }
        }
        assert forall|i: int, j: int|
            0 <= i < now.len() && 0 <= j < now.len() && i != j implies now[i].name
            != now[j].name by {
            if i < kept.len() && j < kept.len() {
                assert(kept[i].name != kept[j].name);
            } else {
                let k = if i < kept.len() {
                    i
                } else {
                    j
                };
                assert(kept.contains(kept[k]));
                let m = choose|m: int| 0 <= m < rest.len() && rest[m] == kept[k];
                assert(labels[m] == kept[k]);
                assert(labels[m].name != labels[labels.len() - 1].name);
            }
        }
    }
}

} // verus!
