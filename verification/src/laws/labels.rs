//! What holds of labels.

use crate::codec::url_base64_decoded;
use crate::folders::{MailboxName, NameAttribute};
use crate::label_list::{by_name, count_of, has_name, has_other_name, renamed, saturating_sum};
use crate::label_session::{names_exactly, openable, renames, visits_next, RenameStep, Renaming};
use crate::labels::{
    carries, is_internal_keyword, is_plain_label, keyword_of, label_of_flag, FlagView,
};
use crate::laws::numbers::{selections_read_back, selects};
use crate::model::LabelView;
use crate::order::sorted_from;
use crate::text::{text_le, texts, trimmed};
use crate::uids::{increasing, runs_of, same_numbers, shown_runs};
use vstd::prelude::*;
use vstd::string::*;
use vstd::utf8::encode_utf8;

verus! {

broadcast use vstd::string::group_string_axioms;

/// A label that is made of letters, digits and the signs `_`, `.`, `$` and `-`
/// is its own keyword. Every other label has a keyword that begins with
/// `emailcli-` and goes on with the URL-safe Base64 of its UTF-8.
pub proof fn keywords_can_be_read_elsewhere(label: Seq<char>, keyword: Seq<char>)
    requires
        carries(keyword, label),
    ensures
        ({
            let name = trimmed(label);
            let plain = forall|i: int|
                0 <= i < name.len() ==> {
                    let c = #[trigger] name[i];
                    ||| 'a' <= c <= 'z'
                    ||| 'A' <= c <= 'Z'
                    ||| '0' <= c <= '9'
                    ||| c == '_' || c == '.' || c == '$' || c == '-'
                };
            &&& plain ==> keyword == name
            &&& !plain ==> keyword.take(9) == seq!['e', 'm', 'a', 'i', 'l', 'c', 'l', 'i', '-']
                && url_base64_decoded(keyword.skip(9)) == Some(encode_utf8(name))
        }),
{
    reveal_strlit("emailcli-");
    let name = trimmed(label);
    let plain = forall|i: int|
        0 <= i < name.len() ==> {
            let c = #[trigger] name[i];
            ||| 'a' <= c <= 'z'
            ||| 'A' <= c <= 'Z'
            ||| '0' <= c <= '9'
            ||| c == '_' || c == '.' || c == '$' || c == '-'
        };
    if plain {
        assert(is_plain_label(name));
    } else {
        let i = choose|i: int|
            0 <= i < name.len() && !({
                let c = #[trigger] name[i];
                ||| 'a' <= c <= 'z'
                ||| 'A' <= c <= 'Z'
                ||| '0' <= c <= '9'
                ||| c == '_' || c == '.' || c == '$' || c == '-'
            });
        assert(!crate::labels::is_keyword_char(name[i]));
        assert("emailcli-"@ == seq!['e', 'm', 'a', 'i', 'l', 'c', 'l', 'i', '-']);
        assert(keyword.take(9) == "emailcli-"@);
    }
}

/// The flags of the mail system carry no label.
pub proof fn system_flags_are_no_labels(flag: FlagView)
    ensures
        !(flag is Custom) ==> label_of_flag(flag) is None,
        flag == FlagView::Custom("$Junk"@) ==> label_of_flag(flag) is None,
        flag == FlagView::Custom("$NotJunk"@) ==> label_of_flag(flag) is None,
        flag == FlagView::Custom("Junk"@) ==> label_of_flag(flag) is None,
        flag == FlagView::Custom("NotJunk"@) ==> label_of_flag(flag) is None,
        flag == FlagView::Custom("JunkRecorded"@) ==> label_of_flag(flag) is None,
        flag == FlagView::Custom("$Forwarded"@) ==> label_of_flag(flag) is None,
        flag == FlagView::Custom("encrypted"@) ==> label_of_flag(flag) is None,
        flag matches FlagView::Custom(raw) ==> ("system_"@.is_prefix_of(raw) ==> label_of_flag(
            flag,
        ) is None),
{
    reveal_strlit("emailcli-");
    reveal_strlit("$Junk");
    reveal_strlit("$NotJunk");
    reveal_strlit("Junk");
    reveal_strlit("NotJunk");
    reveal_strlit("JunkRecorded");
    reveal_strlit("$Forwarded");
    reveal_strlit("encrypted");
    reveal_strlit("system_");
    assert("emailcli-"@[0] == 'e' && "emailcli-"@[1] == 'm');
    if let FlagView::Custom(raw) = flag {
        if "emailcli-"@.is_prefix_of(raw) {
            assert(raw[0] == 'e' && raw[1] == 'm');
            if "system_"@.is_prefix_of(raw) {
                assert(raw[0] == "system_"@[0]);
                assert("system_"@[0] == 's');
            }
        }
    }
}

/// A keyword that was set by somebody else is a label as it is, unless it is
/// one of the system's.
pub proof fn other_keywords_are_labels(raw: Seq<char>)
    requires
        raw.len() > 0,
        raw[0] != 'e',
        raw[0] != 's',
        raw[0] != '$',
        raw[0] != 'J',
        raw[0] != 'N',
    ensures
        label_of_flag(FlagView::Custom(raw)) == Some(raw),
{
    reveal_strlit("emailcli-");
    reveal_strlit("$Junk");
    reveal_strlit("$NotJunk");
    reveal_strlit("Junk");
    reveal_strlit("NotJunk");
    reveal_strlit("JunkRecorded");
    reveal_strlit("$Forwarded");
    reveal_strlit("encrypted");
    reveal_strlit("system_");
    if "emailcli-"@.is_prefix_of(raw) {
        assert(raw[0] == "emailcli-"@[0]);
    }
    if "system_"@.is_prefix_of(raw) {
        assert(raw[0] == "system_"@[0]);
    }
    assert(!is_internal_keyword(raw)) by {
        assert("encrypted"@[0] == 'e' && "$Junk"@[0] == '$' && "$NotJunk"@[0] == '$');
        assert("Junk"@[0] == 'J' && "NotJunk"@[0] == 'N' && "JunkRecorded"@[0] == 'J');
        assert("$Forwarded"@[0] == '$');
    }
}

/// Whether a label list is another one with a new label that no message
/// carries, in the order of the names.
pub open spec fn is_list_with(
    after: Seq<LabelView>,
    labels: Seq<LabelView>,
    name: Seq<char>,
) -> bool {
    &&& after.len() == labels.len() + 1
    &&& after.contains(LabelView { name, count: 0 })
    &&& forall|label: LabelView| #[trigger] labels.contains(label) ==> after.contains(label)
    &&& forall|label: LabelView| #[trigger]
        after.contains(label) ==> labels.contains(label) || label == (LabelView { name, count: 0 })
    &&& forall|i: int, j: int|
        0 <= i < j < after.len() ==> text_le(after[i].name, after[j].name)
}

/// A label that is created is in the list with no messages, in the order of
/// the names, and the labels that were there are there.
pub proof fn created_labels_are_listed(
    labels: Seq<LabelView>,
    name: Seq<char>,
    after: Seq<LabelView>,
)
    requires
        sorted_from(by_name(), after, labels.push(LabelView { name, count: 0 })),
    ensures
        is_list_with(after, labels, name),
{
    let new = LabelView { name, count: 0 };
    let all = labels.push(new);
    after.to_multiset_ensures();
    all.to_multiset_ensures();
    assert(all[labels.len() as int] == new);
    crate::lists::same_items(after, all, new);
    assert forall|label: LabelView| #[trigger] labels.contains(label) implies after.contains(
        label,
    ) by {
        let k = choose|k: int| 0 <= k < labels.len() && labels[k] == label;
        assert(all[k] == label);
        crate::lists::same_items(after, all, label);
    }
    assert forall|label: LabelView| #[trigger] after.contains(label) implies labels.contains(label)
        || label == new by {
        crate::lists::same_items(after, all, label);
        let k = choose|k: int| 0 <= k < all.len() && all[k] == label;
        if k < labels.len() {
            assert(labels[k] == label);
        }
    }
    assert forall|i: int, j: int| 0 <= i < j < after.len() implies text_le(
        after[i].name,
        after[j].name,
    ) by {
        assert(by_name()(after[i], after[j]));
    }
}

/// Whether in a label list a new name has taken the place of an old one: the
/// new name is there, the old one is not unless both are the same, all labels
/// of other names are as they were, and the list is in the order of the names.
pub open spec fn takes_over(
    after: Seq<LabelView>,
    labels: Seq<LabelView>,
    old_name: Seq<char>,
    new_name: Seq<char>,
) -> bool {
    &&& exists|i: int| 0 <= i < after.len() && (#[trigger] after[i]).name == new_name
    &&& old_name != new_name ==> forall|i: int|
        0 <= i < after.len() ==> (#[trigger] after[i]).name != old_name
    &&& forall|label: LabelView|
        label.name != old_name && label.name != new_name ==> (#[trigger] after.contains(label)
            <==> labels.contains(label))
    &&& forall|i: int, j: int|
        0 <= i < j < after.len() ==> text_le(after[i].name, after[j].name)
}

/// When a label is renamed, the new name takes the place of the old one, and
/// all other labels stay.
pub proof fn renamed_labels_are_listed(
    labels: Seq<LabelView>,
    old_name: Seq<char>,
    new_name: Seq<char>,
    after: Seq<LabelView>,
)
    requires
        sorted_from(by_name(), after, renamed(labels, old_name, new_name)),
    ensures
        takes_over(after, labels, old_name, new_name),
{
    let rest = labels.filter(has_other_name(old_name));
    let at = crate::lists::first_index(rest, has_name(new_name));
    let list = renamed(labels, old_name, new_name);
    if rest.len() > 0 {
        crate::lists::first_index_before(rest, has_name(new_name), 0);
    }
    let put = if at < rest.len() {
        at
    } else {
        rest.len() as int
    };
    assert(list[put].name == new_name);
    assert(list.contains(list[put]));
    crate::lists::same_items(after, list, list[put]);
    let k = choose|k: int| 0 <= k < after.len() && after[k] == list[put];
    assert(after[k].name == new_name);
    assert forall|label: LabelView| #[trigger] list.contains(label) implies label.name == new_name
        || rest.contains(label) by {
        let m = choose|m: int| 0 <= m < list.len() && list[m] == label;
        if m != put {
            assert(rest[m] == label);
        }
    }
    if old_name != new_name {
        assert forall|i: int| 0 <= i < after.len() implies (#[trigger] after[i]).name
            != old_name by {
            assert(after.contains(after[i]));
            crate::lists::same_items(after, list, after[i]);
            if after[i].name != new_name {
                deleted_labels_are_gone(labels, old_name, after[i]);
            }
        }
    }
    assert forall|label: LabelView|
        label.name != old_name && label.name != new_name implies (#[trigger] after.contains(label)
        <==> labels.contains(label)) by {
        crate::lists::same_items(after, list, label);
        deleted_labels_are_gone(labels, old_name, label);
        if rest.contains(label) {
            let m = choose|m: int| 0 <= m < rest.len() && rest[m] == label;
            if m == put {
                assert(has_name(new_name)(rest[m]));
            }
            assert(list[m] == label);
        }
    }
    assert forall|i: int, j: int| 0 <= i < j < after.len() implies text_le(
        after[i].name,
        after[j].name,
    ) by {
        assert(by_name()(after[i], after[j]));
    }
}

/// A label that is deleted is gone, and all others stay.
pub proof fn deleted_labels_are_gone(labels: Seq<LabelView>, name: Seq<char>, label: LabelView)
    ensures
        labels.filter(has_other_name(name)).contains(label) <==> labels.contains(label)
            && label.name != name,
    decreases labels.len(),
{
    let kept = labels.filter(has_other_name(name));
    crate::lists::count_of_filter(labels, has_other_name(name), label);
    kept.to_multiset_ensures();
    labels.to_multiset_ensures();
    assert(kept.contains(label) <==> kept.to_multiset().count(label) > 0);
    assert(labels.contains(label) <==> labels.to_multiset().count(label) > 0);
}

/// The messages that are named to the server are exactly those that were
/// found.
pub proof fn found_messages_are_named(set: Seq<char>, found: Seq<u32>)
    requires
        names_exactly(set, found),
        found.len() > 0,
    ensures
        forall|uid: u32| #[trigger] selects(set, uid as nat) <==> found.contains(uid),
{
    let uids = choose|uids: Seq<u32>|
        increasing(uids) && same_numbers(uids, found) && set == shown_runs(
            #[trigger] runs_of(uids),
        );
    assert(found.contains(found[0]));
    assert(uids.contains(found[0]));
    selections_read_back(uids);
}

/// A renaming is from the old name to the new one, and each of them has the
/// keyword that carries it.
pub proof fn renaming_goes_from_old_to_new(
    renaming: Renaming,
    old_name: Seq<char>,
    new_name: Seq<char>,
)
    requires
        renames(renaming, old_name, new_name),
    ensures
        renaming.old_name@ == trimmed(old_name),
        renaming.new_name@ == trimmed(new_name),
        carries(renaming.old_keyword@, old_name),
        carries(renaming.new_keyword@, new_name),
        renaming.old_keyword@ == keyword_of(old_name),
        renaming.new_keyword@ == keyword_of(new_name),
{
}

/// On the way from one mailbox to the next a renaming stays the same; each
/// mailbox is opened under its own name, and the last step comes when none is
/// left.
pub proof fn renaming_visits_mailboxes_in_turn(
    step: RenameStep,
    renaming: Renaming,
    done: Seq<Seq<char>>,
    rest: Seq<Seq<char>>,
)
    requires
        visits_next(step, renaming, done, rest),
    ensures
        step is Done <==> rest.len() == 0,
        step is Select <==> rest.len() > 0,
        step matches RenameStep::Done { mailboxes, renaming: same } ==> same == renaming && texts(
            mailboxes@,
        ) == done,
        step matches RenameStep::Select { raw_path, then } ==> then.renaming == renaming
            && raw_path@ == rest[0] && then.place.current@ == raw_path@ && texts(
            then.place.done@,
        ) == done && texts(then.place.rest@) == rest.skip(1),
{
    if rest.len() > 0 {
        assert(rest.drop_first() == rest.skip(1));
    }
}

/// The search for the messages with a label is for its keyword.
pub proof fn labels_are_searched_by_keyword(keyword: Seq<char>)
    ensures
        crate::label_session::keyword_search(keyword) == seq![
            'K',
            'E',
            'Y',
            'W',
            'O',
            'R',
            'D',
            ' ',
        ] + keyword,
{
    reveal_strlit("KEYWORD ");
    assert("KEYWORD "@ == seq!['K', 'E', 'Y', 'W', 'O', 'R', 'D', ' ']);
}

/// A label is renamed in exactly the mailboxes that can be opened.
pub proof fn openable_mailboxes_are_visited(
    mailboxes: Seq<Option<MailboxName>>,
    name: Seq<char>,
)
    ensures
        openable(mailboxes).contains(name) <==> exists|i: int|
            {
                &&& 0 <= i < mailboxes.len()
                &&& (#[trigger] mailboxes[i]) is Some
                &&& mailboxes[i]->0.name@ == name
                &&& !mailboxes[i]->0.attributes@.contains(NameAttribute::NoSelect)
            },
    decreases mailboxes.len(),
{
    let all = openable(mailboxes);
    if mailboxes.len() > 0 {
        let before = mailboxes.drop_last();
        let some = openable(before);
        openable_mailboxes_are_visited(before, name);
        let n = mailboxes.len() - 1;
        if all.contains(name) {
            let k = choose|k: int| 0 <= k < all.len() && all[k] == name;
            if k < some.len() {
                assert(some[k] == name);
                let i = choose|i: int|
                    {
                        &&& 0 <= i < before.len()
                        &&& (#[trigger] before[i]) is Some
                        &&& before[i]->0.name@ == name
                        &&& !before[i]->0.attributes@.contains(NameAttribute::NoSelect)
                    };
                assert(mailboxes[i] == before[i]);
            } else {
                assert(mailboxes[n] is Some);
            }
        }
        if exists|i: int|
            {
                &&& 0 <= i < mailboxes.len()
                &&& (#[trigger] mailboxes[i]) is Some
                &&& mailboxes[i]->0.name@ == name
                &&& !mailboxes[i]->0.attributes@.contains(NameAttribute::NoSelect)
            } {
            let i = choose|i: int|
                {
                    &&& 0 <= i < mailboxes.len()
                    &&& (#[trigger] mailboxes[i]) is Some
                    &&& mailboxes[i]->0.name@ == name
                    &&& !mailboxes[i]->0.attributes@.contains(NameAttribute::NoSelect)
                };
            if i < n {
                assert(before[i] == mailboxes[i]);
                let k = choose|k: int| 0 <= k < some.len() && some[k] == name;
                assert(all[k] == name);
            } else {
                assert(all[all.len() - 1] == name);
            }
        }
    }
}

/// The messages of two labels are added up, as far as they can be counted.
pub proof fn counts_are_added(labels: Seq<LabelView>, i: int, a: u32, b: u32)
    requires
        0 <= i < labels.len(),
        forall|k: int| 0 <= k < i ==> (#[trigger] labels[k]).name != labels[i].name,
    ensures
        count_of(labels, labels[i].name) == labels[i].count,
        a + b <= u32::MAX ==> saturating_sum(a, b) == a + b,
        a + b > u32::MAX ==> saturating_sum(a, b) == u32::MAX,
{
    crate::lists::first_index_is(labels, has_name(labels[i].name), i);
}

} // verus!
