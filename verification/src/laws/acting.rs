//! What holds of actions on messages: on the server and in the cache.

use crate::actions::{
    acts_on, flag_commands_are_read, leaves_flag, names_messages, ActList, ActionStep,
};
use crate::folders::{first_for, is_folder_for, MailboxName, NameAttribute};
use crate::labels::{is_label_name, keyword_of};
use crate::laws::numbers::{selections_read_back, selects};
use crate::model::{MessageAction, PageView, SummaryView};
use crate::pages::{
    patched_all, stays, updated_page, with_label, without_label_holds_the_others, EditView,
};
use crate::text::text_of;
use vstd::prelude::*;
use vstd::string::*;

verus! {

broadcast use vstd::string::group_string_axioms;

// ---------------------------------------------------------------------------
// On the server
// ---------------------------------------------------------------------------

proof fn chosen_are_named(uids: Seq<u32>, set: Seq<char>, chosen: Seq<u32>)
    requires
        names_messages(uids, set, chosen),
        chosen.len() > 0,
    ensures
        forall|uid: u32| #[trigger] selects(set, uid as nat) <==> chosen.contains(uid),
        forall|uid: u32| #[trigger] uids.to_set().contains(uid) <==> chosen.contains(uid),
{
    assert(chosen.contains(chosen[0]));
    assert(uids.contains(chosen[0]));
    selections_read_back(uids);
    assert forall|uid: u32| #[trigger] selects(set, uid as nat) <==> chosen.contains(uid) by {
        assert(uids.contains(uid) <==> chosen.contains(uid));
    }
    assert forall|uid: u32| #[trigger] uids.to_set().contains(uid) <==> chosen.contains(uid) by {
        assert(uids.contains(uid) <==> chosen.contains(uid));
    }
}

/// Whether a step tells the server to leave exactly the chosen messages with a
/// flag, or without it.
pub open spec fn leaves_chosen(
    step: ActionStep,
    chosen: Seq<u32>,
    flag: Seq<char>,
    on: bool,
) -> bool {
    &&& step is Store
    &&& step->Store_query@[0] == (if on {
        '+'
    } else {
        '-'
    })
    &&& leaves_flag(step->Store_query@, flag, on)
    &&& forall|uid: u32| #[trigger]
        selects(step->Store_set@, uid as nat) <==> chosen.contains(uid)
}

/// Messages that are marked as read or as unread are just that on the server,
/// all that were chosen and no other.
pub proof fn seen_is_marked_on_server(
    step: ActionStep,
    raw_path: Seq<char>,
    enabled: bool,
    chosen: Seq<u32>,
)
    requires
        acts_on(step, raw_path, MessageAction::Seen { enabled }, chosen),
        chosen.len() > 0,
    ensures
        leaves_chosen(step, chosen, "\\Seen"@, enabled),
{
    flag_commands_are_read(enabled, "\\Seen"@);
    chosen_are_named(step->Store_then.outcome.uids@, step->Store_set@, chosen);
}

/// Messages that are flagged, or not flagged any more, are just that on the
/// server, all that were chosen and no other.
pub proof fn flagged_is_marked_on_server(
    step: ActionStep,
    raw_path: Seq<char>,
    enabled: bool,
    chosen: Seq<u32>,
)
    requires
        acts_on(step, raw_path, MessageAction::Flagged { enabled }, chosen),
        chosen.len() > 0,
    ensures
        leaves_chosen(step, chosen, "\\Flagged"@, enabled),
{
    flag_commands_are_read(enabled, "\\Flagged"@);
    chosen_are_named(step->Store_then.outcome.uids@, step->Store_set@, chosen);
}

/// Messages that get a label, or lose it, have the keyword of the label on the
/// server, or have it not, all that were chosen and no other.
pub proof fn labels_are_put_on_server(
    step: ActionStep,
    raw_path: Seq<char>,
    name: String,
    enabled: bool,
    chosen: Seq<u32>,
)
    requires
        acts_on(step, raw_path, MessageAction::Label { name, enabled }, chosen),
        chosen.len() > 0,
    ensures
        is_label_name(name@) ==> leaves_chosen(step, chosen, keyword_of(name@), enabled),
        !is_label_name(name@) ==> step is Failed,
{
    if is_label_name(name@) {
        flag_commands_are_read(enabled, keyword_of(name@));
        chosen_are_named(step->Store_then.outcome.uids@, step->Store_set@, chosen);
    }
}

/// Messages that are moved go to the folder that was named, all that were
/// chosen and no other.
pub proof fn messages_are_moved_on_server(
    step: ActionStep,
    raw_path: Seq<char>,
    destination: String,
    chosen: Seq<u32>,
)
    requires
        acts_on(step, raw_path, MessageAction::Move { destination }, chosen),
        chosen.len() > 0,
    ensures
        step is Move,
        step->destination@ == destination@,
        forall|uid: u32| #[trigger]
            selects(step->Move_set@, uid as nat) <==> chosen.contains(uid),
{
    chosen_are_named(step->Move_then.outcome.uids@, step->Move_set@, chosen);
}

/// The attribute of the folder that messages are put into by an action.
pub open spec fn home_of(action: MessageAction) -> Option<NameAttribute> {
    match action {
        MessageAction::Delete => Some(NameAttribute::Trash),
        MessageAction::Archive => Some(NameAttribute::Archive),
        MessageAction::Spam => Some(NameAttribute::Junk),
        _ => None,
    }
}

proof fn first_for_is_first(
    mailboxes: Seq<Option<MailboxName>>,
    wanted: Seq<char>,
)
    ensures
        first_for(mailboxes, wanted) is None <==> forall|i: int|
            0 <= i < mailboxes.len() ==> ((#[trigger] mailboxes[i]) is Some ==> !is_folder_for(
                mailboxes[i]->0,
                wanted,
            )),
        first_for(mailboxes, wanted) matches Some(name) ==> exists|i: int|
            {
                &&& 0 <= i < mailboxes.len()
                &&& (#[trigger] mailboxes[i]) is Some
                &&& mailboxes[i]->0.name@ == name
                &&& is_folder_for(mailboxes[i]->0, wanted)
                &&& forall|k: int|
                    0 <= k < i ==> ((#[trigger] mailboxes[k]) is Some ==> !is_folder_for(
                        mailboxes[k]->0,
                        wanted,
                    ))
            },
    decreases mailboxes.len(),
{
    if mailboxes.len() > 0 {
        let rest = mailboxes.drop_first();
        first_for_is_first(rest, wanted);
        if mailboxes[0] is Some && is_folder_for(mailboxes[0]->0, wanted) {
            assert(mailboxes[0] is Some);
        } else if first_for(rest, wanted) is None {
            assert forall|i: int|
                0 <= i < mailboxes.len() && (#[trigger] mailboxes[i])
                    is Some implies !is_folder_for(mailboxes[i]->0, wanted) by {
                if i > 0 {
                    assert(rest[i - 1] == mailboxes[i]);
                }
            }
        } else {
            let name = first_for(rest, wanted)->0;
            let i = choose|i: int|
                {
                    &&& 0 <= i < rest.len()
                    &&& (#[trigger] rest[i]) is Some
                    &&& rest[i]->0.name@ == name
                    &&& is_folder_for(rest[i]->0, wanted)
                    &&& forall|k: int|
                        0 <= k < i ==> ((#[trigger] rest[k]) is Some ==> !is_folder_for(
                            rest[k]->0,
                            wanted,
                        ))
                };
            assert(mailboxes[i + 1] == rest[i]);
            assert forall|k: int|
                0 <= k < i + 1 && (#[trigger] mailboxes[k]) is Some implies !is_folder_for(
                mailboxes[k]->0,
                wanted,
            ) by {
                if k > 0 {
                    assert(rest[k - 1] == mailboxes[k]);
                }
            }
        }
    }
}

/// Whether a use is the one of an attribute.
pub open spec fn means(wanted: Seq<char>, attribute: NameAttribute) -> bool {
    ||| wanted == "trash"@ && attribute == NameAttribute::Trash
    ||| wanted == "archive"@ && attribute == NameAttribute::Archive
    ||| wanted == "junk"@ && attribute == NameAttribute::Junk
}

/// The folder for a use is the first with its attribute: the trash, the
/// archive, or the one for spam.
pub proof fn special_folders_have_attributes(
    mailboxes: Seq<Option<MailboxName>>,
    wanted: Seq<char>,
    attribute: NameAttribute,
)
    requires
        means(wanted, attribute),
    ensures
        first_for(mailboxes, wanted) is None <==> forall|i: int|
            0 <= i < mailboxes.len() ==> ((#[trigger] mailboxes[i]) is Some
                ==> !mailboxes[i]->0.attributes@.contains(attribute)),
        first_for(mailboxes, wanted) matches Some(name) ==> exists|i: int|
            {
                &&& 0 <= i < mailboxes.len()
                &&& (#[trigger] mailboxes[i]) is Some
                &&& mailboxes[i]->0.name@ == name
                &&& mailboxes[i]->0.attributes@.contains(attribute)
                &&& forall|k: int|
                    0 <= k < i ==> ((#[trigger] mailboxes[k]) is Some
                        ==> !mailboxes[k]->0.attributes@.contains(attribute))
            },
{
    reveal_strlit("trash");
    reveal_strlit("archive");
    reveal_strlit("junk");
    assert("trash"@.len() == 5 && "archive"@.len() == 7 && "junk"@.len() == 4);
    first_for_is_first(mailboxes, wanted);
    assert forall|m: MailboxName| #[trigger]
        is_folder_for(m, wanted) <==> m.attributes@.contains(attribute) by {
        if is_folder_for(m, wanted) {
            let i = choose|i: int|
                0 <= i < m.attributes@.len() && crate::folders::serves(
                    #[trigger] m.attributes@[i],
                    wanted,
                );
            assert(m.attributes@[i] == attribute);
        }
        if m.attributes@.contains(attribute) {
            let i = choose|i: int| 0 <= i < m.attributes@.len() && m.attributes@[i] == attribute;
            assert(crate::folders::serves(m.attributes@[i], wanted));
        }
    }
    if first_for(mailboxes, wanted) is None {
        assert forall|i: int|
            0 <= i < mailboxes.len() && (#[trigger] mailboxes[i])
                is Some implies !mailboxes[i]->0.attributes@.contains(attribute) by {
            assert(!is_folder_for(mailboxes[i]->0, wanted));
        }
    } else {
        let name = first_for(mailboxes, wanted)->0;
        let i = choose|i: int|
            {
                &&& 0 <= i < mailboxes.len()
                &&& (#[trigger] mailboxes[i]) is Some
                &&& mailboxes[i]->0.name@ == name
                &&& is_folder_for(mailboxes[i]->0, wanted)
                &&& forall|k: int|
                    0 <= k < i ==> ((#[trigger] mailboxes[k]) is Some ==> !is_folder_for(
                        mailboxes[k]->0,
                        wanted,
                    ))
            };
        assert(mailboxes[i]->0.attributes@.contains(attribute));
        assert forall|k: int|
            0 <= k < i && (#[trigger] mailboxes[k])
                is Some implies !mailboxes[k]->0.attributes@.contains(attribute) by {
            assert(!is_folder_for(mailboxes[k]->0, wanted));
        }
    }
}

/// Whether a mailbox of a name is the first with an attribute.
pub open spec fn is_home(
    mailboxes: Seq<Option<MailboxName>>,
    attribute: NameAttribute,
    name: Seq<char>,
) -> bool {
    exists|i: int|
        {
            &&& 0 <= i < mailboxes.len()
            &&& (#[trigger] mailboxes[i]) is Some
            &&& mailboxes[i]->0.name@ == name
            &&& mailboxes[i]->0.attributes@.contains(attribute)
            &&& forall|k: int|
                0 <= k < i ==> ((#[trigger] mailboxes[k]) is Some
                    ==> !mailboxes[k]->0.attributes@.contains(attribute))
        }
}

/// Whether some mailbox has an attribute.
pub open spec fn has_home(
    mailboxes: Seq<Option<MailboxName>>,
    attribute: NameAttribute,
) -> bool {
    exists|i: int|
        {
            &&& 0 <= i < mailboxes.len()
            &&& (#[trigger] mailboxes[i]) is Some
            &&& mailboxes[i]->0.attributes@.contains(attribute)
        }
}

/// Whether messages are moved to the first mailbox with an attribute; they are
/// not where there is none, and where they are in the trash already.
pub open spec fn goes_home(
    step: ActionStep,
    state: ActList,
    attribute: NameAttribute,
    mailboxes: Seq<Option<MailboxName>>,
) -> bool {
    if has_home(mailboxes, attribute) {
        exists|name: Seq<char>|
            {
                &&& #[trigger] is_home(mailboxes, attribute, name)
                &&& if attribute == NameAttribute::Trash && name == state.raw_path@ {
                    step is Failed
                } else {
                    &&& step is Move
                    &&& step->Move_set@ == state.set@
                    &&& step->destination@ == name
                    &&& step->Move_then.outcome.uids@ == state.uids@
                }
            }
    } else {
        step is Failed
    }
}

pub(crate) proof fn homes_are_found(
    mailboxes: Seq<Option<MailboxName>>,
    wanted: Seq<char>,
    attribute: NameAttribute,
)
    requires
        means(wanted, attribute),
    ensures
        first_for(mailboxes, wanted) is Some <==> has_home(mailboxes, attribute),
        first_for(mailboxes, wanted) matches Some(name) ==> is_home(mailboxes, attribute, name),
        attribute == NameAttribute::Trash <==> wanted == "trash"@,
{
    special_folders_have_attributes(mailboxes, wanted, attribute);
    reveal_strlit("trash");
    reveal_strlit("archive");
    reveal_strlit("junk");
    assert("trash"@.len() == 5 && "archive"@.len() == 7 && "junk"@.len() == 4);
    if has_home(mailboxes, attribute) {
        let i = choose|i: int|
            {
                &&& 0 <= i < mailboxes.len()
                &&& (#[trigger] mailboxes[i]) is Some
                &&& mailboxes[i]->0.attributes@.contains(attribute)
            };
        assert(mailboxes[i] is Some);
    }
    if first_for(mailboxes, wanted) is Some {
        let name = first_for(mailboxes, wanted)->0;
        let i = choose|i: int|
            {
                &&& 0 <= i < mailboxes.len()
                &&& (#[trigger] mailboxes[i]) is Some
                &&& mailboxes[i]->0.name@ == name
                &&& mailboxes[i]->0.attributes@.contains(attribute)
                &&& forall|k: int|
                    0 <= k < i ==> ((#[trigger] mailboxes[k]) is Some
                        ==> !mailboxes[k]->0.attributes@.contains(attribute))
            };
        assert(mailboxes[i] is Some);
    }
}

/// Messages that are deleted go to the trash, those that are archived to the
/// archive, and spam to the folder for it: to the first mailbox with that
/// attribute, all that were chosen and no other.
pub proof fn messages_go_to_their_home(
    step: ActionStep,
    raw_path: Seq<char>,
    action: MessageAction,
    chosen: Seq<u32>,
    mailboxes: Seq<Option<MailboxName>>,
)
    requires
        acts_on(step, raw_path, action, chosen),
        chosen.len() > 0,
        home_of(action) is Some,
    ensures
        step is List,
        forall|uid: u32| #[trigger]
            selects(step->List_then.set@, uid as nat) <==> chosen.contains(uid),
        first_for(mailboxes, step->List_then.wanted@) is None <==> forall|i: int|
            0 <= i < mailboxes.len() ==> ((#[trigger] mailboxes[i]) is Some
                ==> !mailboxes[i]->0.attributes@.contains(home_of(action)->0)),
        first_for(mailboxes, step->List_then.wanted@) matches Some(name) ==> exists|i: int|
            {
                &&& 0 <= i < mailboxes.len()
                &&& (#[trigger] mailboxes[i]) is Some
                &&& mailboxes[i]->0.name@ == name
                &&& mailboxes[i]->0.attributes@.contains(home_of(action)->0)
            },
{
    let then = step->List_then;
    chosen_are_named(then.uids@, then.set@, chosen);
    special_folders_have_attributes(mailboxes, then.wanted@, home_of(action)->0);
}

// ---------------------------------------------------------------------------
// In the cache
// ---------------------------------------------------------------------------

proof fn actions_differ()
    ensures
        "seen"@ != "move"@,
        "seen"@ != "flagged"@,
        "seen"@ != "label"@,
        "flagged"@ != "move"@,
        "flagged"@ != "label"@,
        "label"@ != "move"@,
        ""@ != "seen"@,
{
    reveal_strlit("seen");
    reveal_strlit("move");
    reveal_strlit("flagged");
    reveal_strlit("label");
    reveal_strlit("");
    assert("seen"@[0] == 's' && "move"@[0] == 'm');
    assert("seen"@.len() == 4 && "flagged"@.len() == 7 && "label"@.len() == 5);
}

/// What the cached page of a folder becomes when a step has been done.
pub open spec fn page_after(page: PageView, step: ActionStep) -> PageView {
    let outcome = match step {
        ActionStep::Store { then, .. } => then.outcome,
        ActionStep::Move { then, .. } => then.outcome,
        _ => arbitrary(),
    };
    updated_page(
        page,
        outcome.uids@.to_set(),
        outcome.action@,
        outcome.enabled,
        text_of(outcome.value),
    )
}

/// In the cache the chosen messages are marked as read or as unread, and
/// nothing else changes.
pub proof fn seen_is_marked_in_cache(
    step: ActionStep,
    raw_path: Seq<char>,
    enabled: bool,
    chosen: Seq<u32>,
    page: PageView,
)
    requires
        acts_on(step, raw_path, MessageAction::Seen { enabled }, chosen),
        chosen.len() > 0,
    ensures
        ({
            let after = page_after(page, step);
            &&& after.total == page.total && after.unseen == page.unseen
            &&& after.items.len() == page.items.len()
            &&& forall|i: int|
                0 <= i < page.items.len() ==> #[trigger] after.items[i] == (if chosen.contains(
                    page.items[i].uid,
                ) {
                    SummaryView { seen: enabled, ..page.items[i] }
                } else {
                    page.items[i]
                })
        }),
{
    actions_differ();
    let outcome = step->Store_then.outcome;
    chosen_are_named(outcome.uids@, step->Store_set@, chosen);
    let after = page_after(page, step);
    assert forall|i: int| 0 <= i < page.items.len() implies #[trigger] after.items[i] == (
    if chosen.contains(page.items[i].uid) {
        SummaryView { seen: enabled, ..page.items[i] }
    } else {
        page.items[i]
    }) by {
        assert(outcome.uids@.to_set().contains(page.items[i].uid) <==> chosen.contains(
            page.items[i].uid,
        ));
    }
}

/// In the cache the chosen messages are flagged or not flagged any more, and
/// nothing else changes.
pub proof fn flagged_is_marked_in_cache(
    step: ActionStep,
    raw_path: Seq<char>,
    enabled: bool,
    chosen: Seq<u32>,
    page: PageView,
)
    requires
        acts_on(step, raw_path, MessageAction::Flagged { enabled }, chosen),
        chosen.len() > 0,
    ensures
        ({
            let after = page_after(page, step);
            &&& after.total == page.total && after.unseen == page.unseen
            &&& after.items.len() == page.items.len()
            &&& forall|i: int|
                0 <= i < page.items.len() ==> #[trigger] after.items[i] == (if chosen.contains(
                    page.items[i].uid,
                ) {
                    SummaryView { flagged: enabled, ..page.items[i] }
                } else {
                    page.items[i]
                })
        }),
{
    actions_differ();
    let outcome = step->Store_then.outcome;
    chosen_are_named(outcome.uids@, step->Store_set@, chosen);
    let after = page_after(page, step);
    assert forall|i: int| 0 <= i < page.items.len() implies #[trigger] after.items[i] == (
    if chosen.contains(page.items[i].uid) {
        SummaryView { flagged: enabled, ..page.items[i] }
    } else {
        page.items[i]
    }) by {
        assert(outcome.uids@.to_set().contains(page.items[i].uid) <==> chosen.contains(
            page.items[i].uid,
        ));
    }
}

/// Whether a message differs from another in its labels at most.
pub open spec fn same_but_labels(a: SummaryView, b: SummaryView) -> bool {
    a == (SummaryView { labels: a.labels, ..b })
}

proof fn added_label_is_there(labels: Seq<Seq<char>>, label: Seq<char>)
    ensures
        with_label(labels, label).contains(label),
        forall|other: Seq<char>|
            other != label ==> (#[trigger] with_label(labels, label).contains(other)
                <==> labels.contains(other)),
{
    let after = with_label(labels, label);
    if !labels.contains(label) {
        assert(after[labels.len() as int] == label);
        assert forall|other: Seq<char>|
            other != label implies (#[trigger] after.contains(other) <==> labels.contains(
            other,
        )) by {
            if labels.contains(other) {
                let k = choose|k: int| 0 <= k < labels.len() && labels[k] == other;
                assert(after[k] == other);
            }
            if after.contains(other) {
                let k = choose|k: int| 0 <= k < after.len() && after[k] == other;
                assert(labels[k] == other);
            }
        }
    }
}

/// In the cache the chosen messages carry the label, or do not any more, and
/// nothing else changes.
pub proof fn labels_are_put_in_cache(
    step: ActionStep,
    raw_path: Seq<char>,
    name: String,
    enabled: bool,
    chosen: Seq<u32>,
    page: PageView,
)
    requires
        acts_on(step, raw_path, MessageAction::Label { name, enabled }, chosen),
        is_label_name(name@),
        chosen.len() > 0,
    ensures
        ({
            let after = page_after(page, step);
            &&& after.total == page.total && after.unseen == page.unseen
            &&& after.items.len() == page.items.len()
            &&& forall|i: int|
                0 <= i < page.items.len() ==> {
                    &&& same_but_labels(#[trigger] after.items[i], page.items[i])
                    &&& !chosen.contains(page.items[i].uid) ==> after.items[i] == page.items[i]
                    &&& chosen.contains(page.items[i].uid) ==> {
                        &&& after.items[i].labels.contains(name@) == enabled
                        &&& forall|other: Seq<char>|
                            other != name@ ==> (#[trigger] after.items[i].labels.contains(other)
                                <==> page.items[i].labels.contains(other))
                    }
                }
        }),
{
    actions_differ();
    let outcome = step->Store_then.outcome;
    chosen_are_named(outcome.uids@, step->Store_set@, chosen);
    let after = page_after(page, step);
    assert forall|i: int| 0 <= i < page.items.len() implies {
        &&& same_but_labels(#[trigger] after.items[i], page.items[i])
        &&& !chosen.contains(page.items[i].uid) ==> after.items[i] == page.items[i]
        &&& chosen.contains(page.items[i].uid) ==> {
            &&& after.items[i].labels.contains(name@) == enabled
            &&& forall|other: Seq<char>|
                other != name@ ==> (#[trigger] after.items[i].labels.contains(other)
                    <==> page.items[i].labels.contains(other))
        }
    } by {
        assert(outcome.uids@.to_set().contains(page.items[i].uid) <==> chosen.contains(
            page.items[i].uid,
        ));
        added_label_is_there(page.items[i].labels, name@);
        without_label_holds_the_others(page.items[i].labels, name@);
    }
}

/// In the cache messages that are moved are gone, the others stay in their
/// order, and the total is smaller by as many as are gone.
pub proof fn moved_messages_leave_cache(
    page: PageView,
    uids: Set<u32>,
    enabled: Option<bool>,
    value: Option<Seq<char>>,
)
    requires
        page.items.len() <= page.total,
    ensures
        ({
            let after = updated_page(page, uids, "move"@, enabled, value);
            &&& after.unseen == page.unseen
            &&& after.items == page.items.filter(|m: SummaryView| !uids.contains(m.uid))
            &&& after.total == page.total - (page.items.len() - after.items.len())
        }),
{
    let p = |m: SummaryView| !uids.contains(m.uid);
    assert(stays(uids) == p);
    crate::laws::acting::filter_is_shorter(page.items, p);
}

/// A filter lets at most all items pass.
pub proof fn filter_is_shorter(items: Seq<SummaryView>, p: spec_fn(SummaryView) -> bool)
    ensures
        items.filter(p).len() <= items.len(),
    decreases items.len(),
{
    reveal(Seq::filter);
    if items.len() > 0 {
        filter_is_shorter(items.drop_last(), p);
    }
}

/// The action on messages that are moved is one that takes them out of the
/// cached page.
pub proof fn moves_reach_the_cache(
    step: ActionStep,
    raw_path: Seq<char>,
    destination: String,
    chosen: Seq<u32>,
    page: PageView,
)
    requires
        acts_on(step, raw_path, MessageAction::Move { destination }, chosen),
        chosen.len() > 0,
        page.items.len() <= page.total,
    ensures
        page_after(page, step).items == page.items.filter(
            |m: SummaryView| !chosen.contains(m.uid),
        ),
{
    let outcome = step->Move_then.outcome;
    chosen_are_named(outcome.uids@, step->Move_set@, chosen);
    moved_messages_leave_cache(page, outcome.uids@.to_set(), None, None);
    let p = |m: SummaryView| !outcome.uids@.to_set().contains(m.uid);
    let q = |m: SummaryView| !chosen.contains(m.uid);
    assert forall|m: SummaryView| #[trigger] p(m) == q(m) by {
        assert(outcome.uids@.to_set().contains(m.uid) <==> chosen.contains(m.uid));
    }
    assert(p =~= q);
}

/// When a label is renamed in the cache, every message that carried the old
/// name carries the new one in its place, and nothing else changes.
pub proof fn labels_are_renamed_in_cache(
    messages: Seq<SummaryView>,
    old_name: Seq<char>,
    new_name: Seq<char>,
    i: int,
)
    requires
        old_name != new_name,
        0 <= i < messages.len(),
    ensures
        ({
            let after = patched_all(messages, EditView::RenameLabel(old_name, new_name));
            &&& after.len() == messages.len()
            &&& same_but_labels(after[i], messages[i])
            &&& !messages[i].labels.contains(old_name) ==> after[i] == messages[i]
            &&& !after[i].labels.contains(old_name)
            &&& messages[i].labels.contains(old_name) ==> after[i].labels.contains(new_name)
            &&& forall|other: Seq<char>|
                other != old_name && other != new_name ==> (#[trigger] after[i].labels.contains(
                    other,
                ) <==> messages[i].labels.contains(other))
        }),
{
    crate::pages::renamed_label_is_replaced(messages[i].labels, old_name, new_name);
}

/// When a label is deleted in the cache, no message carries it, and nothing
/// else changes.
pub proof fn labels_are_deleted_in_cache(messages: Seq<SummaryView>, name: Seq<char>, i: int)
    requires
        0 <= i < messages.len(),
    ensures
        ({
            let after = patched_all(messages, EditView::DropLabel(name));
            &&& after.len() == messages.len()
            &&& same_but_labels(after[i], messages[i])
            &&& !after[i].labels.contains(name)
            &&& forall|other: Seq<char>|
                other != name ==> (#[trigger] after[i].labels.contains(other)
                    <==> messages[i].labels.contains(other))
        }),
{
    without_label_holds_the_others(messages[i].labels, name);
}

/// Where nothing is chosen, nothing is done.
pub proof fn nothing_is_done_to_nothing(
    step: ActionStep,
    raw_path: Seq<char>,
    action: MessageAction,
)
    requires
        acts_on(step, raw_path, action, Seq::empty()),
    ensures
        step matches ActionStep::Done(outcome) && outcome.uids@.len() == 0,
{
}

} // verus!
