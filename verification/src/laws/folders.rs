//! What holds of the folders that are shown.

use crate::codec::utf7_decoded;
use crate::folders::{
    by_use, change_refused, first_use, folder_of, folders_of, rank_of, MailboxName, NameAttribute,
};
use crate::model::FolderView;
use crate::order::sorted_from;
use crate::text::{after_last, text_le};
use vstd::prelude::*;
use vstd::string::*;

verus! {

broadcast use vstd::string::group_string_axioms;

/// Whether an attribute says what a mailbox is for.
pub open spec fn tells_use(attribute: NameAttribute) -> bool {
    attribute != NameAttribute::NoSelect && attribute != NameAttribute::Other
}

/// Whether an attribute is the first of a mailbox that says what it is for.
pub open spec fn is_first_use(mailbox: MailboxName, i: int) -> bool {
    &&& 0 <= i < mailbox.attributes@.len()
    &&& tells_use(mailbox.attributes@[i])
    &&& forall|k: int| 0 <= k < i ==> !tells_use(#[trigger] mailbox.attributes@[k])
}

proof fn first_use_is_first(attributes: Seq<NameAttribute>, i: int)
    requires
        0 <= i <= attributes.len(),
        i < attributes.len() ==> tells_use(attributes[i]),
        forall|k: int| 0 <= k < i ==> !tells_use(#[trigger] attributes[k]),
    ensures
        i < attributes.len() ==> first_use(attributes) == crate::folders::use_of(attributes[i])
            && first_use(attributes) is Some,
        i == attributes.len() ==> first_use(attributes) is None,
    decreases attributes.len(),
{
    if attributes.len() > 0 && i > 0 {
        assert(!tells_use(attributes[0]));
        let rest = attributes.drop_first();
        assert forall|k: int| 0 <= k < i - 1 implies !tells_use(#[trigger] rest[k]) by {
            assert(rest[k] == attributes[k + 1]);
        }
        first_use_is_first(rest, i - 1);
    }
}

/// A folder is for what the first attribute of its mailbox says: for sent
/// messages, the trash, drafts, spam or the archive.
pub proof fn folders_are_for_their_attribute(mailbox: MailboxName, i: int)
    requires
        is_first_use(mailbox, i),
    ensures
        ({
            let attribute = mailbox.attributes@[i];
            let special_use = folder_of(mailbox).special_use;
            &&& attribute == NameAttribute::Sent ==> special_use == Some("sent"@)
            &&& attribute == NameAttribute::Trash ==> special_use == Some("trash"@)
            &&& attribute == NameAttribute::Drafts ==> special_use == Some("drafts"@)
            &&& attribute == NameAttribute::Junk ==> special_use == Some("junk"@)
            &&& attribute == NameAttribute::Archive ==> special_use == Some("archive"@)
        }),
{
    first_use_is_first(mailbox.attributes@, i);
}

/// A mailbox whose attributes do not say what it is for is the inbox where it
/// is called so, and else a folder without a use of its own.
pub proof fn other_folders_have_no_use(mailbox: MailboxName)
    requires
        forall|k: int|
            0 <= k < mailbox.attributes@.len() ==> !tells_use(#[trigger] mailbox.attributes@[k]),
    ensures
        utf7_decoded(mailbox.name@) == "INBOX"@ ==> folder_of(mailbox).special_use == Some(
            "inbox"@,
        ) && folder_of(mailbox).name == "Входящие"@,
        utf7_decoded(mailbox.name@) != "INBOX"@ ==> folder_of(mailbox).special_use is None,
{
    first_use_is_first(mailbox.attributes@, mailbox.attributes@.len() as int);
}

/// A folder keeps the name of the server, its path is that name decoded, and
/// it is shown under the last piece of the path, unless it is the inbox.
pub proof fn folders_are_shown_by_name(mailbox: MailboxName)
    ensures
        folder_of(mailbox).raw_path == mailbox.name@,
        folder_of(mailbox).path == utf7_decoded(mailbox.name@),
        folder_of(mailbox).special_use != Some("inbox"@) ==> folder_of(mailbox).name
            == after_last(
            utf7_decoded(mailbox.name@),
            if mailbox.delimiter is Some {
                mailbox.delimiter->0@
            } else {
                "/"@
            },
        ),
        folder_of(mailbox).special_use == Some("inbox"@) ==> folder_of(mailbox).name
            == "Входящие"@,
        folder_of(mailbox).total == 0,
        folder_of(mailbox).unseen == 0,
{
}

/// Every mailbox that can be read is a folder, one by one.
pub proof fn mailboxes_are_folders(
    mailboxes: Seq<Option<MailboxName>>,
    mailbox: Option<MailboxName>,
)
    ensures
        folders_of(Seq::empty()) == Seq::<FolderView>::empty(),
        folders_of(mailboxes.push(mailbox)) == (match mailbox {
            Some(m) => folders_of(mailboxes).push(folder_of(m)),
            None => folders_of(mailboxes),
        }),
{
    assert(mailboxes.push(mailbox).drop_last() == mailboxes);
}

/// The order of the uses: the inbox, folders without a use, the archive, sent
/// messages, the trash, spam and drafts.
pub proof fn uses_are_ordered()
    ensures
        rank_of(Some("inbox"@)) < rank_of(None) < rank_of(Some("archive"@)) < rank_of(
            Some("sent"@),
        ) < rank_of(Some("trash"@)) < rank_of(Some("junk"@)) < rank_of(Some("drafts"@)),
{
    reveal_strlit("inbox");
    reveal_strlit("archive");
    reveal_strlit("sent");
    reveal_strlit("trash");
    reveal_strlit("junk");
    reveal_strlit("drafts");
    assert("inbox"@[0] == 'i' && "archive"@[0] == 'a' && "sent"@[0] == 's');
    assert("trash"@[0] == 't' && "junk"@[0] == 'j' && "drafts"@[0] == 'd');
}

/// Folders are listed by their uses, and by their names where they have the
/// same use; each folder is listed once.
pub proof fn folders_are_listed_in_order(
    folders: Seq<FolderView>,
    mailboxes: Seq<Option<MailboxName>>,
)
    requires
        sorted_from(by_use(), folders, folders_of(mailboxes)),
    ensures
        forall|i: int, j: int|
            0 <= i < j < folders.len() ==> rank_of(folders[i].special_use) <= rank_of(
                folders[j].special_use,
            ),
        forall|i: int, j: int|
            0 <= i < j < folders.len() && folders[i].special_use == folders[j].special_use
                ==> text_le(folders[i].name, folders[j].name),
        folders.to_multiset() == folders_of(mailboxes).to_multiset(),
{
    assert forall|i: int, j: int| 0 <= i < j < folders.len() implies rank_of(
        folders[i].special_use,
    ) <= rank_of(folders[j].special_use) by {
        assert(by_use()(folders[i], folders[j]));
    }
    assert forall|i: int, j: int|
        0 <= i < j < folders.len() && folders[i].special_use
            == folders[j].special_use implies text_le(folders[i].name, folders[j].name) by {
        assert(by_use()(folders[i], folders[j]));
    }
}

/// A folder that the list does not know cannot be changed, and the reason is
/// another one than for a folder with a use of its own.
pub proof fn refusals_are_told_apart(folders: Seq<FolderView>, raw_path: Seq<char>)
    ensures
        (forall|i: int| 0 <= i < folders.len() ==> (#[trigger] folders[i]).raw_path != raw_path)
            ==> change_refused(folders, raw_path) == Some("Папка не найдена"@),
        (exists|i: int| 0 <= i < folders.len() && (#[trigger] folders[i]).raw_path == raw_path)
            && change_refused(folders, raw_path) is Some ==> change_refused(folders, raw_path)
            == Some("Системную папку нельзя изменить"@),
{
    let p = crate::folders::has_raw_path(raw_path);
    if folders.len() > 0 {
        crate::lists::first_index_before(folders, p, 0);
    }
    if exists|i: int| 0 <= i < folders.len() && (#[trigger] folders[i]).raw_path == raw_path {
        let i = choose|i: int| 0 <= i < folders.len() && (#[trigger] folders[i]).raw_path == raw_path;
        crate::lists::first_index_before(folders, p, i);
        assert(p(folders[i]));
    }
}

} // verus!
