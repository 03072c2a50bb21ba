//! The folders of a mailbox.

use crate::cache::read_folders;
use crate::codec::{
    decode_mailbox_name, encode_mailbox_name, has_no_order_mark, is_mailbox_name, utf7_decoded,
    utf7_encoded,
};
use crate::lists::{first_index, first_index_before, first_index_is};
use crate::model::{Folder, FolderView};
use crate::order::{sort, sorted_from, Order};
use crate::text::{
    after_last, breaks_line, cut_after_last, has_line_break, not_after, text_le, text_le_total,
    text_le_transitive, text_of, text_or, trim, trimmed, views,
};
use vstd::prelude::*;
use vstd::string::*;

verus! {

broadcast use vstd::string::group_string_axioms;

/// What the server says of a mailbox beside its name.
#[derive(Clone, Copy, Debug, PartialEq, Eq, Structural)]
pub enum NameAttribute {
    NoSelect,
    Archive,
    Drafts,
    Junk,
    Sent,
    Trash,
    Other,
}

/// A mailbox as the server lists it.
#[derive(Debug)]
pub struct MailboxName {
    pub name: String,
    pub delimiter: Option<String>,
    pub attributes: Vec<NameAttribute>,
}

// ---------------------------------------------------------------------------
// The folder list
// ---------------------------------------------------------------------------

/// What a mailbox with an attribute is for.
pub open spec fn use_of(attribute: NameAttribute) -> Option<Seq<char>> {
    match attribute {
        NameAttribute::Sent => Some("sent"@),
        NameAttribute::Trash => Some("trash"@),
        NameAttribute::Drafts => Some("drafts"@),
        NameAttribute::Junk => Some("junk"@),
        NameAttribute::Archive => Some("archive"@),
        _ => None,
    }
}

/// What a mailbox is for by the first of its attributes that says so.
pub open spec fn first_use(attributes: Seq<NameAttribute>) -> Option<Seq<char>>
    decreases attributes.len(),
{
    if attributes.len() == 0 {
        None
    } else if use_of(attributes[0]) is Some {
        use_of(attributes[0])
    } else {
        first_use(attributes.drop_first())
    }
}

/// The folder that a mailbox is shown as.
pub open spec fn folder_of(mailbox: MailboxName) -> FolderView {
    let path = utf7_decoded(mailbox.name@);
    let special_use = match first_use(mailbox.attributes@) {
        Some(u) => Some(u),
        None => if path == "INBOX"@ {
            Some("inbox"@)
        } else {
            None
        },
    };
    FolderView {
        name: if special_use == Some("inbox"@) {
            "Входящие"@
        } else {
            after_last(path, text_or(text_of(mailbox.delimiter), "/"@))
        },
        path,
        raw_path: mailbox.name@,
        special_use,
        total: 0,
        unseen: 0,
    }
}

/// The folders that mailboxes are shown as, in the order of the mailboxes;
/// those that could not be read are left out.
pub open spec fn folders_of(mailboxes: Seq<Option<MailboxName>>) -> Seq<FolderView>
    decreases mailboxes.len(),
{
    if mailboxes.len() == 0 {
        Seq::empty()
    } else {
        let before = folders_of(mailboxes.drop_last());
        match mailboxes.last() {
            Some(mailbox) => before.push(folder_of(mailbox)),
            None => before,
        }
    }
}

/// The place of a folder among those for other uses.
pub open spec fn rank_of(special_use: Option<Seq<char>>) -> int {
    match special_use {
        None => 1,
        Some(u) => if u == "inbox"@ {
            0
        } else if u == "archive"@ {
            2
        } else if u == "sent"@ {
            3
        } else if u == "trash"@ {
            4
        } else if u == "junk"@ {
            5
        } else if u == "drafts"@ {
            6
        } else {
            7
        },
    }
}

/// Folders by their uses, and by their names within a use.
pub open spec fn by_use() -> spec_fn(FolderView, FolderView) -> bool {
    |a: FolderView, b: FolderView|
        rank_of(a.special_use) < rank_of(b.special_use) || (rank_of(a.special_use) == rank_of(
            b.special_use,
        ) && text_le(a.name, b.name))
}

/// The order of folders by their uses and names.
pub struct ByUse;

impl Order<Folder> for ByUse {
    open spec fn le(&self) -> spec_fn(FolderView, FolderView) -> bool {
        by_use()
    }

    proof fn total(&self, a: FolderView, b: FolderView) {
        text_le_total(a.name, b.name);
    }

    proof fn transitive(&self, a: FolderView, b: FolderView, c: FolderView) {
        if text_le(a.name, b.name) && text_le(b.name, c.name) {
            text_le_transitive(a.name, b.name, c.name);
        }
    }

    fn compare(&self, a: &Folder, b: &Folder) -> bool {
        let left: u8 = folder_rank(&a.special_use);
        let right: u8 = folder_rank(&b.special_use);
        left < right || (left == right && not_after(a.name.as_str(), b.name.as_str()))
    }
}

fn folder_rank(special_use: &Option<String>) -> (rank: u8)
    ensures
        rank == rank_of(text_of(*special_use)),
{
    match special_use {
        None => 1,
        Some(u) => {
            let u = u.as_str();
            if u.eq("inbox") {
                0
            } else if u.eq("archive") {
                2
            } else if u.eq("sent") {
                3
            } else if u.eq("trash") {
                4
            } else if u.eq("junk") {
                5
            } else if u.eq("drafts") {
                6
            } else {
                7
            }
        },
    }
}

fn attribute_use(attribute: NameAttribute) -> (special_use: Option<String>)
    ensures
        text_of(special_use) == use_of(attribute),
{
    match attribute {
        NameAttribute::Sent => Some("sent".to_owned()),
        NameAttribute::Trash => Some("trash".to_owned()),
        NameAttribute::Drafts => Some("drafts".to_owned()),
        NameAttribute::Junk => Some("junk".to_owned()),
        NameAttribute::Archive => Some("archive".to_owned()),
        _ => None,
    }
}

fn find_use(attributes: &Vec<NameAttribute>) -> (special_use: Option<String>)
    ensures
        text_of(special_use) == first_use(attributes@),
{
    let mut i: usize = 0;
    assert(attributes@.skip(0) == attributes@);
    while i < attributes.len()
        invariant
            i <= attributes@.len(),
            first_use(attributes@) == first_use(attributes@.skip(i as int)),
        decreases attributes@.len() - i,
    {
        assert(attributes@.skip(i as int)[0] == attributes@[i as int]);
        assert(attributes@.skip(i as int).drop_first() == attributes@.skip(i + 1));
        let found = attribute_use(attributes[i]);
        if found.is_some() {
            return found;
        }
        i += 1;
    }
    None
}

/// The folder that a mailbox is shown as.
pub fn folder_from(mailbox: MailboxName) -> (folder: Folder)
    requires
        is_mailbox_name(mailbox.name@),
    ensures
        folder@ == folder_of(mailbox),
{
    let raw_path = mailbox.name;
    let path = decode_mailbox_name(raw_path.as_str().to_owned());
    let special_use = match find_use(&mailbox.attributes) {
        Some(u) => Some(u),
        None => if path.as_str().eq("INBOX") {
            Some("inbox".to_owned())
        } else {
            None
        },
    };
    let is_inbox = match &special_use {
        Some(u) => u.as_str().eq("inbox"),
        None => false,
    };
    let name = if is_inbox {
        "Входящие".to_owned()
    } else {
        match &mailbox.delimiter {
            Some(delimiter) => cut_after_last(path.as_str(), delimiter.as_str()).to_owned(),
            None => cut_after_last(path.as_str(), "/").to_owned(),
        }
    };
    Folder { name, path, raw_path, special_use, total: 0, unseen: 0 }
}

/// The folders that mailboxes are shown as, in their order.
pub fn list_folders(mailboxes: Vec<Option<MailboxName>>) -> (folders: Vec<Folder>)
    requires
        forall|i: int|
            0 <= i < mailboxes@.len() ==> ((#[trigger] mailboxes@[i]) matches Some(mailbox)
                ==> is_mailbox_name(mailbox.name@)),
    ensures
        sorted_from(by_use(), views(folders@), folders_of(mailboxes@)),
{
    let ghost all = mailboxes@;
    let mut folders: Vec<Folder> = Vec::new();
    assert(views(folders@) == folders_of(all.take(0)));
    for item in it: mailboxes
        invariant
            it.seq() == mailboxes@,
            all == mailboxes@,
            forall|i: int|
                0 <= i < all.len() ==> ((#[trigger] all[i]) matches Some(mailbox)
                    ==> is_mailbox_name(mailbox.name@)),
            views(folders@) == folders_of(all.take(it.index() as int)),
    {
        let ghost before = views(folders@);
        let ghost i = it.index() as int;
        assert(all[i] == item);
        assert(all.take(i + 1).drop_last() == all.take(i));
        assert(all.take(i + 1).last() == item);
        match item {
            Some(mailbox) => {
                let folder = folder_from(mailbox);
                folders.push(folder);
                assert(views(folders@) == before.push(folder@));
            },
            None => {},
        }
    }
    assert(all.take(all.len() as int) == all);
    sort(folders, &ByUse)
}

/// Every mailbox that could be read is shown once, and a mailbox that is the
/// inbox is in front of all that are not.
pub proof fn inbox_is_shown_first(
    mailboxes: Seq<Option<MailboxName>>,
    folders: Seq<FolderView>,
    i: int,
    j: int,
)
    requires
        sorted_from(by_use(), folders, folders_of(mailboxes)),
        0 <= i < folders.len(),
        0 <= j < folders.len(),
        folders[i].special_use == Some("inbox"@),
        folders[j].special_use != Some("inbox"@),
    ensures
        folders.to_multiset() == folders_of(mailboxes).to_multiset(),
        i < j,
{
    if j <= i {
        assert(by_use()(folders[j], folders[i]));
    }
}

// ---------------------------------------------------------------------------
// Changes of folders
// ---------------------------------------------------------------------------

/// Whether a text, without the white space around it, can name a folder: one
/// to eighty characters in one line.
pub open spec fn is_folder_name(name: Seq<char>) -> bool {
    let short = trimmed(name);
    0 < short.len() <= 80 && !breaks_line(short)
}

/// The name under which the server knows a folder; an error for a text that
/// cannot name one.
pub fn folder_name(name: String) -> (raw: Result<String, String>)
    ensures
        raw is Ok <==> is_folder_name(name@),
        raw matches Ok(r) ==> r@ == utf7_encoded(trimmed(name@)) && is_mailbox_name(r@) && (
        has_no_order_mark(trimmed(name@)) ==> utf7_decoded(r@) == trimmed(name@)),
        raw matches Err(e) ==> e@ == "Введите название папки длиной до 80 символов"@,
{
    let short = trim(name.as_str());
    if short.is_empty() || short.unicode_len() > 80 || has_line_break(short) {
        return Err("Введите название папки длиной до 80 символов".to_owned());
    }
    Ok(encode_mailbox_name(short.to_owned()))
}

/// A change of the folders, as the server is asked for it.
#[derive(Debug)]
pub enum FolderChange {
    Create { raw_path: String },
    Rename { raw_path: String, new_raw_path: String },
    Delete { raw_path: String },
}

/// Whether a folder is known under a name of the server.
pub open spec fn has_raw_path(raw_path: Seq<char>) -> spec_fn(FolderView) -> bool {
    |folder: FolderView| folder.raw_path == raw_path
}

/// What the stored folder list stands for: nothing where none is stored.
pub open spec fn stored_folders(stored: Option<Vec<Folder>>) -> Seq<FolderView> {
    match stored {
        Some(folders) => views(folders@),
        None => Seq::empty(),
    }
}

/// Why a folder cannot be changed, if it cannot: it is not in the list, or it
/// has a use of its own.
pub open spec fn change_refused(folders: Seq<FolderView>, raw_path: Seq<char>) -> Option<
    Seq<char>,
> {
    let at = first_index(folders, has_raw_path(raw_path));
    if at >= folders.len() {
        Some("Папка не найдена"@)
    } else if folders[at].special_use is Some {
        Some("Системную папку нельзя изменить"@)
    } else {
        None
    }
}

/// Tells whether a folder may be renamed and deleted.
pub fn editable_folder(stored: Option<Vec<Folder>>, raw_path: &str) -> (allowed: Result<
    (),
    String,
>)
    ensures
        allowed is Ok <==> change_refused(stored_folders(stored), raw_path@) is None,
        allowed matches Err(e) ==> change_refused(stored_folders(stored), raw_path@) == Some(
            e@,
        ),
{
    let ghost all = stored_folders(stored);
    let folders = read_folders(stored);
    assert(views(folders@) == all);
    let mut i: usize = 0;
    while i < folders.len()
        invariant
            i <= folders@.len(),
            all == stored_folders(stored),
            views(folders@) == all,
            forall|k: int| 0 <= k < i ==> !has_raw_path(raw_path@)(#[trigger] all[k]),
        decreases folders@.len() - i,
    {
        assert(all[i as int] == folders@[i as int]@);
        if folders[i].raw_path.as_str().eq(raw_path) {
            proof {
                first_index_is(all, has_raw_path(raw_path@), i as int);
            }
            return if folders[i].special_use.is_none() {
                Ok(())
            } else {
                Err("Системную папку нельзя изменить".to_owned())
            };
        }
        i += 1;
    }
    proof {
        first_index_is(all, has_raw_path(raw_path@), all.len() as int);
    }
    Err("Папка не найдена".to_owned())
}

/// The change that makes a folder; an error for a text that cannot name one.
pub fn create_folder(name: String) -> (change: Result<FolderChange, String>)
    ensures
        change is Ok <==> is_folder_name(name@),
        change matches Ok(c) ==> c matches FolderChange::Create { raw_path } && raw_path@
            == utf7_encoded(trimmed(name@)),
        change matches Err(e) ==> e@ == "Введите название папки длиной до 80 символов"@,
{
    match folder_name(name) {
        Ok(raw_path) => Ok(FolderChange::Create { raw_path }),
        Err(error) => Err(error),
    }
}

/// A folder that is to be renamed, with its new name checked.
#[derive(Debug)]
pub struct PendingRename {
    pub raw_path: String,
    pub new_raw_path: String,
}

/// Begins to rename a folder; an error for a text that cannot name one. The
/// folder itself is looked at afterwards.
pub fn rename_folder(raw_path: String, name: String) -> (pending: Result<PendingRename, String>)
    ensures
        pending is Ok <==> is_folder_name(name@),
        pending matches Ok(p) ==> p.raw_path == raw_path && p.new_raw_path@ == utf7_encoded(
            trimmed(name@),
        ),
        pending matches Err(e) ==> e@ == "Введите название папки длиной до 80 символов"@,
{
    match folder_name(name) {
        Ok(new_raw_path) => Ok(PendingRename { raw_path, new_raw_path }),
        Err(error) => Err(error),
    }
}

impl PendingRename {
    /// The change that renames the folder, where it may be changed.
    pub fn confirm(self, stored: Option<Vec<Folder>>) -> (change: Result<FolderChange, String>)
        ensures
            change is Ok <==> change_refused(stored_folders(stored), self.raw_path@) is None,
            change matches Ok(c) ==> c == (FolderChange::Rename {
                raw_path: self.raw_path,
                new_raw_path: self.new_raw_path,
            }),
            change matches Err(e) ==> change_refused(stored_folders(stored), self.raw_path@)
                == Some(e@),
    {
        match editable_folder(stored, self.raw_path.as_str()) {
            Ok(()) => Ok(
                FolderChange::Rename {
                    raw_path: self.raw_path,
                    new_raw_path: self.new_raw_path,
                },
            ),
            Err(error) => Err(error),
        }
    }
}

/// The change that deletes a folder, where it may be changed.
pub fn delete_folder(raw_path: String, stored: Option<Vec<Folder>>) -> (change: Result<
    FolderChange,
    String,
>)
    ensures
        change is Ok <==> change_refused(stored_folders(stored), raw_path@) is None,
        change matches Ok(c) ==> c == (FolderChange::Delete { raw_path }),
        change matches Err(e) ==> change_refused(stored_folders(stored), raw_path@) == Some(e@),
{
    match editable_folder(stored, raw_path.as_str()) {
        Ok(()) => Ok(FolderChange::Delete { raw_path }),
        Err(error) => Err(error),
    }
}

/// A folder may be changed exactly when the list knows it and the first entry
/// for it has no use of its own, so that no folder with a use of its own is
/// ever renamed or deleted.
pub proof fn folders_with_a_use_are_kept(folders: Seq<FolderView>, raw_path: Seq<char>)
    ensures
        change_refused(folders, raw_path) is None <==> exists|i: int|
            {
                &&& 0 <= i < folders.len()
                &&& (#[trigger] folders[i]).raw_path == raw_path
                &&& folders[i].special_use is None
                &&& forall|k: int| 0 <= k < i ==> (#[trigger] folders[k]).raw_path != raw_path
            },
{
    let at = first_index(folders, has_raw_path(raw_path));
    if change_refused(folders, raw_path) is None {
        assert forall|k: int| 0 <= k < at implies (#[trigger] folders[k]).raw_path
            != raw_path by {
            first_index_before(folders, has_raw_path(raw_path), k);
        }
        if folders.len() > 0 {
            first_index_before(folders, has_raw_path(raw_path), 0);
        }
        assert(folders[at].raw_path == raw_path);
    }
    if exists|i: int|
        {
            &&& 0 <= i < folders.len()
            &&& (#[trigger] folders[i]).raw_path == raw_path
            &&& folders[i].special_use is None
            &&& forall|k: int| 0 <= k < i ==> (#[trigger] folders[k]).raw_path != raw_path
        } {
        let i = choose|i: int|
            {
                &&& 0 <= i < folders.len()
                &&& (#[trigger] folders[i]).raw_path == raw_path
                &&& folders[i].special_use is None
                &&& forall|k: int| 0 <= k < i ==> (#[trigger] folders[k]).raw_path != raw_path
            };
        first_index_is(folders, has_raw_path(raw_path), i);
    }
}

// ---------------------------------------------------------------------------
// Folders for a use
// ---------------------------------------------------------------------------

/// Whether an attribute makes a mailbox the folder for a wanted use.
pub open spec fn serves(attribute: NameAttribute, wanted: Seq<char>) -> bool {
    ||| wanted == "trash"@ && attribute == NameAttribute::Trash
    ||| wanted == "archive"@ && attribute == NameAttribute::Archive
    ||| wanted == "junk"@ && attribute == NameAttribute::Junk
}

/// Whether a mailbox is the folder for a wanted use.
pub open spec fn is_folder_for(mailbox: MailboxName, wanted: Seq<char>) -> bool {
    exists|i: int|
        0 <= i < mailbox.attributes@.len() && serves(#[trigger] mailbox.attributes@[i], wanted)
}

/// The first mailbox for a wanted use.
pub open spec fn first_for(mailboxes: Seq<Option<MailboxName>>, wanted: Seq<char>) -> Option<
    Seq<char>,
>
    decreases mailboxes.len(),
{
    if mailboxes.len() == 0 {
        None
    } else if mailboxes[0] matches Some(mailbox) && is_folder_for(mailbox, wanted) {
        Some(mailboxes[0]->0.name@)
    } else {
        first_for(mailboxes.drop_first(), wanted)
    }
}

fn attribute_serves(attribute: NameAttribute, wanted: &str) -> (found: bool)
    ensures
        found == serves(attribute, wanted@),
{
    match attribute {
        NameAttribute::Trash => wanted.eq("trash"),
        NameAttribute::Archive => wanted.eq("archive"),
        NameAttribute::Junk => wanted.eq("junk"),
        _ => false,
    }
}

fn mailbox_serves(mailbox: &MailboxName, wanted: &str) -> (found: bool)
    ensures
        found == is_folder_for(*mailbox, wanted@),
{
    let mut i: usize = 0;
    while i < mailbox.attributes.len()
        invariant
            i <= mailbox.attributes@.len(),
            forall|k: int|
                0 <= k < i ==> !serves(#[trigger] mailbox.attributes@[k], wanted@),
        decreases mailbox.attributes@.len() - i,
    {
        if attribute_serves(mailbox.attributes[i], wanted) {
            assert(serves(mailbox.attributes@[i as int], wanted@));
            return true;
        }
        i += 1;
    }
    false
}

/// The mailbox for a wanted use, under the name that the server knows; an
/// error where there is none.
pub fn special_folder(mailboxes: Vec<Option<MailboxName>>, wanted: &str) -> (raw_path: Result<
    String,
    String,
>)
    ensures
        match first_for(mailboxes@, wanted@) {
            Some(name) => raw_path matches Ok(r) && r@ == name,
            None => raw_path matches Err(e) && e@ == "Нужная системная папка не найдена"@,
        },
{
    let ghost all = mailboxes@;
    assert(all.skip(0) == all);
    for item in it: mailboxes
        invariant
            it.seq() == mailboxes@,
            all == mailboxes@,
            first_for(all, wanted@) == first_for(all.skip(it.index() as int), wanted@),
    {
        assert(all.skip(it.index() as int)[0] == item);
        assert(all.skip(it.index() as int).drop_first() == all.skip(it.index() + 1));
        match item {
            Some(mailbox) => {
                if mailbox_serves(&mailbox, wanted) {
                    return Ok(mailbox.name);
                }
            },
            None => {},
        }
    }
    Err("Нужная системная папка не найдена".to_owned())
}

} // verus!
