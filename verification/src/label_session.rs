//! How labels are created, renamed and deleted: on the server, step by step,
//! and then in the cache.
//!
//! A step says what is to be done and what goes on with the outcome. When the
//! messages are changed, the connection is closed and the cache follows.

use crate::actions::{change_flag, flag_change, leaves_flag};
use crate::cache::{is_labels_path, CacheFile};
use crate::folders::{MailboxName, NameAttribute};
use crate::label_list::{self, by_name, stored_labels};
use crate::labels::{
    carries, encode_label, is_label_name, is_reserved, keyword_identifies_label,
    keyword_ignores_outer_space, keyword_of,
};
use crate::laws::labels::found_messages_are_named;
use crate::laws::numbers::selects;
use crate::list_session::Mailbox;
use crate::model::{Label, LabelView};
use crate::order::sorted_from;
use crate::text::{prefixed, texts, trim, trimmed, trimmed_once_is_enough, views};
use crate::uids::{increasing, runs_of, same_numbers, shown_runs, uid_set};
use vstd::prelude::*;
use vstd::string::*;

verus! {

broadcast use vstd::string::group_string_axioms;

// ---------------------------------------------------------------------------
// Creating
// ---------------------------------------------------------------------------

/// Adds a label without the white space around its name; an error for a text
/// that cannot be a label, and where there is a label of that name.
pub fn create_label(email: &str, stored: Option<Vec<Label>>, name: &str) -> (file: Result<
    CacheFile<Vec<Label>>,
    String,
>)
    ensures
        file is Ok <==> is_label_name(name@) && forall|i: int|
            0 <= i < stored_labels(stored).len() ==> (#[trigger] stored_labels(stored)[i]).name
                != trimmed(name@),
        file matches Ok(f) ==> is_labels_path(texts(f.path@), email@) && sorted_from(
            by_name(),
            views(f.value@),
            stored_labels(stored).push(LabelView { name: trimmed(name@), count: 0 }),
        ),
        file matches Err(e) ==> e@ == (if !is_label_name(name@) {
            "Название метки должно содержать от 1 до 15 символов"@
        } else {
            "Метка с таким названием уже есть"@
        }),
{
    let short = trim(name);
    proof {
        trimmed_once_is_enough(name@);
    }
    match encode_label(short) {
        Ok(_) => label_list::create_label(email, stored, short),
        Err(error) => Err(error),
    }
}

// ---------------------------------------------------------------------------
// Renaming
// ---------------------------------------------------------------------------

/// The names of a label that is renamed, and the keywords that carry them.
#[derive(Debug)]
pub struct Renaming {
    pub old_name: String,
    pub new_name: String,
    pub old_keyword: String,
    pub new_keyword: String,
}

/// The next step of renaming a label.
#[allow(inconsistent_fields)]
#[derive(Debug)]
pub enum RenameStep {
    /// Connect and ask for the mailboxes.
    List { then: RenameList },
    /// Open a mailbox.
    Select { raw_path: String, then: RenameSelect },
    /// Ask for the numbers of the messages with the old label.
    Search { query: String, then: RenameSearch },
    /// Put the new label on messages.
    Add { set: String, query: String, then: RenameAdd },
    /// Take the old label off messages.
    Remove { set: String, query: String, then: RenameRemove },
    /// Both names are the same: the labels are as they are stored.
    Unchanged,
    /// The messages in these mailboxes are changed.
    Done { mailboxes: Vec<String>, renaming: Renaming },
    /// The label cannot be renamed.
    Failed(String),
}

/// The mailboxes of a label that is renamed: those that are done, the one that
/// is worked on, and the rest.
#[derive(Debug)]
pub struct Place {
    pub done: Vec<String>,
    pub current: String,
    pub rest: Vec<String>,
}

/// Goes on when the mailboxes are known.
#[derive(Debug)]
pub struct RenameList {
    pub renaming: Renaming,
}

/// Goes on when a mailbox is open.
#[derive(Debug)]
pub struct RenameSelect {
    pub renaming: Renaming,
    pub place: Place,
}

/// Goes on when the messages with the old label are known.
#[derive(Debug)]
pub struct RenameSearch {
    pub renaming: Renaming,
    pub place: Place,
}

/// Goes on when the new label is on messages.
#[derive(Debug)]
pub struct RenameAdd {
    pub renaming: Renaming,
    pub place: Place,
    pub set: String,
}

/// Goes on when the old label is off messages.
#[derive(Debug)]
pub struct RenameRemove {
    pub renaming: Renaming,
    pub place: Place,
}

/// Whether a renaming is from one label to another.
pub open spec fn renames(renaming: Renaming, old_name: Seq<char>, new_name: Seq<char>) -> bool {
    &&& renaming.old_name@ == trimmed(old_name)
    &&& renaming.new_name@ == trimmed(new_name)
    &&& renaming.old_keyword@ == keyword_of(old_name)
    &&& renaming.new_keyword@ == keyword_of(new_name)
    &&& carries(renaming.old_keyword@, old_name)
    &&& carries(renaming.new_keyword@, new_name)
}

/// Begins to rename a label; an error for a text that cannot be a label.
pub fn rename_label(old_name: &str, new_name: &str) -> (step: RenameStep)
    ensures
        if !is_label_name(old_name@) || !is_label_name(new_name@) {
            step matches RenameStep::Failed(e) && e@
                == "Название метки должно содержать от 1 до 15 символов"@
        } else if trimmed(old_name@) == trimmed(new_name@) {
            step is Unchanged
        } else {
            step matches RenameStep::List { then } && renames(
                then.renaming,
                old_name@,
                new_name@,
            )
        },
{
    let old_short = trim(old_name);
    let new_short = trim(new_name);
    proof {
        trimmed_once_is_enough(old_name@);
        trimmed_once_is_enough(new_name@);
    }
    let old_keyword = match encode_label(old_short) {
        Ok(keyword) => keyword,
        Err(error) => {
            return RenameStep::Failed(error);
        },
    };
    let new_keyword = match encode_label(new_short) {
        Ok(keyword) => keyword,
        Err(error) => {
            return RenameStep::Failed(error);
        },
    };
    if old_short.eq(new_short) {
        return RenameStep::Unchanged;
    }
    proof {
        keyword_ignores_outer_space(old_name@, old_keyword@);
        keyword_ignores_outer_space(new_name@, new_keyword@);
    }
    RenameStep::List {
        then: RenameList {
            renaming: Renaming {
                old_name: old_short.to_owned(),
                new_name: new_short.to_owned(),
                old_keyword,
                new_keyword,
            },
        },
    }
}

/// Whether a mailbox can be opened.
pub open spec fn can_be_opened(mailbox: MailboxName) -> bool {
    !mailbox.attributes@.contains(NameAttribute::NoSelect)
}

/// The mailboxes that can be opened, in their order.
pub open spec fn openable(mailboxes: Seq<Option<MailboxName>>) -> Seq<Seq<char>>
    decreases mailboxes.len(),
{
    if mailboxes.len() == 0 {
        Seq::empty()
    } else {
        let before = openable(mailboxes.drop_last());
        if mailboxes.last() matches Some(mailbox) && can_be_opened(mailbox) {
            before.push(mailboxes.last()->0.name@)
        } else {
            before
        }
    }
}

fn opens(mailbox: &MailboxName) -> (can: bool)
    ensures
        can == can_be_opened(*mailbox),
{
    let mut i: usize = 0;
    while i < mailbox.attributes.len()
        invariant
            i <= mailbox.attributes@.len(),
            forall|k: int|
                0 <= k < i ==> #[trigger] mailbox.attributes@[k] != NameAttribute::NoSelect,
        decreases mailbox.attributes@.len() - i,
    {
        if mailbox.attributes[i] == NameAttribute::NoSelect {
            assert(mailbox.attributes@[i as int] == NameAttribute::NoSelect);
            return false;
        }
        i += 1;
    }
    true
}

fn openable_names(mailboxes: Vec<Option<MailboxName>>) -> (names: Vec<String>)
    ensures
        texts(names@) == openable(mailboxes@),
{
    let ghost all = mailboxes@;
    let mut names: Vec<String> = Vec::new();
    assert(texts(names@) == openable(all.take(0)));
    for item in it: mailboxes
        invariant
            it.seq() == mailboxes@,
            all == mailboxes@,
            texts(names@) == openable(all.take(it.index() as int)),
    {
        let ghost before = texts(names@);
        let ghost i = it.index() as int;
        assert(all.take(i + 1).drop_last() == all.take(i));
        assert(all.take(i + 1).last() == item);
        match item {
            Some(mailbox) => {
                if opens(&mailbox) {
                    names.push(mailbox.name);
                    assert(texts(names@) == before.push(mailbox.name@));
                }
            },
            None => {},
        }
    }
    assert(all.take(all.len() as int) == all);
    names
}

/// Whether a step opens the next mailbox, with those that are done and those
/// that follow; where there is none, the messages in all of them are changed.
pub open spec fn visits_next(
    step: RenameStep,
    renaming: Renaming,
    done: Seq<Seq<char>>,
    rest: Seq<Seq<char>>,
) -> bool {
    if rest.len() == 0 {
        &&& step matches RenameStep::Done { mailboxes, renaming: same }
        &&& texts(mailboxes@) == done
        &&& same == renaming
    } else {
        &&& step matches RenameStep::Select { raw_path, then }
        &&& raw_path@ == rest[0]
        &&& then.renaming == renaming
        &&& texts(then.place.done@) == done
        &&& then.place.current@ == rest[0]
        &&& texts(then.place.rest@) == rest.drop_first()
    }
}

fn visit_next(renaming: Renaming, done: Vec<String>, rest: Vec<String>) -> (step: RenameStep)
    ensures
        visits_next(step, renaming, texts(done@), texts(rest@)),
{
    if rest.len() == 0 {
        return RenameStep::Done { mailboxes: done, renaming };
    }
    let ghost all = texts(rest@);
    let mut rest = rest;
    let current = rest.remove(0);
    assert(current@ == all[0]);
    assert(texts(rest@) == all.drop_first());
    let raw_path = current.as_str().to_owned();
    RenameStep::Select {
        raw_path,
        then: RenameSelect { renaming, place: Place { done, current, rest } },
    }
}

impl Place {
    /// The mailboxes that are done when the current one is.
    pub open spec fn done_then(self) -> Seq<Seq<char>> {
        texts(self.done@).push(self.current@)
    }
}

fn leave(renaming: Renaming, place: Place) -> (step: RenameStep)
    ensures
        visits_next(step, renaming, place.done_then(), texts(place.rest@)),
{
    let ghost before = texts(place.done@);
    let mut done = place.done;
    done.push(place.current);
    assert(texts(done@) == before.push(place.current@));
    visit_next(renaming, done, place.rest)
}

impl RenameList {
    /// Opens the first of the mailboxes that can be opened.
    pub fn next(self, reply: Result<Vec<Option<MailboxName>>, String>) -> (step: RenameStep)
        ensures
            match reply {
                Err(error) => step == RenameStep::Failed(error),
                Ok(mailboxes) => visits_next(
                    step,
                    self.renaming,
                    Seq::empty(),
                    openable(mailboxes@),
                ),
            },
    {
        match reply {
            Ok(mailboxes) => {
                let done: Vec<String> = Vec::new();
                assert(texts(done@) == Seq::<Seq<char>>::empty());
                visit_next(self.renaming, done, openable_names(mailboxes))
            },
            Err(error) => RenameStep::Failed(error),
        }
    }
}

/// The search for the messages that a keyword is on.
pub open spec fn keyword_search(keyword: Seq<char>) -> Seq<char> {
    "KEYWORD "@ + keyword
}

fn search_keyword(keyword: &str) -> (query: String)
    ensures
        query@ == keyword_search(keyword@),
{
    prefixed("KEYWORD ", keyword)
}

impl RenameSelect {
    /// Searches the open mailbox for messages with the old label.
    pub fn next(self, reply: Result<Mailbox, String>) -> (step: RenameStep)
        ensures
            match reply {
                Err(error) => step == RenameStep::Failed(error),
                Ok(_) => {
                    &&& step matches RenameStep::Search { query, then }
                    &&& query@ == keyword_search(self.renaming.old_keyword@)
                    &&& then == (RenameSearch { renaming: self.renaming, place: self.place })
                },
            },
    {
        match reply {
            Ok(_) => RenameStep::Search {
                query: search_keyword(self.renaming.old_keyword.as_str()),
                then: RenameSearch { renaming: self.renaming, place: self.place },
            },
            Err(error) => RenameStep::Failed(error),
        }
    }
}

/// Whether a text names exactly the given messages to the server.
pub open spec fn names_exactly(set: Seq<char>, found: Seq<u32>) -> bool {
    exists|uids: Seq<u32>|
        increasing(uids) && same_numbers(uids, found) && set == shown_runs(
            #[trigger] runs_of(uids),
        )
}

impl RenameSearch {
    /// Puts the new label on the messages with the old one; where there are
    /// none, the mailbox is done.
    pub fn next(self, reply: Result<Vec<u32>, String>) -> (step: RenameStep)
        ensures
            match reply {
                Err(error) => step == RenameStep::Failed(error),
                Ok(found) => if found@.len() == 0 {
                    visits_next(
                        step,
                        self.renaming,
                        self.place.done_then(),
                        texts(self.place.rest@),
                    )
                } else {
                    &&& step matches RenameStep::Add { set, query, then }
                    &&& names_exactly(set@, found@)
                    &&& forall|uid: u32| #[trigger]
                        selects(set@, uid as nat) <==> found@.contains(uid)
                    &&& query@ == flag_change(true, self.renaming.new_keyword@)
                    &&& leaves_flag(query@, self.renaming.new_keyword@, true)
                    &&& then.renaming == self.renaming
                    &&& then.place == self.place
                    &&& then.set@ == set@
                },
            },
    {
        let found = match reply {
            Ok(found) => found,
            Err(error) => {
                return RenameStep::Failed(error);
            },
        };
        if found.len() == 0 {
            return leave(self.renaming, self.place);
        }
        let ghost numbers = found@;
        let mut uids = found;
        let set = uid_set(&mut uids);
        assert(names_exactly(set@, numbers)) by {
            assert(set@ == shown_runs(runs_of(uids@)));
        }
        proof {
            found_messages_are_named(set@, numbers);
        }
        let query = change_flag(true, self.renaming.new_keyword.as_str());
        let kept = set.as_str().to_owned();
        RenameStep::Add {
            set,
            query,
            then: RenameAdd { renaming: self.renaming, place: self.place, set: kept },
        }
    }
}

impl RenameAdd {
    /// Takes the old label off the messages that have the new one now.
    pub fn next(self, reply: Result<(), String>) -> (step: RenameStep)
        ensures
            match reply {
                Err(error) => step == RenameStep::Failed(error),
                Ok(_) => {
                    &&& step matches RenameStep::Remove { set, query, then }
                    &&& set == self.set
                    &&& query@ == flag_change(false, self.renaming.old_keyword@)
                    &&& leaves_flag(query@, self.renaming.old_keyword@, false)
                    &&& then == (RenameRemove { renaming: self.renaming, place: self.place })
                },
            },
    {
        match reply {
            Ok(_) => {
                let query = change_flag(false, self.renaming.old_keyword.as_str());
                RenameStep::Remove {
                    set: self.set,
                    query,
                    then: RenameRemove { renaming: self.renaming, place: self.place },
                }
            },
            Err(error) => RenameStep::Failed(error),
        }
    }
}

impl RenameRemove {
    /// Goes on to the next mailbox.
    pub fn next(self, reply: Result<(), String>) -> (step: RenameStep)
        ensures
            match reply {
                Err(error) => step == RenameStep::Failed(error),
                Ok(_) => visits_next(
                    step,
                    self.renaming,
                    self.place.done_then(),
                    texts(self.place.rest@),
                ),
            },
    {
        match reply {
            Ok(_) => leave(self.renaming, self.place),
            Err(error) => RenameStep::Failed(error),
        }
    }
}

/// The mailboxes of a label that is renamed, in the order in which they are
/// worked on.
pub open spec fn mailboxes_of(step: RenameStep) -> Seq<Seq<char>> {
    match step {
        RenameStep::Select { then, .. } => then.place.done_then() + texts(then.place.rest@),
        RenameStep::Search { then, .. } => then.place.done_then() + texts(then.place.rest@),
        RenameStep::Add { then, .. } => then.place.done_then() + texts(then.place.rest@),
        RenameStep::Remove { then, .. } => then.place.done_then() + texts(then.place.rest@),
        RenameStep::Done { mailboxes, .. } => texts(mailboxes@),
        _ => Seq::empty(),
    }
}

/// Going on to the next mailbox leaves none out: every step works on the same
/// mailboxes, and when the messages are changed all of them are done.
pub proof fn no_mailbox_is_left_out(
    step: RenameStep,
    renaming: Renaming,
    done: Seq<Seq<char>>,
    rest: Seq<Seq<char>>,
)
    requires
        visits_next(step, renaming, done, rest),
    ensures
        mailboxes_of(step) == done + rest,
{
    if rest.len() > 0 {
        assert(done.push(rest[0]) + rest.drop_first() == done + rest);
    }
}

/// The keywords of messages after a keyword is put on some of them, or taken
/// off.
pub open spec fn after_store(
    messages: Map<u32, Set<Seq<char>>>,
    found: Seq<u32>,
    enabled: bool,
    keyword: Seq<char>,
) -> Map<u32, Set<Seq<char>>> {
    messages.map_entries(
        |uid: u32, keywords: Set<Seq<char>>|
            if !found.contains(uid) {
                keywords
            } else if enabled {
                keywords.insert(keyword)
            } else {
                keywords.remove(keyword)
            },
    )
}

/// While a label is renamed no message is without it: between the two changes
/// of a mailbox the messages with the old label have both, and afterwards they
/// have the new label in place of the old one. All other labels, and all other
/// messages, stay as they are. Labels that are reserved keywords are left out:
/// two of them can share a keyword.
pub proof fn renaming_never_loses_a_label(
    renaming: Renaming,
    old_name: Seq<char>,
    new_name: Seq<char>,
    messages: Map<u32, Set<Seq<char>>>,
    found: Seq<u32>,
)
    requires
        renames(renaming, old_name, new_name),
        trimmed(old_name) != trimmed(new_name),
        !is_reserved(old_name),
        !is_reserved(new_name),
        forall|uid: u32| #[trigger]
            messages.dom().contains(uid) ==> (found.contains(uid) <==> messages[uid].contains(
                renaming.old_keyword@,
            )),
    ensures
        ({
            let old_keyword = renaming.old_keyword@;
            let new_keyword = renaming.new_keyword@;
            let between = after_store(messages, found, true, new_keyword);
            let after = after_store(between, found, false, old_keyword);
            &&& between.dom() == messages.dom()
            &&& after.dom() == messages.dom()
            &&& forall|uid: u32| #[trigger]
                messages.dom().contains(uid) ==> if messages[uid].contains(old_keyword) {
                    &&& between[uid] == messages[uid].insert(new_keyword)
                    &&& after[uid] == messages[uid].remove(old_keyword).insert(new_keyword)
                } else {
                    between[uid] == messages[uid] && after[uid] == messages[uid]
                }
            &&& forall|uid: u32| #[trigger]
                after.dom().contains(uid) ==> !after[uid].contains(old_keyword)
        }),
{
    let old_keyword = renaming.old_keyword@;
    let new_keyword = renaming.new_keyword@;
    if old_keyword == new_keyword {
        keyword_identifies_label(old_name, new_name, old_keyword);
    }
    let between = after_store(messages, found, true, new_keyword);
    let after = after_store(between, found, false, old_keyword);
    assert(between.dom() == messages.dom());
    assert(after.dom() == messages.dom());
    assert forall|uid: u32| #[trigger] messages.dom().contains(uid) implies if messages[uid].contains(
        old_keyword,
    ) {
        &&& between[uid] == messages[uid].insert(new_keyword)
        &&& after[uid] == messages[uid].remove(old_keyword).insert(new_keyword)
    } else {
        between[uid] == messages[uid] && after[uid] == messages[uid]
    } by {
        if messages[uid].contains(old_keyword) {
            assert(after[uid] == messages[uid].insert(new_keyword).remove(old_keyword));
            assert(messages[uid].insert(new_keyword).remove(old_keyword) == messages[uid].remove(
                old_keyword,
            ).insert(new_keyword));
        }
    }
}

// ---------------------------------------------------------------------------
// Deleting
// ---------------------------------------------------------------------------

/// The next step of deleting a label.
#[allow(inconsistent_fields)]
#[derive(Debug)]
pub enum DeleteStep {
    /// Connect and open the folder.
    Select { raw_path: String, then: DeleteSelect },
    /// Ask for the numbers of the messages with the label.
    Search { query: String, then: DeleteSearch },
    /// Take the label off messages.
    Remove { set: String, query: String, then: DeleteRemove },
    /// The messages are changed.
    Done { name: String },
    /// The label cannot be deleted.
    Failed(String),
}

/// Goes on when the folder is open.
#[derive(Debug)]
pub struct DeleteSelect {
    pub name: String,
    pub keyword: String,
}

/// Goes on when the messages with the label are known.
#[derive(Debug)]
pub struct DeleteSearch {
    pub name: String,
    pub keyword: String,
}

/// Goes on when the label is off messages.
#[derive(Debug)]
pub struct DeleteRemove {
    pub name: String,
}

/// Begins to delete a label from a folder; an error for a text that cannot be
/// a label.
pub fn delete_label(raw_path: String, name: &str) -> (step: DeleteStep)
    ensures
        if !is_label_name(name@) {
            step matches DeleteStep::Failed(e) && e@
                == "Название метки должно содержать от 1 до 15 символов"@
        } else {
            &&& step matches DeleteStep::Select { raw_path: asked, then }
            &&& asked == raw_path
            &&& then.name@ == trimmed(name@)
            &&& then.keyword@ == keyword_of(name@)
        },
{
    let short = trim(name);
    proof {
        trimmed_once_is_enough(name@);
    }
    match encode_label(short) {
        Ok(keyword) => DeleteStep::Select {
            raw_path,
            then: DeleteSelect { name: short.to_owned(), keyword },
        },
        Err(error) => DeleteStep::Failed(error),
    }
}

impl DeleteSelect {
    /// Searches the open folder for messages with the label.
    pub fn next(self, reply: Result<Mailbox, String>) -> (step: DeleteStep)
        ensures
            match reply {
                Err(error) => step == DeleteStep::Failed(error),
                Ok(_) => {
                    &&& step matches DeleteStep::Search { query, then }
                    &&& query@ == keyword_search(self.keyword@)
                    &&& then == (DeleteSearch { name: self.name, keyword: self.keyword })
                },
            },
    {
        match reply {
            Ok(_) => DeleteStep::Search {
                query: search_keyword(self.keyword.as_str()),
                then: DeleteSearch { name: self.name, keyword: self.keyword },
            },
            Err(error) => DeleteStep::Failed(error),
        }
    }
}

impl DeleteSearch {
    /// Takes the label off the messages that were found, if any.
    pub fn next(self, reply: Result<Vec<u32>, String>) -> (step: DeleteStep)
        ensures
            match reply {
                Err(error) => step == DeleteStep::Failed(error),
                Ok(found) => if found@.len() == 0 {
                    step == (DeleteStep::Done { name: self.name })
                } else {
                    &&& step matches DeleteStep::Remove { set, query, then }
                    &&& names_exactly(set@, found@)
                    &&& forall|uid: u32| #[trigger]
                        selects(set@, uid as nat) <==> found@.contains(uid)
                    &&& query@ == flag_change(false, self.keyword@)
                    &&& leaves_flag(query@, self.keyword@, false)
                    &&& then == (DeleteRemove { name: self.name })
                },
            },
    {
        let found = match reply {
            Ok(found) => found,
            Err(error) => {
                return DeleteStep::Failed(error);
            },
        };
        if found.len() == 0 {
            return DeleteStep::Done { name: self.name };
        }
        let ghost numbers = found@;
        let mut uids = found;
        let set = uid_set(&mut uids);
        assert(names_exactly(set@, numbers)) by {
            assert(set@ == shown_runs(runs_of(uids@)));
        }
        proof {
            found_messages_are_named(set@, numbers);
        }
        DeleteStep::Remove {
            set,
            query: change_flag(false, self.keyword.as_str()),
            then: DeleteRemove { name: self.name },
        }
    }
}

impl DeleteRemove {
    /// Ends when the label is off the messages.
    pub fn next(self, reply: Result<(), String>) -> (step: DeleteStep)
        ensures
            match reply {
                Err(error) => step == DeleteStep::Failed(error),
                Ok(_) => step == (DeleteStep::Done { name: self.name }),
            },
    {
        match reply {
            Ok(_) => DeleteStep::Done { name: self.name },
            Err(error) => DeleteStep::Failed(error),
        }
    }
}

} // verus!
