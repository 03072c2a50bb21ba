//! What is done to messages on the server, step by step, and how the cache
//! follows.
//!
//! A step says what is to be done and what goes on with the outcome. When the
//! messages are changed, the connection is closed and the file, if there is
//! one, is written.

use crate::cache::{page_of, readable_page, CacheFile, CachedPage, CachedPageView};
use crate::folders::{first_for, special_folder, MailboxName, NameAttribute};
use crate::labels::{encode_label, is_label_name, keyword_of};
use crate::laws::acting::{goes_home, has_home, homes_are_found, is_home, means};
use crate::laws::numbers::{selects, single_numbers_read_back};
use crate::list_session::{can_be_searched, Mailbox};
use crate::model::{ActionResult, MessageAction, MessageSelection};
use crate::pages::{update_messages, updated_page};
use crate::search::{asks_for_label, message_search, search_text};
use crate::text::{borrow, decimal, text_of, texts, to_decimal};
use crate::uids::{
    increasing, runs_are_compact_and_exact, runs_of, same_numbers, shown_runs, uid_set,
};
use std::collections::HashSet;
use vstd::prelude::*;
use vstd::string::*;

verus! {

broadcast use {vstd::string::group_string_axioms, vstd::std_specs::hash::group_hash_axioms};

// ---------------------------------------------------------------------------
// Commands
// ---------------------------------------------------------------------------

/// The command that sets or clears a flag.
pub open spec fn flag_change(enabled: bool, flag: Seq<char>) -> Seq<char> {
    (if enabled {
        "+"@
    } else {
        "-"@
    }) + "FLAGS.SILENT ("@ + flag + ")"@
}

/// How a server reads the command that changes the flags of a message: by its
/// first character the flag in brackets is set or cleared.
pub open spec fn flags_after(flags: Set<Seq<char>>, query: Seq<char>) -> Set<Seq<char>> {
    if query.len() < 16 || query.subrange(1, 15) != "FLAGS.SILENT ("@ || query.last() != ')' {
        flags
    } else if query[0] == '+' {
        flags.insert(query.subrange(15, query.len() - 1))
    } else if query[0] == '-' {
        flags.remove(query.subrange(15, query.len() - 1))
    } else {
        flags
    }
}

/// Whether a command leaves a message with a flag, or without it, and with all
/// its other flags as they were.
pub open spec fn leaves_flag(query: Seq<char>, flag: Seq<char>, on: bool) -> bool {
    forall|flags: Set<Seq<char>>|
        {
            &&& (#[trigger] flags_after(flags, query)).contains(flag) == on
            &&& forall|other: Seq<char>|
                other != flag ==> (#[trigger] flags_after(flags, query).contains(other)
                    <==> flags.contains(other))
        }
}

/// The command that is to set a flag is read as one that sets it, and the one
/// that is to clear it as one that clears it.
pub proof fn flag_commands_are_read(enabled: bool, flag: Seq<char>)
    ensures
        flag_change(enabled, flag)[0] == (if enabled {
            '+'
        } else {
            '-'
        }),
        leaves_flag(flag_change(enabled, flag), flag, enabled),
{
    reveal_strlit("+");
    reveal_strlit("-");
    reveal_strlit("FLAGS.SILENT (");
    reveal_strlit(")");
    let query = flag_change(enabled, flag);
    assert(query.subrange(1, 15) == "FLAGS.SILENT ("@);
    assert(query.subrange(15, query.len() - 1) == flag);
}

/// Writes the command that sets or clears a flag.
pub fn change_flag(enabled: bool, flag: &str) -> (query: String)
    ensures
        query@ == flag_change(enabled, flag@),
        leaves_flag(query@, flag@, enabled),
{
    proof {
        flag_commands_are_read(enabled, flag@);
    }
    let mut query = if enabled {
        "+".to_owned()
    } else {
        "-".to_owned()
    };
    query.append("FLAGS.SILENT (");
    query.append(flag);
    query.append(")");
    query
}

/// A change of messages, as the server is asked for it.
#[allow(inconsistent_fields)]
#[derive(Debug)]
pub enum Change {
    Store { set: String, query: String },
    Move { set: String, destination: String },
}

/// A change in a folder. It is known that nothing can be changed only when the
/// folder is open.
#[derive(Debug)]
pub struct PlannedChange {
    pub raw_path: String,
    pub change: Result<Change, String>,
}

/// Whether a change sets or clears a flag of a message.
pub open spec fn stores_flag(change: Result<Change, String>, uid: u32, wanted: Seq<char>) -> bool {
    &&& change matches Ok(c)
    &&& c matches Change::Store { set, query }
    &&& set@ == decimal(uid as nat)
    &&& query@ == wanted
}

/// Whether a change moves a message to a folder.
pub open spec fn moves_message(change: Result<Change, String>, uid: u32, to: String) -> bool {
    &&& change matches Ok(c)
    &&& c matches Change::Move { set, destination }
    &&& set@ == decimal(uid as nat)
    &&& destination == to
}

/// Whether a change leaves one message with a flag, or without it.
pub open spec fn marks(
    change: Result<Change, String>,
    uid: u32,
    flag: Seq<char>,
    on: bool,
) -> bool {
    &&& change matches Ok(c)
    &&& c matches Change::Store { set, query }
    &&& forall|other: u32| #[trigger] selects(set@, other as nat) <==> other == uid
    &&& leaves_flag(query@, flag, on)
}

/// Sets or clears the flag `seen` or `flagged` of a message; an error for
/// another flag.
pub fn set_flag(raw_path: String, uid: u32, flag: &str, enabled: bool) -> (planned: PlannedChange)
    ensures
        planned.raw_path == raw_path,
        planned.change is Ok <==> flag@ == "seen"@ || flag@ == "flagged"@,
        planned.change is Ok ==> stores_flag(
            planned.change,
            uid,
            flag_change(
                enabled,
                if flag@ == "seen"@ {
                    "\\Seen"@
                } else {
                    "\\Flagged"@
                },
            ),
        ),
        planned.change matches Err(e) ==> e@ == "Неизвестный флаг"@,
        flag@ == "seen"@ ==> marks(planned.change, uid, "\\Seen"@, enabled),
        flag@ == "flagged"@ ==> marks(planned.change, uid, "\\Flagged"@, enabled),
{
    proof {
        reveal_strlit("seen");
        reveal_strlit("flagged");
        assert("seen"@.len() != "flagged"@.len());
        single_numbers_read_back(uid);
    }
    let value = if flag.eq("seen") {
        "\\Seen"
    } else if flag.eq("flagged") {
        "\\Flagged"
    } else {
        return PlannedChange { raw_path, change: Err("Неизвестный флаг".to_owned()) };
    };
    let set = to_decimal(uid as u64);
    let query = change_flag(enabled, value);
    PlannedChange { raw_path, change: Ok(Change::Store { set, query }) }
}

/// Puts a label on a message or takes it off; an error for a text that cannot
/// be a label.
pub fn set_label(raw_path: String, uid: u32, label: &str, enabled: bool) -> (planned: Result<
    PlannedChange,
    String,
>)
    ensures
        planned is Ok <==> is_label_name(label@),
        planned matches Ok(p) ==> p.raw_path == raw_path && stores_flag(
            p.change,
            uid,
            flag_change(enabled, keyword_of(label@)),
        ),
        planned matches Err(e) ==> e@ == "Название метки должно содержать от 1 до 15 символов"@,
        planned matches Ok(p) ==> marks(p.change, uid, keyword_of(label@), enabled),
{
    proof {
        single_numbers_read_back(uid);
    }
    let keyword = match encode_label(label) {
        Ok(keyword) => keyword,
        Err(error) => {
            return Err(error);
        },
    };
    let set = to_decimal(uid as u64);
    let query = change_flag(enabled, keyword.as_str());
    Ok(PlannedChange { raw_path, change: Ok(Change::Store { set, query }) })
}

/// Moves a message to another folder.
pub fn move_message(raw_path: String, uid: u32, destination: String) -> (planned: PlannedChange)
    ensures
        planned.raw_path == raw_path,
        moves_message(planned.change, uid, destination),
        planned.change matches Ok(c) ==> (c matches Change::Move { set, destination: to } && to@
            == destination@ && forall|other: u32| #[trigger]
            selects(set@, other as nat) <==> other == uid),
{
    proof {
        single_numbers_read_back(uid);
    }
    PlannedChange {
        raw_path,
        change: Ok(Change::Move { set: to_decimal(uid as u64), destination }),
    }
}

// ---------------------------------------------------------------------------
// Actions on selected messages
// ---------------------------------------------------------------------------

/// What an action did: to which messages, and what the cache is to follow.
#[derive(Debug)]
pub struct ActionOutcome {
    pub uids: Vec<u32>,
    pub action: String,
    pub enabled: Option<bool>,
    pub value: Option<String>,
}

/// The next step of an action.
#[allow(inconsistent_fields)]
#[derive(Debug)]
pub enum ActionStep {
    /// Open the folder.
    Select { raw_path: String, then: ActSelect },
    /// Ask for the numbers of the messages that a search finds.
    Search { query: String, then: ActSearch },
    /// Set or clear a flag of messages.
    Store { set: String, query: String, then: ActChange },
    /// Move messages to a folder.
    Move { set: String, destination: String, then: ActChange },
    /// Ask for the mailboxes.
    List { then: ActList },
    /// The action is done.
    Done(ActionOutcome),
    /// The action cannot be done.
    Failed(String),
}

/// Goes on when the folder is open.
#[derive(Debug)]
pub struct ActSelect {
    pub raw_path: String,
    pub selection: MessageSelection,
    pub action: MessageAction,
}

/// Goes on when the search is done.
#[derive(Debug)]
pub struct ActSearch {
    pub raw_path: String,
    pub action: MessageAction,
}

/// Goes on when the messages are changed.
#[derive(Debug)]
pub struct ActChange {
    pub outcome: ActionOutcome,
}

/// Goes on when the mailboxes are known.
#[derive(Debug)]
pub struct ActList {
    pub raw_path: String,
    pub uids: Vec<u32>,
    pub set: String,
    pub wanted: String,
}

/// Whether a text names exactly the chosen messages to the server, and a list
/// holds their numbers from the smallest up.
pub open spec fn names_messages(uids: Seq<u32>, set: Seq<char>, chosen: Seq<u32>) -> bool {
    &&& increasing(uids)
    &&& same_numbers(uids, chosen)
    &&& set == shown_runs(runs_of(uids))
}

/// Whether an outcome is what the cache is to follow.
pub open spec fn follows(
    outcome: ActionOutcome,
    action: Seq<char>,
    enabled: Option<bool>,
    value: Option<Seq<char>>,
) -> bool {
    &&& outcome.action@ == action
    &&& outcome.enabled == enabled
    &&& text_of(outcome.value) == value
}

/// Whether a step sets or clears a flag of the chosen messages.
pub open spec fn stores(
    step: ActionStep,
    chosen: Seq<u32>,
    change: Seq<char>,
    action: Seq<char>,
    enabled: bool,
    value: Option<Seq<char>>,
) -> bool {
    &&& step matches ActionStep::Store { set, query, then }
    &&& names_messages(then.outcome.uids@, set@, chosen)
    &&& query@ == change
    &&& follows(then.outcome, action, Some(enabled), value)
}

/// Whether a step moves the chosen messages to a folder.
pub open spec fn moves(step: ActionStep, chosen: Seq<u32>, to: Seq<char>) -> bool {
    &&& step matches ActionStep::Move { set, destination, then }
    &&& names_messages(then.outcome.uids@, set@, chosen)
    &&& destination@ == to
    &&& follows(then.outcome, "move"@, None, None)
}

/// Whether a step asks for the mailboxes in order to move the chosen messages
/// to the one for a wanted use.
pub open spec fn looks_for(
    step: ActionStep,
    chosen: Seq<u32>,
    raw_path: Seq<char>,
    wanted: Seq<char>,
) -> bool {
    &&& step matches ActionStep::List { then }
    &&& names_messages(then.uids@, then.set@, chosen)
    &&& then.raw_path@ == raw_path
    &&& then.wanted@ == wanted
}

/// What is done to the chosen messages: nothing where none are chosen.
pub open spec fn acts_on(
    step: ActionStep,
    raw_path: Seq<char>,
    action: MessageAction,
    chosen: Seq<u32>,
) -> bool {
    if chosen.len() == 0 {
        step matches ActionStep::Done(outcome) && outcome.uids@.len() == 0 && follows(
            outcome,
            ""@,
            None,
            None,
        )
    } else {
        match action {
            MessageAction::Seen { enabled } => stores(
                step,
                chosen,
                flag_change(enabled, "\\Seen"@),
                "seen"@,
                enabled,
                None,
            ),
            MessageAction::Flagged { enabled } => stores(
                step,
                chosen,
                flag_change(enabled, "\\Flagged"@),
                "flagged"@,
                enabled,
                None,
            ),
            MessageAction::Label { name, enabled } => if is_label_name(name@) {
                stores(
                    step,
                    chosen,
                    flag_change(enabled, keyword_of(name@)),
                    "label"@,
                    enabled,
                    Some(name@),
                )
            } else {
                step matches ActionStep::Failed(e) && e@
                    == "Название метки должно содержать от 1 до 15 символов"@
            },
            MessageAction::Move { destination } => moves(step, chosen, destination@),
            MessageAction::Delete => looks_for(step, chosen, raw_path, "trash"@),
            MessageAction::Archive => looks_for(step, chosen, raw_path, "archive"@),
            MessageAction::Spam => looks_for(step, chosen, raw_path, "junk"@),
        }
    }
}

/// Begins an action on messages of a folder.
pub fn apply_message_action(
    raw_path: String,
    selection: MessageSelection,
    action: MessageAction,
) -> (step: ActionStep)
    ensures
        step matches ActionStep::Select { raw_path: asked, then } && asked@ == raw_path@ && then
            == (ActSelect { raw_path, selection, action }),
{
    let asked = raw_path.as_str().to_owned();
    ActionStep::Select { raw_path: asked, then: ActSelect { raw_path, selection, action } }
}

fn find_special(raw_path: String, uids: Vec<u32>, set: String, wanted: &str) -> (step: ActionStep)
    ensures
        step matches ActionStep::List { then } && then.raw_path == raw_path && then.uids == uids
            && then.set == set && then.wanted@ == wanted@,
{
    ActionStep::List { then: ActList { raw_path, uids, set, wanted: wanted.to_owned() } }
}

fn outcome_of(uids: Vec<u32>, action: &str, enabled: Option<bool>, value: Option<String>) -> (
outcome: ActionOutcome)
    ensures
        outcome.uids == uids,
        follows(outcome, action@, enabled, text_of(value)),
{
    ActionOutcome { uids, action: action.to_owned(), enabled, value }
}

/// Does an action to the chosen messages.
pub fn act_on(raw_path: String, action: MessageAction, chosen: Vec<u32>) -> (step: ActionStep)
    ensures
        acts_on(step, raw_path@, action, chosen@),
{
    let mut uids = chosen;
    if uids.len() == 0 {
        return ActionStep::Done(outcome_of(uids, "", None, None));
    }
    let set = uid_set(&mut uids);
    match action {
        MessageAction::Seen { enabled } => ActionStep::Store {
            set,
            query: change_flag(enabled, "\\Seen"),
            then: ActChange { outcome: outcome_of(uids, "seen", Some(enabled), None) },
        },
        MessageAction::Flagged { enabled } => ActionStep::Store {
            set,
            query: change_flag(enabled, "\\Flagged"),
            then: ActChange { outcome: outcome_of(uids, "flagged", Some(enabled), None) },
        },
        MessageAction::Label { name, enabled } => match encode_label(name.as_str()) {
            Ok(keyword) => ActionStep::Store {
                set,
                query: change_flag(enabled, keyword.as_str()),
                then: ActChange {
                    outcome: outcome_of(uids, "label", Some(enabled), Some(name)),
                },
            },
            Err(error) => ActionStep::Failed(error),
        },
        MessageAction::Move { destination } => ActionStep::Move {
            set,
            destination,
            then: ActChange { outcome: outcome_of(uids, "move", None, None) },
        },
        MessageAction::Delete => find_special(raw_path, uids, set, "trash"),
        MessageAction::Archive => find_special(raw_path, uids, set, "archive"),
        MessageAction::Spam => find_special(raw_path, uids, set, "junk"),
    }
}

impl ActSelect {
    /// Does the action to the messages that were chosen by their numbers, or
    /// searches for those that are meant.
    pub fn next(self, reply: Result<Mailbox, String>) -> (step: ActionStep)
        ensures
            match reply {
                Err(error) => step == ActionStep::Failed(error),
                Ok(_) => match self.selection {
                    MessageSelection::Uids { uids } => acts_on(
                        step,
                        self.raw_path@,
                        self.action,
                        uids@,
                    ),
                    MessageSelection::All { label, query } => {
                        let l = text_of(label);
                        let q = text_of(query);
                        if can_be_searched(l, q) {
                            step matches ActionStep::Search { query: sent, then } && sent@
                                == search_text(l, q) && then == (ActSearch {
                                raw_path: self.raw_path,
                                action: self.action,
                            })
                        } else {
                            step matches ActionStep::Failed(e) && e@ == (if asks_for_label(l)
                                && !is_label_name(l->0) {
                                "Название метки должно содержать от 1 до 15 символов"@
                            } else {
                                "Некорректный поисковый запрос"@
                            })
                        }
                    },
                },
            },
    {
        match reply {
            Ok(_) => {},
            Err(error) => {
                return ActionStep::Failed(error);
            },
        }
        match self.selection {
            MessageSelection::Uids { uids } => act_on(self.raw_path, self.action, uids),
            MessageSelection::All { label, query } => match message_search(
                borrow(&label),
                borrow(&query),
            ) {
                Ok(search) => ActionStep::Search {
                    query: search,
                    then: ActSearch { raw_path: self.raw_path, action: self.action },
                },
                Err(error) => ActionStep::Failed(error),
            },
        }
    }
}

impl ActSearch {
    /// Does the action to the messages that were found.
    pub fn next(self, reply: Result<Vec<u32>, String>) -> (step: ActionStep)
        ensures
            match reply {
                Err(error) => step == ActionStep::Failed(error),
                Ok(found) => acts_on(step, self.raw_path@, self.action, found@),
            },
    {
        match reply {
            Ok(found) => act_on(self.raw_path, self.action, found),
            Err(error) => ActionStep::Failed(error),
        }
    }
}

impl ActList {
    /// Moves the messages to the folder for the wanted use; an error where
    /// there is none, and where messages that are deleted are in the trash.
    pub fn next(self, reply: Result<Vec<Option<MailboxName>>, String>) -> (step: ActionStep)
        ensures
            match reply {
                Err(error) => step == ActionStep::Failed(error),
                Ok(mailboxes) => match first_for(mailboxes@, self.wanted@) {
                    None => step matches ActionStep::Failed(e) && e@
                        == "Нужная системная папка не найдена"@,
                    Some(to) => if self.wanted@ == "trash"@ && to == self.raw_path@ {
                        step matches ActionStep::Failed(e) && e@
                            == "Письмо уже находится в корзине"@
                    } else {
                        &&& step matches ActionStep::Move { set, destination, then }
                        &&& set == self.set
                        &&& destination@ == to
                        &&& then.outcome.uids == self.uids
                        &&& follows(then.outcome, "move"@, None, None)
                    },
                },
            },
            reply matches Ok(mailboxes) ==> forall|attribute: NameAttribute| #[trigger]
                means(self.wanted@, attribute) ==> goes_home(step, self, attribute, mailboxes@),
    {
        let mailboxes = match reply {
            Ok(mailboxes) => mailboxes,
            Err(error) => {
                return ActionStep::Failed(error);
            },
        };
        proof {
            assert forall|attribute: NameAttribute| #[trigger]
                means(self.wanted@, attribute) implies {
                &&& first_for(mailboxes@, self.wanted@) is Some <==> has_home(
                    mailboxes@,
                    attribute,
                )
                &&& first_for(mailboxes@, self.wanted@) matches Some(name) ==> is_home(
                    mailboxes@,
                    attribute,
                    name,
                )
                &&& attribute == NameAttribute::Trash <==> self.wanted@ == "trash"@
            } by {
                homes_are_found(mailboxes@, self.wanted@, attribute);
            }
        }
        let destination = match special_folder(mailboxes, self.wanted.as_str()) {
            Ok(destination) => destination,
            Err(error) => {
                return ActionStep::Failed(error);
            },
        };
        if self.wanted.as_str().eq("trash") && destination.as_str().eq(self.raw_path.as_str()) {
            return ActionStep::Failed("Письмо уже находится в корзине".to_owned());
        }
        ActionStep::Move {
            set: self.set,
            destination,
            then: ActChange { outcome: outcome_of(self.uids, "move", None, None) },
        }
    }
}

impl ActChange {
    /// Ends the action when the messages are changed.
    pub fn next(self, reply: Result<(), String>) -> (step: ActionStep)
        ensures
            match reply {
                Err(error) => step == ActionStep::Failed(error),
                Ok(_) => step == ActionStep::Done(self.outcome),
            },
    {
        match reply {
            Ok(_) => ActionStep::Done(self.outcome),
            Err(error) => ActionStep::Failed(error),
        }
    }
}

/// What is said when the server did not answer in time: it is not known
/// whether the action was done.
pub fn unknown_outcome() -> (error: String)
    ensures
        error@ == "ACTION_OUTCOME_UNKNOWN: Сервер не подтвердил результат действия вовремя"@,
{
    "ACTION_OUTCOME_UNKNOWN: Сервер не подтвердил результат действия вовремя".to_owned()
}

fn number_set(uids: &Vec<u32>) -> (set: HashSet<u32>)
    ensures
        set@ == uids@.to_set(),
{
    let mut set: HashSet<u32> = HashSet::new();
    let mut i: usize = 0;
    assert(set@ == uids@.take(0).to_set());
    while i < uids.len()
        invariant
            i <= uids@.len(),
            set@ == uids@.take(i as int).to_set(),
        decreases uids@.len() - i,
    {
        let ghost before = set@;
        set.insert(uids[i]);
        proof {
            let short = uids@.take(i as int);
            let long = uids@.take(i + 1);
            assert(long == short.push(uids@[i as int]));
            assert forall|u: u32| #[trigger] long.to_set().contains(u) implies before.insert(
                uids@[i as int],
            ).contains(u) by {
                let k = long.index_of(u);
                if k < i {
                    assert(short[k] == u);
                }
            }
            assert forall|u: u32| #[trigger] before.insert(uids@[i as int]).contains(
                u,
            ) implies long.to_set().contains(u) by {
                if short.contains(u) {
                    let k = short.index_of(u);
                    assert(long[k] == u);
                } else {
                    assert(long[i as int] == u);
                }
            }
        }
        i += 1;
    }
    assert(uids@.take(uids@.len() as int) == uids@);
    set
}

/// What is reported of an action, and the file to write for the folder's page:
/// none where no message was changed, or where there is no page to read.
pub fn action_done(
    email: &str,
    raw_path: &str,
    stored: Option<CachedPage>,
    outcome: ActionOutcome,
) -> (done: (ActionResult, Option<CacheFile<CachedPage>>))
    ensures
        done.0.affected == outcome.uids@.len(),
        done.1 is Some <==> outcome.uids@.len() > 0 && readable_page(page_of(stored)) is Some,
        done.1 matches Some(file) ==> {
            &&& crate::cache::is_page_path(texts(file.path@), email@, raw_path@)
            &&& file.value@ == (CachedPageView {
                page: updated_page(
                    stored->0@.page,
                    outcome.uids@.to_set(),
                    outcome.action@,
                    outcome.enabled,
                    text_of(outcome.value),
                ),
                ..stored->0@
            })
        },
{
    let affected: usize = outcome.uids.len();
    if affected == 0 {
        return (ActionResult { affected }, None);
    }
    let uids = number_set(&outcome.uids);
    let file = update_messages(
        email,
        raw_path,
        stored,
        &uids,
        outcome.action.as_str(),
        outcome.enabled,
        borrow(&outcome.value),
    );
    (ActionResult { affected }, file)
}

/// An action reaches exactly the chosen messages, each of them once: those that
/// the server is told of, in runs, those that the cache is to follow, and as
/// many as are reported.
pub proof fn action_reaches_exactly_the_chosen(uids: Seq<u32>, set: Seq<char>, chosen: Seq<u32>)
    requires
        names_messages(uids, set, chosen),
    ensures
        set == shown_runs(runs_of(uids)),
        forall|u: u32| #[trigger]
            chosen.contains(u) <==> exists|i: int|
                0 <= i < runs_of(uids).len() && (#[trigger] runs_of(uids)[i]).0 <= u
                    <= runs_of(uids)[i].1,
        uids.to_set() == chosen.to_set(),
        uids.len() == chosen.to_set().len(),
{
    runs_are_compact_and_exact(uids);
    assert forall|u: u32| #[trigger] chosen.contains(u) == uids.contains(u) by {}
    assert forall|u: u32| #[trigger] uids.to_set().contains(u) == chosen.to_set().contains(u) by {
        assert(uids.contains(u) == chosen.contains(u));
    }
    assert(uids.to_set() == chosen.to_set());
    assert(uids.no_duplicates());
    uids.unique_seq_to_set();
}

} // verus!
