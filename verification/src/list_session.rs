//! How a folder is listed: what is asked of the server and of the cache, step
//! by step, and what is shown in the end.
//!
//! A step says what is to be done and what goes on with the outcome. Where a
//! step fails the folder is not listed. When it is done, the connection is
//! closed and the file, if there is one, is written.

use crate::cache::{
    is_page_path, page_of, readable_page, write_page, CacheFile, CachedDetail, CachedPage,
    CachedPageView, CACHE_VERSION,
};
use crate::codec::lowercase;
use crate::labels::is_label_name;
use crate::laws::numbers::{number_lists_read_back, selects};
use crate::laws::searching::both_kinds_are_shown;
use crate::listing::{
    are_latest, clamp_limit, copy_page, found_here_only, highest_first, keep_latest, last_places,
    latest_range, merge_stored, merged, number_list, page_size, show_numbers, shown_summaries,
    stored_matches, summaries_from,
};
use crate::message::Fetched;
use crate::model::{MessagePage, MessageSummary, SummaryView};
use crate::order::{sort, sorted_from};
use crate::pages::{found_messages_are_of_the_page, search_messages};
use crate::search::{asks_for_label, asks_for_text, message_search, search_text};
use crate::text::{borrow, breaks_line, prefixed, text_of, texts, trim, trimmed, views};
use crate::uids::{ascending, Ascending};
use vstd::prelude::*;
use vstd::string::*;

verus! {

broadcast use vstd::string::group_string_axioms;

/// What the server says of a folder that is opened: how many messages are
/// present, and what tells whether their numbers still hold.
#[derive(Clone, Copy, Debug)]
pub struct Mailbox {
    pub present: u32,
    pub uid_validity: Option<u32>,
    pub uid_next: Option<u32>,
}

/// What is listed: at most so many messages of a folder, with a label, with a
/// text.
#[derive(Debug)]
pub struct Listing {
    pub email: String,
    pub raw_path: String,
    pub limit: usize,
    pub label: Option<String>,
    pub query: Option<String>,
}

/// The next step of listing a folder.
#[allow(inconsistent_fields)]
#[derive(Debug)]
pub enum ListStep {
    /// Ask how many messages of the folder are unread.
    Status { raw_path: String, then: AfterStatus },
    /// Open the folder.
    Select { raw_path: String, then: AfterSelect },
    /// Ask for the numbers of the messages that a search finds.
    Search { query: String, then: AfterSearch },
    /// Open the folder before messages are fetched by their numbers.
    SelectAgain { raw_path: String, then: AfterSelectAgain },
    /// Fetch messages by their numbers.
    FetchNumbers { set: String, items: String, then: AfterNumbers },
    /// Fetch messages by their places in the folder.
    FetchPlaces { set: String, items: String, then: AfterPlaces },
    /// Read what is stored of the folder.
    ReadStored { raw_path: String, then: AfterStored },
    /// The folder is listed.
    Done { page: MessagePage, file: Option<CacheFile<CachedPage>> },
    /// The folder cannot be listed.
    Failed(String),
}

/// Goes on when the server has said how many messages are unread.
#[derive(Debug)]
pub struct AfterStatus {
    pub listing: Listing,
}

/// Goes on when the folder is open.
#[derive(Debug)]
pub struct AfterSelect {
    pub listing: Listing,
    pub unseen: u32,
}

/// Goes on when the search is done.
#[derive(Debug)]
pub struct AfterSearch {
    pub listing: Listing,
    pub unseen: u32,
}

/// Goes on when the folder is open again.
#[derive(Debug)]
pub struct AfterSelectAgain {
    pub listing: Listing,
    pub unseen: u32,
    pub uids: Vec<u32>,
}

/// Goes on when messages have come by their numbers.
#[derive(Debug)]
pub struct AfterNumbers {
    pub listing: Listing,
    pub unseen: u32,
    pub uids: Vec<u32>,
}

/// Goes on when messages have come by their places.
#[derive(Debug)]
pub struct AfterPlaces {
    pub listing: Listing,
    pub unseen: u32,
    pub mailbox: Mailbox,
}

/// Goes on when it is known what is stored of the folder.
#[derive(Debug)]
pub struct AfterStored {
    pub listing: Listing,
    pub unseen: u32,
    pub uids: Vec<u32>,
    pub sent: Vec<MessageSummary>,
}

/// What is fetched of a message in order to list it.
pub open spec fn header_items() -> Seq<char> {
    "(UID FLAGS INTERNALDATE RFC822.SIZE BODYSTRUCTURE BODY.PEEK[HEADER])"@
}

/// Whether a step is a failure with a text.
pub open spec fn fails_with(step: ListStep, error: Seq<char>) -> bool {
    step matches ListStep::Failed(e) && e@ == error
}

fn fail(prefix: &str, error: String) -> (step: ListStep)
    ensures
        fails_with(step, prefix@ + error@),
{
    ListStep::Failed(prefixed(prefix, error.as_str()))
}

fn items_of_header() -> (items: String)
    ensures
        items@ == header_items(),
{
    "(UID FLAGS INTERNALDATE RFC822.SIZE BODYSTRUCTURE BODY.PEEK[HEADER])".to_owned()
}

/// Begins to list a folder.
pub fn list_messages(
    email: String,
    raw_path: String,
    limit: usize,
    label: Option<String>,
    query: Option<String>,
) -> (step: ListStep)
    ensures
        step matches ListStep::Status { raw_path: asked, then } && asked@ == raw_path@
            && then.listing == (Listing { email, raw_path, limit, label, query }),
{
    let asked = raw_path.as_str().to_owned();
    let listing = Listing { email, raw_path, limit, label, query };
    ListStep::Status { raw_path: asked, then: AfterStatus { listing } }
}

impl AfterStatus {
    /// Opens the folder; the number of unread messages counts as zero where
    /// the server did not say it.
    pub fn next(self, unseen: Option<u32>) -> (step: ListStep)
        ensures
            step matches ListStep::Select { raw_path, then } && raw_path@
                == self.listing.raw_path@ && then.listing == self.listing && then.unseen == (
            match unseen {
                Some(n) => n,
                None => 0,
            }),
    {
        let raw_path = self.listing.raw_path.as_str().to_owned();
        let unseen: u32 = match unseen {
            Some(n) => n,
            None => 0,
        };
        ListStep::Select { raw_path, then: AfterSelect { listing: self.listing, unseen } }
    }
}

/// Whether a folder is listed by the last messages in it: a page of them that
/// is also stored, with the validity of the folder.
pub open spec fn lists_latest(
    step: ListStep,
    listing: Listing,
    mailbox: Mailbox,
    unseen: u32,
    fetched: Seq<Option<Fetched>>,
) -> bool {
    &&& step matches ListStep::Done { page, file: Some(file) }
    &&& sorted_from(highest_first(), page@.items, shown_summaries(fetched))
    &&& page.total == mailbox.present
    &&& page.unseen == unseen
    &&& is_page_path(texts(file.path@), listing.email@, listing.raw_path@)
    &&& file.value@ == (CachedPageView {
        version: CACHE_VERSION,
        uid_validity: mailbox.uid_validity,
        uid_next: mailbox.uid_next,
        page: page@,
    })
}

fn list_latest(
    listing: Listing,
    mailbox: Mailbox,
    unseen: u32,
    fetched: Vec<Option<Fetched>>,
) -> (step: ListStep)
    ensures
        lists_latest(step, listing, mailbox, unseen, fetched@),
{
    let items = summaries_from(&fetched);
    let page = MessagePage { items, total: mailbox.present, unseen };
    let copy = copy_page(&page);
    let file = write_page(
        listing.email.as_str(),
        listing.raw_path.as_str(),
        CachedPage {
            version: CACHE_VERSION,
            uid_validity: mailbox.uid_validity,
            uid_next: mailbox.uid_next,
            page: copy,
        },
    );
    ListStep::Done { page, file: Some(file) }
}

/// What was shown of a folder by its last messages is shown again from the
/// cache.
pub proof fn shown_page_is_cached(
    step: ListStep,
    listing: Listing,
    mailbox: Mailbox,
    unseen: u32,
    fetched: Seq<Option<Fetched>>,
)
    requires
        lists_latest(step, listing, mailbox, unseen, fetched),
    ensures
        step matches ListStep::Done { page, file: Some(file) } && readable_page(Some(file.value@))
            == Some(file.value@) && file.value@.page == page@,
{
}

/// Whether a search is one that the server can be sent.
pub open spec fn can_be_searched(label: Option<Seq<char>>, query: Option<Seq<char>>) -> bool {
    &&& asks_for_label(label) ==> is_label_name(label->0)
    &&& asks_for_text(query) ==> !breaks_line(query->0)
}

/// What goes on in an open folder: an error for a search that cannot be sent;
/// the last messages, if any, where nothing is searched for; and else the
/// search.
pub open spec fn goes_on_in(
    step: ListStep,
    listing: Listing,
    unseen: u32,
    mailbox: Mailbox,
) -> bool {
    let label = text_of(listing.label);
    let query = text_of(listing.query);
    if !can_be_searched(label, query) {
        fails_with(
            step,
            if asks_for_label(label) && !is_label_name(label->0) {
                "Название метки должно содержать от 1 до 15 символов"@
            } else {
                "Некорректный поисковый запрос"@
            },
        )
    } else if search_text(label, query) != "ALL"@ {
        step matches ListStep::Search { query: sent, then } && sent@ == search_text(label, query)
            && then.listing == listing && then.unseen == unseen
    } else if mailbox.present == 0 {
        lists_latest(step, listing, mailbox, unseen, Seq::empty())
    } else {
        step matches ListStep::FetchPlaces { set, items, then } && set@ == last_places(
            mailbox.present,
            listing.limit,
        ) && items@ == header_items() && then.listing == listing && then.unseen == unseen
            && then.mailbox == mailbox
    }
}

impl AfterSelect {
    /// Searches the open folder, or fetches the last messages in it.
    pub fn next(self, reply: Result<Mailbox, String>) -> (step: ListStep)
        ensures
            match reply {
                Err(error) => fails_with(step, "Не удалось открыть папку: "@ + error@),
                Ok(mailbox) => goes_on_in(step, self.listing, self.unseen, mailbox),
            },
    {
        let mailbox = match reply {
            Ok(mailbox) => mailbox,
            Err(error) => {
                return fail("Не удалось открыть папку: ", error);
            },
        };
        let search = match message_search(
            borrow(&self.listing.label),
            borrow(&self.listing.query),
        ) {
            Ok(search) => search,
            Err(error) => {
                return ListStep::Failed(error);
            },
        };
        if !search.as_str().eq("ALL") {
            return ListStep::Search {
                query: search,
                then: AfterSearch { listing: self.listing, unseen: self.unseen },
            };
        }
        if mailbox.present == 0 {
            let nothing: Vec<Option<Fetched>> = Vec::new();
            assert(nothing@ == Seq::<Option<Fetched>>::empty());
            return list_latest(self.listing, mailbox, self.unseen, nothing);
        }
        ListStep::FetchPlaces {
            set: latest_range(mailbox.present, self.listing.limit),
            items: items_of_header(),
            then: AfterPlaces { listing: self.listing, unseen: self.unseen, mailbox },
        }
    }
}

impl AfterPlaces {
    /// Lists the last messages of the folder.
    pub fn next(self, reply: Result<Vec<Option<Fetched>>, String>) -> (step: ListStep)
        ensures
            match reply {
                Err(error) => fails_with(step, "Не удалось получить письма: "@ + error@),
                Ok(fetched) => lists_latest(
                    step,
                    self.listing,
                    self.mailbox,
                    self.unseen,
                    fetched@,
                ),
            },
    {
        match reply {
            Ok(fetched) => list_latest(self.listing, self.mailbox, self.unseen, fetched),
            Err(error) => fail("Не удалось получить письма: ", error),
        }
    }
}

/// The numbers of the messages that are fetched of those that were found: the
/// highest, as many as are listed.
pub open spec fn fetched_numbers(uids: Seq<u32>, limit: usize) -> Seq<u32> {
    if uids.len() <= page_size(limit) {
        uids
    } else {
        uids.skip(uids.len() - page_size(limit))
    }
}

/// What goes on when the messages that a search found have come: what is
/// stored is read where a text is searched for, and else they are the page.
pub open spec fn shows_found(
    step: ListStep,
    listing: Listing,
    unseen: u32,
    uids: Seq<u32>,
    fetched: Seq<Option<Fetched>>,
) -> bool {
    if asks_for_text(text_of(listing.query)) {
        &&& step matches ListStep::ReadStored { raw_path, then }
        &&& raw_path@ == listing.raw_path@
        &&& then.listing == listing
        &&& then.unseen == unseen
        &&& then.uids@ == uids
        &&& sorted_from(highest_first(), views(then.sent@), shown_summaries(fetched))
    } else {
        &&& step matches ListStep::Done { page, file: None }
        &&& sorted_from(highest_first(), page@.items, shown_summaries(fetched))
        &&& page.total == uids.len() as u32
        &&& page.unseen == unseen
    }
}

fn show_found(
    listing: Listing,
    unseen: u32,
    uids: Vec<u32>,
    fetched: Vec<Option<Fetched>>,
) -> (step: ListStep)
    ensures
        shows_found(step, listing, unseen, uids@, fetched@),
{
    let sent = summaries_from(&fetched);
    let asked = match &listing.query {
        Some(text) => !trim(text.as_str()).is_empty(),
        None => false,
    };
    if asked {
        let raw_path = listing.raw_path.as_str().to_owned();
        return ListStep::ReadStored {
            raw_path,
            then: AfterStored { listing, unseen, uids, sent },
        };
    }
    let total: u32 = uids.len() as u32;
    ListStep::Done { page: MessagePage { items: sent, total, unseen }, file: None }
}

impl AfterSearch {
    /// Fetches the highest of the messages that were found, after the folder
    /// has been opened once more; nothing is fetched where none was found.
    pub fn next(self, reply: Result<Vec<u32>, String>) -> (step: ListStep)
        ensures
            match reply {
                Err(error) => step == ListStep::Failed(error),
                Ok(found) => if found@.len() == 0 {
                    shows_found(step, self.listing, self.unseen, Seq::empty(), Seq::empty())
                } else {
                    &&& step matches ListStep::SelectAgain { raw_path, then }
                    &&& raw_path@ == self.listing.raw_path@
                    &&& then.listing == self.listing
                    &&& then.unseen == self.unseen
                    &&& sorted_from(ascending(), then.uids@, found@)
                },
            },
    {
        let found = match reply {
            Ok(found) => found,
            Err(error) => {
                return ListStep::Failed(error);
            },
        };
        if found.len() == 0 {
            let nothing: Vec<Option<Fetched>> = Vec::new();
            assert(nothing@ == Seq::<Option<Fetched>>::empty());
            assert(found@ == Seq::<u32>::empty());
            return show_found(self.listing, self.unseen, found, nothing);
        }
        let ghost numbers = found@;
        assert(views(found@) == found@);
        let uids = sort(found, &Ascending);
        assert(views(uids@) == uids@);
        let raw_path = self.listing.raw_path.as_str().to_owned();
        ListStep::SelectAgain {
            raw_path,
            then: AfterSelectAgain { listing: self.listing, unseen: self.unseen, uids },
        }
    }
}

impl AfterSelectAgain {
    /// Fetches the highest of the messages that were found.
    pub fn next(self, reply: Result<Mailbox, String>) -> (step: ListStep)
        ensures
            match reply {
                Err(error) => fails_with(step, "Не удалось открыть папку: "@ + error@),
                Ok(_) => {
                    &&& step matches ListStep::FetchNumbers { set, items, then }
                    &&& set@ == number_list(fetched_numbers(self.uids@, self.listing.limit))
                    &&& self.uids@.len() > 0 ==> forall|uid: u32| #[trigger]
                        selects(set@, uid as nat) <==> fetched_numbers(
                            self.uids@,
                            self.listing.limit,
                        ).contains(uid)
                    &&& items@ == header_items()
                    &&& then.listing == self.listing
                    &&& then.unseen == self.unseen
                    &&& then.uids == self.uids
                },
            },
    {
        match reply {
            Ok(_) => {
                let size: usize = clamp_limit(self.listing.limit);
                let start: usize = if self.uids.len() <= size {
                    0
                } else {
                    self.uids.len() - size
                };
                assert(self.uids@.skip(start as int) == fetched_numbers(
                    self.uids@,
                    self.listing.limit,
                ));
                let set = show_numbers(&self.uids, start);
                proof {
                    if self.uids@.len() > 0 {
                        number_lists_read_back(fetched_numbers(self.uids@, self.listing.limit));
                    }
                }
                ListStep::FetchNumbers {
                    set,
                    items: items_of_header(),
                    then: AfterNumbers {
                        listing: self.listing,
                        unseen: self.unseen,
                        uids: self.uids,
                    },
                }
            },
            Err(error) => fail("Не удалось открыть папку: ", error),
        }
    }
}

impl AfterNumbers {
    /// Shows the messages that were found.
    pub fn next(self, reply: Result<Vec<Option<Fetched>>, String>) -> (step: ListStep)
        ensures
            match reply {
                Err(error) => fails_with(step, "Не удалось получить письма: "@ + error@),
                Ok(fetched) => shows_found(
                    step,
                    self.listing,
                    self.unseen,
                    self.uids@,
                    fetched@,
                ),
            },
    {
        match reply {
            Ok(fetched) => show_found(self.listing, self.unseen, self.uids, fetched),
            Err(error) => fail("Не удалось получить письма: ", error),
        }
    }
}

/// How many messages a stored page holds.
pub open spec fn stored_count(stored: Option<CachedPage>) -> nat {
    match stored {
        Some(cached) => cached.page.items@.len(),
        None => 0,
    }
}

/// A query, or nothing where there is none.
pub open spec fn query_of(listing: Listing) -> Seq<char> {
    match listing.query {
        Some(text) => text@,
        None => ""@,
    }
}

impl AfterStored {
    /// Shows the latest of the messages that the server found and of the
    /// stored ones.
    pub fn next(self, stored: Option<CachedPage>, details: &Vec<Option<CachedDetail>>) -> (step:
        ListStep)
        requires
            self.uids@.len() + stored_count(stored) <= u32::MAX,
        ensures
            ({
                let here = stored_matches(page_of(stored), details@, query_of(self.listing));
                let sent = views(self.sent@);
                let label = text_of(self.listing.label);
                &&& step matches ListStep::Done { page, file: None }
                &&& are_latest(
                    page@.items,
                    merged(sent, here, label),
                    page_size(self.listing.limit),
                )
                &&& page.total == self.uids@.len() + found_here_only(
                    sent,
                    here,
                    label,
                    self.uids@,
                )
                &&& page.unseen == self.unseen
                &&& page.items@.len() <= page_size(self.listing.limit)
                &&& forall|message: SummaryView| #[trigger]
                    page@.items.contains(message) ==> sent.contains(message) || here.contains(
                        message,
                    ) && (label matches Some(name) ==> message.labels.contains(name))
                &&& forall|i: int, j: int|
                    0 <= i < j < page@.items.len() ==> page@.items[i].date
                        >= page@.items[j].date
                &&& merged(sent, here, label).len() <= page_size(self.listing.limit) ==> forall|
                    message: SummaryView,
                | #[trigger]
                    sent.contains(message) ==> page@.items.contains(message)
            }),
    {
        let here = match &self.listing.query {
            Some(text) => search_messages(stored, details, text.as_str()),
            None => search_messages(stored, details, ""),
        };
        proof {
            if let Some(cached) = readable_page(page_of(stored)) {
                found_messages_are_of_the_page(
                    cached.page.items,
                    details@,
                    cached.uid_validity,
                    lowercase(trimmed(query_of(self.listing))),
                );
            }
            assert(views(here@).len() <= stored_count(stored));
        }
        let (both, extra) = merge_stored(self.sent, here, &self.listing.label, &self.uids);
        let total: u32 = self.uids.len() as u32 + extra as u32;
        let ghost sent = views(self.sent@);
        let ghost found = views(here@);
        let ghost name = text_of(self.listing.label);
        let items = keep_latest(both, clamp_limit(self.listing.limit));
        proof {
            let size = page_size(self.listing.limit);
            both_kinds_are_shown(views(items@), sent, found, name, size);
        }
        ListStep::Done {
            page: MessagePage { items, total, unseen: self.unseen },
            file: None,
        }
    }
}

} // verus!
