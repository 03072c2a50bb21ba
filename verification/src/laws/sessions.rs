//! What holds of the steps in which folders are listed and messages are read.

use crate::cache::{CachedDetail, CachedPage, CACHE_VERSION};
use crate::labels::{is_label_name, keyword_of};
use crate::laws::numbers::{last_places_read_back, page_size_is_limited, selects};
use crate::laws::searching::{
    in_charset, searched_fields, searches_any, searches_ask_for_what_is_given, searches_keyword,
};
use crate::list_session::{
    fails_with, fetched_numbers, goes_on_in, header_items, lists_latest,
    shows_found, ListStep, Listing, Mailbox,
};
use crate::listing::{page_size, shown_summaries};
use crate::message::Fetched;
use crate::order::in_order;
use crate::read_session::{message_items, shows_message, stored_message, ReadFetch, ReadStep};
use crate::search::{quoted, search_text};
use crate::text::{breaks_line, occurs_at, occurs_in, text_of, trimmed, views};
use crate::uids::ascending;
use vstd::prelude::*;
use vstd::string::*;

verus! {

broadcast use vstd::string::group_string_axioms;

// ---------------------------------------------------------------------------
// What is fetched
// ---------------------------------------------------------------------------

/// A list fetches of every message its number, its flags, its date, its size,
/// its structure and its header, and leaves it unread.
pub proof fn lists_fetch_what_they_show()
    ensures
        occurs_in(header_items(), "UID"@),
        occurs_in(header_items(), "FLAGS"@),
        occurs_in(header_items(), "INTERNALDATE"@),
        occurs_in(header_items(), "RFC822.SIZE"@),
        occurs_in(header_items(), "BODYSTRUCTURE"@),
        occurs_in(header_items(), "BODY.PEEK[HEADER]"@),
{
    reveal_strlit("(UID FLAGS INTERNALDATE RFC822.SIZE BODYSTRUCTURE BODY.PEEK[HEADER])");
    reveal_strlit("UID");
    reveal_strlit("FLAGS");
    reveal_strlit("INTERNALDATE");
    reveal_strlit("RFC822.SIZE");
    reveal_strlit("BODYSTRUCTURE");
    reveal_strlit("BODY.PEEK[HEADER]");
    let items = header_items();
    assert(items.subrange(1, 4) == "UID"@);
    assert(occurs_at(items, "UID"@, 1));
    assert(items.subrange(5, 10) == "FLAGS"@);
    assert(occurs_at(items, "FLAGS"@, 5));
    assert(items.subrange(11, 23) == "INTERNALDATE"@);
    assert(occurs_at(items, "INTERNALDATE"@, 11));
    assert(items.subrange(24, 35) == "RFC822.SIZE"@);
    assert(occurs_at(items, "RFC822.SIZE"@, 24));
    assert(items.subrange(36, 49) == "BODYSTRUCTURE"@);
    assert(occurs_at(items, "BODYSTRUCTURE"@, 36));
    assert(items.subrange(50, 67) == "BODY.PEEK[HEADER]"@);
    assert(occurs_at(items, "BODY.PEEK[HEADER]"@, 50));
}

/// A message that is read is fetched whole, with all that its summary shows,
/// and is left unread.
pub proof fn messages_are_fetched_whole()
    ensures
        occurs_in(message_items(), "UID"@),
        occurs_in(message_items(), "FLAGS"@),
        occurs_in(message_items(), "INTERNALDATE"@),
        occurs_in(message_items(), "RFC822.SIZE"@),
        occurs_in(message_items(), "BODYSTRUCTURE"@),
        occurs_in(message_items(), "BODY.PEEK[]"@),
{
    reveal_strlit("(UID FLAGS INTERNALDATE RFC822.SIZE BODYSTRUCTURE BODY.PEEK[])");
    reveal_strlit("UID");
    reveal_strlit("FLAGS");
    reveal_strlit("INTERNALDATE");
    reveal_strlit("RFC822.SIZE");
    reveal_strlit("BODYSTRUCTURE");
    reveal_strlit("BODY.PEEK[]");
    let items = message_items();
    assert(items.subrange(1, 4) == "UID"@);
    assert(occurs_at(items, "UID"@, 1));
    assert(items.subrange(5, 10) == "FLAGS"@);
    assert(occurs_at(items, "FLAGS"@, 5));
    assert(items.subrange(11, 23) == "INTERNALDATE"@);
    assert(occurs_at(items, "INTERNALDATE"@, 11));
    assert(items.subrange(24, 35) == "RFC822.SIZE"@);
    assert(occurs_at(items, "RFC822.SIZE"@, 24));
    assert(items.subrange(36, 49) == "BODYSTRUCTURE"@);
    assert(occurs_at(items, "BODYSTRUCTURE"@, 36));
    assert(items.subrange(50, 61) == "BODY.PEEK[]"@);
    assert(occurs_at(items, "BODY.PEEK[]"@, 50));
}

/// Of the messages that a search found, those with the highest numbers are
/// fetched, as many as are listed.
pub proof fn highest_found_are_fetched(uids: Seq<u32>, limit: usize)
    requires
        in_order(ascending(), uids),
    ensures
        ({
            let fetched = fetched_numbers(uids, limit);
            &&& fetched.is_suffix_of(uids)
            &&& fetched.len() == (if uids.len() < page_size(limit) {
                uids.len()
            } else {
                page_size(limit)
            })
            &&& forall|i: int, k: int|
                0 <= i < uids.len() - fetched.len() && 0 <= k < fetched.len() ==> uids[i]
                    <= fetched[k]
        }),
{
    page_size_is_limited(limit);
    let fetched = fetched_numbers(uids, limit);
    assert(fetched == uids.skip(uids.len() - fetched.len()));
    assert forall|i: int, k: int|
        0 <= i < uids.len() - fetched.len() && 0 <= k < fetched.len() implies uids[i]
        <= fetched[k] by {
        assert(ascending()(uids[i], uids[uids.len() - fetched.len() + k]));
    }
}

// ---------------------------------------------------------------------------
// Lists
// ---------------------------------------------------------------------------

/// A folder that is opened in order to list it is searched where a label or a
/// text is given. Else its last messages are fetched, as many as are asked
/// for, and an empty folder is shown at once.
pub proof fn last_messages_are_fetched(
    step: ListStep,
    listing: Listing,
    unseen: u32,
    mailbox: Mailbox,
)
    requires
        goes_on_in(step, listing, unseen, mailbox),
        listing.label is None || listing.label->0@.len() == 0,
        listing.query is None || trimmed(listing.query->0@).len() == 0,
        1 <= listing.limit <= 100,
    ensures
        mailbox.present == 0 ==> (step matches ListStep::Done { page, .. } && page@.items.len() == 0
            && page.total == 0 && page.unseen == unseen),
        mailbox.present > 0 ==> step is FetchPlaces && forall|place: u32| #[trigger]
            selects(step->FetchPlaces_set@, place as nat) <==> 1 <= place <= mailbox.present
                && mailbox.present - place < listing.limit,
{
    let label = text_of(listing.label);
    let query = text_of(listing.query);
    let none = Seq::<Seq<char>>::empty();
    assert(none + none == none);
    assert(search_text(label, query) == "ALL"@);
    if mailbox.present == 0 {
        let items = step->Done_page@.items;
        items.to_multiset_ensures();
        shown_summaries(Seq::empty()).to_multiset_ensures();
    } else {
        assert forall|place: u32| #[trigger]
            selects(step->FetchPlaces_set@, place as nat) <==> 1 <= place <= mailbox.present
                && mailbox.present - place < listing.limit by {
            last_places_read_back(mailbox.present, listing.limit, place);
        }
    }
}

/// A folder is searched where a label or a text is asked for: the server is
/// sent the search, or the reason is told why it cannot be.
pub proof fn folders_are_searched_where_asked(
    step: ListStep,
    listing: Listing,
    unseen: u32,
    mailbox: Mailbox,
)
    requires
        goes_on_in(step, listing, unseen, mailbox),
        listing.label is Some && listing.label->0@.len() > 0 || listing.query is Some && trimmed(
            listing.query->0@,
        ).len() > 0,
    ensures
        step is Search || step is Failed,
        step is Failed <==> listing.label is Some && listing.label->0@.len() > 0
            && !is_label_name(listing.label->0@) || listing.query is Some && trimmed(
            listing.query->0@,
        ).len() > 0 && breaks_line(listing.query->0@),
        step matches ListStep::Search { query, then } ==> query@ == search_text(
            text_of(listing.label),
            text_of(listing.query),
        ) && then.listing == listing && then.unseen == unseen,
{
    let label = text_of(listing.label);
    let query = text_of(listing.query);
    searches_are_not_for_all(label, query);
}

/// A search for a label or for a text is none for all messages.
proof fn searches_are_not_for_all(label: Option<Seq<char>>, query: Option<Seq<char>>)
    requires
        label is Some && label->0.len() > 0 || query is Some && trimmed(query->0).len() > 0,
    ensures
        search_text(label, query) != "ALL"@,
{
    reveal_strlit("ALL");
    reveal_strlit("KEYWORD ");
    reveal_strlit("CHARSET UTF-8 ");
    let search = search_text(label, query);
    let by_label = label is Some && label->0.len() > 0;
    let by_text = query is Some && trimmed(query->0).len() > 0;
    assert("ALL"@.len() == 3);
    searches_ask_for_what_is_given(label, query);
    if by_label && !by_text {
        let term = choose|term: Seq<char>|
            search == #[trigger] in_charset(query, term) && searches_keyword(
                term,
                keyword_of(label->0),
            );
        assert(term.len() >= 8);
        assert(search.len() > 3);
    } else if by_text && !by_label {
        let term = choose|term: Seq<char>|
            search == #[trigger] in_charset(query, term) && searches_any(
                term,
                searched_fields(),
                quoted(trimmed(query->0)),
            );
        let value = quoted(trimmed(query->0));
        let front = seq!['O', 'R', ' '] + searched_fields()[0] + seq![' '] + value + seq![' '];
        assert(front.is_prefix_of(term));
        assert(term.len() >= front.len());
        assert(front.len() >= 5);
        assert(search.len() > 3);
    } else {
        let (term, other) = choose|term: Seq<char>, other: Seq<char>|
            search == #[trigger] in_charset(query, term + " "@ + other) && searches_keyword(
                term,
                keyword_of(label->0),
            ) && searches_any(other, searched_fields(), quoted(trimmed(query->0)));
        assert(term.len() >= 8);
        assert(search.len() > 3);
    }
}

/// What a search for a text found is completed from the cache: what is stored
/// of the same folder is read, and nothing that came is lost on the way.
pub proof fn stored_messages_are_read_for_a_text(
    step: ListStep,
    listing: Listing,
    unseen: u32,
    uids: Seq<u32>,
    fetched: Seq<Option<Fetched>>,
)
    requires
        shows_found(step, listing, unseen, uids, fetched),
        listing.query is Some && trimmed(listing.query->0@).len() > 0,
    ensures
        step matches ListStep::ReadStored { raw_path, then } && {
            &&& raw_path@ == listing.raw_path@
            &&& then.listing == listing
            &&& then.unseen == unseen
            &&& then.uids@ == uids
            &&& views(then.sent@).to_multiset() == shown_summaries(fetched).to_multiset()
        },
{
}

/// What goes wrong with a list is told with its reason.
pub proof fn failed_lists_tell_the_reason(step: ListStep, said: Seq<char>, reason: Seq<char>)
    requires
        fails_with(step, said + reason),
    ensures
        step matches ListStep::Failed(text) && reason.is_suffix_of(text@),
{
    let text = step->Failed_0@;
    assert(text.skip(text.len() - reason.len()) == reason);
}

/// The page of a folder counts all messages that are present and those that
/// are unread, lists what came from the highest number down, and is stored as
/// it is shown, with the validity of the folder.
pub proof fn folder_pages_are_counted_and_stored(
    step: ListStep,
    listing: Listing,
    mailbox: Mailbox,
    unseen: u32,
    fetched: Seq<Option<Fetched>>,
)
    requires
        lists_latest(step, listing, mailbox, unseen, fetched),
    ensures
        step matches ListStep::Done { page, file: Some(file) } && {
            &&& page.total == mailbox.present
            &&& page.unseen == unseen
            &&& page@.items.len() == shown_summaries(fetched).len()
            &&& forall|i: int, j: int|
                0 <= i < j < page@.items.len() ==> page@.items[i].uid >= page@.items[j].uid
            &&& file.value@.page == page@
            &&& file.value.version == CACHE_VERSION
            &&& file.value.uid_validity == mailbox.uid_validity
            &&& file.value.uid_next == mailbox.uid_next
        },
{
    let page = step->Done_page;
    crate::laws::messages::highest_numbers_come_first(page@.items, fetched);
}

/// What a search by label found is counted whole, and is not stored.
pub proof fn found_messages_are_counted(
    step: ListStep,
    listing: Listing,
    unseen: u32,
    uids: Seq<u32>,
    fetched: Seq<Option<Fetched>>,
)
    requires
        shows_found(step, listing, unseen, uids, fetched),
        listing.query is None || trimmed(listing.query->0@).len() == 0,
        uids.len() <= u32::MAX,
    ensures
        step matches ListStep::Done { page, file: None } && {
            &&& page.total == uids.len()
            &&& page.unseen == unseen
            &&& page@.items.len() == shown_summaries(fetched).len()
            &&& forall|i: int, j: int|
                0 <= i < j < page@.items.len() ==> page@.items[i].uid >= page@.items[j].uid
        },
{
    let page = step->Done_page;
    crate::laws::messages::highest_numbers_come_first(page@.items, fetched);
}

// ---------------------------------------------------------------------------
// Reading
// ---------------------------------------------------------------------------

/// A message is shown from the cache exactly where its file and the page of
/// its folder are of this version and of the same validity; it is shown as it
/// was stored.
pub proof fn stored_messages_are_shown(page: Option<CachedPage>, stored: Option<CachedDetail>)
    ensures
        stored_message(page, stored) is Some <==> {
            &&& page is Some && page->0.version == CACHE_VERSION
            &&& stored is Some && stored->0.version == CACHE_VERSION
            &&& page->0.uid_validity == stored->0.uid_validity
        },
        stored_message(page, stored) matches Some(shown) ==> shown == stored->0.detail@,
{
}

/// A message that came is stored as it is shown, under its number in its
/// folder and with the validity of the folder.
pub proof fn read_messages_are_stored(step: ReadStep, state: ReadFetch, fetched: Option<Fetched>)
    requires
        shows_message(step, state, fetched),
    ensures
        step is Done || step is Failed,
        step matches ReadStep::Done { detail, file } ==> {
            &&& file is Some
            &&& file->0.value.detail@ == detail@
            &&& file->0.value.uid_validity == state.uid_validity
            &&& file->0.value.version == CACHE_VERSION
            &&& crate::cache::is_detail_path(
                crate::text::texts(file->0.path@),
                state.email@,
                state.raw_path@,
                detail.summary.uid,
            )
        },
{
}

} // verus!
