//! What holds of searches, in the cache and on the server.

use crate::cache::{CachedDetail, CachedPageView, CACHE_VERSION};
use crate::codec::lowercase;
use crate::labels::keyword_of;
use crate::listing::{
    are_latest, carries_wanted, found_here_only, is_listed, is_unread, latest_first, merged,
    stored_matches,
};
use crate::model::{DetailView, SummaryView};
use crate::order::sorted_from;
use crate::pages::{
    found, leads_to_details, matching_messages_are_found, message_matches, stored_at,
};
use crate::search::{field_search, quoted, search_text};
use crate::text::{joined, occurs_in, trimmed};
use vstd::prelude::*;
use vstd::string::*;

verus! {

broadcast use vstd::string::group_string_axioms;

// ---------------------------------------------------------------------------
// The cached messages of a folder
// ---------------------------------------------------------------------------

/// A stored message is found by the name of its sender, whatever the case.
pub proof fn messages_are_found_by_sender_name(
    stored: CachedPageView,
    details: Seq<Option<CachedDetail>>,
    query: Seq<char>,
    i: int,
)
    requires
        stored.version == CACHE_VERSION,
        0 <= i < stored.page.items.len(),
        occurs_in(lowercase(stored.page.items[i].from_name), lowercase(trimmed(query))),
    ensures
        stored_matches(Some(stored), details, query).contains(stored.page.items[i]),
{
    matching_messages_are_found(
        stored.page.items,
        details,
        stored.uid_validity,
        lowercase(trimmed(query)),
        i,
    );
}

/// A stored message is found by the address of its sender, whatever the case.
pub proof fn messages_are_found_by_sender_address(
    stored: CachedPageView,
    details: Seq<Option<CachedDetail>>,
    query: Seq<char>,
    i: int,
)
    requires
        stored.version == CACHE_VERSION,
        0 <= i < stored.page.items.len(),
        occurs_in(lowercase(stored.page.items[i].from_address), lowercase(trimmed(query))),
    ensures
        stored_matches(Some(stored), details, query).contains(stored.page.items[i]),
{
    matching_messages_are_found(
        stored.page.items,
        details,
        stored.uid_validity,
        lowercase(trimmed(query)),
        i,
    );
}

/// A stored message is found by its subject, whatever the case.
pub proof fn messages_are_found_by_subject(
    stored: CachedPageView,
    details: Seq<Option<CachedDetail>>,
    query: Seq<char>,
    i: int,
)
    requires
        stored.version == CACHE_VERSION,
        0 <= i < stored.page.items.len(),
        occurs_in(lowercase(stored.page.items[i].subject), lowercase(trimmed(query))),
    ensures
        stored_matches(Some(stored), details, query).contains(stored.page.items[i]),
{
    matching_messages_are_found(
        stored.page.items,
        details,
        stored.uid_validity,
        lowercase(trimmed(query)),
        i,
    );
}

/// What is stored of the message at a place of a page, where it is of this
/// version and of the validity of the page.
pub open spec fn body_at(
    stored: CachedPageView,
    details: Seq<Option<CachedDetail>>,
    i: int,
) -> Option<DetailView> {
    if 0 <= i < details.len() && details[i] is Some && details[i]->0.version == CACHE_VERSION
        && details[i]->0.uid_validity == stored.uid_validity {
        Some(details[i]->0.detail@)
    } else {
        None
    }
}

/// A stored message is found by its plain text, whatever the case.
pub proof fn messages_are_found_by_text(
    stored: CachedPageView,
    details: Seq<Option<CachedDetail>>,
    query: Seq<char>,
    i: int,
)
    requires
        stored.version == CACHE_VERSION,
        0 <= i < stored.page.items.len(),
        body_at(stored, details, i) is Some,
        body_at(stored, details, i)->0.body_text is Some,
        occurs_in(
            lowercase(body_at(stored, details, i)->0.body_text->0),
            lowercase(trimmed(query)),
        ),
    ensures
        stored_matches(Some(stored), details, query).contains(stored.page.items[i]),
{
    matching_messages_are_found(
        stored.page.items,
        details,
        stored.uid_validity,
        lowercase(trimmed(query)),
        i,
    );
}

/// A stored message is found by its HTML, whatever the case.
pub proof fn messages_are_found_by_html(
    stored: CachedPageView,
    details: Seq<Option<CachedDetail>>,
    query: Seq<char>,
    i: int,
)
    requires
        stored.version == CACHE_VERSION,
        0 <= i < stored.page.items.len(),
        body_at(stored, details, i) is Some,
        body_at(stored, details, i)->0.body_html is Some,
        occurs_in(
            lowercase(body_at(stored, details, i)->0.body_html->0),
            lowercase(trimmed(query)),
        ),
    ensures
        stored_matches(Some(stored), details, query).contains(stored.page.items[i]),
{
    matching_messages_are_found(
        stored.page.items,
        details,
        stored.uid_validity,
        lowercase(trimmed(query)),
        i,
    );
}

/// An optional text, or the empty one.
pub open spec fn or_empty(text: Option<Seq<char>>) -> Seq<char> {
    if text is Some {
        text->0
    } else {
        Seq::empty()
    }
}

/// Whether a query stands in a message: in its sender, its subject, or what is
/// stored of it.
pub open spec fn stands_in(query: Seq<char>, message: SummaryView, body: Option<DetailView>) -> bool {
    let needle = lowercase(trimmed(query));
    ||| occurs_in(lowercase(message.from_name), needle)
    ||| occurs_in(lowercase(message.from_address), needle)
    ||| occurs_in(lowercase(message.subject), needle)
    ||| body is Some && occurs_in(lowercase(or_empty(body->0.body_text)), needle)
    ||| body is Some && occurs_in(lowercase(or_empty(body->0.body_html)), needle)
}

/// A message in which the query stands is found.
pub proof fn messages_are_found_by_what_they_hold(
    stored: CachedPageView,
    details: Seq<Option<CachedDetail>>,
    query: Seq<char>,
    i: int,
)
    requires
        stored.version == CACHE_VERSION,
        0 <= i < stored.page.items.len(),
        stands_in(query, stored.page.items[i], body_at(stored, details, i)),
    ensures
        stored_matches(Some(stored), details, query).contains(stored.page.items[i]),
{
    matching_messages_are_found(
        stored.page.items,
        details,
        stored.uid_validity,
        lowercase(trimmed(query)),
        i,
    );
}

proof fn found_at_place(
    messages: Seq<SummaryView>,
    details: Seq<Option<CachedDetail>>,
    uid_validity: Option<u32>,
    needle: Seq<char>,
    message: SummaryView,
)
    requires
        found(messages, details, uid_validity, needle).contains(message),
    ensures
        exists|i: int|
            0 <= i < messages.len() && #[trigger] messages[i] == message && message_matches(
                message,
                stored_at(details, i),
                uid_validity,
                needle,
            ),
    decreases messages.len(),
{
    let all = found(messages, details, uid_validity, needle);
    let k = choose|k: int| 0 <= k < all.len() && all[k] == message;
    if messages.len() > 0 {
        let before = messages.drop_last();
        let some = found(before, details, uid_validity, needle);
        if k < some.len() {
            assert(some[k] == message);
            found_at_place(before, details, uid_validity, needle, message);
            let i = choose|i: int|
                0 <= i < before.len() && #[trigger] before[i] == message && message_matches(
                    message,
                    stored_at(details, i),
                    uid_validity,
                    needle,
                );
            assert(messages[i] == message);
        } else {
            assert(messages[messages.len() - 1] == message);
        }
    }
}

/// Only messages of the page are found, and only those in which the query
/// stands.
pub proof fn nothing_else_is_found(
    stored: CachedPageView,
    details: Seq<Option<CachedDetail>>,
    query: Seq<char>,
    message: SummaryView,
)
    requires
        stored_matches(Some(stored), details, query).contains(message),
    ensures
        stored.version == CACHE_VERSION,
        exists|i: int|
            {
                &&& 0 <= i < stored.page.items.len()
                &&& #[trigger] stored.page.items[i] == message
                &&& stands_in(query, message, body_at(stored, details, i))
            },
{
    let needle = lowercase(trimmed(query));
    found_at_place(stored.page.items, details, stored.uid_validity, needle, message);
    let i = choose|i: int|
        0 <= i < stored.page.items.len() && #[trigger] stored.page.items[i] == message
            && message_matches(message, stored_at(details, i), stored.uid_validity, needle);
    assert(stands_in(query, message, body_at(stored, details, i)));
}

/// Messages are found in the order of the page: those that are found in its
/// first messages come first.
pub proof fn messages_are_found_in_order(
    messages: Seq<SummaryView>,
    details: Seq<Option<CachedDetail>>,
    uid_validity: Option<u32>,
    needle: Seq<char>,
    n: int,
)
    requires
        0 <= n <= messages.len(),
    ensures
        found(messages.take(n), details, uid_validity, needle).is_prefix_of(
            found(messages, details, uid_validity, needle),
        ),
    decreases messages.len(),
{
    if n == messages.len() {
        assert(messages.take(n) == messages);
    } else {
        let before = messages.drop_last();
        messages_are_found_in_order(before, details, uid_validity, needle, n);
        assert(before.take(n) == messages.take(n));
        let short = found(messages.take(n), details, uid_validity, needle);
        let middle = found(before, details, uid_validity, needle);
        let all = found(messages, details, uid_validity, needle);
        assert(middle.is_prefix_of(all));
        assert(short == middle.take(short.len() as int));
        assert(short == all.take(short.len() as int));
    }
}

/// A folder that has no page of this version holds nothing that is found.
pub proof fn nothing_is_found_without_page(
    stored: Option<CachedPageView>,
    details: Seq<Option<CachedDetail>>,
    query: Seq<char>,
)
    requires
        stored is None || stored->0.version != CACHE_VERSION,
    ensures
        stored_matches(stored, details, query).len() == 0,
{
}

/// What is stored of a message is looked up exactly where the query stands
/// neither in its sender nor in its subject.
pub proof fn bodies_are_looked_up_where_needed(
    paths: Seq<Option<Vec<String>>>,
    email: Seq<char>,
    raw_path: Seq<char>,
    messages: Seq<SummaryView>,
    needle: Seq<char>,
    i: int,
)
    requires
        leads_to_details(paths, email, raw_path, messages, needle),
        0 <= i < messages.len(),
    ensures
        paths.len() == messages.len(),
        paths[i] is Some <==> !occurs_in(lowercase(messages[i].from_name), needle) && !occurs_in(
            lowercase(messages[i].from_address),
            needle,
        ) && !occurs_in(lowercase(messages[i].subject), needle),
{
    assert(paths[i] == paths[i]);
}

// ---------------------------------------------------------------------------
// What is shown of what is found
// ---------------------------------------------------------------------------

/// The latest messages are shown, from the latest back and as many as there
/// may be; a message that is left out is not later than any that is shown.
pub proof fn latest_messages_are_shown(
    shown: Seq<SummaryView>,
    others: Seq<SummaryView>,
    limit: nat,
)
    requires
        are_latest(shown, others, limit),
    ensures
        shown.len() == (if others.len() < limit {
            others.len()
        } else {
            limit
        }),
        forall|i: int, j: int| 0 <= i < j < shown.len() ==> shown[i].date >= shown[j].date,
        forall|message: SummaryView| #[trigger] shown.contains(message) ==> others.contains(message),
        forall|message: SummaryView, i: int|
            others.contains(message) && !shown.contains(message) && 0 <= i < shown.len() ==> (
            #[trigger] shown[i]).date >= (#[trigger] id_of(message)).date,
        others.len() <= limit ==> shown.to_multiset() == others.to_multiset(),
{
    let all = choose|all: Seq<SummaryView>| #[trigger]
        sorted_from(latest_first(), all, others) && shown == crate::listing::first_of(all, limit);
    all.to_multiset_ensures();
    others.to_multiset_ensures();
    assert(all.len() == others.len());
    assert forall|i: int, j: int| 0 <= i < j < shown.len() implies shown[i].date
        >= shown[j].date by {
        assert(latest_first()(all[i], all[j]));
    }
    assert forall|message: SummaryView| #[trigger] shown.contains(message) implies others.contains(
        message,
    ) by {
        let k = choose|k: int| 0 <= k < shown.len() && shown[k] == message;
        assert(all[k] == message);
        crate::lists::same_items(all, others, message);
    }
    assert forall|message: SummaryView, i: int|
        others.contains(message) && !shown.contains(message) && 0 <= i < shown.len() implies (
    #[trigger] shown[i]).date >= (#[trigger] id_of(message)).date by {
        crate::lists::same_items(all, others, message);
        let k = choose|k: int| 0 <= k < all.len() && all[k] == message;
        if k < shown.len() {
            assert(shown[k] == message);
        }
        assert(latest_first()(all[i], all[k]));
    }
    if others.len() <= limit {
        assert(shown == all);
    }
}

/// A message itself.
pub open spec fn id_of(message: SummaryView) -> SummaryView {
    message
}

/// Of what is found only the messages with the label that is asked for are
/// shown; an empty label asks for none.
pub proof fn wanted_labels_are_carried(label: Option<Seq<char>>, message: SummaryView)
    ensures
        label is None || label->0.len() == 0 ==> carries_wanted(label)(message),
        label is Some && label->0.len() > 0 ==> (carries_wanted(label)(message)
            <==> message.labels.contains(label->0)),
        is_unread()(message) <==> !message.seen,
{
}

/// What is shown of the messages that were found: from the latest back, those
/// with the label that is asked for; where there is room for more, all of
/// them.
pub proof fn wanted_messages_are_shown(
    shown: Seq<SummaryView>,
    found: Seq<SummaryView>,
    label: Option<Seq<char>>,
    limit: nat,
)
    requires
        are_latest(shown, found.filter(carries_wanted(label)), limit),
    ensures
        shown.len() <= limit,
        forall|i: int, j: int| 0 <= i < j < shown.len() ==> shown[i].date >= shown[j].date,
        forall|message: SummaryView| #[trigger]
            shown.contains(message) ==> found.contains(message) && (label matches Some(name) ==> (
            name.len() > 0 ==> message.labels.contains(name))),
        shown.len() < limit ==> forall|message: SummaryView| #[trigger]
            found.contains(message) && (label is None || label->0.len() == 0
                || message.labels.contains(label->0)) ==> shown.contains(message),
{
    broadcast use vstd::seq_lib::group_filter_ensures;

    let wanted = carries_wanted(label);
    let kept = found.filter(wanted);
    latest_messages_are_shown(shown, kept, limit);
    assert forall|message: SummaryView| #[trigger] shown.contains(message) implies found.contains(
        message,
    ) && (label matches Some(name) ==> (name.len() > 0 ==> message.labels.contains(name))) by {
        wanted_labels_are_carried(label, message);
        assert(kept.contains(message));
        let i = choose|i: int| 0 <= i < kept.len() && kept[i] == message;
        assert(wanted(kept[i]));
        found.lemma_filter_contains_rev(wanted, message);
    }
    if shown.len() < limit {
        assert forall|message: SummaryView| #[trigger] found.contains(message) && (label is None
            || label->0.len() == 0 || message.labels.contains(label->0)) implies shown.contains(
            message,
        ) by {
            wanted_labels_are_carried(label, message);
            let i = choose|i: int| 0 <= i < found.len() && found[i] == message;
            assert(wanted(found[i]));
            assert(kept.contains(found[i]));
            crate::lists::same_items(shown, kept, message);
        }
    }
}

/// A list that is completed from the cache counts each message that the cache
/// alone knows: those behind the ones that the server sent whose numbers the
/// server did not find.
pub proof fn messages_known_here_are_counted(
    sent: Seq<SummaryView>,
    stored: Seq<SummaryView>,
    label: Option<Seq<char>>,
    uids: Seq<u32>,
)
    ensures
        sent.is_prefix_of(merged(sent, stored, label)),
        found_here_only(sent, stored, label, uids) == merged(sent, stored, label).skip(
            sent.len() as int,
        ).filter(|message: SummaryView| !uids.contains(message.uid)).len(),
    decreases stored.len(),
{
    let p = |message: SummaryView| !uids.contains(message.uid);
    let all = merged(sent, stored, label);
    if stored.len() == 0 {
        assert(all.skip(sent.len() as int) == Seq::<SummaryView>::empty());
        reveal(Seq::filter);
    } else {
        messages_known_here_are_counted(sent, stored.drop_last(), label, uids);
        let before = merged(sent, stored.drop_last(), label);
        let tail = before.skip(sent.len() as int);
        if all != before {
            assert(all == before.push(stored.last()));
            assert(all.skip(sent.len() as int) == tail.push(stored.last()));
            tail.lemma_filter_push(stored.last(), p);
        }
    }
}

/// What is shown of messages of both kinds: from the latest back, what the
/// server sent and what is stored with the label; where there is room for all,
/// nothing that the server sent is left out.
pub proof fn both_kinds_are_shown(
    shown: Seq<SummaryView>,
    sent: Seq<SummaryView>,
    stored: Seq<SummaryView>,
    label: Option<Seq<char>>,
    limit: nat,
)
    requires
        are_latest(shown, merged(sent, stored, label), limit),
    ensures
        shown.len() <= limit,
        forall|message: SummaryView| #[trigger]
            shown.contains(message) ==> sent.contains(message) || stored.contains(message) && (
            label matches Some(name) ==> message.labels.contains(name)),
        forall|i: int, j: int| 0 <= i < j < shown.len() ==> shown[i].date >= shown[j].date,
        merged(sent, stored, label).len() <= limit ==> forall|message: SummaryView| #[trigger]
            sent.contains(message) ==> shown.contains(message),
{
    let both = merged(sent, stored, label);
    latest_messages_are_shown(shown, both, limit);
    crate::listing::merging_lists_each_message_once(sent, stored, label);
    assert forall|message: SummaryView| #[trigger] shown.contains(message) implies sent.contains(
        message,
    ) || stored.contains(message) && (label matches Some(name) ==> message.labels.contains(
        name,
    )) by {
        assert(both.contains(message));
        let i = choose|i: int| 0 <= i < both.len() && both[i] == message;
        if i < sent.len() {
            assert(sent[i] == both.take(sent.len() as int)[i]);
            assert(sent[i] == message);
        }
    }
    if both.len() <= limit {
        assert forall|message: SummaryView| #[trigger] sent.contains(message) implies shown.contains(
            message,
        ) by {
            let i = choose|i: int| 0 <= i < sent.len() && sent[i] == message;
            assert(sent == both.take(sent.len() as int));
            assert(both[i] == message);
            crate::lists::same_items(shown, both, message);
        }
    }
}

/// A stored message is put behind what the server sent exactly where it
/// carries the label and is not listed yet.
pub proof fn stored_messages_complete_the_list(
    sent: Seq<SummaryView>,
    stored: Seq<SummaryView>,
    message: SummaryView,
    label: Option<Seq<char>>,
)
    ensures
        merged(sent, Seq::empty(), label) == sent,
        ({
            let before = merged(sent, stored, label);
            let wanted = (label is Some ==> message.labels.contains(label->0)) && forall|i: int|
                0 <= i < before.len() ==> (#[trigger] before[i]).uid != message.uid;
            merged(sent, stored.push(message), label) == (if wanted {
                before.push(message)
            } else {
                before
            })
        }),
{
    assert(stored.push(message).drop_last() == stored);
    let before = merged(sent, stored, label);
    if is_listed(before, message.uid) {
        let i = choose|i: int| 0 <= i < before.len() && (#[trigger] before[i]).uid == message.uid;
        assert(before[i].uid == message.uid);
    }
}

// ---------------------------------------------------------------------------
// Searches on the server
// ---------------------------------------------------------------------------

/// Whether a search is one for a value in any of some fields: for one field it
/// names the field and the value, and for more it joins the first to the
/// search in the others with an `OR`.
pub open spec fn searches_any(
    search: Seq<char>,
    fields: Seq<Seq<char>>,
    value: Seq<char>,
) -> bool
    decreases fields.len(),
{
    if fields.len() == 0 {
        false
    } else if fields.len() == 1 {
        search == fields[0] + seq![' '] + value
    } else {
        let front = seq!['O', 'R', ' '] + fields[0] + seq![' '] + value + seq![' '];
        front.is_prefix_of(search) && searches_any(
            search.skip(front.len() as int),
            fields.drop_first(),
            value,
        )
    }
}

proof fn one_more_field(
    field: Seq<char>,
    rest: Seq<char>,
    fields: Seq<Seq<char>>,
    value: Seq<char>,
)
    requires
        fields.len() > 0,
        searches_any(rest, fields, value),
    ensures
        searches_any(
            seq!['O', 'R', ' '] + field + seq![' '] + value + seq![' '] + rest,
            seq![field] + fields,
            value,
        ),
{
    let front = seq!['O', 'R', ' '] + field + seq![' '] + value + seq![' '];
    assert((seq![field] + fields).drop_first() == fields);
    assert((front + rest).skip(front.len() as int) == rest);
    assert(front.is_prefix_of(front + rest));
}

/// The fields that a text is searched in.
pub open spec fn searched_fields() -> Seq<Seq<char>> {
    seq!["FROM"@, "TO"@, "CC"@, "BCC"@, "SUBJECT"@, "BODY"@]
}

/// A text is searched in the sender, in all recipients, in the subject and in
/// the body: a message is found that has it in any of them.
pub proof fn all_fields_are_searched(value: Seq<char>)
    ensures
        searches_any(field_search(value), searched_fields(), value),
{
    reveal_strlit("OR FROM ");
    reveal_strlit(" OR TO ");
    reveal_strlit(" OR CC ");
    reveal_strlit(" OR BCC ");
    reveal_strlit(" OR SUBJECT ");
    reveal_strlit(" BODY ");
    reveal_strlit("FROM");
    reveal_strlit("TO");
    reveal_strlit("CC");
    reveal_strlit("BCC");
    reveal_strlit("SUBJECT");
    reveal_strlit("BODY");
    let or = seq!['O', 'R', ' '];
    let sp = seq![' '];
    let body = "BODY"@ + sp + value;
    let subject = or + "SUBJECT"@ + sp + value + sp + body;
    let bcc = or + "BCC"@ + sp + value + sp + subject;
    let cc = or + "CC"@ + sp + value + sp + bcc;
    let to = or + "TO"@ + sp + value + sp + cc;
    let from = or + "FROM"@ + sp + value + sp + to;
    let fields = seq!["BODY"@];
    assert(searches_any(body, fields, value));
    one_more_field("SUBJECT"@, body, fields, value);
    let fields = seq!["SUBJECT"@] + fields;
    one_more_field("BCC"@, subject, fields, value);
    let fields = seq!["BCC"@] + fields;
    one_more_field("CC"@, bcc, fields, value);
    let fields = seq!["CC"@] + fields;
    one_more_field("TO"@, cc, fields, value);
    let fields = seq!["TO"@] + fields;
    one_more_field("FROM"@, to, fields, value);
    let fields = seq!["FROM"@] + fields;
    assert(fields == searched_fields());
    assert("OR FROM "@ == or + "FROM"@ + sp);
    assert(" OR TO "@ == sp + or + "TO"@ + sp);
    assert(" OR CC "@ == sp + or + "CC"@ + sp);
    assert(" OR BCC "@ == sp + or + "BCC"@ + sp);
    assert(" OR SUBJECT "@ == sp + or + "SUBJECT"@ + sp);
    assert(" BODY "@ == sp + "BODY"@ + sp);
    assert(field_search(value) == from);
}

/// Whether a search is for messages with a keyword.
pub open spec fn searches_keyword(search: Seq<char>, keyword: Seq<char>) -> bool {
    search == "KEYWORD "@ + keyword
}

/// A search with the character set in front of it where the query is not ASCII.
pub open spec fn in_charset(query: Option<Seq<char>>, search: Seq<char>) -> Seq<char> {
    if query is Some && !vstd::utf8::is_ascii_chars(query->0) {
        "CHARSET UTF-8 "@ + search
    } else {
        search
    }
}

/// What the server is asked for: all messages where neither a label nor a text
/// is given; else those with the keyword of the label, with the text in any
/// field, or with both. The character set is named where the query is not
/// ASCII.
pub proof fn searches_ask_for_what_is_given(
    label: Option<Seq<char>>,
    query: Option<Seq<char>>,
)
    ensures
        ({
            let by_label = label is Some && label->0.len() > 0;
            let by_text = query is Some && trimmed(query->0).len() > 0;
            let search = search_text(label, query);
            &&& !by_label && !by_text ==> search == "ALL"@
            &&& by_label && !by_text ==> exists|term: Seq<char>|
                search == #[trigger] in_charset(query, term) && searches_keyword(
                    term,
                    keyword_of(label->0),
                )
            &&& !by_label && by_text ==> exists|term: Seq<char>|
                search == #[trigger] in_charset(query, term) && searches_any(
                    term,
                    searched_fields(),
                    quoted(trimmed(query->0)),
                )
            &&& by_label && by_text ==> exists|term: Seq<char>, other: Seq<char>|
                search == #[trigger] in_charset(query, term + " "@ + other) && searches_keyword(
                    term,
                    keyword_of(label->0),
                ) && searches_any(other, searched_fields(), quoted(trimmed(query->0)))
        }),
{
    let by_label = label is Some && label->0.len() > 0;
    let by_text = query is Some && trimmed(query->0).len() > 0;
    let search = search_text(label, query);
    let term = "KEYWORD "@ + keyword_of(label->0);
    let other = field_search(quoted(trimmed(query->0)));
    all_fields_are_searched(quoted(trimmed(query->0)));
    let none = Seq::<Seq<char>>::empty();
    if by_label && !by_text {
        assert(seq![term] + none == seq![term]);
        assert(joined(seq![term], " "@) == term);
        assert(search == in_charset(query, term));
    }
    if !by_label && by_text {
        assert(none + seq![other] == seq![other]);
        assert(joined(seq![other], " "@) == other);
        assert(search == in_charset(query, other));
    }
    if by_label && by_text {
        let terms = seq![term] + seq![other];
        assert(terms.drop_last() == seq![term]);
        assert(terms.last() == other);
        assert(joined(seq![term], " "@) == term);
        assert(joined(terms, " "@) == term + " "@ + other);
        assert(search == in_charset(query, term + " "@ + other));
    }
    if !by_label && !by_text {
        assert(none + none == none);
    }
}

} // verus!
