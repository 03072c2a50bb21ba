//! The messages of a folder, as they are listed.

use crate::cache::{page_of, readable_page, CachedDetail, CachedPage, CachedPageView};
use crate::codec::lowercase;
use crate::laws::searching::wanted_messages_are_shown;
use crate::message::{parse_summary, summary_of, Fetched};
use crate::mime::{envelope_of, is_message};
use crate::model::{MessagePage, MessageSummary, SummaryView};
use crate::order::{sort, sorted_from, Order};
use crate::pages::{found, search_messages};
use crate::search::asks_for_label;
use crate::text::{
    copy_texts, decimal, has_text, join, joined, text_of, texts, to_decimal, trimmed, views,
};
use vstd::prelude::*;
use vstd::string::*;

verus! {

broadcast use vstd::string::group_string_axioms;

// ---------------------------------------------------------------------------
// Orders
// ---------------------------------------------------------------------------

/// Messages from the highest number down.
pub open spec fn highest_first() -> spec_fn(SummaryView, SummaryView) -> bool {
    |a: SummaryView, b: SummaryView| a.uid >= b.uid
}

/// The order of messages from the highest number down.
pub struct HighestFirst;

impl Order<MessageSummary> for HighestFirst {
    open spec fn le(&self) -> spec_fn(SummaryView, SummaryView) -> bool {
        highest_first()
    }

    proof fn total(&self, a: SummaryView, b: SummaryView) {
    }

    proof fn transitive(&self, a: SummaryView, b: SummaryView, c: SummaryView) {
    }

    fn compare(&self, a: &MessageSummary, b: &MessageSummary) -> bool {
        a.uid >= b.uid
    }
}

/// Messages from the latest date back.
pub open spec fn latest_first() -> spec_fn(SummaryView, SummaryView) -> bool {
    |a: SummaryView, b: SummaryView| a.date >= b.date
}

/// The order of messages from the latest date back.
pub struct LatestFirst;

impl Order<MessageSummary> for LatestFirst {
    open spec fn le(&self) -> spec_fn(SummaryView, SummaryView) -> bool {
        latest_first()
    }

    proof fn total(&self, a: SummaryView, b: SummaryView) {
    }

    proof fn transitive(&self, a: SummaryView, b: SummaryView, c: SummaryView) {
    }

    fn compare(&self, a: &MessageSummary, b: &MessageSummary) -> bool {
        a.date >= b.date
    }
}

/// As many items of a list as there may be.
pub open spec fn first_of<V>(items: Seq<V>, limit: nat) -> Seq<V> {
    items.take(if items.len() < limit {
        items.len() as int
    } else {
        limit as int
    })
}

/// Whether messages are the latest of others, as many as there may be.
pub open spec fn are_latest(
    messages: Seq<SummaryView>,
    others: Seq<SummaryView>,
    limit: nat,
) -> bool {
    exists|all: Seq<SummaryView>| #[trigger]
        sorted_from(latest_first(), all, others) && messages == first_of(all, limit)
}

pub(crate) fn keep_latest(messages: Vec<MessageSummary>, limit: usize) -> (latest: Vec<MessageSummary>)
    ensures
        are_latest(views(latest@), views(messages@), limit as nat),
{
    let ghost others = views(messages@);
    let mut latest = sort(messages, &LatestFirst);
    let ghost all = views(latest@);
    assert(sorted_from(latest_first(), all, others));
    if latest.len() > limit {
        latest.truncate(limit);
    }
    assert(views(latest@) == first_of(all, limit as nat));
    latest
}

// ---------------------------------------------------------------------------
// Messages that the server sends
// ---------------------------------------------------------------------------

/// What is shown of a message that the server sent, where it can be read.
pub open spec fn shown_summary(fetched: Option<Fetched>) -> Option<SummaryView> {
    match fetched {
        Some(f) => if f.header matches Some(header) && is_message(header@) && f.uid is Some {
            Some(summary_of(f, f.uid->0, envelope_of(f.header->0@)))
        } else {
            None
        },
        None => None,
    }
}

/// What is shown of the messages that the server sent that can be read, in
/// their order.
pub open spec fn shown_summaries(fetched: Seq<Option<Fetched>>) -> Seq<SummaryView>
    decreases fetched.len(),
{
    if fetched.len() == 0 {
        Seq::empty()
    } else {
        let before = shown_summaries(fetched.drop_last());
        match shown_summary(fetched.last()) {
            Some(summary) => before.push(summary),
            None => before,
        }
    }
}

/// What is shown of the messages that the server sent, from the highest number
/// down; messages that cannot be read are left out.
pub fn summaries_from(fetched: &Vec<Option<Fetched>>) -> (messages: Vec<MessageSummary>)
    ensures
        sorted_from(highest_first(), views(messages@), shown_summaries(fetched@)),
{
    let mut messages: Vec<MessageSummary> = Vec::new();
    let mut i: usize = 0;
    assert(views(messages@) == shown_summaries(fetched@.take(0)));
    while i < fetched.len()
        invariant
            i <= fetched@.len(),
            views(messages@) == shown_summaries(fetched@.take(i as int)),
        decreases fetched@.len() - i,
    {
        let ghost before = views(messages@);
        assert(fetched@.take(i + 1).drop_last() == fetched@.take(i as int));
        assert(fetched@.take(i + 1).last() == fetched@[i as int]);
        if let Some(item) = &fetched[i] {
            if let Some(header) = &item.header {
                match parse_summary(item, header.as_slice()) {
                    Ok(summary) => {
                        messages.push(summary);
                        assert(views(messages@) == before.push(summary@));
                    },
                    Err(_) => {},
                }
            }
        }
        i += 1;
    }
    assert(fetched@.take(fetched@.len() as int) == fetched@);
    sort(messages, &HighestFirst)
}

/// Numbers as the server takes them, separated by commas.
pub open spec fn number_list(uids: Seq<u32>) -> Seq<char> {
    joined(uids.map_values(|uid: u32| decimal(uid as nat)), ","@)
}

pub(crate) fn show_numbers(uids: &Vec<u32>, start: usize) -> (set: String)
    requires
        start <= uids@.len(),
    ensures
        set@ == number_list(uids@.skip(start as int)),
{
    let ghost shown = uids@.skip(start as int).map_values(|uid: u32| decimal(uid as nat));
    let mut parts: Vec<String> = Vec::new();
    let mut i: usize = start;
    while i < uids.len()
        invariant
            start <= i <= uids@.len(),
            shown == uids@.skip(start as int).map_values(|uid: u32| decimal(uid as nat)),
            texts(parts@) == shown.take(i - start),
        decreases uids@.len() - i,
    {
        let ghost before = texts(parts@);
        let text = to_decimal(uids[i] as u64);
        parts.push(text);
        assert(texts(parts@) == before.push(text@));
        assert(shown.take(i + 1 - start) == shown.take(i - start).push(text@));
        i += 1;
    }
    assert(shown.take(i - start) == shown);
    join(&parts, ",")
}

/// How many messages are listed: at least one, at most a hundred.
pub open spec fn page_size(limit: usize) -> nat {
    if limit < 1 {
        1
    } else if limit > 100 {
        100
    } else {
        limit as nat
    }
}

pub(crate) fn clamp_limit(limit: usize) -> (size: usize)
    ensures
        size == page_size(limit),
        1 <= size <= 100,
{
    if limit < 1 {
        1
    } else if limit > 100 {
        100
    } else {
        limit
    }
}

/// The first of the last messages of a folder that are listed.
pub open spec fn first_listed(present: u32, limit: usize) -> nat {
    if present > page_size(limit) {
        (present - page_size(limit) + 1) as nat
    } else {
        1
    }
}

/// The last messages of a folder as the server takes them: from one place to
/// another.
pub open spec fn last_places(present: u32, limit: usize) -> Seq<char> {
    decimal(first_listed(present, limit)) + ":"@ + decimal(present as nat)
}

/// Names the last messages of a folder to the server.
pub fn latest_range(present: u32, limit: usize) -> (range: String)
    ensures
        range@ == last_places(present, limit),
{
    let count: u32 = clamp_limit(limit) as u32;
    let start: u32 = if present > count {
        present - count + 1
    } else {
        1
    };
    let mut range = to_decimal(start as u64);
    range.append(":");
    let end = to_decimal(present as u64);
    range.append(end.as_str());
    range
}

/// The last messages of a folder are as many as are listed, or all where the
/// folder holds fewer, and the last message is among them.
pub proof fn latest_range_fills_a_page(present: u32, limit: usize)
    requires
        present > 0,
    ensures
        1 <= first_listed(present, limit) <= present,
        present - first_listed(present, limit) + 1 == (if present < page_size(limit) {
            present as nat
        } else {
            page_size(limit)
        }),
{
}

// ---------------------------------------------------------------------------
// Messages that are stored
// ---------------------------------------------------------------------------

/// Whether a message carries the label that is asked for, if any is.
pub open spec fn carries_wanted(label: Option<Seq<char>>) -> spec_fn(SummaryView) -> bool {
    |message: SummaryView| asks_for_label(label) ==> message.labels.contains(label->0)
}

/// Whether a message has not been read.
pub open spec fn is_unread() -> spec_fn(SummaryView) -> bool {
    |message: SummaryView| !message.seen
}

/// The stored messages in which a query is found.
pub open spec fn stored_matches(
    stored: Option<CachedPageView>,
    details: Seq<Option<CachedDetail>>,
    query: Seq<char>,
) -> Seq<SummaryView> {
    match readable_page(stored) {
        Some(cached) => found(
            cached.page.items,
            details,
            cached.uid_validity,
            lowercase(trimmed(query)),
        ),
        None => Seq::empty(),
    }
}

fn keep_wanted(messages: Vec<MessageSummary>, label: &Option<String>) -> (kept: Vec<
    MessageSummary,
>)
    ensures
        views(kept@) == views(messages@).filter(carries_wanted(text_of(*label))),
{
    let ghost all = views(messages@);
    let ghost wanted = carries_wanted(text_of(*label));
    let mut kept: Vec<MessageSummary> = Vec::new();
    for message in it: messages
        invariant
            all == views(messages@),
            it.seq() == messages@,
            wanted == carries_wanted(text_of(*label)),
            views(kept@) == all.take(it.index() as int).filter(wanted),
    {
        let ghost i = it.index() as int;
        let ghost before = views(kept@);
        proof {
            assert(all.take(i + 1) == all.take(i).push(message@));
            all.take(i).lemma_filter_push(message@, wanted);
        }
        let keep = match label {
            Some(name) => name.as_str().is_empty() || has_text(&message.labels, name.as_str()),
            None => true,
        };
        if keep {
            kept.push(message);
            assert(views(kept@) == before.push(message@));
        }
    }
    assert(all.take(all.len() as int) == all);
    kept
}

fn count_unread(messages: &Vec<MessageSummary>) -> (count: usize)
    ensures
        count == views(messages@).filter(is_unread()).len(),
        count <= messages@.len(),
{
    let ghost all = views(messages@);
    let mut count: usize = 0;
    let mut i: usize = 0;
    assert(all.take(0).filter(is_unread()).len() == 0) by {
        reveal(Seq::filter);
    }
    while i < messages.len()
        invariant
            i <= messages@.len(),
            all == views(messages@),
            count <= i,
            count == all.take(i as int).filter(is_unread()).len(),
        decreases messages@.len() - i,
    {
        proof {
            assert(all.take(i + 1) == all.take(i as int).push(messages@[i as int]@));
            all.take(i as int).lemma_filter_push(messages@[i as int]@, is_unread());
        }
        if !messages[i].seen {
            count += 1;
        }
        i += 1;
    }
    assert(all.take(all.len() as int) == all);
    count
}

/// The latest sixty stored messages of a folder in which a query is found and
/// that carry the label that is asked for, with counts of what is listed.
pub fn search_cached_messages(
    stored: Option<CachedPage>,
    details: &Vec<Option<CachedDetail>>,
    label: Option<String>,
    query: &str,
) -> (page: MessagePage)
    ensures
        are_latest(
            page@.items,
            stored_matches(page_of(stored), details@, query@).filter(
                carries_wanted(text_of(label)),
            ),
            60,
        ),
        page.total == page@.items.len(),
        page.unseen == page@.items.filter(is_unread()).len(),
        page.total <= 60,
        forall|i: int, j: int|
            0 <= i < j < page@.items.len() ==> page@.items[i].date >= page@.items[j].date,
        forall|message: SummaryView| #[trigger]
            page@.items.contains(message) ==> stored_matches(
                page_of(stored),
                details@,
                query@,
            ).contains(message) && (label matches Some(name) ==> (name@.len() > 0
                ==> message.labels.contains(name@))),
        page.total < 60 ==> forall|message: SummaryView| #[trigger]
            stored_matches(page_of(stored), details@, query@).contains(message) && (label is None
                || label->0@.len() == 0 || message.labels.contains(label->0@))
                ==> page@.items.contains(message),
{
    let matching = search_messages(stored, details, query);
    let wanted = keep_wanted(matching, &label);
    let ghost here = stored_matches(page_of(stored), details@, query@);
    let items = keep_latest(wanted, 60);
    proof {
        wanted_messages_are_shown(views(items@), here, text_of(label), 60);
    }
    assert(views(items@).len() <= 60);
    let total: u32 = items.len() as u32;
    let unseen: u32 = count_unread(&items) as u32;
    MessagePage { items, total, unseen }
}

// ---------------------------------------------------------------------------
// Copies
// ---------------------------------------------------------------------------

pub(crate) fn copy_summary(message: &MessageSummary) -> (copy: MessageSummary)
    ensures
        copy@ == message@,
{
    MessageSummary {
        uid: message.uid,
        subject: message.subject.as_str().to_owned(),
        from_name: message.from_name.as_str().to_owned(),
        from_address: message.from_address.as_str().to_owned(),
        date: message.date,
        seen: message.seen,
        flagged: message.flagged,
        labels: copy_texts(&message.labels),
        size: message.size,
        has_attachments: message.has_attachments,
    }
}

pub(crate) fn copy_page(page: &MessagePage) -> (copy: MessagePage)
    ensures
        copy@ == page@,
{
    let ghost all = views(page.items@);
    let mut items: Vec<MessageSummary> = Vec::new();
    let mut i: usize = 0;
    while i < page.items.len()
        invariant
            i <= page.items@.len(),
            all == views(page.items@),
            views(items@) == all.take(i as int),
        decreases page.items@.len() - i,
    {
        let ghost before = views(items@);
        let item = copy_summary(&page.items[i]);
        items.push(item);
        assert(views(items@) == before.push(item@));
        i += 1;
    }
    assert(all.take(all.len() as int) == all);
    MessagePage { items, total: page.total, unseen: page.unseen }
}

// ---------------------------------------------------------------------------
// Messages of both kinds
// ---------------------------------------------------------------------------

/// Whether a message with a number is listed.
pub open spec fn is_listed(messages: Seq<SummaryView>, uid: u32) -> bool {
    exists|i: int| 0 <= i < messages.len() && (#[trigger] messages[i]).uid == uid
}

/// Whether a stored message is left out of a list: it lacks the label that is
/// given, or a message with its number is listed.
pub open spec fn is_left_out(
    messages: Seq<SummaryView>,
    message: SummaryView,
    label: Option<Seq<char>>,
) -> bool {
    (label matches Some(name) && !message.labels.contains(name)) || is_listed(
        messages,
        message.uid,
    )
}

/// The messages that the server sent, followed by the stored messages that are
/// not left out.
pub open spec fn merged(
    sent: Seq<SummaryView>,
    stored: Seq<SummaryView>,
    label: Option<Seq<char>>,
) -> Seq<SummaryView>
    decreases stored.len(),
{
    if stored.len() == 0 {
        sent
    } else {
        let before = merged(sent, stored.drop_last(), label);
        if is_left_out(before, stored.last(), label) {
            before
        } else {
            before.push(stored.last())
        }
    }
}

/// How many stored messages are listed that the server did not find.
pub open spec fn found_here_only(
    sent: Seq<SummaryView>,
    stored: Seq<SummaryView>,
    label: Option<Seq<char>>,
    uids: Seq<u32>,
) -> nat
    decreases stored.len(),
{
    if stored.len() == 0 {
        0
    } else {
        let before = found_here_only(sent, stored.drop_last(), label, uids);
        let listed = merged(sent, stored.drop_last(), label);
        if is_left_out(listed, stored.last(), label) || uids.contains(stored.last().uid) {
            before
        } else {
            before + 1
        }
    }
}

/// A list of messages of both kinds holds what the server sent, and every
/// message of the list that the server did not send is a stored one with the
/// label that is given. No message is listed twice where the server sent none
/// twice.
pub proof fn merging_lists_each_message_once(
    sent: Seq<SummaryView>,
    stored: Seq<SummaryView>,
    label: Option<Seq<char>>,
)
    ensures
        sent.is_prefix_of(merged(sent, stored, label)),
        forall|i: int|
            sent.len() <= i < merged(sent, stored, label).len() ==> {
                &&& stored.contains(#[trigger] merged(sent, stored, label)[i])
                &&& label matches Some(name) ==> merged(
                    sent,
                    stored,
                    label,
                )[i].labels.contains(name)
            },
        (forall|i: int, j: int|
            0 <= i < j < sent.len() ==> (#[trigger] sent[i]).uid != (#[trigger] sent[j]).uid)
            ==> forall|i: int, j: int|
            0 <= i < j < merged(sent, stored, label).len() ==> (#[trigger] merged(
                sent,
                stored,
                label,
            )[i]).uid != (#[trigger] merged(sent, stored, label)[j]).uid,
    decreases stored.len(),
{
    if stored.len() > 0 {
        let rest = stored.drop_last();
        let last = stored.last();
        merging_lists_each_message_once(sent, rest, label);
        let before = merged(sent, rest, label);
        let after = merged(sent, stored, label);
        assert(stored[stored.len() - 1] == last);
        assert forall|i: int| sent.len() <= i < after.len() implies stored.contains(
            #[trigger] after[i],
        ) && (label matches Some(name) ==> after[i].labels.contains(name)) by {
            if i < before.len() {
                assert(after[i] == before[i]);
                assert(rest.contains(before[i]));
                let k = rest.index_of(before[i]);
                assert(stored[k] == before[i]);
            }
        }
        assert(sent.is_prefix_of(before));
        assert(before.is_prefix_of(after));
        assert(sent =~= after.subrange(0, sent.len() as int));
    }
}

/// Every stored message that carries the label that is given is listed.
pub proof fn merging_leaves_out_no_message(
    sent: Seq<SummaryView>,
    stored: Seq<SummaryView>,
    label: Option<Seq<char>>,
    i: int,
)
    requires
        0 <= i < stored.len(),
        label matches Some(name) ==> stored[i].labels.contains(name),
    ensures
        is_listed(merged(sent, stored, label), stored[i].uid),
    decreases stored.len(),
{
    let rest = stored.drop_last();
    let before = merged(sent, rest, label);
    let after = merged(sent, stored, label);
    if i == stored.len() - 1 {
        if !is_left_out(before, stored.last(), label) {
            assert(after[before.len() as int] == stored.last());
        }
    } else {
        assert(rest[i] == stored[i]);
        merging_leaves_out_no_message(sent, rest, label, i);
        let k = choose|k: int| 0 <= k < before.len() && (#[trigger] before[k]).uid == stored[i].uid;
        assert(after[k] == before[k]);
    }
}

fn find_listed(messages: &Vec<MessageSummary>, uid: u32) -> (found: bool)
    ensures
        found == is_listed(views(messages@), uid),
{
    let ghost all = views(messages@);
    let mut i: usize = 0;
    while i < messages.len()
        invariant
            i <= messages@.len(),
            all == views(messages@),
            forall|k: int| 0 <= k < i ==> (#[trigger] all[k]).uid != uid,
        decreases messages@.len() - i,
    {
        assert(all[i as int] == messages@[i as int]@);
        if messages[i].uid == uid {
            return true;
        }
        i += 1;
    }
    false
}

/// Looks for a number in a list of numbers.
fn has_number(uids: &Vec<u32>, uid: u32) -> (found: bool)
    ensures
        found == uids@.contains(uid),
{
    let mut i: usize = 0;
    while i < uids.len()
        invariant
            i <= uids@.len(),
            forall|k: int| 0 <= k < i ==> #[trigger] uids@[k] != uid,
        decreases uids@.len() - i,
    {
        if uids[i] == uid {
            assert(uids@[i as int] == uid);
            return true;
        }
        i += 1;
    }
    false
}

/// Puts stored messages behind those that the server sent.
pub(crate) fn merge_stored(
    sent: Vec<MessageSummary>,
    stored: Vec<MessageSummary>,
    label: &Option<String>,
    uids: &Vec<u32>,
) -> (both: (Vec<MessageSummary>, usize))
    ensures
        views(both.0@) == merged(views(sent@), views(stored@), text_of(*label)),
        both.1 == found_here_only(views(sent@), views(stored@), text_of(*label), uids@),
        both.1 <= stored@.len(),
{
    let ghost first = views(sent@);
    let ghost all = views(stored@);
    let ghost name = text_of(*label);
    let mut messages = sent;
    let mut extra: usize = 0;
    let n: usize = stored.len();
    for message in it: stored
        invariant
            n == stored@.len(),
            it.seq() == stored@,
            all == views(stored@),
            name == text_of(*label),
            views(messages@) == merged(first, all.take(it.index() as int), name),
            extra == found_here_only(first, all.take(it.index() as int), name, uids@),
            extra <= it.index() <= n,
    {
        let ghost before = views(messages@);
        let ghost i = it.index() as int;
        assert(all.take(i + 1).drop_last() == all.take(i));
        assert(all.take(i + 1).last() == message@);
        let lacks = match label {
            Some(wanted) => !has_text(&message.labels, wanted.as_str()),
            None => false,
        };
        if !lacks && !find_listed(&messages, message.uid) {
            if !has_number(uids, message.uid) {
                extra += 1;
            }
            messages.push(message);
            assert(views(messages@) == before.push(message@));
        }
    }
    assert(all.take(all.len() as int) == all);
    (messages, extra)
}

} // verus!
