//! What happens to the cached page of a folder.

use crate::cache::{
    detail_file, detail_of, is_detail_path, is_page_path, page_of, read_page, readable_detail,
    readable_page, write_page, CacheFile, CachedDetail, CachedDetailView, CachedPage,
    CachedPageView, CACHE_VERSION,
};
use crate::codec::{lowercase, to_lowercase};
use crate::laws::searching::{
    body_at, messages_are_found_by_what_they_hold, nothing_else_is_found, stands_in,
};
use crate::listing::stored_matches;
use crate::model::{DetailView, MessageSummary, PageView, SummaryView};
use crate::text::{contains, has_text, occurs_in, str_of, texts, trim, trimmed, views};
use std::collections::HashSet;
use vstd::prelude::*;
use vstd::string::*;

verus! {

broadcast use {
    vstd::string::group_string_axioms,
    vstd::std_specs::hash::group_hash_axioms,
};

// ---------------------------------------------------------------------------
// Labels of one message
// ---------------------------------------------------------------------------

/// Whether a text is another one than a given.
pub open spec fn is_other_text(text: Seq<char>) -> spec_fn(Seq<char>) -> bool {
    |other: Seq<char>| other != text
}

/// Labels without one of them.
pub open spec fn without_label(labels: Seq<Seq<char>>, label: Seq<char>) -> Seq<Seq<char>> {
    labels.filter(is_other_text(label))
}

/// Labels with one more, unless it is among them.
pub open spec fn with_label(labels: Seq<Seq<char>>, label: Seq<char>) -> Seq<Seq<char>> {
    if labels.contains(label) {
        labels
    } else {
        labels.push(label)
    }
}

/// Labels in which one is renamed.
pub open spec fn with_renamed_label(
    labels: Seq<Seq<char>>,
    old_name: Seq<char>,
    new_name: Seq<char>,
) -> Seq<Seq<char>> {
    if labels.contains(old_name) {
        with_label(without_label(labels, old_name), new_name)
    } else {
        labels
    }
}

/// Drops a label.
fn drop_text(labels: Vec<String>, label: &str) -> (kept: Vec<String>)
    ensures
        texts(kept@) == without_label(texts(labels@), label@),
{
    let ghost all = texts(labels@);
    let mut kept: Vec<String> = Vec::new();
    for item in it: labels
        invariant
            all == texts(labels@),
            it.seq() == labels@,
            texts(kept@) == all.take(it.index() as int).filter(is_other_text(label@)),
    {
        let ghost i = it.index() as int;
        let ghost before = texts(kept@);
        proof {
            assert(all.take(i + 1) == all.take(i).push(item@));
            all.take(i).lemma_filter_push(item@, is_other_text(label@));
        }
        if !item.as_str().eq(label) {
            kept.push(item);
            assert(texts(kept@) == before.push(item@));
        }
    }
    assert(all.take(all.len() as int) == all);
    kept
}

/// Adds a label, unless it is among the labels.
fn add_text(labels: Vec<String>, label: &str) -> (more: Vec<String>)
    ensures
        texts(more@) == with_label(texts(labels@), label@),
{
    let mut more = labels;
    if !has_text(&more, label) {
        let ghost before = texts(more@);
        more.push(label.to_owned());
        assert(texts(more@) == before.push(label@));
    }
    more
}

/// A label that is renamed is gone, the new one is there, and the other labels
/// stay as they were.
pub proof fn renamed_label_is_replaced(
    labels: Seq<Seq<char>>,
    old_name: Seq<char>,
    new_name: Seq<char>,
)
    requires
        old_name != new_name,
    ensures
        !with_renamed_label(labels, old_name, new_name).contains(old_name),
        labels.contains(old_name) ==> with_renamed_label(labels, old_name, new_name).contains(
            new_name,
        ),
        forall|l: Seq<char>|
            l != old_name && l != new_name ==> (#[trigger] with_renamed_label(
                labels,
                old_name,
                new_name,
            ).contains(l) <==> labels.contains(l)),
{
    if labels.contains(old_name) {
        let kept = without_label(labels, old_name);
        without_label_holds_the_others(labels, old_name);
        let now = with_label(kept, new_name);
        assert forall|l: Seq<char>| #[trigger] now.contains(l) <==> kept.contains(l) || l
            == new_name by {
            if !kept.contains(new_name) {
                if kept.contains(l) {
                    let k = choose|k: int| 0 <= k < kept.len() && kept[k] == l;
                    assert(now[k] == l);
                }
                assert(now[now.len() - 1] == new_name);
            }
        }
    }
}

/// Without a label there are exactly the other labels.
pub proof fn without_label_holds_the_others(labels: Seq<Seq<char>>, label: Seq<char>)
    ensures
        forall|l: Seq<char>| #[trigger]
            without_label(labels, label).contains(l) <==> labels.contains(l) && l != label,
    decreases labels.len(),
{
    if labels.len() > 0 {
        let rest = labels.drop_last();
        let last = labels.last();
        without_label_holds_the_others(rest, label);
        assert(labels == rest.push(last));
        rest.lemma_filter_push(last, is_other_text(label));
        let kept = without_label(rest, label);
        let now = without_label(labels, label);
        assert forall|l: Seq<char>| #[trigger] now.contains(l) <==> labels.contains(l) && l
            != label by {
            if now.contains(l) {
                let k = choose|k: int| 0 <= k < now.len() && now[k] == l;
                if k < kept.len() {
                    assert(kept.contains(kept[k]));
                    let m = choose|m: int| 0 <= m < rest.len() && rest[m] == l;
                    assert(labels[m] == l);
                } else {
                    assert(labels[labels.len() - 1] == l);
                }
            }
            if labels.contains(l) && l != label {
                let k = choose|k: int| 0 <= k < labels.len() && labels[k] == l;
                if k < rest.len() {
                    assert(rest[k] == l);
                    assert(rest.contains(l));
                    assert(kept.contains(l));
                    let m = choose|m: int| 0 <= m < kept.len() && kept[m] == l;
                    assert(now[m] == l);
                } else {
                    assert(now[now.len() - 1] == l);
                }
            }
        }
    } else {
        assert(without_label(labels, label) == labels);
    }
}

// ---------------------------------------------------------------------------
// Changes of messages
// ---------------------------------------------------------------------------

/// A change of a message in the list.
pub enum Edit<'a> {
    Seen(bool),
    Flagged(bool),
    AddLabel(&'a str),
    DropLabel(&'a str),
    RenameLabel(&'a str, &'a str),
}

/// What a change stands for.
pub enum EditView {
    Seen(bool),
    Flagged(bool),
    AddLabel(Seq<char>),
    DropLabel(Seq<char>),
    RenameLabel(Seq<char>, Seq<char>),
}

impl<'a> View for Edit<'a> {
    type V = EditView;

    open spec fn view(&self) -> EditView {
        match self {
            Edit::Seen(on) => EditView::Seen(*on),
            Edit::Flagged(on) => EditView::Flagged(*on),
            Edit::AddLabel(label) => EditView::AddLabel(label@),
            Edit::DropLabel(label) => EditView::DropLabel(label@),
            Edit::RenameLabel(old_name, new_name) => EditView::RenameLabel(
                old_name@,
                new_name@,
            ),
        }
    }
}

/// A message after a change.
pub open spec fn edited(message: SummaryView, edit: EditView) -> SummaryView {
    match edit {
        EditView::Seen(on) => SummaryView { seen: on, ..message },
        EditView::Flagged(on) => SummaryView { flagged: on, ..message },
        EditView::AddLabel(label) => SummaryView {
            labels: with_label(message.labels, label),
            ..message
        },
        EditView::DropLabel(label) => SummaryView {
            labels: without_label(message.labels, label),
            ..message
        },
        EditView::RenameLabel(old_name, new_name) => SummaryView {
            labels: with_renamed_label(message.labels, old_name, new_name),
            ..message
        },
    }
}

/// Messages after a change of those whose numbers are given.
pub open spec fn patched(
    messages: Seq<SummaryView>,
    uids: Set<u32>,
    edit: EditView,
) -> Seq<SummaryView> {
    messages.map_values(
        |message: SummaryView|
            if uids.contains(message.uid) {
                edited(message, edit)
            } else {
                message
            },
    )
}

/// Messages after a change of all of them.
pub open spec fn patched_all(messages: Seq<SummaryView>, edit: EditView) -> Seq<SummaryView> {
    messages.map_values(|message: SummaryView| edited(message, edit))
}

/// Changes a message.
fn apply_edit(message: MessageSummary, edit: &Edit) -> (changed: MessageSummary)
    ensures
        changed@ == edited(message@, edit@),
{
    let mut changed = message;
    match edit {
        Edit::Seen(on) => {
            changed.seen = *on;
        },
        Edit::Flagged(on) => {
            changed.flagged = *on;
        },
        Edit::AddLabel(label) => {
            changed.labels = add_text(changed.labels, label);
        },
        Edit::DropLabel(label) => {
            changed.labels = drop_text(changed.labels, label);
        },
        Edit::RenameLabel(old_name, new_name) => {
            if has_text(&changed.labels, old_name) {
                let kept = drop_text(changed.labels, old_name);
                changed.labels = add_text(kept, new_name);
            }
        },
    }
    changed
}

/// Changes the messages whose numbers are given.
pub fn patch(
    messages: Vec<MessageSummary>,
    uids: &HashSet<u32>,
    edit: &Edit,
) -> (changed: Vec<MessageSummary>)
    ensures
        views(changed@) == patched(views(messages@), uids@, edit@),
{
    let ghost all = views(messages@);
    let mut changed: Vec<MessageSummary> = Vec::new();
    for message in it: messages
        invariant
            all == views(messages@),
            it.seq() == messages@,
            views(changed@) == patched(all.take(it.index() as int), uids@, edit@),
    {
        let ghost i = it.index() as int;
        let ghost before = views(changed@);
        let ghost was = message@;
        assert(all.take(i + 1) == all.take(i).push(was));
        let next = if uids.contains(&message.uid) {
            apply_edit(message, edit)
        } else {
            message
        };
        changed.push(next);
        assert(views(changed@) == before.push(next@));
        assert(patched(all.take(i + 1), uids@, edit@) == patched(
            all.take(i),
            uids@,
            edit@,
        ).push(next@));
    }
    assert(all.take(all.len() as int) == all);
    changed
}

/// Changes all messages.
fn patch_all(messages: Vec<MessageSummary>, edit: &Edit) -> (changed: Vec<MessageSummary>)
    ensures
        views(changed@) == patched_all(views(messages@), edit@),
{
    let ghost all = views(messages@);
    let mut changed: Vec<MessageSummary> = Vec::new();
    for message in it: messages
        invariant
            all == views(messages@),
            it.seq() == messages@,
            views(changed@) == patched_all(all.take(it.index() as int), edit@),
    {
        let ghost i = it.index() as int;
        let ghost before = views(changed@);
        assert(all.take(i + 1) == all.take(i).push(message@));
        let next = apply_edit(message, edit);
        changed.push(next);
        assert(views(changed@) == before.push(next@));
        assert(patched_all(all.take(i + 1), edit@) == patched_all(all.take(i), edit@).push(next@));
    }
    assert(all.take(all.len() as int) == all);
    changed
}

/// Whether a message is not among those whose numbers are given.
pub open spec fn stays(uids: Set<u32>) -> spec_fn(SummaryView) -> bool {
    |message: SummaryView| !uids.contains(message.uid)
}

/// A difference that stops at zero.
pub open spec fn saturating_difference(a: u32, b: u32) -> u32 {
    if a < b {
        0
    } else {
        (a - b) as u32
    }
}

/// A page without the messages whose numbers are given; its total is smaller
/// by the number of messages that left it.
pub open spec fn page_without(page: PageView, uids: Set<u32>) -> PageView {
    let items = page.items.filter(stays(uids));
    PageView {
        items,
        total: saturating_difference(page.total, (page.items.len() - items.len()) as u32),
        unseen: page.unseen,
    }
}

/// A page after an action on the messages whose numbers are given. Where an
/// action does not say whether it sets or clears something, it sets it.
pub open spec fn updated_page(
    page: PageView,
    uids: Set<u32>,
    action: Seq<char>,
    enabled: Option<bool>,
    value: Option<Seq<char>>,
) -> PageView {
    let on = enabled != Some(false);
    if action == "move"@ {
        page_without(page, uids)
    } else if action == "seen"@ {
        PageView { items: patched(page.items, uids, EditView::Seen(on)), ..page }
    } else if action == "flagged"@ {
        PageView { items: patched(page.items, uids, EditView::Flagged(on)), ..page }
    } else if action == "label"@ && value is Some {
        let edit = if on {
            EditView::AddLabel(value->0)
        } else {
            EditView::DropLabel(value->0)
        };
        PageView { items: patched(page.items, uids, edit), ..page }
    } else {
        page
    }
}

/// Drops the messages whose numbers are given.
fn drop_messages(messages: Vec<MessageSummary>, uids: &HashSet<u32>) -> (kept: Vec<
    MessageSummary,
>)
    ensures
        views(kept@) == views(messages@).filter(stays(uids@)),
        kept@.len() <= messages@.len(),
{
    let ghost all = views(messages@);
    let mut kept: Vec<MessageSummary> = Vec::new();
    for message in it: messages
        invariant
            all == views(messages@),
            it.seq() == messages@,
            kept@.len() <= it.index(),
            views(kept@) == all.take(it.index() as int).filter(stays(uids@)),
    {
        let ghost i = it.index() as int;
        let ghost before = views(kept@);
        proof {
            assert(all.take(i + 1) == all.take(i).push(message@));
            all.take(i).lemma_filter_push(message@, stays(uids@));
        }
        if !uids.contains(&message.uid) {
            kept.push(message);
            assert(views(kept@) == before.push(message@));
        }
    }
    assert(all.take(all.len() as int) == all);
    kept
}

/// The file to write for a folder's page after an action on the messages whose
/// numbers are given; none where there is no page to read.
pub fn update_messages(
    email: &str,
    raw_path: &str,
    stored: Option<CachedPage>,
    uids: &HashSet<u32>,
    action: &str,
    enabled: Option<bool>,
    value: Option<&str>,
) -> (file: Option<CacheFile<CachedPage>>)
    ensures
        file is Some <==> readable_page(page_of(stored)) is Some,
        file matches Some(f) ==> {
            &&& is_page_path(texts(f.path@), email@, raw_path@)
            &&& f.value@ == (CachedPageView {
                page: updated_page(
                    stored->0@.page,
                    uids@,
                    action@,
                    enabled,
                    str_of(value),
                ),
                ..stored->0@
            })
        },
{
    let mut cached = match read_page(stored) {
        Some(cached) => cached,
        None => {
            return None;
        },
    };
    let on = match enabled {
        Some(on) => on,
        None => true,
    };
    let mut page = cached.page;
    if action.eq("move") {
        let before: usize = page.items.len();
        page.items = drop_messages(page.items, uids);
        let removed: u32 = (before - page.items.len()) as u32;
        page.total = page.total.saturating_sub(removed);
    } else if action.eq("seen") {
        page.items = patch(page.items, uids, &Edit::Seen(on));
    } else if action.eq("flagged") {
        page.items = patch(page.items, uids, &Edit::Flagged(on));
    } else if action.eq("label") {
        if let Some(label) = value {
            if on {
                page.items = patch(page.items, uids, &Edit::AddLabel(label));
            } else {
                page.items = patch(page.items, uids, &Edit::DropLabel(label));
            }
        }
    }
    cached.page = page;
    Some(write_page(email, raw_path, cached))
}

/// The file to write for a folder's page after a label is renamed; none where
/// there is no page to read.
pub fn rename_message_label(
    email: &str,
    raw_path: &str,
    stored: Option<CachedPage>,
    old_name: &str,
    new_name: &str,
) -> (file: Option<CacheFile<CachedPage>>)
    ensures
        file is Some <==> readable_page(page_of(stored)) is Some,
        file matches Some(f) ==> {
            &&& is_page_path(texts(f.path@), email@, raw_path@)
            &&& f.value@ == (CachedPageView {
                page: PageView {
                    items: patched_all(
                        stored->0@.page.items,
                        EditView::RenameLabel(old_name@, new_name@),
                    ),
                    ..stored->0@.page
                },
                ..stored->0@
            })
        },
{
    let mut cached = match read_page(stored) {
        Some(cached) => cached,
        None => {
            return None;
        },
    };
    cached.page.items = patch_all(cached.page.items, &Edit::RenameLabel(old_name, new_name));
    Some(write_page(email, raw_path, cached))
}

/// The file to write for a folder's page after a label is deleted; none where
/// there is no page to read.
pub fn delete_message_label(
    email: &str,
    raw_path: &str,
    stored: Option<CachedPage>,
    name: &str,
) -> (file: Option<CacheFile<CachedPage>>)
    ensures
        file is Some <==> readable_page(page_of(stored)) is Some,
        file matches Some(f) ==> {
            &&& is_page_path(texts(f.path@), email@, raw_path@)
            &&& f.value@ == (CachedPageView {
                page: PageView {
                    items: patched_all(stored->0@.page.items, EditView::DropLabel(name@)),
                    ..stored->0@.page
                },
                ..stored->0@
            })
        },
{
    let mut cached = match read_page(stored) {
        Some(cached) => cached,
        None => {
            return None;
        },
    };
    cached.page.items = patch_all(cached.page.items, &Edit::DropLabel(name));
    Some(write_page(email, raw_path, cached))
}

// ---------------------------------------------------------------------------
// Search in the cache
// ---------------------------------------------------------------------------

/// Whether a text holds a needle, without regard to case; the needle is given
/// in lower case.
pub open spec fn holds(text: Seq<char>, needle: Seq<char>) -> bool {
    occurs_in(lowercase(text), needle)
}

/// Whether the summary of a message holds a needle: its sender or its subject.
pub open spec fn summary_holds(message: SummaryView, needle: Seq<char>) -> bool {
    ||| holds(message.from_name, needle)
    ||| holds(message.from_address, needle)
    ||| holds(message.subject, needle)
}

/// An optional text, empty where there is none.
pub open spec fn text_or_empty(text: Option<Seq<char>>) -> Seq<char> {
    match text {
        Some(t) => t,
        None => Seq::empty(),
    }
}

/// Whether the body of a message holds a needle.
pub open spec fn body_holds(detail: DetailView, needle: Seq<char>) -> bool {
    ||| holds(text_or_empty(detail.body_text), needle)
    ||| holds(text_or_empty(detail.body_html), needle)
}

/// The stored messages as they are read beside a page: one for each message of
/// the page, and none behind the end of the list.
pub open spec fn stored_at(details: Seq<Option<CachedDetail>>, i: int) -> Option<
    CachedDetailView,
> {
    if 0 <= i < details.len() {
        detail_of(details[i])
    } else {
        None
    }
}

/// Whether a message matches a search: by its summary, or by its body where
/// that is stored with the validity of the folder.
pub open spec fn message_matches(
    message: SummaryView,
    stored: Option<CachedDetailView>,
    uid_validity: Option<u32>,
    needle: Seq<char>,
) -> bool {
    summary_holds(message, needle) || (readable_detail(stored, uid_validity) matches Some(detail)
        && body_holds(detail, needle))
}

/// The messages of a page that match a search, in the order of the page.
pub open spec fn found(
    messages: Seq<SummaryView>,
    details: Seq<Option<CachedDetail>>,
    uid_validity: Option<u32>,
    needle: Seq<char>,
) -> Seq<SummaryView>
    decreases messages.len(),
{
    if messages.len() == 0 {
        Seq::empty()
    } else {
        let rest = found(messages.drop_last(), details, uid_validity, needle);
        let last = messages.last();
        if message_matches(last, stored_at(details, messages.len() - 1), uid_validity, needle) {
            rest.push(last)
        } else {
            rest
        }
    }
}

/// Looks for a needle in a text, without regard to case.
fn find_in(text: &str, needle: &str) -> (found: bool)
    ensures
        found == holds(text@, needle@),
{
    let lower = to_lowercase(text);
    contains(lower.as_str(), needle)
}

/// Looks for a needle in the summary of a message.
pub fn summary_matches(message: &MessageSummary, needle: &str) -> (found: bool)
    ensures
        found == summary_holds(message@, needle@),
{
    find_in(message.from_name.as_str(), needle) || find_in(message.from_address.as_str(), needle)
        || find_in(message.subject.as_str(), needle)
}

/// Looks for a needle in an optional text.
fn find_in_optional(text: &Option<String>, needle: &str) -> (found: bool)
    ensures
        found == holds(text_or_empty(crate::text::text_of(*text)), needle@),
{
    match text {
        Some(t) => find_in(t.as_str(), needle),
        None => {
            let empty = String::new();
            find_in(empty.as_str(), needle)
        },
    }
}

/// Looks for a needle in the body of a stored message.
fn body_matches(cached: &CachedDetail, uid_validity: Option<u32>, needle: &str) -> (found: bool)
    ensures
        found == (readable_detail(Some(cached@), uid_validity) matches Some(detail)
            && body_holds(detail, needle@)),
{
    cached.version == crate::cache::CACHE_VERSION && cached.uid_validity == uid_validity && (
    find_in_optional(&cached.detail.body_text, needle) || find_in_optional(
        &cached.detail.body_html,
        needle,
    ))
}

/// A search query as it is looked for: in lower case, without the white space
/// around it.
pub fn needle_of(query: &str) -> (needle: String)
    ensures
        needle@ == lowercase(trimmed(query@)),
{
    to_lowercase(trim(query))
}

/// Whether paths lead to the stored messages that a search has to look into: in
/// the place of each message of the page the path of what is stored of it,
/// unless the summary holds the needle already.
pub open spec fn leads_to_details(
    paths: Seq<Option<Vec<String>>>,
    email: Seq<char>,
    raw_path: Seq<char>,
    messages: Seq<SummaryView>,
    needle: Seq<char>,
) -> bool {
    &&& paths.len() == messages.len()
    &&& forall|i: int|
        0 <= i < messages.len() ==> match #[trigger] paths[i] {
            Some(path) => !summary_holds(messages[i], needle) && is_detail_path(
                texts(path@),
                email,
                raw_path,
                messages[i].uid,
            ),
            None => summary_holds(messages[i], needle),
        }
}

/// The paths of the stored messages that a search for a query has to look into,
/// in the order of the page; none where no page can be read.
pub fn detail_files(
    email: &str,
    raw_path: &str,
    stored: &Option<CachedPage>,
    query: &str,
) -> (paths: Vec<Option<Vec<String>>>)
    ensures
        match readable_page(page_of(*stored)) {
            Some(cached) => leads_to_details(
                paths@,
                email@,
                raw_path@,
                cached.page.items,
                lowercase(trimmed(query@)),
            ),
            None => paths@.len() == 0,
        },
{
    let mut paths: Vec<Option<Vec<String>>> = Vec::new();
    let cached = match stored {
        Some(cached) => cached,
        None => {
            return paths;
        },
    };
    if cached.version != crate::cache::CACHE_VERSION {
        return paths;
    }
    let needle = needle_of(query);
    let messages = &cached.page.items;
    let ghost all = views(messages@);
    let mut i: usize = 0;
    while i < messages.len()
        invariant
            i <= messages@.len(),
            all == views(messages@),
            leads_to_details(paths@, email@, raw_path@, all.take(i as int), needle@),
        decreases messages@.len() - i,
    {
        assert(all.take(i + 1) == all.take(i as int).push(all[i as int]));
        let path = if summary_matches(&messages[i], needle.as_str()) {
            None
        } else {
            Some(detail_file(email, raw_path, messages[i].uid))
        };
        paths.push(path);
        i += 1;
    }
    assert(all.take(all.len() as int) == all);
    paths
}

/// The messages of a folder's page in which a query is found. `details` holds
/// the stored messages in the order of the page; one whose summary holds the
/// query already need not be read.
pub fn search_messages(
    stored: Option<CachedPage>,
    details: &Vec<Option<CachedDetail>>,
    query: &str,
) -> (matching: Vec<MessageSummary>)
    ensures
        views(matching@) == (match readable_page(page_of(stored)) {
            Some(cached) => found(
                cached.page.items,
                details@,
                cached.uid_validity,
                lowercase(trimmed(query@)),
            ),
            None => Seq::empty(),
        }),
        stored matches Some(page) ==> (page.version == CACHE_VERSION ==> forall|i: int|
            0 <= i < page@.page.items.len() && stands_in(
                query@,
                page@.page.items[i],
                body_at(page@, details@, i),
            ) ==> views(matching@).contains(#[trigger] page@.page.items[i])),
        forall|message: SummaryView| #[trigger]
            views(matching@).contains(message) ==> stored is Some && exists|i: int|
                0 <= i < stored->0@.page.items.len() && #[trigger] stored->0@.page.items[i]
                    == message && stands_in(query@, message, body_at(stored->0@, details@, i)),
{
    let ghost before_reading = stored;
    let needle = needle_of(query);
    let mut matching: Vec<MessageSummary> = Vec::new();
    assert(views(matching@) == Seq::<SummaryView>::empty());
    let cached = match read_page(stored) {
        Some(cached) => cached,
        None => {
            return matching;
        },
    };
    let uid_validity = cached.uid_validity;
    let messages = cached.page.items;
    let ghost all = views(messages@);
    let mut i: usize = 0;
    let n: usize = messages.len();
    for message in it: messages
        invariant
            all == views(messages@),
            it.seq() == messages@,
            n == messages@.len(),
            i == it.index(),
            views(matching@) == found(
                all.take(it.index() as int),
                details@,
                uid_validity,
                needle@,
            ),
    {
        let ghost before = views(matching@);
        proof {
            assert(all.take(i + 1).drop_last() == all.take(i as int));
            assert(all.take(i + 1).last() == message@);
        }
        let hit = summary_matches(&message, needle.as_str()) || (i < details.len()
            && match &details[i] {
            Some(detail) => body_matches(detail, uid_validity, needle.as_str()),
            None => false,
        });
        if hit {
            matching.push(message);
            assert(views(matching@) == before.push(message@));
        }
        i += 1;
    }
    assert(all.take(all.len() as int) == all);
    proof {
        let page = before_reading->0@;
        assert(views(matching@) == stored_matches(Some(page), details@, query@));
        assert forall|i: int|
            0 <= i < page.page.items.len() && stands_in(
                query@,
                page.page.items[i],
                body_at(page, details@, i),
            ) implies views(matching@).contains(#[trigger] page.page.items[i]) by {
            messages_are_found_by_what_they_hold(page, details@, query@, i);
        }
        assert forall|message: SummaryView| #[trigger] views(matching@).contains(
            message,
        ) implies exists|i: int|
            0 <= i < page.page.items.len() && #[trigger] page.page.items[i] == message
                && stands_in(query@, message, body_at(page, details@, i)) by {
            nothing_else_is_found(page, details@, query@, message);
        }
    }
    matching
}

/// A search finds messages of the page only, each of them at most once.
pub proof fn found_messages_are_of_the_page(
    messages: Seq<SummaryView>,
    details: Seq<Option<CachedDetail>>,
    uid_validity: Option<u32>,
    needle: Seq<char>,
)
    ensures
        found(messages, details, uid_validity, needle).len() <= messages.len(),
        found(messages, details, uid_validity, needle).to_multiset().subset_of(
            messages.to_multiset(),
        ),
    decreases messages.len(),
{
    messages.to_multiset_ensures();
    if messages.len() > 0 {
        let rest = messages.drop_last();
        found_messages_are_of_the_page(rest, details, uid_validity, needle);
        let before = found(rest, details, uid_validity, needle);
        before.to_multiset_ensures();
        rest.to_multiset_ensures();
        assert(rest.push(messages.last()) == messages);
        assert(messages.to_multiset() == rest.to_multiset().insert(messages.last()));
    } else {
        assert(found(messages, details, uid_validity, needle) == messages);
    }
}

/// A message of the page is found where its summary holds the needle, or its
/// stored body does.
pub proof fn matching_messages_are_found(
    messages: Seq<SummaryView>,
    details: Seq<Option<CachedDetail>>,
    uid_validity: Option<u32>,
    needle: Seq<char>,
    i: int,
)
    requires
        0 <= i < messages.len(),
        message_matches(messages[i], stored_at(details, i), uid_validity, needle),
    ensures
        found(messages, details, uid_validity, needle).contains(messages[i]),
    decreases messages.len(),
{
    let rest = messages.drop_last();
    let before = found(rest, details, uid_validity, needle);
    let after = found(messages, details, uid_validity, needle);
    if i == messages.len() - 1 {
        assert(after[before.len() as int] == messages[i]);
    } else {
        assert(rest[i] == messages[i]);
        matching_messages_are_found(rest, details, uid_validity, needle, i);
        let k = before.index_of(messages[i]);
        assert(after[k] == messages[i]);
    }
}

/// What is stored of a message whose summary holds the query makes no
/// difference to a search, so it need not be read.
pub proof fn details_of_matching_summaries_do_not_matter(
    messages: Seq<SummaryView>,
    a: Seq<Option<CachedDetail>>,
    b: Seq<Option<CachedDetail>>,
    uid_validity: Option<u32>,
    needle: Seq<char>,
)
    requires
        forall|i: int|
            0 <= i < messages.len() ==> summary_holds(#[trigger] messages[i], needle) || stored_at(
                a,
                i,
            ) == stored_at(b, i),
    ensures
        found(messages, a, uid_validity, needle) == found(messages, b, uid_validity, needle),
    decreases messages.len(),
{
    if messages.len() > 0 {
        let rest = messages.drop_last();
        assert forall|i: int| 0 <= i < rest.len() implies summary_holds(#[trigger] rest[i], needle)
            || stored_at(a, i) == stored_at(b, i) by {
            assert(rest[i] == messages[i]);
        }
        details_of_matching_summaries_do_not_matter(rest, a, b, uid_validity, needle);
        assert(messages[messages.len() - 1] == messages.last());
    }
}

// ---------------------------------------------------------------------------
// What holds of changes
// ---------------------------------------------------------------------------

/// A change that is made twice is made once.
pub proof fn edit_is_idempotent(message: SummaryView, edit: EditView)
    requires
        !(edit is RenameLabel),
    ensures
        edited(edited(message, edit), edit) == edited(message, edit),
{
    match edit {
        EditView::AddLabel(label) => {
            let labels = message.labels;
            if !labels.contains(label) {
                assert(labels.push(label)[labels.len() as int] == label);
            }
        },
        EditView::DropLabel(label) => {
            let kept = without_label(message.labels, label);
            without_label_holds_the_others(message.labels, label);
            assert forall|i: int| 0 <= i < kept.len() implies is_other_text(label)(
                #[trigger] kept[i],
            ) by {
                assert(kept.contains(kept[i]));
            }
            crate::lists::filter_keeps_all(kept, is_other_text(label));
        },
        _ => {},
    }
}

/// An action that is applied twice to a page is applied once.
pub proof fn action_is_idempotent(
    page: PageView,
    uids: Set<u32>,
    action: Seq<char>,
    enabled: Option<bool>,
    value: Option<Seq<char>>,
)
    ensures
        updated_page(
            updated_page(page, uids, action, enabled, value),
            uids,
            action,
            enabled,
            value,
        ) == updated_page(page, uids, action, enabled, value),
{
    let once = updated_page(page, uids, action, enabled, value);
    let on = enabled != Some(false);
    if action == "move"@ {
        let items = page.items.filter(stays(uids));
        page.items.lemma_filter_len(stays(uids));
        assert forall|i: int| 0 <= i < items.len() implies stays(uids)(#[trigger] items[i]) by {
            page.items.lemma_filter_pred(stays(uids), i);
        }
        crate::lists::filter_keeps_all(items, stays(uids));
    } else {
        let edit = if action == "seen"@ {
            EditView::Seen(on)
        } else if action == "flagged"@ {
            EditView::Flagged(on)
        } else if on {
            EditView::AddLabel(value->0)
        } else {
            EditView::DropLabel(value->0)
        };
        let items = patched(page.items, uids, edit);
        assert forall|i: int| 0 <= i < items.len() implies patched(items, uids, edit)[i]
            == items[i] by {
            edit_is_idempotent(page.items[i], edit);
        }
        assert(patched(items, uids, edit) == items);
    }
}

/// An action leaves the other messages as they were, in the same order.
pub proof fn other_messages_stay(
    page: PageView,
    uids: Set<u32>,
    action: Seq<char>,
    enabled: Option<bool>,
    value: Option<Seq<char>>,
)
    ensures
        updated_page(page, uids, action, enabled, value).items.filter(stays(uids))
            == page.items.filter(stays(uids)),
{
    let on = enabled != Some(false);
    if action == "move"@ {
        let items = page.items.filter(stays(uids));
        assert forall|i: int| 0 <= i < items.len() implies stays(uids)(#[trigger] items[i]) by {
            page.items.lemma_filter_pred(stays(uids), i);
        }
        crate::lists::filter_keeps_all(items, stays(uids));
    } else if action == "seen"@ {
        patch_keeps_others(page.items, uids, EditView::Seen(on));
    } else if action == "flagged"@ {
        patch_keeps_others(page.items, uids, EditView::Flagged(on));
    } else if action == "label"@ && value is Some {
        if on {
            patch_keeps_others(page.items, uids, EditView::AddLabel(value->0));
        } else {
            patch_keeps_others(page.items, uids, EditView::DropLabel(value->0));
        }
    }
}

proof fn patch_keeps_others(messages: Seq<SummaryView>, uids: Set<u32>, edit: EditView)
    ensures
        patched(messages, uids, edit).filter(stays(uids)) == messages.filter(stays(uids)),
    decreases messages.len(),
{
    let now = patched(messages, uids, edit);
    if messages.len() > 0 {
        let rest = messages.drop_last();
        let last = messages.last();
        patch_keeps_others(rest, uids, edit);
        assert(messages == rest.push(last));
        assert(now == patched(rest, uids, edit).push(now.last()));
        rest.lemma_filter_push(last, stays(uids));
        patched(rest, uids, edit).lemma_filter_push(now.last(), stays(uids));
    } else {
        assert(now == messages);
    }
}

/// After a move none of the messages is left in the folder.
pub proof fn moved_messages_are_gone(page: PageView, uids: Set<u32>, i: int)
    requires
        0 <= i < page_without(page, uids).items.len(),
    ensures
        !uids.contains(page_without(page, uids).items[i].uid),
{
    page.items.lemma_filter_pred(stays(uids), i);
}

} // verus!
