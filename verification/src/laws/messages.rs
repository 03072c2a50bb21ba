//! What holds of messages that are listed and read.

use crate::attachments::{extension_for, mime_type_of, numbered_name, shown_attachments};
use crate::labels::{label_of_flag, FlagView};
use crate::listing::{highest_first, shown_summaries, shown_summary};
use crate::message::{
    first_received, has_attachment, is_detail_of, known_addresses, labels_of, same_letters,
    summary_of, BodyStructure, Fetched, Parameter,
};
use crate::mime::{content_of, envelope_of, is_message, parts_of, EnvelopeView, PartView};
use crate::model::{DetailView, MessageDetail, SummaryView};
use crate::order::sorted_from;
use crate::text::{joined, views};
use vstd::prelude::*;
use vstd::string::*;

verus! {

broadcast use vstd::string::group_string_axioms;

// ---------------------------------------------------------------------------
// Attachments, by the structure of a message
// ---------------------------------------------------------------------------

/// The part of a message at a place: the way to it through the parts that hold
/// others.
pub open spec fn part_at(body: BodyStructure, place: Seq<int>) -> Option<BodyStructure>
    decreases place.len(),
{
    if place.len() == 0 {
        Some(body)
    } else {
        match body {
            BodyStructure::Multipart { bodies, .. } => if 0 <= place[0] < bodies@.len() {
                part_at(bodies@[place[0]], place.drop_first())
            } else {
                None
            },
            _ => None,
        }
    }
}

/// Whether one of some parameters has a key.
pub open spec fn some_key(params: Option<Vec<Parameter>>, key: Seq<char>) -> bool {
    params is Some && exists|i: int|
        0 <= i < params->0@.len() && same_letters((#[trigger] params->0@[i]).key@, key)
}

/// Whether a part is a file: it is attached, it has a file name, or it is a
/// single part that is not text.
pub open spec fn is_file(part: BodyStructure) -> bool {
    let common = match part {
        BodyStructure::Basic { common } => common,
        BodyStructure::Text { common } => common,
        BodyStructure::Message { common } => common,
        BodyStructure::Multipart { common, .. } => common,
    };
    ||| common.disposition is Some && same_letters(
        common.disposition->0.kind@,
        "attachment"@,
    )
    ||| common.disposition is Some && some_key(common.disposition->0.params, "filename"@)
    ||| some_key(common.params, "name"@)
    ||| some_key(common.params, "filename"@)
    ||| part is Basic && !same_letters(common.kind@, "text"@)
}

/// Whether a message holds a file at some depth.
pub open spec fn holds_file(body: BodyStructure) -> bool {
    exists|place: Seq<int>| (#[trigger] part_at(body, place)) matches Some(part) && is_file(part)
}

proof fn files_are_found(body: BodyStructure)
    requires
        has_attachment(body),
    ensures
        holds_file(body),
    decreases body,
{
    if is_file(body) {
        assert(part_at(body, Seq::empty()) == Some(body));
    } else if let BodyStructure::Multipart { bodies, .. } = body {
        let i = choose|i: int| 0 <= i < bodies@.len() && has_attachment(#[trigger] bodies@[i]);
        files_are_found(bodies@[i]);
        let inner = choose|place: Seq<int>|
            (#[trigger] part_at(bodies@[i], place)) matches Some(part) && is_file(part);
        let place = seq![i] + inner;
        assert(place.drop_first() == inner);
        assert(part_at(body, place) == part_at(bodies@[i], inner));
    }
}

proof fn found_files_count(body: BodyStructure, place: Seq<int>)
    requires
        part_at(body, place) matches Some(part) && is_file(part),
    ensures
        has_attachment(body),
    decreases place.len(),
{
    if place.len() > 0 {
        if let BodyStructure::Multipart { bodies, .. } = body {
            found_files_count(bodies@[place[0]], place.drop_first());
            assert(has_attachment(bodies@[place[0]]));
        }
    }
}

/// A message has an attachment exactly where some part of it, at any depth, is
/// attached, has a file name, or is a single part that is not text.
pub proof fn attachments_are_found_at_any_depth(body: BodyStructure)
    ensures
        has_attachment(body) <==> holds_file(body),
{
    if has_attachment(body) {
        files_are_found(body);
    }
    if holds_file(body) {
        let place = choose|place: Seq<int>|
            (#[trigger] part_at(body, place)) matches Some(part) && is_file(part);
        found_files_count(body, place);
    }
}

// ---------------------------------------------------------------------------
// Summaries
// ---------------------------------------------------------------------------

/// Whether a summary tells the truth of a message that was fetched and of its
/// header.
pub open spec fn tells_truth(
    summary: SummaryView,
    fetched: Fetched,
    envelope: EnvelopeView,
) -> bool {
    &&& fetched.uid == Some(summary.uid)
    &&& envelope.subject is Some ==> envelope.subject == Some(summary.subject)
    &&& envelope.subject is None ==> summary.subject == "Без темы"@
    &&& envelope.from_name is Some ==> envelope.from_name == Some(summary.from_name)
    &&& envelope.from_name is None ==> summary.from_name.len() == 0
    &&& envelope.from_address is Some ==> envelope.from_address == Some(summary.from_address)
    &&& envelope.from_address is None ==> summary.from_address.len() == 0
    &&& envelope.date is Some ==> envelope.date == Some(summary.date)
    &&& envelope.date is None && fetched.internal_date is Some ==> fetched.internal_date == Some(
        summary.date,
    )
    &&& envelope.date is None && fetched.internal_date is None ==> summary.date == 0
    &&& summary.seen <==> exists|i: int|
        0 <= i < fetched.flags@.len() && #[trigger] fetched.flags@[i] is Seen
    &&& summary.flagged <==> exists|i: int|
        0 <= i < fetched.flags@.len() && #[trigger] fetched.flags@[i] is Flagged
    &&& forall|label: Seq<char>| #[trigger]
        summary.labels.contains(label) <==> exists|i: int|
            0 <= i < fetched.flags@.len() && label_of_flag((#[trigger] fetched.flags@[i])@) == Some(
                label,
            )
    &&& fetched.size is Some ==> fetched.size == Some(summary.size)
    &&& fetched.size is None ==> summary.size == 0
    &&& summary.has_attachments <==> fetched.body_structure is Some && holds_file(
        fetched.body_structure->0,
    )
}

/// Labels come from flags one by one, in the order of the flags.
pub proof fn labels_follow_flags(a: Seq<FlagView>, b: Seq<FlagView>)
    ensures
        labels_of(a + b) == labels_of(a) + labels_of(b),
        forall|flag: FlagView| #[trigger]
            labels_of(seq![flag]) == (match label_of_flag(flag) {
                Some(label) => seq![label],
                None => Seq::<Seq<char>>::empty(),
            }),
    decreases b.len(),
{
    assert forall|flag: FlagView| #[trigger]
        labels_of(seq![flag]) == (match label_of_flag(flag) {
            Some(label) => seq![label],
            None => Seq::<Seq<char>>::empty(),
        }) by {
        reveal_with_fuel(labels_of, 2);
        assert(seq![flag].drop_last() == Seq::<FlagView>::empty());
    }
    if b.len() == 0 {
        assert(a + b == a);
    } else {
        assert((a + b).drop_last() == a + b.drop_last());
        assert((a + b).last() == b.last());
        labels_follow_flags(a, b.drop_last());
    }
    assert(labels_of(a + b) == labels_of(a) + labels_of(b));
}

proof fn labels_are_carried(flags: Seq<FlagView>, label: Seq<char>)
    ensures
        labels_of(flags).contains(label) <==> exists|i: int|
            0 <= i < flags.len() && label_of_flag(#[trigger] flags[i]) == Some(label),
    decreases flags.len(),
{
    if flags.len() > 0 {
        let before = flags.drop_last();
        labels_are_carried(before, label);
        let all = labels_of(flags);
        let some = labels_of(before);
        if some.contains(label) {
            let k = choose|k: int| 0 <= k < some.len() && some[k] == label;
            assert(all[k] == label);
            let i = choose|i: int|
                0 <= i < before.len() && label_of_flag(#[trigger] before[i]) == Some(label);
            assert(flags[i] == before[i]);
        }
        if label_of_flag(flags.last()) == Some(label) {
            assert(all[all.len() - 1] == label);
            assert(flags[flags.len() - 1] == flags.last());
        }
        if all.contains(label) {
            let k = choose|k: int| 0 <= k < all.len() && all[k] == label;
            if k < some.len() {
                assert(some[k] == label);
            }
        }
        if exists|i: int|
            0 <= i < flags.len() && label_of_flag(#[trigger] flags[i]) == Some(label) {
            let i = choose|i: int|
                0 <= i < flags.len() && label_of_flag(#[trigger] flags[i]) == Some(label);
            if i < before.len() {
                assert(before[i] == flags[i]);
            }
        }
    }
}

/// A summary tells the truth in every field: the number, the subject and the
/// sender of the header, its date or else the server's, the flags and the
/// labels that the message carries, its size, and whether it has attachments.
pub proof fn summaries_tell_the_truth(fetched: Fetched, uid: u32, envelope: EnvelopeView)
    requires
        fetched.uid == Some(uid),
    ensures
        tells_truth(summary_of(fetched, uid, envelope), fetched, envelope),
{
    reveal_strlit("");
    let summary = summary_of(fetched, uid, envelope);
    let flags = views(fetched.flags@);
    if fetched.body_structure is Some {
        attachments_are_found_at_any_depth(fetched.body_structure->0);
    }
    if flags.contains(FlagView::Seen) {
        let i = choose|i: int| 0 <= i < flags.len() && flags[i] == FlagView::Seen;
        assert(fetched.flags@[i] is Seen);
    }
    if flags.contains(FlagView::Flagged) {
        let i = choose|i: int| 0 <= i < flags.len() && flags[i] == FlagView::Flagged;
        assert(fetched.flags@[i] is Flagged);
    }
    assert forall|i: int| 0 <= i < fetched.flags@.len() implies (#[trigger] fetched.flags@[i]
        is Seen ==> flags.contains(FlagView::Seen)) && (fetched.flags@[i] is Flagged
        ==> flags.contains(FlagView::Flagged)) by {
        assert(flags[i] == fetched.flags@[i]@);
    }
    assert forall|label: Seq<char>| #[trigger]
        summary.labels.contains(label) <==> exists|i: int|
            0 <= i < fetched.flags@.len() && label_of_flag((#[trigger] fetched.flags@[i])@) == Some(
                label,
            ) by {
        labels_are_carried(flags, label);
        if exists|i: int| 0 <= i < flags.len() && label_of_flag(#[trigger] flags[i]) == Some(label) {
            let i = choose|i: int|
                0 <= i < flags.len() && label_of_flag(#[trigger] flags[i]) == Some(label);
            assert(label_of_flag(fetched.flags@[i]@) == Some(label));
        }
        if exists|i: int|
            0 <= i < fetched.flags@.len() && label_of_flag((#[trigger] fetched.flags@[i])@) == Some(
                label,
            ) {
            let i = choose|i: int|
                0 <= i < fetched.flags@.len() && label_of_flag((#[trigger] fetched.flags@[i])@)
                    == Some(label);
            assert(label_of_flag(flags[i]) == Some(label));
        }
    }
}

/// Of a message that the server sent a list shows a true summary exactly where
/// the message has a number and a header that can be read.
pub proof fn listed_messages_tell_the_truth(fetched: Fetched)
    ensures
        shown_summary(Some(fetched)) is Some <==> fetched.uid is Some && fetched.header is Some
            && is_message(fetched.header->0@),
        shown_summary(Some(fetched)) matches Some(summary) ==> tells_truth(
            summary,
            fetched,
            envelope_of(fetched.header->0@),
        ),
        shown_summary(None) is None,
{
    if fetched.uid is Some && fetched.header is Some {
        summaries_tell_the_truth(fetched, fetched.uid->0, envelope_of(fetched.header->0@));
    }
}

/// Messages that the server sent are listed one by one: those of two lots are
/// those of the first followed by those of the second.
pub proof fn messages_are_listed_one_by_one(a: Seq<Option<Fetched>>, b: Seq<Option<Fetched>>)
    ensures
        shown_summaries(a + b) == shown_summaries(a) + shown_summaries(b),
        forall|f: Option<Fetched>| #[trigger]
            shown_summaries(seq![f]) == (match shown_summary(f) {
                Some(summary) => seq![summary],
                None => Seq::<SummaryView>::empty(),
            }),
    decreases b.len(),
{
    assert forall|f: Option<Fetched>| #[trigger]
        shown_summaries(seq![f]) == (match shown_summary(f) {
            Some(summary) => seq![summary],
            None => Seq::<SummaryView>::empty(),
        }) by {
        reveal_with_fuel(shown_summaries, 2);
        assert(seq![f].drop_last() == Seq::<Option<Fetched>>::empty());
    }
    if b.len() == 0 {
        assert(a + b == a);
    } else {
        assert((a + b).drop_last() == a + b.drop_last());
        assert((a + b).last() == b.last());
        messages_are_listed_one_by_one(a, b.drop_last());
    }
    assert(shown_summaries(a + b) == shown_summaries(a) + shown_summaries(b));
}

/// Messages are listed from the highest number down, all that can be read and
/// each as often as it was sent.
pub proof fn highest_numbers_come_first(
    listed: Seq<SummaryView>,
    fetched: Seq<Option<Fetched>>,
)
    requires
        sorted_from(highest_first(), listed, shown_summaries(fetched)),
    ensures
        forall|i: int, j: int| 0 <= i < j < listed.len() ==> listed[i].uid >= listed[j].uid,
        forall|summary: SummaryView| #[trigger]
            listed.contains(summary) <==> shown_summaries(fetched).contains(summary),
        listed.len() == shown_summaries(fetched).len(),
{
    assert forall|i: int, j: int| 0 <= i < j < listed.len() implies listed[i].uid
        >= listed[j].uid by {
        assert(highest_first()(listed[i], listed[j]));
    }
    assert forall|summary: SummaryView| #[trigger]
        listed.contains(summary) <==> shown_summaries(fetched).contains(summary) by {
        crate::lists::same_items(listed, shown_summaries(fetched), summary);
    }
    listed.to_multiset_ensures();
    shown_summaries(fetched).to_multiset_ensures();
}

// ---------------------------------------------------------------------------
// Messages that are read
// ---------------------------------------------------------------------------

/// The addresses of recipients come one by one, in their order.
pub proof fn known_recipients_are_kept(
    a: Seq<Option<Seq<char>>>,
    address: Option<Seq<char>>,
)
    ensures
        known_addresses(Seq::empty()) == Seq::<Seq<char>>::empty(),
        known_addresses(a.push(address)) == (match address {
            Some(known) => known_addresses(a).push(known),
            None => known_addresses(a),
        }),
{
    assert(a.push(address).drop_last() == a);
}

/// A message that can be read shows what it holds: its plain text as text, its
/// HTML as HTML, its recipients, a true summary, and its attachments. It can
/// be read where the server sent it whole, with a number.
pub proof fn messages_are_read_as_sent(
    detail: Result<MessageDetail, String>,
    fetched: Option<Fetched>,
)
    requires
        is_detail_of(detail, fetched),
    ensures
        detail is Ok <==> fetched is Some && fetched->0.body is Some && fetched->0.uid is Some
            && is_message(fetched->0.body->0@),
        detail matches Ok(d) ==> {
            let raw = fetched->0.body->0@;
            &&& d@.body_text == content_of(raw).text
            &&& d@.body_html == content_of(raw).html
            &&& d@.to == joined(known_addresses(content_of(raw).to), ", "@)
            &&& tells_truth(d@.summary, fetched->0, envelope_of(raw))
            &&& shows_attachments(d@, parts_of(raw))
        },
{
    if detail is Ok {
        let f = fetched->0;
        let raw = f.body->0@;
        summaries_tell_the_truth(f, f.uid->0, envelope_of(raw));
        attachments_are_shown(parts_of(raw));
    }
}

/// Whether a message shows its attachments: one for each, in their order.
pub open spec fn shows_attachments(detail: DetailView, parts: Seq<PartView>) -> bool {
    &&& detail.attachments.len() == parts.len()
    &&& forall|i: int|
        0 <= i < parts.len() ==> {
            let shown = #[trigger] detail.attachments[i];
            let part = parts[i];
            &&& i <= u32::MAX ==> shown.id == i
            &&& part.name is Some ==> part.name == Some(shown.filename)
            &&& part.name is None ==> "Вложение "@.is_prefix_of(shown.filename)
            &&& part.contents.len() <= usize::MAX ==> shown.size == part.contents.len()
            &&& part.content_type matches Some(t) ==> (t.subtype matches Some(subtype)
                ==> shown.mime_type == t.kind + "/"@ + subtype)
            &&& part.content_type matches Some(t) ==> (t.subtype is None ==> shown.mime_type
                == t.kind + "/octet-stream"@)
            &&& part.content_type is None ==> shown.mime_type == "application/octet-stream"@
        }
}

pub(crate) proof fn attachments_are_shown(parts: Seq<PartView>)
    ensures
        forall|detail: DetailView|
            detail.attachments == shown_attachments(parts) ==> #[trigger] shows_attachments(
                detail,
                parts,
            ),
{
    reveal_strlit("/");
    reveal_strlit("octet-stream");
    reveal_strlit("/octet-stream");
    assert("/"@ + "octet-stream"@ == "/octet-stream"@);
    assert forall|detail: DetailView|
        detail.attachments == shown_attachments(parts) implies #[trigger] shows_attachments(
        detail,
        parts,
    ) by {
        assert forall|i: int| 0 <= i < parts.len() implies {
            let shown = #[trigger] detail.attachments[i];
            let part = parts[i];
            &&& i <= u32::MAX ==> shown.id == i
            &&& part.name is Some ==> part.name == Some(shown.filename)
            &&& part.name is None ==> "Вложение "@.is_prefix_of(shown.filename)
            &&& part.contents.len() <= usize::MAX ==> shown.size == part.contents.len()
            &&& part.content_type matches Some(t) ==> (t.subtype matches Some(subtype)
                ==> shown.mime_type == t.kind + "/"@ + subtype)
            &&& part.content_type matches Some(t) ==> (t.subtype is None ==> shown.mime_type
                == t.kind + "/octet-stream"@)
            &&& part.content_type is None ==> shown.mime_type == "application/octet-stream"@
        } by {
            let part = parts[i];
            let kind = mime_type_of(part.content_type, "application/octet-stream"@);
            let name = numbered_name(i as nat, extension_for(kind));
            assert(name.take("Вложение "@.len() as int) == "Вложение "@);
            if part.content_type is Some {
                let t = part.content_type->0;
                assert(t.kind + "/"@ + "octet-stream"@ == t.kind + ("/"@ + "octet-stream"@));
            }
        }
    }
}

/// The first message that came is the one that is read: those in front of it
/// could not be read.
pub proof fn first_message_is_read(fetched: Seq<Option<Fetched>>)
    ensures
        first_received(fetched) is None <==> forall|i: int|
            0 <= i < fetched.len() ==> (#[trigger] fetched[i]) is None,
        first_received(fetched) matches Some(f) ==> exists|i: int|
            {
                &&& 0 <= i < fetched.len()
                &&& #[trigger] fetched[i] == Some(f)
                &&& forall|k: int| 0 <= k < i ==> (#[trigger] fetched[k]) is None
            },
    decreases fetched.len(),
{
    if fetched.len() > 0 {
        if fetched[0] is Some {
            assert(fetched[0] == first_received(fetched));
        } else {
            let rest = fetched.drop_first();
            first_message_is_read(rest);
            if first_received(fetched) is None {
                assert forall|i: int| 0 <= i < fetched.len() implies (#[trigger] fetched[i])
                    is None by {
                    if i > 0 {
                        assert(rest[i - 1] == fetched[i]);
                    }
                }
            } else {
                let f = first_received(fetched)->0;
                let i = choose|i: int|
                    {
                        &&& 0 <= i < rest.len()
                        &&& #[trigger] rest[i] == Some(f)
                        &&& forall|k: int| 0 <= k < i ==> (#[trigger] rest[k]) is None
                    };
                assert(fetched[i + 1] == Some(f));
                assert forall|k: int| 0 <= k < i + 1 implies (#[trigger] fetched[k]) is None by {
                    if k > 0 {
                        assert(rest[k - 1] == fetched[k]);
                    }
                }
            }
        }
    }
}

} // verus!
