//! Messages as the server hands them out, made into what is shown.

use crate::attachments::{attachments_from, shown_attachments};
use crate::labels::{label_in, label_of_flag, Flag, FlagView};
use crate::laws::messages::{
    attachments_are_shown, shows_attachments, summaries_tell_the_truth, tells_truth,
};
use crate::mime::{
    content_of, envelope_of, is_message, parse_content, parse_envelope, parse_parts, parts_of,
    Content, ContentView, Envelope, EnvelopeView, Part, PartView,
};
use crate::model::{DetailView, MessageDetail, MessageSummary, SummaryView};
use crate::text::{
    join, joined, lower_ascii, or_text, same_ignoring_case, text_of, text_or, texts, views,
};
use vstd::prelude::*;
use vstd::string::*;

verus! {

broadcast use vstd::string::group_string_axioms;

// ---------------------------------------------------------------------------
// The structure of a message
// ---------------------------------------------------------------------------

/// A parameter of a part's type or disposition.
#[derive(Debug)]
pub struct Parameter {
    pub key: String,
    pub value: String,
}

/// How a part is to be shown.
#[derive(Debug)]
pub struct Disposition {
    pub kind: String,
    pub params: Option<Vec<Parameter>>,
}

/// What the parts of a message have in common.
#[derive(Debug)]
pub struct BodyCommon {
    pub kind: String,
    pub subtype: String,
    pub params: Option<Vec<Parameter>>,
    pub disposition: Option<Disposition>,
}

/// The structure of a message: one part, or several.
#[derive(Debug)]
pub enum BodyStructure {
    Basic { common: BodyCommon },
    Text { common: BodyCommon },
    Message { common: BodyCommon },
    Multipart { common: BodyCommon, bodies: Vec<BodyStructure> },
}

/// Whether two texts are the same but for the case of the letters of ASCII.
pub open spec fn same_letters(a: Seq<char>, b: Seq<char>) -> bool {
    lower_ascii(a) == lower_ascii(b)
}

/// Whether parameters hold one with a key, whatever its case.
pub open spec fn has_key(params: Option<Vec<Parameter>>, key: Seq<char>) -> bool {
    params matches Some(list) && exists|i: int|
        0 <= i < list@.len() && same_letters((#[trigger] list@[i]).key@, key)
}

/// Whether a part says of itself that it is a file: by its disposition or by a
/// file name.
pub open spec fn is_named_or_attached(common: BodyCommon) -> bool {
    ||| has_key(common.params, "name"@)
    ||| has_key(common.params, "filename"@)
    ||| common.disposition matches Some(d) && has_key(d.params, "filename"@)
    ||| common.disposition matches Some(d) && same_letters(d.kind@, "attachment"@)
}

/// What the parts of a structure have in common.
pub open spec fn common_of(body: BodyStructure) -> BodyCommon {
    match body {
        BodyStructure::Basic { common } => common,
        BodyStructure::Text { common } => common,
        BodyStructure::Message { common } => common,
        BodyStructure::Multipart { common, .. } => common,
    }
}

/// Whether a message has an attachment: a part that says it is a file, or a
/// single part that is not text, at any depth.
pub open spec fn has_attachment(body: BodyStructure) -> bool
    decreases body,
{
    ||| is_named_or_attached(common_of(body))
    ||| body is Basic && !same_letters(common_of(body).kind@, "text"@)
    ||| body matches BodyStructure::Multipart { bodies, .. } && exists|i: int|
        0 <= i < bodies@.len() && has_attachment(#[trigger] bodies@[i])
}

fn find_key(params: &Option<Vec<Parameter>>, key: &str) -> (found: bool)
    ensures
        found == has_key(*params, key@),
{
    match params {
        Some(list) => {
            let mut i: usize = 0;
            while i < list.len()
                invariant
                    *params == Some(*list),
                    i <= list@.len(),
                    forall|k: int| 0 <= k < i ==> !same_letters((#[trigger] list@[k]).key@, key@),
                decreases list@.len() - i,
            {
                if same_ignoring_case(list[i].key.as_str(), key) {
                    assert(same_letters(list@[i as int].key@, key@));
                    assert(params->0@[i as int] == list@[i as int]);
                    return true;
                }
                i += 1;
            }
            false
        },
        None => false,
    }
}

fn named_or_attached(common: &BodyCommon) -> (found: bool)
    ensures
        found == is_named_or_attached(*common),
{
    find_key(&common.params, "name") || find_key(&common.params, "filename")
        || match &common.disposition {
        Some(d) => find_key(&d.params, "filename") || same_ignoring_case(
            d.kind.as_str(),
            "attachment",
        ),
        None => false,
    }
}

/// Whether a message has an attachment.
pub fn bodystructure_has_attachments(body: &BodyStructure) -> (found: bool)
    ensures
        found == has_attachment(*body),
    decreases body,
{
    match body {
        BodyStructure::Basic { common } => {
            named_or_attached(common) || !same_ignoring_case(common.kind.as_str(), "text")
        },
        BodyStructure::Text { common } => named_or_attached(common),
        BodyStructure::Message { common } => named_or_attached(common),
        BodyStructure::Multipart { common, bodies } => {
            if named_or_attached(common) {
                return true;
            }
            let mut i: usize = 0;
            while i < bodies.len()
                invariant
                    *body == (BodyStructure::Multipart { common: *common, bodies: *bodies }),
                    i <= bodies@.len(),
                    forall|k: int| 0 <= k < i ==> !has_attachment(#[trigger] bodies@[k]),
                decreases bodies@.len() - i,
            {
                assert(decreases_to!(body => body->bodies@));
                assert(decreases_to!(body => body->bodies@[i as int]));
                if bodystructure_has_attachments(&bodies[i]) {
                    assert(has_attachment(body->bodies@[i as int]));
                    return true;
                }
                i += 1;
            }
            false
        },
    }
}

// ---------------------------------------------------------------------------
// Summaries
// ---------------------------------------------------------------------------

/// What the server sends of a message. The date is in seconds since 1970.
#[derive(Debug)]
pub struct Fetched {
    pub uid: Option<u32>,
    pub flags: Vec<Flag>,
    pub internal_date: Option<i64>,
    pub size: Option<u32>,
    pub body_structure: Option<BodyStructure>,
    pub header: Option<Vec<u8>>,
    pub body: Option<Vec<u8>>,
}

/// The labels that flags carry, in the order of the flags.
pub open spec fn labels_of(flags: Seq<FlagView>) -> Seq<Seq<char>>
    decreases flags.len(),
{
    if flags.len() == 0 {
        Seq::empty()
    } else {
        let before = labels_of(flags.drop_last());
        match label_of_flag(flags.last()) {
            Some(label) => before.push(label),
            None => before,
        }
    }
}

/// What is shown of a message in a list: the date is that of the header, or
/// that of the server where the header has none.
pub open spec fn summary_of(fetched: Fetched, uid: u32, envelope: EnvelopeView) -> SummaryView {
    let flags = views(fetched.flags@);
    SummaryView {
        uid,
        subject: text_or(envelope.subject, "Без темы"@),
        from_name: text_or(envelope.from_name, ""@),
        from_address: text_or(envelope.from_address, ""@),
        date: match envelope.date {
            Some(date) => date,
            None => match fetched.internal_date {
                Some(date) => date,
                None => 0,
            },
        },
        seen: flags.contains(FlagView::Seen),
        flagged: flags.contains(FlagView::Flagged),
        labels: labels_of(flags),
        size: match fetched.size {
            Some(size) => size,
            None => 0,
        },
        has_attachments: fetched.body_structure matches Some(body) && has_attachment(body),
    }
}

fn read_labels_of(flags: &Vec<Flag>) -> (labels: Vec<String>)
    ensures
        texts(labels@) == labels_of(views(flags@)),
{
    let ghost all = views(flags@);
    let mut labels: Vec<String> = Vec::new();
    let mut i: usize = 0;
    assert(texts(labels@) == labels_of(all.take(0)));
    while i < flags.len()
        invariant
            i <= flags@.len(),
            all == views(flags@),
            texts(labels@) == labels_of(all.take(i as int)),
        decreases flags@.len() - i,
    {
        let ghost before = texts(labels@);
        assert(all.take(i + 1).drop_last() == all.take(i as int));
        assert(all.take(i + 1).last() == flags@[i as int]@);
        match label_in(&flags[i]) {
            Some(label) => {
                labels.push(label);
                assert(texts(labels@) == before.push(label@));
            },
            None => {},
        }
        i += 1;
    }
    assert(all.take(all.len() as int) == all);
    labels
}

fn has_seen(flags: &Vec<Flag>) -> (found: bool)
    ensures
        found == views(flags@).contains(FlagView::Seen),
{
    let ghost all = views(flags@);
    let mut i: usize = 0;
    while i < flags.len()
        invariant
            i <= flags@.len(),
            all == views(flags@),
            forall|k: int| 0 <= k < i ==> #[trigger] all[k] != FlagView::Seen,
        decreases flags@.len() - i,
    {
        assert(all[i as int] == flags@[i as int]@);
        match flags[i] {
            Flag::Seen => {
                return true;
            },
            _ => {},
        }
        i += 1;
    }
    false
}

fn has_flagged(flags: &Vec<Flag>) -> (found: bool)
    ensures
        found == views(flags@).contains(FlagView::Flagged),
{
    let ghost all = views(flags@);
    let mut i: usize = 0;
    while i < flags.len()
        invariant
            i <= flags@.len(),
            all == views(flags@),
            forall|k: int| 0 <= k < i ==> #[trigger] all[k] != FlagView::Flagged,
        decreases flags@.len() - i,
    {
        assert(all[i as int] == flags@[i as int]@);
        match flags[i] {
            Flag::Flagged => {
                return true;
            },
            _ => {},
        }
        i += 1;
    }
    false
}

/// What is shown in a list of a message whose header has been taken apart; an
/// error where it is no header, or where the server did not say which message
/// it is.
pub fn summary_from(fetched: &Fetched, envelope: Option<Envelope>) -> (summary: Result<
    MessageSummary,
    String,
>)
    ensures
        summary is Ok <==> envelope is Some && fetched.uid is Some,
        summary matches Ok(s) ==> s@ == summary_of(*fetched, fetched.uid->0, envelope->0@),
        summary matches Ok(s) ==> tells_truth(s@, *fetched, envelope->0@),
        summary matches Err(e) ==> e@ == (if envelope is None {
            "Не удалось разобрать заголовок письма"@
        } else {
            "Сервер не вернул UID письма"@
        }),
{
    let envelope = match envelope {
        Some(e) => e,
        None => {
            return Err("Не удалось разобрать заголовок письма".to_owned());
        },
    };
    let uid: u32 = match fetched.uid {
        Some(uid) => uid,
        None => {
            return Err("Сервер не вернул UID письма".to_owned());
        },
    };
    let date: i64 = match envelope.date {
        Some(date) => date,
        None => match fetched.internal_date {
            Some(date) => date,
            None => 0,
        },
    };
    proof {
        summaries_tell_the_truth(*fetched, uid, envelope@);
    }
    Ok(
        MessageSummary {
            uid,
            subject: or_text(envelope.subject, "Без темы"),
            from_name: or_text(envelope.from_name, ""),
            from_address: or_text(envelope.from_address, ""),
            date,
            seen: has_seen(&fetched.flags),
            flagged: has_flagged(&fetched.flags),
            labels: read_labels_of(&fetched.flags),
            size: match fetched.size {
                Some(size) => size,
                None => 0,
            },
            has_attachments: match &fetched.body_structure {
                Some(body) => bodystructure_has_attachments(body),
                None => false,
            },
        },
    )
}

/// What is shown of a message in a list, from its header; an error where the
/// bytes are no header, or where the server did not say which message it is.
pub fn parse_summary(fetched: &Fetched, raw_header: &[u8]) -> (summary: Result<
    MessageSummary,
    String,
>)
    ensures
        summary is Ok <==> is_message(raw_header@) && fetched.uid is Some,
        summary matches Ok(s) ==> s@ == summary_of(
            *fetched,
            fetched.uid->0,
            envelope_of(raw_header@),
        ),
        summary matches Ok(s) ==> tells_truth(s@, *fetched, envelope_of(raw_header@)),
        summary matches Err(e) ==> e@ == (if !is_message(raw_header@) {
            "Не удалось разобрать заголовок письма"@
        } else {
            "Сервер не вернул UID письма"@
        }),
{
    summary_from(fetched, parse_envelope(raw_header))
}

// ---------------------------------------------------------------------------
// Whole messages
// ---------------------------------------------------------------------------

/// The first of the messages that the server sent that could be read.
pub open spec fn first_received(fetched: Seq<Option<Fetched>>) -> Option<Fetched>
    decreases fetched.len(),
{
    if fetched.len() == 0 {
        None
    } else if fetched[0] is Some {
        fetched[0]
    } else {
        first_received(fetched.drop_first())
    }
}

/// Takes the first of the messages that the server sent that could be read.
pub fn first_fetched(fetched: Vec<Option<Fetched>>) -> (first: Option<Fetched>)
    ensures
        first == first_received(fetched@),
{
    let ghost all = fetched@;
    assert(all.skip(0) == all);
    for item in it: fetched
        invariant
            it.seq() == fetched@,
            all == fetched@,
            first_received(all) == first_received(all.skip(it.index() as int)),
    {
        assert(all.skip(it.index() as int)[0] == item);
        assert(all.skip(it.index() as int).drop_first() == all.skip(it.index() + 1));
        if item.is_some() {
            return item;
        }
    }
    None
}

/// The addresses that are known, in their order.
pub open spec fn known_addresses(addresses: Seq<Option<Seq<char>>>) -> Seq<Seq<char>>
    decreases addresses.len(),
{
    if addresses.len() == 0 {
        Seq::empty()
    } else {
        let before = known_addresses(addresses.drop_last());
        match addresses.last() {
            Some(address) => before.push(address),
            None => before,
        }
    }
}

/// A message as it is read.
pub open spec fn detail_view(
    summary: SummaryView,
    content: ContentView,
    parts: Seq<PartView>,
) -> DetailView {
    DetailView {
        summary,
        to: joined(known_addresses(content.to), ", "@),
        body_text: content.text,
        body_html: content.html,
        attachments: shown_attachments(parts),
    }
}

fn collect_addresses(addresses: Vec<Option<String>>) -> (known: Vec<String>)
    ensures
        texts(known@) == known_addresses(
            addresses@.map_values(|address: Option<String>| text_of(address)),
        ),
{
    let ghost all = addresses@.map_values(|address: Option<String>| text_of(address));
    let mut known: Vec<String> = Vec::new();
    assert(texts(known@) == known_addresses(all.take(0)));
    for address in it: addresses
        invariant
            it.seq() == addresses@,
            all == addresses@.map_values(|address: Option<String>| text_of(address)),
            texts(known@) == known_addresses(all.take(it.index() as int)),
    {
        let ghost before = texts(known@);
        let ghost i = it.index() as int;
        assert(all.take(i + 1).drop_last() == all.take(i));
        assert(all.take(i + 1).last() == text_of(address));
        match address {
            Some(text) => {
                known.push(text);
                assert(texts(known@) == before.push(text@));
            },
            None => {},
        }
    }
    assert(all.take(all.len() as int) == all);
    known
}

/// A message as it is read, from what it was taken apart into.
pub fn detail_from(summary: MessageSummary, content: Content, parts: &Vec<Part>) -> (detail:
    MessageDetail)
    ensures
        detail@ == detail_view(summary@, content@, views(parts@)),
        detail.summary@ == summary@,
        text_of(detail.body_text) == text_of(content.text),
        text_of(detail.body_html) == text_of(content.html),
        shows_attachments(detail@, views(parts@)),
{
    proof {
        attachments_are_shown(views(parts@));
    }
    let addresses = collect_addresses(content.to);
    MessageDetail {
        summary,
        to: join(&addresses, ", "),
        body_text: content.text,
        body_html: content.html,
        attachments: attachments_from(parts),
    }
}

/// What a message that the server sent is read as, or the reason why it cannot
/// be read.
pub open spec fn is_detail_of(
    detail: Result<MessageDetail, String>,
    fetched: Option<Fetched>,
) -> bool {
    match fetched {
        None => detail matches Err(e) && e@ == "Письмо не найдено"@,
        Some(f) => match f.body {
            None => detail matches Err(e) && e@ == "Сервер не вернул письмо"@,
            Some(raw) => if !is_message(raw@) {
                detail matches Err(e) && e@ == "Не удалось разобрать письмо"@
            } else if f.uid is None {
                detail matches Err(e) && e@ == "Сервер не вернул UID письма"@
            } else {
                detail matches Ok(d) && d@ == detail_view(
                    summary_of(f, f.uid->0, envelope_of(raw@)),
                    content_of(raw@),
                    parts_of(raw@),
                )
            },
        },
    }
}

/// Reads a message that the server sent.
pub fn message_detail(fetched: Vec<Option<Fetched>>) -> (detail: Result<MessageDetail, String>)
    ensures
        is_detail_of(detail, first_received(fetched@)),
        detail matches Ok(d) ==> {
            let first = first_received(fetched@)->0;
            let raw = first.body->0@;
            &&& text_of(d.body_text) == content_of(raw).text
            &&& text_of(d.body_html) == content_of(raw).html
            &&& tells_truth(d.summary@, first, envelope_of(raw))
            &&& shows_attachments(d@, parts_of(raw))
        },
{
    let first = match first_fetched(fetched) {
        Some(first) => first,
        None => {
            return Err("Письмо не найдено".to_owned());
        },
    };
    match &first.body {
        Some(raw) => {
            let content = match parse_content(raw.as_slice()) {
                Some(content) => content,
                None => {
                    return Err("Не удалось разобрать письмо".to_owned());
                },
            };
            let parts = match parse_parts(raw.as_slice()) {
                Some(parts) => parts,
                None => {
                    return Err("Не удалось разобрать письмо".to_owned());
                },
            };
            match parse_summary(&first, raw.as_slice()) {
                Ok(summary) => Ok(detail_from(summary, content, &parts)),
                Err(error) => Err(error),
            }
        },
        None => Err("Сервер не вернул письмо".to_owned()),
    }
}

/// The bytes of a message that the server sent.
pub fn raw_message(fetched: Vec<Option<Fetched>>) -> (raw: Result<Vec<u8>, String>)
    ensures
        match first_received(fetched@) {
            Some(f) => match f.body {
                Some(body) => raw == Ok::<Vec<u8>, String>(body),
                None => raw matches Err(e) && e@ == "Письмо не найдено"@,
            },
            None => raw matches Err(e) && e@ == "Письмо не найдено"@,
        },
{
    match first_fetched(fetched) {
        Some(first) => match first.body {
            Some(body) => Ok(body),
            None => Err("Письмо не найдено".to_owned()),
        },
        None => Err("Письмо не найдено".to_owned()),
    }
}

} // verus!
