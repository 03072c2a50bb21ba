//! Received messages, as the crate `mail_parser` takes them apart.

use crate::text::text_of;
use mail_parser::MimeHeaders;
use vstd::prelude::*;

verus! {

/// What the header of a message says.
#[derive(Debug)]
pub struct Envelope {
    pub subject: Option<String>,
    pub from_name: Option<String>,
    pub from_address: Option<String>,
    pub date: Option<i64>,
}

/// What an envelope stands for.
#[verifier::ext_equal]
pub struct EnvelopeView {
    pub subject: Option<Seq<char>>,
    pub from_name: Option<Seq<char>>,
    pub from_address: Option<Seq<char>>,
    pub date: Option<i64>,
}

impl View for Envelope {
    type V = EnvelopeView;

    open spec fn view(&self) -> EnvelopeView {
        EnvelopeView {
            subject: text_of(self.subject),
            from_name: text_of(self.from_name),
            from_address: text_of(self.from_address),
            date: self.date,
        }
    }
}

/// To whom a message goes, and what it says.
#[derive(Debug)]
pub struct Content {
    pub to: Vec<Option<String>>,
    pub text: Option<String>,
    pub html: Option<String>,
}

/// What a content stands for.
#[verifier::ext_equal]
pub struct ContentView {
    pub to: Seq<Option<Seq<char>>>,
    pub text: Option<Seq<char>>,
    pub html: Option<Seq<char>>,
}

impl View for Content {
    type V = ContentView;

    open spec fn view(&self) -> ContentView {
        ContentView {
            to: self.to@.map_values(|address: Option<String>| text_of(address)),
            text: text_of(self.text),
            html: text_of(self.html),
        }
    }
}

/// The type of a part.
#[derive(Debug)]
pub struct PartType {
    pub kind: String,
    pub subtype: Option<String>,
}

/// An attached part of a message.
#[derive(Debug)]
pub struct Part {
    pub content_type: Option<PartType>,
    pub name: Option<String>,
    pub contents: Vec<u8>,
}

/// What the type of a part stands for.
#[verifier::ext_equal]
pub struct PartTypeView {
    pub kind: Seq<char>,
    pub subtype: Option<Seq<char>>,
}

/// What a part stands for.
#[verifier::ext_equal]
pub struct PartView {
    pub content_type: Option<PartTypeView>,
    pub name: Option<Seq<char>>,
    pub contents: Seq<u8>,
}

impl View for PartType {
    type V = PartTypeView;

    open spec fn view(&self) -> PartTypeView {
        PartTypeView { kind: self.kind@, subtype: text_of(self.subtype) }
    }
}

/// What an optional type stands for.
pub open spec fn type_of(content_type: Option<PartType>) -> Option<PartTypeView> {
    match content_type {
        Some(t) => Some(t@),
        None => None,
    }
}

impl View for Part {
    type V = PartView;

    open spec fn view(&self) -> PartView {
        PartView {
            content_type: type_of(self.content_type),
            name: text_of(self.name),
            contents: self.contents@,
        }
    }
}

/// Whether `MessageParser::parse` takes bytes for a message.
pub uninterp spec fn is_message(raw: Seq<u8>) -> bool;

/// What `Message::subject`, `from` and `date` say of a message: the name and
/// the address are those of the first sender, the date is in seconds since
/// 1970.
pub uninterp spec fn envelope_of(raw: Seq<u8>) -> EnvelopeView;

/// What `Message::to`, `body_text` and `body_html` say of a message: the
/// addresses of all recipients, and the first body as text and as HTML.
pub uninterp spec fn content_of(raw: Seq<u8>) -> ContentView;

/// What `Message::attachments` says of a message.
pub uninterp spec fn parts_of(raw: Seq<u8>) -> Seq<PartView>;

/// `MessageParser::parse` and then `Message::subject`, `from` and `date`: what
/// they return is a function of the bytes.
#[verifier::external_body]
pub(crate) fn parse_envelope(raw: &[u8]) -> (envelope: Option<Envelope>)
    ensures
        envelope is Some <==> is_message(raw@),
        envelope matches Some(e) ==> e@ == envelope_of(raw@),
{
    let message = mail_parser::MessageParser::default().parse(raw)?;
    let first = message.from().and_then(|address| address.first());
    Some(Envelope {
        subject: message.subject().map(str::to_string),
        from_name: first.and_then(|address| address.name.as_deref()).map(str::to_string),
        from_address: first.and_then(|address| address.address.as_deref()).map(str::to_string),
        date: message.date().map(|date| date.to_timestamp()),
    })
}

/// `MessageParser::parse` and then `Message::to`, `body_text` and `body_html`:
/// what they return is a function of the bytes. A message without recipients
/// has an empty list of them.
#[verifier::external_body]
pub(crate) fn parse_content(raw: &[u8]) -> (content: Option<Content>)
    ensures
        content is Some <==> is_message(raw@),
        content matches Some(c) ==> c@ == content_of(raw@),
{
    let message = mail_parser::MessageParser::default().parse(raw)?;
    let to = message.to().map(|list| {
        list.iter().map(|address| address.address.as_deref().map(str::to_string)).collect()
    });
    Some(Content {
        to: to.unwrap_or_default(),
        text: message.body_text(0).map(|value| value.to_string()),
        html: message.body_html(0).map(|value| value.to_string()),
    })
}

/// `MessageParser::parse` and then `Message::attachments`, with the content
/// type, the attachment name and the contents of each part: what they return is
/// a function of the bytes.
#[verifier::external_body]
pub(crate) fn parse_parts(raw: &[u8]) -> (parts: Option<Vec<Part>>)
    ensures
        parts is Some <==> is_message(raw@),
        parts matches Some(p) ==> crate::text::views(p@) == parts_of(raw@),
{
    let message = mail_parser::MessageParser::default().parse(raw)?;
    let parts = message.attachments().map(|part| Part {
        content_type: part.content_type().map(|value| PartType {
            kind: value.c_type.to_string(),
            subtype: value.c_subtype.as_deref().map(str::to_string),
        }),
        name: part.attachment_name().map(str::to_string),
        contents: part.contents().to_vec(),
    });
    Some(parts.collect())
}

} // verus!
