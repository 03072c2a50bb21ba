//! Letters that are sent, as the crate `lettre` builds them.

use lettre::message::{MessageBuilder, MultiPart, SinglePart};
use lettre::message::header::ContentType;
use vstd::prelude::*;
use vstd::string::*;

verus! {

/// The type `lettre::message::MessageBuilder`: the head of a letter.
#[verifier::external_type_specification]
#[verifier::external_body]
pub struct ExMessageBuilder(lettre::message::MessageBuilder);

/// The type `lettre::message::MultiPart`: a collection of the parts of a
/// letter.
#[verifier::external_type_specification]
#[verifier::external_body]
pub struct ExMultiPart(lettre::message::MultiPart);

/// The type `lettre::Message`: a letter that can be sent.
#[verifier::external_type_specification]
#[verifier::external_body]
pub struct ExMessage(lettre::Message);

// ---------------------------------------------------------------------------
// Addresses
// ---------------------------------------------------------------------------

/// Whether `str::parse` takes a text for a `lettre::message::Mailbox`.
pub uninterp spec fn is_mailbox(text: Seq<char>) -> bool;

/// `str::parse` to a `lettre::message::Mailbox`: whether it succeeds is a
/// function of the text.
#[verifier::external_body]
pub(crate) fn parses_as_mailbox(text: &str) -> (parses: bool)
    ensures
        parses == is_mailbox(text@),
{
    text.parse::<lettre::message::Mailbox>().is_ok()
}

/// The characters of a bare address.
pub open spec fn is_bare_char(c: char) -> bool {
    ||| 'A' <= c <= 'Z'
    ||| 'a' <= c <= 'z'
    ||| '0' <= c <= '9'
    ||| c == '.'
    ||| c == '_'
    ||| c == '-'
    ||| c == '@'
}

/// Whether a text is a mailbox without a name whose address is made of
/// letters, digits and a few signs only.
pub open spec fn is_bare(text: Seq<char>) -> bool {
    is_mailbox(text) && forall|i: int| 0 <= i < text.len() ==> is_bare_char(#[trigger] text[i])
}

/// Whether all texts are bare addresses.
pub open spec fn are_bare(list: Seq<Seq<char>>) -> bool {
    forall|i: int| 0 <= i < list.len() ==> is_bare(#[trigger] list[i])
}

// ---------------------------------------------------------------------------
// The head of a letter
// ---------------------------------------------------------------------------

/// What the head of a letter says: from whom it is, to whom it goes, and its
/// subject. Mailboxes are in the form in which the crate shows them.
#[verifier::ext_equal]
pub struct LetterHead {
    pub from: Seq<Seq<char>>,
    pub to: Seq<Seq<char>>,
    pub subject: Option<Seq<char>>,
}

/// What the headers `From`, `To` and `Subject` of a `MessageBuilder` are read
/// as; headers that are missing, or that cannot be read, hold nothing.
pub uninterp spec fn head_of(builder: MessageBuilder) -> LetterHead;

/// Whether a `MessageBuilder` has been given one `From`, a `Subject` and any
/// number of `To`, and nothing else.
pub uninterp spec fn is_simple(builder: MessageBuilder) -> bool;

/// What the header `From` is read as that `MessageBuilder::from` writes for a
/// mailbox.
pub uninterp spec fn sent_by(from: Seq<char>) -> Seq<Seq<char>>;

/// What the header `To` is read as that `MessageBuilder::to` writes for the
/// mailboxes that are addressed already and for one more.
pub uninterp spec fn addressed(to: Seq<Seq<char>>, more: Seq<char>) -> Seq<Seq<char>>;

/// `Message::builder` with `from` and `subject`: nobody is addressed yet, the
/// subject is the given one, and what the header `From` is read as is a
/// function of the sender. A bare address is read as itself; for other senders
/// it is left unsaid what the header is read as.
#[verifier::external_body]
pub(crate) fn new_letter(from: &str, subject: &str) -> (builder: MessageBuilder)
    requires
        is_mailbox(from@),
    ensures
        is_simple(builder),
        head_of(builder).from == sent_by(from@),
        head_of(builder).to == Seq::<Seq<char>>::empty(),
        head_of(builder).subject == Some(subject@),
        is_bare(from@) ==> head_of(builder).from == seq![from@],
{
    lettre::Message::builder().from(from.parse().unwrap()).subject(subject)
}

/// `MessageBuilder::to`: the crate reads the header that it has written, puts
/// the mailbox behind those that it finds, and writes them all, so that what
/// the header is read as then is a function of what it was read as before, and
/// of the mailbox. Where all of them are bare addresses the new one stands
/// behind the others; for other mailboxes it is left unsaid what the header is
/// read as. The rest of the head stays.
#[verifier::external_body]
pub(crate) fn add_recipient(builder: MessageBuilder, to: &str) -> (more: MessageBuilder)
    requires
        is_mailbox(to@),
    ensures
        is_simple(builder) ==> is_simple(more),
        head_of(more).from == head_of(builder).from,
        head_of(more).to == addressed(head_of(builder).to, to@),
        head_of(more).subject == head_of(builder).subject,
        is_bare(to@) && are_bare(head_of(builder).to) ==> head_of(more).to == head_of(
            builder,
        ).to.push(to@),
{
    builder.to(to.parse().unwrap())
}

// ---------------------------------------------------------------------------
// The parts of a letter
// ---------------------------------------------------------------------------

/// A part of a letter; parts that are alternatives of each other are one part.
#[verifier::ext_equal]
pub enum LetterPart {
    Alternatives(Seq<LetterPart>),
    Text(Seq<char>),
    Html(Seq<char>),
    File { name: Seq<char>, content_type: Seq<char>, contents: Seq<u8> },
}

/// What the parts in a `MultiPart` hold, in their order.
pub uninterp spec fn parts_in(body: MultiPart) -> Seq<LetterPart>;

/// A text with a carriage return in front of every line feed that has none.
pub open spec fn with_crlf(text: Seq<char>) -> Seq<char>
    decreases text.len(),
{
    if text.len() == 0 {
        text
    } else {
        let before = text.drop_last();
        if text.last() == '\n' && !(before.len() > 0 && before.last() == '\r') {
            with_crlf(before).push('\r').push('\n')
        } else {
            with_crlf(before).push(text.last())
        }
    }
}

/// `MultiPart::mixed` around `MultiPart::alternative` with one `SinglePart` of
/// plain text: the one part has the text as its only alternative, with the line
/// ends of mail.
#[verifier::external_body]
pub(crate) fn text_body(text: String) -> (body: MultiPart)
    ensures
        parts_in(body) == seq![
            LetterPart::Alternatives(seq![LetterPart::Text(with_crlf(text@))]),
        ],
{
    let plain = SinglePart::builder().header(ContentType::TEXT_PLAIN).body(text);
    MultiPart::mixed().multipart(MultiPart::alternative().singlepart(plain))
}

/// `MultiPart::mixed` around `MultiPart::alternative` with a `SinglePart` of
/// plain text and one of HTML: the one part has both texts as alternatives, with
/// the line ends of mail.
#[verifier::external_body]
pub(crate) fn html_body(text: String, html: String) -> (body: MultiPart)
    ensures
        parts_in(body) == seq![
            LetterPart::Alternatives(
                seq![LetterPart::Text(with_crlf(text@)), LetterPart::Html(with_crlf(html@))],
            ),
        ],
{
    let plain = SinglePart::builder().header(ContentType::TEXT_PLAIN).body(text);
    let rich = SinglePart::builder().header(ContentType::TEXT_HTML).body(html);
    MultiPart::mixed().multipart(MultiPart::alternative().singlepart(plain).singlepart(rich))
}

/// `MultiPart::singlepart` with a `lettre::message::Attachment`: the file is
/// put behind the parts that are there.
#[verifier::external_body]
pub(crate) fn attach(
    body: MultiPart,
    name: String,
    content_type: &str,
    contents: Vec<u8>,
) -> (more: MultiPart)
    requires
        content_type@ == "application/octet-stream"@,
    ensures
        parts_in(more) == parts_in(body).push(
            LetterPart::File {
                name: name@,
                content_type: content_type@,
                contents: contents@,
            },
        ),
{
    let content_type = ContentType::parse(content_type).unwrap();
    body.singlepart(lettre::message::Attachment::new(name).body(contents, content_type))
}

// ---------------------------------------------------------------------------
// The whole letter
// ---------------------------------------------------------------------------

/// What a letter holds.
#[verifier::ext_equal]
pub struct Letter {
    pub head: LetterHead,
    pub parts: Seq<LetterPart>,
}

/// What the head and the parts of a `lettre::Message` hold.
pub uninterp spec fn letter_of(message: lettre::Message) -> Letter;

/// Whether a head has what a letter needs: one sender, and somebody to whom it
/// goes.
pub open spec fn is_complete(head: LetterHead) -> bool {
    head.from.len() == 1 && head.to.len() > 0
}

/// What `lettre` says of a head that lacks something.
pub open spec fn lack_of(head: LetterHead) -> Seq<char> {
    if head.from.len() == 0 {
        "missing source address, invalid envelope"@
    } else if head.from.len() > 1 {
        "there can only be one source address"@
    } else {
        "missing destination address, invalid envelope"@
    }
}

/// `MessageBuilder::multipart`, of a builder that has been given one `From`, a
/// `Subject` and `To` alone: a letter with the head and the parts, where the
/// head has what a letter needs, and else the text of an error. The date and
/// the boundaries between the parts differ from call to call; nothing is said
/// of them.
#[verifier::external_body]
pub(crate) fn finish_letter(builder: MessageBuilder, body: MultiPart) -> (letter: Result<
    lettre::Message,
    String,
>)
    requires
        is_simple(builder),
    ensures
        letter is Ok <==> is_complete(head_of(builder)),
        letter matches Ok(message) ==> letter_of(message) == (Letter {
            head: head_of(builder),
            parts: parts_in(body),
        }),
        letter matches Err(error) ==> error@ == lack_of(head_of(builder)),
{
    builder.multipart(body).map_err(|error| error.to_string())
}

} // verus!
