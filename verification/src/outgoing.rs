//! How a letter is made: who it goes to is checked, and the files that are
//! attached are looked at and read, one after another.
//!
//! A step says what is to be done and what goes on with the outcome.

use crate::codec::{names_file, path_file_name};
use crate::letter::{
    add_recipient, addressed, are_bare, attach, finish_letter, head_of, html_body, is_bare,
    is_complete, is_mailbox, is_simple, lack_of, letter_of, new_letter, parses_as_mailbox,
    parts_in, sent_by, text_body, with_crlf, Letter, LetterHead, LetterPart,
};
use crate::model::OutgoingMessage;
use crate::text::{
    breaks_line, chars_of, has_line_break, prefixed, string_of, text_of, texts, trim, trimmed,
};
use lettre::message::{MessageBuilder, MultiPart};
use vstd::prelude::*;
use vstd::string::*;

verus! {

broadcast use vstd::string::group_string_axioms;

/// The most that may be attached to a letter, in bytes: twenty-five mebibytes.
pub const ATTACHED_LIMIT: u64 = 26_214_400;

// ---------------------------------------------------------------------------
// Recipients
// ---------------------------------------------------------------------------

/// The characters between addresses.
pub open spec fn separates(c: char) -> bool {
    c == ',' || c == ';'
}

/// The pieces of a text between separators, the empty ones too.
pub open spec fn pieces(text: Seq<char>) -> Seq<Seq<char>>
    decreases text.len(),
{
    if text.len() == 0 {
        seq![Seq::empty()]
    } else {
        let before = pieces(text.drop_last());
        if separates(text.last()) {
            before.push(Seq::empty())
        } else {
            before.drop_last().push(before.last().push(text.last()))
        }
    }
}

/// Whether something is left of a text without the white space around it.
pub open spec fn is_not_blank() -> spec_fn(Seq<char>) -> bool {
    |text: Seq<char>| trimmed(text).len() > 0
}

/// The addresses in a text, without the white space around them.
pub open spec fn addresses_in(text: Seq<char>) -> Seq<Seq<char>> {
    pieces(text).filter(is_not_blank()).map_values(|piece: Seq<char>| trimmed(piece))
}

fn split_pieces(text: &str) -> (split: Vec<String>)
    ensures
        texts(split@) == pieces(text@),
{
    let chars = chars_of(text);
    let mut split: Vec<String> = Vec::new();
    let mut current: Vec<char> = Vec::new();
    let mut i: usize = 0;
    assert(chars@.take(0) == Seq::<char>::empty());
    assert(texts(split@).push(current@) == pieces(chars@.take(0)));
    while i < chars.len()
        invariant
            i <= chars@.len(),
            texts(split@).push(current@) == pieces(chars@.take(i as int)),
        decreases chars@.len() - i,
    {
        let ghost before = texts(split@);
        let ghost piece = current@;
        let c = chars[i];
        assert(chars@.take(i + 1).drop_last() == chars@.take(i as int));
        assert(chars@.take(i + 1).last() == c);
        assert(before.push(piece).drop_last() == before);
        if c == ',' || c == ';' {
            let done = string_of(&current);
            split.push(done);
            current = Vec::new();
            assert(texts(split@) == before.push(piece));
            assert(current@ == Seq::<char>::empty());
        } else {
            current.push(c);
        }
        i += 1;
    }
    assert(chars@.take(chars@.len() as int) == chars@);
    let ghost before = texts(split@);
    let last = string_of(&current);
    split.push(last);
    assert(texts(split@) == before.push(last@));
    split
}

/// The addresses in a text, separated by commas and semicolons.
pub fn split_addresses(text: &str) -> (addresses: Vec<String>)
    ensures
        texts(addresses@) == addresses_in(text@),
{
    let split = split_pieces(text);
    let ghost all = texts(split@);
    let ghost trim_all = |piece: Seq<char>| trimmed(piece);
    let mut addresses: Vec<String> = Vec::new();
    assert(all.take(0).filter(is_not_blank()) == Seq::<Seq<char>>::empty()) by {
        reveal(Seq::filter);
    }
    assert(texts(addresses@) == all.take(0).filter(is_not_blank()).map_values(trim_all));
    let mut i: usize = 0;
    while i < split.len()
        invariant
            i <= split@.len(),
            all == texts(split@),
            trim_all == (|piece: Seq<char>| trimmed(piece)),
            texts(addresses@) == all.take(i as int).filter(is_not_blank()).map_values(trim_all),
        decreases split@.len() - i,
    {
        let ghost before = texts(addresses@);
        let ghost kept = all.take(i as int).filter(is_not_blank());
        proof {
            assert(all.take(i + 1) == all.take(i as int).push(split@[i as int]@));
            all.take(i as int).lemma_filter_push(split@[i as int]@, is_not_blank());
        }
        let short = trim(split[i].as_str());
        if !short.is_empty() {
            let address = short.to_owned();
            addresses.push(address);
            assert(texts(addresses@) == before.push(address@));
            assert(kept.push(split@[i as int]@).map_values(trim_all) == before.push(address@));
        }
        i += 1;
    }
    assert(all.take(all.len() as int) == all);
    addresses
}

/// The first address of a list that is none.
pub open spec fn first_bad(addresses: Seq<Seq<char>>) -> Option<Seq<char>>
    decreases addresses.len(),
{
    if addresses.len() == 0 {
        None
    } else if !is_mailbox(addresses[0]) {
        Some(addresses[0])
    } else {
        first_bad(addresses.drop_first())
    }
}

proof fn good_addresses(addresses: Seq<Seq<char>>)
    requires
        first_bad(addresses) is None,
    ensures
        forall|i: int| 0 <= i < addresses.len() ==> is_mailbox(#[trigger] addresses[i]),
    decreases addresses.len(),
{
    if addresses.len() > 0 {
        let rest = addresses.drop_first();
        good_addresses(rest);
        assert forall|i: int| 0 <= i < addresses.len() implies is_mailbox(
            #[trigger] addresses[i],
        ) by {
            if i > 0 {
                assert(rest[i - 1] == addresses[i]);
            }
        }
    }
}

fn find_bad(addresses: &Vec<String>) -> (bad: Option<usize>)
    ensures
        match bad {
            Some(i) => i < addresses@.len() && first_bad(texts(addresses@)) == Some(
                addresses@[i as int]@,
            ),
            None => first_bad(texts(addresses@)) is None,
        },
{
    let ghost all = texts(addresses@);
    let mut i: usize = 0;
    assert(all.skip(0) == all);
    while i < addresses.len()
        invariant
            i <= addresses@.len(),
            all == texts(addresses@),
            first_bad(all) == first_bad(all.skip(i as int)),
        decreases addresses@.len() - i,
    {
        assert(all.skip(i as int)[0] == addresses@[i as int]@);
        assert(all.skip(i as int).drop_first() == all.skip(i + 1));
        if !parses_as_mailbox(addresses[i].as_str()) {
            return Some(i);
        }
        i += 1;
    }
    None
}

// ---------------------------------------------------------------------------
// Steps
// ---------------------------------------------------------------------------

/// The next step of making a letter.
#[allow(inconsistent_fields)]
#[derive(Debug)]
pub enum LetterStep {
    /// Look how large a file is.
    Look { path: String, then: LetterLook },
    /// Read a file.
    Read { path: String, then: LetterRead },
    /// The letter can be sent.
    Done { message: lettre::Message },
    /// The letter cannot be made.
    Failed(String),
}

/// Goes on when it is known how large a file is.
#[derive(Debug)]
pub struct LetterLook {
    builder: MessageBuilder,
    body: MultiPart,
    attached: u64,
    path: String,
    rest: Vec<String>,
}

/// What a letter holds whose next file is looked at: its head and its parts so
/// far, how much is attached, the path of the file, and the paths behind it.
#[verifier::ext_equal]
pub struct LetterLookView {
    pub head: LetterHead,
    pub parts: Seq<LetterPart>,
    pub attached: u64,
    pub path: Seq<char>,
    pub rest: Seq<Seq<char>>,
}

impl View for LetterLook {
    type V = LetterLookView;

    closed spec fn view(&self) -> LetterLookView {
        LetterLookView {
            head: head_of(self.builder),
            parts: parts_in(self.body),
            attached: self.attached,
            path: self.path@,
            rest: texts(self.rest@),
        }
    }
}

/// Goes on when a file is read.
#[derive(Debug)]
pub struct LetterRead {
    builder: MessageBuilder,
    body: MultiPart,
    attached: u64,
    path: String,
    name: String,
    rest: Vec<String>,
}

/// What a letter holds whose next file is read: its head and its parts so far,
/// how much is attached together with the file, the path of the file, the name
/// under which it is attached, and the paths behind it.
#[verifier::ext_equal]
pub struct LetterReadView {
    pub head: LetterHead,
    pub parts: Seq<LetterPart>,
    pub attached: u64,
    pub path: Seq<char>,
    pub name: Seq<char>,
    pub rest: Seq<Seq<char>>,
}

impl View for LetterRead {
    type V = LetterReadView;

    closed spec fn view(&self) -> LetterReadView {
        LetterReadView {
            head: head_of(self.builder),
            parts: parts_in(self.body),
            attached: self.attached,
            path: self.path@,
            name: self.name@,
            rest: texts(self.rest@),
        }
    }
}

impl LetterLook {
    #[verifier::type_invariant]
    spec fn is_well_made(self) -> bool {
        is_simple(self.builder)
    }
}

impl LetterRead {
    #[verifier::type_invariant]
    spec fn is_well_made(self) -> bool {
        is_simple(self.builder)
    }
}

/// Whether a step is a failure with a text.
pub open spec fn letter_fails(step: LetterStep, error: Seq<char>) -> bool {
    step matches LetterStep::Failed(e) && e@ == error
}

/// What goes on when the files so far are attached: the next file is looked
/// at, and where there is none the letter is done, or the crate says what its
/// head lacks.
pub open spec fn goes_on_with(
    step: LetterStep,
    head: LetterHead,
    parts: Seq<LetterPart>,
    attached: u64,
    rest: Seq<Seq<char>>,
) -> bool {
    if rest.len() > 0 {
        &&& step matches LetterStep::Look { path, then }
        &&& path@ == rest[0]
        &&& then@ == (LetterLookView {
            head,
            parts,
            attached,
            path: rest[0],
            rest: rest.drop_first(),
        })
    } else if is_complete(head) {
        step matches LetterStep::Done { message } && letter_of(message) == (Letter { head, parts })
    } else {
        letter_fails(step, "Не удалось подготовить письмо: "@ + lack_of(head))
    }
}

fn letter_failed(prefix: &str, text: &str) -> (step: LetterStep)
    ensures
        letter_fails(step, prefix@ + text@),
{
    LetterStep::Failed(prefixed(prefix, text))
}

fn go_on(builder: MessageBuilder, body: MultiPart, attached: u64, rest: Vec<String>) -> (step:
    LetterStep)
    requires
        is_simple(builder),
    ensures
        goes_on_with(step, head_of(builder), parts_in(body), attached, texts(rest@)),
{
    if rest.len() == 0 {
        return match finish_letter(builder, body) {
            Ok(message) => LetterStep::Done { message },
            Err(error) => letter_failed("Не удалось подготовить письмо: ", error.as_str()),
        };
    }
    let ghost all = texts(rest@);
    let mut rest = rest;
    let path = rest.remove(0);
    assert(path@ == all[0]);
    assert(texts(rest@) == all.drop_first());
    let asked = path.as_str().to_owned();
    LetterStep::Look { path: asked, then: LetterLook { builder, body, attached, path, rest } }
}

/// What the header `To` is read as when mailboxes have been addressed one after
/// another.
pub open spec fn all_addressed(to: Seq<Seq<char>>) -> Seq<Seq<char>>
    decreases to.len(),
{
    if to.len() == 0 {
        Seq::empty()
    } else {
        addressed(all_addressed(to.drop_last()), to.last())
    }
}

/// The head of a letter for a sender, recipients and a subject.
pub open spec fn head_for(
    from: Seq<char>,
    to: Seq<Seq<char>>,
    subject: Seq<char>,
) -> LetterHead {
    LetterHead { from: sent_by(from), to: all_addressed(to), subject: Some(subject) }
}

/// Whether bare addresses stand in the head of a letter as they are: the one
/// of the sender, and those of the recipients where all of them are bare.
pub open spec fn shows_bare(head: LetterHead, from: Seq<char>, to: Seq<Seq<char>>) -> bool {
    &&& is_bare(from) ==> head.from == seq![from]
    &&& are_bare(to) ==> head.to == to
}

fn address_letter(from: &str, to: &Vec<String>, subject: &str) -> (builder: MessageBuilder)
    requires
        is_mailbox(from@),
        forall|i: int| 0 <= i < to@.len() ==> is_mailbox((#[trigger] texts(to@)[i])),
    ensures
        is_simple(builder),
        head_of(builder) == head_for(from@, texts(to@), subject@),
        shows_bare(head_of(builder), from@, texts(to@)),
{
    let ghost all = texts(to@);
    let mut builder = new_letter(from, subject);
    let mut i: usize = 0;
    assert(all.take(0) == Seq::<Seq<char>>::empty());
    while i < to.len()
        invariant
            i <= to@.len(),
            all == texts(to@),
            forall|k: int| 0 <= k < to@.len() ==> is_mailbox((#[trigger] texts(to@)[k])),
            is_simple(builder),
            head_of(builder) == head_for(from@, all.take(i as int), subject@),
            is_bare(from@) ==> head_of(builder).from == seq![from@],
            are_bare(all) ==> head_of(builder).to == all.take(i as int),
        decreases to@.len() - i,
    {
        assert(all[i as int] == to@[i as int]@);
        assert(all.take(i + 1) == all.take(i as int).push(all[i as int]));
        assert(all.take(i + 1).drop_last() == all.take(i as int));
        let ghost before = head_of(builder).to;
        proof {
            if are_bare(all) {
                assert forall|k: int| 0 <= k < before.len() implies is_bare(
                    #[trigger] before[k],
                ) by {
                    assert(before[k] == all[k]);
                }
            }
        }
        builder = add_recipient(builder, to[i].as_str());
        i += 1;
    }
    assert(all.take(all.len() as int) == all);
    builder
}

/// The part that a letter begins with: its text, with the same as HTML for an
/// alternative where there is any.
pub open spec fn written_parts(text: Seq<char>, html: Option<Seq<char>>) -> Seq<LetterPart> {
    let plain = LetterPart::Text(with_crlf(text));
    if html matches Some(h) && trimmed(h).len() > 0 {
        seq![LetterPart::Alternatives(seq![plain, LetterPart::Html(with_crlf(html->0))])]
    } else {
        seq![LetterPart::Alternatives(seq![plain])]
    }
}

fn write_parts(text: String, html: Option<String>) -> (body: MultiPart)
    ensures
        parts_in(body) == written_parts(text@, text_of(html)),
{
    match html {
        Some(h) => {
            if trim(h.as_str()).is_empty() {
                text_body(text)
            } else {
                html_body(text, h)
            }
        },
        None => text_body(text),
    }
}

/// What comes of a letter: an error for a letter to nobody, for a subject of
/// more than one line, for a sender or a recipient that is no address; and
/// else the files are attached.
pub open spec fn begins_letter(
    step: LetterStep,
    from: Seq<char>,
    outgoing: OutgoingMessage,
) -> bool {
    let to = addresses_in(outgoing.to@);
    if trimmed(outgoing.to@).len() == 0 || breaks_line(outgoing.subject@) {
        letter_fails(step, "Укажите получателя и корректную тему"@)
    } else if !is_mailbox(from) {
        letter_fails(step, "Некорректный адрес отправителя"@)
    } else if first_bad(to) is Some {
        letter_fails(step, "Некорректный адрес: "@ + first_bad(to)->0)
    } else if to.len() == 0 {
        letter_fails(step, "Укажите получателя"@)
    } else {
        let head = head_for(from, to, outgoing.subject@);
        &&& shows_bare(head, from, to)
        &&& goes_on_with(
            step,
            head,
            written_parts(outgoing.text@, text_of(outgoing.html)),
            0,
            texts(outgoing.attachments@),
        )
    }
}

/// Begins to make a letter.
pub fn build_outgoing(from_email: &str, outgoing: OutgoingMessage) -> (step: LetterStep)
    ensures
        begins_letter(step, from_email@, outgoing),
{
    if trim(outgoing.to.as_str()).is_empty() || has_line_break(outgoing.subject.as_str()) {
        return LetterStep::Failed("Укажите получателя и корректную тему".to_owned());
    }
    if !parses_as_mailbox(from_email) {
        return LetterStep::Failed("Некорректный адрес отправителя".to_owned());
    }
    let recipients = split_addresses(outgoing.to.as_str());
    match find_bad(&recipients) {
        Some(i) => {
            return letter_failed("Некорректный адрес: ", recipients[i].as_str());
        },
        None => {},
    }
    if recipients.len() == 0 {
        assert(addresses_in(outgoing.to@).len() == 0);
        return LetterStep::Failed("Укажите получателя".to_owned());
    }
    proof {
        good_addresses(texts(recipients@));
        assert(addresses_in(outgoing.to@).len() == recipients@.len());
    }
    let builder = address_letter(from_email, &recipients, outgoing.subject.as_str());
    let body = write_parts(outgoing.text, outgoing.html);
    go_on(builder, body, 0, outgoing.attachments)
}

/// A sum that stops at the greatest number.
pub open spec fn sum_at_most(a: u64, b: u64) -> u64 {
    if a + b > u64::MAX {
        u64::MAX
    } else {
        (a + b) as u64
    }
}

/// What goes on when it is known how large a file is, and in which name its
/// path was found to end: an error where it cannot be opened, where the files
/// are too large together, and where there is no name; and else it is read.
pub open spec fn looked_at(
    step: LetterStep,
    state: LetterLookView,
    size: Option<u64>,
    name: Option<Seq<char>>,
) -> bool {
    match size {
        None => letter_fails(step, "Не удалось открыть вложение: "@ + state.path),
        Some(n) => {
            let attached = sum_at_most(state.attached, n);
            if attached > ATTACHED_LIMIT {
                letter_fails(step, "Общий размер вложений больше 25 МБ"@)
            } else if name is None {
                letter_fails(step, "Некорректное имя вложения"@)
            } else {
                &&& step matches LetterStep::Read { path, then }
                &&& path@ == state.path
                &&& then@ == (LetterReadView {
                    head: state.head,
                    parts: state.parts,
                    attached,
                    path: state.path,
                    name: name->0,
                    rest: state.rest,
                })
            }
        },
    }
}

impl LetterLook {
    /// Goes on with a file whose path was found to end in a given name.
    pub fn named(self, size: Option<u64>, name: Option<String>) -> (step: LetterStep)
        ensures
            looked_at(step, self@, size, text_of(name)),
    {
        proof {
            use_type_invariant(&self);
        }
        let size: u64 = match size {
            Some(size) => size,
            None => {
                return letter_failed("Не удалось открыть вложение: ", self.path.as_str());
            },
        };
        let attached: u64 = self.attached.saturating_add(size);
        if attached > ATTACHED_LIMIT {
            return LetterStep::Failed("Общий размер вложений больше 25 МБ".to_owned());
        }
        match name {
            Some(name) => {
                let path = self.path.as_str().to_owned();
                LetterStep::Read {
                    path,
                    then: LetterRead {
                        builder: self.builder,
                        body: self.body,
                        attached,
                        path: self.path,
                        name,
                        rest: self.rest,
                    },
                }
            },
            None => LetterStep::Failed("Некорректное имя вложения".to_owned()),
        }
    }

    /// Goes on with a file under the name in which its path ends.
    pub fn next(self, size: Option<u64>) -> (step: LetterStep)
        ensures
            exists|name: Option<Seq<char>>| #[trigger]
                names_file(self@.path, name) && looked_at(step, self@, size, name),
    {
        let name = path_file_name(self.path.as_str());
        let ghost seen = text_of(name);
        let step = self.named(size, name);
        assert(names_file(self@.path, seen) && looked_at(step, self@, size, seen));
        step
    }
}

/// The parts of a letter with a file behind them that has been read.
pub open spec fn with_file(state: LetterReadView, contents: Seq<u8>) -> Seq<LetterPart> {
    state.parts.push(
        LetterPart::File {
            name: state.name,
            content_type: "application/octet-stream"@,
            contents,
        },
    )
}

impl LetterRead {
    /// Attaches the file and goes on to the next; an error where it could not
    /// be read.
    pub fn next(self, contents: Option<Vec<u8>>) -> (step: LetterStep)
        ensures
            match contents {
                None => letter_fails(step, "Не удалось прочитать вложение: "@ + self@.path),
                Some(bytes) => goes_on_with(
                    step,
                    self@.head,
                    with_file(self@, bytes@),
                    self@.attached,
                    self@.rest,
                ),
            },
    {
        proof {
            use_type_invariant(&self);
        }
        let contents = match contents {
            Some(contents) => contents,
            None => {
                return letter_failed("Не удалось прочитать вложение: ", self.path.as_str());
            },
        };
        let body = attach(self.body, self.name, "application/octet-stream", contents);
        go_on(self.builder, body, self.attached, self.rest)
    }
}

/// A letter that is done as soon as it has been begun has nothing attached,
/// and holds what was written: it is from the sender and goes to all that were
/// named, one after another, as the crate shows them, and its subject and its
/// texts are the given ones.
pub proof fn letter_holds_what_was_written(
    step: LetterStep,
    from: Seq<char>,
    outgoing: OutgoingMessage,
)
    requires
        begins_letter(step, from, outgoing),
        step is Done,
    ensures
        outgoing.attachments@.len() == 0,
        first_bad(addresses_in(outgoing.to@)) is None,
        step matches LetterStep::Done { message } && letter_of(message) == (Letter {
            head: head_for(from, addresses_in(outgoing.to@), outgoing.subject@),
            parts: written_parts(outgoing.text@, text_of(outgoing.html)),
        }),
{
    assert(texts(outgoing.attachments@).len() == outgoing.attachments@.len());
}

/// A letter from a bare address to bare addresses that has nothing attached is
/// done as soon as it has been begun, and goes to exactly those that were
/// named.
pub proof fn letter_goes_to_bare_addresses(
    step: LetterStep,
    from: Seq<char>,
    outgoing: OutgoingMessage,
)
    requires
        begins_letter(step, from, outgoing),
        trimmed(outgoing.to@).len() > 0,
        !breaks_line(outgoing.subject@),
        is_bare(from),
        addresses_in(outgoing.to@).len() > 0,
        are_bare(addresses_in(outgoing.to@)),
        outgoing.attachments@.len() == 0,
    ensures
        step matches LetterStep::Done { message } && letter_of(message) == (Letter {
            head: LetterHead {
                from: seq![from],
                to: addresses_in(outgoing.to@),
                subject: Some(outgoing.subject@),
            },
            parts: written_parts(outgoing.text@, text_of(outgoing.html)),
        }),
{
    no_bad_address(addresses_in(outgoing.to@));
}

proof fn no_bad_address(addresses: Seq<Seq<char>>)
    requires
        are_bare(addresses),
    ensures
        first_bad(addresses) is None,
    decreases addresses.len(),
{
    if addresses.len() > 0 {
        let rest = addresses.drop_first();
        assert forall|i: int| 0 <= i < rest.len() implies is_bare(#[trigger] rest[i]) by {
            assert(rest[i] == addresses[i + 1]);
        }
        no_bad_address(rest);
        assert(is_bare(addresses[0]));
    }
}

/// Attaching a file leaves everything as it was that the letter held before:
/// who it goes to, its texts, and the files in front of it.
pub proof fn attaching_keeps_the_letter(
    state: LetterReadView,
    bytes: Seq<u8>,
    step: LetterStep,
)
    requires
        goes_on_with(step, state.head, with_file(state, bytes), state.attached, state.rest),
    ensures
        with_file(state, bytes).drop_last() == state.parts,
        with_file(state, bytes).last() == (LetterPart::File {
            name: state.name,
            content_type: "application/octet-stream"@,
            contents: bytes,
        }),
        match step {
            LetterStep::Look { then, .. } => then@.head == state.head && then@.parts == with_file(
                state,
                bytes,
            ),
            LetterStep::Done { message } => letter_of(message) == (Letter {
                head: state.head,
                parts: with_file(state, bytes),
            }),
            LetterStep::Failed(_) => !is_complete(state.head),
            LetterStep::Read { .. } => false,
        },
{
    assert(with_file(state, bytes).drop_last() == state.parts);
}

} // verus!
