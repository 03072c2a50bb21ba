//! What holds of letters that are sent.

use crate::laws::text::{texts_can_be_told_by_their_lines, trimming_takes_outer_space};
use crate::letter::{
    are_bare, is_bare, is_complete, is_mailbox, letter_of, sent_by, with_crlf, LetterHead,
    LetterPart,
};
use crate::model::OutgoingMessage;
use crate::outgoing::{
    addresses_in, all_addressed, begins_letter, first_bad, goes_on_with, is_not_blank, looked_at,
    pieces, LetterLookView, LetterReadView, LetterStep,
};
use crate::text::{texts, trimmed};
use vstd::prelude::*;
use vstd::string::*;

verus! {

broadcast use vstd::string::group_string_axioms;

/// Whether a letter has been begun without an error.
pub open spec fn is_begun(step: LetterStep) -> bool {
    step is Look || step is Done
}

/// The head of a letter that has been begun.
pub open spec fn begun_head(step: LetterStep) -> LetterHead {
    match step {
        LetterStep::Look { then, .. } => then@.head,
        LetterStep::Done { message } => letter_of(message).head,
        _ => arbitrary(),
    }
}

/// The parts of a letter that has been begun.
pub open spec fn begun_parts(step: LetterStep) -> Seq<LetterPart> {
    match step {
        LetterStep::Look { then, .. } => then@.parts,
        LetterStep::Done { message } => letter_of(message).parts,
        _ => Seq::empty(),
    }
}

/// The alternatives among which the reader of a letter chooses.
pub open spec fn alternatives_of(step: LetterStep) -> Seq<LetterPart> {
    match begun_parts(step)[0] {
        LetterPart::Alternatives(ways) => ways,
        _ => Seq::empty(),
    }
}

// ---------------------------------------------------------------------------
// What is written
// ---------------------------------------------------------------------------

/// A letter that has been begun has one part, in which the plain text that was
/// written is the first alternative. Where HTML was written that is not blank,
/// it is the second one and the only other, and else there is none.
pub proof fn texts_are_sent_as_written(
    step: LetterStep,
    from: Seq<char>,
    outgoing: OutgoingMessage,
)
    requires
        begins_letter(step, from, outgoing),
        is_begun(step),
    ensures
        begun_parts(step).len() == 1,
        begun_parts(step)[0] is Alternatives,
        alternatives_of(step)[0] == LetterPart::Text(with_crlf(outgoing.text@)),
        outgoing.html matches Some(html) ==> (exists|i: int|
            0 <= i < html@.len() && !crate::text::is_white_space(#[trigger] html@[i])) ==> {
            &&& alternatives_of(step).len() == 2
            &&& alternatives_of(step)[1] == LetterPart::Html(with_crlf(html@))
        },
        outgoing.html matches Some(html) ==> (forall|i: int|
            0 <= i < html@.len() ==> crate::text::is_white_space(#[trigger] html@[i]))
            ==> alternatives_of(step).len() == 1,
        outgoing.html is None ==> alternatives_of(step).len() == 1,
{
    if let Some(html) = outgoing.html {
        trimming_takes_outer_space(html@);
    }
}

/// Letters with different HTML differ in their HTML, whatever else they hold.
/// Carriage returns are left out: mail has them in front of every line feed.
pub proof fn other_html_is_other_letter(
    a_step: LetterStep,
    a_from: Seq<char>,
    a: OutgoingMessage,
    b_step: LetterStep,
    b_from: Seq<char>,
    b: OutgoingMessage,
)
    requires
        begins_letter(a_step, a_from, a),
        begins_letter(b_step, b_from, b),
        is_begun(a_step),
        is_begun(b_step),
        a.html is Some && trimmed(a.html->0@).len() > 0 && !a.html->0@.contains('\r'),
        b.html is Some && trimmed(b.html->0@).len() > 0 && !b.html->0@.contains('\r'),
        a.html->0@ != b.html->0@,
    ensures
        alternatives_of(a_step)[1] is Html,
        alternatives_of(b_step)[1] is Html,
        alternatives_of(a_step)[1] != alternatives_of(b_step)[1],
{
    trimming_takes_outer_space(a.html->0@);
    trimming_takes_outer_space(b.html->0@);
    texts_are_sent_as_written(a_step, a_from, a);
    texts_are_sent_as_written(b_step, b_from, b);
    if with_crlf(a.html->0@) == with_crlf(b.html->0@) {
        texts_can_be_told_by_their_lines(a.html->0@, b.html->0@);
    }
}

/// Letters with different texts differ in their plain texts, whatever else
/// they hold.
pub proof fn other_text_is_other_letter(
    a_step: LetterStep,
    a_from: Seq<char>,
    a: OutgoingMessage,
    b_step: LetterStep,
    b_from: Seq<char>,
    b: OutgoingMessage,
)
    requires
        begins_letter(a_step, a_from, a),
        begins_letter(b_step, b_from, b),
        is_begun(a_step),
        is_begun(b_step),
        !a.text@.contains('\r'),
        !b.text@.contains('\r'),
        a.text@ != b.text@,
    ensures
        alternatives_of(a_step)[0] != alternatives_of(b_step)[0],
{
    texts_are_sent_as_written(a_step, a_from, a);
    texts_are_sent_as_written(b_step, b_from, b);
    if with_crlf(a.text@) == with_crlf(b.text@) {
        texts_can_be_told_by_their_lines(a.text@, b.text@);
    }
}

// ---------------------------------------------------------------------------
// Who it is from, and to whom it goes
// ---------------------------------------------------------------------------

/// A letter that has been begun carries the subject that was given. Bare
/// addresses stand in it as they are: that of the sender as the only sender,
/// and all those that were named, in their order, as the recipients.
pub proof fn letters_go_to_those_named(
    step: LetterStep,
    from: Seq<char>,
    outgoing: OutgoingMessage,
)
    requires
        begins_letter(step, from, outgoing),
        is_begun(step),
    ensures
        begun_head(step).subject == Some(outgoing.subject@),
        is_bare(from) ==> begun_head(step).from == seq![from],
        are_bare(addresses_in(outgoing.to@)) ==> begun_head(step).to == addresses_in(
            outgoing.to@,
        ),
        begun_head(step).from == sent_by(from),
        begun_head(step).to == all_addressed(addresses_in(outgoing.to@)),
{
}

proof fn first_bad_decides(addresses: Seq<Seq<char>>)
    ensures
        first_bad(addresses) is None <==> forall|i: int|
            0 <= i < addresses.len() ==> is_mailbox(#[trigger] addresses[i]),
        first_bad(addresses) matches Some(bad) ==> addresses.contains(bad) && !is_mailbox(bad),
    decreases addresses.len(),
{
    if addresses.len() > 0 {
        let rest = addresses.drop_first();
        first_bad_decides(rest);
        if is_mailbox(addresses[0]) {
            if first_bad(addresses) is None {
                assert forall|i: int| 0 <= i < addresses.len() implies is_mailbox(
                    #[trigger] addresses[i],
                ) by {
                    if i > 0 {
                        assert(rest[i - 1] == addresses[i]);
                    }
                }
            } else {
                let bad = first_bad(rest)->0;
                let k = choose|k: int| 0 <= k < rest.len() && rest[k] == bad;
                assert(addresses[k + 1] == bad);
            }
        } else {
            assert(addresses.contains(addresses[0]));
        }
    }
}

/// A letter is begun only where it has a sender and recipients that are all
/// mailboxes, at least one recipient, and a subject of one line. Where it has
/// all that, and something to attach, it is begun.
pub proof fn letters_need_mailboxes(
    step: LetterStep,
    from: Seq<char>,
    outgoing: OutgoingMessage,
)
    requires
        begins_letter(step, from, outgoing),
    ensures
        ({
            let sendable = {
                &&& is_mailbox(from)
                &&& addresses_in(outgoing.to@).len() > 0
                &&& forall|i: int|
                    0 <= i < addresses_in(outgoing.to@).len() ==> is_mailbox(
                        #[trigger] addresses_in(outgoing.to@)[i],
                    )
                &&& !outgoing.subject@.contains('\r')
                &&& !outgoing.subject@.contains('\n')
            };
            &&& is_begun(step) ==> sendable
            &&& sendable && trimmed(outgoing.to@).len() > 0 && outgoing.attachments@.len() > 0
                ==> step is Look
            &&& step is Failed || is_begun(step)
        }),
{
    first_bad_decides(addresses_in(outgoing.to@));
    assert(texts(outgoing.attachments@).len() == outgoing.attachments@.len());
}

/// Where a recipient is no mailbox, one that is none is named in the error.
pub proof fn bad_recipients_are_told(
    step: LetterStep,
    from: Seq<char>,
    outgoing: OutgoingMessage,
    i: int,
)
    requires
        begins_letter(step, from, outgoing),
        is_mailbox(from),
        trimmed(outgoing.to@).len() > 0,
        !outgoing.subject@.contains('\r'),
        !outgoing.subject@.contains('\n'),
        0 <= i < addresses_in(outgoing.to@).len(),
        !is_mailbox(addresses_in(outgoing.to@)[i]),
    ensures
        step matches LetterStep::Failed(text) && exists|bad: Seq<char>|
            addresses_in(outgoing.to@).contains(bad) && !is_mailbox(bad)
                && #[trigger] bad.is_suffix_of(text@),
{
    let to = addresses_in(outgoing.to@);
    first_bad_decides(to);
    let bad = first_bad(to)->0;
    let text = step->Failed_0@;
    assert(text.skip(text.len() - bad.len()) == bad);
    assert(bad.is_suffix_of(text));
}

proof fn pieces_are_not_empty(text: Seq<char>)
    ensures
        pieces(text).len() > 0,
    decreases text.len(),
{
    if text.len() > 0 {
        pieces_are_not_empty(text.drop_last());
    }
}

proof fn pieces_behind_separator(a: Seq<char>, c: char, b: Seq<char>)
    requires
        c == ',' || c == ';',
    ensures
        pieces(a + seq![c] + b) == pieces(a) + pieces(b),
    decreases b.len(),
{
    let whole = a + seq![c] + b;
    pieces_are_not_empty(a);
    if b.len() == 0 {
        assert(whole.drop_last() == a);
        assert(whole.last() == c);
        assert(pieces(a).push(Seq::empty()) == pieces(a) + pieces(b));
    } else {
        let short = b.drop_last();
        assert(whole.drop_last() == a + seq![c] + short);
        assert(whole.last() == b.last());
        pieces_behind_separator(a, c, short);
        pieces_are_not_empty(short);
        let both = pieces(a) + pieces(short);
        assert(both.last() == pieces(short).last());
        assert(both.drop_last() == pieces(a) + pieces(short).drop_last());
        assert(pieces(whole) == pieces(a) + pieces(b));
    }
}

proof fn pieces_without_separator(text: Seq<char>)
    requires
        !text.contains(','),
        !text.contains(';'),
    ensures
        pieces(text) == seq![text],
    decreases text.len(),
{
    if text.len() > 0 {
        let short = text.drop_last();
        assert(text.contains(text.last()));
        assert forall|c: char| short.contains(c) implies text.contains(c) by {
            let k = choose|k: int| 0 <= k < short.len() && short[k] == c;
            assert(text[k] == c);
        }
        pieces_without_separator(short);
        assert(short.push(text.last()) == text);
        assert(pieces(text) == seq![text]);
    } else {
        assert(text == Seq::<char>::empty());
    }
}

/// Recipients are separated by commas and semicolons: those of a text with a
/// separator in it are those in front of it, followed by those behind it, and
/// a text without one names one recipient, without the white space around it,
/// or none where it is blank.
pub proof fn recipients_are_separated(a: Seq<char>, c: char, b: Seq<char>)
    ensures
        c == ',' || c == ';' ==> addresses_in(a + seq![c] + b) == addresses_in(a) + addresses_in(
            b,
        ),
        !a.contains(',') && !a.contains(';') ==> addresses_in(a) == (if trimmed(a).len() > 0 {
            seq![trimmed(a)]
        } else {
            Seq::empty()
        }),
{
    let trim_all = |piece: Seq<char>| trimmed(piece);
    if c == ',' || c == ';' {
        pieces_behind_separator(a, c, b);
        Seq::filter_distributes_over_add(pieces(a), pieces(b), is_not_blank());
        let left = pieces(a).filter(is_not_blank());
        let right = pieces(b).filter(is_not_blank());
        assert((left + right).map_values(trim_all) == left.map_values(trim_all)
            + right.map_values(trim_all));
    }
    if !a.contains(',') && !a.contains(';') {
        pieces_without_separator(a);
        reveal(Seq::filter);
        let none = Seq::<Seq<char>>::empty();
        none.lemma_filter_push(a, is_not_blank());
        assert(none.push(a) == seq![a]);
        assert(none.filter(is_not_blank()) == none);
        if trimmed(a).len() > 0 {
            assert(seq![a].filter(is_not_blank()) == seq![a]);
            assert(seq![a].map_values(trim_all) == seq![trimmed(a)]);
        } else {
            assert(none.map_values(trim_all) == none);
        }
    }
}

/// Recipients are addressed one after another, none left out.
pub proof fn recipients_are_addressed_in_turn(to: Seq<Seq<char>>, more: Seq<char>)
    ensures
        all_addressed(Seq::empty()) == Seq::<Seq<char>>::empty(),
        all_addressed(to.push(more)) == crate::letter::addressed(all_addressed(to), more),
{
    assert(to.push(more).drop_last() == to);
}

// ---------------------------------------------------------------------------
// Attached files
// ---------------------------------------------------------------------------

/// The files of a letter are asked for one after another, in the order in
/// which they were given, and nothing is attached in the beginning.
pub proof fn files_are_asked_for_in_order(
    step: LetterStep,
    from: Seq<char>,
    outgoing: OutgoingMessage,
)
    requires
        begins_letter(step, from, outgoing),
        is_begun(step),
    ensures
        step is Look <==> outgoing.attachments@.len() > 0,
        step matches LetterStep::Look { path, then } ==> {
            &&& path@ == outgoing.attachments@[0]@
            &&& then@.path == outgoing.attachments@[0]@
            &&& then@.attached == 0
            &&& then@.rest.len() == outgoing.attachments@.len() - 1
            &&& forall|i: int|
                0 <= i < then@.rest.len() ==> #[trigger] then@.rest[i]
                    == outgoing.attachments@[i + 1]@
        },
{
    let all = texts(outgoing.attachments@);
    assert(all.len() == outgoing.attachments@.len());
    if all.len() > 0 {
        assert(all[0] == outgoing.attachments@[0]@);
        assert forall|i: int| 0 <= i < all.len() - 1 implies #[trigger] all.drop_first()[i]
            == outgoing.attachments@[i + 1]@ by {
            assert(all[i + 1] == outgoing.attachments@[i + 1]@);
        }
    }
}

/// When a file is attached, the next one is asked for, and the letter is done
/// when there is none.
pub proof fn next_file_is_asked_for(
    step: LetterStep,
    head: LetterHead,
    parts: Seq<LetterPart>,
    attached: u64,
    rest: Seq<Seq<char>>,
)
    requires
        goes_on_with(step, head, parts, attached, rest),
    ensures
        rest.len() > 0 ==> {
            &&& step matches LetterStep::Look { path, then }
            &&& path@ == rest[0]
            &&& then@.path == rest[0]
            &&& then@.attached == attached
            &&& then@.rest.len() == rest.len() - 1
            &&& forall|i: int|
                0 <= i < then@.rest.len() ==> #[trigger] then@.rest[i] == rest[i + 1]
        },
        rest.len() == 0 && is_complete(head) ==> step is Done,
        is_begun(step) ==> begun_head(step) == head && begun_parts(step) == parts,
{
}

/// A file is read exactly when it and those in front of it have at most
/// twenty-five mebibytes together; it is attached under the name that was
/// found, and what was written and attached before stays.
pub proof fn files_are_limited_in_size(
    step: LetterStep,
    state: LetterLookView,
    size: u64,
    name: Seq<char>,
)
    requires
        looked_at(step, state, Some(size), Some(name)),
    ensures
        step is Read <==> state.attached + size <= 25 * 1024 * 1024,
        step is Read || step is Failed,
        step matches LetterStep::Read { path, then } ==> {
            &&& path@ == state.path
            &&& then@.path == state.path
            &&& then@.name == name
            &&& then@.attached == state.attached + size
            &&& then@.head == state.head
            &&& then@.parts == state.parts
            &&& then@.rest == state.rest
        },
{
}

/// A file that cannot be looked at is named in the error, and so is none that
/// has no name.
pub proof fn missing_files_are_told(
    step: LetterStep,
    state: LetterLookView,
    size: Option<u64>,
    name: Option<Seq<char>>,
)
    requires
        looked_at(step, state, size, name),
        size is None || name is None,
    ensures
        step is Failed,
        size is None ==> (step matches LetterStep::Failed(e) && state.path.is_suffix_of(e@)),
{
    if size is None {
        let text = "Не удалось открыть вложение: "@;
        assert((text + state.path).skip(text.len() as int) == state.path);
    }
}

/// A file that is attached stands behind everything else in the letter, with
/// its name and its contents.
pub proof fn attached_files_are_whole(state: LetterReadView, contents: Seq<u8>)
    ensures
        ({
            let parts = crate::outgoing::with_file(state, contents);
            &&& parts.len() == state.parts.len() + 1
            &&& forall|i: int|
                0 <= i < state.parts.len() ==> #[trigger] parts[i] == state.parts[i]
            &&& parts.last() matches LetterPart::File { name, contents: sent, .. } && name
                == state.name && sent == contents
        }),
{
}

} // verus!
