//! What holds of texts.

use crate::labels::is_label_name;
use crate::folders::is_folder_name;
use crate::letter::with_crlf;
use crate::message::same_letters;
use crate::text::{
    after_last, after_last_from, ascii_lower, is_white_space, joined, lower_ascii, occurs_at,
    occurs_in, replaced, text_le, trim_end, trim_start, trimmed, without_line_end,
};
use vstd::prelude::*;

verus! {

// ---------------------------------------------------------------------------
// White space
// ---------------------------------------------------------------------------

/// Whether a text is a part of another one, with white space alone around it.
pub open spec fn stands_in_space(part: Seq<char>, whole: Seq<char>, at: int) -> bool {
    &&& 0 <= at <= whole.len() - part.len()
    &&& part == whole.subrange(at, at + part.len())
    &&& forall|i: int| 0 <= i < at ==> is_white_space(#[trigger] whole[i])
    &&& forall|i: int| at + part.len() <= i < whole.len() ==> is_white_space(#[trigger] whole[i])
}

proof fn trim_start_takes_space(s: Seq<char>) -> (at: int)
    ensures
        0 <= at <= s.len(),
        trim_start(s) == s.skip(at),
        forall|i: int| 0 <= i < at ==> is_white_space(#[trigger] s[i]),
        at < s.len() ==> !is_white_space(s[at]),
    decreases s.len(),
{
    if s.len() > 0 && is_white_space(s[0]) {
        let rest = s.drop_first();
        let at = trim_start_takes_space(rest);
        assert(rest.skip(at) == s.skip(at + 1));
        assert forall|i: int| 0 <= i < at + 1 implies is_white_space(#[trigger] s[i]) by {
            if i > 0 {
                assert(rest[i - 1] == s[i]);
            }
        }
        at + 1
    } else {
        assert(s.skip(0) == s);
        0
    }
}

proof fn trim_end_takes_space(s: Seq<char>) -> (end: int)
    ensures
        0 <= end <= s.len(),
        trim_end(s) == s.take(end),
        forall|i: int| end <= i < s.len() ==> is_white_space(#[trigger] s[i]),
        end > 0 ==> !is_white_space(s[end - 1]),
    decreases s.len(),
{
    if s.len() > 0 && is_white_space(s.last()) {
        let rest = s.drop_last();
        let end = trim_end_takes_space(rest);
        assert(rest.take(end) == s.take(end));
        assert forall|i: int| end <= i < s.len() implies is_white_space(#[trigger] s[i]) by {
            if i < rest.len() {
                assert(rest[i] == s[i]);
            }
        }
        end
    } else {
        assert(s.take(s.len() as int) == s);
        s.len() as int
    }
}

/// What is taken off a text is white space, and none is left at its ends.
pub proof fn trimming_takes_outer_space(s: Seq<char>)
    ensures
        exists|at: int| stands_in_space(trimmed(s), s, at),
        trimmed(s).len() > 0 ==> !is_white_space(trimmed(s)[0]) && !is_white_space(
            trimmed(s).last(),
        ),
        trimmed(s).len() == 0 <==> forall|i: int|
            0 <= i < s.len() ==> is_white_space(#[trigger] s[i]),
{
    let at = trim_start_takes_space(s);
    let rest = s.skip(at);
    let end = trim_end_takes_space(rest);
    let part = trimmed(s);
    assert(part == s.subrange(at, at + part.len()));
    assert forall|i: int| at + part.len() <= i < s.len() implies is_white_space(
        #[trigger] s[i],
    ) by {
        assert(rest[i - at] == s[i]);
    }
    assert(stands_in_space(part, s, at));
    if part.len() > 0 {
        assert(part[0] == s[at]);
        assert(part.last() == rest[end - 1]);
    } else if at < s.len() {
        assert(rest[0] == s[at]);
    }
    if forall|i: int| 0 <= i < s.len() ==> is_white_space(#[trigger] s[i]) {
        if part.len() > 0 {
            assert(is_white_space(s[at]));
        }
    }
}

/// A text without white space at its ends is not changed by trimming, so that
/// nothing but white space is ever taken off.
pub proof fn trimming_keeps_text(s: Seq<char>)
    requires
        s.len() > 0,
        !is_white_space(s[0]),
        !is_white_space(s.last()),
    ensures
        trimmed(s) == s,
{
}

/// Blanks, tabs, line ends and the spaces of Unicode are white space, and no
/// other character is.
pub proof fn blanks_are_white_space(c: char)
    ensures
        c == ' ' || c == '\t' || c == '\r' || c == '\n' ==> is_white_space(c),
        '!' <= c <= '~' ==> !is_white_space(c),
        'А' <= c <= 'я' ==> !is_white_space(c),
        c == '\u{b}' || c == '\u{c}' || c == '\u{85}' || c == '\u{a0}' || c == '\u{1680}'
            ==> is_white_space(c),
        '\u{2000}' <= c <= '\u{200a}' || c == '\u{2028}' || c == '\u{2029}' || c == '\u{202f}'
            || c == '\u{205f}' || c == '\u{3000}' ==> is_white_space(c),
        is_white_space(c) ==> '\t' <= c <= '\r' || c == ' ' || c == '\u{85}' || c == '\u{a0}'
            || c == '\u{1680}' || '\u{2000}' <= c <= '\u{200a}' || c == '\u{2028}' || c
            == '\u{2029}' || c == '\u{202f}' || c == '\u{205f}' || c == '\u{3000}',
{
}

/// What is taken off the end of a password are line ends, and none is left.
pub proof fn line_ends_are_taken_off(s: Seq<char>)
    ensures
        without_line_end(s).is_prefix_of(s),
        forall|i: int|
            without_line_end(s).len() <= i < s.len() ==> #[trigger] s[i] == '\r' || s[i] == '\n',
        without_line_end(s).len() > 0 ==> without_line_end(s).last() != '\r' && without_line_end(
            s,
        ).last() != '\n',
    decreases s.len(),
{
    if s.len() > 0 && (s.last() == '\r' || s.last() == '\n') {
        line_ends_are_taken_off(s.drop_last());
        assert(without_line_end(s).is_prefix_of(s));
        assert forall|i: int| without_line_end(s).len() <= i < s.len() implies #[trigger] s[i]
            == '\r' || s[i] == '\n' by {
            if i < s.len() - 1 {
                assert(s.drop_last()[i] == s[i]);
            }
        }
    }
}

// ---------------------------------------------------------------------------
// Joining, replacing and cutting
// ---------------------------------------------------------------------------

/// Joined texts stand one after another, with the separator between any two:
/// joining two lists is joining what they are joined to.
pub proof fn joining_is_from_parts(a: Seq<Seq<char>>, b: Seq<Seq<char>>, separator: Seq<char>)
    ensures
        joined(Seq::empty(), separator) == Seq::<char>::empty(),
        forall|s: Seq<char>| #[trigger] joined(seq![s], separator) == s,
        a.len() > 0 && b.len() > 0 ==> joined(a + b, separator) == joined(a, separator) + separator
            + joined(b, separator),
    decreases b.len(),
{
    assert forall|s: Seq<char>| #[trigger] joined(seq![s], separator) == s by {}
    if a.len() > 0 && b.len() > 0 {
        assert((a + b).drop_last() == a + b.drop_last());
        assert((a + b).last() == b.last());
        if b.len() > 1 {
            joining_is_from_parts(a, b.drop_last(), separator);
            assert(joined(a + b, separator) == joined(a, separator) + separator + joined(
                b.drop_last(),
                separator,
            ) + separator + b.last());
        } else {
            assert(a + b.drop_last() == a);
        }
        assert(joined(a + b, separator) == joined(a, separator) + separator + joined(b, separator));
    }
}

/// Replacing goes character by character: the character is replaced wherever
/// it stands, and every other one stays.
pub proof fn replacing_is_by_character(
    a: Seq<char>,
    c: char,
    b: Seq<char>,
    old_char: char,
    with: Seq<char>,
)
    ensures
        replaced(Seq::empty(), old_char, with) == Seq::<char>::empty(),
        replaced(a + seq![c] + b, old_char, with) == replaced(a, old_char, with) + (if c
            == old_char {
            with
        } else {
            seq![c]
        }) + replaced(b, old_char, with),
    decreases b.len(),
{
    let s = a + seq![c] + b;
    if b.len() > 0 {
        assert(s.drop_last() == a + seq![c] + b.drop_last());
        assert(s.last() == b.last());
        replacing_is_by_character(a, c, b.drop_last(), old_char, with);
    } else {
        assert(s.drop_last() == a);
        assert(s.last() == c);
    }
}

proof fn after_last_from_is_tail(s: Seq<char>, delimiter: Seq<char>, at: int)
    requires
        delimiter.len() > 0,
        at <= s.len() - delimiter.len(),
        forall|k: int| at < k ==> !occurs_at(s, delimiter, k),
    ensures
        after_last_from(s, delimiter, at).is_suffix_of(s),
        !occurs_in(s, delimiter) ==> after_last_from(s, delimiter, at) == s,
        occurs_in(s, delimiter) ==> (delimiter + after_last_from(s, delimiter, at)).is_suffix_of(
            s,
        ),
        !occurs_in(after_last_from(s, delimiter, at), delimiter) || !occurs_in(s, delimiter),
    decreases at + 1,
{
    let tail = after_last_from(s, delimiter, at);
    if at < 0 {
        assert(s == s.skip(0));
        if occurs_in(s, delimiter) {
            let k = choose|k: int| occurs_at(s, delimiter, k);
            assert(!occurs_at(s, delimiter, k));
        }
    } else if occurs_at(s, delimiter, at) {
        assert(occurs_in(s, delimiter));
        assert(delimiter + tail == s.skip(at));
        assert(tail == s.skip(s.len() - tail.len()));
        if occurs_in(tail, delimiter) {
            let k = choose|k: int| occurs_at(tail, delimiter, k);
            let m = at + delimiter.len() + k;
            assert(s.subrange(m, m + delimiter.len()) == tail.subrange(k, k + delimiter.len()));
            assert(occurs_at(s, delimiter, m));
        }
    } else {
        after_last_from_is_tail(s, delimiter, at - 1);
    }
}

/// What is cut off a path stands behind the last delimiter: it is the end of
/// the path, the delimiter stands in front of it and not in it; and a path
/// without the delimiter is left whole.
pub proof fn cutting_leaves_the_last_piece(s: Seq<char>, delimiter: Seq<char>)
    requires
        delimiter.len() > 0,
    ensures
        after_last(s, delimiter).is_suffix_of(s),
        !occurs_in(after_last(s, delimiter), delimiter),
        occurs_in(s, delimiter) ==> (delimiter + after_last(s, delimiter)).is_suffix_of(s),
        !occurs_in(s, delimiter) ==> after_last(s, delimiter) == s,
{
    after_last_from_is_tail(s, delimiter, s.len() - delimiter.len());
}

// ---------------------------------------------------------------------------
// Comparing
// ---------------------------------------------------------------------------

/// Texts that are the same but for the case of letters differ in nothing else.
pub proof fn only_case_is_ignored(a: Seq<char>, b: Seq<char>)
    ensures
        same_letters(a, b) <==> a.len() == b.len() && forall|i: int|
            0 <= i < a.len() ==> {
                ||| #[trigger] a[i] == b[i]
                ||| 'A' <= a[i] <= 'Z' && b[i] as u32 == a[i] as u32 + 32
                ||| 'A' <= b[i] <= 'Z' && a[i] as u32 == b[i] as u32 + 32
            },
{
    if same_letters(a, b) {
        assert(lower_ascii(a).len() == lower_ascii(b).len());
        assert forall|i: int| 0 <= i < a.len() implies {
            ||| #[trigger] a[i] == b[i]
            ||| 'A' <= a[i] <= 'Z' && b[i] as u32 == a[i] as u32 + 32
            ||| 'A' <= b[i] <= 'Z' && a[i] as u32 == b[i] as u32 + 32
        } by {
            assert(lower_ascii(a)[i] == lower_ascii(b)[i]);
            assert(ascii_lower(a[i]) == ascii_lower(b[i]));
        }
    }
    if a.len() == b.len() && forall|i: int|
        0 <= i < a.len() ==> {
            ||| #[trigger] a[i] == b[i]
            ||| 'A' <= a[i] <= 'Z' && b[i] as u32 == a[i] as u32 + 32
            ||| 'A' <= b[i] <= 'Z' && a[i] as u32 == b[i] as u32 + 32
        } {
        assert forall|i: int| 0 <= i < a.len() implies lower_ascii(a)[i] == lower_ascii(b)[i] by {
            assert(a[i] == a[i]);
        }
        assert(lower_ascii(a) == lower_ascii(b));
    }
}

/// Of two texts the one comes first that has the smaller character where they
/// differ first, or that ends there.
pub proof fn first_difference_decides(a: Seq<char>, b: Seq<char>, at: int)
    requires
        0 <= at <= a.len(),
        at <= b.len(),
        forall|i: int| 0 <= i < at ==> #[trigger] a[i] == b[i],
        at < a.len() && at < b.len() ==> a[at] != b[at],
    ensures
        at == a.len() ==> text_le(a, b),
        at < a.len() && at == b.len() ==> !text_le(a, b),
        at < a.len() && at < b.len() ==> text_le(a, b) == (a[at] < b[at]),
    decreases at,
{
    if at > 0 {
        assert(a[0] == b[0]);
        let x = a.drop_first();
        let y = b.drop_first();
        assert forall|i: int| 0 <= i < at - 1 implies #[trigger] x[i] == y[i] by {
            assert(a[i + 1] == b[i + 1]);
        }
        first_difference_decides(x, y, at - 1);
    }
}

// ---------------------------------------------------------------------------
// Names
// ---------------------------------------------------------------------------

/// Labels have one to fifteen characters and folders one to eighty, in one
/// line; white space around a name does not count.
pub proof fn names_have_limits(s: Seq<char>)
    requires
        s.len() > 0,
        !is_white_space(s[0]),
        !is_white_space(s.last()),
    ensures
        is_label_name(s) <==> s.len() <= 15 && !s.contains('\r') && !s.contains('\n'),
        is_folder_name(s) <==> s.len() <= 80 && !s.contains('\r') && !s.contains('\n'),
{
    trimming_keeps_text(s);
}

/// A blank text names neither a label nor a folder.
pub proof fn blank_texts_name_nothing(s: Seq<char>)
    requires
        forall|i: int| 0 <= i < s.len() ==> is_white_space(#[trigger] s[i]),
    ensures
        !is_label_name(s),
        !is_folder_name(s),
{
    trimming_takes_outer_space(s);
}

// ---------------------------------------------------------------------------
// Line ends of mail
// ---------------------------------------------------------------------------

/// A character that is not a carriage return.
pub open spec fn is_no_return() -> spec_fn(char) -> bool {
    |c: char| c != '\r'
}

/// The line ends of mail change a text in nothing but carriage returns.
pub proof fn line_ends_change_returns_only(s: Seq<char>)
    ensures
        with_crlf(s).filter(is_no_return()) == s.filter(is_no_return()),
    decreases s.len(),
{
    reveal(Seq::filter);
    let p = is_no_return();
    if s.len() > 0 {
        let before = s.drop_last();
        line_ends_change_returns_only(before);
        assert(before.push(s.last()) == s);
        before.lemma_filter_push(s.last(), p);
        let b = with_crlf(before);
        b.lemma_filter_push(s.last(), p);
        b.lemma_filter_push('\r', p);
        b.push('\r').lemma_filter_push('\n', p);
    }
}

/// With the line ends of mail every line feed has a carriage return in front of
/// it.
pub proof fn lines_end_as_in_mail(s: Seq<char>, i: int)
    requires
        0 <= i < with_crlf(s).len(),
        with_crlf(s)[i] == '\n',
    ensures
        i > 0 && with_crlf(s)[i - 1] == '\r',
    decreases s.len(),
{
    if s.len() > 0 {
        let before = s.drop_last();
        let b = with_crlf(before);
        if before.len() > 0 {
            with_crlf_keeps_last(before);
        }
        if i < b.len() {
            lines_end_as_in_mail(before, i);
        }
    }
}

proof fn with_crlf_keeps_last(s: Seq<char>)
    requires
        s.len() > 0,
    ensures
        with_crlf(s).len() > 0,
        with_crlf(s).last() == s.last(),
{
}

/// Two texts without carriage returns that are the same with the line ends of
/// mail are the same.
pub proof fn texts_can_be_told_by_their_lines(a: Seq<char>, b: Seq<char>)
    requires
        !a.contains('\r'),
        !b.contains('\r'),
        with_crlf(a) == with_crlf(b),
    ensures
        a == b,
{
    line_ends_change_returns_only(a);
    line_ends_change_returns_only(b);
    assert forall|i: int| 0 <= i < a.len() implies is_no_return()(#[trigger] a[i]) by {
        assert(a.contains(a[i]));
    }
    assert forall|i: int| 0 <= i < b.len() implies is_no_return()(#[trigger] b[i]) by {
        assert(b.contains(b[i]));
    }
    crate::lists::filter_keeps_all(a, is_no_return());
    crate::lists::filter_keeps_all(b, is_no_return());
}

} // verus!
