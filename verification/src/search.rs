//! Searches on the mail server.

use crate::labels::{encode_label, is_label_name, keyword_is_an_atom, keyword_of};
use crate::text::{
    breaks_line, has_line_break, join, joined, replace, replaced, str_of, texts, trim, trimmed,
    trimmed_is_one_line,
};
use vstd::prelude::*;
use vstd::string::*;

verus! {

broadcast use vstd::string::group_string_axioms;

/// A text as it stands between quotes: with a backslash in front of every
/// backslash and every quote.
pub open spec fn escaped(s: Seq<char>) -> Seq<char> {
    replaced(replaced(s, '\\', "\\\\"@), '"', "\\\""@)
}

/// A text in quotes.
pub open spec fn quoted(s: Seq<char>) -> Seq<char> {
    "\""@ + escaped(s) + "\""@
}

/// The search for a text in the fields of a message.
pub open spec fn field_search(value: Seq<char>) -> Seq<char> {
    "OR FROM "@ + value + " OR TO "@ + value + " OR CC "@ + value + " OR BCC "@ + value
        + " OR SUBJECT "@ + value + " BODY "@ + value
}

/// Whether a search is for a label.
pub open spec fn asks_for_label(label: Option<Seq<char>>) -> bool {
    label matches Some(name) && name.len() > 0
}

/// Whether a search is for a text.
pub open spec fn asks_for_text(query: Option<Seq<char>>) -> bool {
    query matches Some(text) && trimmed(text).len() > 0
}

/// The terms of a search.
pub open spec fn search_terms(
    label: Option<Seq<char>>,
    query: Option<Seq<char>>,
) -> Seq<Seq<char>> {
    let by_label = if asks_for_label(label) {
        seq!["KEYWORD "@ + keyword_of(label->0)]
    } else {
        Seq::empty()
    };
    let by_text = if asks_for_text(query) {
        seq![field_search(quoted(trimmed(query->0)))]
    } else {
        Seq::empty()
    };
    by_label + by_text
}

/// A search as the server takes it: all messages where nothing is asked for,
/// and with the character set named where the query is not ASCII.
pub open spec fn search_text(label: Option<Seq<char>>, query: Option<Seq<char>>) -> Seq<char> {
    let terms = search_terms(label, query);
    if terms.len() == 0 {
        "ALL"@
    } else if query matches Some(text) && !vstd::utf8::is_ascii_chars(text) {
        "CHARSET UTF-8 "@ + joined(terms, " "@)
    } else {
        joined(terms, " "@)
    }
}

/// The search for messages with a label and with a text in one of their
/// fields; an error for a label that cannot be one, and for a query of more
/// than one line.
pub fn message_search(label: Option<&str>, query: Option<&str>) -> (search: Result<String, String>)
    ensures
        search is Ok <==> {
            &&& asks_for_label(str_of(label)) ==> is_label_name(label->0@)
            &&& asks_for_text(str_of(query)) ==> !breaks_line(query->0@)
        },
        search matches Ok(s) ==> s@ == search_text(str_of(label), str_of(query)) && !breaks_line(
            s@,
        ),
        search matches Err(e) ==> e@ == (if asks_for_label(str_of(label)) && !is_label_name(
            label->0@,
        ) {
            "Название метки должно содержать от 1 до 15 символов"@
        } else {
            "Некорректный поисковый запрос"@
        }),
{
    let mut terms: Vec<String> = Vec::new();
    let ghost none: Seq<Seq<char>> = Seq::empty();
    assert(texts(terms@) == none);
    assert(are_one_line(texts(terms@)));
    if let Some(name) = label {
        if !name.is_empty() {
            match encode_label(name) {
                Ok(keyword) => {
                    let mut term = "KEYWORD ".to_owned();
                    term.append(keyword.as_str());
                    proof {
                        keyword_is_an_atom(name@, keyword@);
                        literals_are_one_line();
                        concat_is_one_line("KEYWORD "@, keyword@);
                    }
                    terms.push(term);
                    assert(texts(terms@) == seq!["KEYWORD "@ + keyword_of(name@)]);
                },
                Err(error) => {
                    return Err(error);
                },
            }
        }
    }
    let ghost by_label = texts(terms@);
    if let Some(text) = query {
        let short = trim(text);
        if !short.is_empty() {
            if has_line_break(text) {
                return Err("Некорректный поисковый запрос".to_owned());
            }
            let value = quote(short);
            let term = search_fields(value.as_str());
            proof {
                trimmed_is_one_line(text@);
                quoted_is_one_line(short@);
                field_search_is_one_line(value@);
            }
            terms.push(term);
            assert(texts(terms@) == by_label.push(term@));
        }
    }
    assert(texts(terms@) == search_terms(str_of(label), str_of(query)));
    proof {
        literals_are_one_line();
    }
    if terms.len() == 0 {
        return Ok("ALL".to_owned());
    }
    let joint = join(&terms, " ");
    proof {
        assert(are_one_line(texts(terms@)));
        joined_is_one_line(texts(terms@));
        concat_is_one_line("CHARSET UTF-8 "@, joint@);
    }
    let foreign = match query {
        Some(text) => !text.is_ascii(),
        None => false,
    };
    if foreign {
        let mut search = "CHARSET UTF-8 ".to_owned();
        search.append(joint.as_str());
        Ok(search)
    } else {
        Ok(joint)
    }
}

/// Whether none of some texts holds a line break.
spec fn are_one_line(list: Seq<Seq<char>>) -> bool {
    forall|i: int| 0 <= i < list.len() ==> !breaks_line(#[trigger] list[i])
}

proof fn concat_is_one_line(a: Seq<char>, b: Seq<char>)
    requires
        !breaks_line(a),
        !breaks_line(b),
    ensures
        !breaks_line(a + b),
{
    assert forall|i: int| 0 <= i < (a + b).len() implies (a + b)[i] != '\r' && (a + b)[i]
        != '\n' by {
        if i < a.len() {
            assert(a.contains(a[i]));
        } else {
            assert(b.contains(b[i - a.len()]));
        }
    }
}

proof fn literals_are_one_line()
    ensures
        !breaks_line("KEYWORD "@),
        !breaks_line("ALL"@),
        !breaks_line(" "@),
        !breaks_line("CHARSET UTF-8 "@),
{
    reveal_strlit("KEYWORD ");
    reveal_strlit("ALL");
    reveal_strlit(" ");
    reveal_strlit("CHARSET UTF-8 ");
}

proof fn joined_is_one_line(list: Seq<Seq<char>>)
    requires
        are_one_line(list),
    ensures
        !breaks_line(joined(list, " "@)),
    decreases list.len(),
{
    literals_are_one_line();
    if list.len() > 1 {
        let rest = list.drop_last();
        assert forall|i: int| 0 <= i < rest.len() implies !breaks_line(#[trigger] rest[i]) by {
            assert(rest[i] == list[i]);
        }
        joined_is_one_line(rest);
        concat_is_one_line(joined(rest, " "@), " "@);
        assert(list[list.len() - 1] == list.last());
        concat_is_one_line(joined(rest, " "@) + " "@, list.last());
    }
}

proof fn field_search_is_one_line(value: Seq<char>)
    requires
        !breaks_line(value),
    ensures
        !breaks_line(field_search(value)),
{
    reveal_strlit("OR FROM ");
    reveal_strlit(" OR TO ");
    reveal_strlit(" OR CC ");
    reveal_strlit(" OR BCC ");
    reveal_strlit(" OR SUBJECT ");
    reveal_strlit(" BODY ");
    concat_is_one_line("OR FROM "@, value);
    let a = "OR FROM "@ + value;
    concat_is_one_line(a, " OR TO "@);
    concat_is_one_line(a + " OR TO "@, value);
    let b = a + " OR TO "@ + value;
    concat_is_one_line(b, " OR CC "@);
    concat_is_one_line(b + " OR CC "@, value);
    let c = b + " OR CC "@ + value;
    concat_is_one_line(c, " OR BCC "@);
    concat_is_one_line(c + " OR BCC "@, value);
    let d = c + " OR BCC "@ + value;
    concat_is_one_line(d, " OR SUBJECT "@);
    concat_is_one_line(d + " OR SUBJECT "@, value);
    let e = d + " OR SUBJECT "@ + value;
    concat_is_one_line(e, " BODY "@);
    concat_is_one_line(e + " BODY "@, value);
}

proof fn replaced_is_one_line(s: Seq<char>, old_char: char, with: Seq<char>)
    requires
        !breaks_line(s),
        !breaks_line(with),
    ensures
        !breaks_line(replaced(s, old_char, with)),
    decreases s.len(),
{
    if s.len() > 0 {
        let rest = s.drop_last();
        assert forall|i: int| 0 <= i < rest.len() implies rest[i] != '\r' && rest[i] != '\n' by {
            assert(s.contains(s[i]));
        }
        replaced_is_one_line(rest, old_char, with);
        let before = replaced(rest, old_char, with);
        concat_is_one_line(before, with);
        assert(s.contains(s[s.len() - 1]));
        let last = seq![s.last()];
        assert(!last.contains('\r') && !last.contains('\n'));
        concat_is_one_line(before, last);
        assert(before.push(s.last()) == before + last);
    }
}

proof fn quoted_is_one_line(text: Seq<char>)
    requires
        !breaks_line(text),
    ensures
        !breaks_line(quoted(text)),
{
    reveal_strlit("\\\\");
    reveal_strlit("\\\"");
    reveal_strlit("\"");
    replaced_is_one_line(text, '\\', "\\\\"@);
    replaced_is_one_line(replaced(text, '\\', "\\\\"@), '"', "\\\""@);
    concat_is_one_line("\""@, escaped(text));
    concat_is_one_line("\""@ + escaped(text), "\""@);
}

/// Puts a text in quotes.
pub fn quote(text: &str) -> (value: String)
    ensures
        value@ == quoted(text@),
{
    let slashed = replace(text, '\\', "\\\\");
    let inner = replace(slashed.as_str(), '"', "\\\"");
    let mut value = "\"".to_owned();
    value.append(inner.as_str());
    value.append("\"");
    value
}

/// The search for a text in the fields of a message.
fn search_fields(value: &str) -> (search: String)
    ensures
        search@ == field_search(value@),
{
    let mut search = "OR FROM ".to_owned();
    search.append(value);
    search.append(" OR TO ");
    search.append(value);
    search.append(" OR CC ");
    search.append(value);
    search.append(" OR BCC ");
    search.append(value);
    search.append(" OR SUBJECT ");
    search.append(value);
    search.append(" BODY ");
    search.append(value);
    search
}

// ---------------------------------------------------------------------------
// Quoted text
// ---------------------------------------------------------------------------

/// How a server reads what follows an opening quote: the text up to the
/// closing quote, in which a backslash stands in front of a backslash or of a
/// quote that belongs to the text, and what follows the closing quote.
pub open spec fn read_quoted(s: Seq<char>) -> Option<(Seq<char>, Seq<char>)>
    decreases s.len(),
{
    if s.len() == 0 {
        None
    } else if s[0] == '"' {
        Some((Seq::empty(), s.skip(1)))
    } else if s[0] == '\\' {
        if s.len() > 1 && (s[1] == '\\' || s[1] == '"') {
            match read_quoted(s.skip(2)) {
                Some((text, rest)) => Some((seq![s[1]] + text, rest)),
                None => None,
            }
        } else {
            None
        }
    } else {
        match read_quoted(s.skip(1)) {
            Some((text, rest)) => Some((seq![s[0]] + text, rest)),
            None => None,
        }
    }
}

/// A quoted text is read back as the text, whatever follows it: nothing in it
/// closes the quotes early.
pub proof fn quoted_text_reads_back(text: Seq<char>, rest: Seq<char>)
    ensures
        quoted(text)[0] == '"',
        read_quoted((quoted(text) + rest).skip(1)) == Some((text, rest)),
{
    reveal_strlit("\"");
    assert((quoted(text) + rest).skip(1) == escaped(text) + (seq!['"'] + rest)) by {
        assert(quoted(text) == seq!['"'] + escaped(text) + seq!['"']);
    }
    escaped_reads_back(text, rest);
}

proof fn escaped_reads_back(text: Seq<char>, rest: Seq<char>)
    ensures
        read_quoted(escaped(text) + (seq!['"'] + rest)) == Some((text, rest)),
    decreases text.len(),
{
    let close = seq!['"'] + rest;
    if text.len() == 0 {
        assert(escaped(text) == Seq::<char>::empty());
        assert(escaped(text) + close == close);
        assert(close.skip(1) == rest);
        assert(text == Seq::<char>::empty());
    } else {
        let c = text[0];
        let tail = text.drop_first();
        escaped_reads_back(tail, rest);
        assert(text == seq![c] + tail);
        replaced_concat(seq![c], tail, '\\', "\\\\"@);
        let a = replaced(seq![c], '\\', "\\\\"@);
        let b = replaced(tail, '\\', "\\\\"@);
        replaced_concat(a, b, '"', "\\\""@);
        let head = replaced(a, '"', "\\\""@);
        assert(escaped(text) == head + escaped(tail));
        escaped_char(c);
        let s = escaped(text) + close;
        let next = escaped(tail) + close;
        if c == '\\' || c == '"' {
            assert(head == seq!['\\', c]);
            assert(s.skip(2) == next);
            assert(s[0] == '\\' && s[1] == c);
        } else {
            assert(head == seq![c]);
            assert(s.skip(1) == next);
            assert(s[0] == c);
        }
    }
}

proof fn escaped_char(c: char)
    ensures
        escaped(seq![c]) == (if c == '\\' || c == '"' {
            seq!['\\', c]
        } else {
            seq![c]
        }),
{
    reveal_strlit("\\\\");
    reveal_strlit("\\\"");
    let none: Seq<char> = Seq::empty();
    let one = seq![c];
    assert(one.drop_last() == none);
    assert(replaced(none, '\\', "\\\\"@) == none);
    assert(replaced(none, '"', "\\\""@) == none);
    if c == '\\' {
        let two = replaced(one, '\\', "\\\\"@);
        assert(two == seq!['\\', '\\']);
        assert(two.drop_last() == one);
        assert(replaced(one, '"', "\\\""@) == one);
        assert(replaced(two, '"', "\\\""@) == two);
    } else {
        assert(replaced(one, '\\', "\\\\"@) == one);
        if c == '"' {
            assert(replaced(one, '"', "\\\""@) == seq!['\\', '"']);
        } else {
            assert(replaced(one, '"', "\\\""@) == one);
        }
    }
}

proof fn replaced_concat(a: Seq<char>, b: Seq<char>, old_char: char, with: Seq<char>)
    ensures
        replaced(a + b, old_char, with) == replaced(a, old_char, with) + replaced(
            b,
            old_char,
            with,
        ),
    decreases b.len(),
{
    if b.len() == 0 {
        assert(a + b == a);
    } else {
        replaced_concat(a, b.drop_last(), old_char, with);
        assert((a + b).drop_last() == a + b.drop_last());
        assert((a + b).last() == b.last());
    }
}

} // verus!
