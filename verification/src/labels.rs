//! Labels, and the keywords that carry them on the mail server.

use crate::codec::{
    decode_url_base64, encode_url_base64, encodes, text_from_utf8, url_base64, url_base64_decoded,
};
use crate::text::{
    breaks_line, chars_of, has_line_break, starts_with, text_of, trim, trimmed,
    trimmed_once_is_enough,
};
use vstd::prelude::*;
use vstd::string::*;
use vstd::utf8::{decode_utf8, encode_utf8, valid_utf8};

verus! {

broadcast use vstd::string::group_string_axioms;

/// A flag of a message.
#[derive(Debug)]
pub enum Flag {
    Seen,
    Answered,
    Flagged,
    Deleted,
    Draft,
    Recent,
    MayCreate,
    Custom(String),
}

/// What a flag stands for.
#[verifier::ext_equal]
pub enum FlagView {
    Seen,
    Answered,
    Flagged,
    Deleted,
    Draft,
    Recent,
    MayCreate,
    Custom(Seq<char>),
}

impl View for Flag {
    type V = FlagView;

    open spec fn view(&self) -> FlagView {
        match self {
            Flag::Seen => FlagView::Seen,
            Flag::Answered => FlagView::Answered,
            Flag::Flagged => FlagView::Flagged,
            Flag::Deleted => FlagView::Deleted,
            Flag::Draft => FlagView::Draft,
            Flag::Recent => FlagView::Recent,
            Flag::MayCreate => FlagView::MayCreate,
            Flag::Custom(value) => FlagView::Custom(value@),
        }
    }
}

/// Characters that a label may hold to be a keyword as it is.
pub open spec fn is_keyword_char(c: char) -> bool {
    ||| 'A' <= c <= 'Z'
    ||| 'a' <= c <= 'z'
    ||| '0' <= c <= '9'
    ||| c == '_'
    ||| c == '.'
    ||| c == '$'
    ||| c == '-'
}

/// Whether a label can be a keyword as it is.
pub open spec fn is_plain_label(name: Seq<char>) -> bool {
    forall|i: int| 0 <= i < name.len() ==> is_keyword_char(#[trigger] name[i])
}

/// Whether a text, without the white space around it, can be a label: one to
/// fifteen characters in one line.
pub open spec fn is_label_name(label: Seq<char>) -> bool {
    let name = trimmed(label);
    0 < name.len() <= 15 && !breaks_line(name)
}

/// Whether a keyword carries a label: it is the label itself where that can be
/// a keyword, and else a prefix and the URL-safe Base64 of the label's UTF-8.
pub open spec fn carries(keyword: Seq<char>, label: Seq<char>) -> bool {
    let name = trimmed(label);
    if is_plain_label(name) {
        keyword == name
    } else {
        let code = keyword.skip("emailcli-"@.len() as int);
        &&& "emailcli-"@.is_prefix_of(keyword)
        &&& keyword == "emailcli-"@ + code
        &&& encodes(code, encode_utf8(name))
    }
}

/// The keyword of a label.
pub open spec fn keyword_of(label: Seq<char>) -> Seq<char> {
    let name = trimmed(label);
    if is_plain_label(name) {
        name
    } else {
        "emailcli-"@ + url_base64(encode_utf8(name))
    }
}

/// Keywords that servers and clients set for themselves.
pub open spec fn is_internal_keyword(raw: Seq<char>) -> bool {
    ||| raw == "encrypted"@
    ||| "system_"@.is_prefix_of(raw)
    ||| raw == "$Junk"@
    ||| raw == "$NotJunk"@
    ||| raw == "Junk"@
    ||| raw == "NotJunk"@
    ||| raw == "JunkRecorded"@
    ||| raw == "$Forwarded"@
}

/// The label that a flag carries, if any.
pub open spec fn label_of_flag(flag: FlagView) -> Option<Seq<char>> {
    match flag {
        FlagView::Custom(raw) => if "emailcli-"@.is_prefix_of(raw) {
            match url_base64_decoded(raw.skip("emailcli-"@.len() as int)) {
                Some(bytes) => if valid_utf8(bytes) {
                    Some(decode_utf8(bytes))
                } else {
                    None
                },
                None => None,
            }
        } else if is_internal_keyword(raw) {
            None
        } else {
            Some(raw)
        },
        _ => None,
    }
}

/// Whether a label is a keyword that reads as something else: as an encoded
/// label or as an internal keyword.
pub open spec fn is_reserved(label: Seq<char>) -> bool {
    let name = trimmed(label);
    is_plain_label(name) && ("emailcli-"@.is_prefix_of(name) || is_internal_keyword(name))
}

/// A label that is put on a message reads back as the same label, without the
/// white space around it, unless it is one of the reserved keywords.
pub proof fn label_round_trip(label: Seq<char>, keyword: Seq<char>)
    requires
        is_label_name(label),
        carries(keyword, label),
        !is_reserved(label),
    ensures
        label_of_flag(FlagView::Custom(keyword)) == Some(trimmed(label)),
{
    let name = trimmed(label);
    if !is_plain_label(name) {
        vstd::utf8::encode_utf8_valid_utf8(name);
        vstd::utf8::encode_utf8_decode_utf8(name);
    }
}

/// A keyword is made of letters, digits and a few signs only, so that nothing
/// in a label can end the command that the keyword stands in.
pub proof fn keyword_is_an_atom(label: Seq<char>, keyword: Seq<char>)
    requires
        carries(keyword, label),
    ensures
        is_plain_label(keyword),
        !breaks_line(keyword),
{
    let name = trimmed(label);
    if !is_plain_label(name) {
        reveal_strlit("emailcli-");
        let code = keyword.skip("emailcli-"@.len() as int);
        assert forall|i: int| 0 <= i < keyword.len() implies is_keyword_char(
            #[trigger] keyword[i],
        ) by {
            if i >= 9 {
                assert(keyword[i] == code[i - 9]);
            } else {
                assert(keyword[i] == "emailcli-"@[i]);
            }
        }
    }
    assert forall|i: int| 0 <= i < keyword.len() implies keyword[i] != '\r' && keyword[i]
        != '\n' by {
        assert(is_keyword_char(keyword[i]));
    }
}

/// Two labels that share a keyword are the same label.
pub proof fn keyword_identifies_label(a: Seq<char>, b: Seq<char>, keyword: Seq<char>)
    requires
        carries(keyword, a),
        carries(keyword, b),
        !is_reserved(a),
        !is_reserved(b),
    ensures
        trimmed(a) == trimmed(b),
{
    if !is_plain_label(trimmed(a)) && !is_plain_label(trimmed(b)) {
        vstd::utf8::encode_utf8_decode_utf8(trimmed(a));
        vstd::utf8::encode_utf8_decode_utf8(trimmed(b));
    }
}

/// The keyword of a label does not depend on the white space around it.
pub proof fn keyword_ignores_outer_space(label: Seq<char>, keyword: Seq<char>)
    ensures
        is_label_name(trimmed(label)) == is_label_name(label),
        carries(keyword, trimmed(label)) == carries(keyword, label),
{
    trimmed_once_is_enough(label);
}

fn keyword_char(c: char) -> (fits: bool)
    ensures
        fits == is_keyword_char(c),
{
    ('A' <= c && c <= 'Z') || ('a' <= c && c <= 'z') || ('0' <= c && c <= '9') || c == '_' || c
        == '.' || c == '$' || c == '-'
}

fn plain_label(chars: &Vec<char>) -> (plain: bool)
    ensures
        plain == is_plain_label(chars@),
{
    let mut i: usize = 0;
    while i < chars.len()
        invariant
            i <= chars@.len(),
            forall|k: int| 0 <= k < i ==> is_keyword_char(#[trigger] chars@[k]),
        decreases chars@.len() - i,
    {
        if !keyword_char(chars[i]) {
            return false;
        }
        i += 1;
    }
    true
}

/// The keyword that carries a label; an error for a text that cannot be a
/// label.
pub fn encode_label(label: &str) -> (keyword: Result<String, String>)
    ensures
        keyword is Ok <==> is_label_name(label@),
        keyword matches Ok(k) ==> k@ == keyword_of(label@) && carries(k@, label@),
        keyword matches Err(e) ==> e@
            == "Название метки должно содержать от 1 до 15 символов"@,
{
    let name = trim(label);
    let chars = chars_of(name);
    if chars.len() == 0 || chars.len() > 15 || has_line_break(name) {
        return Err("Название метки должно содержать от 1 до 15 символов".to_owned());
    }
    if plain_label(&chars) {
        return Ok(name.to_owned());
    }
    let code = encode_url_base64(name.as_bytes());
    let mut keyword = "emailcli-".to_owned();
    keyword.append(code.as_str());
    assert(keyword@.skip("emailcli-"@.len() as int) == code@);
    assert("emailcli-"@.is_prefix_of(keyword@));
    Ok(keyword)
}

fn internal_keyword(raw: &str) -> (found: bool)
    ensures
        found == is_internal_keyword(raw@),
{
    raw.eq("encrypted") || starts_with(raw, "system_") || raw.eq("$Junk") || raw.eq("$NotJunk")
        || raw.eq("Junk") || raw.eq("NotJunk") || raw.eq("JunkRecorded") || raw.eq("$Forwarded")
}

/// The label that a borrowed flag carries, if any.
pub(crate) fn label_in(flag: &Flag) -> (label: Option<String>)
    ensures
        text_of(label) == label_of_flag(flag@),
{
    match flag {
        Flag::Custom(value) => {
            let raw = value.as_str();
            if starts_with(raw, "emailcli-") {
                proof {
                    reveal_strlit("emailcli-");
                }
                let n: usize = raw.unicode_len();
                let code = raw.substring_char(9, n);
                assert(code@ == raw@.skip(9));
                return match decode_url_base64(code) {
                    Some(bytes) => text_from_utf8(bytes),
                    None => None,
                };
            }
            if internal_keyword(raw) {
                None
            } else {
                Some(raw.to_owned())
            }
        },
        _ => None,
    }
}

/// The label that a flag carries, if any.
pub fn user_label(flag: Flag) -> (label: Option<String>)
    ensures
        text_of(label) == label_of_flag(flag@),
{
    label_in(&flag)
}

} // verus!
