//! Encodings that come from other crates or from std: Base64, modified UTF-7,
//! UTF-8, lower case and file names.

use base64::Engine;
use crate::text::{chars_of, occurs_at, occurs_in, text_of};
use vstd::prelude::*;
use vstd::string::*;
use vstd::utf8::{decode_utf8, valid_utf8};

verus! {

broadcast use vstd::string::group_string_axioms;

// ---------------------------------------------------------------------------
// Base64
// ---------------------------------------------------------------------------

/// What the engine `URL_SAFE_NO_PAD` of the crate `base64` makes of bytes.
pub uninterp spec fn url_base64(bytes: Seq<u8>) -> Seq<char>;

/// What the engine `URL_SAFE_NO_PAD` of the crate `base64` reads from a text;
/// nothing where it refuses the text.
pub uninterp spec fn url_base64_decoded(text: Seq<char>) -> Option<Seq<u8>>;

/// What the engine `STANDARD` of the crate `base64` makes of bytes.
pub uninterp spec fn standard_base64(bytes: Seq<u8>) -> Seq<char>;

/// The characters of the URL-safe alphabet.
pub open spec fn is_url_base64_char(c: char) -> bool {
    ||| 'A' <= c <= 'Z'
    ||| 'a' <= c <= 'z'
    ||| '0' <= c <= '9'
    ||| c == '-'
    ||| c == '_'
}

/// Whether a text is the URL-safe Base64 of bytes: it reads back as them, and
/// it is made of the URL-safe alphabet.
pub open spec fn encodes(text: Seq<char>, bytes: Seq<u8>) -> bool {
    &&& text == url_base64(bytes)
    &&& url_base64_decoded(text) == Some(bytes)
    &&& forall|i: int| 0 <= i < text.len() ==> is_url_base64_char(#[trigger] text[i])
}

/// `base64::engine::general_purpose::URL_SAFE_NO_PAD.encode`: the result is a
/// function of the bytes, is made of the URL-safe alphabet without padding,
/// and is decoded to the bytes by the same engine.
#[verifier::external_body]
pub(crate) fn encode_url_base64(bytes: &[u8]) -> (text: String)
    ensures
        text@ == url_base64(bytes@),
        encodes(text@, bytes@),
{
    base64::engine::general_purpose::URL_SAFE_NO_PAD.encode(bytes)
}

/// What an optional list of bytes holds.
pub open spec fn bytes_of(bytes: Option<Vec<u8>>) -> Option<Seq<u8>> {
    match bytes {
        Some(b) => Some(b@),
        None => None,
    }
}

/// `base64::engine::general_purpose::URL_SAFE_NO_PAD.decode`: what it returns,
/// an error included, is a function of the text.
#[verifier::external_body]
pub(crate) fn decode_url_base64(text: &str) -> (bytes: Option<Vec<u8>>)
    ensures
        bytes_of(bytes) == url_base64_decoded(text@),
{
    base64::engine::general_purpose::URL_SAFE_NO_PAD.decode(text).ok()
}

/// `base64::engine::general_purpose::STANDARD.encode`: the result is a
/// function of the bytes.
#[verifier::external_body]
pub(crate) fn encode_standard_base64(bytes: &[u8]) -> (text: String)
    ensures
        text@ == standard_base64(bytes@),
{
    base64::engine::general_purpose::STANDARD.encode(bytes)
}

// ---------------------------------------------------------------------------
// UTF-8 and lower case
// ---------------------------------------------------------------------------

/// `String::from_utf8` of std: it takes the bytes exactly when they are valid
/// UTF-8, and gives the characters that they encode.
#[verifier::external_body]
pub(crate) fn text_from_utf8(bytes: Vec<u8>) -> (text: Option<String>)
    ensures
        text is Some <==> valid_utf8(bytes@),
        text matches Some(t) ==> t@ == decode_utf8(bytes@),
{
    String::from_utf8(bytes).ok()
}

/// What `str::to_lowercase` of std makes of a text.
pub uninterp spec fn lowercase(text: Seq<char>) -> Seq<char>;

/// `str::to_lowercase` of std: the result is a function of the text.
#[verifier::external_body]
pub(crate) fn to_lowercase(text: &str) -> (lower: String)
    ensures
        lower@ == lowercase(text@),
{
    text.to_lowercase()
}

// ---------------------------------------------------------------------------
// Modified UTF-7, the encoding of mailbox names
// ---------------------------------------------------------------------------

/// What `utf7_imap::encode_utf7_imap` makes of a name.
pub uninterp spec fn utf7_encoded(name: Seq<char>) -> Seq<char>;

/// What `utf7_imap::decode_utf7_imap` makes of a name.
pub uninterp spec fn utf7_decoded(name: Seq<char>) -> Seq<char>;

/// The value of a character of the alphabet of modified Base64; `/` is read
/// like the comma that stands for it.
pub open spec fn sextet(c: char) -> Option<nat> {
    if 'A' <= c <= 'Z' {
        Some((c as u32 - 65) as nat)
    } else if 'a' <= c <= 'z' {
        Some((c as u32 - 71) as nat)
    } else if '0' <= c <= '9' {
        Some((c as u32 + 4) as nat)
    } else if c == '+' {
        Some(62)
    } else if c == ',' || c == '/' {
        Some(63)
    } else {
        None
    }
}

/// A text without the `=` behind it.
pub open spec fn without_padding(s: Seq<char>) -> Seq<char>
    decreases s.len(),
{
    if s.len() > 0 && s.last() == '=' {
        without_padding(s.drop_last())
    } else {
        s
    }
}

/// Whether the text between `&` and `-` is Base64 once it is filled up with
/// `=` to a multiple of four characters: only characters of the alphabet in
/// front of at most two `=`, and no bits set that belong to no byte.
pub open spec fn is_shifted_text(part: Seq<char>) -> bool {
    let body = without_padding(part);
    let padding = (part.len() + 3) / 4 * 4 - body.len();
    &&& forall|i: int| 0 <= i < body.len() ==> sextet(#[trigger] body[i]) is Some
    &&& padding <= 2
    &&& padding == 2 ==> sextet(body.last())->0 % 16 == 0
    &&& padding == 1 ==> sextet(body.last())->0 % 4 == 0
}

/// Whether everything that is shifted in a name can be decoded: `shifted` is
/// the text since an `&` that no `-` has closed yet.
pub open spec fn decodable_from(rest: Seq<char>, shifted: Option<Seq<char>>) -> bool
    decreases rest.len(),
{
    if rest.len() == 0 {
        true
    } else {
        let c = rest[0];
        match shifted {
            None => decodable_from(
                rest.drop_first(),
                if c == '&' {
                    Some(Seq::empty())
                } else {
                    None
                },
            ),
            Some(part) => if c == '-' {
                (part.len() == 0 || is_shifted_text(part)) && decodable_from(
                    rest.drop_first(),
                    None,
                )
            } else {
                decodable_from(rest.drop_first(), Some(part.push(c)))
            },
        }
    }
}

/// Whether a mailbox name can be decoded.
pub open spec fn is_mailbox_name(name: Seq<char>) -> bool {
    decodable_from(name, None)
}

fn sextet_value(c: char) -> (v: Option<u8>)
    ensures
        v is Some <==> sextet(c) is Some,
        v matches Some(n) ==> n == sextet(c)->0,
{
    let n: u32 = c as u32;
    if 'A' <= c && c <= 'Z' {
        Some((n - 65) as u8)
    } else if 'a' <= c && c <= 'z' {
        Some((n - 71) as u8)
    } else if '0' <= c && c <= '9' {
        Some((n + 4) as u8)
    } else if c == '+' {
        Some(62)
    } else if c == ',' || c == '/' {
        Some(63)
    } else {
        None
    }
}

fn shifted_text(part: &Vec<char>) -> (valid: bool)
    ensures
        valid == is_shifted_text(part@),
{
    let n: usize = part.len();
    let mut m: usize = n;
    assert(part@.take(n as int) == part@);
    while 0 < m && part[m - 1] == '='
        invariant
            n == part@.len(),
            m <= n,
            without_padding(part@.take(m as int)) == without_padding(part@),
        decreases m,
    {
        assert(part@.take(m as int).drop_last() == part@.take(m - 1));
        m -= 1;
    }
    let ghost body = without_padding(part@);
    assert(body == part@.take(m as int));
    let mut i: usize = 0;
    while i < m
        invariant
            n == part@.len(),
            m <= n,
            i <= m,
            body == part@.take(m as int),
            body == without_padding(part@),
            forall|k: int| 0 <= k < i ==> sextet(#[trigger] body[k]) is Some,
        decreases m - i,
    {
        if sextet_value(part[i]).is_none() {
            assert(body[i as int] == part@[i as int]);
            return false;
        }
        assert(body[i as int] == part@[i as int]);
        i += 1;
    }
    if n - m > 2 {
        return false;
    }
    let padding: usize = (n - m) + (4 - n % 4) % 4;
    if padding > 2 {
        return false;
    }
    if padding == 0 {
        return true;
    }
    if m == 0 {
        assert(n <= 2 && (n + 3) / 4 * 4 <= 2);
        return true;
    }
    assert(body.last() == part@[m - 1]);
    match sextet_value(part[m - 1]) {
        Some(v) => if padding == 2 {
            v % 16 == 0
        } else {
            v % 4 == 0
        },
        None => false,
    }
}

/// Tells whether a mailbox name can be decoded.
pub fn mailbox_name(name: &str) -> (valid: bool)
    ensures
        valid == is_mailbox_name(name@),
{
    let chars = chars_of(name);
    let n: usize = chars.len();
    let mut part: Vec<char> = Vec::new();
    let mut open = false;
    let mut i: usize = 0;
    assert(chars@.skip(0) == chars@);
    while i < n
        invariant
            chars@ == name@,
            n == chars@.len(),
            i <= n,
            part@.len() <= i,
            is_mailbox_name(name@) == decodable_from(
                chars@.skip(i as int),
                if open {
                    Some(part@)
                } else {
                    None
                },
            ),
        decreases n - i,
    {
        let c = chars[i];
        assert(chars@.skip(i as int)[0] == c);
        assert(chars@.skip(i as int).drop_first() == chars@.skip(i + 1));
        if !open {
            if c == '&' {
                open = true;
                part = Vec::new();
                assert(part@ == Seq::<char>::empty());
            }
        } else if c == '-' {
            if part.len() > 0 && !shifted_text(&part) {
                return false;
            }
            open = false;
        } else {
            part.push(c);
        }
        i += 1;
    }
    true
}

/// Whether a name holds none of the characters whose UTF-16 can be taken for
/// a byte order mark where a shifted text begins with it.
pub open spec fn has_no_order_mark(name: Seq<char>) -> bool {
    forall|i: int|
        0 <= i < name.len() ==> {
            let n = (#[trigger] name[i]) as u32;
            n != 0xfeff && n != 0xfffe && n != 0xefbb
        }
}

/// `utf7_imap::encode_utf7_imap`: the result is a function of the name. It can
/// be decoded by the same crate, and is decoded to the name unless something
/// in the name can be taken for a byte order mark.
#[verifier::external_body]
pub(crate) fn encode_mailbox_name(name: String) -> (raw: String)
    ensures
        raw@ == utf7_encoded(name@),
        is_mailbox_name(raw@),
        has_no_order_mark(name@) ==> utf7_decoded(raw@) == name@,
{
    utf7_imap::encode_utf7_imap(name)
}

/// `utf7_imap::decode_utf7_imap`: the result is a function of the name. It
/// panics on a name in which something shifted is not Base64.
#[verifier::external_body]
pub(crate) fn decode_mailbox_name(raw: String) -> (name: String)
    requires
        is_mailbox_name(raw@),
    ensures
        name@ == utf7_decoded(raw@),
{
    utf7_imap::decode_utf7_imap(raw)
}

// ---------------------------------------------------------------------------
// File names
// ---------------------------------------------------------------------------

/// Whether a component of a path is a name: it is not empty, and names no
/// directory by dots.
pub open spec fn is_name(component: Seq<char>) -> bool {
    &&& component.len() > 0
    &&& component != seq!['.']
    &&& component != seq!['.', '.']
}

/// Whether a text can name a file of a directory on every system: it is a name,
/// and holds no character that can separate or prefix paths.
pub open spec fn is_plain_name(name: Seq<char>) -> bool {
    &&& is_name(name)
    &&& !name.contains('/')
    &&& !name.contains('\\')
    &&& !name.contains(':')
}

/// What separates the components of a path on every system.
pub open spec fn slash() -> Seq<char> {
    seq!['/']
}

/// What separates the components of a path where paths can begin with a drive.
pub open spec fn slashes() -> Seq<char> {
    seq!['/', '\\']
}

/// What stands behind the last separator of a path.
pub open spec fn tail_of(path: Seq<char>, separators: Seq<char>) -> Seq<char>
    decreases path.len(),
{
    if path.len() == 0 || separators.contains(path.last()) {
        Seq::empty()
    } else {
        tail_of(path.drop_last(), separators).push(path.last())
    }
}

/// The name in which a path without a prefix ends: the last component, without
/// the separators and the `.` components behind it. A path that ends in `..`,
/// and one without components, has none.
pub open spec fn last_name(path: Seq<char>, separators: Seq<char>) -> Option<Seq<char>>
    decreases path.len(),
{
    let tail = tail_of(path, separators);
    if is_name(tail) {
        Some(tail)
    } else if tail == seq!['.', '.'] || tail.len() >= path.len() {
        None
    } else {
        last_name(path.take(path.len() - tail.len() - 1), separators)
    }
}

/// Whether a path begins with two separators, as those do that name a share, a
/// device, or something to be taken literally.
pub open spec fn begins_twice(path: Seq<char>) -> bool {
    path.len() >= 2 && slashes().contains(path[0]) && slashes().contains(path[1])
}

/// What separates the components of a path that begins with two separators: in
/// one that is to be taken literally, and so begins with `\\?\`, only `\` does.
pub open spec fn literal_separators(path: Seq<char>) -> Seq<char> {
    if seq!['\\', '\\', '?', '\\'].is_prefix_of(path) {
        seq!['\\']
    } else {
        slashes()
    }
}

/// How many separators of a path that begins with two of them stand in front
/// of what is behind its prefix: `\\server\share\`, `\\.\device\`, `\\?\name\`
/// and `\\?\C:\` have four, and `\\?\UNC\server\share\` has six.
pub open spec fn prefix_separators(path: Seq<char>) -> nat {
    if seq!['\\', '\\', '?', '\\', 'U', 'N', 'C', '\\'].is_prefix_of(path) {
        6
    } else {
        4
    }
}

/// Whether the last component of a path that begins with two separators stands
/// behind the prefix: there are enough separators, and no others than the first
/// two stand side by side.
pub open spec fn reaches_behind_prefix(path: Seq<char>) -> bool {
    let separators = literal_separators(path);
    &&& path.filter(|c: char| separators.contains(c)).len() >= prefix_separators(path)
    &&& forall|i: int|
        1 <= i < path.len() - 1 ==> !(separators.contains(#[trigger] path[i])
            && separators.contains(path[i + 1]))
}

/// What holds of the file name of a path that begins with two separators, where
/// such a path has a prefix: a name is one component of the path, a path that
/// ends in `..` has none, and a name behind the prefix is the file name.
pub open spec fn names_file_behind_prefix(path: Seq<char>, name: Option<Seq<char>>) -> bool {
    let separators = literal_separators(path);
    let tail = tail_of(path, separators);
    &&& name matches Some(n) ==> {
        &&& is_name(n)
        &&& forall|c: char| separators.contains(c) ==> !n.contains(c)
        &&& occurs_in(path, n)
    }
    &&& tail == seq!['.', '.'] ==> name is None
    &&& is_name(tail) && reaches_behind_prefix(path) ==> name == Some(tail)
}

/// What holds of the file name of a path where `/` and `\` separate and paths
/// can begin with a drive or another prefix: without a prefix it is the name in
/// which the path ends, and behind a drive the one in which the rest ends.
pub open spec fn names_file_with_prefixes(path: Seq<char>, name: Option<Seq<char>>) -> bool {
    if begins_twice(path) {
        names_file_behind_prefix(path, name)
    } else {
        ||| name == last_name(path, slashes())
        ||| path.len() >= 2 && path[1] == ':' && name == last_name(path.skip(2), slashes())
    }
}

/// What holds of the file name of a path: where `/` alone separates it is the
/// name in which the path ends, and else what holds where paths can have a
/// prefix.
pub open spec fn names_file(path: Seq<char>, name: Option<Seq<char>>) -> bool {
    name == last_name(path, slash()) || names_file_with_prefixes(path, name)
}

/// Whether all systems take a path apart in the same way: it has no `\`, which
/// separates on some of them only, and begins neither with two separators nor
/// with a drive.
pub open spec fn reads_alike(path: Seq<char>) -> bool {
    &&& !path.contains('\\')
    &&& !begins_twice(path)
    &&& !(path.len() >= 2 && path[1] == ':')
}

/// What stands behind everything in a path that separates or prefixes on some
/// system.
pub open spec fn last_piece(path: Seq<char>) -> Seq<char> {
    tail_of(path, seq!['/', '\\', ':'])
}

/// What stands behind the last separator is the end of the path, and holds no
/// separator.
proof fn tail_is_the_end(path: Seq<char>, separators: Seq<char>)
    ensures
        tail_of(path, separators).len() <= path.len(),
        tail_of(path, separators) == path.skip(path.len() - tail_of(path, separators).len()),
        forall|c: char| separators.contains(c) ==> !tail_of(path, separators).contains(c),
    decreases path.len(),
{
    let tail = tail_of(path, separators);
    if path.len() > 0 && !separators.contains(path.last()) {
        let before = path.drop_last();
        let short = tail_of(before, separators);
        tail_is_the_end(before, separators);
        assert(tail == path.skip(path.len() - tail.len()));
        assert forall|c: char| separators.contains(c) implies !tail.contains(c) by {
            assert(!short.contains(c));
            if tail.contains(c) {
                let k = choose|k: int| 0 <= k < tail.len() && tail[k] == c;
                if k < short.len() {
                    assert(short[k] == c);
                }
            }
        }
    } else {
        assert(tail == path.skip(path.len() as int));
    }
}

/// A text without separators is all that stands behind the last of them.
pub(crate) proof fn tail_without_separator(path: Seq<char>, separators: Seq<char>)
    requires
        forall|c: char| separators.contains(c) ==> !path.contains(c),
    ensures
        tail_of(path, separators) == path,
    decreases path.len(),
{
    if path.len() > 0 {
        let before = path.drop_last();
        assert(path.contains(path.last()));
        assert forall|c: char| separators.contains(c) implies !before.contains(c) by {
            if before.contains(c) {
                let k = choose|k: int| 0 <= k < before.len() && before[k] == c;
                assert(path[k] == c);
            }
        }
        tail_without_separator(before, separators);
        assert(before.push(path.last()) == path);
    }
}

/// The name in which a path ends is one component of it.
pub(crate) proof fn last_name_is_one_component(path: Seq<char>, separators: Seq<char>)
    ensures
        last_name(path, separators) matches Some(n) ==> {
            &&& is_name(n)
            &&& forall|c: char| separators.contains(c) ==> !n.contains(c)
            &&& occurs_in(path, n)
        },
    decreases path.len(),
{
    let tail = tail_of(path, separators);
    tail_is_the_end(path, separators);
    if is_name(tail) {
        let at = path.len() - tail.len();
        assert(path.subrange(at, at + tail.len()) == path.skip(at));
        assert(occurs_at(path, tail, at));
    } else if tail != seq!['.', '.'] && tail.len() < path.len() {
        let before = path.take(path.len() - tail.len() - 1);
        last_name_is_one_component(before, separators);
        if let Some(n) = last_name(before, separators) {
            let at = choose|at: int| occurs_at(before, n, at);
            assert(path.subrange(at, at + n.len()) == before.subrange(at, at + n.len()));
            assert(occurs_at(path, n, at));
        }
    }
}

/// Whatever the system, a file name is a name, is part of the path, and holds
/// no `/` where the path has no `\`.
pub(crate) proof fn file_name_is_part_of_path(path: Seq<char>, name: Seq<char>)
    requires
        names_file(path, Some(name)),
    ensures
        is_name(name),
        occurs_in(path, name),
        !path.contains('\\') ==> !name.contains('/'),
{
    last_name_is_one_component(path, slash());
    last_name_is_one_component(path, slashes());
    assert(slash()[0] == '/');
    assert(slashes()[0] == '/');
    if begins_twice(path) {
        if seq!['\\', '\\', '?', '\\'].is_prefix_of(path) {
            assert(path[0] == '\\');
        }
    } else if path.len() >= 2 {
        let rest = path.skip(2);
        last_name_is_one_component(rest, slashes());
        if last_name(rest, slashes()) == Some(name) {
            let at = choose|at: int| occurs_at(rest, name, at);
            assert(path.subrange(at + 2, at + 2 + name.len()) == rest.subrange(
                at,
                at + name.len(),
            ));
            assert(occurs_at(path, name, at + 2));
        }
    }
}

/// In a path without `\` both kinds of separators separate the same.
proof fn tails_are_alike(path: Seq<char>)
    requires
        !path.contains('\\'),
    ensures
        tail_of(path, slash()) == tail_of(path, slashes()),
    decreases path.len(),
{
    if path.len() > 0 {
        assert(path.contains(path.last()));
        assert(slash()[0] == '/');
        assert(slashes()[0] == '/');
        let before = path.drop_last();
        if before.contains('\\') {
            let k = choose|k: int| 0 <= k < before.len() && before[k] == '\\';
            assert(path[k] == '\\');
        }
        tails_are_alike(before);
    }
}

/// A path without `\` ends in the same name for both kinds of separators.
proof fn last_names_are_alike(path: Seq<char>)
    requires
        !path.contains('\\'),
    ensures
        last_name(path, slash()) == last_name(path, slashes()),
    decreases path.len(),
{
    tails_are_alike(path);
    let tail = tail_of(path, slash());
    if tail.len() < path.len() {
        let before = path.take(path.len() - tail.len() - 1);
        if before.contains('\\') {
            let k = choose|k: int| 0 <= k < before.len() && before[k] == '\\';
            assert(path[k] == '\\');
        }
        last_names_are_alike(before);
    }
}

/// Where all systems take a path apart in the same way, its file name is the
/// name in which it ends.
pub(crate) proof fn file_name_is_last_name(path: Seq<char>, name: Option<Seq<char>>)
    requires
        names_file(path, name),
        reads_alike(path),
    ensures
        name == last_name(path, slash()),
{
    last_names_are_alike(path);
}

/// What is taken off in front of the tail of a path does not change the tail.
proof fn tail_of_rest(path: Seq<char>, at: int, separators: Seq<char>)
    requires
        0 <= at <= path.len() - tail_of(path, separators).len(),
    ensures
        tail_of(path.skip(at), separators) == tail_of(path, separators),
    decreases path.len(),
{
    let rest = path.skip(at);
    if rest.len() > 0 && !separators.contains(path.last()) {
        assert(rest.last() == path.last());
        assert(rest.drop_last() == path.drop_last().skip(at));
        tail_of_rest(path.drop_last(), at, separators);
    }
}

/// A path without `\` that ends in `..` has no file name.
pub(crate) proof fn no_file_is_named_by_dots(path: Seq<char>, name: Option<Seq<char>>)
    requires
        names_file(path, name),
        !path.contains('\\'),
        tail_of(path, slash()) == seq!['.', '.'],
    ensures
        name is None,
{
    tails_are_alike(path);
    if begins_twice(path) {
        if seq!['\\', '\\', '?', '\\'].is_prefix_of(path) {
            assert(path[0] == '\\');
        }
    } else if path.len() >= 2 && path[1] == ':' {
        tail_is_the_end(path, slash());
        assert(path.skip(path.len() - 2)[0] == '.' && path.skip(path.len() - 2)[1] == '.');
        assert(path.len() >= 4);
        tail_of_rest(path, 2, slashes());
    }
}

/// The more separates, the less stands behind the last separator.
proof fn tails_are_nested(path: Seq<char>, separators: Seq<char>, more: Seq<char>)
    requires
        forall|c: char| separators.contains(c) ==> more.contains(c),
    ensures
        tail_of(path, more).is_suffix_of(tail_of(path, separators)),
    decreases path.len(),
{
    if path.len() > 0 && !more.contains(path.last()) {
        tails_are_nested(path.drop_last(), separators, more);
        let short = tail_of(path.drop_last(), more);
        let long = tail_of(path.drop_last(), separators);
        assert(short == long.skip(long.len() - short.len()));
        assert(short.push(path.last()) == long.push(path.last()).skip(long.len() - short.len()));
    } else {
        let long = tail_of(path, separators);
        assert(Seq::<char>::empty() == long.skip(long.len() as int));
    }
}

/// A path whose last piece is a name ends in a name that ends in that piece.
proof fn last_piece_ends_last_name(path: Seq<char>, separators: Seq<char>)
    requires
        separators == slash() || separators == slashes(),
        is_name(last_piece(path)),
    ensures
        last_name(path, separators) matches Some(n) && last_piece(path).is_suffix_of(n),
{
    let all = seq!['/', '\\', ':'];
    assert(all[0] == '/' && all[1] == '\\');
    tails_are_nested(path, separators, all);
    let tail = tail_of(path, separators);
    let piece = last_piece(path);
    assert(piece == tail.skip(tail.len() - piece.len()));
    if tail == seq!['.'] {
        assert(piece == seq!['.']);
    }
    if tail == seq!['.', '.'] {
        assert(piece == seq!['.'] || piece == seq!['.', '.']);
    }
}

/// Whatever the system, a path that does not begin with two separators and
/// whose last piece is a name has a file name, one that ends in that piece and
/// holds no `/`.
pub(crate) proof fn file_name_ends_in_last_piece(path: Seq<char>, name: Option<Seq<char>>)
    requires
        names_file(path, name),
        !begins_twice(path),
        is_name(last_piece(path)),
    ensures
        name matches Some(n) && last_piece(path).is_suffix_of(n) && !n.contains('/'),
{
    last_piece_ends_last_name(path, slash());
    last_piece_ends_last_name(path, slashes());
    last_name_is_one_component(path, slash());
    last_name_is_one_component(path, slashes());
    assert(slash()[0] == '/');
    assert(slashes()[0] == '/');
    if path.len() >= 2 && path[1] == ':' {
        let all = seq!['/', '\\', ':'];
        assert(all[2] == ':');
        tail_is_the_end(path, all);
        let tail = tail_of(path, all);
        let at = path.len() - tail.len();
        assert(all.contains(':'));
        if at < 2 {
            assert(path.skip(at)[1 - at] == ':');
        }
        tail_of_rest(path, 2, all);
        last_piece_ends_last_name(path.skip(2), slashes());
        last_name_is_one_component(path.skip(2), slashes());
    }
}

/// `Path::file_name` of std, as text. What separates the components of a path
/// and what can stand in front of them depends on the system, so the contract
/// claims that one of two things holds: the name is the one where `/` alone
/// separates, or what the documentation of `Prefix` says of systems on which
/// paths have prefixes. Which of the two it is, is left unsaid, and so is, on
/// the latter systems, whether a path that begins with two separators has a
/// name where it ends in a separator or a `.`, or has not more than a prefix.
#[verifier::external_body]
pub(crate) fn path_file_name(path: &str) -> (name: Option<String>)
    ensures
        names_file(path@, text_of(name)),
{
    std::path::Path::new(path).file_name().and_then(|name| name.to_str()).map(str::to_string)
}

} // verus!
