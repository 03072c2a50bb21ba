//! The attachments of received messages: what is shown of them, and under
//! which names they are kept.

use crate::codec::{
    begins_twice, encode_standard_base64, file_name_ends_in_last_piece, file_name_is_last_name,
    file_name_is_part_of_path, is_name, is_plain_name, last_name, last_name_is_one_component,
    last_piece, names_file, no_file_is_named_by_dots, path_file_name, reads_alike, slash,
    standard_base64, tail_of, tail_without_separator,
};
use crate::mime::{is_message, parse_parts, parts_of, Part, PartType, PartTypeView, PartView};
use crate::model::{
    Attachment, AttachmentPreview, AttachmentView, LocalAttachment, LocalAttachmentView,
    PreviewView,
};
use crate::text::{
    copy_optional, decimal, decimal_is_injective, decimal_not_empty, has_char,
    occurs_at, occurs_in, prefixed, text_of, text_or, texts, to_decimal, views,
};
use vstd::prelude::*;
use vstd::string::*;

verus! {

broadcast use vstd::string::group_string_axioms;

/// The largest image that is previewed, in bytes: four mebibytes.
pub const IMAGE_PREVIEW_LIMIT: usize = 4_194_304;

// ---------------------------------------------------------------------------
// Types and names
// ---------------------------------------------------------------------------

/// The MIME type of a part, or another text where the part names none.
pub open spec fn mime_type_of(content_type: Option<PartTypeView>, other: Seq<char>) -> Seq<char> {
    match content_type {
        Some(t) => t.kind + "/"@ + text_or(t.subtype, "octet-stream"@),
        None => other,
    }
}

/// The file name extension for a MIME type.
pub open spec fn extension_for(mime_type: Seq<char>) -> Seq<char> {
    if mime_type == "image/png"@ {
        ".png"@
    } else if mime_type == "image/jpeg"@ {
        ".jpg"@
    } else if mime_type == "image/gif"@ {
        ".gif"@
    } else if mime_type == "application/pdf"@ {
        ".pdf"@
    } else if mime_type == "text/plain"@ {
        ".txt"@
    } else {
        ""@
    }
}

/// The file name extension for the type of a part.
pub open spec fn extension_of(content_type: Option<PartTypeView>) -> Seq<char> {
    match content_type {
        Some(t) => if t.kind == "image"@ && t.subtype == Some("png"@) {
            ".png"@
        } else if t.kind == "image"@ && t.subtype == Some("jpeg"@) {
            ".jpg"@
        } else if t.kind == "image"@ && t.subtype == Some("gif"@) {
            ".gif"@
        } else if t.kind == "application"@ && t.subtype == Some("pdf"@) {
            ".pdf"@
        } else if t.kind == "text"@ && t.subtype == Some("plain"@) {
            ".txt"@
        } else {
            ""@
        },
        None => ""@,
    }
}

/// The name of an attachment that has none: its place in the message, counted
/// from one, and an extension.
pub open spec fn numbered_name(id: nat, extension: Seq<char>) -> Seq<char> {
    "Вложение "@ + decimal(id + 1) + extension
}

/// What is shown of the attachment at a place in a message.
pub open spec fn shown_attachment(id: int, part: PartView) -> AttachmentView {
    let mime_type = mime_type_of(part.content_type, "application/octet-stream"@);
    AttachmentView {
        id: id as u32,
        filename: text_or(part.name, numbered_name(id as nat, extension_for(mime_type))),
        mime_type,
        size: part.contents.len() as usize,
    }
}

/// What is shown of the attachments of a message.
pub open spec fn shown_attachments(parts: Seq<PartView>) -> Seq<AttachmentView> {
    parts.map(|id: int, part: PartView| shown_attachment(id, part))
}

fn mime_type(content_type: &Option<PartType>, other: &str) -> (text: String)
    ensures
        text@ == mime_type_of(crate::mime::type_of(*content_type), other@),
{
    match content_type {
        Some(t) => {
            let mut text = t.kind.as_str().to_owned();
            text.append("/");
            match &t.subtype {
                Some(subtype) => text.append(subtype.as_str()),
                None => text.append("octet-stream"),
            }
            text
        },
        None => other.to_owned(),
    }
}

/// The file name extension for a MIME type.
fn type_extension(mime_type: &str) -> (extension: &'static str)
    ensures
        extension@ == extension_for(mime_type@),
{
    if mime_type.eq("image/png") {
        ".png"
    } else if mime_type.eq("image/jpeg") {
        ".jpg"
    } else if mime_type.eq("image/gif") {
        ".gif"
    } else if mime_type.eq("application/pdf") {
        ".pdf"
    } else if mime_type.eq("text/plain") {
        ".txt"
    } else {
        ""
    }
}

fn is_text(text: &Option<String>, wanted: &str) -> (same: bool)
    ensures
        same == (text_of(*text) == Some(wanted@)),
{
    match text {
        Some(t) => t.as_str().eq(wanted),
        None => false,
    }
}

/// The file name extension for the type of a part.
fn part_extension(content_type: &Option<PartType>) -> (extension: &'static str)
    ensures
        extension@ == extension_of(crate::mime::type_of(*content_type)),
{
    match content_type {
        Some(t) => {
            let kind = t.kind.as_str();
            if kind.eq("image") && is_text(&t.subtype, "png") {
                ".png"
            } else if kind.eq("image") && is_text(&t.subtype, "jpeg") {
                ".jpg"
            } else if kind.eq("image") && is_text(&t.subtype, "gif") {
                ".gif"
            } else if kind.eq("application") && is_text(&t.subtype, "pdf") {
                ".pdf"
            } else if kind.eq("text") && is_text(&t.subtype, "plain") {
                ".txt"
            } else {
                ""
            }
        },
        None => "",
    }
}

fn number_name(id: usize, extension: &str) -> (name: String)
    requires
        id < usize::MAX,
    ensures
        name@ == numbered_name(id as nat, extension@),
{
    let mut name = "Вложение ".to_owned();
    let number: u64 = (id + 1) as u64;
    let text = to_decimal(number);
    name.append(text.as_str());
    name.append(extension);
    name
}

/// What is shown of the attachments of a message: their places as numbers,
/// their names, types and sizes.
pub fn attachments_from(parts: &Vec<Part>) -> (shown: Vec<Attachment>)
    ensures
        views(shown@) == shown_attachments(views(parts@)),
{
    let mut shown: Vec<Attachment> = Vec::new();
    let n: usize = parts.len();
    let mut i: usize = 0;
    assert(views(shown@) == shown_attachments(views(parts@)).take(0));
    while i < n
        invariant
            n == parts@.len(),
            i <= n,
            views(shown@) == shown_attachments(views(parts@)).take(i as int),
        decreases n - i,
    {
        let ghost before = views(shown@);
        let part = &parts[i];
        let kind = mime_type(&part.content_type, "application/octet-stream");
        let filename = match copy_optional(&part.name) {
            Some(name) => name,
            None => number_name(i, type_extension(kind.as_str())),
        };
        let item = Attachment {
            id: i as u32,
            filename,
            mime_type: kind,
            size: part.contents.len(),
        };
        assert(item@ == shown_attachment(i as int, parts@[i as int]@));
        shown.push(item);
        assert(views(shown@) == before.push(item@));
        i += 1;
    }
    assert(shown_attachments(views(parts@)).take(n as int) == shown_attachments(views(parts@)));
    shown
}

// ---------------------------------------------------------------------------
// Safe file names
// ---------------------------------------------------------------------------

/// The name for a file whose path was found to end in a given name: that name,
/// where it leads to a file of the directory in which it is looked up.
pub open spec fn safe_name(found: Option<Seq<char>>) -> Seq<char> {
    match found {
        Some(name) => if stays_in_directory(name) {
            name
        } else {
            "Вложение"@
        },
        None => "Вложение"@,
    }
}

/// Whether a name, where `/` separates, leads to a file of the directory in
/// which it is looked up, and neither into another directory nor to a
/// directory itself.
pub open spec fn stays_in_directory(name: Seq<char>) -> bool {
    &&& name.len() > 0
    &&& name != "."@
    &&& name != ".."@
    &&& !name.contains('/')
}

/// Whether a file that calls itself `value` is kept under a name: the last
/// name of `value` as a path, where it has one that is safe.
pub open spec fn kept_under(value: Seq<char>, name: Seq<char>) -> bool {
    exists|found: Option<Seq<char>>| #[trigger]
        names_file(value, found) && name == safe_name(found)
}

/// The name for a file whose path was found to end in a given name.
pub fn safe_name_from(found: Option<String>) -> (name: String)
    ensures
        name@ == safe_name(text_of(found)),
{
    match found {
        Some(name) => if !name.as_str().is_empty() && !name.as_str().eq(".")
            && !name.as_str().eq("..") && !has_char(name.as_str(), '/') {
            name
        } else {
            "Вложение".to_owned()
        },
        None => "Вложение".to_owned(),
    }
}

/// The name under which a file that calls itself `value` is kept.
pub fn safe_filename(value: &str) -> (name: String)
    ensures
        kept_under(value@, name@),
        reads_alike(value@) ==> name@ == safe_name(last_name(value@, slash())),
{
    let found = path_file_name(value);
    let ghost seen = text_of(found);
    let name = safe_name_from(found);
    assert(names_file(value@, seen) && name@ == safe_name(seen));
    proof {
        if reads_alike(value@) {
            file_name_is_last_name(value@, seen);
        }
    }
    name
}

/// Whatever a file calls itself, it is kept under a name that leads to a file
/// of the directory that was chosen for it, and that is a part of what the
/// file calls itself, or a fixed one. The name of a file that calls itself by
/// no character but `/` that can separate or prefix paths is one on every
/// system.
pub proof fn kept_files_stay_in_their_directory(value: Seq<char>, name: Seq<char>)
    requires
        kept_under(value, name),
    ensures
        stays_in_directory(name),
        name == "Вложение"@ || occurs_in(value, name),
        !value.contains('\\') && !value.contains(':') ==> is_plain_name(name),
{
    reveal_strlit("Вложение");
    reveal_strlit(".");
    reveal_strlit("..");
    assert("."@ == seq!['.']);
    assert(".."@ == seq!['.', '.']);
    if name != "Вложение"@ {
        file_name_is_part_of_path(value, name);
        let at = choose|at: int| occurs_at(value, name, at);
        assert forall|c: char| name.contains(c) implies value.contains(c) by {
            let k = choose|k: int| 0 <= k < name.len() && name[k] == c;
            assert(value.subrange(at, at + name.len())[k] == value[at + k]);
        }
    }
}

/// The name, or its absence, behind the name under which a file is kept.
proof fn found_for(value: Seq<char>, name: Seq<char>) -> (found: Option<Seq<char>>)
    requires
        kept_under(value, name),
    ensures
        names_file(value, found),
        name == safe_name(found),
{
    choose|found: Option<Seq<char>>| #[trigger]
        names_file(value, found) && name == safe_name(found)
}

/// A component of a path that is a name, and holds no `/`, is safe.
proof fn names_are_safe()
    ensures
        forall|name: Seq<char>|
            is_name(name) && !name.contains('/') <==> #[trigger] stays_in_directory(name),
{
    reveal_strlit(".");
    reveal_strlit("..");
    assert("."@ == seq!['.']);
    assert(".."@ == seq!['.', '.']);
}

/// What all systems read as the last name of what a file calls itself is what
/// the file is kept under; where there is none it is kept under a fixed name.
pub proof fn last_names_are_kept(value: Seq<char>, name: Seq<char>)
    requires
        kept_under(value, name),
        reads_alike(value),
    ensures
        last_name(value, slash()) matches Some(last) ==> name == last,
        last_name(value, slash()) is None ==> name == "Вложение"@,
{
    names_are_safe();
    let found = found_for(value, name);
    file_name_is_last_name(value, found);
    last_name_is_one_component(value, slash());
    assert(slash()[0] == '/');
}

/// A file that calls itself by a name, with or without directories in front of
/// it, is kept under that name.
pub proof fn plain_names_are_kept(value: Seq<char>, name: Seq<char>)
    requires
        kept_under(value, name),
        reads_alike(value),
        is_name(tail_of(value, slash())),
    ensures
        name == tail_of(value, slash()),
{
    last_names_are_kept(value, name);
}

/// On every system a file is kept under a name that ends in the last piece of
/// what it calls itself, where that is a name; this leaves out paths that begin
/// with two separators, for which the piece can be part of a prefix.
pub proof fn last_pieces_are_kept(value: Seq<char>, name: Seq<char>)
    requires
        kept_under(value, name),
        !begins_twice(value),
        is_name(last_piece(value)),
    ensures
        last_piece(value).is_suffix_of(name),
{
    names_are_safe();
    let found = found_for(value, name);
    file_name_ends_in_last_piece(value, found);
    file_name_is_part_of_path(value, found->0);
}

/// A file that calls itself by a path that ends in `..` is kept under a fixed
/// name.
pub proof fn parent_directories_name_no_file(value: Seq<char>, name: Seq<char>)
    requires
        kept_under(value, name),
        !value.contains('\\'),
        tail_of(value, slash()) == ".."@,
    ensures
        name == "Вложение"@,
{
    reveal_strlit("..");
    assert(".."@ == seq!['.', '.']);
    let found = found_for(value, name);
    no_file_is_named_by_dots(value, found);
}

/// A file that calls itself by the name under which a file is kept is kept
/// under that name.
pub proof fn kept_names_are_kept_again(value: Seq<char>, name: Seq<char>, again: Seq<char>)
    requires
        kept_under(value, name),
        kept_under(name, again),
        reads_alike(name),
    ensures
        again == name,
{
    names_are_safe();
    kept_files_stay_in_their_directory(value, name);
    tail_without_separator(name, slash());
    plain_names_are_kept(name, again);
}

// ---------------------------------------------------------------------------
// One attachment
// ---------------------------------------------------------------------------

/// The contents of an attachment of a message that has been taken apart.
pub fn find_attachment(parts: Option<Vec<Part>>, attachment_id: u32) -> (contents: Result<
    Vec<u8>,
    String,
>)
    ensures
        contents is Ok <==> parts is Some && attachment_id < parts->0@.len(),
        contents matches Ok(c) ==> c@ == parts->0@[attachment_id as int].contents@,
        contents matches Err(e) ==> e@ == (if parts is None {
            "Не удалось разобрать письмо"@
        } else {
            "Вложение не найдено"@
        }),
{
    match parts {
        Some(list) => {
            let id: usize = attachment_id as usize;
            if id < list.len() {
                let mut list = list;
                let part = list.swap_remove(id);
                Ok(part.contents)
            } else {
                Err("Вложение не найдено".to_owned())
            }
        },
        None => Err("Не удалось разобрать письмо".to_owned()),
    }
}

/// The contents of an attachment of a message; an error where the bytes are no
/// message, or where it has no such attachment.
pub fn attachment_contents(raw: &[u8], attachment_id: u32) -> (contents: Result<Vec<u8>, String>)
    ensures
        contents is Ok <==> is_message(raw@) && attachment_id < parts_of(raw@).len(),
        contents matches Ok(c) ==> c@ == parts_of(raw@)[attachment_id as int].contents,
        contents matches Err(e) ==> e@ == (if !is_message(raw@) {
            "Не удалось разобрать письмо"@
        } else {
            "Вложение не найдено"@
        }),
{
    let parts = parse_parts(raw);
    let ghost seen = parts;
    assert(seen is Some ==> seen->0@.len() == views(seen->0@).len());
    assert(seen is Some ==> forall|i: int|
        0 <= i < seen->0@.len() ==> (#[trigger] views(seen->0@)[i]) == seen->0@[i]@);
    let contents = find_attachment(parts, attachment_id);
    assert(contents is Ok ==> views(seen->0@)[attachment_id as int]
        == seen->0@[attachment_id as int]@);
    contents
}

/// An image as a URL that holds it.
pub open spec fn image_url(mime_type: Seq<char>, contents: Seq<u8>) -> Seq<char> {
    "data:"@ + mime_type + ";base64,"@ + standard_base64(contents)
}

/// The URL that holds an image.
pub fn preview_url(mime_type: &str, contents: &[u8]) -> (url: String)
    ensures
        url@ == image_url(mime_type@, contents@),
{
    let mut url = "data:".to_owned();
    url.append(mime_type);
    url.append(";base64,");
    let code = encode_standard_base64(contents);
    url.append(code.as_str());
    url
}

// ---------------------------------------------------------------------------
// Previews
// ---------------------------------------------------------------------------

/// Whether an attachment is previewed: an image of a known kind that is not
/// too large.
pub open spec fn is_previewed(part: PartView) -> bool {
    let mime_type = mime_type_of(part.content_type, ""@);
    &&& part.contents.len() <= IMAGE_PREVIEW_LIMIT
    &&& {
        ||| mime_type == "image/png"@
        ||| mime_type == "image/jpeg"@
        ||| mime_type == "image/gif"@
        ||| mime_type == "image/webp"@
        ||| mime_type == "image/bmp"@
    }
}

/// The preview of the attachment at a place in a message.
pub open spec fn preview_of(id: int, part: PartView) -> PreviewView {
    PreviewView {
        id: id as u32,
        url: image_url(mime_type_of(part.content_type, ""@), part.contents),
    }
}

/// The previews of the attachments of a message, in their order.
pub open spec fn previews_of(parts: Seq<PartView>) -> Seq<PreviewView>
    decreases parts.len(),
{
    if parts.len() == 0 {
        Seq::empty()
    } else {
        let before = previews_of(parts.drop_last());
        if is_previewed(parts.last()) {
            before.push(preview_of(parts.len() - 1, parts.last()))
        } else {
            before
        }
    }
}

/// The previews of attachments, in their order.
pub fn previews_from(parts: &Vec<Part>) -> (previews: Vec<AttachmentPreview>)
    ensures
        views(previews@) == previews_of(views(parts@)),
{
    let ghost all = views(parts@);
    let mut previews: Vec<AttachmentPreview> = Vec::new();
    let n: usize = parts.len();
    let mut i: usize = 0;
    assert(views(previews@) == previews_of(all.take(0)));
    while i < n
        invariant
            n == parts@.len(),
            i <= n,
            all == views(parts@),
            views(previews@) == previews_of(all.take(i as int)),
        decreases n - i,
    {
        let ghost before = views(previews@);
        assert(all.take(i + 1).drop_last() == all.take(i as int));
        assert(all.take(i + 1).last() == parts@[i as int]@);
        let part = &parts[i];
        let kind = mime_type(&part.content_type, "");
        let known = kind.as_str().eq("image/png") || kind.as_str().eq("image/jpeg")
            || kind.as_str().eq("image/gif") || kind.as_str().eq("image/webp")
            || kind.as_str().eq("image/bmp");
        if part.contents.len() <= IMAGE_PREVIEW_LIMIT && known {
            let item = AttachmentPreview {
                id: i as u32,
                url: preview_url(kind.as_str(), part.contents.as_slice()),
            };
            previews.push(item);
            assert(views(previews@) == before.push(item@));
        }
        i += 1;
    }
    assert(all.take(n as int) == all);
    previews
}

/// The previews of the image attachments of a message; an error where the
/// bytes are no message.
pub fn prepare_image_previews(raw: &[u8]) -> (previews: Result<Vec<AttachmentPreview>, String>)
    ensures
        previews is Ok <==> is_message(raw@),
        previews matches Ok(p) ==> views(p@) == previews_of(parts_of(raw@)),
        previews matches Err(e) ==> e@ == "Не удалось разобрать письмо"@,
{
    match parse_parts(raw) {
        Some(parts) => Ok(previews_from(&parts)),
        None => Err("Не удалось разобрать письмо".to_owned()),
    }
}

// ---------------------------------------------------------------------------
// Keeping all attachments
// ---------------------------------------------------------------------------

/// An attachment that is written to a file.
#[derive(Debug)]
pub struct KeptFile {
    pub filename: String,
    pub contents: Vec<u8>,
}

/// What the attachment at a place in a message calls itself.
pub open spec fn own_name(id: int, part: PartView) -> Seq<char> {
    text_or(part.name, numbered_name(id as nat, extension_of(part.content_type)))
}

/// Whether files are the attachments of a message, one for one.
pub open spec fn keeps_all(files: Seq<KeptFile>, parts: Seq<PartView>) -> bool {
    &&& files.len() == parts.len()
    &&& forall|i: int|
        0 <= i < parts.len() ==> {
            &&& kept_under(own_name(i, parts[i]), (#[trigger] files[i]).filename@)
            &&& files[i].contents@ == parts[i].contents
        }
}

fn kept_name(id: usize, part: &Part) -> (name: String)
    requires
        id < usize::MAX,
    ensures
        kept_under(own_name(id as int, part@), name@),
{
    let own = match copy_optional(&part.name) {
        Some(name) => name,
        None => number_name(id, part_extension(&part.content_type)),
    };
    safe_filename(own.as_str())
}

/// The files for attachments, one for one.
pub fn files_from(parts: Vec<Part>) -> (files: Vec<KeptFile>)
    ensures
        keeps_all(files@, views(parts@)),
{
    let ghost all = views(parts@);
    let mut files: Vec<KeptFile> = Vec::new();
    let mut i: usize = 0;
    let n: usize = parts.len();
    for part in it: parts
        invariant
            n == parts@.len(),
            all == views(parts@),
            it.seq() == parts@,
            i == it.index(),
            files@.len() == i,
            forall|k: int|
                0 <= k < i ==> {
                    &&& kept_under(own_name(k, all[k]), (#[trigger] files@[k]).filename@)
                    &&& files@[k].contents@ == all[k].contents
                },
    {
        assert(all[i as int] == part@);
        let filename = kept_name(i, &part);
        files.push(KeptFile { filename, contents: part.contents });
        i += 1;
    }
    files
}

/// The files for the attachments of a message, one for one; an error where the
/// bytes are no message.
pub fn save_all_attachments(raw: &[u8]) -> (files: Result<Vec<KeptFile>, String>)
    ensures
        files is Ok <==> is_message(raw@),
        files matches Ok(f) ==> keeps_all(f@, parts_of(raw@)),
        files matches Err(e) ==> e@ == "Не удалось разобрать письмо"@,
{
    match parse_parts(raw) {
        Some(parts) => Ok(files_from(parts)),
        None => Err("Не удалось разобрать письмо".to_owned()),
    }
}

// ---------------------------------------------------------------------------
// Attachments that are forwarded
// ---------------------------------------------------------------------------

/// An attachment that is written to a file in order to be sent on: the names
/// on the way from the cache directory to the directory for it, and the file.
#[derive(Debug)]
pub struct ForwardedFile {
    pub directory: Vec<String>,
    pub file: KeptFile,
    pub size: u64,
}

/// The directory for an attachment that is sent on.
pub open spec fn forward_directory(uid: u32, id: nat) -> Seq<Seq<char>> {
    seq!["yandex-mail"@, "forward"@, decimal(uid as nat), decimal(id)]
}

/// Whether files are the attachments of a message that is sent on, one for
/// one, each in its own directory.
pub open spec fn forwards_all(
    files: Seq<ForwardedFile>,
    uid: u32,
    parts: Seq<PartView>,
) -> bool {
    &&& files.len() == parts.len()
    &&& forall|i: int|
        0 <= i < parts.len() ==> {
            &&& texts((#[trigger] files[i]).directory@) == forward_directory(uid, i as nat)
            &&& kept_under(own_name(i, parts[i]), files[i].file.filename@)
            &&& files[i].file.contents@ == parts[i].contents
            &&& files[i].size == parts[i].contents.len()
        }
}

fn forward_path(uid: u32, id: usize) -> (path: Vec<String>)
    ensures
        texts(path@) == forward_directory(uid, id as nat),
{
    let mut path: Vec<String> = Vec::new();
    path.push("yandex-mail".to_owned());
    path.push("forward".to_owned());
    path.push(to_decimal(uid as u64));
    path.push(to_decimal(id as u64));
    assert(texts(path@) == forward_directory(uid, id as nat));
    path
}

/// The files for attachments that are sent on, one for one.
pub fn forwarded_from(uid: u32, parts: Vec<Part>) -> (files: Vec<ForwardedFile>)
    ensures
        forwards_all(files@, uid, views(parts@)),
{
    let ghost all = views(parts@);
    let mut files: Vec<ForwardedFile> = Vec::new();
    let mut i: usize = 0;
    let n: usize = parts.len();
    for part in it: parts
        invariant
            n == parts@.len(),
            all == views(parts@),
            it.seq() == parts@,
            i == it.index(),
            files@.len() == i,
            forall|k: int|
                0 <= k < i ==> {
                    &&& texts((#[trigger] files@[k]).directory@) == forward_directory(
                        uid,
                        k as nat,
                    )
                    &&& kept_under(own_name(k, all[k]), files@[k].file.filename@)
                    &&& files@[k].file.contents@ == all[k].contents
                    &&& files@[k].size == all[k].contents.len()
                },
    {
        assert(all[i as int] == part@);
        let filename = kept_name(i, &part);
        let size: u64 = part.contents.len() as u64;
        files.push(
            ForwardedFile {
                directory: forward_path(uid, i),
                file: KeptFile { filename, contents: part.contents },
                size,
            },
        );
        i += 1;
    }
    files
}

/// The files for the attachments of a message that is sent on, one for one; an
/// error where the bytes are no message.
pub fn prepare_forward_attachments(uid: u32, raw: &[u8]) -> (files: Result<
    Vec<ForwardedFile>,
    String,
>)
    ensures
        files is Ok <==> is_message(raw@),
        files matches Ok(f) ==> forwards_all(f@, uid, parts_of(raw@)),
        files matches Err(e) ==> e@ == "Не удалось разобрать письмо"@,
{
    match parse_parts(raw) {
        Some(parts) => Ok(forwarded_from(uid, parts)),
        None => Err("Не удалось разобрать письмо".to_owned()),
    }
}

/// Attachments that are sent on lie in different directories, so that those of
/// the same name do not overwrite one another.
pub proof fn forwarded_files_lie_apart(uid_a: u32, id_a: nat, uid_b: u32, id_b: nat)
    requires
        forward_directory(uid_a, id_a) == forward_directory(uid_b, id_b),
    ensures
        uid_a == uid_b,
        id_a == id_b,
{
    assert(forward_directory(uid_a, id_a)[2] == forward_directory(uid_b, id_b)[2]);
    assert(forward_directory(uid_a, id_a)[3] == forward_directory(uid_b, id_b)[3]);
    decimal_is_injective(uid_a as nat, uid_b as nat);
    decimal_is_injective(id_a, id_b);
}

// ---------------------------------------------------------------------------
// Attachments that are opened
// ---------------------------------------------------------------------------

/// The name of the file in which an attachment is opened.
pub open spec fn opened_name(uid: u32, attachment_id: u32, safe: Seq<char>) -> Seq<char> {
    decimal(uid as nat) + "-"@ + decimal(attachment_id as nat) + "-"@ + safe
}

/// Whether a path leads from the cache directory to the file in which an
/// attachment that calls itself `filename` is opened.
pub open spec fn is_opened_path(
    path: Seq<Seq<char>>,
    uid: u32,
    attachment_id: u32,
    filename: Seq<char>,
) -> bool {
    &&& path.len() == 3
    &&& path[0] == "yandex-mail"@
    &&& path[1] == "opened"@
    &&& exists|safe: Seq<char>|
        kept_under(filename, safe) && path[2] == #[trigger] opened_name(uid, attachment_id, safe)
}

/// The names on the way from the cache directory to the file in which an
/// attachment is opened.
pub fn opened_file(uid: u32, attachment_id: u32, filename: &str) -> (path: Vec<String>)
    ensures
        is_opened_path(texts(path@), uid, attachment_id, filename@),
{
    let safe = safe_filename(filename);
    let mut name = to_decimal(uid as u64);
    name.append("-");
    let id = to_decimal(attachment_id as u64);
    name.append(id.as_str());
    name.append("-");
    name.append(safe.as_str());
    assert(name@ == opened_name(uid, attachment_id, safe@));
    let mut path: Vec<String> = Vec::new();
    path.push("yandex-mail".to_owned());
    path.push("opened".to_owned());
    path.push(name);
    assert(texts(path@) == seq!["yandex-mail"@, "opened"@, name@]);
    path
}

/// A number in front of a dash can be told from the name.
proof fn number_before_dash(a: nat, x: Seq<char>, b: nat, y: Seq<char>)
    requires
        decimal(a) + "-"@ + x == decimal(b) + "-"@ + y,
    ensures
        a == b,
        x == y,
{
    reveal_strlit("-");
    decimal_not_empty(a);
    decimal_not_empty(b);
    let left = decimal(a) + "-"@ + x;
    let right = decimal(b) + "-"@ + y;
    if decimal(a).len() < decimal(b).len() {
        assert(left[decimal(a).len() as int] == '-');
        assert(right[decimal(a).len() as int] == decimal(b)[decimal(a).len() as int]);
    }
    if decimal(b).len() < decimal(a).len() {
        assert(right[decimal(b).len() as int] == '-');
        assert(left[decimal(b).len() as int] == decimal(a)[decimal(b).len() as int]);
    }
    assert(left.take(decimal(a).len() as int) == decimal(a));
    assert(right.take(decimal(b).len() as int) == decimal(b));
    decimal_is_injective(a, b);
    assert(left.skip(decimal(a).len() as int + 1) == x);
    assert(right.skip(decimal(b).len() as int + 1) == y);
}

/// A file in which an attachment is opened belongs to one place of one message
/// number, whatever the attachment calls itself.
pub proof fn opened_file_belongs_to_one_attachment(
    path: Seq<Seq<char>>,
    uid_a: u32,
    id_a: u32,
    filename_a: Seq<char>,
    uid_b: u32,
    id_b: u32,
    filename_b: Seq<char>,
)
    requires
        is_opened_path(path, uid_a, id_a, filename_a),
        is_opened_path(path, uid_b, id_b, filename_b),
    ensures
        uid_a == uid_b,
        id_a == id_b,
{
    let a = choose|safe: Seq<char>|
        kept_under(filename_a, safe) && path[2] == #[trigger] opened_name(uid_a, id_a, safe);
    let b = choose|safe: Seq<char>|
        kept_under(filename_b, safe) && path[2] == #[trigger] opened_name(uid_b, id_b, safe);
    let rest_a = decimal(id_a as nat) + "-"@ + a;
    let rest_b = decimal(id_b as nat) + "-"@ + b;
    assert(path[2] == decimal(uid_a as nat) + "-"@ + rest_a);
    assert(path[2] == decimal(uid_b as nat) + "-"@ + rest_b);
    number_before_dash(uid_a as nat, rest_a, uid_b as nat, rest_b);
    number_before_dash(id_a as nat, a, id_b as nat, b);
}

/// The file in which an attachment is opened stays in the directory for such
/// files, whatever the attachment calls itself.
pub proof fn opened_file_stays_in_its_directory(
    path: Seq<Seq<char>>,
    uid: u32,
    attachment_id: u32,
    filename: Seq<char>,
)
    requires
        is_opened_path(path, uid, attachment_id, filename),
    ensures
        stays_in_directory(path[2]),
{
    reveal_strlit("-");
    reveal_strlit(".");
    reveal_strlit("..");
    let safe = choose|safe: Seq<char>|
        kept_under(filename, safe) && path[2] == #[trigger] opened_name(
            uid,
            attachment_id,
            safe,
        );
    kept_files_stay_in_their_directory(filename, safe);
    let number = decimal(uid as nat);
    let place = decimal(attachment_id as nat);
    decimal_not_empty(uid as nat);
    decimal_not_empty(attachment_id as nat);
    let name = path[2];
    assert(name[0] == number[0]);
    assert forall|i: int| 0 <= i < name.len() implies name[i] != '/' by {
        let k = i - number.len() - 1;
        let m = k - place.len() - 1;
        if i < number.len() {
            assert(name[i] == number[i]);
        } else if i == number.len() {
            assert(name[i] == '-');
        } else if k < place.len() {
            assert(name[i] == place[k]);
        } else if k == place.len() {
            assert(name[i] == '-');
        } else {
            assert(name[i] == safe[m]);
            assert(safe.contains(safe[m]));
        }
    }
}

// ---------------------------------------------------------------------------
// Files to attach
// ---------------------------------------------------------------------------

/// A file that is to be attached: its path, and its size where the file could
/// be looked at.
#[derive(Debug)]
pub struct ChosenFile {
    pub path: String,
    pub size: Option<u64>,
}

/// What is shown of a file whose path was found to end in a given name.
pub fn local_attachment(chosen: ChosenFile, name: Option<String>) -> (local: Result<
    LocalAttachment,
    String,
>)
    ensures
        local is Ok <==> chosen.size is Some && name is Some,
        local matches Ok(l) ==> l@ == (LocalAttachmentView {
            path: chosen.path@,
            filename: name->0@,
            size: chosen.size->0,
        }),
        local matches Err(e) ==> e@ == (if chosen.size is None {
            "Не удалось открыть вложение: "@ + chosen.path@
        } else {
            "Некорректное имя вложения"@
        }),
{
    match chosen.size {
        Some(size) => match name {
            Some(filename) => Ok(LocalAttachment { path: chosen.path, filename, size }),
            None => Err("Некорректное имя вложения".to_owned()),
        },
        None => Err(prefixed("Не удалось открыть вложение: ", chosen.path.as_str())),
    }
}

/// Whether a file can be attached under a name.
pub open spec fn can_be_attached(chosen: ChosenFile, local: LocalAttachmentView) -> bool {
    &&& chosen.size == Some(local.size)
    &&& local.path == chosen.path@
    &&& names_file(chosen.path@, Some(local.filename))
}

/// Whether a file can be attached.
pub open spec fn is_attachable(chosen: ChosenFile) -> bool {
    exists|local: LocalAttachmentView| can_be_attached(chosen, local)
}

/// Whether a file cannot be attached, for a reason: it could not be looked at,
/// or its path ends in no name.
pub open spec fn cannot_be_attached(chosen: ChosenFile, error: Seq<char>) -> bool {
    if chosen.size is None {
        error == "Не удалось открыть вложение: "@ + chosen.path@
    } else {
        error == "Некорректное имя вложения"@ && names_file(chosen.path@, None)
    }
}

/// What is shown of the files that are to be attached, in their order; the
/// reason why the first of them that cannot be attached cannot.
pub fn inspect_attachments(files: Vec<ChosenFile>) -> (shown: Result<
    Vec<LocalAttachment>,
    String,
>)
    ensures
        shown matches Ok(list) ==> list@.len() == files@.len() && forall|i: int|
            0 <= i < files@.len() ==> can_be_attached(#[trigger] files@[i], list@[i]@),
        shown matches Err(e) ==> exists|i: int|
            0 <= i < files@.len() && cannot_be_attached(#[trigger] files@[i], e@) && forall|k: int|
                0 <= k < i ==> is_attachable(#[trigger] files@[k]),
{
    let mut shown: Vec<LocalAttachment> = Vec::new();
    for chosen in it: files
        invariant
            it.seq() == files@,
            shown@.len() == it.index(),
            forall|i: int|
                0 <= i < shown@.len() ==> can_be_attached(#[trigger] files@[i], shown@[i]@),
    {
        let ghost i = it.index() as int;
        assert(chosen == files@[i]);
        let name = path_file_name(chosen.path.as_str());
        match local_attachment(chosen, name) {
            Ok(local) => {
                shown.push(local);
            },
            Err(error) => {
                assert(cannot_be_attached(files@[i], error@));
                return Err(error);
            },
        }
    }
    Ok(shown)
}

// ---------------------------------------------------------------------------
// Failures
// ---------------------------------------------------------------------------

/// What went wrong with the file of an attachment; the text is what was
/// reported.
#[derive(Debug)]
pub enum KeepFailure {
    NoDirectory,
    Directory(String),
    Save(String),
    Prepare(String),
}

/// What is said of the file of an attachment that could not be written.
pub open spec fn keep_text(failure: KeepFailure) -> Seq<char> {
    match failure {
        KeepFailure::NoDirectory => "Некорректный путь вложения"@,
        KeepFailure::Directory(e) => "Не удалось создать папку: "@ + e@,
        KeepFailure::Save(e) => "Не удалось сохранить вложение: "@ + e@,
        KeepFailure::Prepare(e) => "Не удалось подготовить вложение: "@ + e@,
    }
}

/// Says what went wrong with the file of an attachment.
pub fn keep_error(failure: KeepFailure) -> (text: String)
    ensures
        text@ == keep_text(failure),
{
    match failure {
        KeepFailure::NoDirectory => "Некорректный путь вложения".to_owned(),
        KeepFailure::Directory(e) => prefixed("Не удалось создать папку: ", e.as_str()),
        KeepFailure::Save(e) => prefixed("Не удалось сохранить вложение: ", e.as_str()),
        KeepFailure::Prepare(e) => prefixed("Не удалось подготовить вложение: ", e.as_str()),
    }
}

} // verus!
