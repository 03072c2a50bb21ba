//! What holds of the attachments of received messages as files.

use crate::attachments::{
    can_be_attached, cannot_be_attached, extension_for, extension_of, forwards_all, is_opened_path,
    keeps_all, kept_under, opened_name, own_name, preview_of, previews_of, shown_attachment,
    ChosenFile, ForwardedFile, KeptFile,
};
use crate::codec::standard_base64;
use crate::laws::numbers::{is_number, numbers_read_back, value_of};
use crate::mime::{PartTypeView, PartView};
use crate::model::{LocalAttachmentView, PreviewView};
use crate::text::texts;
use vstd::prelude::*;
use vstd::string::*;

verus! {

broadcast use vstd::string::group_string_axioms;

// ---------------------------------------------------------------------------
// Previews
// ---------------------------------------------------------------------------

/// The type of a part as it is written, or nothing where it names none.
pub open spec fn written_type(part: PartView) -> Seq<char> {
    if part.content_type is None {
        Seq::empty()
    } else if part.content_type->0.subtype is None {
        part.content_type->0.kind + "/octet-stream"@
    } else {
        part.content_type->0.kind + "/"@ + part.content_type->0.subtype->0
    }
}

/// Whether a preview shows the part at a place of a message: an image of at
/// most four mebibytes, of one of five types, with its contents in the URL.
pub open spec fn shows_image(preview: PreviewView, part: PartView, i: int) -> bool {
    let kind = written_type(part);
    &&& kind == "image/png"@ || kind == "image/jpeg"@ || kind == "image/gif"@ || kind
        == "image/webp"@ || kind == "image/bmp"@
    &&& part.contents.len() <= 4 * 1024 * 1024
    &&& preview.id == i as u32
    &&& preview.url == "data:"@ + kind + ";base64,"@ + standard_base64(part.contents)
}

proof fn preview_shows_part(part: PartView, i: int)
    ensures
        forall|preview: PreviewView| #[trigger]
            shows_image(preview, part, i) <==> crate::attachments::is_previewed(part) && preview
                == preview_of(i, part),
{
    reveal_strlit("");
    reveal_strlit("/");
    reveal_strlit("octet-stream");
    reveal_strlit("/octet-stream");
    assert("/"@ + "octet-stream"@ == "/octet-stream"@);
    if part.content_type is Some {
        let kind = part.content_type->0.kind;
        assert(kind + "/"@ + "octet-stream"@ == kind + ("/"@ + "octet-stream"@));
    } else {
        assert(""@ == Seq::<char>::empty());
    }
    assert forall|preview: PreviewView| #[trigger]
        shows_image(preview, part, i) <==> crate::attachments::is_previewed(part) && preview
            == preview_of(i, part) by {}
}

/// There is a preview for exactly the attachments that are images of a known
/// type and not too large, and it shows the image.
pub proof fn images_are_previewed(parts: Seq<PartView>, preview: PreviewView)
    ensures
        previews_of(parts).contains(preview) <==> exists|i: int|
            0 <= i < parts.len() && shows_image(preview, #[trigger] parts[i], i),
    decreases parts.len(),
{
    let all = previews_of(parts);
    if parts.len() > 0 {
        let before = parts.drop_last();
        let some = previews_of(before);
        let n = parts.len() - 1;
        images_are_previewed(before, preview);
        preview_shows_part(parts.last(), n);
        if all.contains(preview) {
            let k = choose|k: int| 0 <= k < all.len() && all[k] == preview;
            if k < some.len() {
                assert(some[k] == preview);
                let i = choose|i: int|
                    0 <= i < before.len() && shows_image(preview, #[trigger] before[i], i);
                assert(parts[i] == before[i]);
            } else {
                assert(shows_image(preview, parts[n], n));
            }
        }
        if exists|i: int| 0 <= i < parts.len() && shows_image(preview, #[trigger] parts[i], i) {
            let i = choose|i: int|
                0 <= i < parts.len() && shows_image(preview, #[trigger] parts[i], i);
            if i < n {
                assert(before[i] == parts[i]);
                let k = choose|k: int| 0 <= k < some.len() && some[k] == preview;
                assert(all[k] == preview);
            } else {
                assert(all[all.len() - 1] == preview);
            }
        }
    }
}

/// Previews stand in the order of the attachments.
pub proof fn previews_are_in_order(parts: Seq<PartView>, n: int)
    requires
        0 <= n <= parts.len(),
    ensures
        previews_of(parts.take(n)).is_prefix_of(previews_of(parts)),
    decreases parts.len(),
{
    if n == parts.len() {
        assert(parts.take(n) == parts);
    } else {
        let before = parts.drop_last();
        previews_are_in_order(before, n);
        assert(before.take(n) == parts.take(n));
        let short = previews_of(parts.take(n));
        let middle = previews_of(before);
        let all = previews_of(parts);
        assert(middle == all.take(middle.len() as int));
        assert(short == middle.take(short.len() as int));
        assert(short == all.take(short.len() as int));
    }
}

// ---------------------------------------------------------------------------
// Names
// ---------------------------------------------------------------------------

/// Whether a name is one that was made up for an attachment without a name: a
/// word, the place of the attachment counted from one, and an extension.
pub open spec fn is_made_up(name: Seq<char>, i: int, extension: Seq<char>) -> bool {
    exists|number: Seq<char>|
        {
            &&& is_number(number)
            &&& value_of(number) == i + 1
            &&& name == #[trigger] ("Вложение "@ + number) + extension
        }
}

/// An attachment with a name is shown and kept under that name; one without is
/// numbered.
pub proof fn attachments_keep_their_names(part: PartView, i: int)
    requires
        i >= 0,
    ensures
        part.name is Some ==> own_name(i, part) == part.name->0 && shown_attachment(
            i,
            part,
        ).filename == part.name->0,
        part.name is None ==> is_made_up(own_name(i, part), i, extension_of(part.content_type))
            && is_made_up(
            shown_attachment(i, part).filename,
            i,
            extension_for(shown_attachment(i, part).mime_type),
        ),
{
    let number = crate::text::decimal((i + 1) as nat);
    numbers_read_back((i + 1) as nat);
    if part.name is None {
        assert(own_name(i, part) == ("Вложение "@ + number) + extension_of(part.content_type));
        assert(shown_attachment(i, part).filename == ("Вложение "@ + number) + extension_for(
            shown_attachment(i, part).mime_type,
        ));
    }
}

proof fn types_differ()
    ensures
        "image/png"@ != "image/jpeg"@,
        "image/png"@ != "image/gif"@,
        "image/png"@ != "application/pdf"@,
        "image/png"@ != "text/plain"@,
        "image/jpeg"@ != "image/gif"@,
        "image/jpeg"@ != "application/pdf"@,
        "image/jpeg"@ != "text/plain"@,
        "image/gif"@ != "application/pdf"@,
        "image/gif"@ != "text/plain"@,
        "application/pdf"@ != "text/plain"@,
{
    reveal_strlit("image/png");
    reveal_strlit("image/jpeg");
    reveal_strlit("image/gif");
    reveal_strlit("application/pdf");
    reveal_strlit("text/plain");
    assert("image/png"@[6] == 'p' && "image/gif"@[6] == 'g' && "image/jpeg"@[6] == 'j');
    assert("application/pdf"@[0] == 'a' && "text/plain"@[0] == 't' && "image/png"@[0] == 'i');
    assert("image/jpeg"@[0] == 'i' && "image/gif"@[0] == 'i');
}

/// The extension of a name that is made up is the one of the type, and there
/// is none for a type that is not known.
pub proof fn extensions_fit_types(kind: Seq<char>)
    ensures
        extension_for("image/png"@) == ".png"@,
        extension_for("image/jpeg"@) == ".jpg"@,
        extension_for("image/gif"@) == ".gif"@,
        extension_for("application/pdf"@) == ".pdf"@,
        extension_for("text/plain"@) == ".txt"@,
        kind != "image/png"@ && kind != "image/jpeg"@ && kind != "image/gif"@ && kind
            != "application/pdf"@ && kind != "text/plain"@ ==> extension_for(kind).len() == 0,
{
    reveal_strlit("");
    types_differ();
}

/// Parts are kept with the extension of their type.
pub proof fn kept_extensions_fit_types(t: PartTypeView)
    ensures
        t == (PartTypeView { kind: "image"@, subtype: Some("png"@) }) ==> extension_of(Some(t))
            == ".png"@,
        t == (PartTypeView { kind: "image"@, subtype: Some("jpeg"@) }) ==> extension_of(Some(t))
            == ".jpg"@,
        t == (PartTypeView { kind: "image"@, subtype: Some("gif"@) }) ==> extension_of(Some(t))
            == ".gif"@,
        t == (PartTypeView { kind: "application"@, subtype: Some("pdf"@) }) ==> extension_of(
            Some(t),
        ) == ".pdf"@,
        t == (PartTypeView { kind: "text"@, subtype: Some("plain"@) }) ==> extension_of(Some(t))
            == ".txt"@,
        t.kind != "image"@ && t.kind != "application"@ && t.kind != "text"@ ==> extension_of(
            Some(t),
        ).len() == 0,
        extension_of(None).len() == 0,
{
    reveal_strlit("");
    reveal_strlit("image");
    reveal_strlit("application");
    reveal_strlit("text");
    reveal_strlit("png");
    reveal_strlit("jpeg");
    reveal_strlit("gif");
    assert("image"@.len() == 5 && "application"@.len() == 11 && "text"@.len() == 4);
    assert("png"@[0] == 'p' && "jpeg"@[0] == 'j' && "gif"@[0] == 'g');
}

// ---------------------------------------------------------------------------
// Contents
// ---------------------------------------------------------------------------

/// All attachments are kept, each with its own contents.
pub proof fn kept_files_are_whole(files: Seq<KeptFile>, parts: Seq<PartView>, i: int)
    requires
        keeps_all(files, parts),
        0 <= i < parts.len(),
    ensures
        files.len() == parts.len(),
        files[i].contents@ == parts[i].contents,
        crate::attachments::stays_in_directory(files[i].filename@),
{
    crate::attachments::kept_files_stay_in_their_directory(
        own_name(i, parts[i]),
        files[i].filename@,
    );
}

/// All attachments are sent on, each with its own contents and its size, and
/// in a directory that is named after the message and the place of the
/// attachment.
pub proof fn forwarded_files_are_whole(
    files: Seq<ForwardedFile>,
    uid: u32,
    parts: Seq<PartView>,
    i: int,
)
    requires
        forwards_all(files, uid, parts),
        0 <= i < parts.len(),
    ensures
        files.len() == parts.len(),
        files[i].file.contents@ == parts[i].contents,
        files[i].size == parts[i].contents.len(),
        texts(files[i].directory@).len() == 4,
        texts(files[i].directory@)[0] == "yandex-mail"@,
        texts(files[i].directory@)[1] == "forward"@,
        value_of(texts(files[i].directory@)[2]) == uid,
        value_of(texts(files[i].directory@)[3]) == i,
        crate::attachments::stays_in_directory(files[i].file.filename@),
{
    numbers_read_back(uid as nat);
    numbers_read_back(i as nat);
    crate::attachments::kept_files_stay_in_their_directory(
        own_name(i, parts[i]),
        files[i].file.filename@,
    );
}

/// An attachment that is opened lies in the directory for such files, under a
/// name that ends in the one under which it is kept.
pub proof fn opened_files_keep_their_names(
    path: Seq<Seq<char>>,
    uid: u32,
    attachment_id: u32,
    filename: Seq<char>,
)
    requires
        is_opened_path(path, uid, attachment_id, filename),
    ensures
        path.len() == 3,
        path[0] == "yandex-mail"@,
        path[1] == "opened"@,
        exists|safe: Seq<char>| #[trigger]
            kept_under(filename, safe) && safe.is_suffix_of(path[2]),
{
    let safe = choose|safe: Seq<char>|
        kept_under(filename, safe) && path[2] == #[trigger] opened_name(uid, attachment_id, safe);
    assert(path[2].skip(path[2].len() - safe.len()) == safe);
    assert(kept_under(filename, safe) && safe.is_suffix_of(path[2]));
}

// ---------------------------------------------------------------------------
// Files to attach
// ---------------------------------------------------------------------------

/// A file that is chosen is shown with its path and its size, under a name
/// that is a part of its path.
pub proof fn chosen_files_are_shown(chosen: ChosenFile, local: LocalAttachmentView)
    requires
        can_be_attached(chosen, local),
    ensures
        chosen.size is Some,
        local.size == chosen.size->0,
        local.path == chosen.path@,
        local.filename.len() > 0,
        crate::text::occurs_in(chosen.path@, local.filename),
{
    crate::codec::file_name_is_part_of_path(chosen.path@, local.filename);
}

/// A file that could not be looked at is named in the error; the only other
/// files that cannot be attached are those whose path ends in no name.
pub proof fn refused_files_are_told(chosen: ChosenFile, error: Seq<char>)
    requires
        cannot_be_attached(chosen, error),
    ensures
        chosen.size is None ==> chosen.path@.is_suffix_of(error),
        chosen.size is Some ==> crate::codec::names_file(chosen.path@, None),
{
    if chosen.size is None {
        assert(error.skip(error.len() - chosen.path@.len()) == chosen.path@);
    }
}

} // verus!
