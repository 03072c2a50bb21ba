//! What holds of the files of the cache.

use crate::cache::{
    is_detail_path, is_folders_path, is_labels_path, is_page_path, is_root, readable_detail,
    readable_page, CachedDetailView, CachedPageView, CACHE_VERSION,
};
use crate::codec::url_base64_decoded;
use vstd::prelude::*;
use vstd::string::*;
use vstd::utf8::encode_utf8;

verus! {

broadcast use vstd::string::group_string_axioms;

/// What lies under a path of the cache is in the directory of the program, in
/// one that is named after the account.
pub proof fn cache_is_named_after_its_account(path: Seq<Seq<char>>, email: Seq<char>)
    requires
        is_root(path, email),
    ensures
        path.len() == 2,
        path[0] == "yandex-mail"@,
        url_base64_decoded(path[1]) == Some(encode_utf8(email)),
{
}

/// When an account is forgotten all its files are deleted: its folder list,
/// its label list, the pages of its folders and its messages lie in the
/// directory that is deleted.
pub proof fn forgotten_accounts_leave_no_file(
    directory: Seq<Seq<char>>,
    path: Seq<Seq<char>>,
    email: Seq<char>,
    raw_path: Seq<char>,
    uid: u32,
)
    requires
        is_root(directory, email),
    ensures
        is_folders_path(path, email) ==> directory.is_prefix_of(path),
        is_labels_path(path, email) ==> directory.is_prefix_of(path),
        is_page_path(path, email, raw_path) ==> directory.is_prefix_of(path),
        is_detail_path(path, email, raw_path, uid) ==> directory.is_prefix_of(path),
{
    if is_detail_path(path, email, raw_path, uid) {
        assert(path.take(4).take(2) == path.take(2));
    }
    if path.len() >= 2 && is_root(path.take(2), email) {
        assert(directory == path.take(2));
    }
}

/// What is written is looked for in the same file: a list, a page and a
/// message have one file each.
pub proof fn files_are_found_again(
    a: Seq<Seq<char>>,
    b: Seq<Seq<char>>,
    email: Seq<char>,
    raw_path: Seq<char>,
    uid: u32,
)
    ensures
        is_folders_path(a, email) && is_folders_path(b, email) ==> a == b,
        is_labels_path(a, email) && is_labels_path(b, email) ==> a == b,
        is_page_path(a, email, raw_path) && is_page_path(b, email, raw_path) ==> a == b,
        is_detail_path(a, email, raw_path, uid) && is_detail_path(b, email, raw_path, uid) ==> a
            == b,
{
    if a.len() == b.len() && a.len() >= 3 {
        assert(a.take(2)[0] == a[0] && a.take(2)[1] == a[1]);
        assert(b.take(2)[0] == b[0] && b.take(2)[1] == b[1]);
        if a.len() == 5 {
            assert(a.take(4).take(2) == a.take(2));
            assert(b.take(4).take(2) == b.take(2));
            assert(a.take(4)[2] == a[2] && a.take(4)[3] == a[3]);
            assert(b.take(4)[2] == b[2] && b.take(4)[3] == b[3]);
        }
    }
}

/// Files of the cache have names that say what they hold.
pub proof fn files_are_named_after_what_they_hold(
    path: Seq<Seq<char>>,
    email: Seq<char>,
    raw_path: Seq<char>,
    uid: u32,
)
    ensures
        is_folders_path(path, email) ==> path.len() == 3 && path[2] == "folders.json"@,
        is_labels_path(path, email) ==> path.len() == 3 && path[2] == "labels.json"@,
        is_page_path(path, email, raw_path) ==> path.len() == 4 && path[2] == "folders"@ && {
            let name = path[3].take(path[3].len() - 5);
            &&& path[3] == name + ".json"@
            &&& url_base64_decoded(name) == Some(encode_utf8(raw_path))
        },
        is_detail_path(path, email, raw_path, uid) ==> path.len() == 5 && path[2] == "details"@ && {
            let name = path[4].take(path[4].len() - 5);
            &&& url_base64_decoded(path[3]) == Some(encode_utf8(raw_path))
            &&& path[4] == name + ".json"@
            &&& crate::laws::numbers::value_of(name) == uid
        },
{
    reveal_strlit(".json");
    crate::laws::numbers::numbers_read_back(uid as nat);
    if is_page_path(path, email, raw_path) {
        let key = crate::codec::url_base64(encode_utf8(raw_path));
        assert(path[3].take(path[3].len() - 5) == key);
    }
    if is_detail_path(path, email, raw_path, uid) {
        let number = crate::text::decimal(uid as nat);
        assert(path[4].take(path[4].len() - 5) == number);
    }
}

/// Only files of the second version are read, a message only under the
/// validity of its folder; what is read is what the file holds.
pub proof fn files_of_this_version_are_read(
    page: CachedPageView,
    detail: CachedDetailView,
    uid_validity: Option<u32>,
)
    ensures
        CACHE_VERSION == 2,
        readable_page(None) is None,
        readable_page(Some(page)) is Some <==> page.version == 2,
        readable_page(Some(page)) matches Some(read) ==> read == page,
        readable_detail(None, uid_validity) is None,
        readable_detail(Some(detail), uid_validity) is Some <==> detail.version == 2
            && detail.uid_validity == uid_validity,
        readable_detail(Some(detail), uid_validity) matches Some(read) ==> read == detail.detail,
{
}

} // verus!
