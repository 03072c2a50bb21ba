//! The local cache: where its files lie, what is read from them, and how they
//! change.

use crate::codec::{encode_url_base64, encodes, url_base64};
use crate::model::{DetailView, Folder, MessageDetail, MessagePage, PageView};
use crate::text::{decimal, decimal_is_injective, texts, to_decimal};
use vstd::prelude::*;
use vstd::string::*;
use vstd::utf8::encode_utf8;

verus! {

broadcast use vstd::string::group_string_axioms;

/// The version of the cache's files; files of another version are not read.
pub const CACHE_VERSION: u8 = 2;

/// The first messages of a folder, as they were last received.
#[derive(Clone, Debug)]
pub struct CachedPage {
    pub version: u8,
    pub uid_validity: Option<u32>,
    pub uid_next: Option<u32>,
    pub page: MessagePage,
}

/// What a cached page stands for.
#[verifier::ext_equal]
pub struct CachedPageView {
    pub version: u8,
    pub uid_validity: Option<u32>,
    pub uid_next: Option<u32>,
    pub page: PageView,
}

impl View for CachedPage {
    type V = CachedPageView;

    open spec fn view(&self) -> CachedPageView {
        CachedPageView {
            version: self.version,
            uid_validity: self.uid_validity,
            uid_next: self.uid_next,
            page: self.page@,
        }
    }
}

/// What an optional cached page stands for.
pub open spec fn page_of(cached: Option<CachedPage>) -> Option<CachedPageView> {
    match cached {
        Some(page) => Some(page@),
        None => None,
    }
}

/// A message as it was last received.
#[derive(Clone, Debug)]
pub struct CachedDetail {
    pub version: u8,
    pub uid_validity: Option<u32>,
    pub detail: MessageDetail,
}

/// What a cached message stands for.
#[verifier::ext_equal]
pub struct CachedDetailView {
    pub version: u8,
    pub uid_validity: Option<u32>,
    pub detail: DetailView,
}

impl View for CachedDetail {
    type V = CachedDetailView;

    open spec fn view(&self) -> CachedDetailView {
        CachedDetailView {
            version: self.version,
            uid_validity: self.uid_validity,
            detail: self.detail@,
        }
    }
}

/// What an optional cached message stands for.
pub open spec fn detail_of(cached: Option<CachedDetail>) -> Option<CachedDetailView> {
    match cached {
        Some(detail) => Some(detail@),
        None => None,
    }
}

/// A file of the cache: the names on the way to it from the cache directory,
/// and what it holds.
#[derive(Debug)]
pub struct CacheFile<T> {
    pub path: Vec<String>,
    pub value: T,
}

// ---------------------------------------------------------------------------
// Where files lie
// ---------------------------------------------------------------------------

/// Whether a name in the cache stands for a text.
pub open spec fn is_scope(name: Seq<char>, value: Seq<char>) -> bool {
    encodes(name, encode_utf8(value))
}

/// Whether a path leads to the cache of an account.
pub open spec fn is_root(path: Seq<Seq<char>>, email: Seq<char>) -> bool {
    path.len() == 2 && path[0] == "yandex-mail"@ && is_scope(path[1], email)
}

/// Whether a path leads to the folder list of an account.
pub open spec fn is_folders_path(path: Seq<Seq<char>>, email: Seq<char>) -> bool {
    path.len() == 3 && is_root(path.take(2), email) && path[2] == "folders.json"@
}

/// Whether a path leads to the label list of an account.
pub open spec fn is_labels_path(path: Seq<Seq<char>>, email: Seq<char>) -> bool {
    path.len() == 3 && is_root(path.take(2), email) && path[2] == "labels.json"@
}

/// Whether a path leads to the page of a folder.
pub open spec fn is_page_path(
    path: Seq<Seq<char>>,
    email: Seq<char>,
    raw_path: Seq<char>,
) -> bool {
    let key = url_base64(encode_utf8(raw_path));
    &&& path.len() == 4
    &&& is_root(path.take(2), email)
    &&& path[2] == "folders"@
    &&& path[3] == key + ".json"@
    &&& is_scope(key, raw_path)
}

/// Whether a path leads to the messages of a folder.
pub open spec fn is_details_path(
    path: Seq<Seq<char>>,
    email: Seq<char>,
    raw_path: Seq<char>,
) -> bool {
    &&& path.len() == 4
    &&& is_root(path.take(2), email)
    &&& path[2] == "details"@
    &&& is_scope(path[3], raw_path)
}

/// Whether a path leads to a message of a folder.
pub open spec fn is_detail_path(
    path: Seq<Seq<char>>,
    email: Seq<char>,
    raw_path: Seq<char>,
    uid: u32,
) -> bool {
    &&& path.len() == 5
    &&& is_details_path(path.take(4), email, raw_path)
    &&& path[4] == decimal(uid as nat) + ".json"@
}

/// The name in the cache that stands for a text.
pub fn scope(value: &str) -> (name: String)
    ensures
        name@ == url_base64(encode_utf8(value@)),
        is_scope(name@, value@),
{
    encode_url_base64(value.as_bytes())
}

/// The directory of an account's cache.
pub fn root(email: &str) -> (path: Vec<String>)
    ensures
        is_root(texts(path@), email@),
{
    let mut path: Vec<String> = Vec::new();
    path.push("yandex-mail".to_owned());
    path.push(scope(email));
    path
}

/// The directory that is deleted when an account is forgotten.
pub fn purge(email: &str) -> (path: Vec<String>)
    ensures
        is_root(texts(path@), email@),
{
    root(email)
}

/// The file of an account's folder list.
pub fn folders_file(email: &str) -> (path: Vec<String>)
    ensures
        is_folders_path(texts(path@), email@),
{
    let mut path = root(email);
    let ghost base = texts(path@);
    path.push("folders.json".to_owned());
    assert(texts(path@).take(2) == base);
    path
}

/// The file of an account's label list.
pub fn labels_file(email: &str) -> (path: Vec<String>)
    ensures
        is_labels_path(texts(path@), email@),
{
    let mut path = root(email);
    let ghost base = texts(path@);
    path.push("labels.json".to_owned());
    assert(texts(path@).take(2) == base);
    path
}

/// The file of a folder's page.
pub fn page_file(email: &str, raw_path: &str) -> (path: Vec<String>)
    ensures
        is_page_path(texts(path@), email@, raw_path@),
{
    let mut path = root(email);
    let ghost base = texts(path@);
    path.push("folders".to_owned());
    let mut name = scope(raw_path);
    name.append(".json");
    path.push(name);
    assert(texts(path@).take(2) == base);
    path
}

/// The directory of a folder's messages.
pub fn details_directory(email: &str, raw_path: &str) -> (path: Vec<String>)
    ensures
        is_details_path(texts(path@), email@, raw_path@),
{
    let mut path = root(email);
    let ghost base = texts(path@);
    path.push("details".to_owned());
    path.push(scope(raw_path));
    assert(texts(path@).take(2) == base);
    path
}

/// The file of a message.
pub fn detail_file(email: &str, raw_path: &str, uid: u32) -> (path: Vec<String>)
    ensures
        is_detail_path(texts(path@), email@, raw_path@, uid),
{
    let mut path = details_directory(email, raw_path);
    let ghost base = texts(path@);
    let mut name = to_decimal(uid as u64);
    name.append(".json");
    path.push(name);
    assert(texts(path@).take(4) == base);
    path
}

/// A directory of the cache belongs to one account.
pub proof fn root_belongs_to_one_account(path: Seq<Seq<char>>, a: Seq<char>, b: Seq<char>)
    requires
        is_root(path, a),
        is_root(path, b),
    ensures
        a == b,
{
    vstd::utf8::encode_utf8_decode_utf8(a);
    vstd::utf8::encode_utf8_decode_utf8(b);
}

/// What is deleted when an account is forgotten holds nothing of another one.
pub proof fn purging_reaches_one_account(
    directory: Seq<Seq<char>>,
    email: Seq<char>,
    path: Seq<Seq<char>>,
    other: Seq<char>,
    raw_path: Seq<char>,
    uid: u32,
)
    requires
        is_root(directory, email),
        directory.is_prefix_of(path),
        is_folders_path(path, other) || is_labels_path(path, other) || is_page_path(
            path,
            other,
            raw_path,
        ) || is_detail_path(path, other, raw_path, uid),
    ensures
        email == other,
{
    assert(path.take(2) == directory);
    if is_detail_path(path, other, raw_path, uid) {
        assert(path.take(4).take(2) == path.take(2));
    }
    root_belongs_to_one_account(directory, email, other);
}

/// The page of a folder has a file of its own.
pub proof fn page_file_belongs_to_one_folder(
    path: Seq<Seq<char>>,
    email_a: Seq<char>,
    raw_a: Seq<char>,
    email_b: Seq<char>,
    raw_b: Seq<char>,
)
    requires
        is_page_path(path, email_a, raw_a),
        is_page_path(path, email_b, raw_b),
    ensures
        email_a == email_b,
        raw_a == raw_b,
{
    root_belongs_to_one_account(path.take(2), email_a, email_b);
    let key_a = url_base64(encode_utf8(raw_a));
    let key_b = url_base64(encode_utf8(raw_b));
    assert(key_a == path[3].take(path[3].len() - ".json"@.len()));
    assert(key_b == path[3].take(path[3].len() - ".json"@.len()));
    vstd::utf8::encode_utf8_decode_utf8(raw_a);
    vstd::utf8::encode_utf8_decode_utf8(raw_b);
}

/// A message has a file of its own.
pub proof fn detail_file_belongs_to_one_message(
    path: Seq<Seq<char>>,
    email_a: Seq<char>,
    raw_a: Seq<char>,
    uid_a: u32,
    email_b: Seq<char>,
    raw_b: Seq<char>,
    uid_b: u32,
)
    requires
        is_detail_path(path, email_a, raw_a, uid_a),
        is_detail_path(path, email_b, raw_b, uid_b),
    ensures
        email_a == email_b,
        raw_a == raw_b,
        uid_a == uid_b,
{
    root_belongs_to_one_account(path.take(4).take(2), email_a, email_b);
    vstd::utf8::encode_utf8_decode_utf8(raw_a);
    vstd::utf8::encode_utf8_decode_utf8(raw_b);
    assert(decimal(uid_a as nat) == path[4].take(path[4].len() - ".json"@.len()));
    assert(decimal(uid_b as nat) == path[4].take(path[4].len() - ".json"@.len()));
    decimal_is_injective(uid_a as nat, uid_b as nat);
}

/// The folder list, the label list, the pages and the messages lie in
/// different files.
pub proof fn kinds_of_files_differ(
    path: Seq<Seq<char>>,
    email: Seq<char>,
    other: Seq<char>,
    raw_path: Seq<char>,
    other_raw: Seq<char>,
    uid: u32,
)
    ensures
        is_folders_path(path, email) ==> !is_labels_path(path, other) && !is_page_path(
            path,
            other,
            raw_path,
        ) && !is_detail_path(path, other, raw_path, uid),
        is_labels_path(path, email) ==> !is_page_path(path, other, raw_path) && !is_detail_path(
            path,
            other,
            raw_path,
            uid,
        ),
        is_page_path(path, email, raw_path) ==> !is_detail_path(path, other, other_raw, uid),
{
    reveal_strlit("folders.json");
    reveal_strlit("labels.json");
    assert("folders.json"@.len() != "labels.json"@.len());
}

// ---------------------------------------------------------------------------
// Reading and writing
// ---------------------------------------------------------------------------

/// The folder list of an account: what its file holds, or nothing where the
/// file is missing or cannot be read.
pub fn read_folders(stored: Option<Vec<Folder>>) -> (folders: Vec<Folder>)
    ensures
        folders@ == (match stored {
            Some(list) => list@,
            None => Seq::empty(),
        }),
{
    match stored {
        Some(list) => list,
        None => Vec::new(),
    }
}

/// The file to write for a folder list.
pub fn write_folders(email: &str, folders: Vec<Folder>) -> (file: CacheFile<Vec<Folder>>)
    ensures
        is_folders_path(texts(file.path@), email@),
        file.value == folders,
{
    CacheFile { path: folders_file(email), value: folders }
}

/// What is read of a stored page.
pub open spec fn readable_page(stored: Option<CachedPageView>) -> Option<CachedPageView> {
    match stored {
        Some(cached) => if cached.version == CACHE_VERSION {
            Some(cached)
        } else {
            None
        },
        None => None,
    }
}

/// What is read of a stored message in a folder of a given validity.
pub open spec fn readable_detail(
    stored: Option<CachedDetailView>,
    uid_validity: Option<u32>,
) -> Option<DetailView> {
    match stored {
        Some(cached) => if cached.version == CACHE_VERSION && cached.uid_validity
            == uid_validity {
            Some(cached.detail)
        } else {
            None
        },
        None => None,
    }
}

/// The page of a folder: what its file holds, where that is of this version.
pub fn read_page(stored: Option<CachedPage>) -> (cached: Option<CachedPage>)
    ensures
        page_of(cached) == readable_page(page_of(stored)),
        cached is Some ==> cached == stored,
{
    match stored {
        Some(cached) => if cached.version == CACHE_VERSION {
            Some(cached)
        } else {
            None
        },
        None => None,
    }
}

/// The messages of a folder as they were last received.
pub fn get_cached_messages(stored: Option<CachedPage>) -> (page: Option<MessagePage>)
    ensures
        match readable_page(page_of(stored)) {
            Some(cached) => page matches Some(p) && p@ == cached.page,
            None => page is None,
        },
{
    match read_page(stored) {
        Some(cached) => Some(cached.page),
        None => None,
    }
}

/// The file to write for a page.
pub fn write_page(email: &str, raw_path: &str, page: CachedPage) -> (file: CacheFile<CachedPage>)
    ensures
        is_page_path(texts(file.path@), email@, raw_path@),
        file.value == page,
{
    CacheFile { path: page_file(email, raw_path), value: page }
}

/// A message: what its file holds, where that is of this version and of the
/// same validity as the folder.
pub fn read_detail_at(
    stored: Option<CachedDetail>,
    uid_validity: Option<u32>,
) -> (detail: Option<MessageDetail>)
    ensures
        detail is Some <==> readable_detail(detail_of(stored), uid_validity) is Some,
        detail matches Some(d) ==> Some(d@) == readable_detail(detail_of(stored), uid_validity),
{
    match stored {
        Some(cached) => if cached.version == CACHE_VERSION && cached.uid_validity
            == uid_validity {
            Some(cached.detail)
        } else {
            None
        },
        None => None,
    }
}

/// A message of a folder whose page is stored too: the page says which
/// validity the message must have.
pub fn read_detail(
    stored_page: Option<CachedPage>,
    stored: Option<CachedDetail>,
) -> (detail: Option<MessageDetail>)
    ensures
        match readable_page(page_of(stored_page)) {
            Some(page) => {
                &&& detail is Some <==> readable_detail(detail_of(stored), page.uid_validity)
                    is Some
                &&& detail matches Some(d) ==> Some(d@) == readable_detail(
                    detail_of(stored),
                    page.uid_validity,
                )
            },
            None => detail is None,
        },
{
    match read_page(stored_page) {
        Some(page) => read_detail_at(stored, page.uid_validity),
        None => None,
    }
}

/// The file to write for a message.
pub fn write_detail(
    email: &str,
    raw_path: &str,
    uid_validity: Option<u32>,
    detail: MessageDetail,
) -> (file: CacheFile<CachedDetail>)
    ensures
        is_detail_path(texts(file.path@), email@, raw_path@, detail.summary.uid),
        file.value == (CachedDetail { version: CACHE_VERSION, uid_validity, detail }),
{
    let path = detail_file(email, raw_path, detail.summary.uid);
    CacheFile { path, value: CachedDetail { version: CACHE_VERSION, uid_validity, detail } }
}

/// A message that was written under a validity is read back while the folder
/// keeps that validity, and is not read any more once the folder has another.
pub proof fn validity_decides_on_cached_message(
    detail: DetailView,
    written: Option<u32>,
    current: Option<u32>,
)
    ensures
        readable_detail(
            Some(CachedDetailView { version: CACHE_VERSION, uid_validity: written, detail }),
            current,
        ) == (if written == current {
            Some(detail)
        } else {
            None
        }),
{
}

/// A page that was written with this version is read back as it was, and a
/// page of another version is not read.
pub proof fn version_decides_on_cached_page(page: CachedPageView)
    ensures
        page.version == CACHE_VERSION ==> readable_page(Some(page)) == Some(page),
        page.version != CACHE_VERSION ==> readable_page(Some(page)) is None,
{
}

} // verus!
