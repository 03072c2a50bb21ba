//! How a message is read: from the cache, or from the server, step by step.
//!
//! A step says what is to be done and what goes on with the outcome. When a
//! message has come from the server, the connection is closed and the file is
//! written.

use crate::cache::{
    detail_of, is_detail_path, page_of, read_detail, readable_detail, readable_page, write_detail,
    CacheFile, CachedDetail, CachedDetailView, CachedPage, CACHE_VERSION,
};
use crate::laws::numbers::{selects, single_numbers_read_back};
use crate::list_session::Mailbox;
use crate::listing::copy_summary;
use crate::message::{first_received, is_detail_of, message_detail, raw_message, Fetched};
use crate::model::{Attachment, MessageDetail};
use crate::text::{copy_optional, decimal, texts, to_decimal, views};
use vstd::prelude::*;
use vstd::string::*;

verus! {

broadcast use vstd::string::group_string_axioms;

/// The next step of reading a message.
#[allow(inconsistent_fields)]
#[derive(Debug)]
pub enum ReadStep {
    /// Connect and open the folder.
    Select { raw_path: String, then: ReadSelect },
    /// Fetch the message.
    Fetch { set: String, items: String, then: ReadFetch },
    /// The message is read.
    Done { detail: MessageDetail, file: Option<CacheFile<CachedDetail>> },
    /// The message cannot be read.
    Failed(String),
}

/// Goes on when the folder is open.
#[derive(Debug)]
pub struct ReadSelect {
    pub email: String,
    pub raw_path: String,
    pub uid: u32,
}

/// Goes on when the message has come.
#[derive(Debug)]
pub struct ReadFetch {
    pub email: String,
    pub raw_path: String,
    pub uid_validity: Option<u32>,
}

/// What is fetched of a message in order to read it.
pub open spec fn message_items() -> Seq<char> {
    "(UID FLAGS INTERNALDATE RFC822.SIZE BODYSTRUCTURE BODY.PEEK[])"@
}

/// What is read of a stored message in a folder whose page is stored too.
pub open spec fn stored_message(
    page: Option<CachedPage>,
    stored: Option<CachedDetail>,
) -> Option<crate::model::DetailView> {
    match readable_page(page_of(page)) {
        Some(p) => readable_detail(detail_of(stored), p.uid_validity),
        None => None,
    }
}

/// Begins to read a message: a stored one is shown at once.
pub fn get_message(
    email: String,
    raw_path: String,
    uid: u32,
    page: Option<CachedPage>,
    stored: Option<CachedDetail>,
) -> (step: ReadStep)
    ensures
        match stored_message(page, stored) {
            Some(message) => step matches ReadStep::Done { detail, file: None } && detail@
                == message,
            None => step matches ReadStep::Select { raw_path: asked, then } && asked@ == raw_path@
                && then == (ReadSelect { email, raw_path, uid }),
        },
{
    match read_detail(page, stored) {
        Some(detail) => ReadStep::Done { detail, file: None },
        None => {
            let asked = raw_path.as_str().to_owned();
            ReadStep::Select { raw_path: asked, then: ReadSelect { email, raw_path, uid } }
        },
    }
}

impl ReadSelect {
    /// Fetches the message from the open folder.
    pub fn next(self, reply: Result<Mailbox, String>) -> (step: ReadStep)
        ensures
            match reply {
                Err(error) => step == ReadStep::Failed(error),
                Ok(mailbox) => {
                    &&& step matches ReadStep::Fetch { set, items, then }
                    &&& set@ == decimal(self.uid as nat)
                    &&& forall|uid: u32| #[trigger]
                        selects(set@, uid as nat) <==> uid == self.uid
                    &&& items@ == message_items()
                    &&& then == (ReadFetch {
                        email: self.email,
                        raw_path: self.raw_path,
                        uid_validity: mailbox.uid_validity,
                    })
                },
            },
    {
        proof {
            single_numbers_read_back(self.uid);
        }
        match reply {
            Ok(mailbox) => ReadStep::Fetch {
                set: to_decimal(self.uid as u64),
                items:
                    "(UID FLAGS INTERNALDATE RFC822.SIZE BODYSTRUCTURE BODY.PEEK[])".to_owned(),
                then: ReadFetch {
                    email: self.email,
                    raw_path: self.raw_path,
                    uid_validity: mailbox.uid_validity,
                },
            },
            Err(error) => ReadStep::Failed(error),
        }
    }
}

fn copy_attachments(list: &Vec<Attachment>) -> (copy: Vec<Attachment>)
    ensures
        views(copy@) == views(list@),
{
    let ghost all = views(list@);
    let mut copy: Vec<Attachment> = Vec::new();
    let mut i: usize = 0;
    while i < list.len()
        invariant
            i <= list@.len(),
            all == views(list@),
            views(copy@) == all.take(i as int),
        decreases list@.len() - i,
    {
        let ghost before = views(copy@);
        let item = Attachment {
            id: list[i].id,
            filename: list[i].filename.as_str().to_owned(),
            mime_type: list[i].mime_type.as_str().to_owned(),
            size: list[i].size,
        };
        copy.push(item);
        assert(views(copy@) == before.push(item@));
        i += 1;
    }
    assert(all.take(all.len() as int) == all);
    copy
}

fn copy_detail(detail: &MessageDetail) -> (copy: MessageDetail)
    ensures
        copy@ == detail@,
        copy.summary.uid == detail.summary.uid,
{
    MessageDetail {
        summary: copy_summary(&detail.summary),
        to: detail.to.as_str().to_owned(),
        body_text: copy_optional(&detail.body_text),
        body_html: copy_optional(&detail.body_html),
        attachments: copy_attachments(&detail.attachments),
    }
}

/// Whether a message that came is shown, and stored under the validity of its
/// folder.
pub open spec fn shows_message(step: ReadStep, state: ReadFetch, fetched: Option<Fetched>) -> bool {
    match step {
        ReadStep::Done { detail, file: Some(file) } => {
            &&& is_detail_of(Ok(detail), fetched)
            &&& is_detail_path(
                texts(file.path@),
                state.email@,
                state.raw_path@,
                detail.summary.uid,
            )
            &&& file.value@ == (CachedDetailView {
                version: CACHE_VERSION,
                uid_validity: state.uid_validity,
                detail: detail@,
            })
        },
        ReadStep::Failed(error) => is_detail_of(Err(error), fetched),
        _ => false,
    }
}

impl ReadFetch {
    /// Shows the message that came.
    pub fn next(self, reply: Result<Vec<Option<Fetched>>, String>) -> (step: ReadStep)
        ensures
            match reply {
                Err(error) => step == ReadStep::Failed(error),
                Ok(fetched) => shows_message(step, self, first_received(fetched@)),
            },
    {
        let fetched = match reply {
            Ok(fetched) => fetched,
            Err(error) => {
                return ReadStep::Failed(error);
            },
        };
        match message_detail(fetched) {
            Ok(detail) => {
                let copy = copy_detail(&detail);
                let file = write_detail(
                    self.email.as_str(),
                    self.raw_path.as_str(),
                    self.uid_validity,
                    copy,
                );
                ReadStep::Done { detail, file: Some(file) }
            },
            Err(error) => ReadStep::Failed(error),
        }
    }
}

/// A message that came from the server and was stored is shown from the cache
/// the next time, while the folder keeps its validity.
pub proof fn stored_message_is_shown_again(
    step: ReadStep,
    state: ReadFetch,
    fetched: Option<Fetched>,
    page: Option<CachedPage>,
)
    requires
        shows_message(step, state, fetched),
        step is Done,
        readable_page(page_of(page)) matches Some(p) && p.uid_validity == state.uid_validity,
    ensures
        step matches ReadStep::Done { detail, file: Some(file) } && stored_message(
            page,
            Some(file.value),
        ) == Some(detail@),
{
}

// ---------------------------------------------------------------------------
// The bytes of a message
// ---------------------------------------------------------------------------

/// The next step of fetching the bytes of a message.
#[allow(inconsistent_fields)]
#[derive(Debug)]
pub enum RawStep {
    /// Open the folder.
    Select { raw_path: String, then: RawSelect },
    /// Fetch the message.
    Fetch { set: String, items: String, then: RawFetch },
    /// The bytes are here.
    Done { raw: Vec<u8> },
    /// The message cannot be fetched.
    Failed(String),
}

/// Goes on when the folder is open.
#[derive(Debug)]
pub struct RawSelect {
    pub uid: u32,
}

/// Goes on when the message has come.
#[derive(Debug)]
pub struct RawFetch;

/// Begins to fetch the bytes of a message.
pub fn fetch_raw_message(raw_path: &str, uid: u32) -> (step: RawStep)
    ensures
        step matches RawStep::Select { raw_path: asked, then } && asked@ == raw_path@ && then.uid
            == uid,
{
    RawStep::Select { raw_path: raw_path.to_owned(), then: RawSelect { uid } }
}

impl RawSelect {
    /// Fetches the message from the open folder.
    pub fn next(self, reply: Result<Mailbox, String>) -> (step: RawStep)
        ensures
            match reply {
                Err(error) => step == RawStep::Failed(error),
                Ok(_) => step matches RawStep::Fetch { set, items, then } && set@ == decimal(
                    self.uid as nat,
                ) && items@ == "(UID BODY.PEEK[])"@,
            },
            step matches RawStep::Fetch { set, .. } ==> forall|uid: u32| #[trigger]
                selects(set@, uid as nat) <==> uid == self.uid,
    {
        proof {
            single_numbers_read_back(self.uid);
        }
        match reply {
            Ok(_) => RawStep::Fetch {
                set: to_decimal(self.uid as u64),
                items: "(UID BODY.PEEK[])".to_owned(),
                then: RawFetch,
            },
            Err(error) => RawStep::Failed(error),
        }
    }
}

impl RawFetch {
    /// Takes the bytes out of what came.
    pub fn next(self, reply: Result<Vec<Option<Fetched>>, String>) -> (step: RawStep)
        ensures
            match reply {
                Err(error) => step == RawStep::Failed(error),
                Ok(fetched) => match first_received(fetched@) {
                    Some(f) => match f.body {
                        Some(body) => step == (RawStep::Done { raw: body }),
                        None => step matches RawStep::Failed(e) && e@ == "Письмо не найдено"@,
                    },
                    None => step matches RawStep::Failed(e) && e@ == "Письмо не найдено"@,
                },
            },
    {
        match reply {
            Ok(fetched) => match raw_message(fetched) {
                Ok(raw) => RawStep::Done { raw },
                Err(error) => RawStep::Failed(error),
            },
            Err(error) => RawStep::Failed(error),
        }
    }
}

} // verus!
