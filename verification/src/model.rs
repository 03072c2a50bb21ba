//! The values that the mail rules work on, and what they stand for.

use crate::text::{text_of, texts, views};
use vstd::prelude::*;

verus! {

/// The settings of a mail account.
#[derive(Clone, Debug)]
pub struct Account {
    pub email: String,
    pub imap_host: String,
    pub imap_port: u16,
    pub smtp_host: String,
    pub smtp_port: u16,
}

/// What an account stands for.
#[verifier::ext_equal]
pub struct AccountView {
    pub email: Seq<char>,
    pub imap_host: Seq<char>,
    pub imap_port: u16,
    pub smtp_host: Seq<char>,
    pub smtp_port: u16,
}

impl View for Account {
    type V = AccountView;

    open spec fn view(&self) -> AccountView {
        AccountView {
            email: self.email@,
            imap_host: self.imap_host@,
            imap_port: self.imap_port,
            smtp_host: self.smtp_host@,
            smtp_port: self.smtp_port,
        }
    }
}

/// A folder of the mailbox.
#[derive(Clone, Debug)]
pub struct Folder {
    pub name: String,
    pub path: String,
    pub raw_path: String,
    pub special_use: Option<String>,
    pub total: u32,
    pub unseen: u32,
}

/// What a folder stands for.
#[verifier::ext_equal]
pub struct FolderView {
    pub name: Seq<char>,
    pub path: Seq<char>,
    pub raw_path: Seq<char>,
    pub special_use: Option<Seq<char>>,
    pub total: u32,
    pub unseen: u32,
}

impl View for Folder {
    type V = FolderView;

    open spec fn view(&self) -> FolderView {
        FolderView {
            name: self.name@,
            path: self.path@,
            raw_path: self.raw_path@,
            special_use: text_of(self.special_use),
            total: self.total,
            unseen: self.unseen,
        }
    }
}

/// What a list shows of a message.
#[derive(Clone, Debug)]
pub struct MessageSummary {
    pub uid: u32,
    pub subject: String,
    pub from_name: String,
    pub from_address: String,
    pub date: i64,
    pub seen: bool,
    pub flagged: bool,
    pub labels: Vec<String>,
    pub size: u32,
    pub has_attachments: bool,
}

/// What a message summary stands for.
#[verifier::ext_equal]
pub struct SummaryView {
    pub uid: u32,
    pub subject: Seq<char>,
    pub from_name: Seq<char>,
    pub from_address: Seq<char>,
    pub date: i64,
    pub seen: bool,
    pub flagged: bool,
    pub labels: Seq<Seq<char>>,
    pub size: u32,
    pub has_attachments: bool,
}

impl View for MessageSummary {
    type V = SummaryView;

    open spec fn view(&self) -> SummaryView {
        SummaryView {
            uid: self.uid,
            subject: self.subject@,
            from_name: self.from_name@,
            from_address: self.from_address@,
            date: self.date,
            seen: self.seen,
            flagged: self.flagged,
            labels: texts(self.labels@),
            size: self.size,
            has_attachments: self.has_attachments,
        }
    }
}

/// Some messages of a folder, with the folder's counts.
#[derive(Clone, Debug)]
pub struct MessagePage {
    pub items: Vec<MessageSummary>,
    pub total: u32,
    pub unseen: u32,
}

/// What a page of messages stands for.
#[verifier::ext_equal]
pub struct PageView {
    pub items: Seq<SummaryView>,
    pub total: u32,
    pub unseen: u32,
}

impl View for MessagePage {
    type V = PageView;

    open spec fn view(&self) -> PageView {
        PageView { items: views(self.items@), total: self.total, unseen: self.unseen }
    }
}

/// An attachment of a received message.
#[derive(Clone, Debug)]
pub struct Attachment {
    pub id: u32,
    pub filename: String,
    pub mime_type: String,
    pub size: usize,
}

/// What an attachment stands for.
#[verifier::ext_equal]
pub struct AttachmentView {
    pub id: u32,
    pub filename: Seq<char>,
    pub mime_type: Seq<char>,
    pub size: usize,
}

impl View for Attachment {
    type V = AttachmentView;

    open spec fn view(&self) -> AttachmentView {
        AttachmentView {
            id: self.id,
            filename: self.filename@,
            mime_type: self.mime_type@,
            size: self.size,
        }
    }
}

/// A message as it is read.
#[derive(Clone, Debug)]
pub struct MessageDetail {
    pub summary: MessageSummary,
    pub to: String,
    pub body_text: Option<String>,
    pub body_html: Option<String>,
    pub attachments: Vec<Attachment>,
}

/// What a message stands for.
#[verifier::ext_equal]
pub struct DetailView {
    pub summary: SummaryView,
    pub to: Seq<char>,
    pub body_text: Option<Seq<char>>,
    pub body_html: Option<Seq<char>>,
    pub attachments: Seq<AttachmentView>,
}

impl View for MessageDetail {
    type V = DetailView;

    open spec fn view(&self) -> DetailView {
        DetailView {
            summary: self.summary@,
            to: self.to@,
            body_text: text_of(self.body_text),
            body_html: text_of(self.body_html),
            attachments: views(self.attachments@),
        }
    }
}

/// A label and the number of messages that carry it.
#[derive(Clone, Debug)]
pub struct Label {
    pub name: String,
    pub count: u32,
}

/// What a label stands for.
#[verifier::ext_equal]
pub struct LabelView {
    pub name: Seq<char>,
    pub count: u32,
}

impl View for Label {
    type V = LabelView;

    open spec fn view(&self) -> LabelView {
        LabelView { name: self.name@, count: self.count }
    }
}

/// A file that is to be attached to a letter.
#[derive(Debug)]
pub struct LocalAttachment {
    pub path: String,
    pub filename: String,
    pub size: u64,
}

/// What a file that is to be attached stands for.
#[verifier::ext_equal]
pub struct LocalAttachmentView {
    pub path: Seq<char>,
    pub filename: Seq<char>,
    pub size: u64,
}

impl View for LocalAttachment {
    type V = LocalAttachmentView;

    open spec fn view(&self) -> LocalAttachmentView {
        LocalAttachmentView { path: self.path@, filename: self.filename@, size: self.size }
    }
}

/// An image attachment as a URL that holds it.
#[derive(Debug)]
pub struct AttachmentPreview {
    pub id: u32,
    pub url: String,
}

/// What a preview stands for.
#[verifier::ext_equal]
pub struct PreviewView {
    pub id: u32,
    pub url: Seq<char>,
}

impl View for AttachmentPreview {
    type V = PreviewView;

    open spec fn view(&self) -> PreviewView {
        PreviewView { id: self.id, url: self.url@ }
    }
}

/// The messages that an action is for.
#[derive(Debug)]
pub enum MessageSelection {
    Uids { uids: Vec<u32> },
    All { label: Option<String>, query: Option<String> },
}

/// What is done to messages.
#[derive(Debug)]
pub enum MessageAction {
    Seen { enabled: bool },
    Flagged { enabled: bool },
    Label { name: String, enabled: bool },
    Move { destination: String },
    Delete,
    Archive,
    Spam,
}

/// How many messages an action was for.
#[derive(Debug)]
pub struct ActionResult {
    pub affected: usize,
}

/// A letter that is to be sent.
#[derive(Debug)]
pub struct OutgoingMessage {
    pub to: String,
    pub subject: String,
    pub text: String,
    pub html: Option<String>,
    pub attachments: Vec<String>,
}

} // verus!
