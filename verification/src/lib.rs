//! The rules of a desktop mail client: labels, folders, searches, message
//! actions, the local cache and the letters that are sent.

pub mod account;
pub mod actions;
pub mod attachments;
pub mod cache;
pub mod codec;
pub mod folders;
pub mod label_list;
pub mod label_session;
pub mod labels;
pub mod laws;
pub mod letter;
pub mod list_session;
pub mod listing;
pub mod lists;
pub mod message;
pub mod mime;
pub mod model;
pub mod order;
pub mod outgoing;
pub mod pages;
pub mod read_session;
pub mod replace_account;
pub mod search;
pub mod storage;
pub mod text;
pub mod uids;
pub mod watch;
