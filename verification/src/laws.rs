//! What holds of the library as a whole, stated on what goes in and on what
//! comes out.

pub mod running;
pub mod searching;
pub mod sessions;
pub mod text;
pub mod accounts;
pub mod acting;
pub mod cached;
pub mod files;
pub mod folders;
pub mod labels;
pub mod letters;
pub mod messages;
pub mod numbers;
