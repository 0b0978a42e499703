//! QR-code login core: token derivation, poll-status classification,
//! redirect extraction, and cookie-snapshot persistence logic.

pub mod digits;
pub mod issue;
pub mod jar;
pub mod request;
pub mod status;
pub mod textscan;
pub mod urlscan;
pub mod token;
