//! A client of the HTTP interface of an opencode server.
//!
//! [`client::OpencodeClient`] gives the [`request::Request`] of each operation, [`reply`] and
//! [`page`] read the answers, and [`cursor`] makes the cursors that page through messages.
//! Nothing here sends anything. What is believed of `serde_json` and `base64` without proof stands
//! in [`json`] and at the end of [`base64url`]; the rest is proved from it.

pub mod base64url;
pub mod client;
pub mod cursor;
pub mod json;
pub mod page;
pub mod reply;
pub mod request;
pub mod text;
