//! Attachment upload and ordering pipeline of the investment administration
//! UI, with the plain data records that the UI exchanges with its server.

pub mod attachment;
pub mod pipeline;
pub mod drag;
pub mod laws;
pub mod auth;
pub mod error;
pub mod request;
pub mod table;
pub mod admin;
pub mod preview;
pub mod search;
