//! Replies of a mail server.

pub mod response;

pub use response::{ReplyCode, Response, ResponseLineError, ResponseState};
