//! A small text chat over TCP: each connection carries one request envelope
//! and one response envelope, framed by a sentinel, and the server keeps
//! users by network address and their messages in the order sent.
pub mod codec;
pub mod dispatch;
pub mod envelope;
pub mod json;
pub mod store;
