//! An in-memory cache of keyed values that speaks a line-oriented text
//! protocol: a parser for requests, a store whose entries can expire, the
//! commands that read and write it, and an encoder for responses.

pub mod error;
pub mod laws;
pub mod model;
pub mod request;
pub mod response;
pub mod store;
pub mod strings;
pub mod text;

pub use error::ParseError;
pub use request::{Common, Get, Req};
pub use response::{encode_reply, Entry, Resp, Value};
pub use store::Store;
