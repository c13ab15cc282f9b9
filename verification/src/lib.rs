//! Request construction and response rendering for a small command-line
//! HTTP client.
//!
//! Arguments are parsed and validated into a [`request::RequestDescriptor`],
//! the descriptor is turned into an [`request::OutboundRequest`] that a
//! transport can send, and the answer, held as a
//! [`response::ResponseView`], is rendered into an ordered list of
//! [`response::Line`]s.

pub mod error;
pub mod header;
pub mod kv;
pub mod request;
pub mod response;
pub mod url;
