//! Client-side logic for the Telegraph publishing API: the requests each
//! operation sends, how an answer is turned into a typed result, and the
//! conversion of HTML documents into the content nodes that pages are made of.
//!
//! The crate performs no input or output. An operation is a pair: a function
//! that builds the [`request::Request`] to send, and, where the answer changes
//! what the client holds, a function that takes the answer and returns the new
//! state.

pub mod account;
pub mod convert;
pub mod dom;
pub mod error;
pub mod json;
pub mod node;
pub mod request;
pub mod text;
pub mod types;
pub mod upload;
pub mod walk;
