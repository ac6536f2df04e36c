//! Core of a Gemini protocol client.
//!
//! The Gemini protocol is a minimal request/response protocol over TLS: a
//! client sends one URL per connection and receives a status line, optional
//! metadata, and an optional body. Successful text bodies are written in
//! "gemtext", a line-oriented markup. This crate holds the verified core of
//! such a client: the status classifier, the response decoder, the redirect
//! state machine, the trust-on-first-use certificate policy, and the gemtext
//! document parser. Networking and presentation live outside the library.

pub mod client;
pub mod gemtext;
pub mod input;
pub mod response;
pub mod status;
pub mod text;
pub mod trust;
pub mod urls;

use vstd::prelude::*;

verus! {

/// Port a Gemini client connects to when the URL names none.
pub const DEFAULT_PORT: u16 = 1965;

} // verus!
