//! A client-side Language Server Protocol transport library.
//!
//! The library speaks JSON-RPC 2.0 framed with LSP `Content-Length` headers
//! to a language-server subprocess. It provides the header-framed codec, the
//! incoming-message classifier, the response correlator that matches server
//! replies to in-flight requests by id, and the pump that routes decoded
//! messages to the response queue and the notification stream. Process
//! spawning and pipe I/O are left to the embedding application.
pub mod client;
pub mod codec;
pub mod dispatcher;
pub mod error;
pub mod json;
pub mod language;
pub mod message_parser;
pub mod messages;
pub mod types;
pub mod utils;
pub mod worker;

pub use language::Language;
