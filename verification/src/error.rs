//! The library's error taxonomy. Framing faults and classification faults
//! are fatal to the stream; a missing or doubled `result`/`error` pair only
//! fails the one call it answers.
use crate::message_parser::HeaderFault;
use vstd::prelude::*;

verus! {

#[derive(Debug)]
pub enum LspError {
    /// A frame's header block is malformed; the stream is corrupt.
    Decode(HeaderFault),
    /// A frame body is not valid JSON, or a payload did not deserialize.
    Deserialization(serde_json::Error),
    /// A JSON value matches no known message shape.
    Classify,
    /// A response carries neither or both of `result` and `error`.
    Protocol,
    /// The pump ended; in-flight and future calls fail.
    TransportClosed,
}
} // verus!
