//! The messages of a WebSocket stream.
use vstd::prelude::*;

verus! {

/// A message that carries something; control messages of the WebSocket protocol are none.
#[derive(Debug)]
pub enum WsMessage {
    /// Text.
    Text(String),
    /// Bytes.
    Binary(Vec<u8>),
}

} // verus!
