//! What callers ask of the connection loop.
use vstd::prelude::*;

use crate::frame::Frame;
use crate::scheduler::MessagePriority;

verus! {

/// A command to the connection loop.
#[derive(Debug)]
pub enum ClientCmd {
    /// Send a frame.
    Send {
        /// The frame.
        frame: Frame,
        /// How urgent it is.
        priority: MessagePriority,
    },
    /// The endpoint was set or cleared.
    EndpointChanged,
    /// Connect again at once.
    Reconnect,
    /// Look again, because new credentials are there.
    WakeUp,
}

} // verus!
