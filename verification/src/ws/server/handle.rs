//! What the owner of a server session asks of it.
use vstd::prelude::*;

use crate::error::TransportError;
use crate::frame::{Frame, FrameKind, FrameModel};
use crate::ids;
use crate::ids::fresh_id;
use crate::scheduler::MessagePriority;
use crate::state::ConnectionState;

verus! {

/// A command to a session.
#[derive(Debug)]
pub enum SessionCmd {
    /// Send a frame.
    Send {
        /// The frame.
        frame: Frame,
        /// How urgent it is.
        priority: MessagePriority,
    },
    /// End the session.
    Close,
}

/// Handle for pushing frames to a connected client: the session's ID and its last known state.
/// Each method that asks something of the session returns the command to be queued for it.
#[derive(Debug)]
pub struct ServerSessionHandle {
    /// The session's ID.
    pub id: u128,
    /// The session's state.
    pub state: ConnectionState,
}

impl ServerSessionHandle {
    /// The handle of a session that has just been accepted.
    pub fn new() -> (r: Self)
        ensures
            ids::is_random_uuid(r.id),
            r.state@ is Online,
    {
        ServerSessionHandle { id: fresh_id(), state: ConnectionState::Online }
    }

    /// Send a response frame matched by the client's request `id`.
    pub fn respond(&self, id: u32, data: Vec<u8>) -> (r: SessionCmd)
        ensures
            r matches SessionCmd::Send { frame, priority } && priority is Normal && frame@ == (
            FrameModel { id, kind: FrameKind::Message, data: data@ }),
    {
        SessionCmd::Send {
            frame: Frame { id, kind: FrameKind::Message, data },
            priority: MessagePriority::Normal,
        }
    }

    /// Push a server-initiated event frame (`id = 0`).
    pub fn push_event(&self, data: Vec<u8>, priority: MessagePriority) -> (r: SessionCmd)
        ensures
            r matches SessionCmd::Send { frame, priority: p } && p == priority && frame@ == (
            FrameModel { id: 0, kind: FrameKind::Event, data: data@ }),
    {
        SessionCmd::Send { frame: Frame { id: 0, kind: FrameKind::Event, data }, priority }
    }

    /// Gracefully close the session.
    pub fn close(&self) -> (r: SessionCmd)
        ensures
            r is Close,
    {
        SessionCmd::Close
    }

    /// Returns `true` if the underlying WS connection is still alive.
    pub fn is_alive(&self) -> (r: bool)
        ensures
            r == (self.state@ is Online),
    {
        self.state.is_online()
    }
}

/// What the sender of a frame is told: whether the session's queue has taken it.
pub fn frame_queued(taken: bool) -> (r: Result<(), TransportError>)
    ensures
        r == if taken {
            Ok::<(), TransportError>(())
        } else {
            Err(TransportError::ChannelError)
        },
{
    if taken {
        Ok(())
    } else {
        Err(TransportError::ChannelError)
    }
}

/// A response goes out under the ID of the request that it answers, and an event under none; both
/// carry what was given.
pub proof fn law_responses_carry_the_request_id(
    handle: &ServerSessionHandle,
    id: u32,
    data: Vec<u8>,
    priority: MessagePriority,
    response: SessionCmd,
    event: SessionCmd,
)
    requires
        ServerSessionHandle::respond.ensures((handle, id, data), response),
        ServerSessionHandle::push_event.ensures((handle, data, priority), event),
    ensures
        response matches SessionCmd::Send { frame, priority: p } && p is Normal && frame.id == id
            && frame.kind is Message && frame.data@ == data@,
        event matches SessionCmd::Send { frame, priority: p } && p == priority && frame.id == 0
            && frame.kind is Event && frame.data@ == data@,
{
}

/// A session is alive exactly while it is online, and closing it is no sending.
pub proof fn law_session_lives_while_online(
    handle: &ServerSessionHandle,
    alive: bool,
    closing: SessionCmd,
    taken: bool,
    told: Result<(), TransportError>,
)
    requires
        ServerSessionHandle::is_alive.ensures((handle,), alive),
        ServerSessionHandle::close.ensures((handle,), closing),
        frame_queued.ensures((taken,), told),
    ensures
        alive <==> handle.state is Online,
        closing is Close,
        told is Ok <==> taken,
        told is Err <==> told matches Err(TransportError::ChannelError),
{
}

} // verus!
