//! What the owner of a WebSocket client sets and asks for.
use vstd::prelude::*;

use crate::address;
use crate::address::parse_url;
use crate::endpoint;
use crate::endpoint::{
    EndpointHandle, EndpointPriority, EndpointRegistry, EntryModel, RegistryModel,
};
use crate::error::TransportError;
use crate::frame::{Frame, FrameKind, FrameModel};
use crate::scheduler::MessagePriority;
use crate::ws::client::cmd::ClientCmd;
use crate::ws::client::connection_loop::{Surroundings, SurroundingsModel};
use crate::ws::client::pending;
use crate::ws::client::pending::{PendingModel, PendingRequests};

verus! {

/// The record that a client shares with its connection loop: the endpoint, or for a client with
/// failover the registry of endpoints, whether a dropped connection is renewed by itself, the
/// shutdown, and the pending requests. Each method that asks something of the loop returns the
/// command to be queued for it.
pub struct WsClient {
    /// The endpoints of a client with failover.
    pub endpoints: EndpointRegistry,
    endpoint: Option<String>,
    auto_reconnect: bool,
    cancelled: bool,
    pending: PendingRequests,
}

/// The model of a `WsClient`.
pub struct ClientModel {
    pub endpoints: RegistryModel,
    pub around: SurroundingsModel,
    pub pending: PendingModel,
}

impl View for WsClient {
    type V = ClientModel;

    closed spec fn view(&self) -> ClientModel {
        ClientModel {
            endpoints: self.endpoints@,
            around: SurroundingsModel {
                endpoint: match self.endpoint {
                    Some(url) => Some(url@),
                    None => None,
                },
                auto_reconnect: self.auto_reconnect,
                cancelled: self.cancelled,
            },
            pending: self.pending@,
        }
    }
}

/// What became of a command that was handed to the queue.
#[derive(Debug)]
pub enum Queued {
    /// It is in the queue.
    Accepted,
    /// The queue is full.
    Full,
    /// The connection loop is gone.
    Closed,
}

/// What became of a request.
#[derive(Debug)]
pub enum RequestEnd {
    /// It could not be queued: the connection loop is gone.
    NotQueued,
    /// It was answered.
    Answered(Result<Vec<u8>, TransportError>),
    /// It was given up together with the connection.
    GivenUp,
    /// No answer came in time.
    TimedOut,
}

impl ClientModel {
    /// The client with one more request, and the request's ID and frame.
    pub open spec fn requested(self, data: Seq<u8>, ticket: u64) -> (FrameModel, ClientModel) {
        let (id, pending) = self.pending.registered(ticket);
        (FrameModel { id, kind: FrameKind::Message, data }, ClientModel { pending, ..self })
    }

    /// The client after a request has ended.
    pub open spec fn ended(self, id: u32, end: RequestEnd) -> ClientModel {
        match end {
            RequestEnd::GivenUp | RequestEnd::TimedOut => ClientModel {
                pending: self.pending.settled(id).1,
                ..self
            },
            _ => self,
        }
    }

    /// The ticket of the request that a response answers, and the client then.
    pub open spec fn resolved(self, id: u32) -> (Option<u64>, ClientModel) {
        let (ticket, pending) = self.pending.settled(id);
        (ticket, ClientModel { pending, ..self })
    }

    /// The client with another endpoint, or with none.
    pub open spec fn with_endpoint(self, endpoint: Option<Seq<char>>) -> ClientModel {
        ClientModel { around: SurroundingsModel { endpoint, ..self.around }, ..self }
    }

    /// The client that renews dropped connections by itself, or does not.
    pub open spec fn renewing(self, auto_reconnect: bool) -> ClientModel {
        ClientModel { around: SurroundingsModel { auto_reconnect, ..self.around }, ..self }
    }

    /// The client that is shut down.
    pub open spec fn shut_down(self) -> ClientModel {
        ClientModel { around: SurroundingsModel { cancelled: true, ..self.around }, ..self }
    }

    /// The client with other endpoints for failover.
    pub open spec fn with_endpoints(self, endpoints: RegistryModel) -> ClientModel {
        ClientModel { endpoints, ..self }
    }

    /// The client with its pending requests forgotten.
    pub open spec fn forgetting(self) -> ClientModel {
        ClientModel { pending: self.pending.failed(), ..self }
    }
}

/// What the caller of a request gets.
pub open spec fn request_result(end: RequestEnd) -> Result<Vec<u8>, TransportError> {
    match end {
        RequestEnd::Answered(result) => result,
        RequestEnd::TimedOut => Err(TransportError::RequestTimeout),
        RequestEnd::NotQueued | RequestEnd::GivenUp => Err(TransportError::ChannelError),
    }
}

impl WsClient {
    /// A client without an endpoint that renews dropped connections by itself.
    pub fn new() -> (r: Self)
        ensures
            r@.endpoints.wf(),
            r@ == (ClientModel {
                endpoints: RegistryModel {
                    entries: Seq::empty(),
                    forced: None,
                    last: None,
                },
                around: SurroundingsModel {
                    endpoint: None,
                    auto_reconnect: true,
                    cancelled: false,
                },
                pending: PendingModel {
                    tickets: Map::empty(),
                    next_id: 2,
                },
            }),
    {
        WsClient {
            endpoints: EndpointRegistry::new(),
            endpoint: None,
            auto_reconnect: true,
            cancelled: false,
            pending: PendingRequests::new(),
        }
    }

    /// Registers an endpoint for failover.
    pub fn add_endpoint(&mut self, url: &str, priority: EndpointPriority) -> (r: Result<
        (EndpointHandle, ClientCmd),
        TransportError,
    >)
        requires
            old(self)@.endpoints.wf(),
        ensures
            final(self)@.endpoints.wf(),
            match endpoint::endpoint_url(url@) {
                Some(u) => {
                    &&& r matches Ok((handle, cmd)) && cmd is EndpointChanged
                    &&& final(self)@ == (ClientModel {
                        endpoints: RegistryModel {
                            entries: endpoint::inserted(
                                old(self)@.endpoints.entries,
                                EntryModel {
                                    id: r->Ok_0.0.spec_id(),
                                    url: u,
                                    priority,
                                },
                            ),
                            ..old(self)@.endpoints
                        },
                        ..old(self)@
                    })
                },
                None => {
                    &&& r matches Err(TransportError::InvalidUrl(text)) && text@ == url@
                    &&& final(self)@ == old(self)@
                },
            },
    {
        match self.endpoints.add(url, priority) {
            Ok(handle) => Ok((handle, ClientCmd::EndpointChanged)),
            Err(e) => Err(e),
        }
    }

    /// Removes an endpoint for failover.
    pub fn remove_endpoint(&mut self, handle: &EndpointHandle) -> (r: ClientCmd)
        requires
            old(self)@.endpoints.wf(),
        ensures
            r is EndpointChanged,
            final(self)@.endpoints.wf(),
            final(self)@ == old(self)@.with_endpoints(
                old(self)@.endpoints.removing(handle.spec_id()),
            ),
            final(self)@ == (ClientModel {
                endpoints: RegistryModel {
                    entries: endpoint::without_id(
                        old(self)@.endpoints.entries,
                        handle.spec_id(),
                    ),
                    forced: if old(self)@.endpoints.forced == Some(handle.spec_id()) {
                        None
                    } else {
                        old(self)@.endpoints.forced
                    },
                    ..old(self)@.endpoints
                },
                ..old(self)@
            }),
    {
        self.endpoints.remove(handle);
        ClientCmd::EndpointChanged
    }

    /// Forces an endpoint for failover.
    pub fn switch_to_endpoint(&mut self, handle: &EndpointHandle) -> (r: ClientCmd)
        ensures
            r is EndpointChanged,
            final(self)@ == old(self)@.with_endpoints(
                old(self)@.endpoints.forcing(handle.spec_id()),
            ),
            final(self)@ == (ClientModel {
                endpoints: RegistryModel {
                    forced: Some(handle.spec_id()),
                    ..old(self)@.endpoints
                },
                ..old(self)@
            }),
    {
        self.endpoints.switch_to(handle);
        ClientCmd::EndpointChanged
    }

    /// Lets the endpoints for failover be chosen by their priorities again.
    pub fn clear_forced_endpoint(&mut self) -> (r: ClientCmd)
        ensures
            r is EndpointChanged,
            final(self)@ == old(self)@.with_endpoints(old(self)@.endpoints.unforced()),
            final(self)@ == (ClientModel {
                endpoints: RegistryModel {
                    forced: None,
                    ..old(self)@.endpoints
                },
                ..old(self)@
            }),
    {
        self.endpoints.clear_forced();
        ClientCmd::EndpointChanged
    }

    /// Set the WS endpoint URL (e.g. `"ws://192.168.1.10:8080"`).
    pub fn set_endpoint(&mut self, url_str: &str) -> (r: Result<ClientCmd, TransportError>)
        ensures
            final(self)@ == if address::parsed(url_str@) is Some {
                old(self)@.with_endpoint(Some(url_str@))
            } else {
                old(self)@
            },
            match address::parsed(url_str@) {
                Some(_) => {
                    &&& r matches Ok(cmd) && cmd is EndpointChanged
                    &&& final(self)@ == (ClientModel {
                        around: SurroundingsModel {
                            endpoint: Some(url_str@),
                            ..old(self)@.around
                        },
                        ..old(self)@
                    })
                },
                None => {
                    &&& r matches Err(TransportError::InvalidUrl(text)) && text@ == url_str@
                    &&& final(self)@ == old(self)@
                },
            },
    {
        match parse_url(url_str) {
            None => Err(TransportError::InvalidUrl(url_str.to_owned())),
            Some(_) => {
                self.endpoint = Some(url_str.to_owned());
                Ok(ClientCmd::EndpointChanged)
            },
        }
    }

    /// Clear current endpoint, stopping active connection.
    pub fn clear_endpoint(&mut self) -> (r: ClientCmd)
        ensures
            r is EndpointChanged,
            final(self)@ == old(self)@.with_endpoint(None),
            final(self)@ == (ClientModel {
                around: SurroundingsModel {
                    endpoint: None,
                    ..old(self)@.around
                },
                ..old(self)@
            }),
    {
        self.endpoint = None;
        ClientCmd::EndpointChanged
    }

    /// Retrieve the current endpoint URL if set.
    pub fn endpoint(&self) -> (r: Option<String>)
        ensures
            match self@.around.endpoint {
                Some(url) => r matches Some(s) && s@ == url,
                None => r is None,
            },
    {
        self.endpoint.clone()
    }

    /// Control whether the transport automatically attempts to reconnect on drops.
    pub fn set_auto_reconnect(&mut self, enabled: bool) -> (r: Option<ClientCmd>)
        ensures
            final(self)@ == old(self)@.renewing(enabled),
            if enabled {
                r matches Some(cmd) && cmd is Reconnect
            } else {
                r is None
            },
            final(self)@ == (ClientModel {
                around: SurroundingsModel {
                    auto_reconnect: enabled,
                    ..old(self)@.around
                },
                ..old(self)@
            }),
    {
        self.auto_reconnect = enabled;
        if enabled {
            Some(self.reconnect())
        } else {
            None
        }
    }

    /// Returns whether auto-reconnect is enabled.
    pub fn auto_reconnect(&self) -> (r: bool)
        ensures
            r == self@.around.auto_reconnect,
    {
        self.auto_reconnect
    }

    /// Instantly trigger a connection or reconnect attempt, resetting backoff timers.
    pub fn reconnect(&self) -> (r: ClientCmd)
        ensures
            r is Reconnect,
    {
        ClientCmd::Reconnect
    }

    /// Shutdown the client and terminate the background connection loop.
    pub fn shutdown(&mut self)
        ensures
            final(self)@ == old(self)@.shut_down(),
            final(self)@ == (ClientModel {
                around: SurroundingsModel {
                    cancelled: true,
                    ..old(self)@.around
                },
                ..old(self)@
            }),
    {
        self.cancelled = true;
    }

    /// What the connection loop sees of the client.
    pub fn surroundings(&self) -> (r: Surroundings)
        ensures
            r@ == self@.around,
    {
        Surroundings {
            endpoint: self.endpoint.clone(),
            auto_reconnect: self.auto_reconnect,
            cancelled: self.cancelled,
        }
    }

    /// Registers a request; the caller is found again by its ticket. The command sends the request
    /// under the ID that is returned.
    pub fn request(&mut self, data: Vec<u8>, priority: MessagePriority, ticket: u64) -> (r: (
        u32,
        ClientCmd,
    ))
        ensures
            final(self)@ == old(self)@.requested(data@, ticket).1,
            r.1 matches ClientCmd::Send { frame, .. } && frame@ == old(self)@.requested(
                data@,
                ticket,
            ).0,
            r.0 == old(self)@.pending.next_id,
            r.1 matches ClientCmd::Send { frame, priority: p } && p == priority && frame@ == (
            FrameModel { id: r.0, kind: FrameKind::Message, data: data@ }),
            final(self)@.pending.tickets == old(self)@.pending.tickets.insert(r.0, ticket),
            final(self)@.pending.next_id == if r.0 == u32::MAX {
                0
            } else {
                (r.0 + 1) as u32
            },
            final(self)@.around == old(self)@.around,
            final(self)@.endpoints == old(self)@.endpoints,
    {
        let id: u32 = self.pending.register(ticket);
        let frame = Frame { id, kind: FrameKind::Message, data };
        (id, ClientCmd::Send { frame, priority })
    }

    /// Ends a request: what its caller gets, and whether it is still pending.
    pub fn end_request(&mut self, id: u32, end: RequestEnd) -> (r: Result<Vec<u8>, TransportError>)
        ensures
            r == request_result(end),
            final(self)@ == old(self)@.ended(id, end),
            r == match end {
                RequestEnd::Answered(result) => result,
                RequestEnd::TimedOut => Err(TransportError::RequestTimeout),
                RequestEnd::NotQueued | RequestEnd::GivenUp => Err(TransportError::ChannelError),
            },
            final(self)@.pending == match end {
                RequestEnd::GivenUp | RequestEnd::TimedOut => (
                PendingModel {
                    tickets: old(self)@.pending.tickets.remove(id),
                    ..old(self)@.pending
                }),
                _ => old(self)@.pending,
            },
            final(self)@.around == old(self)@.around,
            final(self)@.endpoints == old(self)@.endpoints,
    {
        match end {
            RequestEnd::NotQueued => Err(TransportError::ChannelError),
            RequestEnd::Answered(result) => result,
            RequestEnd::GivenUp => {
                self.pending.settle(id);
                Err(TransportError::ChannelError)
            },
            RequestEnd::TimedOut => {
                self.pending.settle(id);
                Err(TransportError::RequestTimeout)
            },
        }
    }

    /// The ticket of the pending request that a response answers; the request is then settled.
    pub fn resolve(&mut self, id: u32) -> (r: Option<u64>)
        ensures
            (r, final(self)@) == old(self)@.resolved(id),
            r == if old(self)@.pending.tickets.contains_key(id) {
                Some(old(self)@.pending.tickets[id])
            } else {
                None
            },
            final(self)@ == (ClientModel {
                pending: PendingModel {
                    tickets: old(self)@.pending.tickets.remove(id),
                    ..old(self)@.pending
                },
                ..old(self)@
            }),
    {
        self.pending.settle(id)
    }

    /// Forgets all pending requests, because the connection is gone.
    pub fn fail_pending(&mut self)
        ensures
            final(self)@ == old(self)@.forgetting(),
            final(self)@ == (ClientModel {
                pending: PendingModel {
                    tickets: Map::empty(),
                    ..old(self)@.pending
                },
                ..old(self)@
            }),
    {
        self.pending.fail_all();
    }

    /// Fire-and-forget: the command that sends a frame with no response expected.
    pub fn send_event(&self, data: Vec<u8>, priority: MessagePriority) -> (r: ClientCmd)
        ensures
            r matches ClientCmd::Send { frame, priority: p } && p == priority && frame@ == (
            FrameModel { id: 0, kind: FrameKind::Event, data: data@ }),
    {
        let frame = Frame { id: 0, kind: FrameKind::Event, data };
        ClientCmd::Send { frame, priority }
    }

    /// Wake the connection loop (e.g., after new auth data is provided).
    pub fn wake(&self) -> (r: ClientCmd)
        ensures
            r is WakeUp,
    {
        ClientCmd::WakeUp
    }
}

/// What the sender of an event is told.
pub fn event_queued(queued: Queued) -> (r: Result<(), TransportError>)
    ensures
        r == match queued {
            Queued::Accepted => Ok(()),
            Queued::Full => Err(TransportError::BufferFull),
            Queued::Closed => Err(TransportError::ChannelError),
        },
{
    match queued {
        Queued::Accepted => Ok(()),
        Queued::Full => Err(TransportError::BufferFull),
        Queued::Closed => Err(TransportError::ChannelError),
    }
}

/// A response reaches the caller whose request it answers, and only once. A request that was given
/// up or timed out is answered by no response any more; one that is answered or was never queued is
/// not touched by its end, and neither end touches another request.
pub proof fn law_response_reaches_its_caller(
    m: ClientModel,
    data: Seq<u8>,
    ticket: u64,
    end: RequestEnd,
    other: u32,
)
    ensures
        ({
            let (frame, asked) = m.requested(data, ticket);
            let (found, answered) = asked.resolved(frame.id);
            &&& frame.kind is Message
            &&& frame.data == data
            &&& found == Some(ticket)
            &&& answered.resolved(frame.id).0 is None
            &&& end is GivenUp || end is TimedOut ==> asked.ended(frame.id, end).resolved(
                frame.id,
            ).0 is None
            &&& end is Answered || end is NotQueued ==> asked.ended(frame.id, end) == asked
            &&& other != frame.id ==> asked.ended(other, end).resolved(frame.id).0 == Some(ticket)
            &&& other != frame.id ==> asked.resolved(other).1.resolved(frame.id).0 == Some(ticket)
            &&& asked.forgetting().resolved(frame.id).0 is None
        }),
{
    pending::law_response_finds_its_request(m.pending, ticket, other);
}

/// The caller of a request gets the answer as it came; without an answer in time, that it timed
/// out; and where the connection or its loop is gone, that the channel is.
pub proof fn law_caller_gets_the_answer(result: Result<Vec<u8>, TransportError>)
    ensures
        request_result(RequestEnd::Answered(result)) == result,
        request_result(RequestEnd::TimedOut) matches Err(TransportError::RequestTimeout),
        request_result(RequestEnd::GivenUp) matches Err(TransportError::ChannelError),
        request_result(RequestEnd::NotQueued) matches Err(TransportError::ChannelError),
{
}

/// Requests do not touch what the client's owner has set.
pub proof fn law_requests_leave_the_settings_alone(
    m: ClientModel,
    data: Seq<u8>,
    ticket: u64,
    id: u32,
    end: RequestEnd,
)
    ensures
        m.requested(data, ticket).1.around == m.around,
        m.requested(data, ticket).1.endpoints == m.endpoints,
        m.ended(id, end).around == m.around,
        m.ended(id, end).endpoints == m.endpoints,
        m.resolved(id).1.around == m.around,
        m.resolved(id).1.endpoints == m.endpoints,
        m.forgetting().around == m.around,
        m.forgetting().endpoints == m.endpoints,
{
}

/// The sender of an event learns whether it was queued, and if not, whether the queue was full or
/// its reader gone.
pub proof fn law_sender_learns_what_became_of_the_event(
    queued: Queued,
    r: Result<(), TransportError>,
)
    requires
        event_queued.ensures((queued,), r),
    ensures
        r is Ok <==> queued is Accepted,
        r matches Err(TransportError::BufferFull) <==> queued is Full,
        r matches Err(TransportError::ChannelError) <==> queued is Closed,
{
}

/// An event is sent as it was given, with the given urgency, and under no ID, so that no response
/// is expected.
pub proof fn law_event_expects_no_response(
    client: &WsClient,
    data: Vec<u8>,
    priority: MessagePriority,
    cmd: ClientCmd,
)
    requires
        WsClient::send_event.ensures((client, data, priority), cmd),
    ensures
        cmd matches ClientCmd::Send { frame, priority: p } && p == priority && frame.id == 0
            && frame.kind is Event && frame.data@ == data@,
{
}

/// What the client's owner sets is what the connection loop sees, and each setting leaves the others
/// as they are. The last setting counts.
pub proof fn law_settings_are_independent(
    m: ClientModel,
    endpoint: Option<Seq<char>>,
    enabled: bool,
    endpoints: RegistryModel,
)
    ensures
        m.with_endpoint(endpoint).around.endpoint == endpoint,
        m.with_endpoint(endpoint).around.auto_reconnect == m.around.auto_reconnect,
        m.with_endpoint(endpoint).around.cancelled == m.around.cancelled,
        m.with_endpoint(endpoint).endpoints == m.endpoints,
        m.with_endpoint(endpoint).pending == m.pending,
        m.with_endpoint(endpoint).with_endpoint(m.around.endpoint) == m,
        m.renewing(enabled).around.auto_reconnect == enabled,
        m.renewing(enabled).around.endpoint == m.around.endpoint,
        m.renewing(enabled).around.cancelled == m.around.cancelled,
        m.renewing(enabled).endpoints == m.endpoints,
        m.renewing(enabled).pending == m.pending,
        m.with_endpoints(endpoints).endpoints == endpoints,
        m.with_endpoints(endpoints).around == m.around,
        m.with_endpoints(endpoints).pending == m.pending,
{
}

/// A shutdown is for good: nothing that the owner does later takes it back, and it changes nothing
/// else.
pub proof fn law_shutdown_is_for_good(
    m: ClientModel,
    endpoint: Option<Seq<char>>,
    enabled: bool,
    endpoints: RegistryModel,
    id: u32,
    end: RequestEnd,
    data: Seq<u8>,
    ticket: u64,
)
    ensures
        ({
            let shut = m.shut_down();
            &&& shut.around.cancelled
            &&& shut.around.endpoint == m.around.endpoint
            &&& shut.around.auto_reconnect == m.around.auto_reconnect
            &&& shut.endpoints == m.endpoints
            &&& shut.pending == m.pending
            &&& shut.shut_down().around.cancelled
            &&& shut.with_endpoint(endpoint).around.cancelled
            &&& shut.renewing(enabled).around.cancelled
            &&& shut.with_endpoints(endpoints).around.cancelled
            &&& shut.requested(data, ticket).1.around.cancelled
            &&& shut.ended(id, end).around.cancelled
            &&& shut.resolved(id).1.around.cancelled
            &&& shut.forgetting().around.cancelled
        }),
{
}

} // verus!
