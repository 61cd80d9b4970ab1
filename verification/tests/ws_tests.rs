//! Client and server machines talking to each other in memory.
use std::collections::VecDeque;
use std::time::Duration;

use notifiapp_transport::auth::AuthOutcome;
use notifiapp_transport::crypto::generate_keypair;
use notifiapp_transport::error::TransportError;
use notifiapp_transport::frame::{Frame, FrameKind};
use notifiapp_transport::scheduler::MessagePriority;
use notifiapp_transport::state::ConnectionState;
use notifiapp_transport::ws::client::action::Action;
use notifiapp_transport::ws::client::cmd::ClientCmd;
use notifiapp_transport::ws::client::config::{default_backoff, WsClientConfig};
use notifiapp_transport::ws::client::connection_loop::{
    ClientEvent, ConnectionLoop, Surroundings,
};
use notifiapp_transport::ws::server::accept::{AcceptEvent, Accepted, Accepting, Reply};
use notifiapp_transport::ws::server::config::WsServerConfig;
use notifiapp_transport::ws::server::handle::{ServerSessionHandle, SessionCmd};
use notifiapp_transport::ws::server::session::{ServerSession, SessionAction, SessionEvent};
use notifiapp_transport::ws::ExponentialBackoff;

const URL: &str = "ws://127.0.0.1:9000";

/// A client and a server on one wire.
struct World {
    client: ConnectionLoop<ExponentialBackoff>,
    around: Surroundings,
    token: Option<Vec<u8>>,
    server_config: WsServerConfig,
    accepting: Option<Accepting>,
    session: Option<ServerSession>,
    refused: Option<TransportError>,
    /// What the server answers to an authentication request.
    answer: fn(&[u8]) -> Vec<u8>,
    /// How the application judges the server's answer.
    judge: fn(&[u8]) -> AuthOutcome,
    reachable: bool,
    /// Whether the server gets nothing any more.
    deaf: bool,
    states: Vec<ConnectionState>,
    inbox: Vec<(u32, FrameKind, Vec<u8>)>,
    resolved: Vec<(u32, Vec<u8>)>,
    delivered: Vec<Vec<u8>>,
    waits: Vec<Duration>,
    heartbeats: Vec<Duration>,
    failed_pending: usize,
    closed: usize,
    exited: bool,
}

fn judge(response: &[u8]) -> AuthOutcome {
    match response {
        b"OK" => AuthOutcome::Success,
        b"UNAUTHORIZED" => AuthOutcome::Unauthorized,
        b"RENEW" => AuthOutcome::RetryWithNewPayload(b"valid_token".to_vec()),
        _ => AuthOutcome::Failed,
    }
}

fn answer(token: &[u8]) -> Vec<u8> {
    match token {
        b"valid_token" => b"OK".to_vec(),
        b"old_token" => b"RENEW".to_vec(),
        b"odd_token" => b"WHAT".to_vec(),
        _ => b"UNAUTHORIZED".to_vec(),
    }
}

impl World {
    fn new(client_version: &str, server_version: &str, token: Option<&str>) -> World {
        let private_key = vec![0u8; 32];
        let mut config = WsClientConfig::new("TEST_PROTOCOL", client_version);
        config.auth_timeout = Duration::from_secs(5);
        config.request_timeout = Duration::from_secs(5);
        config.noise_server_key = Some(vec![0u8; 32]);
        World {
            client: ConnectionLoop::new(config, default_backoff()),
            around: Surroundings {
                endpoint: Some(URL.to_string()),
                auto_reconnect: true,
                cancelled: false,
            },
            token: token.map(|t| t.as_bytes().to_vec()),
            server_config: WsServerConfig::new("TEST_PROTOCOL", server_version, private_key),
            accepting: None,
            session: None,
            refused: None,
            answer,
            judge,
            reachable: true,
            deaf: false,
            states: Vec::new(),
            inbox: Vec::new(),
            resolved: Vec::new(),
            delivered: Vec::new(),
            waits: Vec::new(),
            heartbeats: Vec::new(),
            failed_pending: 0,
            closed: 0,
            exited: false,
        }
    }

    /// Lets something happen to the client, and everything that follows from it.
    fn happen(&mut self, event: ClientEvent) {
        let mut events = VecDeque::new();
        events.push_back(event);
        while let Some(event) = events.pop_front() {
            for action in self.client.step(&self.around, event) {
                match action {
                    Action::Publish(state) => self.states.push(state),
                    Action::Wait(d) => self.waits.push(d),
                    Action::Open(url) => {
                        assert_eq!(url, URL);
                        if self.reachable {
                            self.accepting = Some(Accepting::Hello);
                            self.session = None;
                            events.push_back(ClientEvent::Opened);
                        } else {
                            events.push_back(ClientEvent::OpenFailed("refused".to_string()));
                        }
                    }
                    Action::SendText(text) => self.accept(AcceptEvent::Text(text), &mut events),
                    Action::SendPackets(packets) | Action::SendPing(packets) => {
                        for packet in packets {
                            if self.deaf {
                                continue;
                            }
                            if self.accepting.is_some() {
                                self.accept(AcceptEvent::Binary(packet), &mut events);
                            } else {
                                self.serve(SessionEvent::Binary(packet), &mut events);
                            }
                        }
                    }
                    Action::AskAuth => {
                        events.push_back(ClientEvent::AuthPayload(self.token.clone()))
                    }
                    Action::JudgeAuth(data) => {
                        events.push_back(ClientEvent::AuthJudged((self.judge)(&data)))
                    }
                    Action::ArmAuthTimer(d) => assert_eq!(d, Duration::from_secs(5)),
                    Action::ArmHeartbeat(d) => self.heartbeats.push(d),
                    Action::Resolve { id, data } => self.resolved.push((id, data)),
                    Action::Deliver(data) => self.delivered.push(data),
                    Action::Queue { frame, priority } => {
                        events.push_back(ClientEvent::Command(ClientCmd::Send { frame, priority }))
                    }
                    Action::FailPending => self.failed_pending += 1,
                    Action::TakeCommands => events.push_back(ClientEvent::Taken(VecDeque::new())),
                    Action::Close => self.closed += 1,
                    Action::Exit => self.exited = true,
                }
            }
        }
    }

    fn accept(&mut self, event: AcceptEvent, events: &mut VecDeque<ClientEvent>) {
        let accepting = self.accepting.take().unwrap();
        let (reply, next) = accepting.step(&self.server_config, event);
        match reply {
            Reply::Silence => {}
            Reply::Text(text) | Reply::Farewell(text) => events.push_back(ClientEvent::Text(text)),
            Reply::Packet(data) => events.push_back(ClientEvent::Binary(data)),
        }
        match next {
            Accepted::Going(accepting) => self.accepting = Some(accepting),
            Accepted::Established(noise) => {
                let (actions, session) = ServerSession::start(noise, &self.server_config);
                assert_eq!(actions.len(), 1);
                self.session = Some(session);
            }
            Accepted::Refused(e) => self.refused = Some(e),
        }
    }

    fn serve(&mut self, event: SessionEvent, events: &mut VecDeque<ClientEvent>) {
        let mut session = self.session.take().unwrap();
        let mut pending = VecDeque::new();
        pending.push_back(event);
        while let Some(event) = pending.pop_front() {
            for action in session.step(event) {
                match action {
                    SessionAction::SendPackets(packets) | SessionAction::SendPing(packets) => {
                        for packet in packets {
                            events.push_back(ClientEvent::Binary(packet));
                        }
                    }
                    SessionAction::Inbox(frame) => {
                        if frame.id == 1 {
                            let response = (self.answer)(&frame.data);
                            let cmd = ServerSessionHandle::new().respond(1, response);
                            pending.push_back(SessionEvent::Command(cmd));
                        } else {
                            self.inbox.push((frame.id, frame.kind, frame.data));
                        }
                    }
                    SessionAction::ArmHeartbeat(_) => {}
                    SessionAction::Publish(state) => {
                        assert_eq!(state, ConnectionState::Disconnected);
                        assert!(session.ended());
                    }
                    SessionAction::Close => events.push_back(ClientEvent::StreamEnd),
                }
            }
        }
        self.session = Some(session);
    }

    /// Lets something happen to the server's session, and everything that follows from it.
    fn server(&mut self, event: SessionEvent) {
        let mut events = VecDeque::new();
        self.serve(event, &mut events);
        for event in events {
            self.happen(event);
        }
    }

    fn online(token: Option<&str>) -> World {
        let mut world = World::new("1.0.0", "1.0.0", token);
        world.happen(ClientEvent::Start);
        assert_eq!(world.states.last(), Some(&ConnectionState::Online));
        world
    }
}

fn message(id: u32, data: &[u8]) -> ClientCmd {
    ClientCmd::Send {
        frame: Frame { id, kind: FrameKind::Message, data: data.to_vec() },
        priority: MessagePriority::Normal,
    }
}

#[test]
fn test_ws_auth_unauthorized_stops_reconnect() {
    let mut world = World::new("1.0.0", "1.0.0", Some("invalid_token"));
    world.happen(ClientEvent::Start);
    assert_eq!(
        world.states,
        vec![
            ConnectionState::Connecting,
            ConnectionState::Handshaking,
            ConnectionState::Authenticating,
            ConnectionState::WaitingForAuth,
            ConnectionState::Unauthorized,
        ]
    );
    assert_eq!(world.failed_pending, 1);

    // The loop stays in that state and does not reconnect.
    for event in [
        ClientEvent::Waited,
        ClientEvent::HeartbeatDue,
        ClientEvent::StreamEnd,
        ClientEvent::Binary(vec![1]),
        ClientEvent::Command(message(2, b"x")),
        ClientEvent::TimedOut,
    ] {
        world.happen(event);
    }
    assert_eq!(world.states.len(), 5);
    assert_eq!(world.waits, vec![]);

    // With new credentials it tries again.
    world.token = Some(b"valid_token".to_vec());
    world.happen(ClientEvent::Command(ClientCmd::WakeUp));
    assert_eq!(world.states.last(), Some(&ConnectionState::Online));
}

#[test]
fn test_ws_reconnect_backoff_states() {
    let mut world = World::online(Some("valid_token"));
    world.server(SessionEvent::Command(SessionCmd::Close));
    let n = world.states.len();
    assert_eq!(
        world.states[n - 2..],
        [
            ConnectionState::Disconnected,
            ConnectionState::Reconnecting { attempt: 1, delay: Duration::from_secs(2) },
        ]
    );
    assert_eq!(world.waits, vec![Duration::from_secs(2)]);
    assert_eq!(world.failed_pending, 1);
    world.happen(ClientEvent::Waited);
    assert_eq!(world.states.last(), Some(&ConnectionState::Online));
}

#[test]
fn a_client_without_credentials_goes_online() {
    let world = World::online(None);
    assert_eq!(
        world.states,
        vec![
            ConnectionState::Connecting,
            ConnectionState::Handshaking,
            ConnectionState::Authenticating,
            ConnectionState::Online,
        ]
    );
    assert_eq!(world.heartbeats, vec![Duration::from_secs(30)]);
}

#[test]
fn requests_and_responses_cross_the_wire() {
    let mut world = World::online(Some("valid_token"));
    world.happen(ClientEvent::Command(message(2, b"question")));
    assert_eq!(world.inbox, vec![(2, FrameKind::Message, b"question".to_vec())]);
    let handle = ServerSessionHandle::new();
    world.server(SessionEvent::Command(handle.respond(2, b"reply".to_vec())));
    assert_eq!(world.resolved, vec![(2, b"reply".to_vec())]);
    let event = handle.push_event(b"news".to_vec(), MessagePriority::Bulk);
    world.server(SessionEvent::Command(event));
    assert_eq!(world.delivered, vec![b"news".to_vec()]);
    // A message without an ID is an event too.
    world.server(SessionEvent::Command(handle.respond(0, b"odd".to_vec())));
    assert_eq!(world.delivered, vec![b"news".to_vec(), b"odd".to_vec()]);
}

#[test]
fn large_frames_cross_the_wire() {
    let mut world = World::online(None);
    let big: Vec<u8> = (0..300_000u32).map(|i| i as u8).collect();
    world.happen(ClientEvent::Command(message(5, &big)));
    assert_eq!(world.inbox, vec![(5, FrameKind::Message, big.clone())]);
    world.server(SessionEvent::Command(ServerSessionHandle::new().respond(5, big.clone())));
    assert_eq!(world.resolved, vec![(5, big)]);
}

#[test]
fn a_frame_beyond_the_limit_ends_the_session() {
    let mut world = World::online(None);
    world.happen(ClientEvent::Command(message(5, &vec![0u8; 4194304])));
    assert!(world.session.as_ref().unwrap().ended());
    let disconnected = ConnectionState::Disconnected;
    assert!(world.states.contains(&disconnected));
}

#[test]
fn pings_are_answered() {
    let mut world = World::online(None);
    // The client's ping is answered at once: the pong restarts the heartbeat, so that an idle
    // client stays connected.
    for _ in 0..3 {
        let before = world.heartbeats.len();
        world.happen(ClientEvent::HeartbeatDue);
        assert_eq!(
            world.heartbeats[before..],
            [Duration::from_secs(10), Duration::from_secs(30)]
        );
    }
    assert_eq!(world.closed, 0);
    assert_eq!(world.states.last(), Some(&ConnectionState::Online));
    // A frame that follows is sent alone: no pong has waited for it.
    let before = world.heartbeats.len();
    world.server(SessionEvent::Command(ServerSessionHandle::new().respond(9, vec![])));
    assert_eq!(world.heartbeats.len(), before + 1);
    assert_eq!(world.resolved, vec![(9, vec![])]);
    // The server's ping is answered at once, so that a second one does not end the session.
    world.server(SessionEvent::HeartbeatDue);
    world.server(SessionEvent::HeartbeatDue);
    assert!(!world.session.as_ref().unwrap().ended());
    assert_eq!(world.inbox, vec![]);
}

#[test]
fn silence_closes_the_connection() {
    let mut world = World::online(None);
    world.deaf = true;
    world.happen(ClientEvent::HeartbeatDue);
    world.happen(ClientEvent::HeartbeatDue);
    assert_eq!(world.closed, 1);
    assert_eq!(
        world.states.last(),
        Some(&ConnectionState::Reconnecting { attempt: 1, delay: Duration::from_secs(2) })
    );
}

#[test]
fn a_silent_client_ends_the_session() {
    let mut world = World::online(None);
    let mut session = world.session.take().unwrap();
    assert_eq!(session.step(SessionEvent::HeartbeatDue).len(), 2);
    let actions = session.step(SessionEvent::HeartbeatDue);
    assert!(matches!(
        actions[..],
        [SessionAction::Publish(ConnectionState::Disconnected), SessionAction::Close]
    ));
    assert!(session.ended());
    assert_eq!(session.step(SessionEvent::HeartbeatDue).len(), 0);
}

#[test]
fn a_gone_reader_ends_the_session() {
    for event in [SessionEvent::InboxClosed, SessionEvent::SendFailed, SessionEvent::NoBinary] {
        let mut session = World::online(None).session.take().unwrap();
        assert_eq!(session.step(event).len(), 2);
        assert!(session.ended());
    }
}

#[test]
fn a_client_with_another_key_pinned_does_not_get_online() {
    let (_, other) = generate_keypair().unwrap();
    let mut config = WsClientConfig::new("TEST_PROTOCOL", "1.0.0");
    config.noise_server_key = Some(other.to_vec());
    let mut world = World::new("1.0.0", "1.0.0", None);
    world.client = ConnectionLoop::new(config, default_backoff());
    world.happen(ClientEvent::Start);
    assert_eq!(
        world.states,
        vec![
            ConnectionState::Connecting,
            ConnectionState::Handshaking,
            ConnectionState::Authenticating,
        ]
    );
    assert_eq!(world.client.attempt(), 1);
    assert_eq!(world.waits, vec![Duration::from_secs(2)]);
}

#[test]
fn versions_have_to_match() {
    let mut world = World::new("1.0.0", "2.0.0", None);
    world.happen(ClientEvent::Start);
    assert_eq!(
        world.states.last(),
        Some(&ConnectionState::VersionMismatch {
            client: "1.0.0".to_string(),
            server: "2.0.0".to_string(),
        })
    );
    assert_eq!(
        world.refused.as_ref().unwrap().message(),
        "version mismatch: client=1.0.0, server=2.0.0"
    );
    assert_eq!(world.failed_pending, 1);
    let n = world.states.len();
    world.happen(ClientEvent::Command(ClientCmd::WakeUp));
    world.happen(ClientEvent::Waited);
    assert_eq!(world.states.len(), n);
    world.happen(ClientEvent::Command(ClientCmd::EndpointChanged));
    assert_eq!(world.client.attempt(), 1);
    assert_eq!(world.waits, vec![Duration::from_secs(2)]);
}

#[test]
fn failed_attempts_are_counted() {
    let mut world = World::new("1.0.0", "1.0.0", None);
    world.reachable = false;
    world.happen(ClientEvent::Start);
    world.happen(ClientEvent::Waited);
    world.happen(ClientEvent::Waited);
    assert_eq!(world.client.attempt(), 3);
    assert_eq!(
        world.waits,
        vec![Duration::from_secs(2), Duration::from_secs(4), Duration::from_secs(8)]
    );
    assert!(world.states.contains(&ConnectionState::Error("refused".to_string())));
    // `Reconnecting` is for a client that was online.
    assert!(!world.states.iter().any(|s| matches!(s, ConnectionState::Reconnecting { .. })));
    // A command to reconnect does not wait.
    world.reachable = true;
    world.happen(ClientEvent::Command(ClientCmd::Reconnect));
    assert_eq!(world.states.last(), Some(&ConnectionState::Online));
    assert_eq!(world.waits.len(), 3);
    assert_eq!(world.client.attempt(), 0);
}

#[test]
fn other_commands_restart_the_delay() {
    let mut world = World::new("1.0.0", "1.0.0", None);
    world.reachable = false;
    world.happen(ClientEvent::Start);
    world.happen(ClientEvent::Command(ClientCmd::WakeUp));
    world.happen(ClientEvent::Command(message(2, b"dropped")));
    assert_eq!(world.waits, vec![Duration::from_secs(2); 3]);
    assert_eq!(world.client.attempt(), 1);
    world.happen(ClientEvent::Command(ClientCmd::EndpointChanged));
    assert_eq!(world.client.attempt(), 1);
    assert_eq!(world.waits.len(), 4);
}

#[test]
fn reconnecting_from_online_is_immediate() {
    let mut world = World::online(None);
    world.around.auto_reconnect = false;
    world.happen(ClientEvent::Command(ClientCmd::Reconnect));
    assert_eq!(world.closed, 1);
    assert_eq!(world.failed_pending, 1);
    assert_eq!(world.waits, vec![]);
    assert_eq!(world.states.last(), Some(&ConnectionState::Online));
}

#[test]
fn without_auto_reconnect_the_client_waits() {
    let mut world = World::online(None);
    world.around.auto_reconnect = false;
    world.happen(ClientEvent::StreamError("gone".to_string()));
    assert_eq!(world.states.last(), Some(&ConnectionState::Disconnected));
    world.happen(ClientEvent::Command(ClientCmd::WakeUp));
    world.happen(ClientEvent::Waited);
    assert_eq!(world.states.last(), Some(&ConnectionState::Disconnected));
    world.happen(ClientEvent::Command(ClientCmd::EndpointChanged));
    assert_eq!(world.states.last(), Some(&ConnectionState::Online));
}

#[test]
fn without_an_endpoint_the_client_waits() {
    let mut world = World::new("1.0.0", "1.0.0", None);
    world.around.endpoint = None;
    world.happen(ClientEvent::Start);
    assert_eq!(world.states, vec![ConnectionState::Disconnected]);
    assert!(world.client.takes_commands());
    world.happen(ClientEvent::Command(ClientCmd::Reconnect));
    assert_eq!(world.states, vec![ConnectionState::Disconnected]);
    world.around.endpoint = Some(URL.to_string());
    world.happen(ClientEvent::Command(ClientCmd::EndpointChanged));
    assert_eq!(world.states.last(), Some(&ConnectionState::Online));
}

#[test]
fn the_loop_ends_when_shut_down() {
    let mut world = World::online(None);
    world.around.cancelled = true;
    world.happen(ClientEvent::Cancelled);
    assert!(world.exited);
    assert_eq!(world.states.last(), Some(&ConnectionState::Disconnected));
    assert_eq!(world.failed_pending, 1);
    let n = world.states.len();
    world.happen(ClientEvent::Command(ClientCmd::Reconnect));
    assert_eq!(world.states.len(), n);

    let mut waiting = World::new("1.0.0", "1.0.0", None);
    waiting.reachable = false;
    waiting.happen(ClientEvent::Start);
    waiting.happen(ClientEvent::Cancelled);
    assert!(waiting.exited);
}

#[test]
fn new_credentials_are_sent_on_the_next_attempt() {
    let mut world = World::new("1.0.0", "1.0.0", Some("old_token"));
    world.happen(ClientEvent::Start);
    assert_eq!(
        world.states.last(),
        Some(&ConnectionState::Error("connection closed".to_string()))
    );
    world.happen(ClientEvent::Waited);
    assert_eq!(world.states.last(), Some(&ConnectionState::Online));
}

#[test]
fn a_failed_outcome_is_tried_again() {
    let mut world = World::new("1.0.0", "1.0.0", Some("odd_token"));
    world.happen(ClientEvent::Start);
    assert_eq!(
        world.states.last(),
        Some(&ConnectionState::Error("connection closed".to_string()))
    );
    assert_eq!(world.client.attempt(), 1);
}

#[test]
fn handshake_failures_are_shown() {
    let cases = [
        (ClientEvent::Text("HELLO".to_string()), "Invalid handshake reply"),
        (ClientEvent::Binary(vec![1]), "Invalid handshake reply"),
        (ClientEvent::OtherMessage, "Invalid handshake reply"),
        (ClientEvent::StreamEnd, "Connection closed during handshake"),
        (ClientEvent::StreamError("reset".to_string()), "reset"),
        (ClientEvent::SendFailed("pipe".to_string()), "pipe"),
    ];
    for (event, text) in cases {
        let config = WsClientConfig::new("P", "1");
        let mut client = ConnectionLoop::new(config, default_backoff());
        let around = Surroundings {
            endpoint: Some(URL.to_string()),
            auto_reconnect: true,
            cancelled: false,
        };
        client.step(&around, ClientEvent::Start);
        let actions = client.step(&around, ClientEvent::Opened);
        match &actions[..] {
            [Action::Publish(ConnectionState::Handshaking), Action::SendText(hello)] => {
                assert_eq!(hello, "P 1")
            }
            other => panic!("unexpected actions {:?}", other),
        }
        assert!(!client.takes_commands());
        let actions = client.step(&around, event);
        match &actions[..] {
            [Action::Publish(ConnectionState::Error(shown)), Action::Wait(d)] => {
                assert_eq!(shown, text);
                assert_eq!(*d, Duration::from_secs(2));
            }
            other => panic!("unexpected actions {:?}", other),
        }
    }
}

#[test]
fn a_broken_key_exchange_is_silent() {
    let config = WsClientConfig::new("P", "1");
    let mut client = ConnectionLoop::new(config, default_backoff());
    let around =
        Surroundings { endpoint: Some(URL.to_string()), auto_reconnect: true, cancelled: false };
    client.step(&around, ClientEvent::Start);
    client.step(&around, ClientEvent::Opened);
    let actions = client.step(&around, ClientEvent::Text("PROTOCOL_ACCEPTED".to_string()));
    match &actions[..] {
        [Action::Publish(ConnectionState::Authenticating), Action::SendPackets(packets)] => {
            assert_eq!(packets.len(), 1);
            assert_eq!(packets[0].len(), 32);
        }
        other => panic!("unexpected actions {:?}", other),
    }
    let actions = client.step(&around, ClientEvent::Binary(vec![0; 96]));
    assert!(matches!(actions[..], [Action::Wait(_)]));
    assert_eq!(client.attempt(), 1);
}

#[test]
fn commands_that_come_while_sending_are_taken_in() {
    let mut world = World::online(None);
    let actions = world.client.step(&world.around, ClientEvent::Command(message(2, b"a")));
    assert!(matches!(actions[..], [Action::SendPackets(_), Action::TakeCommands]));
    let mut more = VecDeque::new();
    more.push_back(message(3, b"b"));
    more.push_back(ClientCmd::WakeUp);
    let actions = world.client.step(&world.around, ClientEvent::Taken(more));
    assert!(matches!(actions[..], [Action::SendPackets(_), Action::TakeCommands]));
    // A command to reconnect stops the sending; the loop goes on until the stream ends.
    let mut more = VecDeque::new();
    more.push_back(message(4, b"c"));
    more.push_back(ClientCmd::Reconnect);
    let actions = world.client.step(&world.around, ClientEvent::Taken(more));
    assert!(matches!(actions[..], [Action::Close]));
    let actions = world.client.step(&world.around, ClientEvent::StreamEnd);
    assert!(matches!(
        actions[..],
        [
            Action::Publish(ConnectionState::Disconnected),
            Action::FailPending,
            Action::Publish(ConnectionState::Connecting),
            Action::Open(_),
        ]
    ));
}

#[test]
fn servers_refuse_what_is_no_handshake() {
    let (private, _) = generate_keypair().unwrap();
    let config = WsServerConfig::new("P", "1", private.to_vec());
    let refusal = |accepting: Accepting, event: AcceptEvent| -> (Option<String>, String) {
        match accepting.step(&config, event) {
            (Reply::Farewell(text), Accepted::Refused(e)) => (Some(text), e.message()),
            (Reply::Silence, Accepted::Refused(e)) => (None, e.message()),
            _ => panic!("unexpected step"),
        }
    };
    let failed = "protocol handshake failed".to_string();
    assert_eq!(refusal(Accepting::Hello, AcceptEvent::Nothing), (None, failed.clone()));
    assert_eq!(refusal(Accepting::Hello, AcceptEvent::Binary(vec![])), (None, failed.clone()));
    let rejection = Some("PROTOCOL_REJECTED 1".to_string());
    let other_protocol = AcceptEvent::Text("Q 1".to_string());
    assert_eq!(refusal(Accepting::Hello, other_protocol), (rejection.clone(), failed));
    let other_version = AcceptEvent::Text("P  2 ".to_string());
    assert_eq!(
        refusal(Accepting::Hello, other_version),
        (rejection, "version mismatch: client=2, server=1".to_string())
    );
    let first = || match Accepting::Hello.step(&config, AcceptEvent::Text("P 1".to_string())) {
        (Reply::Text(text), Accepted::Going(accepting)) => {
            assert_eq!(text, "PROTOCOL_ACCEPTED");
            accepting
        }
        _ => panic!("unexpected step"),
    };
    assert_eq!(
        refusal(first(), AcceptEvent::Nothing).1,
        "noise handshake failed: step 1: no E"
    );
    assert_eq!(
        refusal(first(), AcceptEvent::Binary(vec![1; 31])).1,
        "noise handshake failed: Noise handshake read: Input"
    );
    assert_eq!(
        refusal(first(), AcceptEvent::SendFailed("pipe".to_string())).1,
        "connection failed: pipe"
    );
    let last = || match first().step(&config, AcceptEvent::Binary(vec![9; 32])) {
        (Reply::Packet(packet), Accepted::Going(accepting)) => {
            assert_eq!(packet.len(), 96);
            accepting
        }
        _ => panic!("unexpected step"),
    };
    assert_eq!(
        refusal(last(), AcceptEvent::Nothing).1,
        "noise handshake failed: step 3: no S,SE"
    );
    assert_eq!(
        refusal(last(), AcceptEvent::Binary(vec![3; 64])).1,
        "noise handshake failed: Noise handshake read: Decrypt"
    );
    assert_eq!(
        refusal(last(), AcceptEvent::SendFailed("pipe".to_string())).1,
        "connection failed: pipe"
    );
}
