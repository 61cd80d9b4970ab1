use std::time::Duration;

use notifiapp_transport::endpoint::{EndpointPriority, EndpointRegistry};
use notifiapp_transport::error::TransportError;
use notifiapp_transport::frame::FrameKind;
use notifiapp_transport::scheduler::MessagePriority;
use notifiapp_transport::state::ConnectionState;
use notifiapp_transport::ws::client::action::Action;
use notifiapp_transport::ws::client::cmd::ClientCmd;
use notifiapp_transport::ws::client::config::WsClientConfig;
use notifiapp_transport::ws::client::connection_loop::ClientEvent;
use notifiapp_transport::ws::client::failover::FailoverLoop;
use notifiapp_transport::ws::client::shared::{event_queued, Queued, RequestEnd, WsClient};
use notifiapp_transport::ws::server::handle::{frame_queued, ServerSessionHandle, SessionCmd};
use notifiapp_transport::ws::version::{
    hello_text, judge_hello, judge_reply, rejection_text, HelloVerdict, ReplyVerdict,
};

fn urls(registry: &EndpointRegistry) -> Vec<String> {
    registry.ordered().into_iter().map(|(_, url)| url).collect()
}

fn three() -> EndpointRegistry {
    let mut registry = EndpointRegistry::new();
    registry.add_with_id("ws://remote-a/x", EndpointPriority::Remote, 1).unwrap();
    registry.add_with_id("ws://dev/x", EndpointPriority::Dev, 2).unwrap();
    registry.add_with_id("ws://local/x", EndpointPriority::Local, 3).unwrap();
    registry.add_with_id("ws://remote-b/x", EndpointPriority::Remote, 4).unwrap();
    registry
}

#[test]
fn endpoints_are_tried_by_priority() {
    let registry = three();
    assert_eq!(
        urls(&registry),
        vec!["ws://local/x", "ws://remote-a/x", "ws://remote-b/x", "ws://dev/x"]
    );
    assert!(!registry.is_empty());
    assert!(EndpointRegistry::default().is_empty());
}

#[test]
fn the_last_success_comes_first_in_its_tier() {
    let mut registry = three();
    registry.connected(4);
    assert_eq!(
        urls(&registry),
        vec!["ws://local/x", "ws://remote-b/x", "ws://remote-a/x", "ws://dev/x"]
    );
    registry.connected(3);
    assert_eq!(
        urls(&registry),
        vec!["ws://local/x", "ws://remote-a/x", "ws://remote-b/x", "ws://dev/x"]
    );
    registry.connected(99);
    assert_eq!(urls(&registry).len(), 4);
}

#[test]
fn a_forced_endpoint_is_alone() {
    let mut registry = EndpointRegistry::new();
    let a = registry.add("ws://a/x", EndpointPriority::Local).unwrap();
    let b = registry.add("ws://b/x", EndpointPriority::Remote).unwrap();
    assert_ne!(a.id(), b.id());
    registry.switch_to(&b);
    assert_eq!(registry.ordered(), vec![(b.id(), "ws://b/x".to_string())]);
    registry.clear_forced();
    assert_eq!(urls(&registry), vec!["ws://a/x", "ws://b/x"]);
    registry.switch_to(&b);
    registry.remove(&b);
    assert_eq!(urls(&registry), vec!["ws://a/x"]);
    registry.switch_to(&b);
    assert_eq!(urls(&registry), Vec::<String>::new());
}

#[test]
fn repeated_ids_are_tried_once() {
    let mut registry = EndpointRegistry::new();
    registry.add_with_id("ws://a/x", EndpointPriority::Local, 7).unwrap();
    registry.add_with_id("ws://b/x", EndpointPriority::Remote, 7).unwrap();
    assert_eq!(urls(&registry), vec!["ws://a/x"]);
}

#[test]
fn the_path_defaults_to_ws() {
    let mut registry = EndpointRegistry::new();
    registry.add("ws://h:8080", EndpointPriority::Local).unwrap();
    registry.add("ws://h:8080/?q=1", EndpointPriority::Remote).unwrap();
    registry.add("ws://h:8080/api", EndpointPriority::Dev).unwrap();
    assert_eq!(urls(&registry), vec!["ws://h:8080/ws", "ws://h:8080/ws?q=1", "ws://h:8080/api"]);
    match registry.add("no url", EndpointPriority::Local) {
        Err(TransportError::InvalidUrl(text)) => assert_eq!(text, "no url"),
        other => panic!("unexpected result {:?}", other),
    }
}

#[test]
fn ids_are_random_uuids() {
    let mut registry = EndpointRegistry::new();
    let id = registry.add("ws://a/x", EndpointPriority::Local).unwrap().id();
    assert_eq!(uuid::Uuid::from_u128(id).get_version_num(), 4);
    assert_eq!(uuid::Uuid::from_u128(ServerSessionHandle::new().id).get_version_num(), 4);
}

fn opened(actions: &[Action]) -> Option<String> {
    actions.iter().find_map(|a| match a {
        Action::Open(url) => Some(url.clone()),
        _ => None,
    })
}

fn waited(actions: &[Action]) -> Option<Duration> {
    actions.iter().find_map(|a| match a {
        Action::Wait(d) => Some(*d),
        _ => None,
    })
}

#[test]
fn every_endpoint_gets_its_turn() {
    let mut registry = three();
    let mut client = FailoverLoop::new(WsClientConfig::new("P", "1"));
    let mut actions = client.step(&mut registry, ClientEvent::Start);
    let mut tried = Vec::new();
    while let Some(url) = opened(&actions) {
        tried.push(url);
        actions = client.step(&mut registry, ClientEvent::OpenFailed("no".to_string()));
    }
    assert_eq!(tried, urls(&registry));
    match &actions[..] {
        [Action::Publish(ConnectionState::Error(text)), Action::Publish(ConnectionState::Disconnected), Action::FailPending, Action::Wait(d)] =>
        {
            assert_eq!(text, "no");
            assert_eq!(*d, Duration::from_millis(500));
        }
        other => panic!("unexpected actions {:?}", other),
    }
    assert!(client.takes_commands());
}

#[test]
fn pauses_double_up_to_a_minute() {
    let mut registry = EndpointRegistry::new();
    registry.add("ws://a/x", EndpointPriority::Local).unwrap();
    let mut client = FailoverLoop::new(WsClientConfig::new("P", "1"));
    client.step(&mut registry, ClientEvent::Start);
    let mut pauses = Vec::new();
    for _ in 0..9 {
        let actions = client.step(&mut registry, ClientEvent::OpenFailed("no".to_string()));
        pauses.push(waited(&actions).unwrap().as_millis());
        let actions = client.step(&mut registry, ClientEvent::Waited);
        assert_eq!(opened(&actions), Some("ws://a/x".to_string()));
    }
    assert_eq!(pauses, vec![500, 1000, 2000, 4000, 8000, 16000, 32000, 60000, 60000]);
}

#[test]
fn an_empty_registry_is_looked_at_again() {
    let mut registry = EndpointRegistry::new();
    let mut client = FailoverLoop::new(WsClientConfig::new("P", "1"));
    let actions = client.step(&mut registry, ClientEvent::Start);
    assert_eq!(waited(&actions), Some(Duration::from_millis(500)));
    let actions = client.step(&mut registry, ClientEvent::Waited);
    assert_eq!(waited(&actions), Some(Duration::from_millis(500)));
    registry.add("ws://a/x", EndpointPriority::Local).unwrap();
    let actions = client.step(&mut registry, ClientEvent::Command(ClientCmd::WakeUp));
    assert_eq!(opened(&actions), Some("ws://a/x".to_string()));
}

#[test]
fn another_version_stops_the_trying() {
    let mut registry = three();
    let mut client = FailoverLoop::new(WsClientConfig::new("P", "1"));
    client.step(&mut registry, ClientEvent::Start);
    client.step(&mut registry, ClientEvent::Opened);
    let reply = ClientEvent::Text("PROTOCOL_REJECTED 2".to_string());
    let actions = client.step(&mut registry, reply);
    match &actions[..] {
        [Action::Publish(ConnectionState::VersionMismatch { client, server }), Action::Wait(_)] => {
            assert_eq!((client.as_str(), server.as_str()), ("1", "2"))
        }
        other => panic!("unexpected actions {:?}", other),
    }
    let actions = client.step(&mut registry, ClientEvent::Waited);
    assert!(matches!(actions[..], [Action::Wait(_)]));
    let actions = client.step(&mut registry, ClientEvent::Command(ClientCmd::EndpointChanged));
    assert!(matches!(
        actions[..],
        [Action::Publish(ConnectionState::Disconnected), Action::FailPending, Action::Wait(_)]
    ));
}

#[test]
fn requests_are_matched_by_id() {
    let mut client = WsClient::new();
    let (first, cmd) = client.request(b"a".to_vec(), MessagePriority::Stream, 70);
    assert_eq!(first, 2);
    match cmd {
        ClientCmd::Send { frame, priority } => {
            assert_eq!((frame.id, frame.kind, frame.data), (2, FrameKind::Message, b"a".to_vec()));
            assert_eq!(priority, MessagePriority::Stream);
        }
        other => panic!("unexpected command {:?}", other),
    }
    let (second, _) = client.request(vec![], MessagePriority::Normal, 71);
    assert_eq!(second, 3);
    assert_eq!(client.resolve(3), Some(71));
    assert_eq!(client.resolve(3), None);
    assert_eq!(client.resolve(2), Some(70));
    let (third, _) = client.request(vec![], MessagePriority::Normal, 72);
    client.fail_pending();
    assert_eq!(client.resolve(third), None);
}

#[test]
fn requests_end_in_one_way() {
    let mut client = WsClient::new();
    let (id, _) = client.request(vec![], MessagePriority::Normal, 1);
    let answered = RequestEnd::Answered(Ok(vec![5]));
    assert_eq!(client.end_request(id, answered).unwrap(), vec![5]);
    assert!(matches!(
        client.end_request(id, RequestEnd::NotQueued),
        Err(TransportError::ChannelError)
    ));
    assert_eq!(client.resolve(id), Some(1));
    let (id, _) = client.request(vec![], MessagePriority::Normal, 2);
    assert!(matches!(
        client.end_request(id, RequestEnd::TimedOut),
        Err(TransportError::RequestTimeout)
    ));
    assert_eq!(client.resolve(id), None);
    let (id, _) = client.request(vec![], MessagePriority::Normal, 3);
    assert!(matches!(
        client.end_request(id, RequestEnd::GivenUp),
        Err(TransportError::ChannelError)
    ));
    assert_eq!(client.resolve(id), None);
}

#[test]
fn the_owner_sets_what_the_loop_sees() {
    let mut client = WsClient::new();
    assert_eq!(client.endpoint(), None);
    assert!(client.auto_reconnect());
    assert!(matches!(client.set_endpoint("ws://h"), Ok(ClientCmd::EndpointChanged)));
    assert_eq!(client.endpoint(), Some("ws://h".to_string()));
    assert!(matches!(client.set_endpoint("h"), Err(TransportError::InvalidUrl(_))));
    assert_eq!(client.endpoint(), Some("ws://h".to_string()));
    assert!(matches!(client.set_auto_reconnect(true), Some(ClientCmd::Reconnect)));
    assert!(client.set_auto_reconnect(false).is_none());
    client.shutdown();
    let around = client.surroundings();
    assert_eq!(around.endpoint, Some("ws://h".to_string()));
    assert!(!around.auto_reconnect && around.cancelled);
    assert!(matches!(client.clear_endpoint(), ClientCmd::EndpointChanged));
    assert_eq!(client.endpoint(), None);
    assert!(matches!(client.wake(), ClientCmd::WakeUp));
    match client.send_event(vec![1], MessagePriority::Bulk) {
        ClientCmd::Send { frame, .. } => assert_eq!((frame.id, frame.kind), (0, FrameKind::Event)),
        other => panic!("unexpected command {:?}", other),
    }
    let (handle, _) = client.add_endpoint("ws://x", EndpointPriority::Local).unwrap();
    assert!(matches!(client.switch_to_endpoint(&handle), ClientCmd::EndpointChanged));
    assert_eq!(client.endpoints.ordered(), vec![(handle.id(), "ws://x/ws".to_string())]);
    client.clear_forced_endpoint();
    client.remove_endpoint(&handle);
    assert!(client.endpoints.is_empty());
    assert!(client.add_endpoint("x", EndpointPriority::Local).is_err());
}

#[test]
fn queues_report_what_they_do() {
    assert!(event_queued(Queued::Accepted).is_ok());
    assert!(matches!(event_queued(Queued::Full), Err(TransportError::BufferFull)));
    assert!(matches!(event_queued(Queued::Closed), Err(TransportError::ChannelError)));
    assert!(frame_queued(true).is_ok());
    assert!(matches!(frame_queued(false), Err(TransportError::ChannelError)));
}

#[test]
fn session_handles_make_commands() {
    let handle = ServerSessionHandle::new();
    assert!(handle.is_alive());
    match handle.respond(6, vec![1]) {
        SessionCmd::Send { frame, priority } => {
            assert_eq!((frame.id, frame.kind, frame.data), (6, FrameKind::Message, vec![1]));
            assert_eq!(priority, MessagePriority::Normal);
        }
        other => panic!("unexpected command {:?}", other),
    }
    match handle.push_event(vec![2], MessagePriority::Stream) {
        SessionCmd::Send { frame, priority } => {
            assert_eq!((frame.id, frame.kind, frame.data), (0, FrameKind::Event, vec![2]));
            assert_eq!(priority, MessagePriority::Stream);
        }
        other => panic!("unexpected command {:?}", other),
    }
    assert!(matches!(handle.close(), SessionCmd::Close));
    let ended = ServerSessionHandle { id: 1, state: ConnectionState::Disconnected };
    assert!(!ended.is_alive());
}

#[test]
fn versions_are_negotiated() {
    assert_eq!(hello_text("NOTIFI_APP", "1.0.0"), "NOTIFI_APP 1.0.0");
    assert_eq!(rejection_text("2.0"), "PROTOCOL_REJECTED 2.0");
    assert!(matches!(judge_reply("PROTOCOL_ACCEPTED"), ReplyVerdict::Accepted));
    assert!(matches!(judge_reply("well, PROTOCOL_ACCEPTED!"), ReplyVerdict::Accepted));
    assert!(matches!(judge_reply("NO"), ReplyVerdict::Invalid));
    match judge_reply("PROTOCOL_REJECTED  3.1 \n") {
        ReplyVerdict::Rejected { server } => assert_eq!(server, "3.1"),
        _ => panic!("unexpected verdict"),
    }
    match judge_reply("sorry: PROTOCOL_REJECTED 3.1") {
        ReplyVerdict::Rejected { server } => assert_eq!(server, "unknown"),
        _ => panic!("unexpected verdict"),
    }
    assert!(matches!(judge_hello("P 1", "P", "1"), HelloVerdict::Accepted));
    assert!(matches!(judge_hello("P P 1", "P", "1"), HelloVerdict::Accepted));
    assert!(matches!(judge_hello("PP 1", "P", "1"), HelloVerdict::OtherProtocol));
    assert!(matches!(judge_hello("P", "P", "1"), HelloVerdict::OtherProtocol));
    match judge_hello("P 2", "P", "1") {
        HelloVerdict::OtherVersion { client } => assert_eq!(client, "2"),
        _ => panic!("unexpected verdict"),
    }
}
