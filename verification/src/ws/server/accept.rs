//! The server's side of the transport handshake on an incoming WS connection.
use vstd::prelude::*;

use crate::crypto;
use crate::crypto::{NoiseSession, SessionModel};
use crate::error::{CryptoError, TransportError};
use crate::text;
use crate::utils;
use crate::ws::{keys, version};
use crate::ws::keys::{answer_keys, conclude_keys, KeyModel};
use crate::ws::server::config::{ServerConfigModel, WsServerConfig};
use crate::ws::version::{judge_hello, rejection_text, HelloModel, HelloVerdict};

verus! {

/// What happens during the handshake.
#[derive(Debug)]
pub enum AcceptEvent {
    /// A text message came.
    Text(String),
    /// A binary message came.
    Binary(Vec<u8>),
    /// Another message came, or the stream failed or ended.
    Nothing,
    /// A send failed.
    SendFailed(String),
}

/// What is to be sent during the handshake.
#[derive(Debug)]
pub enum Reply {
    /// Nothing.
    Silence,
    /// A text; where it cannot be sent, that is reported.
    Text(String),
    /// A text; where it cannot be sent, that does not matter.
    Farewell(String),
    /// Bytes; where they cannot be sent, that is reported.
    Packet(Vec<u8>),
}

/// The model of a `Reply`.
pub enum ReplyModel {
    Silence,
    Text(Seq<char>),
    Farewell(Seq<char>),
    Packet(Seq<u8>),
}

impl View for Reply {
    type V = ReplyModel;

    open spec fn view(&self) -> ReplyModel {
        match *self {
            Reply::Silence => ReplyModel::Silence,
            Reply::Text(text) => ReplyModel::Text(text@),
            Reply::Farewell(text) => ReplyModel::Farewell(text@),
            Reply::Packet(data) => ReplyModel::Packet(data@),
        }
    }
}

/// Where the handshake stands.
pub enum Accepting {
    /// The client's version is awaited.
    Hello,
    /// The client's first handshake message is awaited.
    FirstKey(NoiseSession),
    /// The client's last handshake message is awaited.
    LastKey(NoiseSession),
}

/// The model of an `Accepting`.
pub enum AcceptingModel {
    Hello,
    FirstKey(SessionModel),
    LastKey(SessionModel),
}

impl View for Accepting {
    type V = AcceptingModel;

    open spec fn view(&self) -> AcceptingModel {
        match *self {
            Accepting::Hello => AcceptingModel::Hello,
            Accepting::FirstKey(session) => AcceptingModel::FirstKey(session@),
            Accepting::LastKey(session) => AcceptingModel::LastKey(session@),
        }
    }
}

impl AcceptingModel {
    /// The session is as far as the stage says.
    pub open spec fn wf(self) -> bool {
        match self {
            AcceptingModel::Hello => true,
            AcceptingModel::FirstKey(s) => s.wf() && (s matches
                SessionModel::Handshake(h) && h.left == 3 && !h.my_turn),
            AcceptingModel::LastKey(s) => keys::keys_answered(s),
        }
    }
}

/// Where an event leads.
pub enum Accepted {
    /// The handshake goes on.
    Going(Accepting),
    /// The session is established.
    Established(NoiseSession),
    /// The handshake failed.
    Refused(TransportError),
}

/// The server's own session at the start of the key exchange, or the reason why there is none.
pub open spec fn server_session(
    cfg: ServerConfigModel,
    s: SessionModel,
) -> bool {
    s.wf() && (s matches SessionModel::Handshake(h) && h.left == 3 && !h.my_turn
        && h.local == cfg.key && !h.initiator && h.transcript.len() == 0)
}

/// Whether `reply`, `next` is what a client's first words lead to: with the right name and version
/// it is accepted and the key exchange begins; else it is told the server's version and refused.
pub open spec fn hello_answered(
    cfg: ServerConfigModel,
    event: AcceptEvent,
    reply: ReplyModel,
    next: Accepted,
) -> bool {
    match event {
        AcceptEvent::Text(text) => match version::hello_verdict(
            text@,
            cfg.name,
            cfg.version,
        ) {
            HelloModel::Accepted => reply == ReplyModel::Text(
                "PROTOCOL_ACCEPTED"@,
            ) && (next matches Accepted::Going(Accepting::FirstKey(session)) && server_session(
                cfg,
                session@,
            )),
            HelloModel::OtherProtocol => reply == ReplyModel::Farewell(
                version::rejection(cfg.version),
            ) && next == Accepted::Refused(TransportError::ProtocolHandshakeFailed),
            HelloModel::OtherVersion { client } => reply
                == ReplyModel::Farewell(version::rejection(cfg.version)) && (
            next matches Accepted::Refused(TransportError::VersionMismatch { client: c, server })
                && c@ == client && server@ == cfg.version),
        },
        _ => reply is Silence && next == Accepted::Refused(TransportError::ProtocolHandshakeFailed),
    }
}

/// Whether `reply`, `next` is what the client's first handshake message leads to: the answer to
/// it, or a refusal. Anything else but a message that begins a key exchange is refused.
pub open spec fn first_key_answered(
    s: SessionModel,
    event: AcceptEvent,
    reply: ReplyModel,
    next: Accepted,
) -> bool {
    match event {
        AcceptEvent::Binary(first) => match next {
            Accepted::Going(Accepting::LastKey(session)) => reply matches ReplyModel::Packet(packet)
                && keys::may_answer(
                s,
                first@,
                KeyModel::Done { session: session@, packet },
            ),
            Accepted::Refused(e) => reply is Silence && keys::answer_error(s, first@, e),
            _ => false,
        },
        AcceptEvent::SendFailed(text) => reply is Silence && next == Accepted::Refused(
            TransportError::ConnectionFailed(text),
        ),
        _ => reply is Silence && (next matches Accepted::Refused(
            TransportError::NoiseHandshakeFailed(text),
        ) && text@ == "step 1: no E"@),
    }
}

/// Whether `reply`, `next` is what the client's last handshake message leads to: an established
/// session where it is accepted, else a refusal.
pub open spec fn last_key_answered(
    s: SessionModel,
    event: AcceptEvent,
    reply: ReplyModel,
    next: Accepted,
) -> bool {
    &&& reply is Silence
    &&& match event {
        AcceptEvent::Binary(last) => match next {
            Accepted::Established(session) => keys::accepts(s, last@) && keys::keys_done(session@)
                && session@ == keys::keys_from(s, seq![last@]),
            Accepted::Refused(e) => !keys::accepts(s, last@) && (e matches
                TransportError::NoiseHandshakeFailed(text) && exists|cause: CryptoError| #[trigger]
                crypto::read_error(s, last@, keys::HANDSHAKE_BUFFER as nat, cause) && text@
                == cause.detail_text()),
            Accepted::Going(_) => false,
        },
        AcceptEvent::SendFailed(text) => next == Accepted::Refused(
            TransportError::ConnectionFailed(text),
        ),
        _ => next matches Accepted::Refused(TransportError::NoiseHandshakeFailed(text)) && text@
            == "step 3: no S,SE"@,
    }
}

impl Accepting {
    /// Decides what is sent at an event, and where it leads.
    pub fn step(self, config: &WsServerConfig, event: AcceptEvent) -> (r: (Reply, Accepted))
        requires
            self@.wf(),
            config@.wf(),
        ensures
            match self@ {
                AcceptingModel::Hello => hello_answered(config@, event, r.0@, r.1),
                AcceptingModel::FirstKey(s) => first_key_answered(s, event, r.0@, r.1),
                AcceptingModel::LastKey(s) => last_key_answered(s, event, r.0@, r.1),
            },
            r.1 matches Accepted::Going(next) ==> next@.wf(),
    {
        match self {
            Accepting::Hello => hello_decided(config, event),
            Accepting::FirstKey(session) => match event {
                AcceptEvent::Binary(first) => match answer_keys(session, first.as_slice()) {
                    Ok((session, packet)) => (
                        Reply::Packet(packet),
                        Accepted::Going(Accepting::LastKey(session)),
                    ),
                    Err(e) => (Reply::Silence, Accepted::Refused(e)),
                },
                AcceptEvent::SendFailed(text) => (
                    Reply::Silence,
                    Accepted::Refused(TransportError::ConnectionFailed(text)),
                ),
                _ => (
                    Reply::Silence,
                    Accepted::Refused(
                        TransportError::NoiseHandshakeFailed("step 1: no E".to_owned()),
                    ),
                ),
            },
            Accepting::LastKey(session) => match event {
                AcceptEvent::Binary(last) => match conclude_keys(session, last.as_slice()) {
                    Ok(session) => (Reply::Silence, Accepted::Established(session)),
                    Err(e) => (Reply::Silence, Accepted::Refused(e)),
                },
                AcceptEvent::SendFailed(text) => (
                    Reply::Silence,
                    Accepted::Refused(TransportError::ConnectionFailed(text)),
                ),
                _ => (
                    Reply::Silence,
                    Accepted::Refused(
                        TransportError::NoiseHandshakeFailed("step 3: no S,SE".to_owned()),
                    ),
                ),
            },
        }
    }
}

/// Decides what a client's first words lead to.
fn hello_decided(config: &WsServerConfig, event: AcceptEvent) -> (r: (Reply, Accepted))
    requires
        config@.wf(),
    ensures
        hello_answered(config@, event, r.0@, r.1),
        r.1 matches Accepted::Going(next) ==> next@.wf(),
{
    let text = match event {
        AcceptEvent::Text(text) => text,
        _ => {
            return (
                Reply::Silence,
                Accepted::Refused(TransportError::ProtocolHandshakeFailed),
            );
        },
    };
    let name = config.protocol_name.as_str();
    let version = config.protocol_version.as_str();
    match judge_hello(text.as_str(), name, version) {
        HelloVerdict::OtherProtocol => (
            Reply::Farewell(rejection_text(version)),
            Accepted::Refused(TransportError::ProtocolHandshakeFailed),
        ),
        HelloVerdict::OtherVersion { client } => (
            Reply::Farewell(rejection_text(version)),
            Accepted::Refused(
                TransportError::VersionMismatch { client, server: version.to_owned() },
            ),
        ),
        HelloVerdict::Accepted => match NoiseSession::server(config.noise_private_key.as_slice()) {
            Ok(session) => (
                Reply::Text("PROTOCOL_ACCEPTED".to_owned()),
                Accepted::Going(Accepting::FirstKey(session)),
            ),
            Err(e) => (
                Reply::Text("PROTOCOL_ACCEPTED".to_owned()),
                Accepted::Refused(TransportError::NoiseHandshakeFailed(e.detail())),
            ),
        },
    }
}

/// A server lets in exactly the clients that greet with its protocol in its version: those are told
/// that they are accepted, and the key exchange begins. Every other client is told the server's
/// version before it is refused.
pub proof fn law_only_its_own_version_is_let_in(
    client_name: Seq<char>,
    client_version: Seq<char>,
    cfg: ServerConfigModel,
    event: AcceptEvent,
    reply: ReplyModel,
    next: Accepted,
)
    requires
        utils::is_protocol_string(client_name),
        utils::is_protocol_string(client_version),
        utils::is_protocol_string(cfg.name),
        utils::is_protocol_string(cfg.version),
        event matches AcceptEvent::Text(text) && text@ == client_name + " "@ + client_version,
        hello_answered(cfg, event, reply, next),
    ensures
        next is Going <==> client_name == cfg.name && client_version == cfg.version,
        next is Going ==> reply == ReplyModel::Text("PROTOCOL_ACCEPTED"@) && (next->Going_0 matches
            Accepting::FirstKey(session) && (session@ matches SessionModel::Handshake(h) && h.local
            == cfg.key && !h.initiator && !h.my_turn && h.left == 3 && h.transcript.len() == 0)),
        !(next is Going) ==> next is Refused && reply == ReplyModel::Farewell(
            "PROTOCOL_REJECTED "@ + cfg.version,
        ),
        client_name != cfg.name ==> next == Accepted::Refused(
            TransportError::ProtocolHandshakeFailed,
        ),
        client_name == cfg.name && client_version != cfg.version ==> (next matches
            Accepted::Refused(TransportError::VersionMismatch { client, server }) && client@
            == client_version && server@ == cfg.version),
{
    version::law_server_accepts_its_own_version(
        client_name,
        client_version,
        cfg.name,
        cfg.version,
    );
}

/// A client that the server accepts understands that it is accepted, and one that is refused for
/// its version learns the server's version, unless that holds the word of acceptance.
pub proof fn law_client_understands_the_server(
    cfg: ServerConfigModel,
    event: AcceptEvent,
    reply: ReplyModel,
    next: Accepted,
)
    requires
        utils::is_protocol_string(cfg.version),
        !text::occurs_in("PROTOCOL_ACCEPTED"@, cfg.version),
        hello_answered(cfg, event, reply, next),
        event is Text,
    ensures
        next is Going ==> (reply matches ReplyModel::Text(text) && version::reply_verdict(
            text,
        ) is Accepted),
        next is Refused ==> (reply matches ReplyModel::Farewell(text) && version::reply_verdict(
            text,
        ) == (version::ReplyModel::Rejected { server: cfg.version })),
{
    version::law_acceptance_is_understood();
    version::law_rejection_is_understood(cfg.version);
}

/// A client that does not greet is refused without a word. A client that does not go on with the
/// key exchange is refused too, and so is one to which the answer could not be sent, with the
/// reason for that. A session is established exactly by a last message that is accepted, and has
/// carried nothing then.
pub proof fn law_other_events_refuse_the_client(
    cfg: ServerConfigModel,
    s: SessionModel,
    event: AcceptEvent,
    reply: ReplyModel,
    next: Accepted,
)
    ensures
        hello_answered(cfg, event, reply, next) && !(event is Text) ==> reply is Silence && next
            == Accepted::Refused(TransportError::ProtocolHandshakeFailed),
        first_key_answered(s, event, reply, next) && !(event is Binary) ==> reply is Silence
            && match event {
            AcceptEvent::SendFailed(text) => next == Accepted::Refused(
                TransportError::ConnectionFailed(text),
            ),
            _ => next matches Accepted::Refused(TransportError::NoiseHandshakeFailed(text)) && text@
                == "step 1: no E"@,
        },
        last_key_answered(s, event, reply, next) && !(event is Binary) ==> reply is Silence
            && match event {
            AcceptEvent::SendFailed(text) => next == Accepted::Refused(
                TransportError::ConnectionFailed(text),
            ),
            _ => next matches Accepted::Refused(TransportError::NoiseHandshakeFailed(text)) && text@
                == "step 3: no S,SE"@,
        },
        first_key_answered(s, event, reply, next) ==> !(next is Established) && (next is Going
            ==> event is Binary && reply is Packet && next->Going_0 is LastKey),
        last_key_answered(s, event, reply, next) ==> !(next is Going) && (next is Established
            <==> (event matches AcceptEvent::Binary(last) && keys::accepts(s, last@))),
        hello_answered(cfg, event, reply, next) ==> !(next is Established),
        last_key_answered(s, event, reply, next) ==> (next matches Accepted::Established(session)
            ==> (session@ matches SessionModel::Transport(t) && t.sent == 0 && t.received == 0
            && t.transcript == s->Handshake_0.transcript.push(event->Binary_0@))),
{
    if let AcceptEvent::Binary(last) = event {
        let transcript = s->Handshake_0.transcript;
        assert(transcript + seq![last@] =~= transcript.push(last@));
    }
}

} // verus!
