//! The way of a client from an open WS connection to being online: version handshake, key exchange
//! and authentication.
use vstd::prelude::*;

use crate::auth::AuthOutcome;
use crate::crypto;
use crate::crypto::{NoiseSession, SessionModel};
use crate::error::TransportError;
use crate::frame::{Accumulated, Frame, FrameKind, FrameModel};
use crate::state::{ConnectionState, StateModel};
use crate::text;
use crate::ws::{keys, link, version};
use crate::ws::client::action;
use crate::ws::client::action::{add_action, no_actions, one_action, Action, ActionModel};
use crate::ws::client::config::{ConfigModel, WsClientConfig};
use crate::ws::keys::{begin_keys, finish_keys, KeyModel};
use crate::ws::link::{Arrival, Link, LinkModel};
use crate::ws::version::{hello_text, judge_reply, ReplyModel, ReplyVerdict};

verus! {

/// What happens on the way to being online.
#[derive(Debug)]
pub enum DialogEvent {
    /// A text message came.
    Text(String),
    /// A binary message came.
    Binary(Vec<u8>),
    /// Another message came.
    OtherMessage,
    /// The stream failed.
    StreamError(String),
    /// The stream ended.
    StreamEnd,
    /// A send failed.
    SendFailed(String),
    /// What the `AuthHandler` gave for credentials.
    AuthPayload(Option<Vec<u8>>),
    /// How the `AuthHandler` judged the server's response.
    AuthJudged(AuthOutcome),
    /// The time for the server's response to the credentials is up.
    TimedOut,
}

/// Where the client stands on its way.
pub enum Dialog {
    /// The client has said its version and awaits the answer.
    Version,
    /// The key exchange has begun.
    Keys(NoiseSession),
    /// The `AuthHandler` is asked for the credentials.
    AskingAuth(Link),
    /// The credentials are sent and the response is awaited.
    AwaitingAuth(Link),
    /// The `AuthHandler` judges the response.
    JudgingAuth(Link),
}

/// The model of a `Dialog`.
pub enum DialogModel {
    Version,
    Keys(SessionModel),
    AskingAuth(LinkModel),
    AwaitingAuth(LinkModel),
    JudgingAuth(LinkModel),
}

impl View for Dialog {
    type V = DialogModel;

    open spec fn view(&self) -> DialogModel {
        match *self {
            Dialog::Version => DialogModel::Version,
            Dialog::Keys(session) => DialogModel::Keys(session@),
            Dialog::AskingAuth(link) => DialogModel::AskingAuth(link@),
            Dialog::AwaitingAuth(link) => DialogModel::AwaitingAuth(link@),
            Dialog::JudgingAuth(link) => DialogModel::JudgingAuth(link@),
        }
    }
}

impl DialogModel {
    /// The session or link is as far as the stage says.
    pub open spec fn wf(self) -> bool {
        match self {
            DialogModel::Version => true,
            DialogModel::Keys(s) => s.wf() && (s matches SessionModel::Handshake(h)
                && h.left == 2 && !h.my_turn),
            DialogModel::AskingAuth(link) => link.wf(),
            DialogModel::AwaitingAuth(link) => link.wf(),
            DialogModel::JudgingAuth(link) => link.wf(),
        }
    }
}

/// Where an event leads.
pub enum Next {
    /// The dialog goes on.
    Going(Dialog),
    /// The client is online.
    Online(Link),
    /// The attempt has failed, with a text to be shown or without.
    Failed(Option<String>),
    /// The server speaks another version.
    Mismatch {
        /// The server's version.
        server: String,
    },
    /// The server does not accept the credentials.
    Denied,
}

/// The model of a `Next`.
pub enum NextModel {
    Going(DialogModel),
    Online(LinkModel),
    Failed(Option<Seq<char>>),
    Mismatch { server: Seq<char> },
    Denied,
}

impl View for Next {
    type V = NextModel;

    open spec fn view(&self) -> NextModel {
        match *self {
            Next::Going(dialog) => NextModel::Going(dialog@),
            Next::Online(link) => NextModel::Online(link@),
            Next::Failed(Some(text)) => NextModel::Failed(Some(text@)),
            Next::Failed(None) => NextModel::Failed(None),
            Next::Mismatch { server } => NextModel::Mismatch { server: server@ },
            Next::Denied => NextModel::Denied,
        }
    }
}

/// The bytes of optional credentials.
pub open spec fn bytes_of(v: Option<Vec<u8>>) -> Option<Seq<u8>> {
    match v {
        Some(bytes) => Some(bytes@),
        None => None,
    }
}

/// What is done about an event on the way to being online: the actions, where it leads, and the
/// credentials that are kept for the next attempt.
pub struct DialogStep {
    pub actions: Seq<ActionModel>,
    pub next: NextModel,
    pub kept: Option<Seq<u8>>,
}

/// A step without actions.
pub open spec fn quietly(next: NextModel, kept: Option<Seq<u8>>) -> DialogStep {
    DialogStep { actions: Seq::empty(), next, kept }
}

/// An attempt that fails because the connection is as good as closed.
pub open spec fn closed(kept: Option<Seq<u8>>) -> DialogStep {
    quietly(NextModel::Failed(Some("connection closed"@)), kept)
}

/// The frame that carries the credentials.
pub open spec fn auth_frame(credentials: Seq<u8>) -> FrameModel {
    FrameModel { id: 1, kind: FrameKind::Message, data: credentials }
}

/// A link without a half received frame.
pub open spec fn fresh(link: LinkModel) -> LinkModel {
    LinkModel {
        accumulated: Accumulated { expected: 0, buffer: Seq::empty() },
        ..link
    }
}

/// After the client's version: acceptance begins the key exchange; anything else ends the attempt.
pub open spec fn version_step(
    event: DialogEvent,
    keys: KeyModel,
    kept: Option<Seq<u8>>,
) -> DialogStep {
    let invalid = quietly(NextModel::Failed(Some("Invalid handshake reply"@)), kept);
    match event {
        DialogEvent::Text(reply) => match version::reply_verdict(reply@) {
            ReplyModel::Accepted => {
                let shown = ActionModel::Publish(StateModel::Authenticating);
                match keys {
                    KeyModel::Done { session, packet } => DialogStep {
                        actions: seq![
                            shown,
                            ActionModel::SendPackets(seq![packet]),
                        ],
                        next: NextModel::Going(DialogModel::Keys(session)),
                        kept,
                    },
                    KeyModel::Failed => DialogStep {
                        actions: seq![shown],
                        next: NextModel::Failed(None),
                        kept,
                    },
                }
            },
            ReplyModel::Rejected { server } => quietly(
                NextModel::Mismatch { server },
                kept,
            ),
            ReplyModel::Invalid => invalid,
        },
        DialogEvent::StreamError(text) | DialogEvent::SendFailed(text) => quietly(
            NextModel::Failed(Some(text@)),
            kept,
        ),
        DialogEvent::StreamEnd => quietly(
            NextModel::Failed(Some("Connection closed during handshake"@)),
            kept,
        ),
        DialogEvent::Binary(_) | DialogEvent::OtherMessage => invalid,
        _ => quietly(NextModel::Going(DialogModel::Version), kept),
    }
}

/// In the key exchange: the server's message finishes it; anything else ends the attempt.
pub open spec fn keys_step(
    max: usize,
    event: DialogEvent,
    keys: KeyModel,
    kept: Option<Seq<u8>>,
) -> DialogStep {
    match (event, keys) {
        (DialogEvent::Binary(_), KeyModel::Done { session, packet }) => DialogStep {
            actions: seq![
                ActionModel::SendPackets(seq![packet]),
                ActionModel::AskAuth,
            ],
            next: NextModel::Going(
                DialogModel::AskingAuth(
                    LinkModel {
                        session,
                        accumulated: Accumulated {
                            expected: 0,
                            buffer: Seq::empty(),
                        },
                        max,
                    },
                ),
            ),
            kept,
        },
        _ => quietly(NextModel::Failed(None), kept),
    }
}

/// With the credentials: without any the client is online, else they are sent. Credentials that
/// were kept from the attempt before go first.
pub open spec fn credentials_step(
    link: LinkModel,
    cfg: ConfigModel,
    event: DialogEvent,
    kept: Option<Seq<u8>>,
) -> DialogStep {
    match event {
        DialogEvent::AuthPayload(payload) => {
            let credentials = if kept is Some {
                kept
            } else {
                bytes_of(payload)
            };
            match credentials {
                None => quietly(NextModel::Online(link), None),
                Some(bytes) => {
                    let (packets, after) = link::sealing(link, auth_frame(bytes));
                    let shown = ActionModel::Publish(StateModel::WaitingForAuth);
                    match packets {
                        Some(p) => DialogStep {
                            actions: seq![
                                shown,
                                ActionModel::SendPackets(p),
                                ActionModel::ArmAuthTimer(cfg.auth_timeout),
                            ],
                            next: NextModel::Going(DialogModel::AwaitingAuth(after)),
                            kept: None,
                        },
                        None => DialogStep {
                            actions: seq![shown],
                            next: NextModel::Failed(Some("connection closed"@)),
                            kept: None,
                        },
                    }
                },
            }
        },
        DialogEvent::SendFailed(_) => quietly(NextModel::Failed(None), kept),
        _ => quietly(NextModel::Going(DialogModel::AskingAuth(link)), kept),
    }
}

/// While the response is awaited: a complete frame with the request's ID is the response; anything
/// else ends the attempt.
pub open spec fn response_step(
    link: LinkModel,
    event: DialogEvent,
    kept: Option<Seq<u8>>,
) -> DialogStep {
    match event {
        DialogEvent::Binary(packet) => {
            let (arrival, after) = link::receiving(link, packet@);
            match arrival {
                Arrival::Nothing => quietly(
                    NextModel::Going(DialogModel::AwaitingAuth(after)),
                    kept,
                ),
                Arrival::Frame(f) if f.id == 1 => DialogStep {
                    actions: seq![ActionModel::JudgeAuth(f.data)],
                    next: NextModel::Going(DialogModel::JudgingAuth(after)),
                    kept,
                },
                _ => closed(kept),
            }
        },
        _ => closed(kept),
    }
}

/// When the response is judged: success leads online, a rejection stops, and new credentials are
/// kept for the next attempt.
pub open spec fn outcome_step(
    link: LinkModel,
    event: DialogEvent,
    kept: Option<Seq<u8>>,
) -> DialogStep {
    match event {
        DialogEvent::AuthJudged(outcome) => match outcome {
            AuthOutcome::Success => quietly(NextModel::Online(fresh(link)), kept),
            AuthOutcome::Unauthorized => quietly(NextModel::Denied, kept),
            AuthOutcome::Failed => closed(kept),
            AuthOutcome::RetryWithNewPayload(bytes) => closed(Some(bytes@)),
        },
        _ => quietly(NextModel::Going(DialogModel::JudgingAuth(link)), kept),
    }
}

/// What is done about an event, given what the key exchange gave.
pub open spec fn dialog_step(
    d: DialogModel,
    cfg: ConfigModel,
    event: DialogEvent,
    keys: KeyModel,
    kept: Option<Seq<u8>>,
) -> DialogStep {
    match d {
        DialogModel::Version => version_step(event, keys, kept),
        DialogModel::Keys(_) => keys_step(cfg.max, event, keys, kept),
        DialogModel::AskingAuth(link) => credentials_step(link, cfg, event, kept),
        DialogModel::AwaitingAuth(link) => response_step(link, event, kept),
        DialogModel::JudgingAuth(link) => outcome_step(link, event, kept),
    }
}

/// What the key exchange can give at an event.
pub open spec fn may_give(
    d: DialogModel,
    cfg: ConfigModel,
    event: DialogEvent,
    keys: KeyModel,
) -> bool {
    match (d, event) {
        (DialogModel::Version, _) => keys::may_begin(cfg.server_key, keys),
        (DialogModel::Keys(s), DialogEvent::Binary(reply)) => keys::may_finish(s, reply@, keys),
        _ => true,
    }
}

/// Whether a dialog or a link that an event leads to is sound.
pub open spec fn next_wf(next: NextModel) -> bool {
    match next {
        NextModel::Going(d) => d.wf(),
        NextModel::Online(link) => link.wf(),
        _ => true,
    }
}

/// The action that sends one packet.
fn send_one(packet: Vec<u8>) -> (r: Action)
    ensures
        r@ == ActionModel::SendPackets(seq![packet@]),
{
    let mut packets: Vec<Vec<u8>> = Vec::new();
    packets.push(packet);
    assert(crypto::contents(packets@) =~= seq![packet@]);
    Action::SendPackets(packets)
}

/// An attempt that fails because the connection is as good as closed.
fn failed_closed() -> (r: Next)
    ensures
        r@ == NextModel::Failed(Some("connection closed"@)),
{
    Next::Failed(Some(TransportError::ConnectionClosed.message()))
}

/// Decides what follows the client's version, given what beginning the key exchange gave.
pub fn version_decided(event: DialogEvent, keys: Option<(NoiseSession, Vec<u8>)>) -> (r: (
    Vec<Action>,
    Next,
))
    requires
        keys matches Some((session, _)) ==> DialogModel::Keys(session@).wf(),
    ensures
        action::said(r.0@) == version_step(event, keys::key_model(keys), None).actions,
        r.1@ == version_step(event, keys::key_model(keys), None).next,
        next_wf(r.1@),
{
    match event {
        DialogEvent::Text(reply) => match judge_reply(reply.as_str()) {
            ReplyVerdict::Accepted => {
                let mut actions = one_action(Action::Publish(ConnectionState::Authenticating));
                match keys {
                    Some((session, packet)) => {
                        add_action(&mut actions, send_one(packet));
                        assert(action::said(actions@) =~= version_step(
                            event,
                            keys::key_model(keys),
                            None,
                        ).actions);
                        (actions, Next::Going(Dialog::Keys(session)))
                    },
                    None => (actions, Next::Failed(None)),
                }
            },
            ReplyVerdict::Rejected { server } => (no_actions(), Next::Mismatch { server }),
            ReplyVerdict::Invalid => (
                no_actions(),
                Next::Failed(Some("Invalid handshake reply".to_owned())),
            ),
        },
        DialogEvent::StreamError(text) => (no_actions(), Next::Failed(Some(text))),
        DialogEvent::SendFailed(text) => (no_actions(), Next::Failed(Some(text))),
        DialogEvent::StreamEnd => (
            no_actions(),
            Next::Failed(Some("Connection closed during handshake".to_owned())),
        ),
        DialogEvent::Binary(_) | DialogEvent::OtherMessage => (
            no_actions(),
            Next::Failed(Some("Invalid handshake reply".to_owned())),
        ),
        DialogEvent::AuthPayload(_)
        | DialogEvent::AuthJudged(_)
        | DialogEvent::TimedOut => (no_actions(), Next::Going(Dialog::Version)),
    }
}

/// Decides what follows in the key exchange, given what finishing it gave.
pub fn keys_decided(
    event: DialogEvent,
    keys: Option<(NoiseSession, Vec<u8>)>,
    max_payload: usize,
) -> (r: (Vec<Action>, Next))
    requires
        keys matches Some((session, _)) ==> keys::keys_done(session@),
    ensures
        action::said(r.0@) == keys_step(
            max_payload,
            event,
            keys::key_model(keys),
            None,
        ).actions,
        r.1@ == keys_step(max_payload, event, keys::key_model(keys), None).next,
        next_wf(r.1@),
{
    match (event, keys) {
        (DialogEvent::Binary(_), Some((session, packet))) => {
            let mut actions = one_action(send_one(packet));
            add_action(&mut actions, Action::AskAuth);
            assert(action::said(actions@) =~= keys_step(
                max_payload,
                event,
                keys::key_model(keys),
                None,
            ).actions);
            (actions, Next::Going(Dialog::AskingAuth(Link::new(session, max_payload))))
        },
        _ => (no_actions(), Next::Failed(None)),
    }
}

/// Decides what follows with the credentials.
pub fn credentials_decided(
    mut link: Link,
    config: &WsClientConfig,
    event: DialogEvent,
    kept: &mut Option<Vec<u8>>,
) -> (r: (Vec<Action>, Next))
    requires
        link@.wf(),
    ensures
        action::said(r.0@) == credentials_step(
            link@,
            config@,
            event,
            bytes_of(*old(kept)),
        ).actions,
        r.1@ == credentials_step(link@, config@, event, bytes_of(*old(kept))).next,
        bytes_of(*final(kept)) == credentials_step(
            link@,
            config@,
            event,
            bytes_of(*old(kept)),
        ).kept,
        next_wf(r.1@),
{
    let ghost was = link@;
    match event {
        DialogEvent::AuthPayload(payload) => {
            let credentials = match kept.take() {
                Some(bytes) => Some(bytes),
                None => payload,
            };
            match credentials {
                None => (no_actions(), Next::Online(link)),
                Some(bytes) => {
                    let mut actions = one_action(Action::Publish(ConnectionState::WaitingForAuth));
                    let frame = Frame { id: 1, kind: FrameKind::Message, data: bytes };
                    assert(frame@ =~= auth_frame(bytes@));
                    match link.seal(&frame) {
                        Err(_) => (actions, failed_closed()),
                        Ok(packets) => {
                            add_action(&mut actions, Action::SendPackets(packets));
                            add_action(
                                &mut actions,
                                Action::ArmAuthTimer(config.auth_timeout.clone()),
                            );
                            assert(action::said(actions@) =~= credentials_step(
                                was,
                                config@,
                                event,
                                bytes_of(*old(kept)),
                            ).actions);
                            (actions, Next::Going(Dialog::AwaitingAuth(link)))
                        },
                    }
                },
            }
        },
        DialogEvent::SendFailed(_) => (no_actions(), Next::Failed(None)),
        _ => (no_actions(), Next::Going(Dialog::AskingAuth(link))),
    }
}

/// Decides what follows while the response to the credentials is awaited.
pub fn response_decided(mut link: Link, event: DialogEvent) -> (r: (Vec<Action>, Next))
    requires
        link@.wf(),
    ensures
        action::said(r.0@) == response_step(link@, event, None).actions,
        r.1@ == response_step(link@, event, None).next,
        next_wf(r.1@),
{
    match event {
        DialogEvent::Binary(packet) => match link.receive(packet.as_slice()) {
            Ok(None) => (no_actions(), Next::Going(Dialog::AwaitingAuth(link))),
            Ok(Some(frame)) => {
                if frame.id == 1 {
                    (
                        one_action(Action::JudgeAuth(frame.data)),
                        Next::Going(Dialog::JudgingAuth(link)),
                    )
                } else {
                    (no_actions(), failed_closed())
                }
            },
            Err(_) => (no_actions(), failed_closed()),
        },
        _ => (no_actions(), failed_closed()),
    }
}

/// Decides what follows when the response is judged.
pub fn outcome_decided(mut link: Link, event: DialogEvent, kept: &mut Option<Vec<u8>>) -> (r: (
    Vec<Action>,
    Next,
))
    requires
        link@.wf(),
    ensures
        action::said(r.0@) == outcome_step(
            link@,
            event,
            bytes_of(*old(kept)),
        ).actions,
        r.1@ == outcome_step(link@, event, bytes_of(*old(kept))).next,
        bytes_of(*final(kept)) == outcome_step(link@, event, bytes_of(*old(kept))).kept,
        next_wf(r.1@),
{
    match event {
        DialogEvent::AuthJudged(outcome) => match outcome {
            AuthOutcome::Success => {
                link.reset();
                (no_actions(), Next::Online(link))
            },
            AuthOutcome::Unauthorized => (no_actions(), Next::Denied),
            AuthOutcome::Failed => (no_actions(), failed_closed()),
            AuthOutcome::RetryWithNewPayload(bytes) => {
                *kept = Some(bytes);
                (no_actions(), failed_closed())
            },
        },
        _ => (no_actions(), Next::Going(Dialog::JudgingAuth(link))),
    }
}

/// What the client does first on an open connection: it says its version.
pub open spec fn greeting(cfg: ConfigModel) -> Seq<
    ActionModel,
> {
    seq![
        ActionModel::Publish(StateModel::Handshaking),
        ActionModel::SendText(version::hello(cfg.name, cfg.version)),
    ]
}

impl Dialog {
    /// Begins the dialog on an open connection.
    pub fn start(config: &WsClientConfig) -> (r: (Vec<Action>, Dialog))
        ensures
            action::said(r.0@) == greeting(config@),
            r.1@ is Version,
            r.1@.wf(),
    {
        let hello = hello_text(config.protocol_name.as_str(), config.protocol_version.as_str());
        let mut actions = one_action(Action::Publish(ConnectionState::Handshaking));
        add_action(&mut actions, Action::SendText(hello));
        assert(action::said(actions@) =~= greeting(config@));
        (actions, Dialog::Version)
    }

    /// Decides what is done about an event. Credentials that the `AuthHandler` gave for the next
    /// attempt are kept in `kept`.
    pub fn step(
        self,
        config: &WsClientConfig,
        event: DialogEvent,
        kept: &mut Option<Vec<u8>>,
    ) -> (r: (Vec<Action>, Next))
        requires
            self@.wf(),
            config@.wf(),
        ensures
            next_wf(r.1@),
            exists|keys: KeyModel| #[trigger]
                may_give(self@, config@, event, keys) && ({
                    let step = dialog_step(self@, config@, event, keys, bytes_of(*old(kept)));
                    &&& action::said(r.0@) == step.actions
                    &&& r.1@ == step.next
                    &&& bytes_of(*final(kept)) == step.kept
                }),
    {
        let ghost d = self@;
        match self {
            Dialog::Version => {
                let accepted = match &event {
                    DialogEvent::Text(reply) => match judge_reply(reply.as_str()) {
                        ReplyVerdict::Accepted => true,
                        _ => false,
                    },
                    _ => false,
                };
                let keys = if accepted {
                    match begin_keys(&config.noise_server_key) {
                        Ok(keys) => Some(keys),
                        Err(_) => None,
                    }
                } else {
                    None
                };
                assert(may_give(d, config@, event, keys::key_model(keys)));
                version_decided(event, keys)
            },
            Dialog::Keys(session) => {
                let keys = match &event {
                    DialogEvent::Binary(reply) => match finish_keys(session, reply.as_slice()) {
                        Ok(keys) => Some(keys),
                        Err(_) => None,
                    },
                    _ => None,
                };
                assert(may_give(d, config@, event, keys::key_model(keys)));
                keys_decided(event, keys, config.max_payload_bytes)
            },
            Dialog::AskingAuth(link) => {
                assert(may_give(d, config@, event, KeyModel::Failed));
                credentials_decided(link, config, event, kept)
            },
            Dialog::AwaitingAuth(link) => {
                assert(may_give(d, config@, event, KeyModel::Failed));
                response_decided(link, event)
            },
            Dialog::JudgingAuth(link) => {
                assert(may_give(d, config@, event, KeyModel::Failed));
                outcome_decided(link, event, kept)
            },
        }
    }
}

/// The server's answer decides how the attempt goes on: with the word of acceptance the key
/// exchange begins, and its first message goes out; with the word of rejection the attempt stops at
/// a mismatch; any other answer fails it. Kept credentials stay kept.
pub proof fn law_answer_decides_the_attempt(
    cfg: ConfigModel,
    reply: String,
    keys: KeyModel,
    kept: Option<Seq<u8>>,
)
    ensures
        ({
            let step = dialog_step(
                DialogModel::Version,
                cfg,
                DialogEvent::Text(reply),
                keys,
                kept,
            );
            let accepts = text::is_around("PROTOCOL_ACCEPTED"@, reply@);
            let rejects = text::is_around("PROTOCOL_REJECTED"@, reply@);
            &&& step.kept == kept
            &&& accepts ==> match keys {
                KeyModel::Done { session, packet } => {
                    &&& step.actions == seq![
                        ActionModel::Publish(StateModel::Authenticating),
                        ActionModel::SendPackets(seq![packet]),
                    ]
                    &&& step.next == NextModel::Going(DialogModel::Keys(session))
                },
                KeyModel::Failed => {
                    &&& step.actions == seq![ActionModel::Publish(StateModel::Authenticating)]
                    &&& step.next == NextModel::Failed(None)
                },
            }
            &&& !accepts ==> step.actions.len() == 0
            &&& !accepts && rejects ==> (step.next matches NextModel::Mismatch { server }
                && version::reply_verdict(reply@) == (ReplyModel::Rejected { server }))
            &&& !accepts && !rejects ==> step.next == NextModel::Failed(
                Some("Invalid handshake reply"@),
            )
        }),
{
    version::law_answers_are_told_apart(reply@);
}

/// While the server's answer is awaited, a message of another form fails the attempt, and so does
/// a loss of the connection, each with its own text; nothing else matters.
pub proof fn law_only_an_answer_is_awaited(
    cfg: ConfigModel,
    event: DialogEvent,
    keys: KeyModel,
    kept: Option<Seq<u8>>,
)
    requires
        !(event is Text),
    ensures
        ({
            let step = dialog_step(DialogModel::Version, cfg, event, keys, kept);
            &&& step.kept == kept
            &&& step.actions.len() == 0
            &&& step.next == match event {
                DialogEvent::StreamError(text) => NextModel::Failed(Some(text@)),
                DialogEvent::SendFailed(text) => NextModel::Failed(Some(text@)),
                DialogEvent::StreamEnd => NextModel::Failed(
                    Some("Connection closed during handshake"@),
                ),
                DialogEvent::Binary(_) => NextModel::Failed(Some("Invalid handshake reply"@)),
                DialogEvent::OtherMessage => NextModel::Failed(Some("Invalid handshake reply"@)),
                _ => NextModel::Going(DialogModel::Version),
            }
        }),
{
}

/// The key exchange goes on only with a binary message that finishes it: the last message goes out,
/// and the application is asked for the credentials, over a link that holds the new session, has
/// nothing half received and keeps to the configured limit. Everything else fails the attempt.
pub proof fn law_key_exchange_is_finished_or_fails(
    s: SessionModel,
    cfg: ConfigModel,
    event: DialogEvent,
    keys: KeyModel,
    kept: Option<Seq<u8>>,
)
    ensures
        ({
            let step = dialog_step(DialogModel::Keys(s), cfg, event, keys, kept);
            &&& step.kept == kept
            &&& if event is Binary && keys is Done {
                &&& step.actions == seq![
                    ActionModel::SendPackets(seq![keys->packet]),
                    ActionModel::AskAuth,
                ]
                &&& step.next matches NextModel::Going(DialogModel::AskingAuth(link))
                    && link.session == keys->session && link.accumulated.expected == 0
                    && link.accumulated.buffer.len() == 0 && link.max == cfg.max
            } else {
                step.actions.len() == 0 && step.next == NextModel::Failed(None)
            }
        }),
{
}

/// With credentials, those that were kept before those that the application gives, the client
/// sends them in a message with the ID 1, shows that it waits and starts the timer; without any it
/// is online. Kept credentials are used up. A failed send fails the attempt, and nothing else
/// matters.
pub proof fn law_credentials_are_sent(
    link: LinkModel,
    cfg: ConfigModel,
    event: DialogEvent,
    keys: KeyModel,
    kept: Option<Seq<u8>>,
)
    ensures
        ({
            let step = dialog_step(DialogModel::AskingAuth(link), cfg, event, keys, kept);
            match event {
                DialogEvent::AuthPayload(payload) => {
                    let given = kept is Some || payload is Some;
                    let credentials = match kept {
                        Some(bytes) => bytes,
                        None => payload->Some_0@,
                    };
                    let sealed = link::sealing(
                        link,
                        FrameModel { id: 1, kind: FrameKind::Message, data: credentials },
                    );
                    &&& step.kept is None
                    &&& !given ==> step.actions.len() == 0 && step.next == NextModel::Online(link)
                    &&& given ==> step.actions[0] == ActionModel::Publish(
                        StateModel::WaitingForAuth,
                    )
                    &&& given && sealed.0 is Some ==> step.actions.len() == 3 && step.actions[1]
                        == ActionModel::SendPackets(sealed.0->Some_0) && step.actions[2]
                        == ActionModel::ArmAuthTimer(cfg.auth_timeout) && step.next
                        == NextModel::Going(DialogModel::AwaitingAuth(sealed.1))
                    &&& given && sealed.0 is None ==> step.actions.len() == 1 && step.next
                        == NextModel::Failed(Some("connection closed"@))
                },
                DialogEvent::SendFailed(_) => step.actions.len() == 0 && step.next
                    == NextModel::Failed(None) && step.kept == kept,
                _ => step.actions.len() == 0 && step.next == NextModel::Going(
                    DialogModel::AskingAuth(link),
                ) && step.kept == kept,
            }
        }),
{
}

/// Only a response keeps the attempt alive once the credentials are sent: a frame with the ID 1 is
/// handed to the application, a part of a frame is waited on, and everything else ends the attempt,
/// be it that the time is up, that the stream fails or ends, or that another frame comes.
pub proof fn law_only_a_response_is_awaited(
    link: LinkModel,
    cfg: ConfigModel,
    event: DialogEvent,
    keys: KeyModel,
    kept: Option<Seq<u8>>,
)
    ensures
        ({
            let step = dialog_step(DialogModel::AwaitingAuth(link), cfg, event, keys, kept);
            let failed = NextModel::Failed(Some("connection closed"@));
            &&& step.kept == kept
            &&& !(event is Binary) ==> step.next == failed && step.actions.len() == 0
            &&& event matches DialogEvent::Binary(packet) ==> match link::receiving(
                link,
                packet@,
            ) {
                (Arrival::Nothing, after) => step.actions.len() == 0 && step.next
                    == NextModel::Going(DialogModel::AwaitingAuth(after)),
                (Arrival::Frame(f), after) => if f.id == 1 {
                    step.actions == seq![ActionModel::JudgeAuth(f.data)] && step.next
                        == NextModel::Going(DialogModel::JudgingAuth(after))
                } else {
                    step.actions.len() == 0 && step.next == failed
                },
                _ => step.actions.len() == 0 && step.next == failed,
            }
        }),
{
}

/// The application's judgement decides: success leads online over the same session with nothing
/// half received, a rejection stops the client, and a failure ends the attempt; credentials for
/// another try are kept. Until the judgement is there, nothing else matters.
pub proof fn law_judgement_decides(
    link: LinkModel,
    cfg: ConfigModel,
    event: DialogEvent,
    keys: KeyModel,
    kept: Option<Seq<u8>>,
)
    ensures
        ({
            let step = dialog_step(DialogModel::JudgingAuth(link), cfg, event, keys, kept);
            let failed = NextModel::Failed(Some("connection closed"@));
            &&& step.actions.len() == 0
            &&& match event {
                DialogEvent::AuthJudged(AuthOutcome::Success) => step.kept == kept && (
                step.next matches NextModel::Online(l) && l.session == link.session && l.max
                    == link.max && l.accumulated.expected == 0 && l.accumulated.buffer.len() == 0),
                DialogEvent::AuthJudged(AuthOutcome::Unauthorized) => step.kept == kept
                    && step.next is Denied,
                DialogEvent::AuthJudged(AuthOutcome::Failed) => step.kept == kept && step.next
                    == failed,
                DialogEvent::AuthJudged(AuthOutcome::RetryWithNewPayload(bytes)) => step.kept
                    == Some(bytes@) && step.next == failed,
                _ => step.kept == kept && step.next == NextModel::Going(
                    DialogModel::JudgingAuth(link),
                ),
            }
        }),
{
}

/// A client greets with the name and the version of its protocol, with one space between them.
pub proof fn law_client_greets_first(cfg: ConfigModel)
    ensures
        greeting(cfg) == seq![
            ActionModel::Publish(StateModel::Handshaking),
            ActionModel::SendText(cfg.name + " "@ + cfg.version),
        ],
{
}

} // verus!
