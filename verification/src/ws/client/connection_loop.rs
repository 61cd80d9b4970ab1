//! The connection loop of a client: one endpoint, automatic reconnection with growing delays.
use std::collections::VecDeque;
use std::time::Duration;
use vstd::prelude::*;

use crate::auth::AuthOutcome;
use crate::runtime;
use crate::runtime::nanos_of;
use crate::scheduler::Scheduled;
use crate::state::{ConnectionState, StateModel};
use crate::ws::client::{action, handshake, message_loop};
use crate::ws::client::action::{
    add_action, add_actions, no_actions, one_action, Action, ActionModel,
};
use crate::ws::client::backoff::{
    BackoffStrategy, ConstantBackoff, ExponentialBackoff, LinearBackoff,
};
use crate::ws::client::cmd::ClientCmd;
use crate::ws::client::config::{ConfigModel, WsClientConfig};
use crate::ws::client::handshake::{Dialog, DialogEvent, DialogModel, Next, NextModel};
use crate::ws::client::message_loop::{LoopEvent, LoopModel, MessageLoop};
use crate::ws::keys::KeyModel;
use crate::ws::link;
use crate::ws::link::LinkModel;

verus! {

/// What happens to the client.
#[derive(Debug)]
pub enum ClientEvent {
    /// The loop is started.
    Start,
    /// The client is shut down.
    Cancelled,
    /// A command came.
    Command(ClientCmd),
    /// A wait is over.
    Waited,
    /// The WS connection is open.
    Opened,
    /// The WS connection could not be opened.
    OpenFailed(String),
    /// A text message came.
    Text(String),
    /// A binary message came.
    Binary(Vec<u8>),
    /// Another message came.
    OtherMessage,
    /// The stream failed.
    StreamError(String),
    /// The stream ended.
    StreamEnd,
    /// A send failed.
    SendFailed(String),
    /// What the `AuthHandler` gave for credentials.
    AuthPayload(Option<Vec<u8>>),
    /// How the `AuthHandler` judged the server's response.
    AuthJudged(AuthOutcome),
    /// The time for the server's response to the credentials is up.
    TimedOut,
    /// The commands that came while a frame was sent.
    Taken(VecDeque<ClientCmd>),
    /// The heartbeat fell due.
    HeartbeatDue,
}

/// What the client's owner has set, at the time of an event.
pub struct Surroundings {
    /// The endpoint.
    pub endpoint: Option<String>,
    /// Whether a dropped connection is renewed by itself.
    pub auto_reconnect: bool,
    /// Whether the client is shut down.
    pub cancelled: bool,
}

/// The model of `Surroundings`.
pub struct SurroundingsModel {
    pub endpoint: Option<Seq<char>>,
    pub auto_reconnect: bool,
    pub cancelled: bool,
}

impl View for Surroundings {
    type V = SurroundingsModel;

    open spec fn view(&self) -> SurroundingsModel {
        SurroundingsModel {
            endpoint: match self.endpoint {
                Some(url) => Some(url@),
                None => None,
            },
            auto_reconnect: self.auto_reconnect,
            cancelled: self.cancelled,
        }
    }
}

/// Where the connection loop stands.
pub enum Phase {
    /// Not started.
    Idle,
    /// No endpoint is set.
    NoEndpoint,
    /// A delay before the next attempt runs.
    Backoff {
        /// The endpoint of the next attempt.
        url: String,
    },
    /// The WS connection is being opened.
    Opening,
    /// The client is on its way to being online.
    Talking(Dialog),
    /// The client is online.
    Online(MessageLoop),
    /// The server does not accept the credentials.
    Unauthorized,
    /// The server speaks another version.
    VersionMismatch,
    /// The connection dropped, and is not renewed by itself.
    Dropped,
    /// The loop has ended.
    Stopped,
}

/// The model of a `Phase`.
pub enum PhaseModel {
    Idle,
    NoEndpoint,
    Backoff { url: Seq<char> },
    Opening,
    Talking(DialogModel),
    Online(LoopModel),
    Unauthorized,
    VersionMismatch,
    Dropped,
    Stopped,
}

impl View for Phase {
    type V = PhaseModel;

    open spec fn view(&self) -> PhaseModel {
        match *self {
            Phase::Idle => PhaseModel::Idle,
            Phase::NoEndpoint => PhaseModel::NoEndpoint,
            Phase::Backoff { url } => PhaseModel::Backoff { url: url@ },
            Phase::Opening => PhaseModel::Opening,
            Phase::Talking(dialog) => PhaseModel::Talking(dialog@),
            Phase::Online(message_loop) => PhaseModel::Online(message_loop@),
            Phase::Unauthorized => PhaseModel::Unauthorized,
            Phase::VersionMismatch => PhaseModel::VersionMismatch,
            Phase::Dropped => PhaseModel::Dropped,
            Phase::Stopped => PhaseModel::Stopped,
        }
    }
}

/// The state of the connection loop.
pub struct ConnectionLoop<B: BackoffStrategy> {
    config: WsClientConfig,
    backoff: B,
    phase: Phase,
    attempt: u32,
    ever_connected: bool,
    kept: Option<Vec<u8>>,
}

/// What a connection loop holds.
pub struct ConnectionModel {
    /// Where it stands.
    pub phase: PhaseModel,
    /// How many attempts have failed in a row.
    pub attempt: nat,
    /// Whether the client was ever online.
    pub ever_connected: bool,
    /// Credentials for the next attempt.
    pub kept: Option<Seq<u8>>,
}

/// What a connection loop does about an event.
pub struct ConnectionStep {
    pub actions: Seq<ActionModel>,
    /// The count of failed attempts for which the strategy is asked for a delay.
    pub asked: Option<nat>,
    pub after: ConnectionModel,
}

impl<B: BackoffStrategy> View for ConnectionLoop<B> {
    type V = ConnectionModel;

    closed spec fn view(&self) -> ConnectionModel {
        ConnectionModel {
            phase: self.phase@,
            attempt: self.attempt as nat,
            ever_connected: self.ever_connected,
            kept: handshake::bytes_of(self.kept),
        }
    }
}

impl ConnectionModel {
    /// The dialog or message loop is sound; a client that is online was so once.
    pub open spec fn wf(self) -> bool {
        match self.phase {
            PhaseModel::Talking(d) => d.wf(),
            PhaseModel::Online(l) => l.wf() && self.ever_connected,
            _ => true,
        }
    }

    /// The loop in another phase.
    pub open spec fn at(self, phase: PhaseModel) -> ConnectionModel {
        ConnectionModel { phase, ..self }
    }

    /// The loop with another count of failed attempts.
    pub open spec fn counting(self, attempt: nat) -> ConnectionModel {
        ConnectionModel { attempt, ..self }
    }

    /// Nothing happens.
    pub open spec fn stays(self) -> ConnectionStep {
        ConnectionStep { actions: Seq::empty(), asked: None, after: self }
    }

    /// The loop ends.
    pub open spec fn stops(self) -> ConnectionStep {
        ConnectionStep {
            actions: seq![ActionModel::Exit],
            asked: None,
            after: self.at(PhaseModel::Stopped),
        }
    }

    /// The WS connection is opened.
    pub open spec fn opens(self, url: Seq<char>) -> ConnectionStep {
        ConnectionStep {
            actions: seq![
                ActionModel::Publish(StateModel::Connecting),
                ActionModel::Open(url),
            ],
            asked: None,
            after: self.at(PhaseModel::Opening),
        }
    }

    /// A new attempt: at once, or after the delay that the strategy gives for the count of failed
    /// attempts.
    pub open spec fn begins(
        self,
        delay: nat,
        around: SurroundingsModel,
        at_once: bool,
    ) -> ConnectionStep {
        if around.cancelled {
            self.stops()
        } else {
            match around.endpoint {
                None => ConnectionStep {
                    actions: seq![ActionModel::Publish(StateModel::Disconnected)],
                    asked: None,
                    after: self.at(PhaseModel::NoEndpoint),
                },
                Some(url) => if at_once {
                    self.opens(url)
                } else if delay == 0 {
                    ConnectionStep { asked: Some(self.attempt), ..self.opens(url) }
                } else {
                    let wait = ActionModel::Wait(delay);
                    let shown = ActionModel::Publish(
                        StateModel::Reconnecting {
                            attempt: self.attempt as u32,
                            nanos: delay,
                        },
                    );
                    ConnectionStep {
                        actions: if self.ever_connected {
                            seq![shown, wait]
                        } else {
                            seq![wait]
                        },
                        asked: Some(self.attempt),
                        after: self.at(PhaseModel::Backoff { url }),
                    }
                },
            }
        }
    }

    /// An attempt failed: the text is shown, if there is one, and the next attempt begins.
    pub open spec fn fails(
        self,
        delay: nat,
        around: SurroundingsModel,
        text: Option<Seq<char>>,
    ) -> ConnectionStep {
        let next = self.counting(self.attempt + 1).begins(delay, around, false);
        match text {
            Some(t) => ConnectionStep {
                actions: seq![ActionModel::Publish(StateModel::Error(t))] + next.actions,
                ..next
            },
            None => next,
        }
    }

    /// The connection dropped: the pending requests fail. The loop reconnects at once where that
    /// was asked for, after the first delay where it reconnects by itself, and else waits.
    pub open spec fn drops(
        self,
        delay: nat,
        around: SurroundingsModel,
        asked: bool,
    ) -> ConnectionStep {
        let next = if asked {
            self.counting(0).begins(delay, around, true)
        } else if around.auto_reconnect {
            self.counting(1).begins(delay, around, false)
        } else if around.cancelled {
            self.stops()
        } else {
            self.at(PhaseModel::Dropped).stays()
        };
        ConnectionStep {
            actions: seq![
                ActionModel::Publish(StateModel::Disconnected),
                ActionModel::FailPending,
            ] + next.actions,
            ..next
        }
    }

    /// The connection is given up until a command comes: the state is shown and the pending
    /// requests fail.
    pub open spec fn halts(
        self,
        state: StateModel,
        phase: PhaseModel,
    ) -> ConnectionStep {
        ConnectionStep {
            actions: seq![
                ActionModel::Publish(state),
                ActionModel::FailPending,
            ],
            asked: None,
            after: self.at(phase),
        }
    }

    /// The client comes online.
    pub open spec fn comes_online(
        self,
        cfg: ConfigModel,
        link: LinkModel,
    ) -> ConnectionStep {
        ConnectionStep {
            actions: seq![
                ActionModel::Publish(StateModel::Online),
                ActionModel::ArmHeartbeat(cfg.interval),
            ],
            asked: None,
            after: ConnectionModel {
                phase: PhaseModel::Online(
                    LoopModel {
                        link,
                        queue: Scheduled::fresh(),
                        waiting_for_pong: false,
                        reconnect_asked: false,
                        interval: cfg.interval,
                        timeout: cfg.timeout,
                    },
                ),
                attempt: 0,
                ever_connected: true,
                ..self
            },
        }
    }

    /// Where the dialog leads.
    pub open spec fn led(
        self,
        cfg: ConfigModel,
        delay: nat,
        around: SurroundingsModel,
        next: NextModel,
    ) -> ConnectionStep {
        match next {
            NextModel::Going(d) => self.at(PhaseModel::Talking(d)).stays(),
            NextModel::Online(link) => self.comes_online(cfg, link),
            NextModel::Failed(text) => self.fails(delay, around, text),
            NextModel::Mismatch { server } => self.halts(
                StateModel::VersionMismatch { client: cfg.version, server },
                PhaseModel::VersionMismatch,
            ),
            NextModel::Denied => self.halts(
                StateModel::Unauthorized,
                PhaseModel::Unauthorized,
            ),
        }
    }

    /// What is done about a command where the loop waits for one.
    pub open spec fn commanded(
        self,
        delay: nat,
        around: SurroundingsModel,
        cmd: ClientCmd,
    ) -> ConnectionStep {
        match (self.phase, cmd) {
            (PhaseModel::NoEndpoint, ClientCmd::EndpointChanged) => self.begins(
                delay,
                around,
                false,
            ),
            (PhaseModel::NoEndpoint, _) => self.stays(),
            (_, ClientCmd::Reconnect) => self.counting(0).begins(delay, around, true),
            (PhaseModel::Backoff { .. }, ClientCmd::EndpointChanged) => self.counting(0).begins(
                delay,
                around,
                false,
            ),
            (PhaseModel::Backoff { .. }, _) => self.begins(delay, around, false),
            (
                PhaseModel::Unauthorized,
                ClientCmd::EndpointChanged | ClientCmd::WakeUp,
            ) => self.counting(0).begins(delay, around, false),
            (PhaseModel::VersionMismatch, ClientCmd::EndpointChanged) => self.counting(
                self.attempt + 1,
            ).begins(delay, around, false),
            (PhaseModel::Dropped, ClientCmd::EndpointChanged) => self.begins(delay, around, false),
            _ => self.stays(),
        }
    }

    /// What is done about an event, given the delay that the strategy gives, if it is asked for
    /// one, and what the key exchange gave.
    pub open spec fn step(
        self,
        cfg: ConfigModel,
        delay: nat,
        around: SurroundingsModel,
        event: ClientEvent,
        keys: KeyModel,
    ) -> ConnectionStep {
        match self.phase {
            PhaseModel::Idle => if event is Start {
                self.begins(delay, around, false)
            } else {
                self.stays()
            },
            PhaseModel::Opening => match event {
                ClientEvent::Opened => ConnectionStep {
                    actions: handshake::greeting(cfg),
                    asked: None,
                    after: self.at(PhaseModel::Talking(DialogModel::Version)),
                },
                ClientEvent::OpenFailed(text) => self.fails(delay, around, Some(text@)),
                _ => self.stays(),
            },
            PhaseModel::Talking(d) => match dialog_event(event) {
                Some(e) => {
                    let step = handshake::dialog_step(
                        d,
                        cfg,
                        e,
                        keys,
                        self.kept,
                    );
                    let led = ConnectionModel { kept: step.kept, ..self }.led(
                        cfg,
                        delay,
                        around,
                        step.next,
                    );
                    ConnectionStep { actions: step.actions + led.actions, ..led }
                },
                None => self.stays(),
            },
            PhaseModel::Online(l) => match loop_event(event) {
                Some(e) => {
                    let step = l.step(e);
                    if step.down {
                        let dropped = self.drops(delay, around, step.after.reconnect_asked);
                        ConnectionStep { actions: step.actions + dropped.actions, ..dropped }
                    } else {
                        ConnectionStep {
                            actions: step.actions,
                            asked: None,
                            after: self.at(PhaseModel::Online(step.after)),
                        }
                    }
                },
                None => self.stays(),
            },
            PhaseModel::Stopped => self.stays(),
            _ => match event {
                ClientEvent::Cancelled => self.stops(),
                ClientEvent::Command(cmd) => self.commanded(delay, around, cmd),
                ClientEvent::Waited => match self.phase {
                    PhaseModel::Backoff { url } => self.opens(url),
                    _ => self.stays(),
                },
                _ => self.stays(),
            },
        }
    }
}

/// What an event is to the dialog.
pub open spec fn dialog_event(event: ClientEvent) -> Option<DialogEvent> {
    match event {
        ClientEvent::Text(text) => Some(DialogEvent::Text(text)),
        ClientEvent::Binary(data) => Some(DialogEvent::Binary(data)),
        ClientEvent::OtherMessage => Some(DialogEvent::OtherMessage),
        ClientEvent::StreamError(text) => Some(DialogEvent::StreamError(text)),
        ClientEvent::StreamEnd => Some(DialogEvent::StreamEnd),
        ClientEvent::SendFailed(text) => Some(DialogEvent::SendFailed(text)),
        ClientEvent::AuthPayload(payload) => Some(DialogEvent::AuthPayload(payload)),
        ClientEvent::AuthJudged(outcome) => Some(DialogEvent::AuthJudged(outcome)),
        ClientEvent::TimedOut => Some(DialogEvent::TimedOut),
        _ => None,
    }
}

/// What an event is to the message loop.
pub open spec fn loop_event(event: ClientEvent) -> Option<LoopEvent> {
    match event {
        ClientEvent::Cancelled => Some(LoopEvent::Cancelled),
        ClientEvent::Binary(data) => Some(LoopEvent::Binary(data)),
        ClientEvent::Text(_)
        | ClientEvent::OtherMessage
        | ClientEvent::StreamError(_)
        | ClientEvent::StreamEnd => Some(LoopEvent::NoBinary),
        ClientEvent::Command(cmd) => Some(LoopEvent::Command(cmd)),
        ClientEvent::Taken(cmds) => Some(LoopEvent::Taken(cmds)),
        ClientEvent::SendFailed(_) => Some(LoopEvent::SendFailed),
        ClientEvent::HeartbeatDue => Some(LoopEvent::HeartbeatDue),
        _ => None,
    }
}

pub(crate) fn to_dialog_event(event: ClientEvent) -> (r: Option<DialogEvent>)
    ensures
        r == dialog_event(event),
{
    match event {
        ClientEvent::Text(text) => Some(DialogEvent::Text(text)),
        ClientEvent::Binary(data) => Some(DialogEvent::Binary(data)),
        ClientEvent::OtherMessage => Some(DialogEvent::OtherMessage),
        ClientEvent::StreamError(text) => Some(DialogEvent::StreamError(text)),
        ClientEvent::StreamEnd => Some(DialogEvent::StreamEnd),
        ClientEvent::SendFailed(text) => Some(DialogEvent::SendFailed(text)),
        ClientEvent::AuthPayload(payload) => Some(DialogEvent::AuthPayload(payload)),
        ClientEvent::AuthJudged(outcome) => Some(DialogEvent::AuthJudged(outcome)),
        ClientEvent::TimedOut => Some(DialogEvent::TimedOut),
        _ => None,
    }
}

pub(crate) fn to_loop_event(event: ClientEvent) -> (r: Option<LoopEvent>)
    ensures
        r == loop_event(event),
{
    match event {
        ClientEvent::Cancelled => Some(LoopEvent::Cancelled),
        ClientEvent::Binary(data) => Some(LoopEvent::Binary(data)),
        ClientEvent::Text(_)
        | ClientEvent::OtherMessage
        | ClientEvent::StreamError(_)
        | ClientEvent::StreamEnd => Some(LoopEvent::NoBinary),
        ClientEvent::Command(cmd) => Some(LoopEvent::Command(cmd)),
        ClientEvent::Taken(cmds) => Some(LoopEvent::Taken(cmds)),
        ClientEvent::SendFailed(_) => Some(LoopEvent::SendFailed),
        ClientEvent::HeartbeatDue => Some(LoopEvent::HeartbeatDue),
        _ => None,
    }
}

impl<B: BackoffStrategy> ConnectionLoop<B> {
    /// The configuration that the loop was made with.
    pub closed spec fn cfg(&self) -> ConfigModel {
        self.config@
    }

    /// The strategy that the loop was made with.
    pub closed spec fn strategy(&self) -> B {
        self.backoff
    }

    /// Another attempt can still be counted, and everything else is sound.
    pub open spec fn wf(&self) -> bool {
        self@.wf() && self.cfg().wf() && self@.attempt < u32::MAX
    }

    /// A loop that is not started yet.
    pub fn new(config: WsClientConfig, backoff: B) -> (r: Self)
        requires
            config@.wf(),
        ensures
            r.wf(),
            r.cfg() == config@,
            r.strategy() == backoff,
            r@ == (ConnectionModel {
                phase: PhaseModel::Idle,
                attempt: 0,
                ever_connected: false,
                kept: None,
            }),
    {
        ConnectionLoop {
            config,
            backoff,
            phase: Phase::Idle,
            attempt: 0,
            ever_connected: false,
            kept: None,
        }
    }

    /// How many attempts have failed in a row.
    pub fn attempt(&self) -> (r: u32)
        ensures
            r == self@.attempt,
    {
        self.attempt
    }

    /// Whether the loop takes commands at the moment; else they wait.
    pub fn takes_commands(&self) -> (r: bool)
        ensures
            r == (self@.phase is NoEndpoint || self@.phase is Backoff || self@.phase is Online
                || self@.phase is Unauthorized || self@.phase is VersionMismatch
                || self@.phase is Dropped),
    {
        match &self.phase {
            Phase::NoEndpoint
            | Phase::Backoff { .. }
            | Phase::Online(_)
            | Phase::Unauthorized
            | Phase::VersionMismatch
            | Phase::Dropped => true,
            _ => false,
        }
    }

    fn opens(&mut self, url: String) -> (r: Vec<Action>)
        ensures
            final(self)@ == old(self)@.opens(url@).after,
            action::said(r@) == old(self)@.opens(url@).actions,
            final(self).cfg() == old(self).cfg(),
            final(self).strategy() == old(self).strategy(),
    {
        let mut actions = one_action(Action::Publish(ConnectionState::Connecting));
        add_action(&mut actions, Action::Open(url));
        self.phase = Phase::Opening;
        assert(action::said(actions@) =~= old(self)@.opens(url@).actions);
        actions
    }

    fn stops(&mut self) -> (r: Vec<Action>)
        ensures
            final(self)@ == old(self)@.stops().after,
            action::said(r@) == old(self)@.stops().actions,
            final(self).cfg() == old(self).cfg(),
            final(self).strategy() == old(self).strategy(),
    {
        self.phase = Phase::Stopped;
        one_action(Action::Exit)
    }

    fn begins(&mut self, around: &Surroundings, at_once: bool) -> (r: (Vec<Action>, Ghost<nat>))
        ensures
            ({
                let step = old(self)@.begins(r.1@, around@, at_once);
                &&& final(self)@ == step.after
                &&& action::said(r.0@) == step.actions
                &&& delay_may_be(old(self).strategy(), step.asked, r.1@)
            }),
            final(self).cfg() == old(self).cfg(),
            final(self).strategy() == old(self).strategy(),
    {
        if around.cancelled {
            return (self.stops(), Ghost(0));
        }
        match &around.endpoint {
            None => {
                self.phase = Phase::NoEndpoint;
                (one_action(Action::Publish(ConnectionState::Disconnected)), Ghost(0))
            },
            Some(url) => {
                if at_once {
                    return (self.opens(url.clone()), Ghost(0));
                }
                let delay = self.backoff.next_delay(self.attempt);
                let ghost given = runtime::nanos(delay);
                assert(delay_may_be(self.backoff, Some(self.attempt as nat), given));
                if nanos_of(&delay) == 0 {
                    (self.opens(url.clone()), Ghost(given))
                } else {
                    let mut actions = no_actions();
                    if self.ever_connected {
                        add_action(
                            &mut actions,
                            Action::Publish(
                                ConnectionState::Reconnecting {
                                    attempt: self.attempt,
                                    delay: delay.clone(),
                                },
                            ),
                        );
                    }
                    add_action(&mut actions, Action::Wait(delay));
                    self.phase = Phase::Backoff { url: url.clone() };
                    assert(action::said(actions@) =~= old(self)@.begins(
                        given,
                        around@,
                        at_once,
                    ).actions);
                    (actions, Ghost(given))
                }
            },
        }
    }

    fn fails(&mut self, around: &Surroundings, text: Option<String>) -> (r: (
        Vec<Action>,
        Ghost<nat>,
    ))
        requires
            old(self)@.attempt < u32::MAX,
        ensures
            ({
                let step = old(self)@.fails(
                    r.1@,
                    around@,
                    match text {
                        Some(t) => Some(t@),
                        None => None,
                    },
                );
                &&& final(self)@ == step.after
                &&& action::said(r.0@) == step.actions
                &&& delay_may_be(old(self).strategy(), step.asked, r.1@)
            }),
            final(self).cfg() == old(self).cfg(),
            final(self).strategy() == old(self).strategy(),
    {
        self.attempt = self.attempt + 1;
        match text {
            Some(t) => {
                let mut actions = one_action(Action::Publish(ConnectionState::Error(t)));
                let (more, given) = self.begins(around, false);
                add_actions(&mut actions, more);
                (actions, given)
            },
            None => self.begins(around, false),
        }
    }

    fn drops(&mut self, around: &Surroundings, asked: bool) -> (r: (Vec<Action>, Ghost<nat>))
        ensures
            ({
                let step = old(self)@.drops(r.1@, around@, asked);
                &&& final(self)@ == step.after
                &&& action::said(r.0@) == step.actions
                &&& delay_may_be(old(self).strategy(), step.asked, r.1@)
            }),
            final(self).cfg() == old(self).cfg(),
            final(self).strategy() == old(self).strategy(),
    {
        let mut actions = one_action(Action::Publish(ConnectionState::Disconnected));
        add_action(&mut actions, Action::FailPending);
        assert(action::said(actions@) =~= seq![
            ActionModel::Publish(StateModel::Disconnected),
            ActionModel::FailPending,
        ]);
        let (more, given) = if asked {
            self.attempt = 0;
            self.begins(around, true)
        } else if around.auto_reconnect {
            self.attempt = 1;
            self.begins(around, false)
        } else if around.cancelled {
            (self.stops(), Ghost(0))
        } else {
            self.phase = Phase::Dropped;
            (no_actions(), Ghost(0))
        };
        add_actions(&mut actions, more);
        (actions, given)
    }

    fn halts(&mut self, state: ConnectionState, phase: Phase) -> (r: Vec<Action>)
        ensures
            final(self)@ == old(self)@.halts(state@, phase@).after,
            action::said(r@) == old(self)@.halts(state@, phase@).actions,
            final(self).cfg() == old(self).cfg(),
            final(self).strategy() == old(self).strategy(),
    {
        let mut actions = one_action(Action::Publish(state));
        add_action(&mut actions, Action::FailPending);
        self.phase = phase;
        assert(action::said(actions@) =~= old(self)@.halts(
            state@,
            phase@,
        ).actions);
        actions
    }

    fn led(&mut self, around: &Surroundings, next: Next) -> (r: (Vec<Action>, Ghost<nat>))
        requires
            old(self)@.attempt < u32::MAX,
            handshake::next_wf(next@),
        ensures
            ({
                let step = old(self)@.led(old(self).cfg(), r.1@, around@, next@);
                &&& final(self)@ == step.after
                &&& action::said(r.0@) == step.actions
                &&& delay_may_be(old(self).strategy(), step.asked, r.1@)
            }),
            final(self)@.wf(),
            final(self).cfg() == old(self).cfg(),
            final(self).strategy() == old(self).strategy(),
    {
        match next {
            Next::Going(dialog) => {
                self.phase = Phase::Talking(dialog);
                (no_actions(), Ghost(0))
            },
            Next::Online(link) => {
                self.attempt = 0;
                self.ever_connected = true;
                let mut actions = one_action(Action::Publish(ConnectionState::Online));
                add_action(
                    &mut actions,
                    Action::ArmHeartbeat(self.config.heartbeat_interval.clone()),
                );
                let ghost lm = link@;
                self.phase = Phase::Online(
                    MessageLoop::new(
                        link,
                        self.config.heartbeat_interval.clone(),
                        self.config.heartbeat_timeout.clone(),
                    ),
                );
                assert(action::said(actions@) =~= old(self)@.comes_online(
                    old(self).cfg(),
                    lm,
                ).actions);
                (actions, Ghost(0))
            },
            Next::Failed(text) => self.fails(around, text),
            Next::Mismatch { server } => {
                let state = ConnectionState::VersionMismatch {
                    client: self.config.protocol_version.clone(),
                    server,
                };
                (self.halts(state, Phase::VersionMismatch), Ghost(0))
            },
            Next::Denied => (
                self.halts(ConnectionState::Unauthorized, Phase::Unauthorized),
                Ghost(0),
            ),
        }
    }

    fn commanded(&mut self, around: &Surroundings, cmd: ClientCmd) -> (r: (Vec<Action>, Ghost<nat>))
        requires
            old(self)@.attempt < u32::MAX,
            !(old(self)@.phase is Talking) && !(old(self)@.phase is Online),
            !(old(self)@.phase is Idle) && !(old(self)@.phase is Opening) && !(
            old(self)@.phase is Stopped),
        ensures
            ({
                let step = old(self)@.commanded(r.1@, around@, cmd);
                &&& final(self)@ == step.after
                &&& action::said(r.0@) == step.actions
                &&& delay_may_be(old(self).strategy(), step.asked, r.1@)
            }),
            final(self).cfg() == old(self).cfg(),
            final(self).strategy() == old(self).strategy(),
    {
        match (&self.phase, cmd) {
            (Phase::NoEndpoint, ClientCmd::EndpointChanged) => self.begins(around, false),
            (Phase::NoEndpoint, _) => (no_actions(), Ghost(0)),
            (_, ClientCmd::Reconnect) => {
                self.attempt = 0;
                self.begins(around, true)
            },
            (Phase::Backoff { .. }, ClientCmd::EndpointChanged) => {
                self.attempt = 0;
                self.begins(around, false)
            },
            (Phase::Backoff { .. }, _) => self.begins(around, false),
            (Phase::Unauthorized, ClientCmd::EndpointChanged) => {
                self.attempt = 0;
                self.begins(around, false)
            },
            (Phase::Unauthorized, ClientCmd::WakeUp) => {
                self.attempt = 0;
                self.begins(around, false)
            },
            (Phase::VersionMismatch, ClientCmd::EndpointChanged) => {
                self.attempt = self.attempt + 1;
                self.begins(around, false)
            },
            (Phase::Dropped, ClientCmd::EndpointChanged) => self.begins(around, false),
            _ => (no_actions(), Ghost(0)),
        }
    }

    /// Decides what is done about an event.
    pub fn step(&mut self, around: &Surroundings, event: ClientEvent) -> (r: Vec<Action>)
        requires
            old(self).wf(),
        ensures
            exists|delay: nat, keys: KeyModel|
                {
                    let step = #[trigger] old(self)@.step(
                        old(self).cfg(),
                        delay,
                        around@,
                        event,
                        keys,
                    );
                    &&& keys_may_be(old(self)@, old(self).cfg(), event, keys)
                    &&& delay_may_be(old(self).strategy(), step.asked, delay)
                    &&& final(self)@ == step.after
                    &&& action::said(r@) == step.actions
                },
            final(self)@.wf(),
            final(self).cfg() == old(self).cfg(),
            final(self).strategy() == old(self).strategy(),
    {
        let (actions, Ghost(delay), Ghost(keys)) = self.decides(around, event);
        let ghost step = old(self)@.step(old(self).cfg(), delay, around@, event, keys);
        assert(self@ == step.after);
        actions
    }

    fn decides(&mut self, around: &Surroundings, event: ClientEvent) -> (r: (
        Vec<Action>,
        Ghost<nat>,
        Ghost<KeyModel>,
    ))
        requires
            old(self).wf(),
        ensures
            ({
                let step = old(self)@.step(old(self).cfg(), r.1@, around@, event, r.2@);
                &&& keys_may_be(old(self)@, old(self).cfg(), event, r.2@)
                &&& delay_may_be(old(self).strategy(), step.asked, r.1@)
                &&& final(self)@ == step.after
                &&& action::said(r.0@) == step.actions
            }),
            final(self)@.wf(),
            final(self).cfg() == old(self).cfg(),
            final(self).strategy() == old(self).strategy(),
    {
        let ghost failed = KeyModel::Failed;
        let mut phase = Phase::Stopped;
        std::mem::swap(&mut phase, &mut self.phase);
        match phase {
            Phase::Idle => {
                self.phase = Phase::Idle;
                match event {
                    ClientEvent::Start => {
                        let (actions, delay) = self.begins(around, false);
                        (actions, delay, Ghost(failed))
                    },
                    _ => (no_actions(), Ghost(0), Ghost(failed)),
                }
            },
            Phase::Opening => {
                self.phase = Phase::Opening;
                match event {
                    ClientEvent::Opened => {
                        let (actions, dialog) = Dialog::start(&self.config);
                        self.phase = Phase::Talking(dialog);
                        (actions, Ghost(0), Ghost(failed))
                    },
                    ClientEvent::OpenFailed(text) => {
                        let (actions, delay) = self.fails(around, Some(text));
                        (actions, delay, Ghost(failed))
                    },
                    _ => (no_actions(), Ghost(0), Ghost(failed)),
                }
            },
            Phase::Talking(dialog) => {
                match to_dialog_event(event) {
                    None => {
                        self.phase = Phase::Talking(dialog);
                        (no_actions(), Ghost(0), Ghost(failed))
                    },
                    Some(e) => {
                        let (mut actions, next) = dialog.step(&self.config, e, &mut self.kept);
                        let ghost keys = choose|keys: KeyModel| #[trigger]
                            handshake::may_give(dialog@, old(self).cfg(), e, keys) && ({
                                let step = handshake::dialog_step(
                                    dialog@,
                                    old(self).cfg(),
                                    e,
                                    keys,
                                    old(self)@.kept,
                                );
                                &&& action::said(actions@) == step.actions
                                &&& next@ == step.next
                                &&& self@.kept == step.kept
                            });
                        let ghost mid = self@;
                        let (more, delay) = self.led(around, next);
                        proof {
                            lemma_led_ignores_phase(
                                mid,
                                old(self)@,
                                old(self).cfg(),
                                delay@,
                                around@,
                                next@,
                            );
                        }
                        add_actions(&mut actions, more);
                        (actions, delay, Ghost(keys))
                    },
                }
            },
            Phase::Online(message_loop) => {
                let mut message_loop = message_loop;
                match to_loop_event(event) {
                    None => {
                        self.phase = Phase::Online(message_loop);
                        (no_actions(), Ghost(0), Ghost(failed))
                    },
                    Some(e) => {
                        let (mut actions, down) = message_loop.step(e);
                        if down {
                            let asked = message_loop.reconnect_asked();
                            let (more, delay) = self.drops(around, asked);
                            add_actions(&mut actions, more);
                            (actions, delay, Ghost(failed))
                        } else {
                            self.phase = Phase::Online(message_loop);
                            (actions, Ghost(0), Ghost(failed))
                        }
                    },
                }
            },
            Phase::Stopped => (no_actions(), Ghost(0), Ghost(failed)),
            Phase::Backoff { url } => match event {
                ClientEvent::Waited => (self.opens(url), Ghost(0), Ghost(failed)),
                _ => {
                    self.phase = Phase::Backoff { url };
                    let (actions, delay) = self.waits(around, event);
                    (actions, delay, Ghost(failed))
                },
            },
            other => {
                self.phase = other;
                let (actions, delay) = self.waits(around, event);
                (actions, delay, Ghost(failed))
            },
        }
    }

    fn waits(&mut self, around: &Surroundings, event: ClientEvent) -> (r: (Vec<Action>, Ghost<nat>))
        requires
            old(self).wf(),
            !(event is Waited) || !(old(self)@.phase is Backoff),
            !(old(self)@.phase is Talking) && !(old(self)@.phase is Online),
            !(old(self)@.phase is Idle) && !(old(self)@.phase is Opening) && !(
            old(self)@.phase is Stopped),
        ensures
            ({
                let step = old(self)@.step(
                    old(self).cfg(),
                    r.1@,
                    around@,
                    event,
                    KeyModel::Failed,
                );
                &&& final(self)@ == step.after
                &&& action::said(r.0@) == step.actions
                &&& delay_may_be(old(self).strategy(), step.asked, r.1@)
            }),
            final(self)@.wf(),
            final(self).cfg() == old(self).cfg(),
            final(self).strategy() == old(self).strategy(),
    {
        match event {
            ClientEvent::Cancelled => (self.stops(), Ghost(0)),
            ClientEvent::Command(cmd) => self.commanded(around, cmd),
            _ => (no_actions(), Ghost(0)),
        }
    }
}

/// What the key exchange can give at an event.
pub open spec fn keys_may_be(
    m: ConnectionModel,
    cfg: ConfigModel,
    event: ClientEvent,
    keys: KeyModel,
) -> bool {
    match (m.phase, dialog_event(event)) {
        (PhaseModel::Talking(d), Some(e)) => handshake::may_give(
            d,
            cfg,
            e,
            keys,
        ),
        _ => true,
    }
}

/// The delay is one that the strategy can give for the count of failed attempts that it was asked
/// about.
pub open spec fn delay_may_be<B: BackoffStrategy>(b: B, asked: Option<nat>, delay: nat) -> bool {
    asked matches Some(attempt) ==> exists|d: Duration| #[trigger]
        call_ensures(B::next_delay, (&b, attempt as u32), d) && runtime::nanos(d) == delay
}

/// Where the dialog leads does not rest on the phase.
proof fn lemma_led_ignores_phase(
    a: ConnectionModel,
    m: ConnectionModel,
    cfg: ConfigModel,
    delay: nat,
    around: SurroundingsModel,
    next: NextModel,
)
    requires
        a == (ConnectionModel { phase: a.phase, kept: a.kept, ..m }),
    ensures
        a.led(cfg, delay, around, next) == (ConnectionModel { kept: a.kept, ..m }).led(
            cfg,
            delay,
            around,
            next,
        ),
{
}

/// A client that the server does not accept makes no further attempt by itself: only a command to
/// wake up, to reconnect or to change the endpoint, or the shutdown, lets it leave that state.
pub proof fn law_unauthorized_is_final_without_a_command(
    m: ConnectionModel,
    cfg: ConfigModel,
    delay: nat,
    around: SurroundingsModel,
    event: ClientEvent,
    keys: KeyModel,
)
    requires
        m.phase is Unauthorized,
        !(event is Cancelled),
        !(event matches ClientEvent::Command(cmd) && (cmd is WakeUp || cmd is Reconnect
            || cmd is EndpointChanged)),
    ensures
        m.step(cfg, delay, around, event, keys) == m.stays(),
{
}

/// A client whose version the server does not speak makes no further attempt by itself: only a
/// command to reconnect or to change the endpoint, or the shutdown, lets it leave that state.
pub proof fn law_version_mismatch_is_final_without_a_command(
    m: ConnectionModel,
    cfg: ConfigModel,
    delay: nat,
    around: SurroundingsModel,
    event: ClientEvent,
    keys: KeyModel,
)
    requires
        m.phase is VersionMismatch,
        !(event is Cancelled),
        !(event matches ClientEvent::Command(cmd) && (cmd is Reconnect || cmd is EndpointChanged)),
    ensures
        m.step(cfg, delay, around, event, keys) == m.stays(),
{
}

/// A dropped connection is renewed by itself: the subscribers see `Disconnected`, the pending
/// requests fail, then the subscribers see `Reconnecting` with the count 1 and the delay that the
/// strategy gives for it, which is waited for.
pub proof fn law_drop_leads_to_the_first_reconnect(
    m: ConnectionModel,
    cfg: ConfigModel,
    delay: nat,
    around: SurroundingsModel,
    event: ClientEvent,
    keys: KeyModel,
)
    requires
        m.wf(),
        m.phase matches PhaseModel::Online(l) && (loop_event(event) matches Some(e) && l.step(
            e,
        ).down && !l.step(e).after.reconnect_asked),
        around.auto_reconnect,
        !around.cancelled,
        around.endpoint is Some,
        delay > 0,
    ensures
        ({
            let step = m.step(cfg, delay, around, event, keys);
            &&& step.actions == m.phase->Online_0.step(loop_event(event)->Some_0).actions + seq![
                ActionModel::Publish(StateModel::Disconnected),
                ActionModel::FailPending,
                ActionModel::Publish(StateModel::Reconnecting { attempt: 1, nanos: delay }),
                ActionModel::Wait(delay),
            ]
            &&& step.asked == Some(1nat)
            &&& step.after.phase == (PhaseModel::Backoff { url: around.endpoint->Some_0 })
            &&& step.after.attempt == 1
        }),
{
    let step = m.step(cfg, delay, around, event, keys);
    assert(step.actions =~= m.phase->Online_0.step(loop_event(event)->Some_0).actions + seq![
        ActionModel::Publish(StateModel::Disconnected),
        ActionModel::FailPending,
        ActionModel::Publish(StateModel::Reconnecting { attempt: 1, nanos: delay }),
        ActionModel::Wait(delay),
    ]);
}

/// When a connection ends, no request is left waiting: the pending requests fail.
pub proof fn law_requests_fail_with_the_connection(
    m: ConnectionModel,
    cfg: ConfigModel,
    delay: nat,
    around: SurroundingsModel,
    event: ClientEvent,
    keys: KeyModel,
)
    requires
        m.phase is Online,
        !(m.step(cfg, delay, around, event, keys).after.phase is Online),
    ensures
        m.step(cfg, delay, around, event, keys).actions.contains(ActionModel::FailPending),
{
    let l = m.phase->Online_0;
    let e = loop_event(event)->Some_0;
    let before = l.step(e).actions;
    let step = m.step(cfg, delay, around, event, keys);
    assert(step.actions[before.len() as int + 1]
        == ActionModel::FailPending);
}

/// A client comes online only over an encrypted channel, and only where the application asks for
/// no authentication or has judged the server's response a success.
pub proof fn law_only_authentication_leads_online(
    m: ConnectionModel,
    cfg: ConfigModel,
    delay: nat,
    around: SurroundingsModel,
    event: ClientEvent,
    keys: KeyModel,
)
    requires
        m.wf(),
        !(m.phase is Online),
        m.step(cfg, delay, around, event, keys).after.phase is Online,
    ensures
        m.phase matches PhaseModel::Talking(d) && match d {
            DialogModel::AskingAuth(_) => event matches
                ClientEvent::AuthPayload(None) && m.kept is None,
            DialogModel::JudgingAuth(_) => event matches
                ClientEvent::AuthJudged(AuthOutcome::Success),
            _ => false,
        },
        m.step(cfg, delay, around, event, keys).after.attempt == 0,
{
}

/// The loop ends only when the client is shut down, and says so last.
pub proof fn law_ends_only_when_shut_down(
    m: ConnectionModel,
    cfg: ConfigModel,
    delay: nat,
    around: SurroundingsModel,
    event: ClientEvent,
    keys: KeyModel,
)
    requires
        !(m.phase is Stopped),
        m.step(cfg, delay, around, event, keys).after.phase is Stopped,
    ensures
        event is Cancelled || around.cancelled,
        m.step(cfg, delay, around, event, keys).actions.len() > 0,
        m.step(cfg, delay, around, event, keys).actions.last()
            == ActionModel::Exit,
{
}

/// A command to reconnect starts an attempt at once, whatever delay was running, and starts the
/// count of failed attempts anew.
pub proof fn law_reconnect_is_immediate(
    m: ConnectionModel,
    cfg: ConfigModel,
    delay: nat,
    around: SurroundingsModel,
    keys: KeyModel,
)
    requires
        m.phase is Backoff || m.phase is Unauthorized || m.phase is VersionMismatch
            || m.phase is Dropped || m.phase is Online,
        !around.cancelled,
        around.endpoint is Some,
    ensures
        ({
            let step = m.step(
                cfg,
                delay,
                around,
                ClientEvent::Command(ClientCmd::Reconnect),
                keys,
            );
            let connect = seq![
                ActionModel::Publish(StateModel::Connecting),
                ActionModel::Open(around.endpoint->Some_0),
            ];
            &&& step.after.phase is Opening
            &&& step.after.attempt == 0
            &&& step.actions == if m.phase is Online {
                seq![
                    ActionModel::Close,
                    ActionModel::Publish(StateModel::Disconnected),
                    ActionModel::FailPending,
                ] + connect
            } else {
                connect
            }
        }),
{
    let step = m.step(cfg, delay, around, ClientEvent::Command(ClientCmd::Reconnect), keys);
    if m.phase is Online {
        assert(step.actions =~= seq![
            ActionModel::Close,
            ActionModel::Publish(StateModel::Disconnected),
            ActionModel::FailPending,
            ActionModel::Publish(StateModel::Connecting),
            ActionModel::Open(around.endpoint->Some_0),
        ]);
    }
}

/// Credentials that the application gave for the next attempt are what the next authentication
/// sends, whatever the application would give then.
pub proof fn law_new_credentials_are_sent_next(
    judging: LinkModel,
    asking: LinkModel,
    cfg: ConfigModel,
    kept: Option<Seq<u8>>,
    bytes: Vec<u8>,
    payload: Option<Vec<u8>>,
)
    requires
        link::sealing(
            asking,
            handshake::auth_frame(bytes@),
        ).0 is Some,
    ensures
        ({
            let judged = handshake::outcome_step(
                judging,
                DialogEvent::AuthJudged(AuthOutcome::RetryWithNewPayload(bytes)),
                kept,
            );
            let asked = handshake::credentials_step(
                asking,
                cfg,
                DialogEvent::AuthPayload(payload),
                judged.kept,
            );
            &&& judged.next is Failed
            &&& asked.actions.contains(
                ActionModel::SendPackets(
                    link::sealing(
                        asking,
                        handshake::auth_frame(bytes@),
                    ).0->Some_0,
                ),
            )
            &&& asked.kept is None
        }),
{
    let asked = handshake::credentials_step(
        asking,
        cfg,
        DialogEvent::AuthPayload(payload),
        Some(bytes@),
    );
    assert(asked.actions[1] == ActionModel::SendPackets(
        link::sealing(
            asking,
            handshake::auth_frame(bytes@),
        ).0->Some_0,
    ));
}

/// What a loop does that is started with so many failed attempts behind it.
pub open spec fn started(
    m: ConnectionModel,
    attempt: nat,
    cfg: ConfigModel,
    delay: nat,
    around: SurroundingsModel,
) -> ConnectionStep {
    ConnectionModel { phase: PhaseModel::Idle, attempt, ..m }.step(
        cfg,
        delay,
        around,
        ClientEvent::Start,
        KeyModel::Failed,
    )
}

/// A loop that is started begins an attempt, unless the client is shut down: without an endpoint
/// it shows that it is disconnected and waits for one; else it waits as long as the strategy says
/// for the count of failed attempts, and a client that was online before shows that, and then it
/// connects to the endpoint.
pub proof fn law_start_begins_an_attempt(
    m: ConnectionModel,
    attempt: nat,
    cfg: ConfigModel,
    delay: nat,
    around: SurroundingsModel,
)
    ensures
        ({
            let step = started(m, attempt, cfg, delay, around);
            &&& step.after.attempt == attempt
            &&& step.after.ever_connected == m.ever_connected
            &&& step.after.kept == m.kept
            &&& around.cancelled ==> step.actions == seq![ActionModel::Exit]
                && step.after.phase is Stopped && step.asked is None
            &&& !around.cancelled && around.endpoint is None ==> step.actions == seq![
                ActionModel::Publish(StateModel::Disconnected),
            ] && step.after.phase is NoEndpoint && step.asked is None
            &&& !around.cancelled ==> (around.endpoint matches Some(url) ==> {
                &&& step.asked == Some(attempt)
                &&& delay == 0 ==> step.after.phase is Opening && step.actions == seq![
                    ActionModel::Publish(StateModel::Connecting),
                    ActionModel::Open(url),
                ]
                &&& delay > 0 ==> {
                    &&& step.after.phase == PhaseModel::Backoff { url }
                    &&& step.actions.last() == ActionModel::Wait(delay)
                    &&& !m.ever_connected ==> step.actions.len() == 1
                    &&& m.ever_connected ==> step.actions.len() == 2 && step.actions[0]
                        == ActionModel::Publish(
                        StateModel::Reconnecting { attempt: attempt as u32, nanos: delay },
                    )
                }
            })
        }),
{
}

/// A delay that has run off is followed by the attempt that it was for: the loop connects to the
/// endpoint that was set when the delay began. Elsewhere the end of a delay means nothing.
pub proof fn law_delay_is_followed_by_its_attempt(
    m: ConnectionModel,
    cfg: ConfigModel,
    delay: nat,
    around: SurroundingsModel,
    keys: KeyModel,
)
    ensures
        ({
            let step = m.step(cfg, delay, around, ClientEvent::Waited, keys);
            &&& step.asked is None
            &&& m.phase matches PhaseModel::Backoff { url } ==> step.actions == seq![
                ActionModel::Publish(StateModel::Connecting),
                ActionModel::Open(url),
            ] && step.after == (ConnectionModel { phase: PhaseModel::Opening, ..m })
            &&& !(m.phase is Backoff) ==> step.actions.len() == 0 && step.after == m
        }),
{
}

/// An open connection is greeted, and a connection that cannot be opened is a failed attempt: its
/// text is shown, and the next attempt begins with one more failure counted. Nothing else matters
/// while a connection is being opened.
pub proof fn law_opening_succeeds_or_fails(
    m: ConnectionModel,
    cfg: ConfigModel,
    delay: nat,
    around: SurroundingsModel,
    event: ClientEvent,
    keys: KeyModel,
)
    requires
        m.phase is Opening,
    ensures
        ({
            let step = m.step(cfg, delay, around, event, keys);
            match event {
                ClientEvent::Opened => {
                    &&& step.actions == seq![
                        ActionModel::Publish(StateModel::Handshaking),
                        ActionModel::SendText(cfg.name + " "@ + cfg.version),
                    ]
                    &&& step.asked is None
                    &&& step.after == (ConnectionModel {
                        phase: PhaseModel::Talking(DialogModel::Version),
                        ..m
                    })
                },
                ClientEvent::OpenFailed(text) => {
                    let next = started(m, m.attempt + 1, cfg, delay, around);
                    &&& step.actions == seq![ActionModel::Publish(StateModel::Error(text@))]
                        + next.actions
                    &&& step.asked == next.asked
                    &&& step.after == next.after
                },
                _ => step.actions.len() == 0 && step.asked is None && step.after == m,
            }
        }),
{
    handshake::law_client_greets_first(cfg);
}

/// Every way in which an attempt can fail after the connection is open leads to the next attempt:
/// the text is shown, where there is one, one more failure is counted, and the loop goes on as if
/// it were started with that count.
pub proof fn law_failed_attempt_leads_to_the_next(
    m: ConnectionModel,
    d: DialogModel,
    cfg: ConfigModel,
    delay: nat,
    around: SurroundingsModel,
    event: ClientEvent,
    e: DialogEvent,
    keys: KeyModel,
)
    requires
        m.phase == PhaseModel::Talking(d),
        dialog_event(event) == Some(e),
        handshake::dialog_step(d, cfg, e, keys, m.kept).next is Failed,
    ensures
        ({
            let said = handshake::dialog_step(d, cfg, e, keys, m.kept);
            let step = m.step(cfg, delay, around, event, keys);
            let next = started(
                ConnectionModel { kept: said.kept, ..m },
                m.attempt + 1,
                cfg,
                delay,
                around,
            );
            &&& step.after == next.after
            &&& step.asked == next.asked
            &&& !(step.after.phase is Talking)
            &&& step.actions == said.actions + (match said.next->Failed_0 {
                Some(text) => seq![ActionModel::Publish(StateModel::Error(text))],
                None => Seq::empty(),
            }) + next.actions
        }),
{
    let said = handshake::dialog_step(d, cfg, e, keys, m.kept);
    let step = m.step(cfg, delay, around, event, keys);
    let next = started(
        ConnectionModel { kept: said.kept, ..m },
        m.attempt + 1,
        cfg,
        delay,
        around,
    );
    match said.next->Failed_0 {
        Some(text) => {
            assert(step.actions =~= said.actions + seq![
                ActionModel::Publish(StateModel::Error(text)),
            ] + next.actions);
        },
        None => {
            assert(step.actions =~= said.actions + Seq::empty() + next.actions);
        },
    }
}

/// When the time for the server's response to the credentials is up, the attempt has failed, and
/// so it has when the stream fails, ends or brings anything but a binary message: the client shows
/// that the connection is closed and begins the next attempt, with one more failure counted.
pub proof fn law_missing_response_fails_the_attempt(
    m: ConnectionModel,
    link: LinkModel,
    cfg: ConfigModel,
    delay: nat,
    around: SurroundingsModel,
    event: ClientEvent,
    keys: KeyModel,
)
    requires
        m.phase == PhaseModel::Talking(DialogModel::AwaitingAuth(link)),
        event is TimedOut || event is StreamEnd || event is StreamError || event is SendFailed
            || event is Text || event is OtherMessage,
    ensures
        ({
            let step = m.step(cfg, delay, around, event, keys);
            let next = started(m, m.attempt + 1, cfg, delay, around);
            &&& step.actions == seq![
                ActionModel::Publish(StateModel::Error("connection closed"@)),
            ] + next.actions
            &&& step.after == next.after
            &&& step.after.attempt == m.attempt + 1
            &&& step.asked == next.asked
            &&& !(step.after.phase is Talking)
        }),
{
    let e = dialog_event(event)->Some_0;
    handshake::law_only_a_response_is_awaited(link, cfg, e, keys, m.kept);
    law_failed_attempt_leads_to_the_next(
        m,
        DialogModel::AwaitingAuth(link),
        cfg,
        delay,
        around,
        event,
        e,
        keys,
    );
    let step = m.step(cfg, delay, around, event, keys);
    let next = started(m, m.attempt + 1, cfg, delay, around);
    assert(step.actions =~= seq![ActionModel::Publish(StateModel::Error("connection closed"@))]
        + next.actions);
}

/// While a dialog goes on, the loop does what the dialog asks for and nothing else; what is no
/// event of the dialog means nothing.
pub proof fn law_dialog_goes_on(
    m: ConnectionModel,
    d: DialogModel,
    cfg: ConfigModel,
    delay: nat,
    around: SurroundingsModel,
    event: ClientEvent,
    keys: KeyModel,
)
    requires
        m.phase == PhaseModel::Talking(d),
    ensures
        ({
            let step = m.step(cfg, delay, around, event, keys);
            match dialog_event(event) {
                Some(e) => {
                    let said = handshake::dialog_step(d, cfg, e, keys, m.kept);
                    said.next matches NextModel::Going(after) ==> step.actions == said.actions
                        && step.asked is None && step.after == (ConnectionModel {
                        phase: PhaseModel::Talking(after),
                        kept: said.kept,
                        ..m
                    })
                },
                None => step.actions.len() == 0 && step.asked is None && step.after == m,
            }
        }),
{
    if let Some(e) = dialog_event(event) {
        let said = handshake::dialog_step(d, cfg, e, keys, m.kept);
        assert(said.actions + Seq::<ActionModel>::empty() =~= said.actions);
    }
}

/// What each end of a dialog makes of the loop.
proof fn lemma_dialog_ends(
    m: ConnectionModel,
    cfg: ConfigModel,
    delay: nat,
    around: SurroundingsModel,
    next: NextModel,
)
    ensures
        ({
            let led = m.led(cfg, delay, around, next);
            match next {
                NextModel::Online(link) => {
                    &&& led.actions == seq![
                        ActionModel::Publish(StateModel::Online),
                        ActionModel::ArmHeartbeat(cfg.interval),
                    ]
                    &&& led.asked is None
                    &&& led.after.attempt == 0
                    &&& led.after.ever_connected
                    &&& led.after.kept == m.kept
                    &&& led.after.phase matches PhaseModel::Online(l) && l.link == link
                        && l.queue.total() == 0 && !l.waiting_for_pong && !l.reconnect_asked
                        && l.interval == cfg.interval && l.timeout == cfg.timeout
                },
                NextModel::Mismatch { server } => {
                    &&& led.actions == seq![
                        ActionModel::Publish(
                            StateModel::VersionMismatch { client: cfg.version, server },
                        ),
                        ActionModel::FailPending,
                    ]
                    &&& led.asked is None
                    &&& led.after == (ConnectionModel { phase: PhaseModel::VersionMismatch, ..m })
                },
                NextModel::Denied => {
                    &&& led.actions == seq![
                        ActionModel::Publish(StateModel::Unauthorized),
                        ActionModel::FailPending,
                    ]
                    &&& led.asked is None
                    &&& led.after == (ConnectionModel { phase: PhaseModel::Unauthorized, ..m })
                },
                _ => true,
            }
        }),
{
}

/// A dialog that succeeds makes the client online, which it shows; the heartbeat begins, nothing
/// waits to be sent, and no failure is counted any more. Another version and rejected credentials
/// are shown, fail the pending requests and stop the loop's attempts; both versions are shown.
pub proof fn law_dialog_ends_in_a_state(
    m: ConnectionModel,
    d: DialogModel,
    cfg: ConfigModel,
    delay: nat,
    around: SurroundingsModel,
    event: ClientEvent,
    e: DialogEvent,
    keys: KeyModel,
)
    requires
        m.phase == PhaseModel::Talking(d),
        dialog_event(event) == Some(e),
    ensures
        ({
            let said = handshake::dialog_step(d, cfg, e, keys, m.kept);
            let step = m.step(cfg, delay, around, event, keys);
            match said.next {
                NextModel::Online(link) => {
                    &&& step.actions == said.actions + seq![
                        ActionModel::Publish(StateModel::Online),
                        ActionModel::ArmHeartbeat(cfg.interval),
                    ]
                    &&& step.asked is None
                    &&& step.after.attempt == 0
                    &&& step.after.ever_connected
                    &&& step.after.kept == said.kept
                    &&& step.after.phase matches PhaseModel::Online(l) && l.link == link
                        && l.queue.total() == 0 && !l.waiting_for_pong && !l.reconnect_asked
                        && l.interval == cfg.interval && l.timeout == cfg.timeout
                },
                NextModel::Mismatch { server } => {
                    &&& step.actions == said.actions + seq![
                        ActionModel::Publish(
                            StateModel::VersionMismatch { client: cfg.version, server },
                        ),
                        ActionModel::FailPending,
                    ]
                    &&& step.asked is None
                    &&& step.after == (ConnectionModel {
                        phase: PhaseModel::VersionMismatch,
                        kept: said.kept,
                        ..m
                    })
                },
                NextModel::Denied => {
                    &&& step.actions == said.actions + seq![
                        ActionModel::Publish(StateModel::Unauthorized),
                        ActionModel::FailPending,
                    ]
                    &&& step.asked is None
                    &&& step.after == (ConnectionModel {
                        phase: PhaseModel::Unauthorized,
                        kept: said.kept,
                        ..m
                    })
                },
                _ => true,
            }
        }),
{
    let said = handshake::dialog_step(d, cfg, e, keys, m.kept);
    lemma_dialog_ends(
        ConnectionModel { kept: said.kept, ..m },
        cfg,
        delay,
        around,
        said.next,
    );
}

/// A command where the loop waits for one. Without an endpoint only a change of it counts. During a
/// delay every command ends the delay, and a new endpoint starts the count anew. Credentials that
/// were rejected are tried again with a new endpoint or when new credentials are there, with no
/// failure counted; another version is tried again with a new endpoint, with one more failure
/// counted, and so is a dropped connection, with the count as it is. Frames are not sent from
/// here.
pub proof fn law_waiting_loop_heeds_commands(
    m: ConnectionModel,
    cfg: ConfigModel,
    delay: nat,
    around: SurroundingsModel,
    cmd: ClientCmd,
    keys: KeyModel,
)
    requires
        m.phase is NoEndpoint || m.phase is Backoff || m.phase is Unauthorized
            || m.phase is VersionMismatch || m.phase is Dropped,
        !(cmd is Reconnect) || m.phase is NoEndpoint,
    ensures
        ({
            let step = m.step(cfg, delay, around, ClientEvent::Command(cmd), keys);
            let begun = |count: nat|
                {
                    let next = started(m, count, cfg, delay, around);
                    &&& step.actions == next.actions
                    &&& step.asked == next.asked
                    &&& step.after == next.after
                };
            let ignored = step.actions.len() == 0 && step.asked is None && step.after == m;
            &&& cmd is EndpointChanged ==> begun(
                if m.phase is Backoff || m.phase is Unauthorized {
                    0
                } else if m.phase is VersionMismatch {
                    m.attempt + 1
                } else {
                    m.attempt
                },
            )
            &&& cmd is WakeUp && m.phase is Unauthorized ==> begun(0)
            &&& (cmd is WakeUp || cmd is Send) && m.phase is Backoff ==> begun(m.attempt)
            &&& cmd is WakeUp && !(m.phase is Backoff || m.phase is Unauthorized) ==> ignored
            &&& cmd is Send && !(m.phase is Backoff) ==> ignored
            &&& cmd is Reconnect ==> ignored
        }),
{
}

/// A client that is shut down ends its loop wherever the loop waits, and a loop that has ended does
/// nothing any more. A loop that has not begun only heeds its start.
pub proof fn law_shutdown_ends_the_loop(
    m: ConnectionModel,
    cfg: ConfigModel,
    delay: nat,
    around: SurroundingsModel,
    event: ClientEvent,
    keys: KeyModel,
)
    ensures
        ({
            let step = m.step(cfg, delay, around, event, keys);
            let ignored = step.actions.len() == 0 && step.asked is None && step.after == m;
            &&& m.phase is Stopped || (m.phase is Idle && !(event is Start)) ==> ignored
            &&& event is Cancelled && (m.phase is NoEndpoint || m.phase is Backoff
                || m.phase is Unauthorized || m.phase is VersionMismatch || m.phase is Dropped)
                ==> step.actions == seq![ActionModel::Exit] && step.after.phase is Stopped
            &&& !(event is Cancelled || event is Command || event is Waited) && (
            m.phase is NoEndpoint || m.phase is Backoff || m.phase is Unauthorized
                || m.phase is VersionMismatch || m.phase is Dropped) ==> ignored
        }),
{
}

/// Another endpoint takes an online client's connection down: it is closed, the subscribers see
/// `Disconnected`, the pending requests fail, and the client is not online any more. It goes on as
/// a connection that dropped: by itself, to the endpoint that is set by then, as after one failed
/// attempt, or not at all where it is not to reconnect by itself.
pub proof fn law_endpoint_change_takes_the_connection_down(
    m: ConnectionModel,
    cfg: ConfigModel,
    delay: nat,
    around: SurroundingsModel,
    keys: KeyModel,
)
    requires
        m.phase is Online,
    ensures
        ({
            let step = m.step(
                cfg,
                delay,
                around,
                ClientEvent::Command(ClientCmd::EndpointChanged),
                keys,
            );
            let first = seq![
                ActionModel::Close,
                ActionModel::Publish(StateModel::Disconnected),
                ActionModel::FailPending,
            ];
            let next = started(m, 1, cfg, delay, around);
            let renewing = m.phase->Online_0.reconnect_asked;
            &&& first.is_prefix_of(step.actions)
            &&& !(step.after.phase is Online)
            &&& around.auto_reconnect && !renewing ==> step.actions == first + next.actions
                && step.asked == next.asked && step.after == next.after
            &&& around.auto_reconnect && !around.cancelled ==> match around.endpoint {
                Some(url) => step.after.phase == PhaseModel::Backoff { url } || (
                step.after.phase is Opening && step.actions.last() == ActionModel::Open(url)),
                None => step.after.phase is NoEndpoint,
            }
            &&& !around.auto_reconnect && !around.cancelled && !renewing ==> step.actions == first && step.after
                == (ConnectionModel { phase: PhaseModel::Dropped, ..m })
            &&& !around.auto_reconnect && around.cancelled ==> step.actions == first.push(
                ActionModel::Exit,
            ) && step.after.phase is Stopped
        }),
{
    let l = m.phase->Online_0;
    message_loop::law_renewal_takes_the_connection_down(l);
    let event = ClientEvent::Command(ClientCmd::EndpointChanged);
    let step = m.step(cfg, delay, around, event, keys);
    let first = seq![
        ActionModel::Close,
        ActionModel::Publish(StateModel::Disconnected),
        ActionModel::FailPending,
    ];
    let next = started(m, 1, cfg, delay, around);
    assert(first.is_prefix_of(step.actions));
    if l.reconnect_asked {
        if !around.cancelled && around.endpoint is Some {
            assert(step.actions.last() == ActionModel::Open(around.endpoint->Some_0));
        }
        if around.cancelled {
            assert(step.actions =~= first.push(ActionModel::Exit));
        }
    } else if around.auto_reconnect {
        assert(step.actions =~= first + next.actions);
        if !around.cancelled && around.endpoint is Some && delay == 0 {
            assert(next.actions.last() == ActionModel::Open(around.endpoint->Some_0));
        }
    } else if around.cancelled {
        assert(step.actions =~= first.push(ActionModel::Exit));
    } else {
        assert(step.actions =~= first);
    }
}

/// However a connection ends, an online client is then not online any more, says so and fails the
/// pending requests. It connects again at once where that was asked for; else, where it is to do so
/// by itself, as after one failed attempt; and else not before a command comes.
pub proof fn law_ended_connection_is_renewed(
    m: ConnectionModel,
    l: LoopModel,
    cfg: ConfigModel,
    delay: nat,
    around: SurroundingsModel,
    event: ClientEvent,
    e: LoopEvent,
    keys: KeyModel,
)
    requires
        m.phase == PhaseModel::Online(l),
        loop_event(event) == Some(e),
        l.step(e).down,
    ensures
        ({
            let step = m.step(cfg, delay, around, event, keys);
            let asked = l.step(e).after.reconnect_asked;
            let shown = l.step(e).actions + seq![
                ActionModel::Publish(StateModel::Disconnected),
                ActionModel::FailPending,
            ];
            let next = started(m, 1, cfg, delay, around);
            &&& !(step.after.phase is Online)
            &&& asked && !around.cancelled ==> step.after.attempt == 0 && step.asked is None
                && match around.endpoint {
                Some(url) => step.actions == shown + seq![
                    ActionModel::Publish(StateModel::Connecting),
                    ActionModel::Open(url),
                ] && step.after.phase is Opening,
                None => step.actions == shown + seq![
                    ActionModel::Publish(StateModel::Disconnected),
                ] && step.after.phase is NoEndpoint,
            }
            &&& !asked && around.auto_reconnect ==> step.actions == shown + next.actions
                && step.asked == next.asked && step.after == next.after
            &&& !asked && !around.auto_reconnect && !around.cancelled ==> step.actions == shown
                && step.asked is None && step.after == (ConnectionModel {
                phase: PhaseModel::Dropped,
                ..m
            })
            &&& around.cancelled ==> step.actions == shown + seq![ActionModel::Exit]
                && step.after.phase is Stopped
        }),
{
    let step = m.step(cfg, delay, around, event, keys);
    let shown = l.step(e).actions + seq![
        ActionModel::Publish(StateModel::Disconnected),
        ActionModel::FailPending,
    ];
    let next = started(m, 1, cfg, delay, around);
    let tail = step.actions.skip(shown.len() as int);
    assert(step.actions =~= shown + tail);
    if around.cancelled {
        assert(tail =~= seq![ActionModel::Exit]);
    } else if l.step(e).after.reconnect_asked {
        match around.endpoint {
            Some(url) => {
                assert(tail =~= seq![
                    ActionModel::Publish(StateModel::Connecting),
                    ActionModel::Open(url),
                ]);
            },
            None => {
                assert(tail =~= seq![ActionModel::Publish(StateModel::Disconnected)]);
            },
        }
    } else if around.auto_reconnect {
        assert(tail =~= next.actions);
    } else {
        assert(tail =~= Seq::empty());
        assert(shown + Seq::<ActionModel>::empty() =~= shown);
    }
}

/// While a connection lasts, the loop does what the message loop asks for and nothing else; what is
/// no event of the message loop means nothing. Every message that is not binary ends the
/// connection, and so do its loss and the shutdown.
pub proof fn law_connection_lasts(
    m: ConnectionModel,
    l: LoopModel,
    cfg: ConfigModel,
    delay: nat,
    around: SurroundingsModel,
    event: ClientEvent,
    keys: KeyModel,
)
    requires
        m.phase == PhaseModel::Online(l),
    ensures
        ({
            let step = m.step(cfg, delay, around, event, keys);
            &&& match loop_event(event) {
                Some(e) => !l.step(e).down ==> step.actions == l.step(e).actions
                    && step.asked is None && step.after == (ConnectionModel {
                    phase: PhaseModel::Online(l.step(e).after),
                    ..m
                }),
                None => step.actions.len() == 0 && step.asked is None && step.after == m,
            }
            &&& event is Text || event is OtherMessage || event is StreamError || event is StreamEnd
                || event is SendFailed || event is Cancelled ==> !(step.after.phase is Online)
                && step.actions.len() > 1 && step.actions[0] == ActionModel::Publish(
                StateModel::Disconnected,
            ) && step.actions[1] == ActionModel::FailPending
        }),
{
}

/// Each event reaches the part of the client that it is for, as it came.
pub proof fn law_events_are_passed_on(event: ClientEvent)
    ensures
        event matches ClientEvent::Text(t) ==> dialog_event(event) == Some(DialogEvent::Text(t)),
        event matches ClientEvent::Binary(b) ==> dialog_event(event) == Some(
            DialogEvent::Binary(b),
        ) && loop_event(event) == Some(LoopEvent::Binary(b)),
        event is OtherMessage ==> dialog_event(event) == Some(DialogEvent::OtherMessage),
        event matches ClientEvent::StreamError(t) ==> dialog_event(event) == Some(
            DialogEvent::StreamError(t),
        ),
        event is StreamEnd ==> dialog_event(event) == Some(DialogEvent::StreamEnd),
        event matches ClientEvent::SendFailed(t) ==> dialog_event(event) == Some(
            DialogEvent::SendFailed(t),
        ) && loop_event(event) == Some(LoopEvent::SendFailed),
        event matches ClientEvent::AuthPayload(p) ==> dialog_event(event) == Some(
            DialogEvent::AuthPayload(p),
        ),
        event matches ClientEvent::AuthJudged(o) ==> dialog_event(event) == Some(
            DialogEvent::AuthJudged(o),
        ),
        event is TimedOut ==> dialog_event(event) == Some(DialogEvent::TimedOut)
            && loop_event(event) is None,
        event is Text || event is OtherMessage || event is StreamError || event is StreamEnd
            ==> loop_event(event) == Some(LoopEvent::NoBinary),
        event matches ClientEvent::Command(c) ==> loop_event(event) == Some(LoopEvent::Command(c))
            && dialog_event(event) is None,
        event matches ClientEvent::Taken(c) ==> loop_event(event) == Some(LoopEvent::Taken(c))
            && dialog_event(event) is None,
        event is HeartbeatDue ==> loop_event(event) == Some(LoopEvent::HeartbeatDue)
            && dialog_event(event) is None,
        event is Cancelled ==> loop_event(event) == Some(LoopEvent::Cancelled) && dialog_event(
            event,
        ) is None,
        event is Start || event is Opened || event is OpenFailed || event is Waited
            ==> dialog_event(event) is None && loop_event(event) is None,
        event is AuthPayload || event is AuthJudged ==> loop_event(event) is None,
{
}

/// A new loop has not begun, counts no failed attempt, was never online and keeps no credentials.
pub proof fn law_new_loop_counts_no_failure<B: BackoffStrategy>(
    config: WsClientConfig,
    backoff: B,
    r: ConnectionLoop<B>,
)
    requires
        ConnectionLoop::<B>::new.ensures((config, backoff), r),
    ensures
        r@.phase is Idle,
        r@.attempt == 0,
        !r@.ever_connected,
        r@.kept is None,
        r.cfg() == config@,
        r.strategy() == backoff,
{
}

/// The delay before an attempt is the one that the strategy gives for the count of failed attempts.
pub proof fn law_delay_is_what_the_strategy_says(
    constant: ConstantBackoff,
    linear: LinearBackoff,
    exponential: ExponentialBackoff,
    attempt: u32,
    delay: nat,
)
    ensures
        delay_may_be(constant, Some(attempt as nat), delay) ==> delay == constant.delay(
            attempt as nat,
        ),
        delay_may_be(linear, Some(attempt as nat), delay) ==> delay == linear.delay(
            attempt as nat,
        ),
        delay_may_be(exponential, Some(attempt as nat), delay) ==> delay == exponential.delay(
            attempt as nat,
        ),
{
}

} // verus!
