//! The connection loop of a client with several endpoints: each is tried in turn, with growing
//! pauses between the rounds.
use vstd::prelude::*;

use crate::auth::AuthOutcome;
use crate::endpoint;
use crate::endpoint::{EndpointRegistry, EntryModel, RegistryModel};
use crate::runtime::duration_of;
use crate::scheduler::Scheduled;
use crate::state::{ConnectionState, StateModel};
use crate::text;
use crate::ws::client::{action, connection_loop, handshake};
use crate::ws::client::action::{
    add_action, add_actions, no_actions, one_action, Action, ActionModel,
};
use crate::ws::client::cmd::ClientCmd;
use crate::ws::client::config::{ConfigModel, WsClientConfig};
use crate::ws::client::connection_loop::{to_dialog_event, to_loop_event, ClientEvent};
use crate::ws::client::handshake::{Dialog, DialogEvent, DialogModel, Next, NextModel};
use crate::ws::client::message_loop::{LoopEvent, LoopModel, MessageLoop};
use crate::ws::keys::KeyModel;
use crate::ws::link::LinkModel;

verus! {

/// How often an empty registry is looked at, and the first pause between two rounds, in
/// milliseconds.
pub const FIRST_PAUSE: u64 = 500;

/// The longest pause between two rounds, in milliseconds.
pub const LONGEST_PAUSE: u64 = 60_000;

/// Where the loop stands.
pub enum FailoverPhase {
    /// Not started.
    Idle,
    /// No endpoint is registered.
    NoEndpoints,
    /// The WS connection to an endpoint is being opened.
    Opening,
    /// The client is on its way to being online.
    Talking(Dialog),
    /// The client is online.
    Online(MessageLoop),
    /// The server speaks another version.
    VersionMismatch,
    /// The server does not accept the credentials.
    Unauthorized,
    /// A pause after a round without success runs.
    Resting,
}

/// The model of a `FailoverPhase`.
pub enum FailoverPhaseModel {
    Idle,
    NoEndpoints,
    Opening,
    Talking(DialogModel),
    Online(LoopModel),
    VersionMismatch,
    Unauthorized,
    Resting,
}

impl View for FailoverPhase {
    type V = FailoverPhaseModel;

    open spec fn view(&self) -> FailoverPhaseModel {
        match *self {
            FailoverPhase::Idle => FailoverPhaseModel::Idle,
            FailoverPhase::NoEndpoints => FailoverPhaseModel::NoEndpoints,
            FailoverPhase::Opening => FailoverPhaseModel::Opening,
            FailoverPhase::Talking(dialog) => FailoverPhaseModel::Talking(dialog@),
            FailoverPhase::Online(message_loop) => FailoverPhaseModel::Online(message_loop@),
            FailoverPhase::VersionMismatch => FailoverPhaseModel::VersionMismatch,
            FailoverPhase::Unauthorized => FailoverPhaseModel::Unauthorized,
            FailoverPhase::Resting => FailoverPhaseModel::Resting,
        }
    }
}

/// The state of the loop.
pub struct FailoverLoop {
    config: WsClientConfig,
    phase: FailoverPhase,
    pause: u64,
    urls: Vec<(u128, String)>,
    next: usize,
    kept: Option<Vec<u8>>,
}

/// What a loop holds.
pub struct FailoverModel {
    /// Where it stands.
    pub phase: FailoverPhaseModel,
    /// The pause after this round, in milliseconds.
    pub pause: nat,
    /// The endpoints of this round.
    pub urls: Seq<(u128, Seq<char>)>,
    /// How many of them were tried.
    pub next: nat,
    /// Credentials for the next attempt.
    pub kept: Option<Seq<u8>>,
}

/// What a loop does about an event, and the endpoint that the registry remembers then.
pub struct FailoverStep {
    pub actions: Seq<ActionModel>,
    pub after: FailoverModel,
    pub last: Option<u128>,
}

/// The IDs and URLs of some endpoints.
pub open spec fn targets(entries: Seq<EntryModel>) -> Seq<(u128, Seq<char>)> {
    Seq::new(entries.len(), |i: int| (entries[i].id, entries[i].url))
}

/// The IDs and URLs in a list.
pub open spec fn list_targets(list: Seq<(u128, String)>) -> Seq<(u128, Seq<char>)> {
    Seq::new(list.len(), |i: int| (list[i].0, list[i].1@))
}

/// A wait of so many milliseconds.
pub open spec fn wait_millis(ms: nat) -> ActionModel {
    ActionModel::Wait(ms * 1_000_000)
}

fn wait_for(ms: u64) -> (r: Action)
    requires
        ms <= LONGEST_PAUSE,
    ensures
        r@ == wait_millis(ms as nat),
{
    Action::Wait(duration_of(ms as u128 * 1_000_000))
}

impl View for FailoverLoop {
    type V = FailoverModel;

    closed spec fn view(&self) -> FailoverModel {
        FailoverModel {
            phase: self.phase@,
            pause: self.pause as nat,
            urls: list_targets(self.urls@),
            next: self.next as nat,
            kept: handshake::bytes_of(self.kept),
        }
    }
}

impl FailoverModel {
    /// The dialog or message loop is sound and belongs to an endpoint of the round, and the pause
    /// keeps to its limit.
    pub open spec fn wf(self) -> bool {
        &&& FIRST_PAUSE <= self.pause <= LONGEST_PAUSE
        &&& self.next <= self.urls.len()
        &&& match self.phase {
            FailoverPhaseModel::Opening => self.next > 0,
            FailoverPhaseModel::Talking(d) => self.next > 0 && d.wf(),
            FailoverPhaseModel::Online(l) => self.next > 0 && l.wf(),
            _ => true,
        }
    }

    /// The loop in another phase.
    pub open spec fn at(self, phase: FailoverPhaseModel) -> FailoverModel {
        FailoverModel { phase, ..self }
    }

    /// Nothing happens.
    pub open spec fn stays(self, last: Option<u128>) -> FailoverStep {
        FailoverStep { actions: Seq::empty(), after: self, last }
    }

    /// A round without success: the pending requests fail, and a pause begins.
    pub open spec fn rests(self, last: Option<u128>) -> FailoverStep {
        FailoverStep {
            actions: seq![
                ActionModel::Publish(StateModel::Disconnected),
                ActionModel::FailPending,
                wait_millis(self.pause),
            ],
            after: self.at(FailoverPhaseModel::Resting),
            last,
        }
    }

    /// The next endpoint of the round is tried; behind the last one a pause begins.
    pub open spec fn tries(self, last: Option<u128>) -> FailoverStep {
        if self.next < self.urls.len() {
            FailoverStep {
                actions: seq![
                    ActionModel::Publish(StateModel::Connecting),
                    ActionModel::Open(self.urls[self.next as int].1),
                ],
                after: FailoverModel {
                    phase: FailoverPhaseModel::Opening,
                    next: self.next + 1,
                    ..self
                },
                last,
            }
        } else {
            self.rests(last)
        }
    }

    /// A new round, over the endpoints in the registry's order; without any the loop waits.
    pub open spec fn begins(self, registry: RegistryModel) -> FailoverStep {
        if registry.entries.len() == 0 {
            FailoverStep {
                actions: seq![wait_millis(FIRST_PAUSE as nat)],
                after: self.at(FailoverPhaseModel::NoEndpoints),
                last: registry.last,
            }
        } else {
            FailoverModel {
                urls: targets(endpoint::order(registry)),
                next: 0,
                ..self
            }.tries(registry.last)
        }
    }

    /// The end of a pause: the next one is twice as long, up to the limit, and a round begins.
    pub open spec fn wakes(self, registry: RegistryModel) -> FailoverStep {
        let doubled = self.pause * 2;
        FailoverModel {
            pause: if doubled <= LONGEST_PAUSE {
                doubled
            } else {
                LONGEST_PAUSE as nat
            },
            ..self
        }.begins(registry)
    }

    /// The connection dropped: the pending requests fail, and a new round begins at once.
    pub open spec fn drops(self, registry: RegistryModel) -> FailoverStep {
        let next = self.begins(registry);
        FailoverStep {
            actions: seq![
                ActionModel::Publish(StateModel::Disconnected),
                ActionModel::FailPending,
            ] + next.actions,
            ..next
        }
    }

    /// The client comes online: the endpoint is remembered, and the pauses start anew.
    pub open spec fn comes_online(
        self,
        cfg: ConfigModel,
        link: LinkModel,
    ) -> FailoverStep {
        FailoverStep {
            actions: seq![
                ActionModel::Publish(StateModel::Online),
                ActionModel::ArmHeartbeat(cfg.interval),
            ],
            after: FailoverModel {
                phase: FailoverPhaseModel::Online(
                    LoopModel {
                        link,
                        queue: Scheduled::fresh(),
                        waiting_for_pong: false,
                        reconnect_asked: false,
                        interval: cfg.interval,
                        timeout: cfg.timeout,
                    },
                ),
                pause: FIRST_PAUSE as nat,
                ..self
            },
            last: Some(self.urls[self.next - 1].0),
        }
    }

    /// Where the dialog leads: a failure to the next endpoint; another version and rejected
    /// credentials stop the trying until a command comes.
    pub open spec fn led(
        self,
        cfg: ConfigModel,
        last: Option<u128>,
        next: NextModel,
    ) -> FailoverStep {
        match next {
            NextModel::Going(d) => self.at(FailoverPhaseModel::Talking(d)).stays(last),
            NextModel::Online(link) => self.comes_online(cfg, link),
            NextModel::Failed(_) => self.tries(last),
            NextModel::Mismatch { server } => FailoverStep {
                actions: seq![
                    ActionModel::Publish(
                        StateModel::VersionMismatch { client: cfg.version, server },
                    ),
                    wait_millis(FIRST_PAUSE as nat),
                ],
                after: self.at(FailoverPhaseModel::VersionMismatch),
                last,
            },
            NextModel::Denied => FailoverStep {
                actions: seq![
                    ActionModel::Publish(StateModel::Unauthorized),
                    ActionModel::FailPending,
                ],
                after: self.at(FailoverPhaseModel::Unauthorized),
                last,
            },
        }
    }

    /// What is done about an event, given what the key exchange gave.
    pub open spec fn step(
        self,
        cfg: ConfigModel,
        registry: RegistryModel,
        event: ClientEvent,
        keys: KeyModel,
    ) -> FailoverStep {
        let last = registry.last;
        match self.phase {
            FailoverPhaseModel::Idle => if event is Start {
                self.begins(registry)
            } else {
                self.stays(last)
            },
            FailoverPhaseModel::NoEndpoints => if event is Waited || event is Command {
                self.begins(registry)
            } else {
                self.stays(last)
            },
            FailoverPhaseModel::Resting => if event is Waited || event is Command {
                self.wakes(registry)
            } else {
                self.stays(last)
            },
            FailoverPhaseModel::VersionMismatch => match event {
                ClientEvent::Command(ClientCmd::EndpointChanged | ClientCmd::Reconnect) =>
                    self.rests(last),
                ClientEvent::Command(_) | ClientEvent::Waited => FailoverStep {
                    actions: seq![wait_millis(FIRST_PAUSE as nat)],
                    after: self,
                    last,
                },
                _ => self.stays(last),
            },
            FailoverPhaseModel::Unauthorized => match event {
                ClientEvent::Command(ClientCmd::Send { .. }) => self.stays(last),
                ClientEvent::Command(_) => self.begins(registry),
                _ => self.stays(last),
            },
            FailoverPhaseModel::Opening => match event {
                ClientEvent::Opened => FailoverStep {
                    actions: handshake::greeting(cfg),
                    after: self.at(FailoverPhaseModel::Talking(DialogModel::Version)),
                    last,
                },
                ClientEvent::OpenFailed(text) => {
                    let next = self.tries(last);
                    FailoverStep {
                        actions: seq![
                            ActionModel::Publish(StateModel::Error(text@)),
                        ] + next.actions,
                        ..next
                    }
                },
                _ => self.stays(last),
            },
            FailoverPhaseModel::Talking(d) => match
                connection_loop::dialog_event(event) {
                Some(e) => {
                    let step = handshake::dialog_step(
                        d,
                        cfg,
                        e,
                        keys,
                        self.kept,
                    );
                    let led = FailoverModel { kept: step.kept, ..self }.led(cfg, last, step.next);
                    FailoverStep { actions: step.actions + led.actions, ..led }
                },
                None => self.stays(last),
            },
            FailoverPhaseModel::Online(l) => match connection_loop::loop_event(event) {
                Some(e) => {
                    let step = l.step(e);
                    if step.down {
                        let dropped = self.drops(registry);
                        FailoverStep { actions: step.actions + dropped.actions, ..dropped }
                    } else {
                        FailoverStep {
                            actions: step.actions,
                            after: self.at(FailoverPhaseModel::Online(step.after)),
                            last,
                        }
                    }
                },
                None => self.stays(last),
            },
        }
    }
}

/// What the key exchange can give at an event.
pub open spec fn keys_may_be(
    m: FailoverModel,
    cfg: ConfigModel,
    event: ClientEvent,
    keys: KeyModel,
) -> bool {
    match (m.phase, connection_loop::dialog_event(event)) {
        (FailoverPhaseModel::Talking(d), Some(e)) => handshake::may_give(
            d,
            cfg,
            e,
            keys,
        ),
        _ => true,
    }
}

impl FailoverLoop {
    /// The configuration that the loop was made with.
    pub closed spec fn cfg(&self) -> ConfigModel {
        self.config@
    }

    /// A loop that is not started yet.
    pub fn new(config: WsClientConfig) -> (r: Self)
        requires
            config@.wf(),
        ensures
            r@.wf(),
            r.cfg() == config@,
            r@ == (FailoverModel {
                phase: FailoverPhaseModel::Idle,
                pause: FIRST_PAUSE as nat,
                urls: Seq::empty(),
                next: 0,
                kept: None,
            }),
    {
        let r = FailoverLoop {
            config,
            phase: FailoverPhase::Idle,
            pause: FIRST_PAUSE,
            urls: Vec::new(),
            next: 0,
            kept: None,
        };
        assert(r@.urls =~= Seq::empty());
        r
    }

    /// Whether the loop takes commands at the moment; else they wait.
    pub fn takes_commands(&self) -> (r: bool)
        ensures
            r == !(self@.phase is Idle || self@.phase is Opening || self@.phase is Talking),
    {
        match &self.phase {
            FailoverPhase::Idle | FailoverPhase::Opening | FailoverPhase::Talking(_) => false,
            _ => true,
        }
    }

    fn rests(&mut self) -> (r: Vec<Action>)
        requires
            old(self)@.pause <= LONGEST_PAUSE,
        ensures
            final(self)@ == old(self)@.rests(None).after,
            action::said(r@) == old(self)@.rests(None).actions,
            final(self).cfg() == old(self).cfg(),
    {
        let mut actions = one_action(Action::Publish(ConnectionState::Disconnected));
        add_action(&mut actions, Action::FailPending);
        add_action(&mut actions, wait_for(self.pause));
        self.phase = FailoverPhase::Resting;
        assert(action::said(actions@) =~= old(self)@.rests(None).actions);
        actions
    }

    fn tries(&mut self) -> (r: Vec<Action>)
        requires
            FIRST_PAUSE <= old(self)@.pause <= LONGEST_PAUSE,
            old(self)@.next <= old(self)@.urls.len(),
        ensures
            final(self)@ == old(self)@.tries(None).after,
            final(self)@.wf(),
            action::said(r@) == old(self)@.tries(None).actions,
            final(self).cfg() == old(self).cfg(),
    {
        if self.next < self.urls.len() {
            let url = self.urls[self.next].1.clone();
            let mut actions = one_action(Action::Publish(ConnectionState::Connecting));
            add_action(&mut actions, Action::Open(url));
            self.next = self.next + 1;
            self.phase = FailoverPhase::Opening;
            assert(action::said(actions@) =~= old(self)@.tries(None).actions);
            actions
        } else {
            self.rests()
        }
    }

    fn begins(&mut self, registry: &EndpointRegistry) -> (r: Vec<Action>)
        requires
            FIRST_PAUSE <= old(self)@.pause <= LONGEST_PAUSE,
            old(self)@.next <= old(self)@.urls.len(),
        ensures
            final(self)@ == old(self)@.begins(registry@).after,
            final(self)@.wf(),
            action::said(r@) == old(self)@.begins(registry@).actions,
            final(self).cfg() == old(self).cfg(),
    {
        if registry.is_empty() {
            self.phase = FailoverPhase::NoEndpoints;
            return one_action(wait_for(FIRST_PAUSE));
        }
        self.urls = registry.ordered();
        self.next = 0;
        assert(self@.urls =~= targets(endpoint::order(registry@)));
        self.tries()
    }

    fn wakes(&mut self, registry: &EndpointRegistry) -> (r: Vec<Action>)
        requires
            FIRST_PAUSE <= old(self)@.pause <= LONGEST_PAUSE,
            old(self)@.next <= old(self)@.urls.len(),
        ensures
            final(self)@ == old(self)@.wakes(registry@).after,
            final(self)@.wf(),
            action::said(r@) == old(self)@.wakes(registry@).actions,
            final(self).cfg() == old(self).cfg(),
    {
        let doubled: u64 = self.pause * 2;
        self.pause = if doubled <= LONGEST_PAUSE {
            doubled
        } else {
            LONGEST_PAUSE
        };
        self.begins(registry)
    }

    fn led(&mut self, registry: &mut EndpointRegistry, next: Next) -> (r: Vec<Action>)
        requires
            FIRST_PAUSE <= old(self)@.pause <= LONGEST_PAUSE,
            0 < old(self)@.next <= old(self)@.urls.len(),
            handshake::next_wf(next@),
            old(registry)@.wf(),
        ensures
            ({
                let step = old(self)@.led(old(self).cfg(), old(registry)@.last, next@);
                &&& final(self)@ == step.after
                &&& action::said(r@) == step.actions
                &&& final(registry)@ == (RegistryModel {
                    last: step.last,
                    ..old(registry)@
                })
            }),
            final(self)@.wf(),
            final(self).cfg() == old(self).cfg(),
    {
        match next {
            Next::Going(dialog) => {
                self.phase = FailoverPhase::Talking(dialog);
                no_actions()
            },
            Next::Online(link) => {
                registry.connected(self.urls[self.next - 1].0);
                self.pause = FIRST_PAUSE;
                let mut actions = one_action(Action::Publish(ConnectionState::Online));
                add_action(
                    &mut actions,
                    Action::ArmHeartbeat(self.config.heartbeat_interval.clone()),
                );
                let ghost lm = link@;
                self.phase = FailoverPhase::Online(
                    MessageLoop::new(
                        link,
                        self.config.heartbeat_interval.clone(),
                        self.config.heartbeat_timeout.clone(),
                    ),
                );
                assert(action::said(actions@) =~= old(self)@.comes_online(
                    old(self).cfg(),
                    lm,
                ).actions);
                actions
            },
            Next::Failed(_) => self.tries(),
            Next::Mismatch { server } => {
                let state = ConnectionState::VersionMismatch {
                    client: self.config.protocol_version.clone(),
                    server,
                };
                let mut actions = one_action(Action::Publish(state));
                add_action(&mut actions, wait_for(FIRST_PAUSE));
                self.phase = FailoverPhase::VersionMismatch;
                assert(action::said(actions@) =~= old(self)@.led(
                    old(self).cfg(),
                    old(registry)@.last,
                    next@,
                ).actions);
                actions
            },
            Next::Denied => {
                let mut actions = one_action(Action::Publish(ConnectionState::Unauthorized));
                add_action(&mut actions, Action::FailPending);
                self.phase = FailoverPhase::Unauthorized;
                assert(action::said(actions@) =~= old(self)@.led(
                    old(self).cfg(),
                    old(registry)@.last,
                    next@,
                ).actions);
                actions
            },
        }
    }

    fn waits(&mut self, registry: &EndpointRegistry, event: ClientEvent) -> (r: Vec<Action>)
        requires
            old(self)@.wf(),
            !(old(self)@.phase is Talking) && !(old(self)@.phase is Online),
        ensures
            ({
                let step = old(self)@.step(
                    old(self).cfg(),
                    registry@,
                    event,
                    KeyModel::Failed,
                );
                &&& final(self)@ == step.after
                &&& action::said(r@) == step.actions
                &&& registry@.last == step.last
            }),
            final(self)@.wf(),
            final(self).cfg() == old(self).cfg(),
    {
        match (&self.phase, event) {
            (FailoverPhase::Idle, ClientEvent::Start) => self.begins(registry),
            (FailoverPhase::NoEndpoints, ClientEvent::Waited) => self.begins(registry),
            (FailoverPhase::NoEndpoints, ClientEvent::Command(_)) => self.begins(registry),
            (FailoverPhase::Resting, ClientEvent::Waited) => self.wakes(registry),
            (FailoverPhase::Resting, ClientEvent::Command(_)) => self.wakes(registry),
            (FailoverPhase::VersionMismatch, ClientEvent::Command(cmd)) => match cmd {
                ClientCmd::EndpointChanged | ClientCmd::Reconnect => self.rests(),
                _ => one_action(wait_for(FIRST_PAUSE)),
            },
            (FailoverPhase::VersionMismatch, ClientEvent::Waited) => one_action(
                wait_for(FIRST_PAUSE),
            ),
            (FailoverPhase::Unauthorized, ClientEvent::Command(cmd)) => match cmd {
                ClientCmd::Send { .. } => no_actions(),
                _ => self.begins(registry),
            },
            (FailoverPhase::Opening, ClientEvent::Opened) => {
                let (actions, dialog) = Dialog::start(&self.config);
                self.phase = FailoverPhase::Talking(dialog);
                actions
            },
            (FailoverPhase::Opening, ClientEvent::OpenFailed(text)) => {
                let mut actions = one_action(Action::Publish(ConnectionState::Error(text)));
                let more = self.tries();
                add_actions(&mut actions, more);
                actions
            },
            _ => no_actions(),
        }
    }

    fn talks(
        &mut self,
        dialog: Dialog,
        registry: &mut EndpointRegistry,
        event: ClientEvent,
    ) -> (r: Vec<Action>)
        requires
            old(self)@.at(FailoverPhaseModel::Talking(dialog@)).wf(),
            old(self).cfg().wf(),
            old(registry)@.wf(),
        ensures
            ({
                let m = old(self)@.at(FailoverPhaseModel::Talking(dialog@));
                exists|keys: KeyModel| #[trigger]
                    keys_may_be(m, old(self).cfg(), event, keys) && ({
                        let step = m.step(old(self).cfg(), old(registry)@, event, keys);
                        &&& final(self)@ == step.after
                        &&& action::said(r@) == step.actions
                        &&& final(registry)@ == (RegistryModel {
                            last: step.last,
                            ..old(registry)@
                        })
                    })
            }),
            final(self)@.wf(),
            final(self).cfg() == old(self).cfg(),
            final(registry)@.wf(),
    {
        let ghost m = old(self)@.at(FailoverPhaseModel::Talking(dialog@));
        match to_dialog_event(event) {
            None => {
                assert(keys_may_be(m, old(self).cfg(), event, KeyModel::Failed));
                self.phase = FailoverPhase::Talking(dialog);
                no_actions()
            },
            Some(e) => {
                let (mut actions, next) = dialog.step(&self.config, e, &mut self.kept);
                let ghost keys = choose|keys: KeyModel| #[trigger]
                    handshake::may_give(dialog@, old(self).cfg(), e, keys) && ({
                        let step = handshake::dialog_step(
                            dialog@,
                            old(self).cfg(),
                            e,
                            keys,
                            old(self)@.kept,
                        );
                        &&& action::said(actions@) == step.actions
                        &&& next@ == step.next
                        &&& self@.kept == step.kept
                    });
                assert(keys_may_be(m, old(self).cfg(), event, keys));
                let more = self.led(registry, next);
                add_actions(&mut actions, more);
                actions
            },
        }
    }

    fn exchanges(
        &mut self,
        mut message_loop: MessageLoop,
        registry: &EndpointRegistry,
        event: ClientEvent,
    ) -> (r: Vec<Action>)
        requires
            old(self)@.at(FailoverPhaseModel::Online(message_loop@)).wf(),
        ensures
            ({
                let step = old(self)@.at(FailoverPhaseModel::Online(message_loop@)).step(
                    old(self).cfg(),
                    registry@,
                    event,
                    KeyModel::Failed,
                );
                &&& final(self)@ == step.after
                &&& action::said(r@) == step.actions
                &&& registry@.last == step.last
            }),
            final(self)@.wf(),
            final(self).cfg() == old(self).cfg(),
    {
        match to_loop_event(event) {
            None => {
                self.phase = FailoverPhase::Online(message_loop);
                no_actions()
            },
            Some(e) => {
                let (mut actions, down) = message_loop.step(e);
                if down {
                    let mut dropped = one_action(Action::Publish(ConnectionState::Disconnected));
                    add_action(&mut dropped, Action::FailPending);
                    assert(action::said(dropped@) =~= seq![
                        ActionModel::Publish(StateModel::Disconnected),
                        ActionModel::FailPending,
                    ]);
                    let more = self.begins(registry);
                    add_actions(&mut dropped, more);
                    add_actions(&mut actions, dropped);
                    actions
                } else {
                    self.phase = FailoverPhase::Online(message_loop);
                    actions
                }
            },
        }
    }

    /// Decides what is done about an event. The registry remembers the endpoint that comes online.
    pub fn step(&mut self, registry: &mut EndpointRegistry, event: ClientEvent) -> (r: Vec<Action>)
        requires
            old(self)@.wf(),
            old(self).cfg().wf(),
            old(registry)@.wf(),
        ensures
            exists|keys: KeyModel| #[trigger]
                keys_may_be(old(self)@, old(self).cfg(), event, keys) && ({
                    let step = old(self)@.step(old(self).cfg(), old(registry)@, event, keys);
                    &&& final(self)@ == step.after
                    &&& action::said(r@) == step.actions
                    &&& final(registry)@ == (RegistryModel {
                        last: step.last,
                        ..old(registry)@
                    })
                }),
            final(self)@.wf(),
            final(self).cfg() == old(self).cfg(),
            final(registry)@.wf(),
    {
        assert(!(old(self)@.phase is Talking) ==> keys_may_be(
            old(self)@,
            old(self).cfg(),
            event,
            KeyModel::Failed,
        ));
        let mut phase = FailoverPhase::Idle;
        std::mem::swap(&mut phase, &mut self.phase);
        match phase {
            FailoverPhase::Talking(dialog) => {
                assert(self@.at(FailoverPhaseModel::Talking(dialog@)) == old(self)@);
                self.talks(dialog, registry, event)
            },
            FailoverPhase::Online(message_loop) => {
                assert(self@.at(FailoverPhaseModel::Online(message_loop@)) == old(self)@);
                self.exchanges(message_loop, registry, event)
            },
            other => {
                self.phase = other;
                assert(self@ == old(self)@);
                self.waits(registry, event)
            },
        }
    }
}

/// In one round every endpoint gets its turn, in the registry's order: while some are left, a
/// failure to open one leads to the next one.
pub proof fn law_every_endpoint_gets_its_turn(
    m: FailoverModel,
    cfg: ConfigModel,
    registry: RegistryModel,
    text: String,
    keys: KeyModel,
)
    requires
        m.wf(),
        m.phase is Opening,
        m.next < m.urls.len(),
    ensures
        ({
            let step = m.step(cfg, registry, ClientEvent::OpenFailed(text), keys);
            &&& step.after.phase is Opening
            &&& step.after.next == m.next + 1
            &&& step.actions.last() == ActionModel::Open(m.urls[m.next as int].1)
        }),
{
}

/// The pauses between rounds double from half a second up to a minute, and start anew once the
/// client was online.
pub proof fn law_pauses_double_up_to_a_minute(
    m: FailoverModel,
    cfg: ConfigModel,
    registry: RegistryModel,
    keys: KeyModel,
    link: LinkModel,
)
    requires
        m.wf(),
        m.phase is Resting,
    ensures
        ({
            let pause = m.step(cfg, registry, ClientEvent::Waited, keys).after.pause;
            &&& m.pause * 2 <= 60_000 ==> pause == m.pause * 2
            &&& m.pause * 2 > 60_000 ==> pause == 60_000
        }),
        m.comes_online(cfg, link).after.pause == 500,
{
}

/// A client that the server does not accept makes no further attempt by itself: only a command
/// other than one to send lets it leave that state.
pub proof fn law_unauthorized_is_final_without_a_command(
    m: FailoverModel,
    cfg: ConfigModel,
    registry: RegistryModel,
    event: ClientEvent,
    keys: KeyModel,
)
    requires
        m.phase is Unauthorized,
        !(event is Command) || event->Command_0 is Send,
    ensures
        m.step(cfg, registry, event, keys) == m.stays(registry.last),
{
}

/// The endpoint that comes online is the one that is tried first in its tier from then on.
pub proof fn law_success_is_remembered(
    m: FailoverModel,
    cfg: ConfigModel,
    registry: RegistryModel,
    event: ClientEvent,
    keys: KeyModel,
)
    requires
        m.wf(),
        !(m.phase is Online),
        m.step(cfg, registry, event, keys).after.phase is Online,
    ensures
        m.step(cfg, registry, event, keys).last == Some(m.urls[m.next - 1].0),
        m.step(cfg, registry, event, keys).after.urls == m.urls,
        m.step(cfg, registry, event, keys).after.next == m.next,
{
}

/// Every failed attempt, not only a failed open, leads to the next endpoint of the round: whatever
/// fails the dialog with one endpoint, the client says what the dialog asks for, shows that it
/// connects, and opens a connection to the endpoint that is next in the round's order.
pub proof fn law_failed_attempt_leads_to_the_next_endpoint(
    m: FailoverModel,
    d: DialogModel,
    cfg: ConfigModel,
    registry: RegistryModel,
    event: ClientEvent,
    e: DialogEvent,
    keys: KeyModel,
)
    requires
        m.phase == FailoverPhaseModel::Talking(d),
        m.next < m.urls.len(),
        connection_loop::dialog_event(event) == Some(e),
        handshake::dialog_step(d, cfg, e, keys, m.kept).next is Failed,
    ensures
        ({
            let said = handshake::dialog_step(d, cfg, e, keys, m.kept);
            let step = m.step(cfg, registry, event, keys);
            &&& step.after.phase is Opening
            &&& step.after.next == m.next + 1
            &&& step.after.urls == m.urls
            &&& step.after.pause == m.pause
            &&& step.after.kept == said.kept
            &&& step.last == registry.last
            &&& step.actions == said.actions + seq![
                ActionModel::Publish(StateModel::Connecting),
                ActionModel::Open(m.urls[m.next as int].1),
            ]
            &&& step.actions.last() == ActionModel::Open(m.urls[m.next as int].1)
        }),
{
}

/// Behind the last endpoint of the round a failed attempt ends the round: the client shows that it
/// is disconnected, the pending requests fail, and the round's pause begins.
pub proof fn law_round_without_success_ends_in_a_pause(
    m: FailoverModel,
    d: DialogModel,
    cfg: ConfigModel,
    registry: RegistryModel,
    event: ClientEvent,
    e: DialogEvent,
    keys: KeyModel,
)
    requires
        m.phase == FailoverPhaseModel::Talking(d),
        m.next >= m.urls.len(),
        connection_loop::dialog_event(event) == Some(e),
        handshake::dialog_step(d, cfg, e, keys, m.kept).next is Failed,
    ensures
        ({
            let said = handshake::dialog_step(d, cfg, e, keys, m.kept);
            let step = m.step(cfg, registry, event, keys);
            &&& step.after == (FailoverModel {
                phase: FailoverPhaseModel::Resting,
                kept: said.kept,
                ..m
            })
            &&& step.last == registry.last
            &&& step.actions == said.actions + seq![
                ActionModel::Publish(StateModel::Disconnected),
                ActionModel::FailPending,
                ActionModel::Wait(m.pause * 1_000_000),
            ]
        }),
{
}

/// Each thing that can go wrong with an open connection before the client is online leads to the
/// next endpoint: an answer that neither accepts nor rejects, a stream that fails or ends, a key
/// exchange that fails, a response to the credentials that does not come in time, and credentials
/// that fail without being rejected.
pub proof fn law_every_fault_leads_to_the_next_endpoint(
    m: FailoverModel,
    d: DialogModel,
    cfg: ConfigModel,
    registry: RegistryModel,
    event: ClientEvent,
    keys: KeyModel,
)
    requires
        m.phase == FailoverPhaseModel::Talking(d),
        m.next < m.urls.len(),
        match event {
            ClientEvent::StreamEnd | ClientEvent::StreamError(_) | ClientEvent::OtherMessage =>
                d is Version || d is Keys || d is AwaitingAuth,
            ClientEvent::SendFailed(_) => !(d is JudgingAuth),
            ClientEvent::Text(reply) => d is Keys || d is AwaitingAuth || (d is Version
                && !text::is_around("PROTOCOL_ACCEPTED"@, reply@) && !text::is_around(
                "PROTOCOL_REJECTED"@,
                reply@,
            )),
            ClientEvent::Binary(_) => d is Version || (d is Keys && keys is Failed),
            ClientEvent::TimedOut => d is AwaitingAuth,
            ClientEvent::AuthJudged(AuthOutcome::Failed) => d is JudgingAuth,
            ClientEvent::AuthJudged(AuthOutcome::RetryWithNewPayload(_)) => d is JudgingAuth,
            _ => false,
        },
    ensures
        ({
            let step = m.step(cfg, registry, event, keys);
            &&& step.after.phase is Opening
            &&& step.after.next == m.next + 1
            &&& step.after.urls == m.urls
            &&& step.actions == seq![
                ActionModel::Publish(StateModel::Connecting),
                ActionModel::Open(m.urls[m.next as int].1),
            ]
        }),
{
    if let ClientEvent::Text(reply) = event {
        handshake::law_answer_decides_the_attempt(cfg, reply, keys, m.kept);
    }
    let e = connection_loop::dialog_event(event)->Some_0;
    let said = handshake::dialog_step(d, cfg, e, keys, m.kept);
    law_failed_attempt_leads_to_the_next_endpoint(m, d, cfg, registry, event, e, keys);
    assert(said.actions.len() == 0);
    assert(m.step(cfg, registry, event, keys).actions =~= seq![
        ActionModel::Publish(StateModel::Connecting),
        ActionModel::Open(m.urls[m.next as int].1),
    ]);
}

/// A connection that is open is greeted; one that cannot be opened shows its text and leads to the
/// next endpoint, or behind the last one to the pause. Nothing else matters while a connection is
/// being opened.
pub proof fn law_opening_succeeds_or_fails(
    m: FailoverModel,
    cfg: ConfigModel,
    registry: RegistryModel,
    event: ClientEvent,
    keys: KeyModel,
)
    requires
        m.phase is Opening,
    ensures
        ({
            let step = m.step(cfg, registry, event, keys);
            &&& step.last == registry.last
            &&& match event {
                ClientEvent::Opened => {
                    &&& step.actions == seq![
                        ActionModel::Publish(StateModel::Handshaking),
                        ActionModel::SendText(cfg.name + " "@ + cfg.version),
                    ]
                    &&& step.after == (FailoverModel {
                        phase: FailoverPhaseModel::Talking(DialogModel::Version),
                        ..m
                    })
                },
                ClientEvent::OpenFailed(text) => {
                    let shown = ActionModel::Publish(StateModel::Error(text@));
                    &&& m.next < m.urls.len() ==> step.actions == seq![
                        shown,
                        ActionModel::Publish(StateModel::Connecting),
                        ActionModel::Open(m.urls[m.next as int].1),
                    ] && step.after == (FailoverModel { next: m.next + 1, ..m })
                    &&& m.next >= m.urls.len() ==> step.actions == seq![
                        shown,
                        ActionModel::Publish(StateModel::Disconnected),
                        ActionModel::FailPending,
                        ActionModel::Wait(m.pause * 1_000_000),
                    ] && step.after == (FailoverModel { phase: FailoverPhaseModel::Resting, ..m })
                },
                _ => step.actions.len() == 0 && step.after == m,
            }
        }),
{
    handshake::law_client_greets_first(cfg);
    if let ClientEvent::OpenFailed(text) = event {
        let step = m.step(cfg, registry, event, keys);
        let shown = ActionModel::Publish(StateModel::Error(text@));
        if m.next < m.urls.len() {
            assert(step.actions =~= seq![
                shown,
                ActionModel::Publish(StateModel::Connecting),
                ActionModel::Open(m.urls[m.next as int].1),
            ]);
        } else {
            assert(step.actions =~= seq![
                shown,
                ActionModel::Publish(StateModel::Disconnected),
                ActionModel::FailPending,
                ActionModel::Wait(m.pause * 1_000_000),
            ]);
        }
    }
}

/// What a loop does that is started.
pub open spec fn started(
    m: FailoverModel,
    cfg: ConfigModel,
    registry: RegistryModel,
) -> FailoverStep {
    FailoverModel { phase: FailoverPhaseModel::Idle, ..m }.step(
        cfg,
        registry,
        ClientEvent::Start,
        KeyModel::Failed,
    )
}

/// A loop that is started begins a round: it takes the endpoints in the registry's order and
/// connects to the first. Where the registry holds none, it looks again after half a second; where
/// it holds none that may be tried, the round is over at once.
pub proof fn law_round_takes_the_endpoints_in_order(
    m: FailoverModel,
    cfg: ConfigModel,
    registry: RegistryModel,
)
    ensures
        ({
            let step = started(m, cfg, registry);
            let order = endpoint::order(registry);
            &&& step.last == registry.last
            &&& step.after.pause == m.pause
            &&& step.after.kept == m.kept
            &&& registry.entries.len() == 0 ==> step.after.phase is NoEndpoints && step.actions
                == seq![ActionModel::Wait(500_000_000)]
            &&& registry.entries.len() > 0 ==> {
                &&& step.after.urls.len() == order.len()
                &&& forall|i: int|
                    0 <= i < order.len() ==> (#[trigger] step.after.urls[i]).0 == order[i].id
                        && step.after.urls[i].1 == order[i].url
                &&& order.len() > 0 ==> step.after.phase is Opening && step.after.next == 1
                    && step.actions == seq![
                    ActionModel::Publish(StateModel::Connecting),
                    ActionModel::Open(order[0].url),
                ]
                &&& order.len() == 0 ==> step.after.phase is Resting && step.actions == seq![
                    ActionModel::Publish(StateModel::Disconnected),
                    ActionModel::FailPending,
                    ActionModel::Wait(m.pause * 1_000_000),
                ]
            }
        }),
{
}

/// A loop without endpoints looks again after a wait or a command, with the pause as it is; one
/// that rests goes on after its pause or a command, with twice the pause, up to a minute, ahead of
/// it. Nothing else matters there, nor anything but the start before it.
pub proof fn law_waiting_loop_goes_on(
    m: FailoverModel,
    cfg: ConfigModel,
    registry: RegistryModel,
    event: ClientEvent,
    keys: KeyModel,
)
    requires
        m.phase is NoEndpoints || m.phase is Resting || (m.phase is Idle && !(event is Start)),
    ensures
        ({
            let step = m.step(cfg, registry, event, keys);
            let doubled = if m.pause <= 30_000 {
                m.pause * 2
            } else {
                60_000
            };
            if (m.phase is NoEndpoints || m.phase is Resting) && (event is Waited
                || event is Command) {
                step == started(
                    if m.phase is Resting {
                        FailoverModel { pause: doubled as nat, ..m }
                    } else {
                        m
                    },
                    cfg,
                    registry,
                )
            } else {
                step.actions.len() == 0 && step.after == m && step.last == registry.last
            }
        }),
{
}

/// A connection of an online client that ends, for whatever reason, leads to a new round at once:
/// the client shows that it is disconnected, the pending requests fail, and the first endpoint in
/// the registry's order is tried.
pub proof fn law_ended_connection_begins_a_round(
    m: FailoverModel,
    l: LoopModel,
    cfg: ConfigModel,
    registry: RegistryModel,
    event: ClientEvent,
    e: LoopEvent,
    keys: KeyModel,
)
    requires
        m.phase == FailoverPhaseModel::Online(l),
        connection_loop::loop_event(event) == Some(e),
        l.step(e).down,
    ensures
        ({
            let step = m.step(cfg, registry, event, keys);
            let next = started(m, cfg, registry);
            &&& step.actions == l.step(e).actions + seq![
                ActionModel::Publish(StateModel::Disconnected),
                ActionModel::FailPending,
            ] + next.actions
            &&& step.after == next.after
            &&& step.last == next.last
            &&& !(step.after.phase is Online)
        }),
{
    let step = m.step(cfg, registry, event, keys);
    let next = started(m, cfg, registry);
    assert(step.actions =~= l.step(e).actions + seq![
        ActionModel::Publish(StateModel::Disconnected),
        ActionModel::FailPending,
    ] + next.actions);
}

/// A changed or renewed endpoint takes an online client's connection down: it is closed, and a new
/// round begins at once.
pub proof fn law_endpoint_change_takes_the_connection_down(
    m: FailoverModel,
    cfg: ConfigModel,
    registry: RegistryModel,
    cmd: ClientCmd,
    keys: KeyModel,
)
    requires
        m.phase is Online,
        cmd is EndpointChanged || cmd is Reconnect,
    ensures
        ({
            let step = m.step(cfg, registry, ClientEvent::Command(cmd), keys);
            &&& step.actions == seq![
                ActionModel::Close,
                ActionModel::Publish(StateModel::Disconnected),
                ActionModel::FailPending,
            ] + started(m, cfg, registry).actions
            &&& step.after == started(m, cfg, registry).after
            &&& !(step.after.phase is Online)
        }),
{
    let step = m.step(cfg, registry, ClientEvent::Command(cmd), keys);
    assert(step.actions =~= seq![
        ActionModel::Close,
        ActionModel::Publish(StateModel::Disconnected),
        ActionModel::FailPending,
    ] + started(m, cfg, registry).actions);
}

/// While a connection lasts or a dialog goes on, the loop does what these ask for and nothing else;
/// what is no event of theirs means nothing. Every message that is not binary ends a connection,
/// and so do its loss and the shutdown.
pub proof fn law_connection_lasts(
    m: FailoverModel,
    cfg: ConfigModel,
    registry: RegistryModel,
    event: ClientEvent,
    keys: KeyModel,
)
    ensures
        ({
            let step = m.step(cfg, registry, event, keys);
            let ignored = step.actions.len() == 0 && step.after == m && step.last == registry.last;
            &&& m.phase matches FailoverPhaseModel::Online(l) ==> match connection_loop::loop_event(
                event,
            ) {
                Some(e) => !l.step(e).down ==> step.actions == l.step(e).actions && step.last
                    == registry.last && step.after == (FailoverModel {
                    phase: FailoverPhaseModel::Online(l.step(e).after),
                    ..m
                }),
                None => ignored,
            }
            &&& m.phase matches FailoverPhaseModel::Talking(d) ==> match
                connection_loop::dialog_event(event) {
                Some(e) => {
                    let said = handshake::dialog_step(d, cfg, e, keys, m.kept);
                    said.next matches NextModel::Going(after) ==> step.actions == said.actions
                        && step.last == registry.last && step.after == (FailoverModel {
                        phase: FailoverPhaseModel::Talking(after),
                        kept: said.kept,
                        ..m
                    })
                },
                None => ignored,
            }
            &&& m.phase is Online && (event is Text || event is OtherMessage || event is StreamError
                || event is StreamEnd || event is SendFailed || event is Cancelled) ==> !(
            step.after.phase is Online) && step.actions.len() > 1 && step.actions[0]
                == ActionModel::Publish(StateModel::Disconnected) && step.actions[1]
                == ActionModel::FailPending
        }),
{
    if let FailoverPhaseModel::Talking(d) = m.phase {
        if let Some(e) = connection_loop::dialog_event(event) {
            let said = handshake::dialog_step(d, cfg, e, keys, m.kept);
            assert(said.actions + Seq::<ActionModel>::empty() =~= said.actions);
        }
    }
}

/// What each end of a dialog makes of the loop.
proof fn lemma_dialog_ends(
    m: FailoverModel,
    cfg: ConfigModel,
    last: Option<u128>,
    next: NextModel,
)
    ensures
        ({
            let led = m.led(cfg, last, next);
            match next {
                NextModel::Online(link) => {
                    &&& led.actions == seq![
                        ActionModel::Publish(StateModel::Online),
                        ActionModel::ArmHeartbeat(cfg.interval),
                    ]
                    &&& led.last == Some(m.urls[m.next - 1].0)
                    &&& led.after.pause == 500
                    &&& led.after.urls == m.urls
                    &&& led.after.next == m.next
                    &&& led.after.kept == m.kept
                    &&& led.after.phase matches FailoverPhaseModel::Online(l) && l.link == link
                        && l.queue.total() == 0 && !l.waiting_for_pong && !l.reconnect_asked
                        && l.interval == cfg.interval && l.timeout == cfg.timeout
                },
                NextModel::Mismatch { server } => {
                    &&& led.actions == seq![
                        ActionModel::Publish(
                            StateModel::VersionMismatch { client: cfg.version, server },
                        ),
                        ActionModel::Wait(500_000_000),
                    ]
                    &&& led.last == last
                    &&& led.after == (FailoverModel {
                        phase: FailoverPhaseModel::VersionMismatch,
                        ..m
                    })
                },
                NextModel::Denied => {
                    &&& led.actions == seq![
                        ActionModel::Publish(StateModel::Unauthorized),
                        ActionModel::FailPending,
                    ]
                    &&& led.last == last
                    &&& led.after == (FailoverModel {
                        phase: FailoverPhaseModel::Unauthorized,
                        ..m
                    })
                },
                _ => true,
            }
        }),
{
}

/// A dialog that succeeds makes the client online, which it shows; the heartbeat begins, nothing
/// waits to be sent, the pauses start anew, and the endpoint is remembered. Another version is
/// shown and looked at again after half a second; rejected credentials are shown and fail the
/// pending requests.
pub proof fn law_dialog_ends_in_a_state(
    m: FailoverModel,
    d: DialogModel,
    cfg: ConfigModel,
    registry: RegistryModel,
    event: ClientEvent,
    e: DialogEvent,
    keys: KeyModel,
)
    requires
        m.phase == FailoverPhaseModel::Talking(d),
        connection_loop::dialog_event(event) == Some(e),
    ensures
        ({
            let said = handshake::dialog_step(d, cfg, e, keys, m.kept);
            let step = m.step(cfg, registry, event, keys);
            match said.next {
                NextModel::Online(link) => {
                    &&& step.actions == said.actions + seq![
                        ActionModel::Publish(StateModel::Online),
                        ActionModel::ArmHeartbeat(cfg.interval),
                    ]
                    &&& step.last == Some(m.urls[m.next - 1].0)
                    &&& step.after.pause == 500
                    &&& step.after.urls == m.urls
                    &&& step.after.next == m.next
                    &&& step.after.kept == said.kept
                    &&& step.after.phase matches FailoverPhaseModel::Online(l) && l.link == link
                        && l.queue.total() == 0 && !l.waiting_for_pong && !l.reconnect_asked
                        && l.interval == cfg.interval && l.timeout == cfg.timeout
                },
                NextModel::Mismatch { server } => {
                    &&& step.actions == said.actions + seq![
                        ActionModel::Publish(
                            StateModel::VersionMismatch { client: cfg.version, server },
                        ),
                        ActionModel::Wait(500_000_000),
                    ]
                    &&& step.last == registry.last
                    &&& step.after == (FailoverModel {
                        phase: FailoverPhaseModel::VersionMismatch,
                        kept: said.kept,
                        ..m
                    })
                },
                NextModel::Denied => {
                    &&& step.actions == said.actions + seq![
                        ActionModel::Publish(StateModel::Unauthorized),
                        ActionModel::FailPending,
                    ]
                    &&& step.last == registry.last
                    &&& step.after == (FailoverModel {
                        phase: FailoverPhaseModel::Unauthorized,
                        kept: said.kept,
                        ..m
                    })
                },
                _ => true,
            }
        }),
{
    let said = handshake::dialog_step(d, cfg, e, keys, m.kept);
    lemma_dialog_ends(FailoverModel { kept: said.kept, ..m }, cfg, registry.last, said.next);
}

/// At another version the loop waits, half a second at a time, for a command to change or renew the
/// endpoint, which ends the round in its pause. With rejected credentials it waits for any command
/// but one to send, which begins a round.
pub proof fn law_stopped_loop_heeds_commands(
    m: FailoverModel,
    cfg: ConfigModel,
    registry: RegistryModel,
    event: ClientEvent,
    keys: KeyModel,
)
    requires
        m.phase is VersionMismatch || m.phase is Unauthorized,
    ensures
        ({
            let step = m.step(cfg, registry, event, keys);
            let renewing = event matches ClientEvent::Command(c) && (c is EndpointChanged
                || c is Reconnect);
            &&& step.last == registry.last
            &&& m.phase is VersionMismatch && renewing ==> step.actions == seq![
                ActionModel::Publish(StateModel::Disconnected),
                ActionModel::FailPending,
                ActionModel::Wait(m.pause * 1_000_000),
            ] && step.after == (FailoverModel { phase: FailoverPhaseModel::Resting, ..m })
            &&& m.phase is VersionMismatch && !renewing ==> step.after == m && step.actions == if
                event is Command || event is Waited {
                seq![ActionModel::Wait(500_000_000)]
            } else {
                Seq::empty()
            }
            &&& m.phase is Unauthorized ==> if event is Command && !(event->Command_0 is Send) {
                step == started(m, cfg, registry)
            } else {
                step.actions.len() == 0 && step.after == m
            }
        }),
{
}

/// A new loop has not begun, keeps no credentials, and has the shortest pause ahead of it: half a
/// second.
pub proof fn law_new_loop_has_the_shortest_pause(config: WsClientConfig, r: FailoverLoop)
    requires
        FailoverLoop::new.ensures((config,), r),
    ensures
        r@.phase is Idle,
        r@.pause == 500,
        r@.kept is None,
        r.cfg() == config@,
{
}

} // verus!
