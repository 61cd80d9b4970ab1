//! The message loop of a client that is online.
use std::collections::VecDeque;
use std::time::Duration;
use vstd::prelude::*;

use crate::frame;
use crate::frame::{Frame, FrameKind, FrameModel};
use crate::runtime;
use crate::scheduler;
use crate::scheduler::{MessagePriority, Scheduled};
use crate::ws::client::action;
use crate::ws::client::action::{
    add_action, add_actions, no_actions, one_action, Action, ActionModel,
};
use crate::ws::client::cmd::ClientCmd;
use crate::ws::link;
use crate::ws::link::{Arrival, Link, LinkModel};
use crate::ws::outbox::Outbox;

verus! {

/// What happens while the client is online.
#[derive(Debug)]
pub enum LoopEvent {
    /// The client is shut down.
    Cancelled,
    /// A binary message came.
    Binary(Vec<u8>),
    /// Another message came, or the stream failed or ended.
    NoBinary,
    /// A command came.
    Command(ClientCmd),
    /// The commands that came while a frame was sent.
    Taken(VecDeque<ClientCmd>),
    /// A send failed.
    SendFailed,
    /// The heartbeat fell due.
    HeartbeatDue,
}

/// The state of the message loop.
pub struct MessageLoop {
    link: Link,
    outbox: Outbox,
    waiting_for_pong: bool,
    reconnect_asked: bool,
    heartbeat_interval: Duration,
    heartbeat_timeout: Duration,
}

/// What a message loop holds.
pub struct LoopModel {
    /// The encrypted link.
    pub link: LinkModel,
    /// The frames that wait to be sent.
    pub queue: Scheduled<FrameModel>,
    /// Whether a ping was sent and nothing came since.
    pub waiting_for_pong: bool,
    /// Whether a new connection was asked for.
    pub reconnect_asked: bool,
    /// The silence after which a ping is sent, in nanoseconds.
    pub interval: nat,
    /// The silence after a ping after which the connection is given up, in nanoseconds.
    pub timeout: nat,
}

/// What a message loop does about an event: the actions, whether the connection is over, and the
/// new state.
pub struct LoopStep {
    pub actions: Seq<ActionModel>,
    pub down: bool,
    pub after: LoopModel,
}

impl View for MessageLoop {
    type V = LoopModel;

    closed spec fn view(&self) -> LoopModel {
        LoopModel {
            link: self.link@,
            queue: self.outbox@,
            waiting_for_pong: self.waiting_for_pong,
            reconnect_asked: self.reconnect_asked,
            interval: runtime::nanos(self.heartbeat_interval),
            timeout: runtime::nanos(self.heartbeat_timeout),
        }
    }
}

/// Where a frame goes: a message with an ID answers the request of that ID, other messages and
/// events go to the event handler, and a ping is answered by a pong of the highest priority.
pub open spec fn dispatch(f: FrameModel) -> Seq<
    ActionModel,
> {
    match f.kind {
        FrameKind::Message if f.id > 0 => seq![ActionModel::Resolve { id: f.id, data: f.data }],
        FrameKind::Message | FrameKind::Event => seq![ActionModel::Deliver(f.data)],
        FrameKind::Pong => Seq::empty(),
        FrameKind::Ping => seq![
            ActionModel::Queue {
                frame: frame::heartbeat_frame(FrameKind::Pong),
                priority: MessagePriority::RealTime,
            },
        ],
    }
}

impl LoopModel {
    /// The link's key exchange is done, and the scheduler is sound.
    pub open spec fn wf(self) -> bool {
        self.link.wf() && self.queue.wf()
    }

    /// A binary message restarts the heartbeat; a frame that it completes is dispatched. What the
    /// link cannot take ends the connection.
    pub open spec fn received(self, packet: Seq<u8>) -> LoopStep {
        let (arrival, link) = link::receiving(self.link, packet);
        let restart = seq![ActionModel::ArmHeartbeat(self.interval)];
        let after = LoopModel { link, waiting_for_pong: false, ..self };
        match arrival {
            Arrival::Nothing => LoopStep { actions: restart, down: false, after },
            Arrival::Frame(f) => LoopStep {
                actions: restart + dispatch(f),
                down: false,
                after,
            },
            _ => LoopStep { actions: restart, down: true, after },
        }
    }

    /// The next waiting frame is sealed and sent, and then the commands are looked at. A frame
    /// that cannot be sealed ends the connection.
    pub open spec fn sent_next(self) -> LoopStep {
        let queue = self.queue.popped();
        match self.queue.next_item() {
            None => LoopStep {
                actions: Seq::empty(),
                down: false,
                after: LoopModel { queue, ..self },
            },
            Some(frame) => {
                let (packets, link) = link::sealing(self.link, frame);
                let after = LoopModel { link, queue, ..self };
                match packets {
                    Some(p) => LoopStep {
                        actions: seq![
                            ActionModel::SendPackets(p),
                            ActionModel::TakeCommands,
                        ],
                        down: false,
                        after,
                    },
                    None => LoopStep { actions: Seq::empty(), down: true, after },
                }
            },
        }
    }

    /// A frame joins those that wait.
    pub open spec fn enqueued(self, frame: Frame, priority: MessagePriority) -> LoopModel {
        LoopModel { queue: self.queue.enqueued(frame@, priority.level()), ..self }
    }

    /// What one command leaves behind: frames wait, and a wish to reconnect is remembered.
    pub open spec fn noted(self, cmd: ClientCmd) -> LoopModel {
        match cmd {
            ClientCmd::Send { frame, priority } => self.enqueued(frame, priority),
            ClientCmd::Reconnect => LoopModel { reconnect_asked: true, ..self },
            _ => self,
        }
    }

    /// What some commands leave behind.
    pub open spec fn noted_all(self, cmds: Seq<ClientCmd>) -> LoopModel
        decreases cmds.len(),
    {
        if cmds.len() == 0 {
            self
        } else {
            self.noted(cmds[0]).noted_all(cmds.skip(1))
        }
    }

    /// A command to send puts the frame in line and starts sending; one to change or renew the
    /// connection closes it.
    pub open spec fn commanded(self, cmd: ClientCmd) -> LoopStep {
        match cmd {
            ClientCmd::Send { frame, priority } => self.enqueued(frame, priority).sent_next(),
            ClientCmd::WakeUp => LoopStep { actions: Seq::empty(), down: false, after: self },
            _ => LoopStep {
                actions: seq![ActionModel::Close],
                down: true,
                after: self.noted(cmd),
            },
        }
    }

    /// Commands that came while a frame was sent: frames join those that wait, and sending goes
    /// on, unless the connection is to be changed or renewed: then it is closed and sending stops.
    pub open spec fn taken(self, cmds: Seq<ClientCmd>) -> LoopStep {
        if closings(cmds) > 0 {
            LoopStep {
                actions: Seq::new(
                    closings(cmds),
                    |i: int| ActionModel::Close,
                ),
                down: false,
                after: self.noted_all(cmds),
            }
        } else {
            self.noted_all(cmds).sent_next()
        }
    }

    /// A ping is sent after a silence; a second silence closes the connection.
    pub open spec fn heartbeat(self) -> LoopStep {
        if self.waiting_for_pong {
            LoopStep {
                actions: seq![ActionModel::Close],
                down: true,
                after: self,
            }
        } else {
            let (packets, link) = link::sealing(
                self.link,
                frame::heartbeat_frame(FrameKind::Ping),
            );
            let restart = ActionModel::ArmHeartbeat(self.timeout);
            LoopStep {
                actions: match packets {
                    Some(p) => seq![ActionModel::SendPing(p), restart],
                    None => seq![restart],
                },
                down: false,
                after: LoopModel { link, waiting_for_pong: true, ..self },
            }
        }
    }

    /// What is done about an event.
    pub open spec fn step(self, event: LoopEvent) -> LoopStep {
        match event {
            LoopEvent::Binary(packet) => self.received(packet@),
            LoopEvent::Command(cmd) => self.commanded(cmd),
            LoopEvent::Taken(cmds) => self.taken(cmds@),
            LoopEvent::HeartbeatDue => self.heartbeat(),
            LoopEvent::Cancelled | LoopEvent::NoBinary | LoopEvent::SendFailed => LoopStep {
                actions: Seq::empty(),
                down: true,
                after: self,
            },
        }
    }
}

/// How many of some commands close the connection.
pub open spec fn closings(cmds: Seq<ClientCmd>) -> nat
    decreases cmds.len(),
{
    if cmds.len() == 0 {
        0
    } else {
        (if cmds[0] is EndpointChanged || cmds[0] is Reconnect {
            1nat
        } else {
            0
        }) + closings(cmds.skip(1))
    }
}

/// Decides where a frame goes.
pub fn dispatch_frame(frame: Frame) -> (r: Vec<Action>)
    ensures
        action::said(r@) == dispatch(frame@),
{
    match frame.kind {
        FrameKind::Message => {
            if frame.id > 0 {
                one_action(Action::Resolve { id: frame.id, data: frame.data })
            } else {
                one_action(Action::Deliver(frame.data))
            }
        },
        FrameKind::Event => one_action(Action::Deliver(frame.data)),
        FrameKind::Pong => no_actions(),
        FrameKind::Ping => {
            let pong = Frame { id: 0, kind: FrameKind::Pong, data: Vec::new() };
            one_action(Action::Queue { frame: pong, priority: MessagePriority::RealTime })
        },
    }
}

impl MessageLoop {
    /// The loop of a client that has just come online.
    pub fn new(link: Link, heartbeat_interval: Duration, heartbeat_timeout: Duration) -> (r: Self)
        requires
            link@.wf(),
        ensures
            r@.wf(),
            r@ == (LoopModel {
                link: link@,
                queue: Scheduled::<FrameModel>::fresh(),
                waiting_for_pong: false,
                reconnect_asked: false,
                interval: runtime::nanos(heartbeat_interval),
                timeout: runtime::nanos(heartbeat_timeout),
            }),
    {
        MessageLoop {
            link,
            outbox: Outbox::new(),
            waiting_for_pong: false,
            reconnect_asked: false,
            heartbeat_interval,
            heartbeat_timeout,
        }
    }

    /// Whether a new connection was asked for while this one lasted.
    pub fn reconnect_asked(&self) -> (r: bool)
        ensures
            r == self@.reconnect_asked,
    {
        self.reconnect_asked
    }

    fn received(&mut self, packet: &Vec<u8>) -> (r: (Vec<Action>, bool))
        requires
            old(self)@.wf(),
        ensures
            final(self)@.wf(),
            final(self)@ == old(self)@.received(packet@).after,
            action::said(r.0@) == old(self)@.received(packet@).actions,
            r.1 == old(self)@.received(packet@).down,
    {
        let mut actions = one_action(Action::ArmHeartbeat(self.heartbeat_interval.clone()));
        self.waiting_for_pong = false;
        match self.link.receive(packet.as_slice()) {
            Err(_) => (actions, true),
            Ok(None) => (actions, false),
            Ok(Some(frame)) => {
                add_actions(&mut actions, dispatch_frame(frame));
                (actions, false)
            },
        }
    }

    fn sent_next(&mut self) -> (r: (Vec<Action>, bool))
        requires
            old(self)@.wf(),
        ensures
            final(self)@.wf(),
            final(self)@ == old(self)@.sent_next().after,
            action::said(r.0@) == old(self)@.sent_next().actions,
            r.1 == old(self)@.sent_next().down,
    {
        match self.outbox.take() {
            None => (no_actions(), false),
            Some(frame) => match self.link.seal(&frame) {
                Err(_) => (no_actions(), true),
                Ok(packets) => {
                    let mut actions = one_action(Action::SendPackets(packets));
                    add_action(&mut actions, Action::TakeCommands);
                    assert(action::said(actions@)
                        =~= old(self)@.sent_next().actions);
                    (actions, false)
                },
            },
        }
    }

    fn commanded(&mut self, cmd: ClientCmd) -> (r: (Vec<Action>, bool))
        requires
            old(self)@.wf(),
        ensures
            final(self)@.wf(),
            final(self)@ == old(self)@.commanded(cmd).after,
            action::said(r.0@) == old(self)@.commanded(cmd).actions,
            r.1 == old(self)@.commanded(cmd).down,
    {
        match cmd {
            ClientCmd::Send { frame, priority } => {
                self.outbox.put(frame, priority);
                self.sent_next()
            },
            ClientCmd::WakeUp => (no_actions(), false),
            ClientCmd::EndpointChanged => (one_action(Action::Close), true),
            ClientCmd::Reconnect => {
                self.reconnect_asked = true;
                (one_action(Action::Close), true)
            },
        }
    }

    fn taken(&mut self, mut cmds: VecDeque<ClientCmd>) -> (r: (Vec<Action>, bool))
        requires
            old(self)@.wf(),
        ensures
            final(self)@.wf(),
            final(self)@ == old(self)@.taken(cmds@).after,
            action::said(r.0@) == old(self)@.taken(cmds@).actions,
            r.1 == old(self)@.taken(cmds@).down,
    {
        let ghost all = cmds@;
        let mut actions = no_actions();
        let mut disconnect = false;
        while cmds.len() > 0
            invariant
                self@.wf(),
                self@.noted_all(cmds@) == old(self)@.noted_all(all),
                closings(all) == closings(cmds@) + action::said(actions@).len(),
                disconnect == (action::said(actions@).len() > 0),
                action::said(actions@) == Seq::new(
                    action::said(actions@).len(),
                    |i: int| ActionModel::Close,
                ),
            decreases cmds@.len(),
        {
            let ghost before = cmds@;
            if let Some(cmd) = cmds.pop_front() {
                assert(cmds@ =~= before.skip(1));
                match cmd {
                    ClientCmd::Send { frame, priority } => {
                        self.outbox.put(frame, priority);
                    },
                    ClientCmd::EndpointChanged => {
                        add_action(&mut actions, Action::Close);
                        disconnect = true;
                    },
                    ClientCmd::Reconnect => {
                        self.reconnect_asked = true;
                        add_action(&mut actions, Action::Close);
                        disconnect = true;
                    },
                    ClientCmd::WakeUp => {},
                }
            }
        }
        if disconnect {
            (actions, false)
        } else {
            self.sent_next()
        }
    }

    fn heartbeat(&mut self) -> (r: (Vec<Action>, bool))
        requires
            old(self)@.wf(),
        ensures
            final(self)@.wf(),
            final(self)@ == old(self)@.heartbeat().after,
            action::said(r.0@) == old(self)@.heartbeat().actions,
            r.1 == old(self)@.heartbeat().down,
    {
        if self.waiting_for_pong {
            return (one_action(Action::Close), true);
        }
        let ping = Frame { id: 0, kind: FrameKind::Ping, data: Vec::new() };
        assert(ping@ =~= frame::heartbeat_frame(FrameKind::Ping));
        let mut actions = no_actions();
        if let Ok(packets) = self.link.seal(&ping) {
            add_action(&mut actions, Action::SendPing(packets));
        }
        add_action(&mut actions, Action::ArmHeartbeat(self.heartbeat_timeout.clone()));
        self.waiting_for_pong = true;
        assert(action::said(actions@) =~= old(self)@.heartbeat().actions);
        (actions, false)
    }

    /// Decides what is done about an event. Returns the actions, and whether the connection is
    /// over.
    pub fn step(&mut self, event: LoopEvent) -> (r: (Vec<Action>, bool))
        requires
            old(self)@.wf(),
        ensures
            final(self)@.wf(),
            final(self)@ == old(self)@.step(event).after,
            action::said(r.0@) == old(self)@.step(event).actions,
            r.1 == old(self)@.step(event).down,
    {
        match event {
            LoopEvent::Binary(packet) => self.received(&packet),
            LoopEvent::Command(cmd) => self.commanded(cmd),
            LoopEvent::Taken(cmds) => self.taken(cmds),
            LoopEvent::HeartbeatDue => self.heartbeat(),
            LoopEvent::Cancelled | LoopEvent::NoBinary | LoopEvent::SendFailed => (
                no_actions(),
                true,
            ),
        }
    }
}

/// A dead connection is noticed: two heartbeats in a row with nothing received in between end it,
/// and a binary message that the link takes starts the count anew.
pub proof fn law_silence_ends_the_connection(m: LoopModel, packet: Seq<u8>)
    ensures
        m.heartbeat().down || m.heartbeat().after.heartbeat().down,
        !m.received(packet).after.waiting_for_pong,
        !m.received(packet).after.heartbeat().down,
{
}

/// Sending goes on until nothing waits: as long as frames wait and the link works, the next one is
/// sent and the commands are looked at again, with one frame less waiting.
pub proof fn law_sending_goes_on_until_nothing_waits(m: LoopModel)
    requires
        m.wf(),
    ensures
        m.sent_next().down || m.sent_next().actions.len() > 0 <==> m.queue.total() > 0,
        m.queue.total() > 0 && !m.sent_next().down ==> m.sent_next().after.queue.total() + 1
            == m.queue.total() && m.sent_next().actions.last()
            == ActionModel::TakeCommands,
{
    scheduler::law_pop_takes_one(m.queue);
}

/// The commands among some to send a frame of one priority.
pub open spec fn sends(cmds: Seq<ClientCmd>, priority: MessagePriority) -> Seq<ClientCmd> {
    cmds.filter(|c: ClientCmd| c is Send && c->priority == priority)
}

/// The frames of some commands to send one.
pub open spec fn frames_of(cmds: Seq<ClientCmd>) -> Seq<FrameModel> {
    Seq::new(cmds.len(), |i: int| cmds[i]->frame@)
}

/// The commands among some to change or renew the connection.
pub open spec fn renewals(cmds: Seq<ClientCmd>) -> Seq<ClientCmd> {
    cmds.filter(|c: ClientCmd| c is EndpointChanged || c is Reconnect)
}

/// It does not matter whether commands are looked at together or in two goes, one after the other.
pub proof fn law_commands_can_be_taken_in_turn(m: LoopModel, a: Seq<ClientCmd>, b: Seq<ClientCmd>)
    ensures
        m.noted_all(a + b) == m.noted_all(a).noted_all(b),
        closings(a + b) == closings(a) + closings(b),
    decreases a.len(),
{
    if a.len() == 0 {
        assert(a + b =~= b);
    } else {
        assert((a + b).skip(1) =~= a.skip(1) + b);
        law_commands_can_be_taken_in_turn(m.noted(a[0]), a.skip(1), b);
    }
}

/// The last of some commands is looked at last.
proof fn lemma_last_command(m: LoopModel, cmds: Seq<ClientCmd>)
    requires
        cmds.len() > 0,
    ensures
        m.noted_all(cmds) == m.noted_all(cmds.drop_last()).noted(cmds.last()),
        closings(cmds) == closings(cmds.drop_last()) + closings(seq![cmds.last()]),
{
    let last = seq![cmds.last()];
    assert(cmds =~= cmds.drop_last() + last);
    law_commands_can_be_taken_in_turn(m, cmds.drop_last(), last);
    reveal_with_fuel(LoopModel::noted_all, 2);
    assert(last.skip(1) =~= Seq::empty());
}

/// Frames are queued in the order of the commands that bring them, behind those that wait: each
/// priority's line gets the frames of that priority, first come first, and nothing else. A wish to
/// reconnect is remembered wherever it stands among the commands.
pub proof fn law_commands_are_taken_in_order(
    m: LoopModel,
    cmds: Seq<ClientCmd>,
    priority: MessagePriority,
)
    requires
        m.wf(),
    ensures
        ({
            let after = m.noted_all(cmds);
            &&& after.wf()
            &&& after.queue.queues[priority.level()] == m.queue.queues[priority.level()]
                + frames_of(sends(cmds, priority))
            &&& after.queue.credits == m.queue.credits
            &&& after.link == m.link
            &&& after.waiting_for_pong == m.waiting_for_pong
            &&& after.interval == m.interval
            &&& after.timeout == m.timeout
            &&& after.reconnect_asked <==> m.reconnect_asked || (exists|i: int|
                0 <= i < cmds.len() && #[trigger] cmds[i] is Reconnect)
        }),
    decreases cmds.len(),
{
    reveal(Seq::filter);
    let level = priority.level();
    if cmds.len() == 0 {
        assert(m.queue.queues[level] + frames_of(sends(cmds, priority))
            =~= m.queue.queues[level]);
    } else {
        let init = cmds.drop_last();
        let last = cmds.last();
        lemma_last_command(m, cmds);
        law_commands_are_taken_in_order(m, init, priority);
        let before = m.noted_all(init);
        let after = m.noted_all(cmds);
        assert(after.queue.queues[level] =~= m.queue.queues[level]
            + frames_of(sends(cmds, priority)));
        assert(forall|i: int| 0 <= i < init.len() ==> #[trigger] init[i] == cmds[i]);
        assert(forall|i: int| 0 <= i < init.len() ==> init[i] == #[trigger] cmds[i]);
        assert(cmds[cmds.len() - 1] == last);
    }
}

/// Each command to change or renew the connection counts once.
proof fn lemma_closings(m: LoopModel, cmds: Seq<ClientCmd>)
    ensures
        closings(cmds) == renewals(cmds).len(),
        closings(cmds) > 0 <==> exists|i: int|
            0 <= i < cmds.len() && (#[trigger] cmds[i] is EndpointChanged || cmds[i] is Reconnect),
    decreases cmds.len(),
{
    reveal(Seq::filter);
    if cmds.len() > 0 {
        let init = cmds.drop_last();
        lemma_last_command(m, cmds);
        lemma_closings(m, init);
        reveal_with_fuel(closings, 2);
        assert(seq![cmds.last()].skip(1) =~= Seq::empty());
        assert(forall|i: int| 0 <= i < init.len() ==> #[trigger] init[i] == cmds[i]);
        assert(forall|i: int| 0 <= i < init.len() ==> init[i] == #[trigger] cmds[i]);
        assert(cmds[cmds.len() - 1] == cmds.last());
    }
}

/// Commands that came while a frame was sent: where one of them changes or renews the connection,
/// the connection is closed, once for each such command, and nothing more is sent; else the frame
/// that leaves is the one whose turn it is among all that wait by then.
pub proof fn law_renewal_stops_sending(m: LoopModel, cmds: VecDeque<ClientCmd>)
    ensures
        ({
            let step = m.step(LoopEvent::Taken(cmds));
            let noted = m.noted_all(cmds@);
            if exists|i: int|
                0 <= i < cmds@.len() && (#[trigger] cmds@[i] is EndpointChanged
                    || cmds@[i] is Reconnect) {
                &&& step.actions.len() == renewals(cmds@).len() > 0
                &&& forall|i: int|
                    0 <= i < step.actions.len() ==> #[trigger] step.actions[i]
                        == ActionModel::Close
                &&& !step.down
                &&& step.after == noted
            } else {
                let sent = noted.queue.next_item();
                &&& sent is None ==> step.actions.len() == 0 && !step.down
                &&& sent is Some && !step.down ==> step.actions == seq![
                    ActionModel::SendPackets(link::sealing(m.link, sent->Some_0).0->Some_0),
                    ActionModel::TakeCommands,
                ]
                &&& step.down <==> sent is Some && link::sealing(m.link, sent->Some_0).0 is None
                &&& step.after.queue == noted.queue.popped()
                &&& step.after.reconnect_asked == m.reconnect_asked
            }
        }),
{
    lemma_closings(m, cmds@);
    lemma_noted_link(m, cmds@);
}

/// Commands leave the link alone.
proof fn lemma_noted_link(m: LoopModel, cmds: Seq<ClientCmd>)
    ensures
        m.noted_all(cmds).link == m.link,
        closings(cmds) == 0 ==> m.noted_all(cmds).reconnect_asked == m.reconnect_asked,
    decreases cmds.len(),
{
    if cmds.len() > 0 {
        lemma_noted_link(m.noted(cmds[0]), cmds.skip(1));
    }
}

/// A frame that an idle client is asked to send goes out at once.
pub proof fn law_idle_client_sends_at_once(
    m: LoopModel,
    frame: Frame,
    priority: MessagePriority,
)
    requires
        m.wf(),
        m.queue.total() == 0,
    ensures
        ({
            let step = m.step(LoopEvent::Command(ClientCmd::Send { frame, priority }));
            let sealed = link::sealing(m.link, frame@);
            &&& step.down <==> sealed.0 is None
            &&& sealed.0 matches Some(packets) ==> step.actions == seq![
                ActionModel::SendPackets(packets),
                ActionModel::TakeCommands,
            ]
            &&& sealed.0 is None ==> step.actions.len() == 0
            &&& step.after.link == sealed.1
            &&& step.after.queue.total() == 0
            &&& step.after.waiting_for_pong == m.waiting_for_pong
            &&& step.after.reconnect_asked == m.reconnect_asked
        }),
{
    let queued = m.queue.enqueued(frame@, priority.level());
    scheduler::law_enqueue_adds_one(m.queue, frame@, priority);
    scheduler::law_levels_are_first_in_first_out(queued);
    scheduler::law_pop_takes_one(queued);
    assert(queued.next_level() == priority.level());
}

/// A command to change or renew the connection takes it down: it is closed and nothing more is
/// sent over it. Only a wish to reconnect is remembered as one. A wake-up changes nothing.
pub proof fn law_renewal_takes_the_connection_down(m: LoopModel)
    ensures
        ({
            let changed = m.step(LoopEvent::Command(ClientCmd::EndpointChanged));
            let renewed = m.step(LoopEvent::Command(ClientCmd::Reconnect));
            let woken = m.step(LoopEvent::Command(ClientCmd::WakeUp));
            &&& changed.down && renewed.down && !woken.down
            &&& changed.actions == seq![ActionModel::Close]
            &&& renewed.actions == seq![ActionModel::Close]
            &&& woken.actions.len() == 0
            &&& changed.after == m && woken.after == m
            &&& renewed.after == (LoopModel { reconnect_asked: true, ..m })
        }),
{
}

/// Whatever is not a binary message, a command or a heartbeat ends the connection, silently.
pub proof fn law_loss_ends_the_connection(m: LoopModel, event: LoopEvent)
    requires
        event is Cancelled || event is NoBinary || event is SendFailed,
    ensures
        m.step(event).down,
        m.step(event).actions.len() == 0,
        m.step(event).after == m,
{
}

/// A frame that arrives goes to exactly one place: a response to the request of its ID, an event
/// or an unasked message to the event handler; a ping is answered by a pong that goes before
/// everything else, and a pong asks for nothing. Each restarts the heartbeat.
pub proof fn law_frames_reach_their_addressee(m: LoopModel, packet: Vec<u8>, f: FrameModel)
    requires
        link::receiving(m.link, packet@).0 == Arrival::Frame(f),
    ensures
        ({
            let step = m.step(LoopEvent::Binary(packet));
            let restart = ActionModel::ArmHeartbeat(m.interval);
            &&& !step.down
            &&& !step.after.waiting_for_pong
            &&& step.after.link == link::receiving(m.link, packet@).1
            &&& step.after.queue == m.queue
            &&& f.kind is Message && f.id != 0 ==> step.actions == seq![
                restart,
                ActionModel::Resolve { id: f.id, data: f.data },
            ]
            &&& f.kind is Message && f.id == 0 || f.kind is Event ==> step.actions == seq![
                restart,
                ActionModel::Deliver(f.data),
            ]
            &&& f.kind is Pong ==> step.actions == seq![restart]
            &&& f.kind is Ping ==> step.actions == seq![
                restart,
                ActionModel::Queue {
                    frame: FrameModel { id: 0, kind: FrameKind::Pong, data: Seq::empty() },
                    priority: MessagePriority::RealTime,
                },
            ]
        }),
{
    let step = m.step(LoopEvent::Binary(packet));
    let restart = seq![ActionModel::ArmHeartbeat(m.interval)];
    assert(restart + Seq::<ActionModel>::empty() =~= restart);
    match f.kind {
        FrameKind::Message if f.id > 0 => {
            assert(step.actions =~= restart.push(
                ActionModel::Resolve { id: f.id, data: f.data },
            ));
        },
        FrameKind::Message | FrameKind::Event => {
            assert(step.actions =~= restart.push(ActionModel::Deliver(f.data)));
        },
        FrameKind::Pong => {},
        FrameKind::Ping => {
            assert(step.actions =~= restart.push(
                ActionModel::Queue {
                    frame: FrameModel { id: 0, kind: FrameKind::Pong, data: Seq::empty() },
                    priority: MessagePriority::RealTime,
                },
            ));
        },
    }
}

/// A packet that completes no frame is waited on; one that the link cannot take ends the
/// connection.
pub proof fn law_unreadable_packet_ends_the_connection(m: LoopModel, packet: Vec<u8>)
    requires
        !(link::receiving(m.link, packet@).0 is Frame),
    ensures
        ({
            let step = m.step(LoopEvent::Binary(packet));
            &&& step.down <==> !(link::receiving(m.link, packet@).0 is Nothing)
            &&& step.actions == seq![ActionModel::ArmHeartbeat(m.interval)]
            &&& step.after.link == link::receiving(m.link, packet@).1
            &&& step.after.queue == m.queue
        }),
{
}

/// After a silence a ping goes out, at once and before what waits, and the server has the timeout
/// to answer; after a second silence the connection is closed.
pub proof fn law_silence_is_met_by_a_ping(m: LoopModel)
    ensures
        ({
            let step = m.step(LoopEvent::HeartbeatDue);
            let ping = FrameModel { id: 0, kind: FrameKind::Ping, data: Seq::empty() };
            let sealed = link::sealing(m.link, ping);
            if m.waiting_for_pong {
                step.down && step.actions == seq![ActionModel::Close]
            } else {
                &&& !step.down
                &&& step.actions.last() == ActionModel::ArmHeartbeat(m.timeout)
                &&& step.actions.len() == if sealed.0 is Some {
                    2nat
                } else {
                    1
                }
                &&& sealed.0 matches Some(packets) ==> step.actions[0]
                    == ActionModel::SendPing(packets)
                &&& step.after == (LoopModel { link: sealed.1, waiting_for_pong: true, ..m })
            }
        }),
{
}

} // verus!
