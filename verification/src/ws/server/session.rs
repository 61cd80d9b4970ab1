//! The background task of a server session.
use std::time::Duration;
use vstd::prelude::*;

use crate::crypto;
use crate::crypto::NoiseSession;
use crate::frame;
use crate::frame::{Accumulated, Frame, FrameKind, FrameModel};
use crate::runtime;
use crate::scheduler;
use crate::scheduler::{MessagePriority, Scheduled};
use crate::state::{ConnectionState, StateModel};
use crate::ws::{keys, link};
use crate::ws::link::{Arrival, Link, LinkModel};
use crate::ws::outbox::Outbox;
use crate::ws::server::config::WsServerConfig;
use crate::ws::server::handle::SessionCmd;

verus! {

/// What happens to a session.
#[derive(Debug)]
pub enum SessionEvent {
    /// A binary message came.
    Binary(Vec<u8>),
    /// Another message came, or the stream failed or ended.
    NoBinary,
    /// A command came.
    Command(SessionCmd),
    /// The inbox takes no more frames: its reader is gone.
    InboxClosed,
    /// A send failed.
    SendFailed,
    /// The heartbeat fell due.
    HeartbeatDue,
}

/// One thing to be done. Actions are carried out in their order; where `SendPackets` or `Inbox`
/// fails, the rest is dropped and the failure is reported.
#[derive(Debug)]
pub enum SessionAction {
    /// Send binary messages.
    SendPackets(Vec<Vec<u8>>),
    /// Send binary messages until one fails, which is not reported.
    SendPing(Vec<Vec<u8>>),
    /// Let the heartbeat fall due after a time span.
    ArmHeartbeat(Duration),
    /// Hand a frame to the session's owner.
    Inbox(Frame),
    /// Tell the subscribers the new state.
    Publish(ConnectionState),
    /// Close the WS connection.
    Close,
}

/// The model of a `SessionAction`.
#[verifier::ext_equal]
pub enum SessionActionModel {
    SendPackets(Seq<Seq<u8>>),
    SendPing(Seq<Seq<u8>>),
    ArmHeartbeat(nat),
    Inbox(FrameModel),
    Publish(StateModel),
    Close,
}

impl View for SessionAction {
    type V = SessionActionModel;

    open spec fn view(&self) -> SessionActionModel {
        match *self {
            SessionAction::SendPackets(packets) => SessionActionModel::SendPackets(
                crypto::contents(packets@),
            ),
            SessionAction::SendPing(packets) => SessionActionModel::SendPing(
                crypto::contents(packets@),
            ),
            SessionAction::ArmHeartbeat(d) => SessionActionModel::ArmHeartbeat(runtime::nanos(d)),
            SessionAction::Inbox(frame) => SessionActionModel::Inbox(frame@),
            SessionAction::Publish(state) => SessionActionModel::Publish(state@),
            SessionAction::Close => SessionActionModel::Close,
        }
    }
}

/// What some actions say.
pub open spec fn told(actions: Seq<SessionAction>) -> Seq<SessionActionModel> {
    Seq::new(actions.len(), |i: int| actions[i]@)
}

fn tell(actions: &mut Vec<SessionAction>, action: SessionAction)
    ensures
        told(final(actions)@) == told(old(actions)@).push(action@),
{
    actions.push(action);
    assert(told(actions@) =~= told(old(actions)@).push(action@));
}

fn tell_all(actions: &mut Vec<SessionAction>, mut more: Vec<SessionAction>)
    ensures
        told(final(actions)@) == told(old(actions)@) + told(more@),
{
    let ghost added = more@;
    actions.append(&mut more);
    assert(told(actions@) =~= told(old(actions)@) + told(added));
}

fn tell_nothing() -> (r: Vec<SessionAction>)
    ensures
        told(r@) == Seq::<SessionActionModel>::empty(),
{
    let actions: Vec<SessionAction> = Vec::new();
    assert(told(actions@) =~= Seq::<SessionActionModel>::empty());
    actions
}

/// The state of a session.
pub struct ServerSession {
    link: Link,
    outbox: Outbox,
    waiting_for_pong: bool,
    ended: bool,
    heartbeat_interval: Duration,
    heartbeat_timeout: Duration,
}

/// What a session holds.
pub struct SessionState {
    /// The encrypted link.
    pub link: LinkModel,
    /// The frames that wait to be sent.
    pub queue: Scheduled<FrameModel>,
    /// Whether a ping was sent and nothing came since.
    pub waiting_for_pong: bool,
    /// Whether the session is over.
    pub ended: bool,
    /// The silence after which a ping is sent, in nanoseconds.
    pub interval: nat,
    /// The silence after a ping after which the session ends, in nanoseconds.
    pub timeout: nat,
}

/// What a session does about an event.
pub struct SessionStep {
    pub actions: Seq<SessionActionModel>,
    pub after: SessionState,
}

impl View for ServerSession {
    type V = SessionState;

    closed spec fn view(&self) -> SessionState {
        SessionState {
            link: self.link@,
            queue: self.outbox@,
            waiting_for_pong: self.waiting_for_pong,
            ended: self.ended,
            interval: runtime::nanos(self.heartbeat_interval),
            timeout: runtime::nanos(self.heartbeat_timeout),
        }
    }
}

/// What sending everything that waits gives: the packets of each frame in the scheduler's order,
/// and whether a frame could not be sealed, which stops the sending.
pub struct Flush {
    pub sent: Seq<SessionActionModel>,
    pub failed: bool,
    pub link: LinkModel,
    pub queue: Scheduled<FrameModel>,
}

/// Sends everything that waits.
pub open spec fn flush(
    link: LinkModel,
    queue: Scheduled<FrameModel>,
) -> Flush
    decreases queue.total(),
{
    proof {
        if queue.wf() {
            scheduler::law_pop_takes_one(queue);
        }
    }
    match queue.next_item() {
        Some(frame) if queue.wf() => {
            let (packets, after) = link::sealing(link, frame);
            match packets {
                None => Flush {
                    sent: Seq::empty(),
                    failed: true,
                    link: after,
                    queue: queue.popped(),
                },
                Some(p) => {
                    let rest = flush(after, queue.popped());
                    Flush { sent: seq![SessionActionModel::SendPackets(p)] + rest.sent, ..rest }
                },
            }
        },
        _ => Flush { sent: Seq::empty(), failed: false, link, queue: queue.popped() },
    }
}

impl SessionState {
    /// The link's key exchange is done, and the scheduler is sound.
    pub open spec fn wf(self) -> bool {
        self.link.wf() && self.queue.wf()
    }

    /// The session ends: the subscribers are told and the connection is closed.
    pub open spec fn ends(self, actions: Seq<SessionActionModel>) -> SessionStep {
        SessionStep {
            actions: actions + seq![
                SessionActionModel::Publish(StateModel::Disconnected),
                SessionActionModel::Close,
            ],
            after: SessionState { ended: true, ..self },
        }
    }

    /// A frame is put in line, and everything that waits is sent behind `actions`. A frame that
    /// cannot be sealed ends the session.
    pub open spec fn sends(
        self,
        actions: Seq<SessionActionModel>,
        f: FrameModel,
        level: int,
    ) -> SessionStep {
        let done = flush(self.link, self.queue.enqueued(f, level));
        let after = SessionState { link: done.link, queue: done.queue, ..self };
        if done.failed {
            after.ends(actions + done.sent)
        } else {
            SessionStep { actions: actions + done.sent, after }
        }
    }

    /// A binary message restarts the heartbeat. A frame that it completes goes to the inbox, but
    /// for those of the heartbeat: a ping is answered by a pong with the highest priority. What
    /// the link cannot take ends the session.
    pub open spec fn received(self, packet: Seq<u8>) -> SessionStep {
        let (arrival, link) = link::receiving(self.link, packet);
        let restart = seq![SessionActionModel::ArmHeartbeat(self.interval)];
        let after = SessionState { link, waiting_for_pong: false, ..self };
        match arrival {
            Arrival::Nothing => SessionStep { actions: restart, after },
            Arrival::Frame(f) => match f.kind {
                FrameKind::Ping => after.sends(
                    restart,
                    frame::heartbeat_frame(FrameKind::Pong),
                    0,
                ),
                FrameKind::Pong => SessionStep { actions: restart, after },
                _ => SessionStep { actions: restart.push(SessionActionModel::Inbox(f)), after },
            },
            _ => after.ends(restart),
        }
    }

    /// A command to send puts the frame in line and sends everything that waits.
    pub open spec fn commanded(self, cmd: SessionCmd) -> SessionStep {
        match cmd {
            SessionCmd::Close => self.ends(Seq::empty()),
            SessionCmd::Send { frame, priority } => self.sends(
                Seq::empty(),
                frame@,
                priority.level(),
            ),
        }
    }

    /// A ping is sent after a silence; a second silence ends the session.
    pub open spec fn heartbeat(self) -> SessionStep {
        if self.waiting_for_pong {
            self.ends(Seq::empty())
        } else {
            let (packets, link) = link::sealing(
                self.link,
                frame::heartbeat_frame(FrameKind::Ping),
            );
            let restart = SessionActionModel::ArmHeartbeat(self.timeout);
            SessionStep {
                actions: match packets {
                    Some(p) => seq![SessionActionModel::SendPing(p), restart],
                    None => seq![restart],
                },
                after: SessionState { link, waiting_for_pong: true, ..self },
            }
        }
    }

    /// What is done about an event.
    pub open spec fn step(self, event: SessionEvent) -> SessionStep {
        if self.ended {
            SessionStep { actions: Seq::empty(), after: self }
        } else {
            match event {
                SessionEvent::Binary(packet) => self.received(packet@),
                SessionEvent::Command(cmd) => self.commanded(cmd),
                SessionEvent::HeartbeatDue => self.heartbeat(),
                _ => self.ends(Seq::empty()),
            }
        }
    }
}

impl ServerSession {
    /// The session after an accepted handshake, and what is done first: the heartbeat starts.
    pub fn start(noise: NoiseSession, config: &WsServerConfig) -> (r: (Vec<SessionAction>, Self))
        requires
            keys::keys_done(noise@),
        ensures
            r.1@.wf(),
            r.1@ == (SessionState {
                link: LinkModel {
                    session: noise@,
                    accumulated: Accumulated { expected: 0, buffer: Seq::empty() },
                    max: config@.max,
                },
                queue: Scheduled::<FrameModel>::fresh(),
                waiting_for_pong: false,
                ended: false,
                interval: config@.interval,
                timeout: config@.timeout,
            }),
            told(r.0@) == seq![SessionActionModel::ArmHeartbeat(config@.interval)],
    {
        let mut actions = tell_nothing();
        tell(&mut actions, SessionAction::ArmHeartbeat(config.heartbeat_interval.clone()));
        assert(told(actions@) =~= seq![SessionActionModel::ArmHeartbeat(config@.interval)]);
        (
            actions,
            ServerSession {
                link: Link::new(noise, config.max_payload_bytes),
                outbox: Outbox::new(),
                waiting_for_pong: false,
                ended: false,
                heartbeat_interval: config.heartbeat_interval.clone(),
                heartbeat_timeout: config.heartbeat_timeout.clone(),
            },
        )
    }

    /// Whether the session is over.
    pub fn ended(&self) -> (r: bool)
        ensures
            r == self@.ended,
    {
        self.ended
    }

    fn ends(&mut self, actions: &mut Vec<SessionAction>)
        ensures
            final(self)@ == old(self)@.ends(told(old(actions)@)).after,
            told(final(actions)@) == old(self)@.ends(told(old(actions)@)).actions,
    {
        self.ended = true;
        tell(actions, SessionAction::Publish(ConnectionState::Disconnected));
        tell(actions, SessionAction::Close);
        assert(told(actions@) =~= old(self)@.ends(told(old(actions)@)).actions);
    }

    fn received(&mut self, packet: &Vec<u8>) -> (r: Vec<SessionAction>)
        requires
            old(self)@.wf(),
        ensures
            final(self)@.wf(),
            final(self)@ == old(self)@.received(packet@).after,
            told(r@) == old(self)@.received(packet@).actions,
    {
        let mut actions = tell_nothing();
        tell(&mut actions, SessionAction::ArmHeartbeat(self.heartbeat_interval.clone()));
        assert(told(actions@) =~= seq![SessionActionModel::ArmHeartbeat(self@.interval)]);
        self.waiting_for_pong = false;
        match self.link.receive(packet.as_slice()) {
            Err(_) => {
                self.ends(&mut actions);
            },
            Ok(None) => {},
            Ok(Some(frame)) => match frame.kind {
                FrameKind::Ping => {
                    let pong = Frame { id: 0, kind: FrameKind::Pong, data: Vec::new() };
                    assert(pong@ =~= frame::heartbeat_frame(FrameKind::Pong));
                    self.sends(&mut actions, pong, MessagePriority::RealTime);
                },
                FrameKind::Pong => {},
                FrameKind::Message | FrameKind::Event => {
                    tell(&mut actions, SessionAction::Inbox(frame));
                },
            },
        }
        actions
    }

    /// Sends everything that waits; returns whether a frame could not be sealed.
    fn flush(&mut self) -> (r: (Vec<SessionAction>, bool))
        requires
            old(self)@.wf(),
        ensures
            final(self)@.wf(),
            ({
                let done = flush(old(self)@.link, old(self)@.queue);
                &&& final(self)@ == (SessionState {
                    link: done.link,
                    queue: done.queue,
                    ..old(self)@
                })
                &&& told(r.0@) == done.sent
                &&& r.1 == done.failed
            }),
    {
        let mut actions = tell_nothing();
        let ghost all = flush(self@.link, self@.queue);
        assert(told(actions@) + all.sent =~= all.sent);
        loop
            invariant
                self@.wf(),
                self@ == (SessionState { link: self@.link, queue: self@.queue, ..old(self)@ }),
                all == flush(old(self)@.link, old(self)@.queue),
                ({
                    let rest = flush(self@.link, self@.queue);
                    &&& told(actions@) + rest.sent == all.sent
                    &&& rest.failed == all.failed
                    &&& rest.link == all.link
                    &&& rest.queue == all.queue
                }),
            decreases self@.queue.total(),
        {
            let ghost before = self@;
            proof {
                scheduler::law_pop_takes_one(before.queue);
            }
            match self.outbox.take() {
                None => {
                    assert(told(actions@) + Seq::<SessionActionModel>::empty() =~= told(actions@));
                    return (actions, false);
                },
                Some(frame) => match self.link.seal(&frame) {
                    Err(_) => {
                        assert(told(actions@) + Seq::<SessionActionModel>::empty() =~= told(
                            actions@,
                        ));
                        return (actions, true);
                    },
                    Ok(packets) => {
                        let ghost head = told(actions@);
                        let action = SessionAction::SendPackets(packets);
                        tell(&mut actions, action);
                        proof {
                            let rest = flush(self@.link, self@.queue);
                            assert(head.push(action@) + rest.sent =~= head + (seq![action@]
                                + rest.sent));
                        }
                    },
                },
            }
        }
    }

    fn sends(&mut self, actions: &mut Vec<SessionAction>, frame: Frame, priority: MessagePriority)
        requires
            old(self)@.wf(),
        ensures
            final(self)@.wf(),
            ({
                let step = old(self)@.sends(told(old(actions)@), frame@, priority.level());
                &&& final(self)@ == step.after
                &&& told(final(actions)@) == step.actions
            }),
    {
        self.outbox.put(frame, priority);
        let (more, failed) = self.flush();
        tell_all(actions, more);
        if failed {
            self.ends(actions);
        }
    }

    fn commanded(&mut self, cmd: SessionCmd) -> (r: Vec<SessionAction>)
        requires
            old(self)@.wf(),
        ensures
            final(self)@.wf(),
            final(self)@ == old(self)@.commanded(cmd).after,
            told(r@) == old(self)@.commanded(cmd).actions,
    {
        match cmd {
            SessionCmd::Close => {
                let mut actions = tell_nothing();
                self.ends(&mut actions);
                actions
            },
            SessionCmd::Send { frame, priority } => {
                let mut actions = tell_nothing();
                self.sends(&mut actions, frame, priority);
                actions
            },
        }
    }

    fn heartbeat(&mut self) -> (r: Vec<SessionAction>)
        requires
            old(self)@.wf(),
        ensures
            final(self)@.wf(),
            final(self)@ == old(self)@.heartbeat().after,
            told(r@) == old(self)@.heartbeat().actions,
    {
        let mut actions = tell_nothing();
        if self.waiting_for_pong {
            self.ends(&mut actions);
            return actions;
        }
        let ping = Frame { id: 0, kind: FrameKind::Ping, data: Vec::new() };
        assert(ping@ =~= frame::heartbeat_frame(FrameKind::Ping));
        if let Ok(packets) = self.link.seal(&ping) {
            tell(&mut actions, SessionAction::SendPing(packets));
        }
        tell(&mut actions, SessionAction::ArmHeartbeat(self.heartbeat_timeout.clone()));
        self.waiting_for_pong = true;
        assert(told(actions@) =~= old(self)@.heartbeat().actions);
        actions
    }

    /// Decides what is done about an event.
    pub fn step(&mut self, event: SessionEvent) -> (r: Vec<SessionAction>)
        requires
            old(self)@.wf(),
        ensures
            final(self)@.wf(),
            final(self)@ == old(self)@.step(event).after,
            told(r@) == old(self)@.step(event).actions,
    {
        if self.ended {
            return tell_nothing();
        }
        match event {
            SessionEvent::Binary(packet) => self.received(&packet),
            SessionEvent::Command(cmd) => self.commanded(cmd),
            SessionEvent::HeartbeatDue => self.heartbeat(),
            SessionEvent::NoBinary | SessionEvent::InboxClosed | SessionEvent::SendFailed => {
                let mut actions = tell_nothing();
                self.ends(&mut actions);
                actions
            },
        }
    }
}

/// Everything that waits is sent: one batch of packets for each waiting frame, and nothing waits
/// any more, unless a frame cannot be sealed.
proof fn lemma_flush_sends_all(link: LinkModel, queue: Scheduled<FrameModel>)
    requires
        queue.wf(),
    ensures
        !flush(link, queue).failed ==> flush(link, queue).sent.len() == queue.total() && flush(
            link,
            queue,
        ).queue.total() == 0,
        forall|i: int|
            0 <= i < flush(link, queue).sent.len() ==> #[trigger] flush(
                link,
                queue,
            ).sent[i] is SendPackets,
    decreases queue.total(),
{
    scheduler::law_pop_takes_one(queue);
    if let Some(frame) = queue.next_item() {
        let (packets, after) = link::sealing(link, frame);
        if packets is Some {
            lemma_flush_sends_all(after, queue.popped());
        }
    }
}

/// Nothing is left waiting: a session in which nothing waits, as at its start, is so again after
/// every step, unless the step ends it.
pub proof fn law_nothing_is_left_waiting(s: SessionState, event: SessionEvent)
    requires
        s.wf(),
        s.queue.total() == 0,
    ensures
        s.step(event).after.ended || s.step(event).after.queue.total() == 0,
{
    let pong = frame::heartbeat_frame(FrameKind::Pong);
    if let SessionEvent::Binary(packet) = event {
        let link = link::receiving(s.link, packet@).1;
        lemma_flush_sends_all(link, s.queue.enqueued(pong, 0));
    }
    if let SessionEvent::Command(SessionCmd::Send { frame, priority }) = event {
        lemma_flush_sends_all(s.link, s.queue.enqueued(frame@, priority.level()));
    }
}

/// A ping is answered at once: where nothing else waits, the pong is all that is sent, behind the
/// restart of the heartbeat.
pub proof fn law_ping_is_answered(s: SessionState, packet: Seq<u8>, f: FrameModel)
    requires
        s.wf(),
        s.queue.total() == 0,
        link::receiving(s.link, packet).0 == Arrival::Frame(f),
        f.kind is Ping,
    ensures
        ({
            let link = link::receiving(s.link, packet).1;
            let step = s.received(packet);
            let restart = SessionActionModel::ArmHeartbeat(s.interval);
            match link::sealing(link, frame::heartbeat_frame(FrameKind::Pong)).0 {
                Some(p) => {
                    &&& step.actions == seq![restart, SessionActionModel::SendPackets(p)]
                    &&& step.after.ended == s.ended
                },
                None => step.after.ended,
            }
        }),
{
    let pong = frame::heartbeat_frame(FrameKind::Pong);
    let link = link::receiving(s.link, packet).1;
    let queue = s.queue.enqueued(pong, 0);
    scheduler::law_enqueue_adds_one(s.queue, pong, MessagePriority::RealTime);
    scheduler::law_pop_takes_one(queue);
    scheduler::law_levels_are_first_in_first_out(queue);
    assert(queue.next_item() == Some(pong));
    let (packets, after) = link::sealing(link, pong);
    if packets is Some {
        scheduler::law_pop_takes_one(queue.popped());
        let rest = flush(after, queue.popped());
        assert(rest.sent =~= Seq::empty());
        assert(s.received(packet).actions =~= seq![
            SessionActionModel::ArmHeartbeat(s.interval),
            SessionActionModel::SendPackets(packets->Some_0),
        ]);
    }
}

/// The owner of a session sees the frames that the client sent, and none of the heartbeat's: a
/// frame that arrives goes to the inbox as it was sent, unless it is a ping or a pong.
pub proof fn law_inbox_gets_what_was_sent(
    s: SessionState,
    packet: Seq<u8>,
    f: FrameModel,
)
    requires
        s.wf(),
        link::receiving(s.link, packet).0 == Arrival::Frame(f),
    ensures
        (f.kind is Message || f.kind is Event) ==> s.received(packet).actions == seq![
            SessionActionModel::ArmHeartbeat(s.interval),
            SessionActionModel::Inbox(f),
        ],
        (f.kind is Ping || f.kind is Pong) ==> forall|i: int|
            0 <= i < s.received(packet).actions.len() ==> !(#[trigger] s.received(
                packet,
            ).actions[i] is Inbox),
        !(f.kind is Ping) ==> s.received(packet).after.ended == s.ended,
{
    let pong = frame::heartbeat_frame(FrameKind::Pong);
    lemma_flush_sends_all(link::receiving(s.link, packet).1, s.queue.enqueued(pong, 0));
    assert(f.kind is Message || f.kind is Event ==> s.received(packet).actions =~= seq![
        SessionActionModel::ArmHeartbeat(s.interval),
        SessionActionModel::Inbox(f),
    ]);
}

/// A dead client is noticed: two heartbeats in a row with nothing received in between end the
/// session, and once ended it does nothing more.
pub proof fn law_silence_ends_the_session(s: SessionState, event: SessionEvent)
    ensures
        s.heartbeat().after.ended || s.heartbeat().after.heartbeat().after.ended,
        s.ended ==> s.step(event).actions.len() == 0 && s.step(event).after == s,
{
}

/// A session ends when its owner closes it, when its owner reads no more, and when the stream
/// fails, ends or brings something that is not binary: the subscribers see `Disconnected` and the
/// connection is closed.
pub proof fn law_session_ends(s: SessionState, event: SessionEvent)
    requires
        !s.ended,
        event is NoBinary || event is InboxClosed || event is SendFailed || (event matches
            SessionEvent::Command(c) && c is Close),
    ensures
        s.step(event).actions == seq![
            SessionActionModel::Publish(StateModel::Disconnected),
            SessionActionModel::Close,
        ],
        s.step(event).after == (SessionState { ended: true, ..s }),
{
    assert(s.step(event).actions =~= seq![
        SessionActionModel::Publish(StateModel::Disconnected),
        SessionActionModel::Close,
    ]);
}

/// A frame that the owner sends goes out at once, where nothing else waits; a frame that cannot be
/// sealed ends the session.
pub proof fn law_sent_frame_goes_out(s: SessionState, frame: Frame, priority: MessagePriority)
    requires
        s.wf(),
        !s.ended,
        s.queue.total() == 0,
    ensures
        ({
            let step = s.step(SessionEvent::Command(SessionCmd::Send { frame, priority }));
            let sealed = link::sealing(s.link, frame@);
            &&& step.after.link == sealed.1
            &&& step.after.waiting_for_pong == s.waiting_for_pong
            &&& sealed.0 matches Some(packets) ==> step.actions == seq![
                SessionActionModel::SendPackets(packets),
            ] && !step.after.ended
            &&& sealed.0 is None ==> step.actions == seq![
                SessionActionModel::Publish(StateModel::Disconnected),
                SessionActionModel::Close,
            ] && step.after.ended
        }),
{
    let step = s.step(SessionEvent::Command(SessionCmd::Send { frame, priority }));
    let queue = s.queue.enqueued(frame@, priority.level());
    scheduler::law_enqueue_adds_one(s.queue, frame@, priority);
    scheduler::law_pop_takes_one(queue);
    scheduler::law_levels_are_first_in_first_out(queue);
    assert(queue.next_level() == priority.level());
    assert(queue.next_item() == Some(frame@));
    let (packets, after) = link::sealing(s.link, frame@);
    match packets {
        Some(p) => {
            scheduler::law_pop_takes_one(queue.popped());
            let rest = flush(after, queue.popped());
            assert(rest.sent =~= Seq::empty());
            assert(step.actions =~= seq![SessionActionModel::SendPackets(p)]);
        },
        None => {
            assert(step.actions =~= seq![
                SessionActionModel::Publish(StateModel::Disconnected),
                SessionActionModel::Close,
            ]);
        },
    }
}

/// The packets of some frames, sealed one after the other.
pub open spec fn sealed_in_turn(link: LinkModel, frames: Seq<FrameModel>) -> Seq<SessionActionModel>
    decreases frames.len(),
{
    if frames.len() == 0 {
        Seq::empty()
    } else {
        let (packets, after) = link::sealing(link, frames[0]);
        seq![SessionActionModel::SendPackets(packets->Some_0)] + sealed_in_turn(
            after,
            frames.skip(1),
        )
    }
}

/// Everything that waits is sent, each frame once and in the scheduler's order; a frame that cannot
/// be sealed stops the sending, and what goes before it is still sent.
pub proof fn law_all_that_waits_is_sent_in_turn(link: LinkModel, queue: Scheduled<FrameModel>)
    requires
        queue.wf(),
    ensures
        ({
            let done = flush(link, queue);
            &&& done.sent == sealed_in_turn(link, scheduler::pops(queue, done.sent.len()))
            &&& done.failed ==> done.sent.len() < queue.total()
            &&& !done.failed ==> done.sent.len() == queue.total() && done.queue.total() == 0
        }),
    decreases queue.total(),
{
    scheduler::law_pop_takes_one(queue);
    let done = flush(link, queue);
    if let Some(frame) = queue.next_item() {
        let (packets, after) = link::sealing(link, frame);
        if packets is Some {
            law_all_that_waits_is_sent_in_turn(after, queue.popped());
            let frames = scheduler::pops(queue, done.sent.len());
            assert(frames.skip(1) =~= scheduler::pops(
                queue.popped(),
                flush(after, queue.popped()).sent.len(),
            ));
            assert(frames[0] == frame);
        }
    }
}

/// A packet that completes no frame, and a pong, only restart the heartbeat; a packet that the link
/// cannot take ends the session behind that. Each lets the session wait for no pong any more.
pub proof fn law_packets_restart_the_heartbeat(s: SessionState, packet: Vec<u8>)
    requires
        !s.ended,
    ensures
        ({
            let step = s.step(SessionEvent::Binary(packet));
            let arrival = link::receiving(s.link, packet@).0;
            let restart = SessionActionModel::ArmHeartbeat(s.interval);
            &&& !step.after.waiting_for_pong
            &&& step.actions.len() > 0 && step.actions[0] == restart
            &&& arrival is Nothing || (arrival matches Arrival::Frame(f) && f.kind is Pong)
                ==> step.actions.len() == 1 && step.after == (SessionState {
                link: link::receiving(s.link, packet@).1,
                waiting_for_pong: false,
                ..s
            })
            &&& !(arrival is Nothing || arrival is Frame) ==> step.after.ended && step.actions
                == seq![
                restart,
                SessionActionModel::Publish(StateModel::Disconnected),
                SessionActionModel::Close,
            ]
        }),
{
    let step = s.step(SessionEvent::Binary(packet));
    let arrival = link::receiving(s.link, packet@).0;
    if !(arrival is Nothing || arrival is Frame) {
        assert(step.actions =~= seq![
            SessionActionModel::ArmHeartbeat(s.interval),
            SessionActionModel::Publish(StateModel::Disconnected),
            SessionActionModel::Close,
        ]);
    }
}

/// A frame that arrives is handled by its kind: messages and events go to the owner as they were
/// sent, and a ping is answered with a pong that goes before all that waits.
pub proof fn law_frames_are_handled_by_kind(s: SessionState, packet: Vec<u8>, f: FrameModel)
    requires
        !s.ended,
        link::receiving(s.link, packet@).0 == Arrival::Frame(f),
    ensures
        ({
            let step = s.step(SessionEvent::Binary(packet));
            let link = link::receiving(s.link, packet@).1;
            let restart = SessionActionModel::ArmHeartbeat(s.interval);
            let pong = FrameModel { id: 0, kind: FrameKind::Pong, data: Seq::empty() };
            let answered = flush(
                link,
                s.queue.enqueued(pong, MessagePriority::RealTime.level()),
            );
            &&& f.kind is Message || f.kind is Event ==> step.actions == seq![
                restart,
                SessionActionModel::Inbox(f),
            ] && step.after == (SessionState { link, waiting_for_pong: false, ..s })
            &&& f.kind is Ping ==> step.actions == seq![restart] + answered.sent + (
            if answered.failed {
                seq![
                    SessionActionModel::Publish(StateModel::Disconnected),
                    SessionActionModel::Close,
                ]
            } else {
                Seq::empty()
            }) && step.after.ended == answered.failed
        }),
{
    let step = s.step(SessionEvent::Binary(packet));
    let restart = SessionActionModel::ArmHeartbeat(s.interval);
    if f.kind is Message || f.kind is Event {
        assert(step.actions =~= seq![restart, SessionActionModel::Inbox(f)]);
    }
    if f.kind is Ping {
        let link = link::receiving(s.link, packet@).1;
        let pong = FrameModel { id: 0, kind: FrameKind::Pong, data: Seq::empty() };
        let answered = flush(link, s.queue.enqueued(pong, 0));
        if !answered.failed {
            assert(step.actions =~= seq![restart] + answered.sent + Seq::empty());
        }
    }
}

/// After a silence a ping goes out, before what waits, and the client has the timeout to answer;
/// after a second silence the session ends.
pub proof fn law_silence_is_met_by_a_ping(s: SessionState)
    requires
        !s.ended,
    ensures
        ({
            let step = s.step(SessionEvent::HeartbeatDue);
            let ping = FrameModel { id: 0, kind: FrameKind::Ping, data: Seq::empty() };
            let sealed = link::sealing(s.link, ping);
            if s.waiting_for_pong {
                step.after.ended && step.actions == seq![
                    SessionActionModel::Publish(StateModel::Disconnected),
                    SessionActionModel::Close,
                ]
            } else {
                &&& !step.after.ended
                &&& step.actions == match sealed.0 {
                    Some(packets) => seq![
                        SessionActionModel::SendPing(packets),
                        SessionActionModel::ArmHeartbeat(s.timeout),
                    ],
                    None => seq![SessionActionModel::ArmHeartbeat(s.timeout)],
                }
                &&& step.after == (SessionState { link: sealed.1, waiting_for_pong: true, ..s })
            }
        }),
{
    let step = s.step(SessionEvent::HeartbeatDue);
    if s.waiting_for_pong {
        assert(step.actions =~= seq![
            SessionActionModel::Publish(StateModel::Disconnected),
            SessionActionModel::Close,
        ]);
    }
}

/// A session begins with its heartbeat: it is not over, nothing waits, no pong is owed, and nothing
/// is half received; what it keeps to is what the server is configured for.
pub proof fn law_session_begins_clean(
    noise: NoiseSession,
    config: &WsServerConfig,
    r: (Vec<SessionAction>, ServerSession),
)
    requires
        ServerSession::start.ensures((noise, config), r),
    ensures
        r.0@.len() == 1,
        told(r.0@)[0] == SessionActionModel::ArmHeartbeat(
            runtime::nanos(config.heartbeat_interval),
        ),
        !r.1@.ended,
        !r.1@.waiting_for_pong,
        r.1@.queue.total() == 0,
        r.1@.link.session == noise@,
        r.1@.link.accumulated.expected == 0,
        r.1@.link.max == config.max_payload_bytes,
        r.1@.interval == runtime::nanos(config.heartbeat_interval),
        r.1@.timeout == runtime::nanos(config.heartbeat_timeout),
{
    assert(told(r.0@).len() == r.0@.len());
}

} // verus!
