//! What a client has gone through when it is online.
use vstd::prelude::*;

use crate::auth::AuthOutcome;
use crate::state::StateModel;
use crate::ws::client::action::ActionModel;
use crate::ws::client::config::ConfigModel;
use crate::ws::client::connection_loop;
use crate::ws::client::connection_loop::{
    ClientEvent, ConnectionModel, ConnectionStep, PhaseModel, SurroundingsModel,
};
use crate::ws::client::cmd::ClientCmd;
use crate::ws::client::handshake;
use crate::ws::client::handshake::{DialogEvent, DialogModel, NextModel};
use crate::ws::client::message_loop::{LoopEvent, LoopModel};
use crate::ws::keys;
use crate::ws::keys::KeyModel;
use crate::ws::version;
use crate::ws::version::ReplyModel;

verus! {

/// One event in the life of a client, with what is given along with it.
pub struct Moment {
    pub delay: nat,
    pub around: SurroundingsModel,
    pub event: ClientEvent,
    pub keys: KeyModel,
}

/// What a client does at a moment.
#[verifier::opaque]
pub open spec fn step_at(cfg: ConfigModel, m: ConnectionModel, moment: Moment) -> ConnectionStep {
    m.step(cfg, moment.delay, moment.around, moment.event, moment.keys)
}

/// A client after some moments.
#[verifier::opaque]
pub open spec fn state_after(
    cfg: ConfigModel,
    m: ConnectionModel,
    run: Seq<Moment>,
) -> ConnectionModel
    decreases run.len(),
{
    if run.len() == 0 {
        m
    } else {
        step_at(cfg, state_after(cfg, m, run.drop_last()), run.last()).after
    }
}

/// Whether the subscribers are told a state at a moment of a run.
#[verifier::opaque]
pub open spec fn tells(
    cfg: ConfigModel,
    m: ConnectionModel,
    run: Seq<Moment>,
    i: int,
    state: StateModel,
) -> bool {
    step_at(cfg, state_after(cfg, m, run.take(i)), run[i]).actions.contains(
        ActionModel::Publish(state),
    )
}

/// Whether what the key exchange gives is possible, at every moment of a run.
pub open spec fn is_possible(cfg: ConfigModel, m: ConnectionModel, run: Seq<Moment>) -> bool {
    forall|i: int|
        0 <= i < run.len() ==> connection_loop::keys_may_be(
            state_after(cfg, m, run.take(i)),
            cfg,
            (#[trigger] run[i]).event,
            run[i].keys,
        )
}

/// The moments of an attempt that lead online.
pub struct Milestones {
    /// The subscribers are told `Connecting`.
    pub connecting: int,
    /// The connection is open, and the client says its version.
    pub greeting: int,
    /// The server accepts the version.
    pub welcome: int,
    /// The server's answer finishes the key exchange.
    pub finish: int,
    /// The credentials are sent.
    pub credentials: int,
    /// The client comes online.
    pub online: int,
}

/// The last time that the subscribers were told `Connecting`.
pub open spec fn has_connected(
    cfg: ConfigModel,
    m: ConnectionModel,
    run: Seq<Moment>,
    w: Milestones,
) -> bool {
    &&& 0 <= w.connecting < run.len()
    &&& tells(cfg, m, run, w.connecting, StateModel::Connecting)
    &&& forall|i: int|
        w.connecting < i < run.len() ==> !#[trigger] tells(cfg, m, run, i, StateModel::Connecting)
}

/// Then the connection was open, and they were told `Handshaking`.
pub open spec fn has_greeted(
    cfg: ConfigModel,
    m: ConnectionModel,
    run: Seq<Moment>,
    w: Milestones,
) -> bool {
    &&& has_connected(cfg, m, run, w)
    &&& w.connecting < w.greeting < run.len()
    &&& run[w.greeting].event is Opened
    &&& tells(cfg, m, run, w.greeting, StateModel::Handshaking)
}

/// Then the server accepted the version, and they were told `Authenticating`.
pub open spec fn is_welcome(
    cfg: ConfigModel,
    m: ConnectionModel,
    run: Seq<Moment>,
    w: Milestones,
) -> bool {
    &&& has_greeted(cfg, m, run, w)
    &&& w.greeting < w.welcome < run.len()
    &&& run[w.welcome].event matches ClientEvent::Text(reply) && version::reply_verdict(reply@)
        == ReplyModel::Accepted
    &&& tells(cfg, m, run, w.welcome, StateModel::Authenticating)
}

/// Then the client accepted the server's answer in the key exchange.
pub open spec fn has_keys(
    cfg: ConfigModel,
    m: ConnectionModel,
    run: Seq<Moment>,
    w: Milestones,
) -> bool {
    &&& is_welcome(cfg, m, run, w)
    &&& w.welcome < w.finish < run.len()
    &&& run[w.finish].event matches ClientEvent::Binary(answer) && (state_after(
        cfg,
        m,
        run.take(w.finish),
    ).phase matches PhaseModel::Talking(DialogModel::Keys(session)) && keys::accepts(
        session,
        answer@,
    ) && keys::may_finish(session, answer@, run[w.finish].keys))
}

/// Then there were credentials to send, and the subscribers were told `WaitingForAuth`.
pub open spec fn has_asked(
    cfg: ConfigModel,
    m: ConnectionModel,
    run: Seq<Moment>,
    w: Milestones,
) -> bool {
    &&& has_keys(cfg, m, run, w)
    &&& w.finish < w.credentials < run.len()
    &&& run[w.credentials].event is AuthPayload
    &&& tells(cfg, m, run, w.credentials, StateModel::WaitingForAuth)
}

/// At last they were told `Online`: without any credentials to send, or once the application had
/// judged the server's response a success.
pub open spec fn has_come_online(
    cfg: ConfigModel,
    m: ConnectionModel,
    run: Seq<Moment>,
    w: Milestones,
) -> bool {
    &&& has_keys(cfg, m, run, w)
    &&& w.online < run.len()
    &&& tells(cfg, m, run, w.online, StateModel::Online)
    &&& {
        ||| w.finish < w.online && run[w.online].event == ClientEvent::AuthPayload(None)
        ||| has_asked(cfg, m, run, w) && w.credentials < w.online && run[w.online].event
            == ClientEvent::AuthJudged(AuthOutcome::Success)
    }
}

/// What a client has gone through, by the phase that it is in.
spec fn stage(cfg: ConfigModel, m: ConnectionModel, run: Seq<Moment>, w: Milestones) -> bool {
    match state_after(cfg, m, run).phase {
        PhaseModel::Opening => has_connected(cfg, m, run, w),
        PhaseModel::Talking(d) => match d {
            DialogModel::Version => has_greeted(cfg, m, run, w),
            DialogModel::Keys(_) => is_welcome(cfg, m, run, w),
            DialogModel::AskingAuth(_) => has_keys(cfg, m, run, w),
            DialogModel::AwaitingAuth(_) | DialogModel::JudgingAuth(_) => has_asked(
                cfg,
                m,
                run,
                w,
            ),
        },
        PhaseModel::Online(_) => has_come_online(cfg, m, run, w),
        _ => true,
    }
}

/// The message loop publishes nothing.
proof fn lemma_loop_publishes_nothing(l: LoopModel, e: LoopEvent)
    ensures
        forall|i: int|
            0 <= i < l.step(e).actions.len() ==> !(#[trigger] l.step(e).actions[i] is Publish),
{
}

/// Whether the subscribers are told `Connecting`.
spec fn is_told(actions: Seq<ActionModel>) -> bool {
    actions.contains(ActionModel::Publish(StateModel::Connecting))
}

proof fn lemma_told_together(a: Seq<ActionModel>, b: Seq<ActionModel>)
    ensures
        is_told(a + b) == (is_told(a) || is_told(b)),
{
    let connecting = ActionModel::Publish(StateModel::Connecting);
    if is_told(a) {
        let i = choose|i: int| 0 <= i < a.len() && a[i] == connecting;
        assert((a + b)[i] == connecting);
    }
    if is_told(b) {
        let i = choose|i: int| 0 <= i < b.len() && b[i] == connecting;
        assert((a + b)[a.len() + i] == connecting);
    }
}

proof fn lemma_begins(m: ConnectionModel, delay: nat, around: SurroundingsModel, at_once: bool)
    ensures
        ({
            let step = m.begins(delay, around, at_once);
            is_told(step.actions) == (step.after.phase is Opening)
        }),
{
    let step = m.begins(delay, around, at_once);
    if step.after.phase is Opening {
        assert(step.actions[0] == ActionModel::Publish(StateModel::Connecting));
    }
}

proof fn lemma_fails(
    m: ConnectionModel,
    delay: nat,
    around: SurroundingsModel,
    text: Option<Seq<char>>,
)
    ensures
        ({
            let step = m.fails(delay, around, text);
            is_told(step.actions) == (step.after.phase is Opening)
        }),
{
    let next = m.counting(m.attempt + 1);
    lemma_begins(next, delay, around, false);
    if let Some(t) = text {
        lemma_told_together(
            seq![ActionModel::Publish(StateModel::Error(t))],
            next.begins(delay, around, false).actions,
        );
    }
}

proof fn lemma_drops(m: ConnectionModel, delay: nat, around: SurroundingsModel, asked: bool)
    requires
        m.phase is Online,
    ensures
        ({
            let step = m.drops(delay, around, asked);
            is_told(step.actions) == (step.after.phase is Opening)
        }),
{
    let next = if asked {
        m.counting(0).begins(delay, around, true)
    } else if around.auto_reconnect {
        m.counting(1).begins(delay, around, false)
    } else if around.cancelled {
        m.stops()
    } else {
        m.at(PhaseModel::Dropped).stays()
    };
    lemma_begins(m.counting(0), delay, around, true);
    lemma_begins(m.counting(1), delay, around, false);
    lemma_told_together(
        seq![ActionModel::Publish(StateModel::Disconnected), ActionModel::FailPending],
        next.actions,
    );
}

proof fn lemma_commanded(
    m: ConnectionModel,
    delay: nat,
    around: SurroundingsModel,
    cmd: ClientCmd,
)
    requires
        !(m.phase is Opening),
    ensures
        ({
            let step = m.commanded(delay, around, cmd);
            is_told(step.actions) == (step.after.phase is Opening)
        }),
{
    lemma_begins(m, delay, around, false);
    lemma_begins(m.counting(0), delay, around, false);
    lemma_begins(m.counting(0), delay, around, true);
    lemma_begins(m.counting(m.attempt + 1), delay, around, false);
}

proof fn lemma_dialog_opens_nothing(
    d: DialogModel,
    cfg: ConfigModel,
    event: DialogEvent,
    keys: KeyModel,
    kept: Option<Seq<u8>>,
)
    ensures
        !is_told(handshake::dialog_step(d, cfg, event, keys, kept).actions),
{
    let step = handshake::dialog_step(d, cfg, event, keys, kept);
    match d {
        DialogModel::Version => {
            assert(step == handshake::version_step(event, keys, kept));
        },
        DialogModel::Keys(_) => {
            assert(step == handshake::keys_step(cfg.max, event, keys, kept));
        },
        DialogModel::AskingAuth(link) => {
            assert(step == handshake::credentials_step(link, cfg, event, kept));
        },
        DialogModel::AwaitingAuth(link) => {
            assert(step == handshake::response_step(link, event, kept));
        },
        DialogModel::JudgingAuth(link) => {
            assert(step == handshake::outcome_step(link, event, kept));
        },
    }
}

proof fn lemma_led(
    m: ConnectionModel,
    cfg: ConfigModel,
    delay: nat,
    around: SurroundingsModel,
    next: NextModel,
)
    requires
        m.phase is Talking,
    ensures
        ({
            let led = m.led(cfg, delay, around, next);
            is_told(led.actions) == (led.after.phase is Opening)
        }),
{
    if let NextModel::Failed(text) = next {
        lemma_fails(m, delay, around, text);
    }
}

proof fn lemma_talks(
    m: ConnectionModel,
    cfg: ConfigModel,
    delay: nat,
    around: SurroundingsModel,
    event: DialogEvent,
    keys: KeyModel,
)
    requires
        m.phase is Talking,
    ensures
        ({
            let step = handshake::dialog_step(m.phase->Talking_0, cfg, event, keys, m.kept);
            let led = ConnectionModel { kept: step.kept, ..m }.led(cfg, delay, around, step.next);
            is_told(step.actions + led.actions) == (led.after.phase is Opening)
        }),
{
    let step = handshake::dialog_step(m.phase->Talking_0, cfg, event, keys, m.kept);
    let next = ConnectionModel { kept: step.kept, ..m };
    let led = next.led(cfg, delay, around, step.next);
    lemma_dialog_opens_nothing(m.phase->Talking_0, cfg, event, keys, m.kept);
    lemma_led(next, cfg, delay, around, step.next);
    lemma_told_together(step.actions, led.actions);
}

/// A client tells `Connecting` exactly where it starts to open a connection.
proof fn lemma_connecting_is_told(cfg: ConfigModel, m: ConnectionModel, moment: Moment)
    ensures
        ({
            let step = step_at(cfg, m, moment);
            &&& is_told(step.actions) ==> step.after.phase is Opening
            &&& step.after.phase is Opening && !is_told(step.actions) ==> m.phase is Opening
        }),
{
    reveal(step_at);
    let (delay, around) = (moment.delay, moment.around);
    match m.phase {
        PhaseModel::Online(l) => {
            if let Some(e) = connection_loop::loop_event(moment.event) {
                lemma_loop_publishes_nothing(l, e);
                lemma_drops(m, delay, around, l.step(e).after.reconnect_asked);
                lemma_told_together(
                    l.step(e).actions,
                    m.drops(delay, around, l.step(e).after.reconnect_asked).actions,
                );
            }
        },
        PhaseModel::Talking(_) => {
            if let Some(e) = connection_loop::dialog_event(moment.event) {
                lemma_talks(m, cfg, delay, around, e, moment.keys);
            }
        },
        PhaseModel::Opening => {
            if let ClientEvent::OpenFailed(text) = moment.event {
                lemma_fails(m, delay, around, Some(text@));
            }
        },
        PhaseModel::Idle => {
            lemma_begins(m, delay, around, false);
        },
        _ => {
            if let ClientEvent::Command(cmd) = moment.event {
                lemma_commanded(m, delay, around, cmd);
            }
            if let PhaseModel::Backoff { url } = m.phase {
                assert(m.opens(url).actions[0] == ActionModel::Publish(StateModel::Connecting));
            }
        },
    }
}

/// How a client gets from one phase of an attempt to the next.
proof fn lemma_moves(cfg: ConfigModel, m: ConnectionModel, moment: Moment)
    requires
        connection_loop::keys_may_be(m, cfg, moment.event, moment.keys),
    ensures
        ({
            let step = step_at(cfg, m, moment);
            let after = step.after.phase;
            &&& after matches PhaseModel::Talking(DialogModel::Version) ==> m.phase == after || (
            m.phase is Opening && moment.event is Opened && publishes(
                step,
                StateModel::Handshaking,
            ))
            &&& after matches PhaseModel::Talking(DialogModel::Keys(_)) ==> m.phase == after || (
            m.phase == PhaseModel::Talking(DialogModel::Version) && publishes(
                step,
                StateModel::Authenticating,
            ) && (moment.event matches ClientEvent::Text(reply) && version::reply_verdict(reply@)
                == ReplyModel::Accepted))
            &&& after matches PhaseModel::Talking(DialogModel::AskingAuth(_)) ==> m.phase == after
                || (m.phase matches PhaseModel::Talking(DialogModel::Keys(session)) && (
            moment.event matches ClientEvent::Binary(answer) && keys::accepts(session, answer@)
                && keys::may_finish(session, answer@, moment.keys)))
            &&& after matches PhaseModel::Talking(DialogModel::AwaitingAuth(_)) ==> (
            m.phase matches PhaseModel::Talking(DialogModel::AwaitingAuth(_))) || (
            m.phase matches PhaseModel::Talking(DialogModel::AskingAuth(_)) && moment.event is
                AuthPayload && publishes(step, StateModel::WaitingForAuth))
            &&& after matches PhaseModel::Talking(DialogModel::JudgingAuth(_)) ==> m.phase == after
                || (m.phase matches PhaseModel::Talking(DialogModel::AwaitingAuth(_)))
        }),
{
    reveal(step_at);
    let step = step_at(cfg, m, moment);
    match m.phase {
        PhaseModel::Opening => {
            if moment.event is Opened {
                assert(step.actions[0] == ActionModel::Publish(StateModel::Handshaking));
            }
        },
        PhaseModel::Talking(d) => {
            if let Some(e) = connection_loop::dialog_event(moment.event) {
                match d {
                    DialogModel::Version => {
                        if step.after.phase is Talking {
                            assert(moment.event is Text ==> step.actions[0]
                                == ActionModel::Publish(StateModel::Authenticating));
                        }
                    },
                    DialogModel::AskingAuth(_) => {
                        if moment.event is AuthPayload && step.after.phase is Talking {
                            assert(step.actions[0] == ActionModel::Publish(
                                StateModel::WaitingForAuth,
                            ));
                        }
                    },
                    _ => {},
                }
            }
        },
        _ => {},
    }
}

/// How a client comes online.
proof fn lemma_arrives(cfg: ConfigModel, m: ConnectionModel, moment: Moment)
    ensures
        ({
            let step = step_at(cfg, m, moment);
            step.after.phase is Online ==> m.phase is Online || (publishes(step, StateModel::Online)
                && {
                ||| m.phase matches PhaseModel::Talking(DialogModel::AskingAuth(_)) && moment.event
                    == ClientEvent::AuthPayload(None)
                ||| m.phase matches PhaseModel::Talking(DialogModel::JudgingAuth(_)) && moment.event
                    == ClientEvent::AuthJudged(AuthOutcome::Success)
            })
        }),
{
    reveal(step_at);
    let step = step_at(cfg, m, moment);
    if step.after.phase is Online && !(m.phase is Online) {
        assert(step.actions[0] == ActionModel::Publish(StateModel::Online));
    }
}

/// Whether a step publishes a state.
spec fn publishes(step: ConnectionStep, state: StateModel) -> bool {
    step.actions.contains(ActionModel::Publish(state))
}

/// What happened at a moment does not rest on what came later.
proof fn lemma_past_stays(cfg: ConfigModel, m: ConnectionModel, run: Seq<Moment>, w: Milestones)
    requires
        run.len() > 0,
        !tells(cfg, m, run, run.len() - 1, StateModel::Connecting),
    ensures
        has_connected(cfg, m, run.drop_last(), w) ==> has_connected(cfg, m, run, w),
        has_greeted(cfg, m, run.drop_last(), w) ==> has_greeted(cfg, m, run, w),
        is_welcome(cfg, m, run.drop_last(), w) ==> is_welcome(cfg, m, run, w),
        has_keys(cfg, m, run.drop_last(), w) ==> has_keys(cfg, m, run, w),
        has_asked(cfg, m, run.drop_last(), w) ==> has_asked(cfg, m, run, w),
        has_come_online(cfg, m, run.drop_last(), w) ==> has_come_online(cfg, m, run, w),
{
    let before = run.drop_last();
    assert forall|i: int| 0 <= i < before.len() implies #[trigger] before.take(i) == run.take(
        i,
    ) by {
        assert(before.take(i) =~= run.take(i));
    }
    assert forall|i: int, state: StateModel| 0 <= i < before.len() implies #[trigger] tells(
        cfg,
        m,
        run,
        i,
        state,
    ) == tells(cfg, m, before, i, state) by {
        reveal(tells);
        assert(before.take(i) == run.take(i));
    }
    if has_keys(cfg, m, before, w) {
        assert(before.take(w.finish) == run.take(w.finish));
    }
}

/// The last moment of a run.
proof fn lemma_last_moment(cfg: ConfigModel, m: ConnectionModel, run: Seq<Moment>)
    requires
        run.len() > 0,
    ensures
        ({
            let step = step_at(cfg, state_after(cfg, m, run.drop_last()), run.last());
            &&& run.take(run.len() - 1) == run.drop_last()
            &&& state_after(cfg, m, run) == step.after
            &&& forall|state: StateModel|
                #[trigger] tells(cfg, m, run, run.len() - 1, state) == publishes(step, state)
        }),
{
    reveal(tells);
    reveal(state_after);
    assert(run.take(run.len() - 1) =~= run.drop_last());
}

/// One more moment leads to what fits the next phase.
proof fn lemma_next_stage(
    cfg: ConfigModel,
    m: ConnectionModel,
    run: Seq<Moment>,
    w: Milestones,
) -> (next: Milestones)
    requires
        run.len() > 0,
        is_possible(cfg, m, run),
        stage(cfg, m, run.drop_last(), w),
    ensures
        stage(cfg, m, run, next),
{
    let before = run.drop_last();
    let now = run.len() - 1;
    let s = state_after(cfg, m, before);
    let moment = run.last();
    lemma_last_moment(cfg, m, run);
    assert(connection_loop::keys_may_be(s, cfg, run[now].event, run[now].keys));
    let step = step_at(cfg, s, moment);
    lemma_connecting_is_told(cfg, s, moment);
    lemma_moves(cfg, s, moment);
    lemma_arrives(cfg, s, moment);
    assert(is_told(step.actions) == tells(cfg, m, run, now, StateModel::Connecting));
    let after = state_after(cfg, m, run).phase;
    assert(after == step.after.phase);
    if is_told(step.actions) {
        let next = Milestones { connecting: now, ..w };
        assert(has_connected(cfg, m, run, next));
        return next;
    }
    lemma_past_stays(cfg, m, run, w);
    if after is Opening {
        assert(has_connected(cfg, m, run, w));
        w
    } else if after is Online {
        if s.phase is Online {
            w
        } else {
            let next = Milestones { online: now, ..w };
            assert(has_keys(cfg, m, run, next));
            if !(moment.event is AuthPayload) {
                assert(has_asked(cfg, m, run, next));
            }
            next
        }
    } else if let PhaseModel::Talking(d) = after {
        if s.phase == after {
            w
        } else {
            match d {
                DialogModel::Version => {
                    let next = Milestones { greeting: now, ..w };
                    assert(has_connected(cfg, m, run, next));
                    next
                },
                DialogModel::Keys(_) => {
                    let next = Milestones { welcome: now, ..w };
                    assert(has_greeted(cfg, m, run, next));
                    next
                },
                DialogModel::AskingAuth(_) => {
                    let next = Milestones { finish: now, ..w };
                    assert(is_welcome(cfg, m, run, next));
                    next
                },
                DialogModel::AwaitingAuth(_) => {
                    if s.phase matches PhaseModel::Talking(DialogModel::AskingAuth(_)) {
                        let next = Milestones { credentials: now, ..w };
                        assert(has_keys(cfg, m, run, next));
                        next
                    } else {
                        w
                    }
                },
                DialogModel::JudgingAuth(_) => w,
            }
        }
    } else {
        w
    }
}

/// What a client has gone through fits the phase that it is in.
proof fn lemma_stage(cfg: ConfigModel, m: ConnectionModel, run: Seq<Moment>) -> (w: Milestones)
    requires
        m.phase is Idle,
        is_possible(cfg, m, run),
    ensures
        stage(cfg, m, run, w),
    decreases run.len(),
{
    let unknown = Milestones {
        connecting: 0,
        greeting: 0,
        welcome: 0,
        finish: 0,
        credentials: 0,
        online: 0,
    };
    reveal(state_after);
    if run.len() == 0 {
        return unknown;
    }
    let before = run.drop_last();
    assert forall|i: int| 0 <= i < before.len() implies connection_loop::keys_may_be(
        state_after(cfg, m, before.take(i)),
        cfg,
        (#[trigger] before[i]).event,
        before[i].keys,
    ) by {
        assert(before[i] == run[i]);
        assert(before.take(i) =~= run.take(i));
    }
    let w = lemma_stage(cfg, m, before);
    lemma_next_stage(cfg, m, run, w)
}

/// A client is online only after authentication. While it is online, the following has happened
/// since the subscribers were last told `Connecting`, in this order: the connection was open and
/// they were told `Handshaking`; the server accepted the version and they were told
/// `Authenticating`; the client accepted the server's answer in the key exchange; and then either
/// there were no credentials to send, or they were told `WaitingForAuth` and the application judged
/// the server's response a success. With that they were told `Online`.
pub proof fn law_online_only_after_authentication(
    cfg: ConfigModel,
    m: ConnectionModel,
    run: Seq<Moment>,
)
    requires
        m.phase is Idle,
        is_possible(cfg, m, run),
        state_after(cfg, m, run).phase is Online,
    ensures
        exists|w: Milestones| #[trigger] has_come_online(cfg, m, run, w),
{
    let w = lemma_stage(cfg, m, run);
    assert(has_come_online(cfg, m, run, w));
}

} // verus!
