//! What the client's state machines ask to be done.
use std::time::Duration;
use vstd::prelude::*;

use crate::crypto;
use crate::frame::{Frame, FrameModel};
use crate::runtime;
use crate::scheduler::MessagePriority;
use crate::state::{ConnectionState, StateModel};

verus! {

/// One thing to be done. Actions are carried out in their order; where one of `SendText` and
/// `SendPackets` fails, the rest is dropped and the failure is reported.
#[derive(Debug)]
pub enum Action {
    /// Tell the subscribers the new state.
    Publish(ConnectionState),
    /// Wait for a time span, for a command or for the shutdown, and report which it was.
    Wait(Duration),
    /// Open a WS connection to a URL.
    Open(String),
    /// Send a text message.
    SendText(String),
    /// Send binary messages.
    SendPackets(Vec<Vec<u8>>),
    /// Send binary messages until one fails, which is not reported.
    SendPing(Vec<Vec<u8>>),
    /// Ask the `AuthHandler` for the credentials.
    AskAuth,
    /// Let the `AuthHandler` judge the server's response.
    JudgeAuth(Vec<u8>),
    /// Give the server so much time, from now on, for its response to the credentials.
    ArmAuthTimer(Duration),
    /// Let the heartbeat fall due after a time span.
    ArmHeartbeat(Duration),
    /// Answer the pending request of this ID, if there is one.
    Resolve {
        /// The request's ID.
        id: u32,
        /// The response.
        data: Vec<u8>,
    },
    /// Hand an event to the event handler.
    Deliver(Vec<u8>),
    /// Put a frame into the command queue, if there is room.
    Queue {
        /// The frame.
        frame: Frame,
        /// How urgent it is.
        priority: MessagePriority,
    },
    /// Fail all pending requests.
    FailPending,
    /// Report the commands that have come meanwhile.
    TakeCommands,
    /// Close the WS connection.
    Close,
    /// End the loop.
    Exit,
}

/// What an action says.
#[verifier::ext_equal]
pub enum ActionModel {
    Publish(StateModel),
    Wait(nat),
    Open(Seq<char>),
    SendText(Seq<char>),
    SendPackets(Seq<Seq<u8>>),
    SendPing(Seq<Seq<u8>>),
    AskAuth,
    JudgeAuth(Seq<u8>),
    ArmAuthTimer(nat),
    ArmHeartbeat(nat),
    Resolve { id: u32, data: Seq<u8> },
    Deliver(Seq<u8>),
    Queue { frame: FrameModel, priority: MessagePriority },
    FailPending,
    TakeCommands,
    Close,
    Exit,
}

impl View for Action {
    type V = ActionModel;

    open spec fn view(&self) -> ActionModel {
        match *self {
            Action::Publish(state) => ActionModel::Publish(state@),
            Action::Wait(d) => ActionModel::Wait(runtime::nanos(d)),
            Action::Open(url) => ActionModel::Open(url@),
            Action::SendText(text) => ActionModel::SendText(text@),
            Action::SendPackets(packets) => ActionModel::SendPackets(crypto::contents(packets@)),
            Action::SendPing(packets) => ActionModel::SendPing(crypto::contents(packets@)),
            Action::AskAuth => ActionModel::AskAuth,
            Action::JudgeAuth(data) => ActionModel::JudgeAuth(data@),
            Action::ArmAuthTimer(d) => ActionModel::ArmAuthTimer(runtime::nanos(d)),
            Action::ArmHeartbeat(d) => ActionModel::ArmHeartbeat(runtime::nanos(d)),
            Action::Resolve { id, data } => ActionModel::Resolve { id, data: data@ },
            Action::Deliver(data) => ActionModel::Deliver(data@),
            Action::Queue { frame, priority } => ActionModel::Queue { frame: frame@, priority },
            Action::FailPending => ActionModel::FailPending,
            Action::TakeCommands => ActionModel::TakeCommands,
            Action::Close => ActionModel::Close,
            Action::Exit => ActionModel::Exit,
        }
    }
}

/// What some actions say.
pub open spec fn said(actions: Seq<Action>) -> Seq<ActionModel> {
    Seq::new(actions.len(), |i: int| actions[i]@)
}

/// Adds an action.
pub(crate) fn add_action(actions: &mut Vec<Action>, action: Action)
    ensures
        said(final(actions)@) == said(old(actions)@).push(action@),
{
    actions.push(action);
    assert(said(actions@) =~= said(old(actions)@).push(action@));
}

/// Adds actions.
pub(crate) fn add_actions(actions: &mut Vec<Action>, mut more: Vec<Action>)
    ensures
        said(final(actions)@) == said(old(actions)@) + said(more@),
{
    let ghost added = more@;
    actions.append(&mut more);
    assert(said(actions@) =~= said(old(actions)@) + said(added));
}

/// One action alone.
pub(crate) fn one_action(action: Action) -> (r: Vec<Action>)
    ensures
        said(r@) == seq![action@],
{
    let mut actions: Vec<Action> = Vec::new();
    actions.push(action);
    assert(said(actions@) =~= seq![action@]);
    actions
}

/// No action.
pub(crate) fn no_actions() -> (r: Vec<Action>)
    ensures
        said(r@) == Seq::<ActionModel>::empty(),
{
    let actions: Vec<Action> = Vec::new();
    assert(said(actions@) =~= Seq::<ActionModel>::empty());
    actions
}

} // verus!
