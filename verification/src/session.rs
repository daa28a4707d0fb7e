//! The life of one connection: the states it passes through, what the
//! supervisor has to do on each event, and what each of its two pumps
//! decides on what it reads or writes.

use crate::registry::{Delivery, DeliveryHandle, SessionId};
use crate::message::{Message, MessageView};
use vstd::prelude::*;

verus! {

/// Where a connection stands in its life.
#[derive(Debug, Clone, Copy, PartialEq, Eq, Structural)]
pub enum SessionState {
    /// The transport has not handed the connection over yet.
    Connecting,
    /// The connection is accepted and its identity is being bound.
    Authenticating,
    /// The identity is bound, the session is attached, both pumps run.
    Active,
    /// One pump has stopped; the other is being cancelled and the session
    /// is being detached.
    Closing,
    /// Nothing is left of the session. No event leads out of this state.
    Closed,
}

/// One of the two directions of a session.
#[derive(Debug, Clone, Copy, PartialEq, Eq, Structural)]
pub enum Pump {
    /// Reads what the client sends.
    Inbound,
    /// Writes to the client what was published.
    Outbound,
}

/// What can happen to a connection.
#[derive(Debug, Clone, Copy, PartialEq, Eq, Structural)]
pub enum SessionEvent {
    /// The transport accepted the connection.
    Accepted,
    /// The credential was bound to an identity.
    IdentityBound,
    /// The credential was missing or not valid.
    IdentityRefused,
    /// The given pump has stopped, for whatever reason.
    PumpStopped(Pump),
    /// The session is detached and the connection is closed.
    CleanedUp,
}

/// What the supervisor has to do after an event.
#[derive(Debug, Clone, Copy, PartialEq, Eq, Structural)]
pub enum SessionAction {
    /// Ask for the identity behind the presented credential.
    Authenticate,
    /// Attach the session and start both pumps.
    StartPumps,
    /// Refuse the connection; there is nothing to clean up.
    Refuse,
    /// Cancel the given pump, which is the one still running, detach the
    /// session and close the connection.
    CancelAndCleanUp(Pump),
    /// Let go of the connection.
    Release,
    /// The event asks for nothing in this state.
    Nothing,
}

/// The other pump of the same session.
pub open spec fn sibling(pump: Pump) -> Pump {
    match pump {
        Pump::Inbound => Pump::Outbound,
        Pump::Outbound => Pump::Inbound,
    }
}

/// The state that `event` leads to from `state`.
pub open spec fn next_state(state: SessionState, event: SessionEvent) -> SessionState {
    match (state, event) {
        (SessionState::Connecting, SessionEvent::Accepted) => SessionState::Authenticating,
        (SessionState::Authenticating, SessionEvent::IdentityBound) => SessionState::Active,
        (SessionState::Authenticating, SessionEvent::IdentityRefused) => SessionState::Closed,
        (SessionState::Active, SessionEvent::PumpStopped(_)) => SessionState::Closing,
        (SessionState::Closing, SessionEvent::CleanedUp) => SessionState::Closed,
        _ => state,
    }
}

/// What the supervisor has to do when `event` happens in `state`.
pub open spec fn action_for(state: SessionState, event: SessionEvent) -> SessionAction {
    match (state, event) {
        (SessionState::Connecting, SessionEvent::Accepted) => SessionAction::Authenticate,
        (SessionState::Authenticating, SessionEvent::IdentityBound) => SessionAction::StartPumps,
        (SessionState::Authenticating, SessionEvent::IdentityRefused) => SessionAction::Refuse,
        (SessionState::Active, SessionEvent::PumpStopped(pump)) => SessionAction::CancelAndCleanUp(
            sibling(pump),
        ),
        (SessionState::Closing, SessionEvent::CleanedUp) => SessionAction::Release,
        _ => SessionAction::Nothing,
    }
}

/// How far a state is along the life of a connection.
pub open spec fn progress(state: SessionState) -> nat {
    match state {
        SessionState::Connecting => 0,
        SessionState::Authenticating => 1,
        SessionState::Active => 2,
        SessionState::Closing => 3,
        SessionState::Closed => 4,
    }
}

/// The state reached from `state` after all of `events`, in their order.
pub open spec fn state_after(state: SessionState, events: Seq<SessionEvent>) -> SessionState
    decreases events.len(),
{
    if events.len() == 0 {
        state
    } else {
        next_state(state_after(state, events.drop_last()), events.last())
    }
}

/// The other pump of the same session.
pub fn sibling_of(pump: Pump) -> (other: Pump)
    ensures
        other == sibling(pump),
{
    match pump {
        Pump::Inbound => Pump::Outbound,
        Pump::Outbound => Pump::Inbound,
    }
}

/// One step of the session state machine: the state that `event` leads to
/// and what the supervisor has to do.
pub fn transition(state: SessionState, event: SessionEvent) -> (step: (SessionState, SessionAction))
    ensures
        step.0 == next_state(state, event),
        step.1 == action_for(state, event),
{
    match state {
        SessionState::Connecting => match event {
            SessionEvent::Accepted => (SessionState::Authenticating, SessionAction::Authenticate),
            _ => (state, SessionAction::Nothing),
        },
        SessionState::Authenticating => match event {
            SessionEvent::IdentityBound => (SessionState::Active, SessionAction::StartPumps),
            SessionEvent::IdentityRefused => (SessionState::Closed, SessionAction::Refuse),
            _ => (state, SessionAction::Nothing),
        },
        SessionState::Active => match event {
            SessionEvent::PumpStopped(pump) => (
                SessionState::Closing,
                SessionAction::CancelAndCleanUp(sibling_of(pump)),
            ),
            _ => (state, SessionAction::Nothing),
        },
        SessionState::Closing => match event {
            SessionEvent::CleanedUp => (SessionState::Closed, SessionAction::Release),
            _ => (state, SessionAction::Nothing),
        },
        SessionState::Closed => (state, SessionAction::Nothing),
    }
}

/// `Closed` is terminal: no event leads out of it or asks for anything.
pub proof fn law_closed_is_terminal(event: SessionEvent)
    ensures
        next_state(SessionState::Closed, event) == SessionState::Closed,
        action_for(SessionState::Closed, event) == SessionAction::Nothing,
{
}

/// No event takes a session back: each step stays or moves on.
pub proof fn law_sessions_only_advance(state: SessionState, event: SessionEvent)
    ensures
        progress(next_state(state, event)) >= progress(state),
{
}

/// A session becomes active in one way only: by a bound identity, while it
/// is being authenticated.
pub proof fn law_active_needs_bound_identity(state: SessionState, event: SessionEvent)
    requires
        state != SessionState::Active,
        next_state(state, event) == SessionState::Active,
    ensures
        state == SessionState::Authenticating,
        event == SessionEvent::IdentityBound,
{
}

/// A refused identity closes the connection at once: it is never active
/// and nothing is started for it.
pub proof fn law_refusal_closes(events: Seq<SessionEvent>)
    ensures
        next_state(SessionState::Authenticating, SessionEvent::IdentityRefused)
            == SessionState::Closed,
        action_for(SessionState::Authenticating, SessionEvent::IdentityRefused)
            == SessionAction::Refuse,
        state_after(SessionState::Closed, events) == SessionState::Closed,
    decreases events.len(),
{
    if events.len() > 0 {
        law_refusal_closes(events.drop_last());
    }
}

/// Whichever pump of an active session stops, and why, the session starts
/// closing and the other pump is the one to cancel.
pub proof fn law_either_pump_ends_the_session(pump: Pump)
    ensures
        next_state(SessionState::Active, SessionEvent::PumpStopped(pump)) == SessionState::Closing,
        action_for(SessionState::Active, SessionEvent::PumpStopped(pump))
            == SessionAction::CancelAndCleanUp(sibling(pump)),
        sibling(pump) != pump,
        sibling(sibling(pump)) == pump,
{
}

/// Whatever happens to a session, in whatever order, it never gets back to
/// a state that it has left.
pub proof fn law_runs_only_advance(state: SessionState, events: Seq<SessionEvent>)
    ensures
        progress(state_after(state, events)) >= progress(state),
    decreases events.len(),
{
    if events.len() > 0 {
        law_runs_only_advance(state, events.drop_last());
        law_sessions_only_advance(state_after(state, events.drop_last()), events.last());
    }
}

/// What the inbound pump read from the connection.
#[derive(Debug, PartialEq, Eq)]
pub enum InboundFrame {
    /// A text frame that holds a chat submission; the text is its content.
    Chat(String),
    /// A text frame that is no chat submission.
    Malformed,
    /// A frame that carries no text.
    Other,
    /// The peer closed the connection.
    Close,
    /// Reading failed, or the stream ended.
    Failed,
}

/// Mathematical value of an [`InboundFrame`].
pub enum InboundFrameView {
    Chat(Seq<char>),
    Malformed,
    Other,
    Close,
    Failed,
}

impl View for InboundFrame {
    type V = InboundFrameView;

    open spec fn view(&self) -> InboundFrameView {
        match self {
            InboundFrame::Chat(content) => InboundFrameView::Chat(content@),
            InboundFrame::Malformed => InboundFrameView::Malformed,
            InboundFrame::Other => InboundFrameView::Other,
            InboundFrame::Close => InboundFrameView::Close,
            InboundFrame::Failed => InboundFrameView::Failed,
        }
    }
}

/// Whether a pump goes on after what it just handled.
#[derive(Debug, Clone, Copy, PartialEq, Eq, Structural)]
pub enum PumpStep {
    /// The pump handles the next frame or message.
    Continue,
    /// The pump has stopped.
    Stop,
}

/// Whether the inbound pump goes on after `frame`: a close, a read error
/// and the end of the stream stop it, and nothing else does. A frame that
/// is not chat is passed over and the pump reads on.
pub open spec fn inbound_step(frame: InboundFrameView) -> PumpStep {
    match frame {
        InboundFrameView::Close => PumpStep::Stop,
        InboundFrameView::Failed => PumpStep::Stop,
        _ => PumpStep::Continue,
    }
}

/// The frame that a line-based connection read: no byte read means that
/// the peer is gone, and anything else is a line of chat.
pub open spec fn line_frame(bytes_read: usize, line: Seq<char>) -> InboundFrameView {
    if bytes_read == 0 {
        InboundFrameView::Close
    } else {
        InboundFrameView::Chat(line)
    }
}

/// The frame that a line-based connection read.
pub fn frame_of_line(bytes_read: usize, line: String) -> (frame: InboundFrame)
    ensures
        frame@ == line_frame(bytes_read, line@),
{
    if bytes_read == 0 {
        InboundFrame::Close
    } else {
        InboundFrame::Chat(line)
    }
}

/// How writing one message to the connection went.
#[derive(Debug, Clone, Copy, PartialEq, Eq, Structural)]
pub enum WriteOutcome {
    /// The message is on the connection.
    Written,
    /// The message could not be put into its wire form and was passed over.
    Skipped,
    /// Writing to the connection failed.
    Failed,
}

/// Whether the outbound pump goes on after a write: only a failed write
/// stops it.
pub open spec fn outbound_step(outcome: WriteOutcome) -> PumpStep {
    match outcome {
        WriteOutcome::Failed => PumpStep::Stop,
        _ => PumpStep::Continue,
    }
}

/// Whether the outbound pump goes on after a write.
pub fn after_write(outcome: WriteOutcome) -> (step: PumpStep)
    ensures
        step == outbound_step(outcome),
{
    match outcome {
        WriteOutcome::Failed => PumpStep::Stop,
        _ => PumpStep::Continue,
    }
}

/// What the outbound pump has to do next.
#[derive(Debug, PartialEq, Eq)]
pub enum OutboundOrder {
    /// Write this message to the connection.
    Write(Message),
    /// Nothing is pending: wait until something is published.
    Wait,
    /// The session is no longer attached: stop.
    Stop,
}

/// Mathematical value of an [`OutboundOrder`].
pub enum OutboundOrderView {
    Write(MessageView),
    Wait,
    Stop,
}

impl View for OutboundOrder {
    type V = OutboundOrderView;

    open spec fn view(&self) -> OutboundOrderView {
        match self {
            OutboundOrder::Write(message) => OutboundOrderView::Write(message@),
            OutboundOrder::Wait => OutboundOrderView::Wait,
            OutboundOrder::Stop => OutboundOrderView::Stop,
        }
    }
}

/// What the outbound pump does with what its delivery handle gave it.
pub fn order_for(delivery: Delivery) -> (order: OutboundOrder)
    ensures
        match delivery {
            Delivery::Next(message) => order@ == OutboundOrderView::Write(message@),
            Delivery::Idle => order@ == OutboundOrderView::Wait,
            Delivery::Gone => order@ == OutboundOrderView::Stop,
        },
{
    match delivery {
        Delivery::Next(message) => OutboundOrder::Write(message),
        Delivery::Idle => OutboundOrder::Wait,
        Delivery::Gone => OutboundOrder::Stop,
    }
}

/// Mathematical value of a [`Session`].
#[verifier::ext_equal]
pub struct SessionView {
    pub id: SessionId,
    pub identity: Seq<char>,
    pub state: SessionState,
}

/// The state of one authenticated connection: which session it is, whom
/// it speaks for, and where it stands in its life.
#[derive(Debug)]
pub struct Session {
    handle: DeliveryHandle,
    identity: String,
    state: SessionState,
}

impl View for Session {
    type V = SessionView;

    closed spec fn view(&self) -> SessionView {
        SessionView {
            id: self.handle.spec_session(),
            identity: self.identity@,
            state: self.state,
        }
    }
}

impl Session {
    /// The session of an accepted connection whose identity is bound and
    /// which is attached through `handle`: it is active.
    pub fn start(handle: DeliveryHandle, identity: String) -> (session: Session)
        ensures
            session@ == (SessionView {
                id: handle.spec_session(),
                identity: identity@,
                state: SessionState::Active,
            }),
            session@.state == state_after(
                SessionState::Connecting,
                seq![SessionEvent::Accepted, SessionEvent::IdentityBound],
            ),
    {
        let (accepted, _) = transition(SessionState::Connecting, SessionEvent::Accepted);
        let (bound, _) = transition(accepted, SessionEvent::IdentityBound);
        proof {
            let events = seq![SessionEvent::Accepted, SessionEvent::IdentityBound];
            assert(events.drop_last() =~= seq![SessionEvent::Accepted]);
            assert(events.drop_last().drop_last() =~= Seq::<SessionEvent>::empty());
            reveal_with_fuel(state_after, 3);
        }
        Session { handle, identity, state: bound }
    }

    /// The session's identifier.
    pub fn id(&self) -> (id: SessionId)
        ensures
            id == self@.id,
    {
        self.handle.session()
    }

    /// The handle through which the session takes what was published.
    pub fn handle(&self) -> (handle: &DeliveryHandle)
        ensures
            handle.spec_session() == self@.id,
    {
        &self.handle
    }

    /// The identity bound to the session.
    pub fn identity(&self) -> (identity: &String)
        ensures
            identity@ == self@.identity,
    {
        &self.identity
    }

    /// Where the session stands.
    pub fn state(&self) -> (state: SessionState)
        ensures
            state == self@.state,
    {
        self.state
    }

    /// Whether both pumps of the session are meant to run.
    pub fn is_active(&self) -> (active: bool)
        ensures
            active == (self@.state == SessionState::Active),
    {
        self.state == SessionState::Active
    }

    /// Records `event` and says what the supervisor has to do.
    pub fn apply(&mut self, event: SessionEvent) -> (action: SessionAction)
        ensures
            final(self)@.id == old(self)@.id,
            final(self)@.identity == old(self)@.identity,
            final(self)@.state == next_state(old(self)@.state, event),
            action == action_for(old(self)@.state, event),
    {
        let (state, action) = transition(self.state, event);
        self.state = state;
        action
    }
}

} // verus!
