use chatty::message::Message;
use chatty::registry::{Delivery, SubscriberRegistry};
use chatty::session::{
    after_write, frame_of_line, order_for, sibling_of, transition, InboundFrame, OutboundOrder,
    Pump, PumpStep, Session, SessionAction, SessionEvent, SessionState, WriteOutcome,
};

const STATES: [SessionState; 5] = [
    SessionState::Connecting,
    SessionState::Authenticating,
    SessionState::Active,
    SessionState::Closing,
    SessionState::Closed,
];

const EVENTS: [SessionEvent; 6] = [
    SessionEvent::Accepted,
    SessionEvent::IdentityBound,
    SessionEvent::IdentityRefused,
    SessionEvent::PumpStopped(Pump::Inbound),
    SessionEvent::PumpStopped(Pump::Outbound),
    SessionEvent::CleanedUp,
];

fn rank(state: SessionState) -> u8 {
    match state {
        SessionState::Connecting => 0,
        SessionState::Authenticating => 1,
        SessionState::Active => 2,
        SessionState::Closing => 3,
        SessionState::Closed => 4,
    }
}

#[test]
fn accept_leads_to_authentication() {
    assert_eq!(
        transition(SessionState::Connecting, SessionEvent::Accepted),
        (SessionState::Authenticating, SessionAction::Authenticate)
    );
}

#[test]
fn a_bound_identity_activates_the_session() {
    assert_eq!(
        transition(SessionState::Authenticating, SessionEvent::IdentityBound),
        (SessionState::Active, SessionAction::StartPumps)
    );
}

#[test]
fn a_refused_identity_closes_without_passing_active() {
    assert_eq!(
        transition(SessionState::Authenticating, SessionEvent::IdentityRefused),
        (SessionState::Closed, SessionAction::Refuse)
    );
}

#[test]
fn a_stopped_outbound_pump_cancels_the_inbound_pump() {
    assert_eq!(
        transition(SessionState::Active, SessionEvent::PumpStopped(Pump::Outbound)),
        (SessionState::Closing, SessionAction::CancelAndCleanUp(Pump::Inbound))
    );
}

#[test]
fn a_stopped_inbound_pump_cancels_the_outbound_pump() {
    assert_eq!(
        transition(SessionState::Active, SessionEvent::PumpStopped(Pump::Inbound)),
        (SessionState::Closing, SessionAction::CancelAndCleanUp(Pump::Outbound))
    );
}

#[test]
fn cleanup_closes_a_closing_session() {
    assert_eq!(
        transition(SessionState::Closing, SessionEvent::CleanedUp),
        (SessionState::Closed, SessionAction::Release)
    );
}

#[test]
fn the_second_pump_to_stop_asks_for_nothing() {
    assert_eq!(
        transition(SessionState::Closing, SessionEvent::PumpStopped(Pump::Inbound)),
        (SessionState::Closing, SessionAction::Nothing)
    );
}

#[test]
fn closed_is_terminal() {
    for event in EVENTS {
        assert_eq!(
            transition(SessionState::Closed, event),
            (SessionState::Closed, SessionAction::Nothing)
        );
    }
}

#[test]
fn no_event_takes_a_session_back() {
    for state in STATES {
        for event in EVENTS {
            let (next, _) = transition(state, event);
            assert!(rank(next) >= rank(state));
        }
    }
}

#[test]
fn only_a_bound_identity_leads_to_active() {
    for state in STATES {
        for event in EVENTS {
            let (next, _) = transition(state, event);
            if next == SessionState::Active && state != SessionState::Active {
                assert_eq!(state, SessionState::Authenticating);
                assert_eq!(event, SessionEvent::IdentityBound);
            }
        }
    }
}

#[test]
fn events_out_of_place_change_nothing() {
    assert_eq!(
        transition(SessionState::Connecting, SessionEvent::IdentityBound),
        (SessionState::Connecting, SessionAction::Nothing)
    );
    assert_eq!(
        transition(SessionState::Active, SessionEvent::CleanedUp),
        (SessionState::Active, SessionAction::Nothing)
    );
    assert_eq!(
        transition(SessionState::Authenticating, SessionEvent::PumpStopped(Pump::Inbound)),
        (SessionState::Authenticating, SessionAction::Nothing)
    );
}

#[test]
fn each_pump_is_the_sibling_of_the_other() {
    assert_eq!(sibling_of(Pump::Inbound), Pump::Outbound);
    assert_eq!(sibling_of(Pump::Outbound), Pump::Inbound);
}

#[test]
fn a_started_session_is_active() {
    let mut registry = SubscriberRegistry::new(4);
    let handle = registry.subscribe(11).unwrap();
    let session = Session::start(handle, "ann".to_string());
    assert_eq!(session.id(), 11);
    assert_eq!(session.handle().session(), 11);
    assert_eq!(session.identity(), "ann");
    assert_eq!(session.state(), SessionState::Active);
    assert!(session.is_active());
}

#[test]
fn a_session_walks_to_closed_and_stays_there() {
    let mut registry = SubscriberRegistry::new(4);
    let handle = registry.subscribe(11).unwrap();
    let mut session = Session::start(handle, "ann".to_string());
    assert_eq!(
        session.apply(SessionEvent::PumpStopped(Pump::Inbound)),
        SessionAction::CancelAndCleanUp(Pump::Outbound)
    );
    assert_eq!(session.state(), SessionState::Closing);
    assert!(!session.is_active());
    assert_eq!(session.apply(SessionEvent::CleanedUp), SessionAction::Release);
    assert_eq!(session.state(), SessionState::Closed);
    assert_eq!(session.apply(SessionEvent::IdentityBound), SessionAction::Nothing);
    assert_eq!(session.state(), SessionState::Closed);
    assert_eq!(session.identity(), "ann");
    assert_eq!(session.id(), 11);
}

#[test]
fn a_line_without_bytes_is_a_close() {
    assert_eq!(frame_of_line(0, String::new()), InboundFrame::Close);
    assert_eq!(
        frame_of_line(6, "hello\n".to_string()),
        InboundFrame::Chat("hello\n".to_string())
    );
}

#[test]
fn only_a_failed_write_stops_the_outbound_pump() {
    assert_eq!(after_write(WriteOutcome::Written), PumpStep::Continue);
    assert_eq!(after_write(WriteOutcome::Skipped), PumpStep::Continue);
    assert_eq!(after_write(WriteOutcome::Failed), PumpStep::Stop);
}

#[test]
fn the_outbound_pump_follows_its_delivery() {
    let message = Message::new(1, 2, "ann".to_string(), "hi".to_string());
    assert_eq!(order_for(Delivery::Next(message.clone())), OutboundOrder::Write(message));
    assert_eq!(order_for(Delivery::Idle), OutboundOrder::Wait);
    assert_eq!(order_for(Delivery::Gone), OutboundOrder::Stop);
}
