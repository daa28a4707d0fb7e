use chatty::message::Message;
use chatty::registry::RegistryError;
use chatty::server::{
    handle_status, port_or_default, ApiResponse, AppError, AppState, Refusal, DEFAULT_PORT,
};
use chatty::session::{
    InboundFrame, OutboundOrder, Pump, PumpStep, Session, SessionAction, SessionState,
};

fn auth_error(text: &str) -> AppError {
    AppError::AuthError(text.to_string())
}

fn logged_in(state: &mut AppState, username: &str) -> String {
    let reply = state.handle_auth(username.to_string(), "secret".to_string()).unwrap();
    reply.token.unwrap()
}

fn session_of(state: &mut AppState, id: u128, username: &str) -> Session {
    let token = logged_in(state, username);
    state.connect_as(id, Some(token)).unwrap()
}

fn written(order: OutboundOrder) -> Message {
    match order {
        OutboundOrder::Write(message) => message,
        other => panic!("nothing to write: {:?}", other),
    }
}

#[test]
fn a_new_server_has_seen_nothing() {
    let state = AppState::new(3, 2);
    assert_eq!(state.history(), Vec::<Message>::new());
    assert_eq!(state.session_count(), 0);
    assert_eq!(state.last_id(), 0);
    let usual = AppState::with_defaults();
    assert_eq!(usual.session_count(), 0);
    assert_eq!(usual.history(), Vec::<Message>::new());
}

#[test]
fn the_status_reply_is_fixed() {
    assert_eq!(
        handle_status(),
        ApiResponse {
            status: "success".to_string(),
            message: "Server is running".to_string(),
            token: None,
            messages: None,
        }
    );
}

#[test]
fn a_login_replies_with_the_token() {
    let mut state = AppState::new(3, 2);
    let reply = state.handle_auth("ann".to_string(), "secret".to_string());
    assert_eq!(
        reply,
        Ok(ApiResponse {
            status: "success".to_string(),
            message: "Authentication successful".to_string(),
            token: Some("token_ann".to_string()),
            messages: None,
        })
    );
    assert_eq!(state.ws_handler(Some("token_ann".to_string())), Ok("ann".to_string()));
}

#[test]
fn a_login_without_username_or_password_is_turned_down() {
    let mut state = AppState::new(3, 2);
    let expected = Err(auth_error("Invalid username or password"));
    assert_eq!(state.handle_auth(String::new(), "secret".to_string()), expected);
    assert_eq!(state.handle_auth("ann".to_string(), String::new()), expected);
    assert_eq!(state.handle_auth(String::new(), String::new()), expected);
    assert_eq!(state.ws_handler(Some("token_".to_string())), Err(auth_error("Invalid token")));
    assert_eq!(state.ws_handler(Some("token_ann".to_string())), Err(auth_error("Invalid token")));
}

#[test]
fn a_login_leaves_the_other_usernames_their_tokens() {
    let mut state = AppState::new(3, 2);
    assert_eq!(state.user_count(), 0);
    logged_in(&mut state, "ann");
    logged_in(&mut state, "bob");
    logged_in(&mut state, "cid");
    assert_eq!(state.user_count(), 3);
    logged_in(&mut state, "bob");
    assert_eq!(state.user_count(), 3);
    assert_eq!(state.ws_handler(Some("token_ann".to_string())), Ok("ann".to_string()));
    assert_eq!(state.ws_handler(Some("token_bob".to_string())), Ok("bob".to_string()));
    assert_eq!(state.ws_handler(Some("token_cid".to_string())), Ok("cid".to_string()));
    assert_eq!(state.handle_auth("dan".to_string(), String::new()), Err(auth_error(
        "Invalid username or password"
    )));
    assert_eq!(state.user_count(), 3);
}

#[test]
fn a_second_login_keeps_the_token_valid() {
    let mut state = AppState::new(3, 2);
    assert_eq!(logged_in(&mut state, "ann"), "token_ann");
    assert_eq!(logged_in(&mut state, "bob"), "token_bob");
    assert_eq!(logged_in(&mut state, "ann"), "token_ann");
    assert_eq!(state.ws_handler(Some("token_ann".to_string())), Ok("ann".to_string()));
    assert_eq!(state.ws_handler(Some("token_bob".to_string())), Ok("bob".to_string()));
}

#[test]
fn a_chat_request_is_stamped_stored_and_returned() {
    let mut state = AppState::new(3, 2);
    let token = logged_in(&mut state, "ann");
    let reply = state.handle_chat(Some(token), "hello".to_string(), 1_700_000_000);
    let stamped = Message::new(1_700_000_000, 1_700_000_000, "ann".to_string(), "hello".to_string());
    assert_eq!(
        reply,
        Ok(ApiResponse {
            status: "success".to_string(),
            message: "Message sent".to_string(),
            token: None,
            messages: Some(vec![stamped.clone()]),
        })
    );
    assert_eq!(state.history(), vec![stamped]);
    assert_eq!(state.last_id(), 1_700_000_000);
}

#[test]
fn a_chat_request_without_a_header_is_turned_down() {
    let mut state = AppState::new(3, 2);
    logged_in(&mut state, "ann");
    let reply = state.handle_chat(None, "hello".to_string(), 5);
    assert_eq!(reply, Err(auth_error("Missing authorization header")));
    assert_eq!(state.history(), Vec::<Message>::new());
    assert_eq!(state.last_id(), 0);
}

#[test]
fn a_chat_request_with_an_unknown_token_is_turned_down() {
    let mut state = AppState::new(3, 2);
    logged_in(&mut state, "ann");
    let reply = state.handle_chat(Some("token_eve".to_string()), "hello".to_string(), 5);
    assert_eq!(reply, Err(auth_error("Invalid token")));
    assert_eq!(state.history(), Vec::<Message>::new());
}

#[test]
fn the_history_query_returns_the_snapshot() {
    let mut state = AppState::new(2, 2);
    let token = logged_in(&mut state, "ann");
    state.handle_chat(Some(token.clone()), "one".to_string(), 10).unwrap();
    state.handle_chat(Some(token.clone()), "two".to_string(), 11).unwrap();
    state.handle_chat(Some(token.clone()), "three".to_string(), 12).unwrap();
    let reply = state.get_messages(Some(token));
    assert_eq!(
        reply,
        Ok(ApiResponse {
            status: "success".to_string(),
            message: "Messages retrieved".to_string(),
            token: None,
            messages: Some(vec![
                Message::new(11, 11, "ann".to_string(), "two".to_string()),
                Message::new(12, 12, "ann".to_string(), "three".to_string()),
            ]),
        })
    );
}

#[test]
fn the_history_query_asks_for_a_valid_token() {
    let mut state = AppState::new(2, 2);
    logged_in(&mut state, "ann");
    assert_eq!(state.get_messages(None), Err(auth_error("Missing authorization header")));
    assert_eq!(state.get_messages(Some("nope".to_string())), Err(auth_error("Invalid token")));
}

#[test]
fn an_empty_history_is_returned_as_an_empty_list() {
    let mut state = AppState::new(2, 2);
    let token = logged_in(&mut state, "ann");
    let reply = state.get_messages(Some(token)).unwrap();
    assert_eq!(reply.messages, Some(Vec::<Message>::new()));
}

#[test]
fn errors_are_answered_with_their_status_code() {
    let unauthorized = auth_error("Invalid token");
    assert_eq!(unauthorized.status_code(), 401);
    assert_eq!(
        unauthorized.into_response(),
        (
            401,
            ApiResponse {
                status: "error".to_string(),
                message: "Invalid token".to_string(),
                token: None,
                messages: None,
            }
        )
    );
    let bad_request = AppError::ChatError("Failed to broadcast message".to_string());
    assert_eq!(bad_request.status_code(), 400);
    assert_eq!(
        bad_request.into_response(),
        (
            400,
            ApiResponse {
                status: "error".to_string(),
                message: "Failed to broadcast message".to_string(),
                token: None,
                messages: None,
            }
        )
    );
}

#[test]
fn message_ids_rise_within_one_second() {
    let mut state = AppState::new(10, 2);
    let first = state.post("ann".to_string(), "a".to_string(), 100);
    let second = state.post("ann".to_string(), "b".to_string(), 100);
    let third = state.post("ann".to_string(), "c".to_string(), 99);
    let fourth = state.post("ann".to_string(), "d".to_string(), 500);
    assert_eq!(first.message.id, 100);
    assert_eq!(second.message.id, 101);
    assert_eq!(third.message.id, 102);
    assert_eq!(fourth.message.id, 500);
    assert_eq!(second.message.timestamp, 100);
    assert_eq!(third.message.timestamp, 99);
    assert_eq!(state.last_id(), 500);
}

#[test]
fn the_first_message_at_time_zero_gets_the_id_one() {
    let mut state = AppState::new(10, 2);
    let posted = state.post("ann".to_string(), "a".to_string(), 0);
    assert_eq!(posted.message.id, 1);
    assert_eq!(posted.message.timestamp, 0);
}

#[test]
fn at_the_end_of_the_range_the_id_stays() {
    let mut state = AppState::new(10, 2);
    let last = state.post("ann".to_string(), "a".to_string(), u64::MAX);
    let beyond = state.post("ann".to_string(), "b".to_string(), 5);
    assert_eq!(last.message.id, u64::MAX);
    assert_eq!(beyond.message.id, u64::MAX);
    assert_eq!(beyond.message.timestamp, 5);
}

#[test]
fn a_post_names_the_sessions_it_dropped() {
    let mut state = AppState::new(10, 1);
    let _slow = session_of(&mut state, 1, "ann");
    let quick = session_of(&mut state, 2, "bob");
    assert_eq!(state.post("ann".to_string(), "a".to_string(), 1).dropped, Vec::<u128>::new());
    written(state.outbound(&quick));
    assert_eq!(state.post("ann".to_string(), "b".to_string(), 2).dropped, vec![1]);
    assert!(!state.is_attached(1));
    assert!(state.is_attached(2));
}

#[test]
fn a_token_presented_at_opening_is_bound_to_its_username() {
    let mut state = AppState::new(3, 2);
    let token = logged_in(&mut state, "ann");
    assert_eq!(state.authenticate_websocket_user(Some(token)), Ok("ann".to_string()));
    assert_eq!(state.authenticate_websocket_user(None), Err(auth_error("No token provided")));
    assert_eq!(
        state.authenticate_websocket_user(Some("token_eve".to_string())),
        Err(auth_error("Invalid token"))
    );
}

#[test]
fn a_chat_line_that_reaches_nobody_is_stored_without_error() {
    let mut state = AppState::new(3, 2);
    let outcome = state.process_websocket_message("ann".to_string(), "hello".to_string(), 9);
    assert_eq!(outcome, Ok(()));
    assert_eq!(state.history(), vec![Message::new(9, 9, "ann".to_string(), "hello".to_string())]);
    assert_eq!(state.last_id(), 9);
}

#[test]
fn dropping_the_only_session_is_no_error_to_the_one_who_posts() {
    let mut state = AppState::new(10, 1);
    let slow = session_of(&mut state, 1, "bob");
    assert_eq!(state.process_websocket_message("ann".to_string(), "a".to_string(), 1), Ok(()));
    assert_eq!(state.pending_count(1), Some(1));
    assert_eq!(state.process_websocket_message("ann".to_string(), "b".to_string(), 2), Ok(()));
    assert!(!state.is_attached(1));
    assert_eq!(state.session_count(), 0);
    assert_eq!(state.outbound(&slow), OutboundOrder::Stop);
    assert_eq!(state.process_websocket_message("ann".to_string(), "c".to_string(), 3), Ok(()));
    assert_eq!(state.history().len(), 3);
}

#[test]
fn the_three_ways_in_do_the_same_to_the_state() {
    let mut by_request = AppState::new(10, 4);
    let mut by_line = AppState::new(10, 4);
    let mut by_frame = AppState::new(10, 4);
    let token = logged_in(&mut by_request, "ann");
    let _a = by_request.connect_as(1, Some(token.clone())).unwrap();
    let _b = session_of(&mut by_line, 1, "ann");
    let c = session_of(&mut by_frame, 1, "ann");

    by_request.handle_chat(Some(token), "hello".to_string(), 40).unwrap();
    by_line.process_websocket_message("ann".to_string(), "hello".to_string(), 40).unwrap();
    by_frame.inbound(&c, InboundFrame::Chat("hello".to_string()), 40);

    assert_eq!(by_request.history(), by_line.history());
    assert_eq!(by_line.history(), by_frame.history());
    assert_eq!(by_request.pending_count(1), Some(1));
    assert_eq!(by_line.pending_count(1), Some(1));
    assert_eq!(by_frame.pending_count(1), Some(1));
    assert_eq!(by_request.last_id(), 40);
    assert_eq!(by_line.last_id(), 40);
    assert_eq!(by_frame.last_id(), 40);
}

#[test]
fn a_chat_line_that_reaches_a_session_is_fine() {
    let mut state = AppState::new(3, 2);
    let session = session_of(&mut state, 1, "bob");
    let outcome = state.process_websocket_message("ann".to_string(), "hello".to_string(), 9);
    assert_eq!(outcome, Ok(()));
    assert_eq!(
        state.outbound(&session),
        OutboundOrder::Write(Message::new(9, 9, "ann".to_string(), "hello".to_string()))
    );
}

#[test]
fn a_connection_without_a_valid_token_is_refused_and_leaves_no_entry() {
    let mut state = AppState::new(3, 2);
    logged_in(&mut state, "ann");
    let absent = state.connect_as(1, None);
    assert_eq!(
        absent.err(),
        Some(Refusal::Unauthorized(auth_error("Missing authorization header")))
    );
    let invalid = state.connect_as(1, Some("token_eve".to_string()));
    assert_eq!(invalid.err(), Some(Refusal::Unauthorized(auth_error("Invalid token"))));
    let drawn = state.connect(Some("token_eve".to_string()));
    assert_eq!(drawn.err(), Some(Refusal::Unauthorized(auth_error("Invalid token"))));
    assert_eq!(state.connect(None).err(), Some(Refusal::Unauthorized(auth_error(
        "Missing authorization header"
    ))));
    assert_eq!(state.session_count(), 0);
    assert!(!state.is_attached(1));
}

#[test]
fn a_connection_with_a_valid_token_gets_an_active_session() {
    let mut state = AppState::new(3, 2);
    let token = logged_in(&mut state, "ann");
    let session = state.connect_as(17, Some(token)).unwrap();
    assert_eq!(session.id(), 17);
    assert_eq!(session.identity(), "ann");
    assert_eq!(session.state(), SessionState::Active);
    assert!(state.is_attached(17));
    assert_eq!(state.pending_count(17), Some(0));
    assert_eq!(state.session_count(), 1);
}

#[test]
fn a_session_identifier_in_use_is_refused() {
    let mut state = AppState::new(3, 2);
    let _first = session_of(&mut state, 17, "ann");
    let token = logged_in(&mut state, "bob");
    let second = state.connect_as(17, Some(token));
    assert_eq!(second.err(), Some(Refusal::DuplicateSession));
    assert_eq!(state.session_count(), 1);
    let direct = state.attach(17, "bob".to_string());
    assert_eq!(direct.err(), Some(RegistryError::DuplicateSession));
    assert_eq!(state.session_count(), 1);
}

#[test]
fn drawn_session_identifiers_differ() {
    let mut state = AppState::new(3, 2);
    let token = logged_in(&mut state, "ann");
    let first = state.connect(Some(token.clone())).unwrap();
    let second = state.connect(Some(token)).unwrap();
    assert_ne!(first.id(), second.id());
    assert!(state.is_attached(first.id()));
    assert!(state.is_attached(second.id()));
    assert_eq!(state.session_count(), 2);
    assert_eq!(first.identity(), "ann");
    assert_eq!(second.identity(), "ann");
}

#[test]
fn hello_from_one_session_reaches_both_under_the_bound_identity() {
    let mut state = AppState::new(10, 4);
    let s1 = session_of(&mut state, 1, "ann");
    let s2 = session_of(&mut state, 2, "bob");

    let step = state.inbound(&s1, InboundFrame::Chat("hello".to_string()), 1_700_000_000);
    assert_eq!(step, PumpStep::Continue);

    let to_s1 = written(state.outbound(&s1));
    let to_s2 = written(state.outbound(&s2));
    assert_eq!(to_s1.content, "hello");
    assert_eq!(to_s1.author, "ann");
    assert_eq!(to_s2.content, "hello");
    assert_eq!(to_s2.author, "ann");
    assert_eq!(to_s1, to_s2);
    assert_eq!(to_s1.id, 1_700_000_000);
    assert_eq!(to_s1.timestamp, 1_700_000_000);
    assert_eq!(state.outbound(&s1), OutboundOrder::Wait);
    assert_eq!(state.outbound(&s2), OutboundOrder::Wait);
    assert_eq!(state.history(), vec![to_s1]);
}

#[test]
fn a_request_and_a_session_share_one_history_and_one_order() {
    let mut state = AppState::new(10, 4);
    let listener = session_of(&mut state, 1, "ann");
    let token = logged_in(&mut state, "bob");
    state.handle_chat(Some(token), "by request".to_string(), 50).unwrap();
    state.inbound(&listener, InboundFrame::Chat("by session".to_string()), 50);
    let first = written(state.outbound(&listener));
    let second = written(state.outbound(&listener));
    assert_eq!(first, Message::new(50, 50, "bob".to_string(), "by request".to_string()));
    assert_eq!(second, Message::new(51, 50, "ann".to_string(), "by session".to_string()));
    assert_eq!(state.history(), vec![first, second]);
}

#[test]
fn a_malformed_frame_is_passed_over() {
    let mut state = AppState::new(10, 4);
    let session = session_of(&mut state, 1, "ann");
    assert_eq!(state.inbound(&session, InboundFrame::Malformed, 5), PumpStep::Continue);
    assert_eq!(state.inbound(&session, InboundFrame::Other, 5), PumpStep::Continue);
    assert_eq!(state.history(), Vec::<Message>::new());
    assert_eq!(state.outbound(&session), OutboundOrder::Wait);
    assert!(state.is_attached(1));
    assert_eq!(state.inbound(&session, InboundFrame::Chat("ok".to_string()), 6), PumpStep::Continue);
    assert_eq!(state.history().len(), 1);
}

#[test]
fn a_close_or_a_read_error_stops_the_inbound_pump() {
    let mut state = AppState::new(10, 4);
    let session = session_of(&mut state, 1, "ann");
    assert_eq!(state.inbound(&session, InboundFrame::Close, 5), PumpStep::Stop);
    assert_eq!(state.inbound(&session, InboundFrame::Failed, 5), PumpStep::Stop);
    assert_eq!(state.history(), Vec::<Message>::new());
}

#[test]
fn a_failed_outbound_pump_detaches_the_session_and_stops_the_inbound_pump() {
    let mut state = AppState::new(10, 4);
    let mut failing = session_of(&mut state, 1, "ann");
    let other = session_of(&mut state, 2, "bob");

    let action = state.pump_stopped(&mut failing, Pump::Outbound);
    assert_eq!(action, SessionAction::CancelAndCleanUp(Pump::Inbound));
    assert_eq!(failing.state(), SessionState::Closing);
    assert!(!state.is_attached(1));
    assert!(state.is_attached(2));

    let step = state.inbound(&failing, InboundFrame::Chat("late".to_string()), 9);
    assert_eq!(step, PumpStep::Stop);
    assert_eq!(state.history(), Vec::<Message>::new());
    assert_eq!(state.outbound(&other), OutboundOrder::Wait);
    assert_eq!(state.outbound(&failing), OutboundOrder::Stop);

    assert_eq!(state.finish(&mut failing), SessionAction::Release);
    assert_eq!(failing.state(), SessionState::Closed);
    assert_eq!(state.pump_stopped(&mut failing, Pump::Inbound), SessionAction::Nothing);
    assert_eq!(failing.state(), SessionState::Closed);
    assert!(state.is_attached(2));
}

#[test]
fn a_stopped_inbound_pump_cancels_the_outbound_one() {
    let mut state = AppState::new(10, 4);
    let mut session = session_of(&mut state, 1, "ann");
    let action = state.pump_stopped(&mut session, Pump::Inbound);
    assert_eq!(action, SessionAction::CancelAndCleanUp(Pump::Outbound));
    assert_eq!(state.session_count(), 0);
    assert_eq!(state.pump_stopped(&mut session, Pump::Outbound), SessionAction::Nothing);
    assert_eq!(session.state(), SessionState::Closing);
}

#[test]
fn finishing_a_session_that_is_not_closing_changes_nothing() {
    let mut state = AppState::new(10, 4);
    let mut session = session_of(&mut state, 1, "ann");
    assert_eq!(state.finish(&mut session), SessionAction::Nothing);
    assert_eq!(session.state(), SessionState::Active);
    assert!(state.is_attached(1));
}

#[test]
fn a_session_that_never_drains_is_dropped_while_the_other_is_served() {
    let mut state = AppState::new(10, 2);
    let slow = session_of(&mut state, 1, "ann");
    let healthy = session_of(&mut state, 2, "bob");
    for (n, text) in ["a", "b", "c", "d"].into_iter().enumerate() {
        state.inbound(&healthy, InboundFrame::Chat(text.to_string()), 100 + n as u64);
        let got = written(state.outbound(&healthy));
        assert_eq!(got.content, text);
        assert_eq!(got.author, "bob");
    }
    assert!(!state.is_attached(1));
    assert!(state.is_attached(2));
    assert_eq!(state.outbound(&slow), OutboundOrder::Stop);
    assert_eq!(state.history().len(), 4);
}

#[test]
fn the_port_falls_back_to_the_usual_one() {
    assert_eq!(DEFAULT_PORT, 8080);
    assert_eq!(port_or_default(None), 8080);
    assert_eq!(port_or_default(Some(9000)), 9000);
    assert_eq!(port_or_default(Some(0)), 0);
}

#[test]
fn while_no_session_is_attached_every_connection_is_accepted() {
    let mut state = AppState::new(3, 2);
    let session = state.accept("ann".to_string()).unwrap();
    assert_eq!(session.identity(), "ann");
    assert_eq!(session.state(), SessionState::Active);
    assert!(state.is_attached(session.id()));
    assert_eq!(state.session_count(), 1);
    assert_eq!(state.pending_count(session.id()), Some(0));
}
