//! What a terminal client decides: where it sends its requests, what it
//! makes of the reply to a login, how it shows what the relay sends, and
//! what a line typed by its user means.

use crate::server::ApiResponse;
use crate::trusted::{clock_text, trim_text, trimmed_text, utc_clock_text};
use vstd::prelude::*;

verus! {

/// Where a client logs in on the server at `server_address`.
pub open spec fn auth_url(server_address: Seq<char>) -> Seq<char> {
    "http://"@ + server_address + "/auth"@
}

/// Where a client opens its persistent connection.
pub open spec fn websocket_url(server_address: Seq<char>) -> Seq<char> {
    "ws://"@ + server_address + "/ws"@
}

/// Where a client logs in on the server at `server_address`.
pub fn auth_endpoint(server_address: &String) -> (url: String)
    ensures
        url@ == auth_url(server_address@),
{
    String::from_str("http://").concat(server_address.as_str()).concat("/auth")
}

/// Where a client opens its persistent connection.
pub fn websocket_endpoint(server_address: &String) -> (url: String)
    ensures
        url@ == websocket_url(server_address@),
{
    String::from_str("ws://").concat(server_address.as_str()).concat("/ws")
}

/// Why a client could not go on.
#[derive(Debug, Clone, Copy, PartialEq, Eq, Structural)]
pub enum ClientError {
    /// The reply to the login carried no token.
    AuthenticationFailed,
}

impl ClientError {
    /// The error in words.
    pub fn message(&self) -> (text: String)
        ensures
            text@ == "Authentication failed"@,
    {
        String::from_str("Authentication failed")
    }
}

/// The token that the reply to a login carries; a reply without one means
/// that the login failed.
pub fn token_from_response(response: ApiResponse) -> (outcome: Result<String, ClientError>)
    ensures
        match response.token {
            Some(token) => outcome matches Ok(granted) && granted@ == token@,
            None => outcome == Err::<String, ClientError>(ClientError::AuthenticationFailed),
        },
{
    match response.token {
        Some(token) => Ok(token),
        None => Err(ClientError::AuthenticationFailed),
    }
}

/// What the relay tells a client.
#[derive(Debug, PartialEq, Eq)]
pub enum ChatEvent {
    /// Somebody said something.
    Message { id: u64, timestamp: u64, user: String, content: String },
    /// Somebody joined.
    UserJoined { id: u64, timestamp: u64, user: String },
    /// Somebody left.
    UserLeft { id: u64, timestamp: u64, user: String },
}

/// Mathematical value of a [`ChatEvent`].
#[verifier::ext_equal]
pub enum ChatEventView {
    Message { id: u64, timestamp: u64, user: Seq<char>, content: Seq<char> },
    UserJoined { id: u64, timestamp: u64, user: Seq<char> },
    UserLeft { id: u64, timestamp: u64, user: Seq<char> },
}

impl View for ChatEvent {
    type V = ChatEventView;

    open spec fn view(&self) -> ChatEventView {
        match self {
            ChatEvent::Message { id, timestamp, user, content } => ChatEventView::Message {
                id: *id,
                timestamp: *timestamp,
                user: user@,
                content: content@,
            },
            ChatEvent::UserJoined { id, timestamp, user } => ChatEventView::UserJoined {
                id: *id,
                timestamp: *timestamp,
                user: user@,
            },
            ChatEvent::UserLeft { id, timestamp, user } => ChatEventView::UserLeft {
                id: *id,
                timestamp: *timestamp,
                user: user@,
            },
        }
    }
}

/// When the event happened, in seconds since the epoch.
pub open spec fn time_of(event: ChatEventView) -> u64 {
    match event {
        ChatEventView::Message { timestamp, .. } => timestamp,
        ChatEventView::UserJoined { timestamp, .. } => timestamp,
        ChatEventView::UserLeft { timestamp, .. } => timestamp,
    }
}

/// The line that shows `event`, given the time of day `clock` to put in
/// front of it.
pub open spec fn line_text(clock: Seq<char>, event: ChatEventView) -> Seq<char> {
    match event {
        ChatEventView::Message { user, content, .. } => "["@ + clock + "] "@ + user + ": "@
            + content,
        ChatEventView::UserJoined { user, .. } => "["@ + clock + "] *** "@ + user
            + " has joined the chat ***"@,
        ChatEventView::UserLeft { user, .. } => "["@ + clock + "] *** "@ + user
            + " has left the chat ***"@,
    }
}

/// When the event happened, in seconds since the epoch.
pub fn timestamp_of(event: &ChatEvent) -> (timestamp: u64)
    ensures
        timestamp == time_of(event@),
{
    match event {
        ChatEvent::Message { timestamp, .. } => *timestamp,
        ChatEvent::UserJoined { timestamp, .. } => *timestamp,
        ChatEvent::UserLeft { timestamp, .. } => *timestamp,
    }
}

/// The line that shows `event` behind the time of day `clock`.
pub fn render_line(clock: &String, event: &ChatEvent) -> (line: String)
    ensures
        line@ == line_text(clock@, event@),
{
    let mut line = String::from_str("[");
    line.append(clock.as_str());
    match event {
        ChatEvent::Message { user, content, .. } => {
            line.append("] ");
            line.append(user.as_str());
            line.append(": ");
            line.append(content.as_str());
        },
        ChatEvent::UserJoined { user, .. } => {
            line.append("] *** ");
            line.append(user.as_str());
            line.append(" has joined the chat ***");
        },
        ChatEvent::UserLeft { user, .. } => {
            line.append("] *** ");
            line.append(user.as_str());
            line.append(" has left the chat ***");
        },
    }
    line
}

/// The line that shows `event`: the time of day at which it happened, in
/// UTC, then who and what.
pub fn render_event(event: &ChatEvent) -> (line: String)
    ensures
        line@ == line_text(utc_clock_text(time_of(event@)), event@),
{
    let clock = clock_text(timestamp_of(event));
    render_line(&clock, event)
}

/// What a line typed by the user asks for.
#[derive(Debug, PartialEq, Eq)]
pub enum ClientCommand {
    /// Close the connection and leave.
    Quit,
    /// Send this text as a chat message.
    Say(String),
}

/// Mathematical value of a [`ClientCommand`].
#[verifier::ext_equal]
pub enum ClientCommandView {
    Quit,
    Say(Seq<char>),
}

impl View for ClientCommand {
    type V = ClientCommandView;

    open spec fn view(&self) -> ClientCommandView {
        match self {
            ClientCommand::Quit => ClientCommandView::Quit,
            ClientCommand::Say(text) => ClientCommandView::Say(text@),
        }
    }
}

/// What a line means once the white space at its ends is cut off:
/// `/quit` leaves, anything else is said.
pub open spec fn command_of(trimmed: Seq<char>) -> ClientCommandView {
    if trimmed == "/quit"@ {
        ClientCommandView::Quit
    } else {
        ClientCommandView::Say(trimmed)
    }
}

/// What a line means once the white space at its ends is cut off.
pub fn command_for(trimmed: String) -> (command: ClientCommand)
    ensures
        command@ == command_of(trimmed@),
{
    if trimmed == String::from_str("/quit") {
        ClientCommand::Quit
    } else {
        ClientCommand::Say(trimmed)
    }
}

/// What a line typed by the user asks for.
pub fn read_command(line: &String) -> (command: ClientCommand)
    ensures
        command@ == command_of(trimmed_text(line@)),
{
    command_for(trim_text(line))
}

} // verus!
