//! The connection supervisor: the state that all connections share, the
//! request handlers, and the one path by which a chat message, from a
//! request or from a session's inbound pump, enters the history and is
//! fanned out.

use crate::history::{retained, HistoryBuffer, DEFAULT_HISTORY_CAPACITY};
use crate::identity::{
    after_login, all_minted, consistent, identity_of, law_login_spares_other_users,
    minted_token, token_is_bound, BindingView, LoginDirectory,
};
use crate::message::{Message, MessageView};
use crate::registry::{
    after_publish, after_receive, after_subscribe, after_unsubscribe, dropped_by_publish,
    is_registered, law_publish_reaches_those_with_room, law_receive_takes_the_oldest,
    pending_of, well_formed, RegistryError, SessionId, SubscriberRegistry, SubscriberView,
    DEFAULT_QUEUE_CAPACITY,
};
use crate::session::{
    action_for, inbound_step, next_state, order_for, InboundFrame, InboundFrameView,
    OutboundOrder, OutboundOrderView, Pump, PumpStep, Session, SessionAction, SessionEvent,
    SessionState, SessionView,
};
use crate::trusted::fresh_session_id;
use vstd::prelude::*;

verus! {

/// Mathematical value of an [`ApiResponse`].
#[verifier::ext_equal]
pub struct ApiResponseView {
    pub status: Seq<char>,
    pub message: Seq<char>,
    pub token: Option<Seq<char>>,
    pub messages: Option<Seq<MessageView>>,
}

/// The body of every reply to a request.
#[derive(Debug, PartialEq, Eq)]
pub struct ApiResponse {
    pub status: String,
    pub message: String,
    pub token: Option<String>,
    pub messages: Option<Vec<Message>>,
}

impl View for ApiResponse {
    type V = ApiResponseView;

    open spec fn view(&self) -> ApiResponseView {
        ApiResponseView {
            status: self.status@,
            message: self.message@,
            token: self.token.deep_view(),
            messages: self.messages.deep_view(),
        }
    }
}

/// The reply to a request that was served.
pub open spec fn success(
    message: Seq<char>,
    token: Option<Seq<char>>,
    messages: Option<Seq<MessageView>>,
) -> ApiResponseView {
    ApiResponseView { status: "success"@, message, token, messages }
}

/// The reply to a request that was turned down for the reason `message`.
pub open spec fn failure(message: Seq<char>) -> ApiResponseView {
    ApiResponseView { status: "error"@, message, token: None, messages: None }
}

/// Mathematical value of an [`AppError`].
#[verifier::ext_equal]
pub enum AppErrorView {
    AuthError(Seq<char>),
    ChatError(Seq<char>),
}

/// Why a request was turned down.
#[derive(Debug, PartialEq, Eq)]
pub enum AppError {
    /// The credential or token is missing or not valid.
    AuthError(String),
    /// The chat message could not be handled.
    ChatError(String),
}

impl View for AppError {
    type V = AppErrorView;

    open spec fn view(&self) -> AppErrorView {
        match self {
            AppError::AuthError(message) => AppErrorView::AuthError(message@),
            AppError::ChatError(message) => AppErrorView::ChatError(message@),
        }
    }
}

/// The status code that an error is answered with: 401 where the caller
/// is not authorized, 400 for a bad chat request.
pub open spec fn status_of(error: AppErrorView) -> u16 {
    match error {
        AppErrorView::AuthError(_) => 401,
        AppErrorView::ChatError(_) => 400,
    }
}

/// The reason that an error carries.
pub open spec fn reason_of(error: AppErrorView) -> Seq<char> {
    match error {
        AppErrorView::AuthError(message) => message,
        AppErrorView::ChatError(message) => message,
    }
}

impl AppError {
    /// The status code that the error is answered with.
    pub fn status_code(&self) -> (code: u16)
        ensures
            code == status_of(self@),
    {
        match self {
            AppError::AuthError(_) => 401,
            AppError::ChatError(_) => 400,
        }
    }

    /// The status code and the body that the error is answered with.
    pub fn into_response(self) -> (reply: (u16, ApiResponse))
        ensures
            reply.0 == status_of(self@),
            reply.1@ == failure(reason_of(self@)),
    {
        let (status, error_message) = match self {
            AppError::AuthError(message) => (401u16, message),
            AppError::ChatError(message) => (400u16, message),
        };
        let body = ApiResponse {
            status: String::from_str("error"),
            message: error_message,
            token: None,
            messages: None,
        };
        (status, body)
    }
}

/// Why a connection was not given a session.
#[derive(Debug, PartialEq, Eq)]
pub enum Refusal {
    /// No valid token was presented.
    Unauthorized(AppError),
    /// The session identifier is already attached.
    DuplicateSession,
}

/// Mathematical value of a [`Refusal`].
#[verifier::ext_equal]
pub enum RefusalView {
    Unauthorized(AppErrorView),
    DuplicateSession,
}

impl View for Refusal {
    type V = RefusalView;

    open spec fn view(&self) -> RefusalView {
        match self {
            Refusal::Unauthorized(error) => RefusalView::Unauthorized(error@),
            Refusal::DuplicateSession => RefusalView::DuplicateSession,
        }
    }
}

/// Mathematical value of the shared state.
#[verifier::ext_equal]
pub struct AppStateView {
    /// The history, oldest message first.
    pub history: Seq<MessageView>,
    /// How many messages the history keeps.
    pub history_capacity: nat,
    /// The attached sessions and what each has pending.
    pub registry: Seq<SubscriberView>,
    /// How many messages a session may have pending.
    pub queue_capacity: nat,
    /// The tokens issued and the usernames they stand for.
    pub users: Seq<BindingView>,
    /// The identifier of the message stamped last; 0 before the first.
    pub last_id: u64,
}

/// The identifier of the next message: the time, unless that would not
/// be above the identifier given last, and then the one after that. Only
/// at the very end of the range is there no higher one left.
pub open spec fn next_id(last_id: u64, now: u64) -> u64 {
    if now > last_id {
        now
    } else if last_id < u64::MAX {
        (last_id + 1) as u64
    } else {
        last_id
    }
}

/// The message that the server makes of `content`, sent by `author` at
/// the time `now`.
pub open spec fn stamped(
    state: AppStateView,
    author: Seq<char>,
    content: Seq<char>,
    now: u64,
) -> MessageView {
    MessageView { id: next_id(state.last_id, now), timestamp: now, author, content }
}

/// The state after `author` posted `content` at the time `now`: the
/// stamped message is the newest of the history and was published to the
/// attached sessions.
pub open spec fn after_post(
    state: AppStateView,
    author: Seq<char>,
    content: Seq<char>,
    now: u64,
) -> AppStateView {
    let message = stamped(state, author, content, now);
    AppStateView {
        history: retained(state.history.push(message), state.history_capacity),
        registry: after_publish(state.registry, state.queue_capacity, message),
        last_id: message.id,
        ..state
    }
}

/// Whom a request speaks for: the username behind the presented token,
/// or why there is none.
pub open spec fn authorized(users: Seq<BindingView>, authorization: Option<Seq<char>>) -> Result<
    Seq<char>,
    AppErrorView,
> {
    match authorization {
        None => Err(AppErrorView::AuthError("Missing authorization header"@)),
        Some(token) => if token_is_bound(users, token) {
            Ok(identity_of(users, token))
        } else {
            Err(AppErrorView::AuthError("Invalid token"@))
        },
    }
}

/// What posting a message gave.
#[derive(Debug, PartialEq, Eq)]
pub struct Posted {
    /// The message as it was stamped.
    pub message: Message,
    /// The sessions that were detached because their queues were full.
    pub dropped: Vec<SessionId>,
}

/// The state that all connections of one server share.
pub struct AppState {
    history: HistoryBuffer,
    registry: SubscriberRegistry,
    users: LoginDirectory,
    last_id: u64,
}

impl View for AppState {
    type V = AppStateView;

    closed spec fn view(&self) -> AppStateView {
        AppStateView {
            history: self.history@,
            history_capacity: self.history.spec_capacity(),
            registry: self.registry@,
            queue_capacity: self.registry.spec_queue_capacity(),
            users: self.users@,
            last_id: self.last_id,
        }
    }
}

/// The reply that tells that the server runs.
pub fn handle_status() -> (response: ApiResponse)
    ensures
        response@ == success("Server is running"@, None, None),
{
    ApiResponse {
        status: String::from_str("success"),
        message: String::from_str("Server is running"),
        token: None,
        messages: None,
    }
}

/// The identifier of the next message.
fn issue_id(last_id: u64, now: u64) -> (id: u64)
    ensures
        id == next_id(last_id, now),
{
    if now > last_id {
        now
    } else if last_id < u64::MAX {
        last_id + 1
    } else {
        last_id
    }
}

impl AppState {
    /// The state of a server that has seen nothing yet.
    pub fn new(history_capacity: usize, queue_capacity: usize) -> (state: AppState)
        ensures
            state@ == (AppStateView {
                history: Seq::empty(),
                history_capacity: history_capacity as nat,
                registry: Seq::empty(),
                queue_capacity: queue_capacity as nat,
                users: Seq::empty(),
                last_id: 0,
            }),
    {
        AppState {
            history: HistoryBuffer::new(history_capacity),
            registry: SubscriberRegistry::new(queue_capacity),
            users: LoginDirectory::new(),
            last_id: 0,
        }
    }

    /// The state of a server with the usual capacities.
    pub fn with_defaults() -> (state: AppState)
        ensures
            state@ == (AppStateView {
                history: Seq::empty(),
                history_capacity: DEFAULT_HISTORY_CAPACITY as nat,
                registry: Seq::empty(),
                queue_capacity: DEFAULT_QUEUE_CAPACITY as nat,
                users: Seq::empty(),
                last_id: 0,
            }),
    {
        AppState::new(DEFAULT_HISTORY_CAPACITY, DEFAULT_QUEUE_CAPACITY)
    }

    /// Whom the presented token speaks for.
    fn authorize(&self, authorization: &Option<String>) -> (outcome: Result<String, AppError>)
        ensures
            match authorized(self@.users, authorization.deep_view()) {
                Ok(identity) => outcome matches Ok(username) && username@ == identity,
                Err(error) => outcome matches Err(refused) && refused@ == error,
            },
    {
        match authorization {
            None => Err(AppError::AuthError(String::from_str("Missing authorization header"))),
            Some(token) => match self.users.resolve(token) {
                Some(username) => Ok(username),
                None => Err(AppError::AuthError(String::from_str("Invalid token"))),
            },
        }
    }

    /// The one path by which a chat message enters: stamps `content` with
    /// a fresh identifier, the time `now` and `author`, appends the
    /// message to the history and publishes it to the attached sessions.
    pub fn post(&mut self, author: String, content: String, now: u64) -> (posted: Posted)
        ensures
            final(self)@ == after_post(old(self)@, author@, content@, now),
            posted.message@ == stamped(old(self)@, author@, content@, now),
            posted.dropped@ == dropped_by_publish(old(self)@.registry, old(self)@.queue_capacity),
    {
        let id = issue_id(self.last_id, now);
        let message = Message::new(id, now, author, content);
        self.history.append(message.clone());
        let dropped = self.registry.publish(&message);
        self.last_id = id;
        Posted { message, dropped }
    }

    /// Serves a login: issues the token for `username` and replies with
    /// it. An empty username or password is turned down. Every other
    /// username keeps its entry, and none of them holds the new token.
    pub fn handle_auth(&mut self, username: String, password: String) -> (outcome: Result<
        ApiResponse,
        AppError,
    >)
        ensures
            match outcome {
                Ok(response) => {
                    &&& username@.len() > 0 && password@.len() > 0
                    &&& response@ == success(
                        "Authentication successful"@,
                        Some(minted_token(username@)),
                        None,
                    )
                    &&& final(self)@ == (AppStateView {
                        users: after_login(old(self)@.users, username@),
                        ..old(self)@
                    })
                },
                Err(error) => {
                    &&& username@.len() == 0 || password@.len() == 0
                    &&& error@ == AppErrorView::AuthError("Invalid username or password"@)
                    &&& final(self)@ == old(self)@
                },
            },
            consistent(final(self)@.users),
            all_minted(final(self)@.users),
            outcome is Ok ==> {
                &&& forall|i: int|
                    0 <= i < old(self)@.users.len() && (#[trigger] old(self)@.users[i]).username
                        != username@ ==> final(self)@.users.contains(old(self)@.users[i])
                &&& forall|j: int|
                    0 <= j < final(self)@.users.len() && (#[trigger] final(self)@.users[j]).username
                        != username@ ==> old(self)@.users.contains(final(self)@.users[j])
                        && final(self)@.users[j].token != minted_token(username@)
            },
    {
        self.users.len();
        if username.as_str().is_empty() || password.as_str().is_empty() {
            return Err(AppError::AuthError(String::from_str("Invalid username or password")));
        }
        proof {
            law_login_spares_other_users(self.users@, username@);
        }
        let token = self.users.login(username);
        Ok(
            ApiResponse {
                status: String::from_str("success"),
                message: String::from_str("Authentication successful"),
                token: Some(token),
                messages: None,
            },
        )
    }

    /// Serves a one-shot chat request: posts `content` for the username
    /// behind the presented token and replies with the stamped message.
    pub fn handle_chat(&mut self, authorization: Option<String>, content: String, now: u64) -> (outcome:
        Result<ApiResponse, AppError>)
        ensures
            match authorized(old(self)@.users, authorization.deep_view()) {
                Ok(identity) => {
                    &&& outcome matches Ok(response)
                    &&& response@ == success(
                        "Message sent"@,
                        None,
                        Some(seq![stamped(old(self)@, identity, content@, now)]),
                    )
                    &&& final(self)@ == after_post(old(self)@, identity, content@, now)
                },
                Err(error) => {
                    &&& outcome matches Err(refused)
                    &&& refused@ == error
                    &&& final(self)@ == old(self)@
                },
            },
    {
        let username = match self.authorize(&authorization) {
            Ok(username) => username,
            Err(error) => {
                return Err(error);
            },
        };
        let posted = self.post(username, content, now);
        let mut messages: Vec<Message> = Vec::new();
        messages.push(posted.message);
        assert(messages.deep_view() =~= seq![posted.message@]);
        Ok(
            ApiResponse {
                status: String::from_str("success"),
                message: String::from_str("Message sent"),
                token: None,
                messages: Some(messages),
            },
        )
    }

    /// Serves a history query: replies with the history, oldest first, to
    /// a caller that presents a valid token.
    pub fn get_messages(&self, authorization: Option<String>) -> (outcome: Result<
        ApiResponse,
        AppError,
    >)
        ensures
            match authorized(self@.users, authorization.deep_view()) {
                Ok(_) => {
                    &&& outcome matches Ok(response)
                    &&& response@ == success("Messages retrieved"@, None, Some(self@.history))
                },
                Err(error) => outcome matches Err(refused) && refused@ == error,
            },
    {
        match self.authorize(&authorization) {
            Ok(_) => {},
            Err(error) => {
                return Err(error);
            },
        }
        let messages = self.history.snapshot();
        Ok(
            ApiResponse {
                status: String::from_str("success"),
                message: String::from_str("Messages retrieved"),
                token: None,
                messages: Some(messages),
            },
        )
    }

    /// Decides whether a connection may be upgraded to a session: it may
    /// for the username behind a valid token, and for nobody else.
    pub fn ws_handler(&self, authorization: Option<String>) -> (outcome: Result<String, AppError>)
        ensures
            match authorized(self@.users, authorization.deep_view()) {
                Ok(identity) => outcome matches Ok(username) && username@ == identity,
                Err(error) => outcome matches Err(refused) && refused@ == error,
            },
    {
        self.authorize(&authorization)
    }

    /// Binds the token that a connection presents when it opens to its
    /// username.
    pub fn authenticate_websocket_user(&self, token: Option<String>) -> (outcome: Result<
        String,
        AppError,
    >)
        ensures
            match token {
                None => outcome matches Err(refused) && refused@ == AppErrorView::AuthError(
                    "No token provided"@,
                ),
                Some(presented) => if token_is_bound(self@.users, presented@) {
                    outcome matches Ok(username) && username@ == identity_of(
                        self@.users,
                        presented@,
                    )
                } else {
                    outcome matches Err(refused) && refused@ == AppErrorView::AuthError(
                        "Invalid token"@,
                    )
                },
            },
    {
        match token {
            None => Err(AppError::AuthError(String::from_str("No token provided"))),
            Some(presented) => match self.users.resolve(&presented) {
                Some(username) => Ok(username),
                None => Err(AppError::AuthError(String::from_str("Invalid token"))),
            },
        }
    }

    /// Posts a chat line that a session sent, by the same path as every
    /// other chat message. Posting cannot fail: with nobody attached the
    /// message is still stored, and a session that is dropped for being
    /// slow is no error to the one who posts.
    pub fn process_websocket_message(
        &mut self,
        username: String,
        message_text: String,
        now: u64,
    ) -> (outcome: Result<(), AppError>)
        ensures
            final(self)@ == after_post(old(self)@, username@, message_text@, now),
            outcome is Ok,
    {
        self.post(username, message_text, now);
        Ok(())
    }

    /// Makes the session `id` for a connection whose identity is bound:
    /// attaches it with nothing pending and hands out the session, which
    /// is active. An identifier that is already attached is refused and
    /// nothing changes.
    pub fn attach(&mut self, id: SessionId, identity: String) -> (outcome: Result<
        Session,
        RegistryError,
    >)
        ensures
            match outcome {
                Ok(session) => {
                    &&& !is_registered(old(self)@.registry, id)
                    &&& session@ == (SessionView {
                        id,
                        identity: identity@,
                        state: SessionState::Active,
                    })
                    &&& final(self)@ == (AppStateView {
                        registry: after_subscribe(old(self)@.registry, id),
                        ..old(self)@
                    })
                },
                Err(error) => {
                    &&& error == RegistryError::DuplicateSession
                    &&& is_registered(old(self)@.registry, id)
                    &&& final(self)@ == old(self)@
                },
            },
    {
        match self.registry.subscribe(id) {
            Ok(handle) => Ok(Session::start(handle, identity)),
            Err(error) => Err(error),
        }
    }

    /// Makes a session, under an identifier drawn at random, for a
    /// connection whose identity is bound. The connection is refused only
    /// if the identifier drawn belongs to a session that is attached, and
    /// then nothing changes; while no session is attached, every
    /// connection gets its session.
    pub fn accept(&mut self, identity: String) -> (outcome: Result<Session, RegistryError>)
        ensures
            match outcome {
                Ok(session) => {
                    &&& !is_registered(old(self)@.registry, session@.id)
                    &&& session@.identity == identity@
                    &&& session@.state == SessionState::Active
                    &&& final(self)@ == (AppStateView {
                        registry: after_subscribe(old(self)@.registry, session@.id),
                        ..old(self)@
                    })
                },
                Err(error) => {
                    &&& error == RegistryError::DuplicateSession
                    &&& exists|drawn: SessionId| is_registered(old(self)@.registry, drawn)
                    &&& final(self)@ == old(self)@
                },
            },
            old(self)@.registry.len() == 0 ==> outcome is Ok,
    {
        let id = fresh_session_id();
        self.attach(id, identity)
    }

    /// Gives the connection that presents `authorization` the session
    /// `id`: binds its identity and attaches it. A connection without a
    /// valid token is refused before anything is made for it, and so is
    /// one whose identifier is already attached.
    pub fn connect_as(&mut self, id: SessionId, authorization: Option<String>) -> (outcome: Result<
        Session,
        Refusal,
    >)
        ensures
            match authorized(old(self)@.users, authorization.deep_view()) {
                Ok(identity) => if is_registered(old(self)@.registry, id) {
                    &&& outcome matches Err(refusal)
                    &&& refusal@ == RefusalView::DuplicateSession
                    &&& final(self)@ == old(self)@
                } else {
                    &&& outcome matches Ok(session)
                    &&& session@ == (SessionView { id, identity, state: SessionState::Active })
                    &&& final(self)@ == (AppStateView {
                        registry: after_subscribe(old(self)@.registry, id),
                        ..old(self)@
                    })
                },
                Err(error) => {
                    &&& outcome matches Err(refusal)
                    &&& refusal@ == RefusalView::Unauthorized(error)
                    &&& final(self)@ == old(self)@
                },
            },
    {
        let identity = match self.authorize(&authorization) {
            Ok(identity) => identity,
            Err(error) => {
                return Err(Refusal::Unauthorized(error));
            },
        };
        match self.attach(id, identity) {
            Ok(session) => Ok(session),
            Err(_) => Err(Refusal::DuplicateSession),
        }
    }

    /// Gives the connection that presents `authorization` a session under
    /// an identifier drawn at random. A connection without a valid token
    /// is refused before anything is made for it. One with a valid token
    /// is refused only if the identifier drawn belongs to a session that
    /// is attached; while no session is attached it gets its session.
    pub fn connect(&mut self, authorization: Option<String>) -> (outcome: Result<Session, Refusal>)
        ensures
            match outcome {
                Ok(session) => {
                    &&& authorized(old(self)@.users, authorization.deep_view()) matches Ok(identity)
                    &&& !is_registered(old(self)@.registry, session@.id)
                    &&& session@.identity == identity
                    &&& session@.state == SessionState::Active
                    &&& final(self)@ == (AppStateView {
                        registry: after_subscribe(old(self)@.registry, session@.id),
                        ..old(self)@
                    })
                },
                Err(refusal) => {
                    &&& final(self)@ == old(self)@
                    &&& match authorized(old(self)@.users, authorization.deep_view()) {
                        Ok(_) => {
                            &&& refusal@ == RefusalView::DuplicateSession
                            &&& exists|drawn: SessionId| is_registered(old(self)@.registry, drawn)
                        },
                        Err(error) => refusal@ == RefusalView::Unauthorized(error),
                    }
                },
            },
            authorized(old(self)@.users, authorization.deep_view()) is Ok && old(
                self,
            )@.registry.len() == 0 ==> outcome is Ok,
    {
        let identity = match self.authorize(&authorization) {
            Ok(identity) => identity,
            Err(error) => {
                return Err(Refusal::Unauthorized(error));
            },
        };
        match self.accept(identity) {
            Ok(session) => Ok(session),
            Err(_) => Err(Refusal::DuplicateSession),
        }
    }

    /// One step of a session's inbound pump: handles the frame that was
    /// read and says whether the pump reads on. Chat is posted under the
    /// identity bound to the session, whatever the client may claim; a
    /// frame that is not chat is passed over. The pump of a session that
    /// is not active stops without doing anything.
    pub fn inbound(&mut self, session: &Session, frame: InboundFrame, now: u64) -> (step: PumpStep)
        ensures
            session@.state != SessionState::Active ==> {
                &&& step == PumpStep::Stop
                &&& final(self)@ == old(self)@
            },
            session@.state == SessionState::Active ==> {
                &&& step == inbound_step(frame@)
                &&& final(self)@ == match frame@ {
                    InboundFrameView::Chat(content) => after_post(
                        old(self)@,
                        session@.identity,
                        content,
                        now,
                    ),
                    _ => old(self)@,
                }
            },
    {
        if !session.is_active() {
            return PumpStep::Stop;
        }
        match frame {
            InboundFrame::Chat(content) => {
                self.post(session.identity().clone(), content, now);
                PumpStep::Continue
            },
            InboundFrame::Malformed => PumpStep::Continue,
            InboundFrame::Other => PumpStep::Continue,
            InboundFrame::Close => PumpStep::Stop,
            InboundFrame::Failed => PumpStep::Stop,
        }
    }

    /// One step of a session's outbound pump: takes the oldest message
    /// that the session has pending and says what the pump has to do. A
    /// session that is no longer attached, or not active, is told to stop.
    pub fn outbound(&mut self, session: &Session) -> (order: OutboundOrder)
        ensures
            session@.state != SessionState::Active ==> {
                &&& order@ == OutboundOrderView::Stop
                &&& final(self)@ == old(self)@
            },
            session@.state == SessionState::Active ==> {
                &&& final(self)@ == (AppStateView {
                    registry: after_receive(old(self)@.registry, session@.id),
                    ..old(self)@
                })
                &&& order@ == if !is_registered(old(self)@.registry, session@.id) {
                    OutboundOrderView::Stop
                } else if pending_of(old(self)@.registry, session@.id).len() == 0 {
                    OutboundOrderView::Wait
                } else {
                    OutboundOrderView::Write(pending_of(old(self)@.registry, session@.id).first())
                }
            },
    {
        if !session.is_active() {
            return OutboundOrder::Stop;
        }
        order_for(self.registry.receive(session.handle()))
    }

    /// Records that `pump` of the session has stopped. If the session was
    /// active it is detached at once and starts closing, and the action
    /// names the other pump as the one to cancel.
    pub fn pump_stopped(&mut self, session: &mut Session, pump: Pump) -> (action: SessionAction)
        ensures
            final(session)@.id == old(session)@.id,
            final(session)@.identity == old(session)@.identity,
            final(session)@.state == next_state(
                old(session)@.state,
                SessionEvent::PumpStopped(pump),
            ),
            action == action_for(old(session)@.state, SessionEvent::PumpStopped(pump)),
            old(session)@.state == SessionState::Active ==> {
                &&& final(self)@ == (AppStateView {
                    registry: after_unsubscribe(old(self)@.registry, old(session)@.id),
                    ..old(self)@
                })
                &&& !is_registered(final(self)@.registry, old(session)@.id)
            },
            old(session)@.state != SessionState::Active ==> final(self)@ == old(self)@,
    {
        let action = session.apply(SessionEvent::PumpStopped(pump));
        match action {
            SessionAction::CancelAndCleanUp(_) => {
                self.registry.unsubscribe(session.id());
            },
            _ => {},
        }
        action
    }

    /// Ends the cleanup of a session: detaches it, if anything had left
    /// it attached, and records that it is cleaned up. A closing session
    /// is closed by this; any other stays as it is.
    pub fn finish(&mut self, session: &mut Session) -> (action: SessionAction)
        ensures
            final(session)@.id == old(session)@.id,
            final(session)@.identity == old(session)@.identity,
            final(session)@.state == next_state(old(session)@.state, SessionEvent::CleanedUp),
            action == action_for(old(session)@.state, SessionEvent::CleanedUp),
            old(session)@.state == SessionState::Closing ==> {
                &&& final(self)@ == (AppStateView {
                    registry: after_unsubscribe(old(self)@.registry, old(session)@.id),
                    ..old(self)@
                })
                &&& !is_registered(final(self)@.registry, old(session)@.id)
            },
            old(session)@.state != SessionState::Closing ==> final(self)@ == old(self)@,
    {
        let action = session.apply(SessionEvent::CleanedUp);
        match action {
            SessionAction::Release => {
                self.registry.unsubscribe(session.id());
            },
            _ => {},
        }
        action
    }

    /// A copy of the history, oldest message first.
    pub fn history(&self) -> (messages: Vec<Message>)
        ensures
            messages.deep_view() == self@.history,
    {
        self.history.snapshot()
    }

    /// Number of attached sessions.
    pub fn session_count(&self) -> (count: usize)
        ensures
            count == self@.registry.len(),
            well_formed(self@.registry, self@.queue_capacity),
    {
        self.registry.len()
    }

    /// Whether the session `id` is attached.
    pub fn is_attached(&self, id: SessionId) -> (attached: bool)
        ensures
            attached == is_registered(self@.registry, id),
    {
        self.registry.is_subscribed(id)
    }

    /// How many messages the session `id` has pending, if it is attached.
    pub fn pending_count(&self, id: SessionId) -> (count: Option<usize>)
        ensures
            count is Some == is_registered(self@.registry, id),
            count matches Some(n) ==> n == pending_of(self@.registry, id).len(),
    {
        self.registry.pending_count(id)
    }

    /// Number of usernames that hold a token. Whatever was done to the
    /// state, no token stands for two usernames, no username holds two
    /// tokens, and every token is the one minted for its username.
    pub fn user_count(&self) -> (count: usize)
        ensures
            count == self@.users.len(),
            consistent(self@.users),
            all_minted(self@.users),
    {
        self.users.len()
    }

    /// The identifier of the message stamped last; 0 before the first.
    pub fn last_id(&self) -> (id: u64)
        ensures
            id == self@.last_id,
    {
        self.last_id
    }
}

/// The messages of the history carry ascending identifiers, none above
/// the one given last.
pub open spec fn ids_ascend(state: AppStateView) -> bool {
    &&& forall|i: int, j: int|
        0 <= i < j < state.history.len() ==> (#[trigger] state.history[i]).id < (
        #[trigger] state.history[j]).id
    &&& forall|i: int|
        0 <= i < state.history.len() ==> (#[trigger] state.history[i]).id <= state.last_id
}

/// As long as identifiers are left, a posted message gets one above all
/// that were given before, so that no two messages of a run share one;
/// and it is the time of posting wherever that is high enough.
pub proof fn law_message_ids_are_unique(
    state: AppStateView,
    author: Seq<char>,
    content: Seq<char>,
    now: u64,
)
    requires
        ids_ascend(state),
        state.last_id < u64::MAX,
    ensures
        stamped(state, author, content, now).id > state.last_id,
        now > state.last_id ==> stamped(state, author, content, now).id == now,
        ids_ascend(after_post(state, author, content, now)),
{
    let message = stamped(state, author, content, now);
    let all = state.history.push(message);
    let kept = retained(all, state.history_capacity);
    let shift = all.len() - kept.len();
    assert forall|i: int, j: int| 0 <= i < j < kept.len() implies (#[trigger] kept[i]).id < (
    #[trigger] kept[j]).id by {
        assert(kept[i] == all[i + shift]);
        assert(kept[j] == all[j + shift]);
        if j + shift < state.history.len() {
            assert(state.history[i + shift].id < state.history[j + shift].id);
        } else {
            assert(state.history[i + shift].id <= state.last_id);
        }
    }
    assert forall|i: int| 0 <= i < kept.len() implies (#[trigger] kept[i]).id <= message.id by {
        assert(kept[i] == all[i + shift]);
        if i + shift < state.history.len() {
            assert(state.history[i + shift].id <= state.last_id);
        }
    }
}

/// A posted message reaches every attached session that has room, the
/// session that sent it among them, and reaches it once: it stands, under
/// the author it was posted for, behind what the session had pending and
/// nowhere else. A session that had nothing pending is told to write
/// exactly this message and then has nothing left to write.
pub proof fn law_post_reaches_each_session_once(
    state: AppStateView,
    author: Seq<char>,
    content: Seq<char>,
    now: u64,
    receiver: SessionId,
)
    requires
        well_formed(state.registry, state.queue_capacity),
        is_registered(state.registry, receiver),
        pending_of(state.registry, receiver).len() < state.queue_capacity,
    ensures
        stamped(state, author, content, now).author == author,
        stamped(state, author, content, now).content == content,
        is_registered(after_post(state, author, content, now).registry, receiver),
        pending_of(after_post(state, author, content, now).registry, receiver) == pending_of(
            state.registry,
            receiver,
        ).push(stamped(state, author, content, now)),
        pending_of(state.registry, receiver).len() == 0 ==> {
            let posted = after_post(state, author, content, now).registry;
            &&& pending_of(posted, receiver) == seq![stamped(state, author, content, now)]
            &&& is_registered(after_receive(posted, receiver), receiver)
            &&& pending_of(after_receive(posted, receiver), receiver).len() == 0
        },
{
    let message = stamped(state, author, content, now);
    let posted = after_post(state, author, content, now).registry;
    law_publish_reaches_those_with_room(state.registry, state.queue_capacity, message, receiver);
    law_receive_takes_the_oldest(posted, receiver);
    if pending_of(state.registry, receiver).len() == 0 {
        assert(pending_of(posted, receiver) =~= seq![message]);
        assert(pending_of(posted, receiver).drop_first().len() == 0);
    }
}

/// The port that a server listens on unless told otherwise.
pub const DEFAULT_PORT: u16 = 8080;

/// The port to listen on: the configured one where it was given and is a
/// port number, and the usual one otherwise.
pub fn port_or_default(configured: Option<u16>) -> (port: u16)
    ensures
        port == match configured {
            Some(given) => given,
            None => DEFAULT_PORT,
        },
{
    match configured {
        Some(given) => given,
        None => DEFAULT_PORT,
    }
}

} // verus!
