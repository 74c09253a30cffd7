//! The session as a whole: the phase before a room is joined, the phase
//! inside a room, and the one way from the first to the second.
//!
//! There is no way back. A session that was closed stays in its room,
//! closed; a front end that wants to join again starts a new session on a
//! new connection.

use vstd::prelude::*;
use vstd::string::*;

use crate::chat::{
    chat_effect, chat_next, initial_chat, joined_line, lemma_join_line_first, ChatEffect,
    ChatEvent, ChatModel, ChatViewAction, ChatViewMessage, ChatViewState,
};
use crate::conversation::{lines, system_entry};
use crate::session::{join_outcome_spec, JoinError};
use crate::welcome::{
    initial_welcome, welcome_effect, welcome_next, welcome_view_update, WelcomeEffect,
    WelcomeEvent, WelcomeModel, WelcomeViewAction, WelcomeViewMessage, WelcomeViewState,
};

verus! {

/// The screen that the session is on.
#[derive(Debug, Clone, PartialEq, Eq)]
pub enum Screen {
    WelcomeScreen(WelcomeViewState),
    ChatScreen(ChatViewState),
}

/// The mathematical content of a `Screen`.
pub enum ScreenModel {
    WelcomeScreen(WelcomeModel),
    ChatScreen(ChatModel),
}

impl View for Screen {
    type V = ScreenModel;

    open spec fn view(&self) -> ScreenModel {
        match self {
            Screen::WelcomeScreen(state) => ScreenModel::WelcomeScreen(state@),
            Screen::ChatScreen(state) => ScreenModel::ChatScreen(state@),
        }
    }
}

/// The state of one session.
#[derive(Debug, Clone, PartialEq, Eq)]
pub struct AppState {
    pub screen: Screen,
}

impl View for AppState {
    type V = ScreenModel;

    open spec fn view(&self) -> ScreenModel {
        self.screen@
    }
}

/// A message to one of the two screens.
#[derive(Debug, Clone, PartialEq, Eq)]
pub enum AppMessage {
    WelcomeMessages(WelcomeViewMessage),
    ChatMessages(ChatViewMessage),
}

/// The mathematical content of an `AppMessage`.
pub enum AppEvent {
    WelcomeMessages(WelcomeEvent),
    ChatMessages(ChatEvent),
}

impl View for AppMessage {
    type V = AppEvent;

    open spec fn view(&self) -> AppEvent {
        match self {
            AppMessage::WelcomeMessages(message) => AppEvent::WelcomeMessages(message@),
            AppMessage::ChatMessages(message) => AppEvent::ChatMessages(message@),
        }
    }
}

/// The work on the connection that a message asks for.
#[derive(Debug, Clone, PartialEq, Eq)]
pub enum AppAction {
    /// Nothing.
    Nothing,
    /// Read one message and report it as `WelcomeMessageChanged`.
    ReadGreeting,
    /// Write this request, read one answer and report it as `JoinReply`.
    SendJoin(String),
    /// Start the receive loop.
    StartReader,
    /// Write this frame, as one write.
    Send(String),
    /// Shut the connection down, both ways; the session is over.
    Disconnect,
    /// The join attempt ended without an answer to go by, for this reason;
    /// the session still waits for a room to be joined.
    JoinAborted(JoinError),
}

/// The mathematical content of an `AppAction`.
pub enum AppEffect {
    Nothing,
    ReadGreeting,
    SendJoin(Seq<char>),
    StartReader,
    Send(Seq<char>),
    Disconnect,
    JoinAborted(JoinError),
}

impl View for AppAction {
    type V = AppEffect;

    open spec fn view(&self) -> AppEffect {
        match self {
            AppAction::Nothing => AppEffect::Nothing,
            AppAction::ReadGreeting => AppEffect::ReadGreeting,
            AppAction::SendJoin(request) => AppEffect::SendJoin(request@),
            AppAction::StartReader => AppEffect::StartReader,
            AppAction::Send(frame) => AppEffect::Send(frame@),
            AppAction::Disconnect => AppEffect::Disconnect,
            AppAction::JoinAborted(error) => AppEffect::JoinAborted(*error),
        }
    }
}

/// Which stream of events the front end listens to.
#[derive(Debug, Clone, Copy, PartialEq, Eq)]
pub enum SubscriptionKind {
    /// None.
    Silent,
    /// What the receive loop of the chat screen hands on.
    ChatUpdates,
}

/// The phase of a session.
#[derive(Debug, Clone, PartialEq, Eq)]
pub enum SessionPhase {
    AwaitingRoomJoin,
    InRoom(String, String),
}

/// The mathematical content of a `SessionPhase`: for a room, its
/// identifier and the name under which it was joined.
pub enum PhaseView {
    AwaitingRoomJoin,
    InRoom(Seq<char>, Seq<char>),
}

impl View for SessionPhase {
    type V = PhaseView;

    open spec fn view(&self) -> PhaseView {
        match self {
            SessionPhase::AwaitingRoomJoin => PhaseView::AwaitingRoomJoin,
            SessionPhase::InRoom(room_id, name) => PhaseView::InRoom(room_id@, name@),
        }
    }
}

/// The phase that a session on `screen` is in.
pub open spec fn phase_of(screen: ScreenModel) -> PhaseView {
    match screen {
        ScreenModel::WelcomeScreen(_) => PhaseView::AwaitingRoomJoin,
        ScreenModel::ChatScreen(chat) => PhaseView::InRoom(chat.room_id, chat.name),
    }
}

/// The work that the welcome screen's `effect` asks of the connection.
pub open spec fn welcome_work(effect: WelcomeEffect) -> AppEffect {
    match effect {
        WelcomeEffect::RoomJoined(_, _, _) => AppEffect::Nothing,
        WelcomeEffect::Nothing => AppEffect::Nothing,
        WelcomeEffect::ReadGreeting => AppEffect::ReadGreeting,
        WelcomeEffect::SendJoin(request) => AppEffect::SendJoin(request),
        WelcomeEffect::JoinAborted(error) => AppEffect::JoinAborted(error),
    }
}

/// The work that the chat screen's `effect` asks of the connection.
pub open spec fn chat_work(effect: ChatEffect) -> AppEffect {
    match effect {
        ChatEffect::Nothing => AppEffect::Nothing,
        ChatEffect::Disconnect => AppEffect::Disconnect,
        ChatEffect::StartReader => AppEffect::StartReader,
        ChatEffect::Send(frame) => AppEffect::Send(frame),
    }
}

/// The session after `event`. A message to the screen that the session is
/// on goes to that screen; on the welcome screen, the report that the room
/// was joined leads to the chat screen, whose log holds the line that
/// announces the join and nothing else. A message to the other screen
/// changes nothing.
pub open spec fn app_next(pre: ScreenModel, event: AppEvent) -> ScreenModel {
    match (pre, event) {
        (ScreenModel::WelcomeScreen(welcome), AppEvent::WelcomeMessages(message)) => {
            match welcome_effect(welcome, message) {
                WelcomeEffect::RoomJoined(_, name, room_id) => ScreenModel::ChatScreen(
                    initial_chat(Seq::empty(), name, room_id),
                ),
                _ => ScreenModel::WelcomeScreen(welcome_next(welcome, message)),
            }
        },
        (ScreenModel::ChatScreen(chat), AppEvent::ChatMessages(message)) => ScreenModel::ChatScreen(
            chat_next(chat, message),
        ),
        _ => pre,
    }
}

/// The work on the connection that `event` asks for in the session `pre`.
pub open spec fn app_effect(pre: ScreenModel, event: AppEvent) -> AppEffect {
    match (pre, event) {
        (ScreenModel::WelcomeScreen(welcome), AppEvent::WelcomeMessages(message)) => welcome_work(
            welcome_effect(welcome, message),
        ),
        (ScreenModel::ChatScreen(chat), AppEvent::ChatMessages(message)) => chat_work(
            chat_effect(chat, message),
        ),
        _ => AppEffect::Nothing,
    }
}

/// Whether `event` reports, on the welcome screen `pre`, that the room was
/// joined.
pub open spec fn reports_join(pre: ScreenModel, event: AppEvent) -> bool {
    match (pre, event) {
        (ScreenModel::WelcomeScreen(welcome), AppEvent::WelcomeMessages(message)) => welcome_effect(
            welcome,
            message,
        ) is RoomJoined,
        _ => false,
    }
}

/// A session that is in a room stays in that room, under the same name,
/// whatever happens; and a session leaves the welcome screen only on the
/// report that the room was joined.
pub proof fn lemma_phase_one_way(pre: ScreenModel, event: AppEvent)
    ensures
        phase_of(pre) is InRoom ==> phase_of(app_next(pre, event)) == phase_of(pre),
        phase_of(pre) is AwaitingRoomJoin ==> (phase_of(app_next(pre, event)) is InRoom
            <==> reports_join(pre, event)),
{
}

/// The report that the room was joined leads to the chat screen of that
/// room under that name, open, with an empty input field and a log that
/// holds one entry: the line of the system that announces the join.
pub proof fn lemma_join_seeds_log(pre: ScreenModel, event: AppEvent)
    requires
        reports_join(pre, event),
    ensures
        app_next(pre, event) is ChatScreen,
        phase_of(app_next(pre, event)) == PhaseView::InRoom(
            pre->WelcomeScreen_0.room_id_text,
            pre->WelcomeScreen_0.name_text,
        ),
        app_next(pre, event)->ChatScreen_0.messages == seq![
            system_entry(joined_line(pre->WelcomeScreen_0.name_text)),
        ],
        app_next(pre, event)->ChatScreen_0.current_message.len() == 0,
        !app_next(pre, event)->ChatScreen_0.closed,
        app_effect(pre, event) is Nothing,
{
    let welcome = pre->WelcomeScreen_0;
    lemma_join_line_first(Seq::empty(), welcome.name_text, welcome.room_id_text);
}

/// A join attempt that ends without an answer to go by leaves the session
/// waiting, with the form as it was, and hands the error on.
pub proof fn lemma_join_aborted(welcome: WelcomeModel, reply: Option<Seq<u8>>)
    requires
        join_outcome_spec(reply, welcome.room_id_text, welcome.name_text) is Err,
    ensures
        app_next(
            ScreenModel::WelcomeScreen(welcome),
            AppEvent::WelcomeMessages(WelcomeEvent::JoinReply(reply)),
        ) == ScreenModel::WelcomeScreen(welcome),
        app_effect(
            ScreenModel::WelcomeScreen(welcome),
            AppEvent::WelcomeMessages(WelcomeEvent::JoinReply(reply)),
        ) == AppEffect::JoinAborted(
            join_outcome_spec(reply, welcome.room_id_text, welcome.name_text)->Err_0,
        ),
{
}

/// A session that was closed stays as it is. Asked to leave, it asks for
/// the shutdown again; otherwise it asks for no more work.
pub proof fn lemma_closed_session(pre: ScreenModel, event: AppEvent)
    requires
        pre is ChatScreen,
        pre->ChatScreen_0.closed,
    ensures
        app_next(pre, event) == pre,
        event == AppEvent::ChatMessages(ChatEvent::Disconnect) ==> app_effect(pre, event)
            is Disconnect,
        event != AppEvent::ChatMessages(ChatEvent::Disconnect) ==> app_effect(pre, event)
            is Nothing,
{
}

impl AppState {
    /// A session that waits for a room to be joined.
    pub fn new() -> (state: AppState)
        ensures
            state@ == ScreenModel::WelcomeScreen(initial_welcome()),
    {
        AppState { screen: Screen::WelcomeScreen(WelcomeViewState::new()) }
    }

    /// The phase that the session is in.
    pub fn phase(&self) -> (phase: SessionPhase)
        ensures
            phase@ == phase_of(self@),
    {
        match &self.screen {
            Screen::WelcomeScreen(_) => SessionPhase::AwaitingRoomJoin,
            Screen::ChatScreen(chat) => SessionPhase::InRoom(chat.room_id.clone(), chat.name.clone()),
        }
    }
}

/// Takes one message: hands it to the screen that the session is on,
/// changes the session, and says what work is to be done on the connection.
pub fn update(app_state: &mut AppState, message: AppMessage) -> (action: AppAction)
    ensures
        final(app_state)@ == app_next(old(app_state)@, message@),
        action@ == app_effect(old(app_state)@, message@),
{
    match message {
        AppMessage::WelcomeMessages(welcome_view_message) => {
            let joined = match &mut app_state.screen {
                Screen::WelcomeScreen(welcome_view_state) => {
                    welcome_view_update(welcome_view_state, welcome_view_message)
                },
                Screen::ChatScreen(_) => WelcomeViewAction::Nothing,
            };
            match joined {
                WelcomeViewAction::RoomJoined(_, username, room_id) => {
                    let earlier: Vec<String> = Vec::new();
                    assert(lines(earlier) =~= Seq::<Seq<char>>::empty());
                    app_state.screen = Screen::ChatScreen(
                        ChatViewState::new(earlier, username, room_id),
                    );
                    AppAction::Nothing
                },
                WelcomeViewAction::Nothing => AppAction::Nothing,
                WelcomeViewAction::ReadGreeting => AppAction::ReadGreeting,
                WelcomeViewAction::SendJoin(request) => AppAction::SendJoin(request),
                WelcomeViewAction::JoinAborted(error) => AppAction::JoinAborted(error),
            }
        },
        AppMessage::ChatMessages(chat_view_message) => {
            let action = match &mut app_state.screen {
                Screen::ChatScreen(chat_view_state) => {
                    crate::chat::update(chat_view_state, chat_view_message)
                },
                Screen::WelcomeScreen(_) => ChatViewAction::Nothing,
            };
            match action {
                ChatViewAction::Nothing => AppAction::Nothing,
                ChatViewAction::Disconnect => AppAction::Disconnect,
                ChatViewAction::StartReader => AppAction::StartReader,
                ChatViewAction::Send(frame) => AppAction::Send(frame),
            }
        },
    }
}

/// Which events the front end is to listen to: those of the receive loop
/// while the session is in a room, none before.
pub fn subscription(app_state: &AppState) -> (kind: SubscriptionKind)
    ensures
        kind is ChatUpdates <==> app_state@ is ChatScreen,
{
    match &app_state.screen {
        Screen::ChatScreen(_) => SubscriptionKind::ChatUpdates,
        Screen::WelcomeScreen(_) => SubscriptionKind::Silent,
    }
}

} // verus!
