//! The phase before a room is joined: the form that asks for a room and a
//! name, and the handshake that it starts.
//!
//! `welcome_view_update` decides; it performs nothing. What it returns names
//! the work to be done on the connection, and the result of that work comes
//! back as the next message. A join attempt that ends without an answer to
//! go by is handed on as `JoinAborted`, with the error.

use vstd::prelude::*;
use vstd::string::*;

use crate::session::{
    join_outcome, join_outcome_spec, join_request, join_request_spec, outcome_bytes, JoinError,
    JoinOutcome, JoinOutcomeView, ReadOutcome,
};

verus! {

/// What the form shows and holds.
#[derive(Debug, Clone, PartialEq, Eq)]
pub struct WelcomeViewState {
    pub welcome_message: String,
    pub room_id_text: String,
    pub name_text: String,
}

/// The mathematical content of a `WelcomeViewState`.
pub struct WelcomeModel {
    pub welcome_message: Seq<char>,
    pub room_id_text: Seq<char>,
    pub name_text: Seq<char>,
}

impl View for WelcomeViewState {
    type V = WelcomeModel;

    open spec fn view(&self) -> WelcomeModel {
        WelcomeModel {
            welcome_message: self.welcome_message@,
            room_id_text: self.room_id_text@,
            name_text: self.name_text@,
        }
    }
}

/// What can happen on the form.
#[derive(Debug, Clone, PartialEq, Eq)]
pub enum WelcomeViewMessage {
    /// The server's greeting is to be read.
    ReadMessage,
    /// The status text changed.
    WelcomeMessageChanged(String),
    /// The name field changed.
    NameChanged(String),
    /// The room field changed.
    RoomIdChanged(String),
    /// The form was submitted.
    SbmitForm,
    /// What the one read after the join request gave.
    JoinReply(ReadOutcome),
}

/// The mathematical content of a `WelcomeViewMessage`.
pub enum WelcomeEvent {
    ReadMessage,
    WelcomeMessageChanged(Seq<char>),
    NameChanged(Seq<char>),
    RoomIdChanged(Seq<char>),
    SbmitForm,
    JoinReply(Option<Seq<u8>>),
}

impl View for WelcomeViewMessage {
    type V = WelcomeEvent;

    open spec fn view(&self) -> WelcomeEvent {
        match self {
            WelcomeViewMessage::ReadMessage => WelcomeEvent::ReadMessage,
            WelcomeViewMessage::WelcomeMessageChanged(s) => WelcomeEvent::WelcomeMessageChanged(s@),
            WelcomeViewMessage::NameChanged(s) => WelcomeEvent::NameChanged(s@),
            WelcomeViewMessage::RoomIdChanged(s) => WelcomeEvent::RoomIdChanged(s@),
            WelcomeViewMessage::SbmitForm => WelcomeEvent::SbmitForm,
            WelcomeViewMessage::JoinReply(reply) => WelcomeEvent::JoinReply(outcome_bytes(*reply)),
        }
    }
}

/// What is to be done after a message on the form.
#[derive(Debug, Clone, PartialEq, Eq)]
pub enum WelcomeViewAction {
    /// The room was joined: the server's answer, the name, the room.
    RoomJoined(String, String, String),
    /// Nothing.
    Nothing,
    /// Read one message from the connection and report it as
    /// `WelcomeMessageChanged`.
    ReadGreeting,
    /// Write this request, read one answer and report it as `JoinReply`.
    SendJoin(String),
    /// The join attempt ended without an answer to go by, for this reason;
    /// the room was not joined.
    JoinAborted(JoinError),
}

/// The mathematical content of a `WelcomeViewAction`.
pub enum WelcomeEffect {
    RoomJoined(Seq<char>, Seq<char>, Seq<char>),
    Nothing,
    ReadGreeting,
    SendJoin(Seq<char>),
    JoinAborted(JoinError),
}

impl View for WelcomeViewAction {
    type V = WelcomeEffect;

    open spec fn view(&self) -> WelcomeEffect {
        match self {
            WelcomeViewAction::RoomJoined(message, name, room) => WelcomeEffect::RoomJoined(
                message@,
                name@,
                room@,
            ),
            WelcomeViewAction::Nothing => WelcomeEffect::Nothing,
            WelcomeViewAction::ReadGreeting => WelcomeEffect::ReadGreeting,
            WelcomeViewAction::SendJoin(request) => WelcomeEffect::SendJoin(request@),
            WelcomeViewAction::JoinAborted(error) => WelcomeEffect::JoinAborted(*error),
        }
    }
}

/// The status text of a form that has heard nothing from the server yet.
pub open spec fn connecting() -> Seq<char> {
    "Connecting.."@
}

/// The form as it starts: the connecting status, empty fields.
pub open spec fn initial_welcome() -> WelcomeModel {
    WelcomeModel { welcome_message: connecting(), room_id_text: Seq::empty(), name_text: Seq::empty() }
}

/// The form after the read `reply` that followed the join request: a
/// reason to try again is added to the status text on a line of its own;
/// anything else leaves the form as it is.
pub open spec fn welcome_after_reply(pre: WelcomeModel, reply: Option<Seq<u8>>) -> WelcomeModel {
    match join_outcome_spec(reply, pre.room_id_text, pre.name_text) {
        Ok(JoinOutcomeView::Retry(reason)) => WelcomeModel {
            welcome_message: pre.welcome_message + seq!['\n'] + reason,
            ..pre
        },
        _ => pre,
    }
}

/// The form after `event`.
pub open spec fn welcome_next(pre: WelcomeModel, event: WelcomeEvent) -> WelcomeModel {
    match event {
        WelcomeEvent::ReadMessage => pre,
        WelcomeEvent::WelcomeMessageChanged(s) => WelcomeModel { welcome_message: s, ..pre },
        WelcomeEvent::NameChanged(s) => WelcomeModel { name_text: s, ..pre },
        WelcomeEvent::RoomIdChanged(s) => WelcomeModel { room_id_text: s, ..pre },
        WelcomeEvent::SbmitForm => pre,
        WelcomeEvent::JoinReply(response) => welcome_after_reply(pre, response),
    }
}

/// What is to be done after `event` on the form `pre`.
pub open spec fn welcome_effect(pre: WelcomeModel, event: WelcomeEvent) -> WelcomeEffect {
    match event {
        WelcomeEvent::ReadMessage => WelcomeEffect::ReadGreeting,
        WelcomeEvent::SbmitForm => WelcomeEffect::SendJoin(
            join_request_spec(pre.room_id_text, pre.name_text),
        ),
        WelcomeEvent::JoinReply(response) => match join_outcome_spec(
            response,
            pre.room_id_text,
            pre.name_text,
        ) {
            Ok(JoinOutcomeView::Joined { message, room_id, display_name }) => WelcomeEffect::RoomJoined(
                message,
                display_name,
                room_id,
            ),
            Ok(JoinOutcomeView::Retry(_)) => WelcomeEffect::Nothing,
            Err(error) => WelcomeEffect::JoinAborted(error),
        },
        _ => WelcomeEffect::Nothing,
    }
}

impl WelcomeViewState {
    /// The form as it starts.
    pub fn new() -> (state: WelcomeViewState)
        ensures
            state@ == initial_welcome(),
    {
        WelcomeViewState {
            welcome_message: String::from_str("Connecting.."),
            room_id_text: String::new(),
            name_text: String::new(),
        }
    }
}

impl Default for WelcomeViewState {
    fn default() -> (state: WelcomeViewState)
        ensures
            state@ == initial_welcome(),
    {
        WelcomeViewState::new()
    }
}

/// Takes one message on the form: changes the form and says what is to be
/// done. A submitted form asks for the join request to be sent. The read
/// that follows either reports the room as joined, or adds the server's
/// reason to the status text, or, when the connection is gone or the answer
/// is not text, ends the attempt: the form stays as it is and the error is
/// handed on as `JoinAborted`.
pub fn welcome_view_update(
    welcome_view_state: &mut WelcomeViewState,
    message: WelcomeViewMessage,
) -> (action: WelcomeViewAction)
    ensures
        final(welcome_view_state)@ == welcome_next(old(welcome_view_state)@, message@),
        action@ == welcome_effect(old(welcome_view_state)@, message@),
{
    match message {
        WelcomeViewMessage::ReadMessage => WelcomeViewAction::ReadGreeting,
        WelcomeViewMessage::WelcomeMessageChanged(s) => {
            welcome_view_state.welcome_message = s;
            WelcomeViewAction::Nothing
        },
        WelcomeViewMessage::NameChanged(s) => {
            welcome_view_state.name_text = s;
            WelcomeViewAction::Nothing
        },
        WelcomeViewMessage::RoomIdChanged(s) => {
            welcome_view_state.room_id_text = s;
            WelcomeViewAction::Nothing
        },
        WelcomeViewMessage::SbmitForm => WelcomeViewAction::SendJoin(
            join_request(
                welcome_view_state.room_id_text.as_str(),
                welcome_view_state.name_text.as_str(),
            ),
        ),
        WelcomeViewMessage::JoinReply(reply) => {
            let outcome = join_outcome(
                reply,
                welcome_view_state.room_id_text.clone(),
                welcome_view_state.name_text.clone(),
            );
            match outcome {
                Ok(JoinOutcome::Joined { message, room_id, display_name }) => {
                    WelcomeViewAction::RoomJoined(message, display_name, room_id)
                },
                Ok(JoinOutcome::Retry(reason)) => {
                    proof {
                        reveal_strlit("\n");
                    }
                    welcome_view_state.welcome_message.append("\n");
                    welcome_view_state.welcome_message.append(reason.as_str());
                    assert("\n"@ =~= seq!['\n']);
                    WelcomeViewAction::Nothing
                },
                Err(error) => WelcomeViewAction::JoinAborted(error),
            }
        },
    }
}

} // verus!
