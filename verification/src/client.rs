//! A bare join form: a room, a name, and the last thing the server said.
//!
//! `Client::update` decides; it performs nothing. A submitted form gives the
//! request to write, and the answer that is read goes to `Client::answered`.

use vstd::prelude::*;
use vstd::slice::*;
use vstd::string::*;
use vstd::utf8::*;

use crate::envelope::ParseError;
use crate::session::{join_request, join_request_spec};
use crate::text::string_from_utf8;

verus! {

/// What can happen on the form.
#[derive(Debug, Clone, PartialEq, Eq)]
pub enum Message {
    RoomIdIpValueChanged(String),
    UsernameIpValueChange(String),
    SubmitInfoForm,
}

/// The mathematical content of a `Message`.
pub enum FormEvent {
    RoomIdIpValueChanged(Seq<char>),
    UsernameIpValueChange(Seq<char>),
    SubmitInfoForm,
}

impl View for Message {
    type V = FormEvent;

    open spec fn view(&self) -> FormEvent {
        match self {
            Message::RoomIdIpValueChanged(s) => FormEvent::RoomIdIpValueChanged(s@),
            Message::UsernameIpValueChange(s) => FormEvent::UsernameIpValueChange(s@),
            Message::SubmitInfoForm => FormEvent::SubmitInfoForm,
        }
    }
}

/// What the form shows and holds.
#[derive(Debug, Clone, PartialEq, Eq)]
pub struct Client {
    pub room_id: String,
    pub username: String,
    pub welcome_message: String,
}

/// The mathematical content of a `Client`.
pub struct FormModel {
    pub room_id: Seq<char>,
    pub username: Seq<char>,
    pub welcome_message: Seq<char>,
}

impl View for Client {
    type V = FormModel;

    open spec fn view(&self) -> FormModel {
        FormModel {
            room_id: self.room_id@,
            username: self.username@,
            welcome_message: self.welcome_message@,
        }
    }
}

/// The form after `event`.
pub open spec fn form_next(pre: FormModel, event: FormEvent) -> FormModel {
    match event {
        FormEvent::RoomIdIpValueChanged(s) => FormModel { room_id: s, ..pre },
        FormEvent::UsernameIpValueChange(s) => FormModel { username: s, ..pre },
        FormEvent::SubmitInfoForm => pre,
    }
}

/// The request that `event` asks to be written, if any.
pub open spec fn form_request(pre: FormModel, event: FormEvent) -> Option<Seq<char>> {
    match event {
        FormEvent::SubmitInfoForm => Some(join_request_spec(pre.room_id, pre.username)),
        _ => None,
    }
}

/// The request `request`, seen as text.
pub open spec fn request_text(request: Option<String>) -> Option<Seq<char>> {
    match request {
        Some(text) => Some(text@),
        None => None,
    }
}

impl Client {
    /// The form as it starts, showing the server's greeting. A greeting
    /// that is not UTF-8 gives no form.
    pub fn new(greeting: &[u8]) -> (r: Result<Client, ParseError>)
        ensures
            r is Ok <==> valid_utf8(greeting@),
            r matches Ok(client) ==> client@ == (FormModel {
                room_id: Seq::empty(),
                username: Seq::empty(),
                welcome_message: decode_utf8(greeting@),
            }),
            r matches Err(e) ==> e == ParseError::NotText,
    {
        match string_from_utf8(slice_to_vec(greeting)) {
            Some(welcome_message) => Ok(
                Client { room_id: String::new(), username: String::new(), welcome_message },
            ),
            None => Err(ParseError::NotText),
        }
    }

    /// Takes one message on the form. A submitted form gives the join
    /// request to write to the connection; the answer to it then goes to
    /// `answered`.
    pub fn update(&mut self, message: Message) -> (request: Option<String>)
        ensures
            final(self)@ == form_next(old(self)@, message@),
            request_text(request) == form_request(old(self)@, message@),
    {
        match message {
            Message::RoomIdIpValueChanged(s) => {
                self.room_id = s;
                None
            },
            Message::UsernameIpValueChange(s) => {
                self.username = s;
                None
            },
            Message::SubmitInfoForm => Some(
                join_request(self.room_id.as_str(), self.username.as_str()),
            ),
        }
    }

    /// Takes the server's answer to the join request: its text is what the
    /// form shows from now on. An answer that is not UTF-8 changes nothing.
    pub fn answered(&mut self, response: &[u8]) -> (r: Result<(), ParseError>)
        ensures
            r is Ok <==> valid_utf8(response@),
            r is Ok ==> final(self)@ == (FormModel {
                welcome_message: decode_utf8(response@),
                ..old(self)@
            }),
            r matches Err(e) ==> e == ParseError::NotText && final(self)@ == old(self)@,
    {
        match string_from_utf8(slice_to_vec(response)) {
            Some(text) => {
                self.welcome_message = text;
                Ok(())
            },
            None => Err(ParseError::NotText),
        }
    }
}

} // verus!
