//! The phase inside a room: the conversation log, what the user types, and
//! the frames that go out.
//!
//! `update` decides; it performs nothing. What it returns names the work to
//! be done on the connection. Once the session is closed, by the user or by
//! the peer, it stays closed: every further message leaves it as it is. A
//! request to leave is answered with the shutdown each time it is made, on a
//! closed session too; shutting down what is shut down already does nothing.

use vstd::prelude::*;
use vstd::string::*;
use vstd::utf8::*;

use crate::cipher::{decrypt, decrypt_spec, encrypt_spec, DecryptError};
use crate::conversation::{
    built, built_all, entry_of, lines, names_after, names_after_all, recorded, system_entry, you,
    ConversationMessage, ConversationMessageManager, EntryView,
};
use crate::envelope::{
    base64_encoded, base64_fits, base64_len, chat_payload, chat_tag, frame_chat, framed,
    parse_spec,
    voice_request, voice_tag, EventView, IncomingEvent,
};
use crate::text::{trim, trimmed};

verus! {

/// What the chat screen shows and holds.
#[derive(Debug, Clone, PartialEq, Eq)]
pub struct ChatViewState {
    pub name: String,
    pub room_id: String,
    pub messages: Vec<ConversationMessage>,
    pub current_message: String,
    pub conversation_message_manager: ConversationMessageManager,
    pub closed: bool,
}

/// The mathematical content of a `ChatViewState`: the log as a sequence of
/// entries, and the colour registry as the names it has seen.
pub struct ChatModel {
    pub name: Seq<char>,
    pub room_id: Seq<char>,
    pub messages: Seq<EntryView>,
    pub current_message: Seq<char>,
    pub names: Seq<Seq<char>>,
    pub closed: bool,
}

/// The entries of `messages`.
pub open spec fn entries(messages: Vec<ConversationMessage>) -> Seq<EntryView> {
    Seq::new(messages@.len(), |i: int| messages@[i]@)
}

impl View for ChatViewState {
    type V = ChatModel;

    open spec fn view(&self) -> ChatModel {
        ChatModel {
            name: self.name@,
            room_id: self.room_id@,
            messages: entries(self.messages),
            current_message: self.current_message@,
            names: self.conversation_message_manager@,
            closed: self.closed,
        }
    }
}

/// What can happen on the chat screen.
#[derive(Debug, Clone, PartialEq, Eq)]
pub enum ChatViewMessage {
    /// The receive loop is to be started.
    StartReader,
    /// The receive loop handed on an event.
    ReceivedMessage(IncomingEvent),
    /// The user sends this text.
    SendMessage(String),
    /// The input field changed.
    CurrentMessageChanged(String),
    /// The user joins the voice channel.
    JoinVoiceChannel,
    /// The user leaves the room.
    Disconnect,
    /// The receive loop reported that the connection is gone.
    Disconnected,
}

/// The mathematical content of a `ChatViewMessage`.
pub enum ChatEvent {
    StartReader,
    ReceivedMessage(EventView),
    SendMessage(Seq<char>),
    CurrentMessageChanged(Seq<char>),
    JoinVoiceChannel,
    Disconnect,
    Disconnected,
}

impl View for ChatViewMessage {
    type V = ChatEvent;

    open spec fn view(&self) -> ChatEvent {
        match self {
            ChatViewMessage::StartReader => ChatEvent::StartReader,
            ChatViewMessage::ReceivedMessage(event) => ChatEvent::ReceivedMessage(event@),
            ChatViewMessage::SendMessage(s) => ChatEvent::SendMessage(s@),
            ChatViewMessage::CurrentMessageChanged(s) => ChatEvent::CurrentMessageChanged(s@),
            ChatViewMessage::JoinVoiceChannel => ChatEvent::JoinVoiceChannel,
            ChatViewMessage::Disconnect => ChatEvent::Disconnect,
            ChatViewMessage::Disconnected => ChatEvent::Disconnected,
        }
    }
}

/// What is to be done after a message on the chat screen.
#[derive(Debug, Clone, PartialEq, Eq)]
pub enum ChatViewAction {
    /// Nothing.
    Nothing,
    /// Shut the connection down, both ways; the session is over.
    Disconnect,
    /// Start the receive loop.
    StartReader,
    /// Write this frame to the connection, as one write.
    Send(String),
}

/// The mathematical content of a `ChatViewAction`.
pub enum ChatEffect {
    Nothing,
    Disconnect,
    StartReader,
    Send(Seq<char>),
}

impl View for ChatViewAction {
    type V = ChatEffect;

    open spec fn view(&self) -> ChatEffect {
        match self {
            ChatViewAction::Nothing => ChatEffect::Nothing,
            ChatViewAction::Disconnect => ChatEffect::Disconnect,
            ChatViewAction::StartReader => ChatEffect::StartReader,
            ChatViewAction::Send(frame) => ChatEffect::Send(frame@),
        }
    }
}

/// The key that every client of the server shares.
pub open spec fn shared_key_spec() -> Seq<u8> {
    seq![
        0x74u8, 0x68u8, 0x69u8, 0x73u8, 0x49u8, 0x73u8, 0x41u8, 0x53u8, 0x65u8, 0x63u8, 0x72u8,
        0x65u8, 0x74u8, 0x4bu8, 0x65u8, 0x79u8,
    ]
}

/// The line that announces the join.
pub open spec fn joined_line(name: Seq<char>) -> Seq<char> {
    "You have joined as "@ + name
}

/// The chat screen of `name` in `room_id` as it starts: the log begins with
/// the line that announces the join, and `raws`, built, follow it.
pub open spec fn initial_chat(raws: Seq<Seq<char>>, name: Seq<char>, room_id: Seq<char>) -> ChatModel {
    ChatModel {
        name,
        room_id,
        messages: seq![system_entry(joined_line(name))] + built_all(Seq::empty(), raws),
        current_message: Seq::empty(),
        names: names_after_all(Seq::empty(), raws),
        closed: false,
    }
}

/// The screen with the line `raw` built and added to the log.
pub open spec fn with_line(pre: ChatModel, raw: Seq<char>) -> ChatModel {
    ChatModel {
        messages: pre.messages.push(built(pre.names, raw)),
        names: names_after(pre.names, raw),
        ..pre
    }
}

/// The screen after the receive loop handed on `event`: free text is built
/// into the log; a chat message is decrypted and then built, or dropped
/// when it cannot be decrypted; a control message changes nothing.
pub open spec fn chat_received(pre: ChatModel, event: EventView) -> ChatModel {
    match event {
        EventView::PlainLine(text) => with_line(pre, text),
        EventView::RoomJoinResult(text) => with_line(pre, text),
        EventView::EncryptedChat(ciphertext) => match decrypt_spec(ciphertext, shared_key_spec()) {
            Ok(text) => with_line(pre, text),
            Err(_) => pre,
        },
        EventView::ControlSignal(_) => pre,
    }
}

/// The ciphertext that goes out when `pre.name` sends `input`.
pub open spec fn outgoing_ciphertext(pre: ChatModel, input: Seq<char>) -> Seq<u8> {
    encrypt_spec(chat_payload(pre.name, trimmed(input)), shared_key_spec())
}

/// Whether the message `input` can be framed.
pub open spec fn can_send(pre: ChatModel, input: Seq<char>) -> bool {
    base64_fits(outgoing_ciphertext(pre, input).len())
}

/// The screen after the user sent `input`: the trimmed input stands in the
/// log under the user's own name, and the input field is empty.
pub open spec fn chat_sent(pre: ChatModel, input: Seq<char>) -> ChatModel {
    ChatModel {
        messages: pre.messages.push(entry_of(recorded(pre.names, you()), you(), trimmed(input))),
        names: recorded(pre.names, you()),
        current_message: Seq::empty(),
        ..pre
    }
}

/// The screen after `event`.
pub open spec fn chat_next(pre: ChatModel, event: ChatEvent) -> ChatModel {
    if pre.closed {
        pre
    } else {
        match event {
            ChatEvent::StartReader => pre,
            ChatEvent::ReceivedMessage(received) => chat_received(pre, received),
            ChatEvent::SendMessage(input) => if can_send(pre, input) {
                chat_sent(pre, input)
            } else {
                pre
            },
            ChatEvent::CurrentMessageChanged(s) => ChatModel { current_message: s, ..pre },
            ChatEvent::JoinVoiceChannel => pre,
            ChatEvent::Disconnect => ChatModel { closed: true, ..pre },
            ChatEvent::Disconnected => ChatModel { closed: true, ..pre },
        }
    }
}

/// What is to be done after `event` on the screen `pre`. On a closed
/// session only a request to leave asks for anything: the shutdown, again.
pub open spec fn chat_effect(pre: ChatModel, event: ChatEvent) -> ChatEffect {
    if pre.closed {
        if event is Disconnect {
            ChatEffect::Disconnect
        } else {
            ChatEffect::Nothing
        }
    } else {
        match event {
            ChatEvent::StartReader => ChatEffect::StartReader,
            ChatEvent::SendMessage(input) => if can_send(pre, input) {
                ChatEffect::Send(framed(chat_tag(), base64_encoded(outgoing_ciphertext(pre, input))))
            } else {
                ChatEffect::Nothing
            },
            ChatEvent::JoinVoiceChannel => ChatEffect::Send(framed(voice_tag(), pre.name)),
            ChatEvent::Disconnect => ChatEffect::Disconnect,
            ChatEvent::Disconnected => ChatEffect::Disconnect,
            _ => ChatEffect::Nothing,
        }
    }
}

/// Whether `frame`, read back from the wire, is the chat message `plain`
/// under `key`: it parses to a ciphertext that decrypts to `plain`.
pub open spec fn reads_back_as(frame: Seq<char>, plain: Seq<char>, key: Seq<u8>) -> bool {
    match parse_spec(encode_utf8(frame)) {
        Ok(EventView::EncryptedChat(ciphertext)) => decrypt_spec(ciphertext, key) == Ok::<
            Seq<char>,
            DecryptError,
        >(plain),
        _ => false,
    }
}

/// A closed session stays as it is, whatever happens; it asks for the
/// shutdown when asked to leave, and for nothing otherwise.
pub proof fn lemma_closed_is_final(pre: ChatModel, event: ChatEvent)
    requires
        pre.closed,
    ensures
        chat_next(pre, event) == pre,
        event is Disconnect ==> chat_effect(pre, event) is Disconnect,
        !(event is Disconnect) ==> chat_effect(pre, event) is Nothing,
{
}

/// Every request to leave asks for the shutdown, the first and any later
/// one; the first closes the session, and a later one changes nothing.
pub proof fn lemma_disconnect_again(pre: ChatModel)
    ensures
        chat_next(pre, ChatEvent::Disconnect).closed,
        chat_effect(pre, ChatEvent::Disconnect) is Disconnect,
        chat_effect(chat_next(pre, ChatEvent::Disconnect), ChatEvent::Disconnect) is Disconnect,
        chat_next(chat_next(pre, ChatEvent::Disconnect), ChatEvent::Disconnect) == chat_next(
            pre,
            ChatEvent::Disconnect,
        ),
        pre.closed ==> chat_next(pre, ChatEvent::Disconnect) == pre,
{
}

/// The log of a chat screen as it starts begins with the line that
/// announces the join, whatever lines follow it.
pub proof fn lemma_join_line_first(raws: Seq<Seq<char>>, name: Seq<char>, room_id: Seq<char>)
    ensures
        initial_chat(raws, name, room_id).messages.len() == raws.len() + 1,
        initial_chat(raws, name, room_id).messages[0] == system_entry(joined_line(name)),
        initial_chat(raws, name, room_id).messages[0].name.len() == 0,
        raws.len() == 0 ==> initial_chat(raws, name, room_id).messages == seq![
            system_entry(joined_line(name)),
        ],
{
    if raws.len() == 0 {
        assert(initial_chat(raws, name, room_id).messages =~= seq![
            system_entry(joined_line(name)),
        ]);
    }
}

/// The key that every client of the server shares.
pub fn shared_key() -> (key: [u8; 16])
    ensures
        key@ == shared_key_spec(),
{
    let key: [u8; 16] = [
        0x74, 0x68, 0x69, 0x73, 0x49, 0x73, 0x41, 0x53, 0x65, 0x63, 0x72, 0x65, 0x74, 0x4b, 0x65,
        0x79,
    ];
    assert(key@ =~= shared_key_spec());
    key
}

impl ChatViewState {
    /// The colour registry holds no name twice. Every screen that `new` made
    /// and `update` changed is well formed.
    pub open spec fn well_formed(&self) -> bool {
        self.conversation_message_manager.well_formed()
    }

    /// The chat screen of `name` in `room_id` as it starts: the line that
    /// announces the join, and after it `messages`, built into entries.
    pub fn new(messages: Vec<String>, name: String, room_id: String) -> (state: ChatViewState)
        ensures
            state@ == initial_chat(lines(messages), name@, room_id@),
            state@.messages.len() == messages@.len() + 1,
            state@.messages[0] == system_entry(joined_line(name@)),
            state.well_formed(),
    {
        let ghost raws = lines(messages);
        let mut manager = ConversationMessageManager::new();
        let mut built_lines = manager.cms_from_vec(messages);
        let ghost rest = built_lines@;
        let mut line = String::from_str("You have joined as ");
        line.append(name.as_str());
        let mut log: Vec<ConversationMessage> = Vec::new();
        log.push(ConversationMessage::system(line));
        log.append(&mut built_lines);
        assert(log@ =~= seq![log@[0]] + rest);
        let state = ChatViewState {
            name,
            room_id,
            messages: log,
            current_message: String::new(),
            conversation_message_manager: manager,
            closed: false,
        };
        assert forall|i: int| 1 <= i < log@.len() implies (#[trigger] log@[i])@ == built_all(
            Seq::empty(),
            raws,
        )[i - 1] by {
            assert(log@[i] == rest[i - 1]);
        }
        assert(state@.messages =~= seq![system_entry(joined_line(name@))] + built_all(
            Seq::empty(),
            raws,
        ));
        state
    }

    /// Builds `raw` and adds it to the log.
    fn add_line(&mut self, raw: String)
        ensures
            final(self)@ == with_line(old(self)@, raw@),
            old(self).well_formed() ==> final(self).well_formed(),
    {
        let ghost before = entries(self.messages);
        let entry = self.conversation_message_manager.cm_from_string(raw);
        self.messages.push(entry);
        assert(entries(self.messages) =~= before.push(entry@));
    }
}

/// Takes one message on the chat screen: changes the screen and says what
/// is to be done on the connection.
pub fn update(app_state: &mut ChatViewState, message: ChatViewMessage) -> (action: ChatViewAction)
    ensures
        final(app_state)@ == chat_next(old(app_state)@, message@),
        action@ == chat_effect(old(app_state)@, message@),
        old(app_state).well_formed() ==> final(app_state).well_formed(),
        match (message, action) {
            (ChatViewMessage::SendMessage(input), ChatViewAction::Send(frame)) => {
                &&& reads_back_as(
                    frame@,
                    chat_payload(old(app_state).name@, trimmed(input@)),
                    shared_key_spec(),
                )
                &&& frame@.len() == 15 + base64_len(
                    outgoing_ciphertext(old(app_state)@, input@).len(),
                )
            },
            _ => true,
        },
{
    if app_state.closed {
        return match message {
            ChatViewMessage::Disconnect => ChatViewAction::Disconnect,
            _ => ChatViewAction::Nothing,
        };
    }
    match message {
        ChatViewMessage::StartReader => ChatViewAction::StartReader,
        ChatViewMessage::ReceivedMessage(event) => {
            match event {
                IncomingEvent::PlainLine(text) => {
                    app_state.add_line(text);
                },
                IncomingEvent::RoomJoinResult(text) => {
                    app_state.add_line(text);
                },
                IncomingEvent::EncryptedChat(ciphertext) => {
                    let key = shared_key();
                    match decrypt(ciphertext, &key) {
                        Ok(text) => {
                            app_state.add_line(text);
                        },
                        Err(_) => {},
                    }
                },
                IncomingEvent::ControlSignal(_) => {},
            }
            ChatViewAction::Nothing
        },
        ChatViewMessage::SendMessage(s) => {
            let key = shared_key();
            let body = trim(s.as_str());
            match frame_chat(app_state.name.as_str(), body.as_str(), &key) {
                Some(frame) => {
                    let ghost before = entries(app_state.messages);
                    let entry = app_state.conversation_message_manager.format_conversation_message(
                        String::from_str("You"),
                        body,
                    );
                    app_state.messages.push(entry);
                    app_state.current_message = String::new();
                    assert(entries(app_state.messages) =~= before.push(entry@));
                    ChatViewAction::Send(frame)
                },
                None => ChatViewAction::Nothing,
            }
        },
        ChatViewMessage::CurrentMessageChanged(s) => {
            app_state.current_message = s;
            ChatViewAction::Nothing
        },
        ChatViewMessage::JoinVoiceChannel => ChatViewAction::Send(
            voice_request(app_state.name.as_str()),
        ),
        ChatViewMessage::Disconnect => {
            app_state.closed = true;
            ChatViewAction::Disconnect
        },
        ChatViewMessage::Disconnected => {
            app_state.closed = true;
            ChatViewAction::Disconnect
        },
    }
}

} // verus!
