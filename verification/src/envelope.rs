//! The transport envelope: one received buffer becomes one typed event, and
//! an outgoing intent becomes the text of one frame.
//!
//! A frame is a tag, one space and a payload. The tag decides the kind of
//! event. A frame that carries no known tag is free text, and is taken for
//! the answer to a room join when it holds the join marker. That test is a
//! plain substring search, as the server's wording is all there is to go by:
//! any free text that happens to hold the marker is read as a join result.

use base64::prelude::{Engine, BASE64_STANDARD};
use vstd::prelude::*;
use vstd::slice::*;
use vstd::string::*;
use vstd::utf8::*;

use crate::cipher::{decrypt_spec, encrypt, encrypt_spec, DecryptError};
use crate::text::{
    chars_of, contains_chars, contains_text, find_char, index_of, lemma_index_of, string_from_utf8,
    string_of,
};

verus! {

/// The error of the base64 decoder.
#[verifier::external_type_specification]
#[verifier::external_body]
pub struct ExBase64DecodeError(base64::DecodeError);

/// A control message of the session.
#[derive(Debug, Clone, Copy, PartialEq, Eq)]
pub enum ControlKind {
    /// A participant joins the voice channel.
    JoinVoice,
}

/// What one received buffer holds.
#[derive(Debug, Clone, PartialEq, Eq)]
pub enum IncomingEvent {
    /// Free text without a known tag.
    PlainLine(String),
    /// Free text that holds the join marker.
    RoomJoinResult(String),
    /// The ciphertext of a chat message.
    EncryptedChat(Vec<u8>),
    /// A control message.
    ControlSignal(ControlKind),
}

/// The mathematical content of an `IncomingEvent`.
pub enum EventView {
    PlainLine(Seq<char>),
    RoomJoinResult(Seq<char>),
    EncryptedChat(Seq<u8>),
    ControlSignal(ControlKind),
}

impl View for IncomingEvent {
    type V = EventView;

    open spec fn view(&self) -> EventView {
        match self {
            IncomingEvent::PlainLine(text) => EventView::PlainLine(text@),
            IncomingEvent::RoomJoinResult(text) => EventView::RoomJoinResult(text@),
            IncomingEvent::EncryptedChat(bytes) => EventView::EncryptedChat(bytes@),
            IncomingEvent::ControlSignal(kind) => EventView::ControlSignal(*kind),
        }
    }
}

/// Why a received buffer is no event.
#[derive(Debug, Clone, Copy, PartialEq, Eq)]
pub enum ParseError {
    /// The buffer is not UTF-8.
    NotText,
    /// The text holds no space to end the tag.
    MissingSeparator,
    /// The payload of a chat frame is not base64.
    InvalidBase64,
}

/// The standard base64 text, with padding, of `data`.
pub uninterp spec fn base64_encoded(data: Seq<u8>) -> Seq<char>;

/// The bytes that the standard base64 text `text` stands for, if it is
/// canonical base64 with padding.
pub uninterp spec fn base64_decoded(text: Seq<char>) -> Option<Seq<u8>>;

/// Number of characters in the padded base64 text of `n` bytes: four for
/// every three bytes or part of three.
pub open spec fn base64_len(n: nat) -> nat {
    (n + 2) / 3 * 4
}

/// Whether the base64 text of `n` bytes has a length that fits in `usize`.
pub open spec fn base64_fits(n: nat) -> bool {
    n / 3 * 4 + 4 <= usize::MAX
}

/// The tag of an encrypted chat message.
pub open spec fn chat_tag() -> Seq<char> {
    "NORMAL_MESSAGE"@
}

/// The tag of a request to join the voice channel.
pub open spec fn voice_tag() -> Seq<char> {
    "JOIN_VOICE_CHANNEL_MESSAGE"@
}

/// The words by which the server's answer announces a successful join.
pub open spec fn join_marker() -> Seq<char> {
    "Room ID"@
}

/// Whether `text` holds a space, which ends its tag.
pub open spec fn has_separator(text: Seq<char>) -> bool {
    index_of(text, ' ') < text.len()
}

/// What stands before the first space of `text`.
pub open spec fn tag_of(text: Seq<char>) -> Seq<char> {
    text.take(index_of(text, ' ') as int)
}

/// What stands after the first space of `text`.
pub open spec fn payload_of(text: Seq<char>) -> Seq<char> {
    text.skip(index_of(text, ' ') as int + 1)
}

/// The frame text of `tag` and `payload`.
pub open spec fn framed(tag: Seq<char>, payload: Seq<char>) -> Seq<char> {
    tag + seq![' '] + payload
}

/// The plaintext of a chat message: sender, delimiter, body.
pub open spec fn chat_payload(sender: Seq<char>, body: Seq<char>) -> Seq<char> {
    sender + seq![' ', '>', ' '] + body
}

/// The event of a chat frame whose payload decoded to `decoded`.
pub open spec fn chat_event_spec(decoded: Option<Seq<u8>>) -> Result<EventView, ParseError> {
    match decoded {
        Some(bytes) => Ok(EventView::EncryptedChat(bytes)),
        None => Err(ParseError::InvalidBase64),
    }
}

/// The event that the text of a frame holds.
pub open spec fn classify_spec(text: Seq<char>) -> Result<EventView, ParseError> {
    if !has_separator(text) {
        Err(ParseError::MissingSeparator)
    } else if tag_of(text) == chat_tag() {
        chat_event_spec(base64_decoded(payload_of(text)))
    } else if tag_of(text) == voice_tag() {
        Ok(EventView::ControlSignal(ControlKind::JoinVoice))
    } else if contains_text(text, join_marker()) {
        Ok(EventView::RoomJoinResult(text))
    } else {
        Ok(EventView::PlainLine(text))
    }
}

/// The event that a received buffer holds.
pub open spec fn parse_spec(buf: Seq<u8>) -> Result<EventView, ParseError> {
    if valid_utf8(buf) {
        classify_spec(decode_utf8(buf))
    } else {
        Err(ParseError::NotText)
    }
}

/// Whether the executable result `r` is the event or error `expected`.
pub open spec fn event_is(r: Result<IncomingEvent, ParseError>, expected: Result<EventView, ParseError>) -> bool {
    match r {
        Ok(event) => expected == Ok::<EventView, ParseError>(event@),
        Err(e) => expected == Err::<EventView, ParseError>(e),
    }
}

/// A frame made of a tag without a space splits back into that tag and its
/// payload.
pub proof fn lemma_framed_parts(tag: Seq<char>, payload: Seq<char>)
    requires
        forall|j: int| 0 <= j < tag.len() ==> #[trigger] tag[j] != ' ',
    ensures
        has_separator(framed(tag, payload)),
        tag_of(framed(tag, payload)) == tag,
        payload_of(framed(tag, payload)) == payload,
{
    let text = framed(tag, payload);
    assert forall|j: int| 0 <= j < tag.len() implies #[trigger] text[j] != ' ' by {
        assert(text[j] == tag[j]);
    }
    assert(text[tag.len() as int] == ' ');
    lemma_index_of(text, ' ', tag.len() as int);
    assert(text.take(tag.len() as int) =~= tag);
    assert(text.skip(tag.len() as int + 1) =~= payload);
}

/// Reading the frame of a chat message gives the ciphertext that was
/// framed, whenever base64 decoding of the payload leads back to it.
pub proof fn lemma_chat_frame_parses(ciphertext: Seq<u8>, encoded: Seq<char>)
    requires
        base64_decoded(encoded) == Some(ciphertext),
    ensures
        classify_spec(framed(chat_tag(), encoded)) == Ok::<EventView, ParseError>(
            EventView::EncryptedChat(ciphertext),
        ),
        parse_spec(encode_utf8(framed(chat_tag(), encoded))) == Ok::<EventView, ParseError>(
            EventView::EncryptedChat(ciphertext),
        ),
{
    reveal_strlit("NORMAL_MESSAGE");
    lemma_framed_parts(chat_tag(), encoded);
    let text = framed(chat_tag(), encoded);
    encode_utf8_valid_utf8(text);
    encode_utf8_decode_utf8(text);
}

/// Encodes bytes with `Engine::encode` of the standard base64 engine. The
/// result is the standard base64 text of the bytes, four characters for
/// every three bytes or part of three, and standard decoding leads back to
/// the bytes: the engine pads when encoding and asks for that padding when
/// decoding. The call needs the length of the text to fit in `usize`.
#[verifier::external_body]
fn base64_encode(data: &Vec<u8>) -> (text: String)
    requires
        base64_fits(data@.len()),
    ensures
        text@ == base64_encoded(data@),
        text@.len() == base64_len(data@.len()),
        base64_decoded(text@) == Some(data@),
{
    BASE64_STANDARD.encode(data)
}

/// Decodes text with `Engine::decode` of the standard base64 engine: the
/// bytes that the text stands for, or the decoder's error when the text is
/// not canonical base64.
#[verifier::external_body]
fn base64_decode(text: &str) -> (r: Result<Vec<u8>, base64::DecodeError>)
    ensures
        r is Ok <==> base64_decoded(text@) is Some,
        r matches Ok(bytes) ==> base64_decoded(text@) == Some(bytes@),
{
    BASE64_STANDARD.decode(text)
}

/// The bytes of a base64 payload, if it is one.
pub fn decode_payload(payload: &str) -> (bytes: Option<Vec<u8>>)
    ensures
        bytes is Some <==> base64_decoded(payload@) is Some,
        bytes matches Some(b) ==> base64_decoded(payload@) == Some(b@),
{
    match base64_decode(payload) {
        Ok(bytes) => Some(bytes),
        Err(_) => None,
    }
}

/// The base64 text of `data`, unless its length would not fit in `usize`.
pub fn encode_payload(data: &Vec<u8>) -> (text: Option<String>)
    ensures
        text is Some <==> base64_fits(data@.len()),
        text matches Some(t) ==> t@ == base64_encoded(data@) && t@.len() == base64_len(
            data@.len(),
        ) && base64_decoded(t@) == Some(data@),
{
    if data.len() / 3 > (usize::MAX - 4) / 4 {
        None
    } else {
        Some(base64_encode(data))
    }
}

/// The event of a chat frame, given what its payload decoded to.
pub fn chat_event(decoded: Option<Vec<u8>>) -> (r: Result<IncomingEvent, ParseError>)
    ensures
        event_is(
            r,
            chat_event_spec(
                match decoded {
                    Some(bytes) => Some(bytes@),
                    None => None,
                },
            ),
        ),
{
    match decoded {
        Some(bytes) => Ok(IncomingEvent::EncryptedChat(bytes)),
        None => Err(ParseError::InvalidBase64),
    }
}

/// Reads the text of one frame.
pub fn classify(text: String) -> (r: Result<IncomingEvent, ParseError>)
    ensures
        event_is(r, classify_spec(text@)),
{
    let chars = chars_of(text.as_str());
    let sep: usize = find_char(&chars, ' ');
    if sep == chars.len() {
        return Err(ParseError::MissingSeparator);
    }
    let tag = string_of(&chars, 0, sep);
    if tag == String::from_str("NORMAL_MESSAGE") {
        let payload = string_of(&chars, sep + 1, chars.len());
        chat_event(decode_payload(payload.as_str()))
    } else if tag == String::from_str("JOIN_VOICE_CHANNEL_MESSAGE") {
        Ok(IncomingEvent::ControlSignal(ControlKind::JoinVoice))
    } else if contains_chars(&chars, &chars_of("Room ID")) {
        Ok(IncomingEvent::RoomJoinResult(text))
    } else {
        Ok(IncomingEvent::PlainLine(text))
    }
}

/// Reads one received buffer.
pub fn parse(buf: &[u8]) -> (r: Result<IncomingEvent, ParseError>)
    ensures
        event_is(r, parse_spec(buf@)),
{
    match string_from_utf8(slice_to_vec(buf)) {
        Some(text) => classify(text),
        None => Err(ParseError::NotText),
    }
}

/// The text `first`, `middle` and `last` in a row.
fn join3(first: &str, middle: &str, last: &str) -> (r: String)
    ensures
        r@ == first@ + middle@ + last@,
{
    let mut r = String::from_str(first);
    r.append(middle);
    r.append(last);
    r
}

/// The plaintext of a chat message from `sender`.
pub fn chat_text(sender: &str, body: &str) -> (r: String)
    ensures
        r@ == chat_payload(sender@, body@),
{
    proof {
        reveal_strlit(" > ");
    }
    let r = join3(sender, " > ", body);
    assert(" > "@ =~= seq![' ', '>', ' ']);
    r
}

/// The frame of a chat message whose ciphertext has the base64 text
/// `encoded`.
pub fn chat_frame(encoded: &str) -> (r: String)
    ensures
        r@ == framed(chat_tag(), encoded@),
        r@.len() == 15 + encoded@.len(),
{
    proof {
        reveal_strlit(" ");
        reveal_strlit("NORMAL_MESSAGE");
    }
    let r = join3("NORMAL_MESSAGE", " ", encoded);
    assert(" "@ =~= seq![' ']);
    r
}

/// The frame that asks the server to add `name` to the voice channel.
pub fn voice_request(name: &str) -> (r: String)
    ensures
        r@ == framed(voice_tag(), name@),
{
    proof {
        reveal_strlit(" ");
    }
    let r = join3("JOIN_VOICE_CHANNEL_MESSAGE", " ", name);
    assert(" "@ =~= seq![' ']);
    r
}

/// The frame of the chat message `body` from `sender`, encrypted under
/// `key`: the chat tag and the base64 text of the ciphertext of
/// `"<sender> > <body>"`. There is none when that base64 text would be
/// longer than `usize` can count. The frame is the 15 characters of tag and
/// space and four characters for every three bytes of ciphertext or part of
/// three. Reading the frame gives the ciphertext back, and the ciphertext
/// decrypts to the plaintext.
pub fn frame_chat(sender: &str, body: &str, key: &[u8; 16]) -> (frame: Option<String>)
    ensures
        frame is Some <==> base64_fits(encrypt_spec(chat_payload(sender@, body@), key@).len()),
        frame matches Some(f) ==> {
            let ciphertext = encrypt_spec(chat_payload(sender@, body@), key@);
            &&& f@ == framed(chat_tag(), base64_encoded(ciphertext))
            &&& f@.len() == 15 + base64_len(ciphertext.len())
            &&& parse_spec(encode_utf8(f@)) == Ok::<EventView, ParseError>(
                EventView::EncryptedChat(ciphertext),
            )
            &&& decrypt_spec(ciphertext, key@) == Ok::<Seq<char>, DecryptError>(
                chat_payload(sender@, body@),
            )
        },
{
    let plain = chat_text(sender, body);
    let ciphertext = encrypt(plain.as_str(), key);
    match encode_payload(&ciphertext) {
        Some(encoded) => {
            proof {
                lemma_chat_frame_parses(ciphertext@, encoded@);
            }
            Some(chat_frame(encoded.as_str()))
        },
        None => None,
    }
}

} // verus!
