//! The room-join handshake and the receive loop of a connection, as pure
//! decisions: what to write, and what a read means.
//!
//! The handshake is one request and one answer. The answer is free text; it
//! announces success when it holds the join marker, and is otherwise the
//! server's reason to ask again. A read that failed or gave no bytes, or an
//! answer that is not text, ends the attempt with an error.

use vstd::prelude::*;
use vstd::slice::*;
use vstd::string::*;
use vstd::utf8::*;

use crate::envelope::{event_is, join_marker, parse, parse_spec, EventView, IncomingEvent, ParseError};
use crate::text::{chars_of, contains_chars, contains_text, string_from_utf8};

verus! {

/// How the server answered a request to join a room.
#[derive(Debug, Clone, PartialEq, Eq)]
pub enum JoinOutcome {
    /// The room was joined; `message` is the server's answer.
    Joined { message: String, room_id: String, display_name: String },
    /// The server asks to try again, for the reason it gives.
    Retry(String),
}

/// The mathematical content of a `JoinOutcome`.
pub enum JoinOutcomeView {
    Joined { message: Seq<char>, room_id: Seq<char>, display_name: Seq<char> },
    Retry(Seq<char>),
}

impl View for JoinOutcome {
    type V = JoinOutcomeView;

    open spec fn view(&self) -> JoinOutcomeView {
        match self {
            JoinOutcome::Joined { message, room_id, display_name } => JoinOutcomeView::Joined {
                message: message@,
                room_id: room_id@,
                display_name: display_name@,
            },
            JoinOutcome::Retry(reason) => JoinOutcomeView::Retry(reason@),
        }
    }
}

/// Why an attempt to join a room ended without an answer to go by.
#[derive(Debug, Clone, Copy, PartialEq, Eq)]
pub enum JoinError {
    /// The server's answer could not be read as text.
    Parse(ParseError),
    /// The read failed or gave no bytes: the connection is gone.
    Disconnected,
}

/// What one read on the connection gave.
#[derive(Debug, Clone, PartialEq, Eq)]
pub enum ReadOutcome {
    /// The bytes of one read; none when the peer has closed.
    Data(Vec<u8>),
    /// The read failed.
    Failed,
}

/// What the receive loop hands on after one read.
#[derive(Debug, Clone, PartialEq, Eq)]
pub enum Received {
    /// An event to route to the conversation.
    Event(IncomingEvent),
    /// The connection is gone; nothing follows.
    Disconnected,
}

/// The mathematical content of a `Received`.
pub enum ReceivedView {
    Event(EventView),
    Disconnected,
}

impl View for Received {
    type V = ReceivedView;

    open spec fn view(&self) -> ReceivedView {
        match self {
            Received::Event(event) => ReceivedView::Event(event@),
            Received::Disconnected => ReceivedView::Disconnected,
        }
    }
}

/// The receive loop of one connection: running until a read ends it.
#[derive(Debug, Clone, Copy, PartialEq, Eq)]
pub struct Receiver {
    pub stopped: bool,
}

/// The text of the request to join `room_id` as `display_name`.
pub open spec fn join_request_spec(room_id: Seq<char>, display_name: Seq<char>) -> Seq<char> {
    room_id + seq![' '] + display_name
}

/// The bytes of a read, or `None` for a read that failed.
pub open spec fn outcome_bytes(outcome: ReadOutcome) -> Option<Seq<u8>> {
    match outcome {
        ReadOutcome::Data(bytes) => Some(bytes@),
        ReadOutcome::Failed => None,
    }
}

/// Whether a read tells that the connection is gone: it failed, or it gave
/// no bytes.
pub open spec fn ends_session(read: Option<Seq<u8>>) -> bool {
    match read {
        Some(bytes) => bytes.len() == 0,
        None => true,
    }
}

/// How the one read `reply` after a request to join `room_id` as
/// `display_name` reads: an error when the connection is gone or the answer
/// is not UTF-8, success when the answer holds the join marker, and the
/// server's reason to try again otherwise.
pub open spec fn join_outcome_spec(
    reply: Option<Seq<u8>>,
    room_id: Seq<char>,
    display_name: Seq<char>,
) -> Result<JoinOutcomeView, JoinError> {
    if ends_session(reply) {
        Err(JoinError::Disconnected)
    } else if !valid_utf8(reply->Some_0) {
        Err(JoinError::Parse(ParseError::NotText))
    } else if contains_text(decode_utf8(reply->Some_0), join_marker()) {
        Ok(JoinOutcomeView::Joined { message: decode_utf8(reply->Some_0), room_id, display_name })
    } else {
        Ok(JoinOutcomeView::Retry(decode_utf8(reply->Some_0)))
    }
}

/// What a running loop hands on after `read`: the disconnect for a read
/// that ends the loop, the event for a frame that parses, nothing for one
/// that does not.
pub open spec fn handed_on(read: Option<Seq<u8>>) -> Option<ReceivedView> {
    if ends_session(read) {
        Some(ReceivedView::Disconnected)
    } else {
        match parse_spec(read->Some_0) {
            Ok(event) => Some(ReceivedView::Event(event)),
            Err(_) => None,
        }
    }
}

/// Whether the loop is stopped after `reads`, having been `stopped` before.
pub open spec fn stopped_after(stopped: bool, reads: Seq<Option<Seq<u8>>>) -> bool
    decreases reads.len(),
{
    if reads.len() == 0 {
        stopped
    } else {
        stopped_after(stopped, reads.drop_last()) || ends_session(reads.last())
    }
}

/// Everything the loop hands on over `reads`, in order, having been
/// `stopped` or not before the first of them. A stopped loop hands on
/// nothing.
pub open spec fn handed_on_all(stopped: bool, reads: Seq<Option<Seq<u8>>>) -> Seq<ReceivedView>
    decreases reads.len(),
{
    if reads.len() == 0 {
        Seq::empty()
    } else {
        let earlier = handed_on_all(stopped, reads.drop_last());
        if stopped_after(stopped, reads.drop_last()) {
            earlier
        } else {
            match handed_on(reads.last()) {
                Some(item) => earlier.push(item),
                None => earlier,
            }
        }
    }
}

/// Number of disconnects among `items`.
pub open spec fn disconnects(items: Seq<ReceivedView>) -> nat
    decreases items.len(),
{
    if items.len() == 0 {
        0
    } else {
        disconnects(items.drop_last()) + if items.last() is Disconnected {
            1nat
        } else {
            0nat
        }
    }
}

/// Over any reads, a loop that was running hands on exactly one disconnect
/// if a read ended it and none if no read did, and the disconnect is the
/// last thing it hands on. A loop that was stopped hands on nothing.
pub proof fn lemma_single_disconnect(stopped: bool, reads: Seq<Option<Seq<u8>>>)
    ensures
        stopped ==> handed_on_all(stopped, reads).len() == 0,
        !stopped ==> disconnects(handed_on_all(stopped, reads)) == if stopped_after(
            stopped,
            reads,
        ) {
            1nat
        } else {
            0nat
        },
        !stopped && stopped_after(stopped, reads) ==> handed_on_all(stopped, reads).len() > 0
            && handed_on_all(stopped, reads).last() is Disconnected,
    decreases reads.len(),
{
    if reads.len() > 0 {
        lemma_single_disconnect(stopped, reads.drop_last());
        lemma_stopped_stays(stopped, reads.drop_last());
        let earlier = handed_on_all(stopped, reads.drop_last());
        if !stopped && !stopped_after(stopped, reads.drop_last()) {
            match handed_on(reads.last()) {
                Some(item) => {
                    assert(earlier.push(item).drop_last() =~= earlier);
                },
                None => {},
            }
        }
    }
}

/// A loop that was stopped stays stopped.
pub proof fn lemma_stopped_stays(stopped: bool, reads: Seq<Option<Seq<u8>>>)
    ensures
        stopped ==> stopped_after(stopped, reads),
    decreases reads.len(),
{
    if reads.len() > 0 {
        lemma_stopped_stays(stopped, reads.drop_last());
    }
}

/// The request to join `room_id` as `display_name`: the two, with a space
/// between them.
pub fn join_request(room_id: &str, display_name: &str) -> (request: String)
    ensures
        request@ == join_request_spec(room_id@, display_name@),
{
    proof {
        reveal_strlit(" ");
    }
    let mut request = String::from_str(room_id);
    request.append(" ");
    request.append(display_name);
    assert(" "@ =~= seq![' ']);
    request
}

/// Reads the one read that follows a request to join `room_id` as
/// `display_name`. A read that failed or gave no bytes ends the attempt as
/// disconnected; an answer that is not UTF-8 ends it with the parse error.
pub fn join_outcome(reply: ReadOutcome, room_id: String, display_name: String) -> (r: Result<
    JoinOutcome,
    JoinError,
>)
    ensures
        match r {
            Ok(outcome) => join_outcome_spec(outcome_bytes(reply), room_id@, display_name@) == Ok::<
                JoinOutcomeView,
                JoinError,
            >(outcome@),
            Err(e) => join_outcome_spec(outcome_bytes(reply), room_id@, display_name@) == Err::<
                JoinOutcomeView,
                JoinError,
            >(e),
        },
{
    match reply {
        ReadOutcome::Failed => Err(JoinError::Disconnected),
        ReadOutcome::Data(bytes) => {
            if bytes.len() == 0 {
                return Err(JoinError::Disconnected);
            }
            match string_from_utf8(bytes) {
                Some(message) => {
                    let chars = chars_of(message.as_str());
                    if contains_chars(&chars, &chars_of("Room ID")) {
                        Ok(JoinOutcome::Joined { message, room_id, display_name })
                    } else {
                        Ok(JoinOutcome::Retry(message))
                    }
                },
                None => Err(JoinError::Parse(ParseError::NotText)),
            }
        },
    }
}

impl Receiver {
    /// A loop that runs.
    pub fn new() -> (receiver: Receiver)
        ensures
            !receiver.stopped,
    {
        Receiver { stopped: false }
    }

    /// Tells whether the loop has ended.
    pub fn is_stopped(&self) -> (b: bool)
        ensures
            b == self.stopped,
    {
        self.stopped
    }

    /// Decides what one read means. A read that failed or gave no bytes
    /// ends the loop and is handed on as the disconnect. A frame that
    /// parses is handed on as its event; one that does not is dropped, and
    /// the loop goes on. Once the loop has ended, nothing is handed on.
    pub fn step(&mut self, outcome: ReadOutcome) -> (item: Option<Received>)
        ensures
            final(self).stopped == (old(self).stopped || ends_session(outcome_bytes(outcome))),
            old(self).stopped ==> item is None,
            !old(self).stopped ==> match item {
                Some(received) => handed_on(outcome_bytes(outcome)) == Some(received@),
                None => handed_on(outcome_bytes(outcome)) is None,
            },
    {
        match outcome {
            ReadOutcome::Failed => {
                if self.stopped {
                    None
                } else {
                    self.stopped = true;
                    Some(Received::Disconnected)
                }
            },
            ReadOutcome::Data(bytes) => {
                if bytes.len() == 0 {
                    if self.stopped {
                        None
                    } else {
                        self.stopped = true;
                        Some(Received::Disconnected)
                    }
                } else if self.stopped {
                    None
                } else {
                    match parse(bytes.as_slice()) {
                        Ok(event) => Some(Received::Event(event)),
                        Err(_) => None,
                    }
                }
            },
        }
    }
}

} // verus!
