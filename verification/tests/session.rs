use letschat::envelope::{ControlKind, IncomingEvent, ParseError};
use letschat::session::{
    join_outcome, join_request, JoinError, JoinOutcome, ReadOutcome, Received, Receiver,
};

fn reply(bytes: &[u8]) -> ReadOutcome {
    ReadOutcome::Data(bytes.to_vec())
}

#[test]
fn join_request_is_room_space_name() {
    assert_eq!(join_request("42", "alice"), "42 alice");
    assert_eq!(join_request("", ""), " ");
    assert_eq!(join_request("room one", "bob"), "room one bob");
}

#[test]
fn join_outcome_with_the_marker_is_success() {
    let outcome = join_outcome(reply(b"Joined Room ID 42"), "42".to_string(), "alice".to_string());
    assert_eq!(
        outcome,
        Ok(JoinOutcome::Joined {
            message: "Joined Room ID 42".to_string(),
            room_id: "42".to_string(),
            display_name: "alice".to_string()
        })
    );
}

#[test]
fn join_outcome_without_the_marker_asks_again() {
    let outcome = join_outcome(reply(b"Name already taken"), "42".to_string(), "alice".to_string());
    assert_eq!(outcome, Ok(JoinOutcome::Retry("Name already taken".to_string())));
    let one_word = join_outcome(reply(b"Taken"), "42".to_string(), "alice".to_string());
    assert_eq!(one_word, Ok(JoinOutcome::Retry("Taken".to_string())));
}

#[test]
fn join_outcome_goes_by_the_marker_alone() {
    let outcome = join_outcome(reply(b"NORMAL_MESSAGE Room ID"), "1".to_string(), "a".to_string());
    assert_eq!(
        outcome,
        Ok(JoinOutcome::Joined {
            message: "NORMAL_MESSAGE Room ID".to_string(),
            room_id: "1".to_string(),
            display_name: "a".to_string()
        })
    );
}

#[test]
fn join_outcome_of_bytes_that_are_not_text_is_an_error() {
    let outcome = join_outcome(reply(&[0x52, 0xff]), "42".to_string(), "alice".to_string());
    assert_eq!(outcome, Err(JoinError::Parse(ParseError::NotText)));
    let marked =
        join_outcome(reply(b"Room ID \xff"), "42".to_string(), "alice".to_string());
    assert_eq!(marked, Err(JoinError::Parse(ParseError::NotText)));
}

#[test]
fn join_outcome_of_a_read_without_bytes_is_a_disconnect() {
    let outcome = join_outcome(reply(b""), "42".to_string(), "alice".to_string());
    assert_eq!(outcome, Err(JoinError::Disconnected));
}

#[test]
fn join_outcome_of_a_failed_read_is_a_disconnect() {
    let outcome = join_outcome(ReadOutcome::Failed, "42".to_string(), "alice".to_string());
    assert_eq!(outcome, Err(JoinError::Disconnected));
}

#[test]
fn receiver_starts_running() {
    let receiver = Receiver::new();
    assert!(!receiver.is_stopped());
}

#[test]
fn receiver_hands_on_events_in_order() {
    let mut receiver = Receiver::new();
    assert_eq!(
        receiver.step(ReadOutcome::Data(b"first line".to_vec())),
        Some(Received::Event(IncomingEvent::PlainLine("first line".to_string())))
    );
    assert_eq!(
        receiver.step(ReadOutcome::Data(b"NORMAL_MESSAGE Zm9v".to_vec())),
        Some(Received::Event(IncomingEvent::EncryptedChat(b"foo".to_vec())))
    );
    assert_eq!(
        receiver.step(ReadOutcome::Data(b"JOIN_VOICE_CHANNEL_MESSAGE bob".to_vec())),
        Some(Received::Event(IncomingEvent::ControlSignal(ControlKind::JoinVoice)))
    );
    assert!(!receiver.is_stopped());
}

#[test]
fn receiver_drops_a_frame_that_does_not_parse_and_goes_on() {
    let mut receiver = Receiver::new();
    assert_eq!(receiver.step(ReadOutcome::Data(b"oneword".to_vec())), None);
    assert_eq!(receiver.step(ReadOutcome::Data(vec![0xff, 0x20])), None);
    assert_eq!(receiver.step(ReadOutcome::Data(b"NORMAL_MESSAGE ???".to_vec())), None);
    assert!(!receiver.is_stopped());
    assert_eq!(
        receiver.step(ReadOutcome::Data(b"still here".to_vec())),
        Some(Received::Event(IncomingEvent::PlainLine("still here".to_string())))
    );
}

#[test]
fn receiver_reports_end_of_stream_once() {
    let mut receiver = Receiver::new();
    assert_eq!(receiver.step(ReadOutcome::Data(Vec::new())), Some(Received::Disconnected));
    assert!(receiver.is_stopped());
    assert_eq!(receiver.step(ReadOutcome::Data(Vec::new())), None);
    assert_eq!(receiver.step(ReadOutcome::Failed), None);
    assert_eq!(receiver.step(ReadOutcome::Data(b"late words".to_vec())), None);
    assert!(receiver.is_stopped());
}

#[test]
fn receiver_reports_a_failed_read_once() {
    let mut receiver = Receiver::new();
    assert_eq!(receiver.step(ReadOutcome::Failed), Some(Received::Disconnected));
    assert!(receiver.is_stopped());
    assert_eq!(receiver.step(ReadOutcome::Failed), None);
    assert_eq!(receiver.step(ReadOutcome::Data(Vec::new())), None);
}

#[test]
fn receiver_counts_one_disconnect_over_a_run_of_reads() {
    let reads = vec![
        ReadOutcome::Data(b"a b".to_vec()),
        ReadOutcome::Data(b"junk".to_vec()),
        ReadOutcome::Data(b"c d".to_vec()),
        ReadOutcome::Data(Vec::new()),
        ReadOutcome::Data(b"e f".to_vec()),
        ReadOutcome::Failed,
        ReadOutcome::Data(Vec::new()),
    ];
    let mut receiver = Receiver::new();
    let mut handed_on: Vec<Received> = Vec::new();
    for read in reads {
        if let Some(item) = receiver.step(read) {
            handed_on.push(item);
        }
    }
    assert_eq!(
        handed_on,
        vec![
            Received::Event(IncomingEvent::PlainLine("a b".to_string())),
            Received::Event(IncomingEvent::PlainLine("c d".to_string())),
            Received::Disconnected,
        ]
    );
}
