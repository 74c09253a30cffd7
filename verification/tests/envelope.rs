use letschat::chat::shared_key;
use letschat::cipher::{decrypt, encrypt};
use letschat::envelope::{
    chat_event, chat_frame, chat_text, classify, decode_payload, encode_payload, frame_chat,
    parse, voice_request, ControlKind, IncomingEvent, ParseError,
};

#[test]
fn parse_chat_frame_gives_the_ciphertext() {
    let event = parse(b"NORMAL_MESSAGE ZKgbUk3VPNgYuaCWcNtkvQ==");
    assert_eq!(
        event,
        Ok(IncomingEvent::EncryptedChat(vec![
            0x64, 0xa8, 0x1b, 0x52, 0x4d, 0xd5, 0x3c, 0xd8, 0x18, 0xb9, 0xa0, 0x96, 0x70, 0xdb,
            0x64, 0xbd
        ]))
    );
}

#[test]
fn parse_chat_frame_with_empty_payload_gives_empty_ciphertext() {
    assert_eq!(parse(b"NORMAL_MESSAGE "), Ok(IncomingEvent::EncryptedChat(Vec::new())));
}

#[test]
fn parse_text_without_tag_or_marker_is_a_plain_line() {
    assert_eq!(
        parse(b"bob has left the room"),
        Ok(IncomingEvent::PlainLine("bob has left the room".to_string()))
    );
    assert_eq!(
        parse(b"alice > hello"),
        Ok(IncomingEvent::PlainLine("alice > hello".to_string()))
    );
}

#[test]
fn parse_text_with_the_marker_is_a_join_result() {
    assert_eq!(
        parse(b"Welcome! Room ID 42 joined"),
        Ok(IncomingEvent::RoomJoinResult("Welcome! Room ID 42 joined".to_string()))
    );
    assert_eq!(
        parse(b"Room ID 42"),
        Ok(IncomingEvent::RoomJoinResult("Room ID 42".to_string()))
    );
    assert_eq!(parse(b"Room ID"), Ok(IncomingEvent::RoomJoinResult("Room ID".to_string())));
}

#[test]
fn parse_voice_tag_is_a_control_signal() {
    assert_eq!(
        parse(b"JOIN_VOICE_CHANNEL_MESSAGE bob"),
        Ok(IncomingEvent::ControlSignal(ControlKind::JoinVoice))
    );
}

#[test]
fn parse_known_tag_wins_over_the_marker() {
    assert_eq!(
        parse(b"JOIN_VOICE_CHANNEL_MESSAGE Room ID 42"),
        Ok(IncomingEvent::ControlSignal(ControlKind::JoinVoice))
    );
    assert_eq!(parse(b"NORMAL_MESSAGE Room ID"), Err(ParseError::InvalidBase64));
}

#[test]
fn parse_tag_is_matched_whole_and_exactly() {
    assert_eq!(
        parse(b"NORMAL_MESSAGES abc"),
        Ok(IncomingEvent::PlainLine("NORMAL_MESSAGES abc".to_string()))
    );
    assert_eq!(
        parse(b"normal_message abc"),
        Ok(IncomingEvent::PlainLine("normal_message abc".to_string()))
    );
    assert_eq!(
        parse(b" NORMAL_MESSAGE abc"),
        Ok(IncomingEvent::PlainLine(" NORMAL_MESSAGE abc".to_string()))
    );
}

#[test]
fn parse_rejects_text_without_a_space() {
    assert_eq!(parse(b"hello"), Err(ParseError::MissingSeparator));
    assert_eq!(parse(b"NORMAL_MESSAGE"), Err(ParseError::MissingSeparator));
    assert_eq!(parse(b""), Err(ParseError::MissingSeparator));
}

#[test]
fn parse_rejects_bytes_that_are_not_utf8() {
    assert_eq!(parse(&[0xff, 0xfe, 0x20, 0x41]), Err(ParseError::NotText));
    assert_eq!(parse(&[0x4e, 0x20, 0xc3]), Err(ParseError::NotText));
}

#[test]
fn parse_rejects_a_chat_payload_that_is_not_base64() {
    assert_eq!(parse(b"NORMAL_MESSAGE not base64!"), Err(ParseError::InvalidBase64));
    assert_eq!(parse(b"NORMAL_MESSAGE Zm9"), Err(ParseError::InvalidBase64));
    assert_eq!(parse(b"NORMAL_MESSAGE Zm9v Zm9v"), Err(ParseError::InvalidBase64));
    assert_eq!(parse(b"NORMAL_MESSAGE  Zm9v"), Err(ParseError::InvalidBase64));
}

#[test]
fn classify_reads_text_as_parse_reads_its_bytes() {
    let texts = [
        "NORMAL_MESSAGE Zm9v",
        "JOIN_VOICE_CHANNEL_MESSAGE x",
        "Room ID 1",
        "plain words",
        "oneword",
        "NORMAL_MESSAGE ???",
    ];
    for text in texts {
        assert_eq!(classify(text.to_string()), parse(text.as_bytes()));
    }
}

#[test]
fn chat_event_wraps_the_decoded_bytes() {
    assert_eq!(chat_event(Some(vec![1, 2, 3])), Ok(IncomingEvent::EncryptedChat(vec![1, 2, 3])));
    assert_eq!(chat_event(Some(Vec::new())), Ok(IncomingEvent::EncryptedChat(Vec::new())));
    assert_eq!(chat_event(None), Err(ParseError::InvalidBase64));
}

#[test]
fn encode_payload_known_answers() {
    assert_eq!(encode_payload(&Vec::new()), Some(String::new()));
    assert_eq!(encode_payload(&b"f".to_vec()), Some("Zg==".to_string()));
    assert_eq!(encode_payload(&b"fo".to_vec()), Some("Zm8=".to_string()));
    assert_eq!(encode_payload(&b"foo".to_vec()), Some("Zm9v".to_string()));
    assert_eq!(encode_payload(&vec![0xff, 0xec, 0x20, 0x55, 0x00]), Some("/+wgVQA=".to_string()));
}

#[test]
fn decode_payload_known_answers() {
    assert_eq!(decode_payload(""), Some(Vec::new()));
    assert_eq!(decode_payload("Zg=="), Some(b"f".to_vec()));
    assert_eq!(decode_payload("Zm8="), Some(b"fo".to_vec()));
    assert_eq!(decode_payload("Zm9v"), Some(b"foo".to_vec()));
    assert_eq!(decode_payload("+uwgVQA="), Some(vec![0xfa, 0xec, 0x20, 0x55, 0x00]));
}

#[test]
fn decode_payload_rejects_what_is_not_canonical() {
    assert_eq!(decode_payload("Zg"), None);
    assert_eq!(decode_payload("Zg="), None);
    assert_eq!(decode_payload("Z"), None);
    assert_eq!(decode_payload("Zm9v "), None);
    assert_eq!(decode_payload("Zm-v"), None);
    assert_eq!(decode_payload("Zh=="), None);
}

#[test]
fn decode_payload_undoes_encode_payload() {
    let mut data: Vec<u8> = Vec::new();
    for n in 0..100u8 {
        let text = encode_payload(&data).unwrap();
        assert_eq!(text.len(), (data.len() + 2) / 3 * 4);
        assert_eq!(decode_payload(&text), Some(data.clone()));
        data.push(n.wrapping_mul(37));
    }
}

#[test]
fn chat_text_puts_the_delimiter_between_sender_and_body() {
    assert_eq!(chat_text("alice", "hi"), "alice > hi");
    assert_eq!(chat_text("", ""), " > ");
    assert_eq!(chat_text("a b", " c "), "a b >  c ");
}

#[test]
fn chat_frame_puts_the_tag_first() {
    assert_eq!(chat_frame("Zm9v"), "NORMAL_MESSAGE Zm9v");
    assert_eq!(chat_frame(""), "NORMAL_MESSAGE ");
}

#[test]
fn voice_request_names_the_user() {
    assert_eq!(voice_request("alice"), "JOIN_VOICE_CHANNEL_MESSAGE alice");
}

#[test]
fn frame_chat_known_answer() {
    let frame = frame_chat("alice", "hi", &shared_key());
    assert_eq!(frame, Some("NORMAL_MESSAGE ZKgbUk3VPNgYuaCWcNtkvQ==".to_string()));
}

#[test]
fn frame_chat_is_the_tag_and_the_base64_of_the_ciphertext() {
    let key = shared_key();
    let frame = frame_chat("bob", "a longer message, over one block", &key).unwrap();
    let ciphertext = encrypt("bob > a longer message, over one block", &key);
    let expected = format!("NORMAL_MESSAGE {}", encode_payload(&ciphertext).unwrap());
    assert_eq!(frame, expected);
}

#[test]
fn frame_chat_parses_back_and_decrypts_to_the_plaintext() {
    let key = shared_key();
    let cases = [("alice", "hi"), ("bob", ""), ("", "x"), ("z\u{e9}", "caf\u{e9} > th\u{e9}")];
    for (sender, body) in cases {
        let frame = frame_chat(sender, body, &key).unwrap();
        match parse(frame.as_bytes()) {
            Ok(IncomingEvent::EncryptedChat(ciphertext)) => {
                assert_eq!(decrypt(ciphertext, &key), Ok(format!("{} > {}", sender, body)));
            }
            other => panic!("not a chat frame: {:?}", other),
        }
    }
}
