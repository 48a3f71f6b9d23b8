use ktool::file_codec::CodecError;
use ktool::file_codec::MAX_MSG_SIZE;
use ktool::file_codec::decode_all;
use ktool::file_codec::decode_body;
use ktool::file_codec::decode_frame;
use ktool::file_codec::encode_all;
use ktool::file_codec::encode_frame;
use ktool::file_codec::frame_len;
use ktool::message::Message;
use ktool::message::Timestamp;

fn round_trip(msgs: Vec<Message>) {
    let bytes = encode_all(&msgs);
    let decoded = decode_all(&bytes).expect("should decode");
    assert_eq!(msgs, decoded);
}

#[test]
fn test_round_trip_empty() {
    round_trip(vec![Message::new(
        "nullable".to_string(),
        0,
        0,
        None,
        None,
        None,
        None,
    )]);
}

#[test]
fn test_round_trip_with_payload() {
    round_trip(vec![Message::new(
        "full".to_string(),
        42,
        24,
        Some(Timestamp::CreateTime(1234)),
        None,
        Some(vec![1, 2, 3, 4, 5]),
        Some(vec![6, 7, 8, 9, 0]),
    )]);
}

#[test]
fn test_round_trip_with_headers() {
    let headers = vec![
        ("anotherkey".to_string(), vec![]),
        ("key".to_string(), b"value".to_vec()),
    ];
    round_trip(vec![Message::new(
        "full".to_string(),
        42,
        24,
        Some(Timestamp::CreateTime(1234)),
        Some(headers),
        Some(vec![1, 2, 3, 4, 5]),
        Some(vec![6, 7, 8, 9, 0]),
    )]);
}

#[test]
fn test_round_trip_multiple_empty() {
    round_trip(vec![
        Message::new("nullable".to_string(), 0, 0, None, None, None, None),
        Message::new("nullable2".to_string(), 0, 0, None, None, None, None),
    ]);
}

#[test]
fn test_round_trip_multiple_populated() {
    let headers = vec![
        ("anotherkey".to_string(), vec![]),
        ("key".to_string(), b"value".to_vec()),
    ];
    round_trip(vec![
        Message::new(
            "populated".to_string(),
            12,
            34,
            None,
            None,
            Some(vec![4, 4, 4, 4]),
            None,
        ),
        Message::new(
            "full".to_string(),
            42,
            24,
            Some(Timestamp::CreateTime(1234)),
            Some(headers),
            Some(vec![1, 2, 3, 4, 5]),
            Some(vec![6, 7, 8, 9, 0]),
        ),
    ]);
}

#[test]
fn test_empty_and_absent_fields_stay_distinct() {
    let with_empty = Message::new(
        "t".to_string(),
        0,
        0,
        None,
        Some(vec![]),
        Some(vec![]),
        Some(vec![]),
    );
    let with_absent = Message::new("t".to_string(), 0, 0, None, None, None, None);
    let bytes = encode_all(&vec![with_empty.clone(), with_absent.clone()]);
    let decoded = decode_all(&bytes).expect("should decode");
    assert_eq!(decoded.len(), 2);
    assert_eq!(decoded[0], with_empty);
    assert_eq!(decoded[1], with_absent);
    assert_ne!(decoded[0], decoded[1]);
}

#[test]
fn test_eof_on_empty_stream() {
    let empty: Vec<u8> = Vec::new();
    assert_eq!(decode_all(&empty).expect("empty stream is no error").len(), 0);
    match decode_frame(&empty, 0) {
        Err(CodecError::Eof) => {}
        other => panic!("expected Eof, got {:?}", other.map(|p| p.1)),
    }
}

#[test]
fn test_oversized_frame_is_rejected_without_allocation() {
    // A frame whose declared length exceeds the 1 GiB bound by one byte.
    let declared: u64 = MAX_MSG_SIZE + 1;
    let mut bytes = declared.to_le_bytes().to_vec();
    bytes.extend_from_slice(&[0u8; 16]);
    match decode_frame(&bytes, 0) {
        Err(CodecError::Oversized) => {}
        other => panic!("expected Oversized, got {:?}", other.map(|p| p.1)),
    }
    match frame_len(&bytes[0..8]) {
        Err(CodecError::Oversized) => {}
        other => panic!("expected Oversized, got {:?}", other),
    }
    // The bound itself is fine as a declared length; only the stream is
    // then too short.
    let ok_len: u64 = MAX_MSG_SIZE;
    assert_eq!(frame_len(&ok_len.to_le_bytes()), Ok(MAX_MSG_SIZE));
}

#[test]
fn test_truncated_prefix_and_body() {
    let msg = Message::new("topic".to_string(), 0, 7, None, None, None, Some(b"xyz".to_vec()));
    let frame = encode_frame(&msg);
    // Ends inside the 8-byte length prefix.
    match decode_frame(&frame[0..5], 0) {
        Err(CodecError::Truncated) => {}
        other => panic!("expected Truncated, got {:?}", other.map(|p| p.1)),
    }
    // Ends inside the payload.
    match decode_frame(&frame[0..frame.len() - 1], 0) {
        Err(CodecError::Truncated) => {}
        other => panic!("expected Truncated, got {:?}", other.map(|p| p.1)),
    }
}

#[test]
fn test_frame_layout_length_prefix() {
    let msg = Message::new("abc".to_string(), 1, 2, None, None, None, None);
    let frame = encode_frame(&msg);
    let mut prefix = [0u8; 8];
    prefix.copy_from_slice(&frame[0..8]);
    let declared = u64::from_le_bytes(prefix);
    assert_eq!(declared as usize, frame.len() - 8);
    assert!(declared > 0);
    // The body alone decodes back to the record.
    let body = &frame[8..];
    assert_eq!(decode_body(body).expect("body should decode"), msg);
}

#[test]
fn test_frame_length_matches_fixed_width_layout() {
    // Payload size, by the fixed-width layout: topic 8+3, partition 4,
    // offset 8, one presence byte per optional field, nothing present.
    let bare = Message::new("abc".to_string(), 1, 2, None, None, None, None);
    let frame = encode_frame(&bare);
    assert_eq!(frame.len(), 8 + 27);
    // With a timestamp (1 + 4 + 8), a five-byte key and a five-byte
    // payload (1 + 8 + 5 each): topic 8+4, partition 4, offset 8,
    // headers tag 1.
    let full = Message::new(
        "full".to_string(),
        42,
        24,
        Some(Timestamp::CreateTime(1234)),
        None,
        Some(vec![1, 2, 3, 4, 5]),
        Some(vec![6, 7, 8, 9, 0]),
    );
    let frame = encode_frame(&full);
    assert_eq!(frame.len(), 8 + 66);
}

#[test]
fn test_garbage_body_is_a_serialisation_error() {
    // A frame whose declared length is right but whose payload is noise:
    // a topic length far past the end of the buffer.
    let body: Vec<u8> = vec![0xff; 12];
    let mut bytes = (body.len() as u64).to_le_bytes().to_vec();
    bytes.extend_from_slice(&body);
    match decode_all(&bytes) {
        Err(CodecError::Serialisation) => {}
        other => panic!("expected Serialisation, got {:?}", other),
    }
}

#[test]
fn test_decode_stops_at_clean_boundary() {
    let a = Message::new("a".to_string(), 0, 1, None, None, None, None);
    let b = Message::new("b".to_string(), 0, 2, Some(Timestamp::LogAppendTime(9)), None, None, None);
    let bytes = encode_all(&vec![a.clone(), b.clone()]);
    let (first, next) = decode_frame(&bytes, 0).expect("first frame");
    assert_eq!(first, a);
    let (second, end) = decode_frame(&bytes, next).expect("second frame");
    assert_eq!(second, b);
    assert_eq!(end, bytes.len());
    match decode_frame(&bytes, end) {
        Err(CodecError::Eof) => {}
        other => panic!("expected Eof, got {:?}", other.map(|p| p.1)),
    }
}
