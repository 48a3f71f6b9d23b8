use ktool::json_output::JsonMessage;
use ktool::message::Message;
use ktool::message::Timestamp;

fn headers(input: &[(&str, &[u8])]) -> Vec<(String, Vec<u8>)> {
    input.iter().map(|(k, v)| (k.to_string(), v.to_vec())).collect()
}

#[test]
fn test_json_representation_all_fields() {
    let msg = Message::new(
        "bananas".to_string(),
        42,
        1234,
        Some(Timestamp::CreateTime(11223344)),
        Some(headers(&[("map_key1", b"value"), ("map_key2", "pl\u{e1}tanos".as_bytes())])),
        Some("pl\u{e1}tanos".as_bytes().to_vec()),
        Some("banana-payload-\u{1f34c}".as_bytes().to_vec()),
    );
    let json = JsonMessage::from_message(&msg);
    assert_eq!(json.topic, "bananas");
    assert_eq!(json.partition, 42);
    assert_eq!(json.offset, 1234);
    assert_eq!(json.timestamp, Some(Timestamp::CreateTime(11223344)));
    assert_eq!(
        json.headers,
        Some(vec![
            ("map_key1".to_string(), "dmFsdWU=".to_string()),
            ("map_key2".to_string(), "cGzDoXRhbm9z".to_string()),
        ])
    );
    assert_eq!(json.key.as_deref(), Some("cGzDoXRhbm9z"));
    assert_eq!(json.payload.as_deref(), Some("YmFuYW5hLXBheWxvYWQt8J+NjA=="));
}

#[test]
fn test_json_representation_optional_nones() {
    let msg = Message::new("bananas".to_string(), 42, 1234, None, None, None, None);
    let json = JsonMessage::from_message(&msg);
    assert_eq!(json.topic, "bananas");
    assert_eq!(json.partition, 42);
    assert_eq!(json.offset, 1234);
    assert_eq!(json.timestamp, None);
    assert_eq!(json.headers, None);
    assert_eq!(json.key, None);
    assert_eq!(json.payload, None);
}

#[test]
fn test_json_representation_optional_empty() {
    let msg = Message::new(
        "bananas".to_string(),
        42,
        1234,
        None,
        Some(Vec::new()),
        Some(vec![]),
        Some(vec![]),
    );
    let json = JsonMessage::from_message(&msg);
    assert_eq!(json.timestamp, None);
    assert_eq!(json.headers, Some(Vec::new()));
    assert_eq!(json.key.as_deref(), Some(""));
    assert_eq!(json.payload.as_deref(), Some(""));
}

#[test]
fn test_json_representation_non_printable() {
    let msg = Message::new(
        "bananas".to_string(),
        42,
        1234,
        None,
        Some(headers(&[("test", &[0x00, 0x42, 0x01, 0xFF])])),
        Some(vec![0x00, 0x42, 0x02, 0xFF]),
        Some(vec![0x00, 0x42, 0x03, 0xFF]),
    );
    let json = JsonMessage::from_message(&msg);
    assert_eq!(json.headers, Some(vec![("test".to_string(), "AEIB/w==".to_string())]));
    assert_eq!(json.key.as_deref(), Some("AEIC/w=="));
    assert_eq!(json.payload.as_deref(), Some("AEID/w=="));
}
