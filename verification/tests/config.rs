use ktool::kafka_opts::KafkaOpts;
use ktool::kafka_opts::KeyValueConfig;
use ktool::kafka_opts::KeyValueError;
use ktool::kafka_opts::parse_seconds;
use ktool::source::SeekPosition;
use ktool::source::SourceError;
use ktool::source::remaining_hint;
use ktool::source::resolve_partition;
use ktool::source::resolve_start;

#[test]
fn test_key_value_parses_one_separator() {
    let kv = KeyValueConfig::from_str("linger.ms=5").expect("well-formed pair");
    assert_eq!(kv.key, "linger.ms");
    assert_eq!(kv.value, "5");
    let empty_value = KeyValueConfig::from_str("a=").expect("empty value is allowed");
    assert_eq!(empty_value.key, "a");
    assert_eq!(empty_value.value, "");
    assert_eq!(KeyValueConfig::from_str("asdf"), Err(KeyValueError::Malformed));
    assert_eq!(KeyValueConfig::from_str("a=b=c"), Err(KeyValueError::Malformed));
}

#[test]
fn test_config_pairs_order_and_contents() {
    let opts = KafkaOpts {
        timeout_secs: 10,
        group: "bananas".to_string(),
        additional_args: vec![KeyValueConfig {
            key: "linger.ms".to_string(),
            value: "5".to_string(),
        }],
    };
    let brokers = vec!["a:9092".to_string(), "b:9092".to_string()];
    let pairs = opts.new_kafka_config(brokers);
    let expected: Vec<(String, String)> = vec![
        ("linger.ms".to_string(), "5".to_string()),
        ("enable.auto.commit".to_string(), "false".to_string()),
        ("enable.partition.eof".to_string(), "false".to_string()),
        ("auto.offset.reset".to_string(), "earliest".to_string()),
        ("bootstrap.servers".to_string(), "a:9092,b:9092".to_string()),
        ("group.id".to_string(), "bananas".to_string()),
    ];
    assert_eq!(pairs, expected);
}

#[test]
fn test_parse_seconds() {
    assert_eq!(parse_seconds("10"), Some(10));
    assert_eq!(parse_seconds("0"), Some(0));
    assert_eq!(parse_seconds(""), None);
    assert_eq!(parse_seconds("-1"), None);
    assert_eq!(parse_seconds("ten"), None);
    assert_eq!(parse_seconds("18446744073709551615"), Some(u64::MAX));
    assert_eq!(parse_seconds("18446744073709551616"), None);
}

#[test]
fn test_resolve_partition() {
    assert_eq!(resolve_partition(Some(3), 1), Ok(3));
    assert_eq!(resolve_partition(None, 0), Ok(0));
    assert_eq!(resolve_partition(None, 1), Ok(0));
    assert_eq!(resolve_partition(None, 2), Err(SourceError::AmbiguousPartition));
}

#[test]
fn test_resolve_start() {
    // Explicit non-negative offset: seek straight there.
    assert_eq!(resolve_start(Some(42), 5, 100), (42, SeekPosition::Offset(42)));
    // Negative offset: tail semantics against the high watermark.
    assert_eq!(resolve_start(Some(-3), 5, 100), (97, SeekPosition::OffsetTail(3)));
    // No offset: the earliest available record.
    assert_eq!(resolve_start(None, 5, 100), (5, SeekPosition::Beginning));
}

#[test]
fn test_remaining_hint_clamps_at_zero() {
    assert_eq!(remaining_hint(97, 100), 3);
    assert_eq!(remaining_hint(100, 100), 0);
    assert_eq!(remaining_hint(150, 100), 0);
    assert_eq!(remaining_hint(-5, 5), 10);
}
