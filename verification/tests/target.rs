use ktool::target::Target;
use ktool::target::TargetError;
use ktool::target::check_self_copy;
use ktool::target::same_target;

fn parse(input: &str) -> Result<Target, TargetError> {
    Target::from_str(input)
}

fn expect_kafka(input: &str) -> (Vec<String>, String, Option<i32>) {
    match parse(input) {
        Ok(Target::Kafka { brokers, topic, partition }) => (brokers, topic, partition),
        other => panic!("expected a kafka target for {:?}, got {:?}", input, other),
    }
}

#[test]
fn test_parse_empty() {
    assert_eq!(parse("kafka://"), Err(TargetError::Invalid));
}

#[test]
fn test_parse_empty_brokers() {
    assert_eq!(parse("kafka:///topic"), Err(TargetError::Invalid));
}

#[test]
fn test_parse_empty_topic() {
    assert_eq!(parse("kafka:////partition"), Err(TargetError::Invalid));
}

#[test]
fn test_parse_kafka_host_no_topic() {
    assert_eq!(parse("kafka://bananas.local"), Err(TargetError::Invalid));
}

#[test]
fn test_parse_kafka_host_no_topic_trailing_slash() {
    assert_eq!(parse("kafka://bananas.local/"), Err(TargetError::Invalid));
}

#[test]
fn test_parse_kafka_host() {
    let (brokers, topic, partition) = expect_kafka("kafka://bananas.local/topic");
    assert_eq!(brokers, ["bananas.local"]);
    assert_eq!(topic, "topic");
    assert_eq!(partition, None);
}

#[test]
fn test_parse_kafka_host_port() {
    let (brokers, topic, partition) = expect_kafka("kafka://bananas.local:9092/topic");
    assert_eq!(brokers, ["bananas.local:9092"]);
    assert_eq!(topic, "topic");
    assert_eq!(partition, None);
}

#[test]
fn test_parse_kafka_multiple_host() {
    let (brokers, topic, partition) =
        expect_kafka("kafka://platanos.local,bananas.local:9092,another.banana:9092/topic");
    assert_eq!(brokers, ["platanos.local", "bananas.local:9092", "another.banana:9092"]);
    assert_eq!(topic, "topic");
    assert_eq!(partition, None);
}

#[test]
fn test_parse_kafka_ipv4() {
    let (brokers, topic, partition) = expect_kafka("kafka://127.0.0.1/topic");
    assert_eq!(brokers, ["127.0.0.1"]);
    assert_eq!(topic, "topic");
    assert_eq!(partition, None);
}

#[test]
fn test_parse_kafka_ipv4_port() {
    let (brokers, topic, partition) = expect_kafka("kafka://127.0.0.1:9092/topic");
    assert_eq!(brokers, ["127.0.0.1:9092"]);
    assert_eq!(topic, "topic");
    assert_eq!(partition, None);
}

#[test]
fn test_parse_kafka_ipv6() {
    let (brokers, topic, partition) = expect_kafka("kafka://[2001:db8::1]/topic");
    assert_eq!(brokers, ["[2001:db8::1]"]);
    assert_eq!(topic, "topic");
    assert_eq!(partition, None);
}

#[test]
fn test_parse_kafka_ipv6_port() {
    let (brokers, topic, partition) = expect_kafka("kafka://[2001:db8::1]:9092/topic");
    assert_eq!(brokers, ["[2001:db8::1]:9092"]);
    assert_eq!(topic, "topic");
    assert_eq!(partition, None);
}

#[test]
fn test_parse_kafka_multiple_ip() {
    let (brokers, topic, partition) =
        expect_kafka("kafka://127.0.0.1,1.2.3.4:9092,[2001:db8::1]:9092/topic");
    assert_eq!(brokers, ["127.0.0.1", "1.2.3.4:9092", "[2001:db8::1]:9092"]);
    assert_eq!(topic, "topic");
    assert_eq!(partition, None);
}

#[test]
fn test_parse_kafka_multiple_mixed() {
    let (brokers, topic, partition) =
        expect_kafka("kafka://localhost:9092,1.2.3.4:9092,[2001:db8::1]:9092/topic");
    assert_eq!(brokers, ["localhost:9092", "1.2.3.4:9092", "[2001:db8::1]:9092"]);
    assert_eq!(topic, "topic");
    assert_eq!(partition, None);
}

#[test]
fn test_parse_kafka_partition() {
    let (brokers, topic, partition) = expect_kafka("kafka://localhost:9092/bananas/42");
    assert_eq!(brokers, ["localhost:9092"]);
    assert_eq!(topic, "bananas");
    assert_eq!(partition, Some(42));
}

#[test]
fn test_parse_kafka_partition_trailing_slash() {
    let (brokers, topic, partition) = expect_kafka("kafka://localhost:9092/bananas/42/");
    assert_eq!(brokers, ["localhost:9092"]);
    assert_eq!(topic, "bananas");
    assert_eq!(partition, Some(42));
}

#[test]
fn test_parse_kafka_topic_trailing_slash() {
    let (brokers, topic, partition) = expect_kafka("kafka://localhost:9092/bananas/");
    assert_eq!(brokers, ["localhost:9092"]);
    assert_eq!(topic, "bananas");
    assert_eq!(partition, None);
}

#[test]
fn test_parse_kafka_partition_not_numeric() {
    assert_eq!(parse("kafka://localhost:9092/bananas/x"), Err(TargetError::ParseInt));
}

#[test]
fn test_parse_kafka_partition_negative() {
    // The partition component of an address is a non-negative integer.
    assert_eq!(parse("kafka://localhost:9092/bananas/-1"), Err(TargetError::ParseInt));
}

#[test]
fn test_parse_relative_path() {
    assert_eq!(parse("data.bin"), Ok(Target::Path("data.bin".to_string())));
}

#[test]
fn test_parse_absolute_path() {
    assert_eq!(parse("/test/data.bin"), Ok(Target::Path("/test/data.bin".to_string())));
}

#[test]
fn test_self_copy_same_path_rejected() {
    let from = parse("./dump.kbin").expect("path parses");
    let to = parse("./dump.kbin").expect("path parses");
    assert!(same_target(&from, &to));
    assert_eq!(check_self_copy(&from, &to), Err(TargetError::SelfCopy));
}

#[test]
fn test_self_copy_same_kafka_target_rejected() {
    let from = parse("kafka://a:9092,b:9092/topic/3").expect("address parses");
    let to = parse("kafka://a:9092,b:9092/topic/3").expect("address parses");
    assert_eq!(check_self_copy(&from, &to), Err(TargetError::SelfCopy));
}

#[test]
fn test_distinct_targets_accepted() {
    let file = parse("./dump.kbin").expect("path parses");
    let other_file = parse("./other.kbin").expect("path parses");
    assert_eq!(check_self_copy(&file, &other_file), Ok(()));

    let log = parse("kafka://a:9092/topic/3").expect("address parses");
    let other_partition = parse("kafka://a:9092/topic/4").expect("address parses");
    let other_topic = parse("kafka://a:9092/other/3").expect("address parses");
    let other_brokers = parse("kafka://b:9092/topic/3").expect("address parses");
    assert_eq!(check_self_copy(&log, &other_partition), Ok(()));
    assert_eq!(check_self_copy(&log, &other_topic), Ok(()));
    assert_eq!(check_self_copy(&log, &other_brokers), Ok(()));
    assert_eq!(check_self_copy(&log, &file), Ok(()));
}
