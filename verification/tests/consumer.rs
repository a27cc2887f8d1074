use kafky::client::consumer::{
    after_fetch, after_handler, before_fetch, consume_result, process_message, read_payload,
    Delivery, Fetched, KafkyConsumeProperties, KafkyConsumerOffset, Payload, PayloadFormat,
    RawMessage, StopReason,
};
use kafky::errors::KafkyError;

fn message(key: Option<&[u8]>, payload: &[u8]) -> RawMessage {
    RawMessage {
        topic: "orders".to_string(),
        partition: 3,
        offset: 42,
        key: key.map(|k| k.to_vec()),
        payload: payload.to_vec(),
        timestamp: Some(1_600_000_000_000),
    }
}

#[test]
fn offset_policies_have_their_names() {
    assert_eq!(KafkyConsumerOffset::values_str(), vec!["beginning", "earliest", "latest"]);
    assert_eq!(KafkyConsumerOffset::Beginning.as_str(), "beginning");
    assert_eq!(KafkyConsumerOffset::Earliest.as_str(), "earliest");
    assert_eq!(KafkyConsumerOffset::Latest.as_str(), "latest");
    for name in KafkyConsumerOffset::values_str() {
        assert_eq!(KafkyConsumerOffset::from_str(name).map(|p| p.as_str()), Ok(name));
    }
}

#[test]
fn unknown_offset_policy_is_invalid() {
    assert_eq!(KafkyConsumerOffset::from_str("newest"), Err(KafkyError::InvalidOffset()));
    assert_eq!(KafkyConsumerOffset::from_str(""), Err(KafkyError::InvalidOffset()));
    assert_eq!(KafkyConsumerOffset::from_str("Latest"), Err(KafkyError::InvalidOffset()));
    assert_eq!(KafkyConsumerOffset::from_str("latest "), Err(KafkyError::InvalidOffset()));
}

#[test]
fn offset_policies_map_onto_broker_values() {
    assert_eq!(KafkyConsumerOffset::Beginning.broker_value(), "earliest");
    assert_eq!(KafkyConsumerOffset::Earliest.broker_value(), "earliest");
    assert_eq!(KafkyConsumerOffset::Latest.broker_value(), "latest");
}

#[test]
fn bytes_are_handed_on_as_they_are() {
    let read = process_message(message(Some(&[0xff, 0x00]), &[0xfe, 0x01]), PayloadFormat::Bytes)
        .expect("bytes always read");
    assert_eq!(read.key(), Some(&Payload::Bytes(vec![0xff, 0x00])));
    assert_eq!(read.payload(), &Payload::Bytes(vec![0xfe, 0x01]));
    assert_eq!(read.topic(), "orders");
    assert_eq!(read.partition(), 3);
    assert_eq!(read.offset(), 42);
    assert_eq!(read.timestamp(), Some(1_600_000_000_000));
    assert_eq!(read.payload().as_bytes(), &[0xfe, 0x01]);
}

#[test]
fn text_is_read_as_utf8() {
    let read = process_message(message(Some("clé".as_bytes()), "päyload".as_bytes()), PayloadFormat::Text)
        .expect("valid text");
    assert_eq!(read.key(), Some(&Payload::Text("clé".to_string())));
    assert_eq!(read.payload(), &Payload::Text("päyload".to_string()));
    assert_eq!(read.payload().as_bytes(), "päyload".as_bytes());
    let no_key = process_message(message(None, b"p"), PayloadFormat::Text).unwrap();
    assert_eq!(no_key.key(), None);
}

#[test]
fn payload_that_is_not_text_is_a_decode_error() {
    assert_eq!(
        process_message(message(Some(b"k"), &[0xff]), PayloadFormat::Text),
        Err(KafkyError::ParseError("invalid utf-8 sequence".to_string()))
    );
}

#[test]
fn key_that_is_not_text_is_left_out() {
    let read = process_message(message(Some(&[0xff]), b"payload"), PayloadFormat::Text).unwrap();
    assert_eq!(read.key(), None);
    assert_eq!(read.payload(), &Payload::Text("payload".to_string()));
}

#[test]
fn read_payload_follows_the_format() {
    assert_eq!(read_payload(vec![1, 2], PayloadFormat::Bytes), Some(Payload::Bytes(vec![1, 2])));
    assert_eq!(read_payload(b"ab".to_vec(), PayloadFormat::Text), Some(Payload::Text("ab".to_string())));
    assert_eq!(read_payload(vec![0xc3], PayloadFormat::Text), None);
    assert_eq!(read_payload(vec![], PayloadFormat::Text), Some(Payload::Text(String::new())));
}

#[test]
fn cancellation_and_timeout_end_the_consumption() {
    assert_eq!(before_fetch(None, 0, false), None);
    assert_eq!(before_fetch(None, u128::MAX, false), None);
    assert_eq!(before_fetch(Some(10), 9_999, false), None);
    assert_eq!(before_fetch(Some(10), 10_000, false), Some(StopReason::TimedOut));
    assert_eq!(before_fetch(Some(10), 10_001, false), Some(StopReason::TimedOut));
    assert_eq!(before_fetch(Some(0), 0, false), Some(StopReason::TimedOut));
    assert_eq!(before_fetch(Some(u64::MAX), u64::MAX as u128 * 1000 - 1, false), None);
    assert_eq!(
        before_fetch(Some(u64::MAX), u64::MAX as u128 * 1000, false),
        Some(StopReason::TimedOut)
    );
    assert_eq!(before_fetch(None, 0, true), Some(StopReason::Cancelled));
    assert_eq!(before_fetch(Some(10), 20_000, true), Some(StopReason::Cancelled));
}

#[test]
fn fetch_outcomes_are_routed() {
    assert_eq!(after_fetch(Fetched::Nothing, PayloadFormat::Bytes), Delivery::FetchAgain);
    assert_eq!(
        after_fetch(Fetched::Failed("broker down".to_string()), PayloadFormat::Text),
        Delivery::Stop(StopReason::BrokerFailed("broker down".to_string()))
    );
    match after_fetch(Fetched::Message(message(None, b"hello")), PayloadFormat::Text) {
        Delivery::Handle(Ok(read)) => {
            assert_eq!(read.payload(), &Payload::Text("hello".to_string()))
        }
        other => panic!("unexpected {:?}", other),
    }
    assert_eq!(
        after_fetch(Fetched::Message(message(None, &[0x80])), PayloadFormat::Text),
        Delivery::Handle(Err(KafkyError::ParseError("invalid utf-8 sequence".to_string())))
    );
}

#[test]
fn handler_decides_whether_to_go_on() {
    assert_eq!(after_handler(true), None);
    assert_eq!(after_handler(false), Some(StopReason::HandlerStopped));
}

#[test]
fn only_a_broker_failure_is_an_error() {
    assert_eq!(consume_result(StopReason::HandlerStopped), Ok(()));
    assert_eq!(consume_result(StopReason::TimedOut), Ok(()));
    assert_eq!(consume_result(StopReason::Cancelled), Ok(()));
    assert_eq!(
        consume_result(StopReason::BrokerFailed("no route".to_string())),
        Err(KafkyError::KafkaError("no route".to_string()))
    );
}

#[test]
fn consume_properties_hold_plain_values() {
    let properties = KafkyConsumeProperties {
        topics: vec!["a".to_string(), "b".to_string()],
        consumer_group: "g".to_string(),
        offset: KafkyConsumerOffset::Latest,
        auto_commit: true,
    };
    assert_eq!(properties.clone(), properties);
}
