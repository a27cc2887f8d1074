use kafky::client::metadata::{broker_address, KafkyMetadata, KafkyPartition, KafkyTopic};
use kafky::cmd::get_topic::GetTopicCmd;
use kafky::cmd::produce::ProduceCmd;
use kafky::errors::KafkyError;

fn metadata() -> KafkyMetadata {
    KafkyMetadata {
        topics: vec![
            KafkyTopic::new(
                "orders".to_string(),
                vec![
                    KafkyPartition::new(0, 1, vec![1, 2, 3], vec![1, 3]),
                    KafkyPartition::new(1, -1, vec![2], vec![]),
                ],
            ),
            KafkyTopic::new("empty".to_string(), vec![]),
            KafkyTopic::new(
                "payments".to_string(),
                vec![KafkyPartition::new(0, 1001, vec![1001, 1002], vec![1002, 1001])],
            ),
        ],
        brokers: vec![broker_address("b1", 9092)],
    }
}

#[test]
fn partition_getters_return_the_fields() {
    let partition = KafkyPartition::new(4, 2, vec![2, 3], vec![3]);
    assert_eq!(partition.id(), 4);
    assert_eq!(partition.leader(), 2);
    assert_eq!(partition.replicas(), &vec![2, 3]);
    assert_eq!(partition.isrs(), &vec![3]);
}

#[test]
fn topic_getters_return_the_fields() {
    let topic = KafkyTopic::new("orders".to_string(), vec![KafkyPartition::new(0, 1, vec![], vec![])]);
    assert_eq!(topic.name(), "orders");
    assert_eq!(topic.partitions(), &vec![KafkyPartition::new(0, 1, vec![], vec![])]);
}

#[test]
fn topic_names_come_in_their_order() {
    assert_eq!(metadata().topic_names(), vec!["orders", "empty", "payments"]);
    let none = KafkyMetadata { topics: vec![], brokers: vec![] };
    assert!(none.topic_names().is_empty());
}

#[test]
fn broker_address_is_host_colon_port() {
    assert_eq!(broker_address("kafka.example.org", 9092), "kafka.example.org:9092");
    assert_eq!(broker_address("", 0), ":0");
    assert_eq!(broker_address("h", -1), "h:-1");
    assert_eq!(broker_address("h", i32::MAX), "h:2147483647");
    assert_eq!(broker_address("h", i32::MIN), "h:-2147483648");
}

#[test]
fn topic_table_has_a_line_for_every_partition() {
    assert_eq!(
        GetTopicCmd::table_text(&metadata().topics),
        "TOPIC\tPARTITION\tLEADER\tISR\tREPLICAS\n\
         orders\t0\t1\t1,3\t1,2,3\n\
         orders\t1\t-1\t\t2\n\
         payments\t0\t1001\t1002,1001\t1001,1002\n"
    );
    assert_eq!(GetTopicCmd::table_text(&vec![]), "TOPIC\tPARTITION\tLEADER\tISR\tREPLICAS\n");
}

#[test]
fn topic_table_is_laid_out_in_columns() {
    let table = GetTopicCmd::table(&metadata().topics).expect("a table");
    assert_eq!(
        String::from_utf8(table).unwrap(),
        "TOPIC     PARTITION  LEADER  ISR        REPLICAS\n\
         orders    0          1       1,3        1,2,3\n\
         orders    1          -1                 2\n\
         payments  0          1001    1002,1001  1001,1002\n"
    );
}

#[test]
fn numbers_are_joined_with_commas() {
    assert_eq!(GetTopicCmd::join_numbers(&vec![]), "");
    assert_eq!(GetTopicCmd::join_numbers(&vec![7]), "7");
    assert_eq!(GetTopicCmd::join_numbers(&vec![1, -20, 300, 0]), "1,-20,300,0");
    assert_eq!(
        GetTopicCmd::partition_lines(&metadata().topics[0]),
        "orders\t0\t1\t1,3\t1,2,3\norders\t1\t-1\t\t2\n"
    );
}

#[test]
fn producing_needs_a_topic_that_is_there() {
    assert_eq!(ProduceCmd::check_topic(&metadata(), "orders"), Ok(()));
    assert_eq!(ProduceCmd::check_topic(&metadata(), "empty"), Ok(()));
    assert_eq!(
        ProduceCmd::check_topic(&metadata(), "order"),
        Err(KafkyError::TopicNotFound("order".to_string()))
    );
}
