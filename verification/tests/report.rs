use kafky::client::consumer_group::ConsumerGroups;
use kafky::client::offset_record::ConsumerUpdate;
use kafky::client::watermark::LatestOffsetCache;
use kafky::cmd::get_consumer_groups::{ConsumerGroupRow, GetConsumerGroupsCmd};
use kafky::cmd::table::align;
use std::io::Write;

fn commit(group: &str, topic: &str, partition: i32, offset: i64) -> ConsumerUpdate {
    ConsumerUpdate::SetCommit {
        group: group.to_string(),
        topic: topic.to_string(),
        partition,
        offset,
    }
}

fn state() -> ConsumerGroups {
    let mut groups = ConsumerGroups::new();
    groups.apply_all(vec![
        commit("g1", "orders", 0, 100),
        commit("g1", "orders", 1, 50),
        commit("g2", "orders", 0, 130),
        commit("g2", "payments", 0, 140),
    ]);
    groups
}

fn full_cache() -> LatestOffsetCache {
    let mut cache = LatestOffsetCache::new();
    cache.latest_offset("orders", 0, 130);
    cache.latest_offset("orders", 1, 50);
    cache.latest_offset("payments", 0, 120);
    cache
}

fn row(group: &str, topic: &str, partition: i32, offset: i64, lag: i64) -> ConsumerGroupRow {
    ConsumerGroupRow {
        group: group.to_string(),
        topic: topic.to_string(),
        partition,
        offset,
        lag,
    }
}

fn sorted(mut rows: Vec<ConsumerGroupRow>) -> Vec<ConsumerGroupRow> {
    rows.sort_by(|a, b| {
        (&a.group, &a.topic, a.partition).cmp(&(&b.group, &b.topic, b.partition))
    });
    rows
}

fn names(list: &[&str]) -> Vec<String> {
    list.iter().map(|s| s.to_string()).collect()
}

#[test]
fn report_has_a_row_for_every_commit() {
    let rows = GetConsumerGroupsCmd::rows(&state(), &vec![], &vec![], &full_cache()).unwrap();
    assert_eq!(
        sorted(rows),
        vec![
            row("g1", "orders", 0, 100, 30),
            row("g1", "orders", 1, 50, 0),
            row("g2", "orders", 0, 130, 0),
            row("g2", "payments", 0, 140, -20),
        ]
    );
}

#[test]
fn report_keeps_groups_in_the_order_of_their_first_commit() {
    let rows = GetConsumerGroupsCmd::rows(&state(), &vec![], &vec![], &full_cache()).unwrap();
    let groups: Vec<&str> = rows.iter().map(|r| r.group.as_str()).collect();
    assert_eq!(groups, vec!["g1", "g1", "g2", "g2"]);
    assert_eq!(rows[2].topic, "orders");
    assert_eq!(rows[3].topic, "payments");
}

#[test]
fn group_filter_keeps_the_listed_groups() {
    let rows =
        GetConsumerGroupsCmd::rows(&state(), &names(&["g2"]), &vec![], &full_cache()).unwrap();
    assert_eq!(
        sorted(rows),
        vec![row("g2", "orders", 0, 130, 0), row("g2", "payments", 0, 140, -20)]
    );
    let rows = GetConsumerGroupsCmd::rows(&state(), &names(&["nobody"]), &vec![], &full_cache())
        .unwrap();
    assert!(rows.is_empty());
}

#[test]
fn topic_filter_goes_by_the_group_filter() {
    let rows = GetConsumerGroupsCmd::rows(
        &state(),
        &names(&["g1", "orders"]),
        &names(&["payments"]),
        &full_cache(),
    )
    .unwrap();
    assert_eq!(
        sorted(rows),
        vec![row("g1", "orders", 0, 100, 30), row("g1", "orders", 1, 50, 0)]
    );
    let rows =
        GetConsumerGroupsCmd::rows(&state(), &vec![], &names(&["orders"]), &full_cache()).unwrap();
    assert!(rows.is_empty());
}

#[test]
fn report_is_not_made_without_a_latest_offset() {
    let mut cache = LatestOffsetCache::new();
    cache.latest_offset("orders", 0, 130);
    cache.latest_offset("orders", 1, 50);
    assert_eq!(GetConsumerGroupsCmd::rows(&state(), &vec![], &vec![], &cache), None);
    let rows = GetConsumerGroupsCmd::rows(&state(), &names(&["g1"]), &vec![], &cache).unwrap();
    assert_eq!(rows.len(), 2);
}

#[test]
fn report_is_not_made_when_a_lag_does_not_fit() {
    let mut groups = ConsumerGroups::new();
    groups.apply(commit("g", "t", 0, -2));
    let mut cache = LatestOffsetCache::new();
    cache.latest_offset("t", 0, i64::MAX);
    assert_eq!(GetConsumerGroupsCmd::rows(&groups, &vec![], &vec![], &cache), None);
}

#[test]
fn requests_name_each_unknown_partition_once() {
    let mut requests =
        GetConsumerGroupsCmd::watermark_requests(&state(), &vec![], &vec![], &LatestOffsetCache::new());
    requests.sort();
    assert_eq!(
        requests,
        vec![
            ("orders".to_string(), 0),
            ("orders".to_string(), 1),
            ("payments".to_string(), 0)
        ]
    );
    let mut cache = LatestOffsetCache::new();
    cache.latest_offset("orders", 0, 1);
    let mut requests = GetConsumerGroupsCmd::watermark_requests(&state(), &names(&["g2"]), &vec![], &cache);
    requests.sort();
    assert_eq!(requests, vec![("payments".to_string(), 0)]);
    assert!(GetConsumerGroupsCmd::watermark_requests(&state(), &vec![], &vec![], &full_cache())
        .is_empty());
}

#[test]
fn answering_the_requests_makes_the_report_ready() {
    let groups = state();
    let mut cache = LatestOffsetCache::new();
    assert_eq!(GetConsumerGroupsCmd::rows(&groups, &vec![], &vec![], &cache), None);
    for (topic, partition) in
        GetConsumerGroupsCmd::watermark_requests(&groups, &vec![], &vec![], &cache)
    {
        cache.latest_offset(&topic, partition, 1_000);
    }
    let rows = GetConsumerGroupsCmd::rows(&groups, &vec![], &vec![], &cache).unwrap();
    assert_eq!(rows.len(), 4);
    assert!(rows.iter().all(|r| r.lag == 1_000 - r.offset));
}

#[test]
fn deleted_commits_have_no_row() {
    let mut groups = state();
    groups.apply(ConsumerUpdate::DeleteCommit {
        group: "g1".to_string(),
        topic: "orders".to_string(),
        partition: 0,
    });
    let rows = GetConsumerGroupsCmd::rows(&groups, &names(&["g1"]), &vec![], &full_cache()).unwrap();
    assert_eq!(rows, vec![row("g1", "orders", 1, 50, 0)]);
}

#[test]
fn table_text_has_headings_and_a_line_per_row() {
    assert_eq!(
        GetConsumerGroupsCmd::table_text(&vec![]),
        "GROUP\tTOPIC\tPARTITION\tOFFSET\tLAG\n"
    );
    assert_eq!(
        GetConsumerGroupsCmd::table_text(&vec![
            row("g1", "orders", 0, 100, 30),
            row("g2", "payments", 12, 140, -20)
        ]),
        "GROUP\tTOPIC\tPARTITION\tOFFSET\tLAG\ng1\torders\t0\t100\t30\ng2\tpayments\t12\t140\t-20\n"
    );
    assert_eq!(
        GetConsumerGroupsCmd::table_text(&vec![row("g", "t", i32::MIN, i64::MAX, i64::MIN)]),
        format!(
            "GROUP\tTOPIC\tPARTITION\tOFFSET\tLAG\ng\tt\t{}\t{}\t{}\n",
            i32::MIN,
            i64::MAX,
            i64::MIN
        )
    );
}

#[test]
fn table_is_laid_out_in_columns() {
    let table = GetConsumerGroupsCmd::print_table(&vec![
        row("g1", "orders", 0, 100, 30),
        row("group-two", "payments", 12, 140, -20),
    ])
    .expect("a table");
    assert_eq!(
        String::from_utf8(table).unwrap(),
        "GROUP      TOPIC     PARTITION  OFFSET  LAG\n\
         g1         orders    0          100     30\n\
         group-two  payments  12         140     -20\n"
    );
}

#[test]
fn align_does_what_the_tab_writer_does() {
    let text = "a\tbbb\tc\nlonger\tb\tcc\n\nx\ty\n";
    let mut writer = tabwriter::TabWriter::new(vec![]);
    writer.write_all(text.as_bytes()).unwrap();
    writer.flush().unwrap();
    let expected = writer.into_inner().unwrap();
    assert_eq!(align(text), Some(expected));
    assert_ne!(align(text), Some(text.as_bytes().to_vec()));
    assert_eq!(align(""), Some(vec![]));
}
