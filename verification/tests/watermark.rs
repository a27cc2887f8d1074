use kafky::client::watermark::{checked_lag, get_latest_offset, lag, LatestOffsetCache};
use kafky::errors::KafkyError;

#[test]
fn lag_is_latest_minus_committed() {
    assert_eq!(lag(100, 130), 30);
    assert_eq!(lag(77, 77), 0);
    assert_eq!(lag(0, i64::MAX), i64::MAX);
}

#[test]
fn lag_is_negative_when_the_commit_is_ahead() {
    assert_eq!(lag(130, 100), -30);
    assert_eq!(lag(1, 0), -1);
    assert_eq!(lag(0, i64::MIN), i64::MIN);
}

#[test]
fn checked_lag_tells_when_the_difference_does_not_fit() {
    assert_eq!(checked_lag(100, 130), Some(30));
    assert_eq!(checked_lag(130, 100), Some(-30));
    assert_eq!(checked_lag(5, 5), Some(0));
    assert_eq!(checked_lag(-1, i64::MAX), None);
    assert_eq!(checked_lag(1, i64::MIN), None);
    assert_eq!(checked_lag(i64::MIN, i64::MAX), None);
    assert_eq!(checked_lag(i64::MAX, i64::MIN), None);
    assert_eq!(checked_lag(0, i64::MIN), Some(i64::MIN));
    assert_eq!(checked_lag(i64::MIN, -1), Some(i64::MAX));
}

#[test]
fn cache_misses_until_an_answer_is_stored() {
    let mut cache = LatestOffsetCache::new();
    assert_eq!(cache.get("orders", 0), None);
    assert_eq!(cache.latest_offset("orders", 0, 130), 130);
    assert_eq!(cache.get("orders", 0), Some(130));
    assert_eq!(cache.get("orders", 1), None);
    assert_eq!(cache.get("payments", 0), None);
}

#[test]
fn first_answer_for_a_partition_stays() {
    let mut cache = LatestOffsetCache::new();
    assert_eq!(cache.latest_offset("orders", 0, 130), 130);
    assert_eq!(cache.latest_offset("orders", 0, 999), 130);
    assert_eq!(cache.latest_offset("orders", 1, 7), 7);
    assert_eq!(cache.latest_offset("payments", 0, 8), 8);
    assert_eq!(cache.get("orders", 0), Some(130));
    assert_eq!(cache.get("orders", 1), Some(7));
    assert_eq!(cache.get("payments", 0), Some(8));
}

#[test]
fn many_lookups_of_one_partition_fetch_once() {
    let mut cache = LatestOffsetCache::new();
    let mut fetches = 0;
    for _ in 0..50 {
        let latest = match cache.get("orders", 3) {
            Some(latest) => latest,
            None => {
                fetches += 1;
                cache.latest_offset("orders", 3, 1000 + fetches)
            }
        };
        assert_eq!(latest, 1001);
    }
    assert_eq!(fetches, 1);
}

#[test]
fn interleaved_lookups_fetch_once_per_partition() {
    let mut cache = LatestOffsetCache::new();
    let lookups = [("a", 0), ("b", 0), ("a", 0), ("a", 1), ("b", 0), ("a", 1), ("c", 2), ("a", 0)];
    let mut fetched: Vec<(String, i32)> = Vec::new();
    for (topic, partition) in lookups {
        if cache.get(topic, partition).is_none() {
            fetched.push((topic.to_string(), partition));
            cache.latest_offset(topic, partition, 5);
        }
    }
    assert_eq!(
        fetched,
        vec![
            ("a".to_string(), 0),
            ("b".to_string(), 0),
            ("a".to_string(), 1),
            ("c".to_string(), 2)
        ]
    );
}

#[test]
fn latest_offset_is_the_high_watermark() {
    assert_eq!(get_latest_offset(Ok((3, 130))), Ok(130));
    assert_eq!(get_latest_offset(Ok((0, 0))), Ok(0));
    assert_eq!(
        get_latest_offset(Err("timed out".to_string())),
        Err(KafkyError::KafkaError("timed out".to_string()))
    );
}
