//! The latest offsets of partitions, kept for the length of one report, and
//! the lag of a group behind them.
//!
//! Asking the cluster for the latest offset of a partition is slow, and a
//! report asks for the same partition once for every group that reads it. The
//! cache is read before the cluster is asked, and what the cluster answers is
//! stored on the first answer only.

use crate::client::offsets::OffsetTable;
use crate::errors::KafkyError;
use vstd::prelude::*;
use vstd::string::StringExecFns;

verus! {

/// A partition of a topic.
pub type PartitionKey = (Seq<char>, i32);

/// The latest offsets that `table` holds, by partition of a topic.
pub open spec fn latest_offsets(table: Map<Seq<char>, Map<i32, i64>>) -> Map<PartitionKey, i64> {
    Map::new(
        |key: PartitionKey| table.contains_key(key.0) && table[key.0].contains_key(key.1),
        |key: PartitionKey| table[key.0][key.1],
    )
}

/// What the cache holds after the answer `latest` has come in for `key`: the
/// first answer for a partition stays.
pub open spec fn with_answer(cache: Map<PartitionKey, i64>, key: PartitionKey, latest: i64) -> Map<
    PartitionKey,
    i64,
> {
    if cache.contains_key(key) {
        cache
    } else {
        cache.insert(key, latest)
    }
}

/// The latest offsets of partitions, as far as they are known.
#[derive(Debug, Clone, PartialEq, Eq)]
pub struct LatestOffsetCache {
    offsets: OffsetTable,
}

impl View for LatestOffsetCache {
    type V = Map<PartitionKey, i64>;

    closed spec fn view(&self) -> Map<PartitionKey, i64> {
        latest_offsets(self.offsets@)
    }
}

impl LatestOffsetCache {
    /// The invariant of the cache.
    pub closed spec fn wf(&self) -> bool {
        self.offsets.wf()
    }

    /// A cache that knows no offset yet.
    pub fn new() -> (cache: LatestOffsetCache)
        ensures
            cache.wf(),
            cache@ == Map::<PartitionKey, i64>::empty(),
    {
        let cache = LatestOffsetCache { offsets: OffsetTable::new() };
        assert(cache@ =~= Map::<PartitionKey, i64>::empty());
        cache
    }

    /// The latest offset of the partition, if the cache knows it. Where it
    /// does not, the cluster is to be asked.
    pub fn get(&self, topic: &str, partition: i32) -> (latest: Option<i64>)
        requires
            self.wf(),
        ensures
            latest == if self@.contains_key((topic@, partition)) {
                Some(self@[(topic@, partition)])
            } else {
                None
            },
    {
        self.offsets.get(topic, partition)
    }

    /// Takes in what the cluster answered for the partition, and returns the
    /// latest offset to go by: the one that the cache held already, or else
    /// the answer, which the cache then holds.
    pub fn latest_offset(&mut self, topic: &str, partition: i32, answer: i64) -> (latest: i64)
        requires
            old(self).wf(),
        ensures
            final(self).wf(),
            final(self)@ == with_answer(old(self)@, (topic@, partition), answer),
            latest == final(self)@[(topic@, partition)],
    {
        match self.offsets.get(topic, partition) {
            Some(latest) => latest,
            None => {
                self.offsets.upsert(String::from_str(topic), partition, answer);
                assert(self@ =~= old(self)@.insert((topic@, partition), answer));
                answer
            },
        }
    }
}

/// A lookup of the latest offset of a partition, with the answer that the
/// cluster gives if it is asked.
pub type Lookup = (PartitionKey, i64);

/// The partitions that `lookups` ask for.
pub open spec fn asked_for(lookups: Seq<Lookup>) -> Set<PartitionKey> {
    lookups.map_values(|lookup: Lookup| lookup.0).to_set()
}

/// The number of times that the cluster is asked when `lookups` are made one
/// after the other through `cache`: a lookup asks the cluster where the cache
/// does not know the partition, and the cache then takes the answer in.
pub open spec fn fetches(cache: Map<PartitionKey, i64>, lookups: Seq<Lookup>) -> nat
    decreases lookups.len(),
{
    if lookups.len() == 0 {
        0
    } else {
        (if cache.contains_key(lookups[0].0) {
            0nat
        } else {
            1nat
        }) + fetches(with_answer(cache, lookups[0].0, lookups[0].1), lookups.drop_first())
    }
}

/// One fetch per partition: however often and in whatever order partitions
/// are looked up, the cluster is asked once for each partition that the cache
/// did not know beforehand, and never for one that it knew.
pub proof fn law_one_fetch_per_partition(cache: Map<PartitionKey, i64>, lookups: Seq<Lookup>)
    ensures
        fetches(cache, lookups) == asked_for(lookups).difference(cache.dom()).len(),
    decreases lookups.len(),
{
    let keys = lookups.map_values(|lookup: Lookup| lookup.0);
    let wanted = asked_for(lookups);
    vstd::seq_lib::seq_to_set_is_finite(keys);
    if lookups.len() == 0 {
        assert(wanted.difference(cache.dom()) =~= Set::<PartitionKey>::empty());
    } else {
        let first = lookups[0].0;
        let rest = lookups.drop_first();
        let rest_keys = rest.map_values(|lookup: Lookup| lookup.0);
        let next = with_answer(cache, first, lookups[0].1);
        vstd::seq_lib::seq_to_set_is_finite(rest_keys);
        law_one_fetch_per_partition(next, rest);
        let later = asked_for(rest).difference(next.dom());
        assert(next.dom() =~= cache.dom().insert(first));
        assert forall|key: PartitionKey| wanted.contains(key) == (key == first || asked_for(
            rest,
        ).contains(key)) by {
            if asked_for(rest).contains(key) {
                let i = choose|i: int| 0 <= i < rest_keys.len() && rest_keys[i] == key;
                assert(keys[i + 1] == key);
            }
            if wanted.contains(key) && key != first {
                let i = choose|i: int| 0 <= i < keys.len() && keys[i] == key;
                assert(rest_keys[i - 1] == key);
            }
            if key == first {
                assert(keys[0] == key);
            }
        }
        if cache.contains_key(first) {
            assert(wanted.difference(cache.dom()) =~= later);
        } else {
            assert(wanted.difference(cache.dom()).remove(first) =~= later);
            assert(wanted.difference(cache.dom()).contains(first));
        }
    }
}

/// Lookups of one partition: of any number of lookups of the same partition,
/// whatever the cluster would answer to each, the first asks the cluster if
/// the cache did not know the partition, and no other does.
pub proof fn law_repeated_lookups_fetch_once(
    cache: Map<PartitionKey, i64>,
    key: PartitionKey,
    lookups: Seq<Lookup>,
)
    requires
        lookups.len() >= 1,
        forall|i: int| 0 <= i < lookups.len() ==> (#[trigger] lookups[i]).0 == key,
    ensures
        fetches(cache, lookups) == if cache.contains_key(key) {
            0nat
        } else {
            1nat
        },
{
    let keys = lookups.map_values(|lookup: Lookup| lookup.0);
    law_one_fetch_per_partition(cache, lookups);
    assert(keys[0] == key);
    assert(asked_for(lookups) =~= set![key]);
    if cache.contains_key(key) {
        assert(asked_for(lookups).difference(cache.dom()) =~= Set::<PartitionKey>::empty());
    } else {
        assert(asked_for(lookups).difference(cache.dom()) =~= set![key]);
    }
}

/// The latest offset of a partition, out of what the cluster answered when it
/// was asked for the partition's watermarks: the high one, or the failure as
/// an error of the cluster.
pub fn get_latest_offset(watermarks: Result<(i64, i64), String>) -> (r: Result<i64, KafkyError>)
    ensures
        match watermarks {
            Ok((_, high)) => r == Ok::<i64, KafkyError>(high),
            Err(cause) => r matches Err(KafkyError::KafkaError(text)) && text@ == cause@,
        },
{
    match watermarks {
        Ok((_, high)) => Ok(high),
        Err(cause) => Err(KafkyError::KafkaError(cause)),
    }
}

/// Whether the lag of a group that committed `committed` behind the latest
/// offset `latest` is a number that fits the lag's type.
pub open spec fn lag_fits(committed: i64, latest: i64) -> bool {
    i64::MIN <= latest - committed <= i64::MAX
}

/// The lag of a group that committed `committed`, behind the latest offset
/// `latest`. It is negative where the commit is ahead of the latest offset
/// that was fetched.
pub fn lag(committed: i64, latest: i64) -> (lag: i64)
    requires
        lag_fits(committed, latest),
    ensures
        lag == latest - committed,
{
    latest - committed
}

/// The lag of a group that committed `committed`, behind the latest offset
/// `latest`, or nothing where the difference does not fit the lag's type.
pub fn checked_lag(committed: i64, latest: i64) -> (lag: Option<i64>)
    ensures
        lag == if lag_fits(committed, latest) {
            Some((latest - committed) as i64)
        } else {
            None
        },
{
    latest.checked_sub(committed)
}

} // verus!
