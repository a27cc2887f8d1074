//! A table of offsets by topic and partition.
//!
//! Topic names are text, and so the topics are kept in a list in which no name
//! occurs twice, in the order in which they were first seen. The partitions of
//! one topic are kept in a hash map.

use crate::text::same_text;
use std::collections::HashMap;
use vstd::prelude::*;
use vstd::std_specs::hash::spec_hash_map_iter;
use vstd::std_specs::iter::IteratorSpec;

verus! {

broadcast use vstd::std_specs::hash::group_hash_axioms;

/// The offsets of the partitions of one topic.
#[derive(Debug, Clone, PartialEq, Eq)]
pub struct TopicOffsets {
    pub topic: String,
    pub partitions: HashMap<i32, i64>,
}

/// Whether `entries` lists `partitions`: every partition with its offset, each once.
pub open spec fn lists(entries: Seq<(i32, i64)>, partitions: Map<i32, i64>) -> bool {
    &&& forall|i: int|
        0 <= i < entries.len() ==> partitions.contains_key((#[trigger] entries[i]).0)
            && partitions[entries[i].0] == entries[i].1
    &&& forall|i: int, j: int|
        0 <= i < j < entries.len() ==> (#[trigger] entries[i]).0 != (#[trigger] entries[j]).0
    &&& forall|partition: i32|
        partitions.contains_key(partition) ==> exists|i: int|
            0 <= i < entries.len() && (#[trigger] entries[i]).0 == partition
}

impl TopicOffsets {
    /// The partitions of the topic with their offsets, each once, in the
    /// order in which the hash map hands them out.
    pub fn entries(&self) -> (entries: Vec<(i32, i64)>)
        ensures
            lists(entries@, self.partitions@),
    {
        let mut entries: Vec<(i32, i64)> = Vec::new();
        let ghost all = spec_hash_map_iter(&self.partitions).remaining();
        for pair in it: self.partitions.iter()
            invariant
                it.seq() == all,
                all.no_duplicates(),
                entries@.len() == it.index(),
                forall|i: int|
                    0 <= i < entries@.len() ==> (#[trigger] entries@[i]) == (*all[i].0, *all[i].1),
        {
            entries.push((*pair.0, *pair.1));
        }
        proof {
            let partitions = self.partitions@;
            assert(entries@.len() == all.len());
            assert forall|i: int, j: int| 0 <= i < j < entries@.len() implies (
            #[trigger] entries@[i]).0 != (#[trigger] entries@[j]).0 by {
                if entries@[i].0 == entries@[j].0 {
                    assert(partitions[*all[i].0] == *all[i].1);
                    assert(partitions[*all[j].0] == *all[j].1);
                    assert(all[i] == all[j]);
                }
            }
            assert forall|partition: i32| partitions.contains_key(partition) implies exists|i: int|
                0 <= i < entries@.len() && (#[trigger] entries@[i]).0 == partition by {
                assert(all.contains((&partition, &partitions[partition])));
                let i = choose|i: int|
                    0 <= i < all.len() && all[i] == (&partition, &partitions[partition]);
                assert(entries@[i].0 == partition);
            }
        }
        entries
    }
}

/// Whether no topic name occurs twice in `entries`.
pub open spec fn distinct_topics(entries: Seq<TopicOffsets>) -> bool {
    forall|i: int, j: int|
        0 <= i < j < entries.len() ==> (#[trigger] entries[i]).topic@ != (
        #[trigger] entries[j]).topic@
}

/// Whether `entries` has an entry for `topic`.
pub open spec fn has_topic(entries: Seq<TopicOffsets>, topic: Seq<char>) -> bool {
    exists|i: int| 0 <= i < entries.len() && (#[trigger] entries[i]).topic@ == topic
}

/// The place of the entry for `topic` in `entries`, where it has one.
pub open spec fn topic_index(entries: Seq<TopicOffsets>, topic: Seq<char>) -> int {
    choose|i: int| 0 <= i < entries.len() && (#[trigger] entries[i]).topic@ == topic
}

/// The offsets that `entries` hold, by topic name and partition.
pub open spec fn offsets_of(entries: Seq<TopicOffsets>) -> Map<Seq<char>, Map<i32, i64>> {
    Map::new(
        |topic: Seq<char>| has_topic(entries, topic),
        |topic: Seq<char>| entries[topic_index(entries, topic)].partitions@,
    )
}

/// In a list without repeated names, the entry at each place is the one that the
/// table shows for its topic.
pub proof fn lemma_entry_is_shown(entries: Seq<TopicOffsets>, i: int)
    requires
        distinct_topics(entries),
        0 <= i < entries.len(),
    ensures
        has_topic(entries, entries[i].topic@),
        topic_index(entries, entries[i].topic@) == i,
        offsets_of(entries).contains_key(entries[i].topic@),
        offsets_of(entries)[entries[i].topic@] == entries[i].partitions@,
{
    let j = topic_index(entries, entries[i].topic@);
    assert(entries[j].topic@ == entries[i].topic@);
    if j < i {
        assert(entries[j].topic@ != entries[i].topic@);
    } else if i < j {
        assert(entries[i].topic@ != entries[j].topic@);
    }
}

/// Offsets by topic and partition.
#[derive(Debug, Clone, PartialEq, Eq)]
pub struct OffsetTable {
    entries: Vec<TopicOffsets>,
}

impl View for OffsetTable {
    type V = Map<Seq<char>, Map<i32, i64>>;

    open spec fn view(&self) -> Map<Seq<char>, Map<i32, i64>> {
        offsets_of(self.listing())
    }
}

impl OffsetTable {
    /// The entries of the table, in the order in which their topics were first seen.
    pub closed spec fn listing(&self) -> Seq<TopicOffsets> {
        self.entries@
    }

    /// The invariant of the table: no topic has two entries.
    pub open spec fn wf(&self) -> bool {
        distinct_topics(self.listing())
    }

    /// Whether the table holds an offset for the partition of the topic.
    pub open spec fn holds(&self, topic: Seq<char>, partition: i32) -> bool {
        self@.contains_key(topic) && self@[topic].contains_key(partition)
    }

    /// A table without any topic.
    pub fn new() -> (table: OffsetTable)
        ensures
            table.wf(),
            table.listing() == Seq::<TopicOffsets>::empty(),
            table@ == Map::<Seq<char>, Map<i32, i64>>::empty(),
    {
        let table = OffsetTable { entries: Vec::new() };
        assert(table@ =~= Map::<Seq<char>, Map<i32, i64>>::empty());
        table
    }

    /// The entries of the table, in the order in which their topics were first seen.
    pub fn entries(&self) -> (entries: &Vec<TopicOffsets>)
        ensures
            entries@ == self.listing(),
    {
        &self.entries
    }

    /// The place of the entry for `topic`, if the table has one.
    pub fn position(&self, topic: &str) -> (place: Option<usize>)
        ensures
            match place {
                Some(i) => i < self.listing().len() && self.listing()[i as int].topic@ == topic@,
                None => !has_topic(self.listing(), topic@),
            },
    {
        let mut i: usize = 0;
        while i < self.entries.len()
            invariant
                i <= self.entries.len(),
                forall|k: int| 0 <= k < i ==> (#[trigger] self.entries[k]).topic@ != topic@,
            decreases self.entries.len() - i,
        {
            if same_text(self.entries[i].topic.as_str(), topic) {
                return Some(i);
            }
            i += 1;
        }
        None
    }

    /// The offset that the table holds for the partition of the topic.
    pub fn get(&self, topic: &str, partition: i32) -> (offset: Option<i64>)
        requires
            self.wf(),
        ensures
            offset == if self.holds(topic@, partition) {
                Some(self@[topic@][partition])
            } else {
                None
            },
    {
        match self.position(topic) {
            None => None,
            Some(i) => {
                proof {
                    lemma_entry_is_shown(self.listing(), i as int);
                }
                match self.entries[i].partitions.get(&partition) {
                    Some(offset) => Some(*offset),
                    None => None,
                }
            },
        }
    }

    /// Records `offset` for the partition of the topic, in place of what the
    /// table held there; a topic that the table has not seen gets a new entry
    /// behind the others.
    pub fn upsert(&mut self, topic: String, partition: i32, offset: i64)
        requires
            old(self).wf(),
        ensures
            final(self).wf(),
            final(self)@ == old(self)@.insert(
                topic@,
                if old(self)@.contains_key(topic@) {
                    old(self)@[topic@].insert(partition, offset)
                } else {
                    Map::<i32, i64>::empty().insert(partition, offset)
                },
            ),
    {
        let ghost before = self.listing();
        match self.position(topic.as_str()) {
            Some(i) => {
                self.entries[i].partitions.insert(partition, offset);
                proof {
                    let after = self.listing();
                    lemma_entry_is_shown(before, i as int);
                    assert forall|k: int| 0 <= k < after.len() implies (#[trigger] after[k]).topic@
                        == before[k].topic@ by {}
                    assert forall|t: Seq<char>| has_topic(after, t) == has_topic(before, t) by {
                        if has_topic(before, t) {
                            let k = topic_index(before, t);
                            assert(after[k].topic@ == t);
                        }
                        if has_topic(after, t) {
                            let k = topic_index(after, t);
                            assert(before[k].topic@ == t);
                        }
                    }
                    assert forall|t: Seq<char>| has_topic(after, t) implies offsets_of(after)[t]
                        == old(self)@.insert(
                        topic@,
                        old(self)@[topic@].insert(partition, offset),
                    )[t] by {
                        let k = topic_index(after, t);
                        lemma_entry_is_shown(after, k);
                        lemma_entry_is_shown(before, k);
                    }
                    assert(self@ =~= old(self)@.insert(
                        topic@,
                        old(self)@[topic@].insert(partition, offset),
                    ));
                }
            },
            None => {
                let mut partitions: HashMap<i32, i64> = HashMap::new();
                partitions.insert(partition, offset);
                let ghost name = topic@;
                self.entries.push(TopicOffsets { topic, partitions });
                proof {
                    let after = self.listing();
                    let last = after.len() - 1;
                    assert(after[last].topic@ == name);
                    assert forall|i: int, j: int| 0 <= i < j < after.len() implies (
                    #[trigger] after[i]).topic@ != (#[trigger] after[j]).topic@ by {
                        assert(after[i] == before[i]);
                        if j < last {
                            assert(after[j] == before[j]);
                        }
                    }
                    assert forall|t: Seq<char>| has_topic(after, t) == (has_topic(before, t) || t
                        == name) by {
                        if has_topic(before, t) {
                            let k = topic_index(before, t);
                            assert(after[k].topic@ == t);
                        }
                        if has_topic(after, t) && t != name {
                            let k = topic_index(after, t);
                            assert(before[k].topic@ == t);
                        }
                    }
                    assert forall|t: Seq<char>| has_topic(after, t) implies offsets_of(after)[t]
                        == old(self)@.insert(
                        name,
                        Map::<i32, i64>::empty().insert(partition, offset),
                    )[t] by {
                        let k = topic_index(after, t);
                        lemma_entry_is_shown(after, k);
                        if k < last {
                            assert(after[k] == before[k]);
                            lemma_entry_is_shown(before, k);
                        }
                    }
                    assert(self@ =~= old(self)@.insert(
                        name,
                        Map::<i32, i64>::empty().insert(partition, offset),
                    ));
                }
            },
        }
    }

    /// Withdraws the offset of the partition of the topic. The topic keeps its
    /// entry, and a table that holds no such offset stays as it is.
    pub fn remove(&mut self, topic: &str, partition: i32)
        requires
            old(self).wf(),
        ensures
            final(self).wf(),
            final(self)@ == if old(self)@.contains_key(topic@) {
                old(self)@.insert(topic@, old(self)@[topic@].remove(partition))
            } else {
                old(self)@
            },
    {
        let ghost before = self.listing();
        match self.position(topic) {
            Some(i) => {
                self.entries[i].partitions.remove(&partition);
                proof {
                    let after = self.listing();
                    lemma_entry_is_shown(before, i as int);
                    assert forall|k: int| 0 <= k < after.len() implies (#[trigger] after[k]).topic@
                        == before[k].topic@ by {}
                    assert forall|t: Seq<char>| has_topic(after, t) == has_topic(before, t) by {
                        if has_topic(before, t) {
                            let k = topic_index(before, t);
                            assert(after[k].topic@ == t);
                        }
                        if has_topic(after, t) {
                            let k = topic_index(after, t);
                            assert(before[k].topic@ == t);
                        }
                    }
                    assert forall|t: Seq<char>| has_topic(after, t) implies offsets_of(after)[t]
                        == old(self)@.insert(topic@, old(self)@[topic@].remove(partition))[t] by {
                        let k = topic_index(after, t);
                        lemma_entry_is_shown(after, k);
                        lemma_entry_is_shown(before, k);
                    }
                    assert(self@ =~= old(self)@.insert(
                        topic@,
                        old(self)@[topic@].remove(partition),
                    ));
                }
            },
            None => {},
        }
    }
}


/// The offset of one partition of one topic.
#[derive(Debug, Clone, PartialEq, Eq)]
pub struct PartitionOffset {
    pub topic: String,
    pub partition: i32,
    pub offset: i64,
}

/// Whether `flat` lists the offsets of `table`: every partition of every
/// topic with its offset, each once.
pub open spec fn flattens(flat: Seq<PartitionOffset>, table: Map<Seq<char>, Map<i32, i64>>) -> bool {
    &&& forall|i: int|
        0 <= i < flat.len() ==> table.contains_key((#[trigger] flat[i]).topic@)
            && table[flat[i].topic@].contains_key(flat[i].partition)
            && table[flat[i].topic@][flat[i].partition] == flat[i].offset
    &&& forall|i: int, j: int|
        0 <= i < j < flat.len() ==> !((#[trigger] flat[i]).topic@ == (#[trigger] flat[j]).topic@
            && flat[i].partition == flat[j].partition)
    &&& forall|topic: Seq<char>, partition: i32|
        table.contains_key(topic) && #[trigger] table[topic].contains_key(partition)
            ==> exists|i: int|
            0 <= i < flat.len() && (#[trigger] flat[i]).topic@ == topic && flat[i].partition
                == partition
}

impl OffsetTable {
    /// Every offset of the table with its topic and partition, each once: the
    /// topics in the order in which they were first seen, the partitions of a
    /// topic in the order in which its hash map hands them out.
    pub fn flat(&self) -> (flat: Vec<PartitionOffset>)
        requires
            self.wf(),
        ensures
            flattens(flat@, self@),
    {
        let mut flat: Vec<PartitionOffset> = Vec::new();
        let ghost listing = self.listing();
        let ghost mut origin: Seq<int> = Seq::empty();
        let mut i: usize = 0;
        while i < self.entries.len()
            invariant
                i <= self.entries.len(),
                listing == self.entries@,
                distinct_topics(listing),
                origin.len() == flat@.len(),
                forall|j: int|
                    0 <= j < flat@.len() ==> 0 <= #[trigger] origin[j] < i && flat@[j].topic@
                        == listing[origin[j]].topic@ && listing[origin[j]].partitions@.contains_key(
                        flat@[j].partition,
                    ) && listing[origin[j]].partitions@[flat@[j].partition] == flat@[j].offset,
                forall|a: int, b: int|
                    0 <= a < b < flat@.len() ==> !((#[trigger] flat@[a]).topic@ == (
                    #[trigger] flat@[b]).topic@ && flat@[a].partition == flat@[b].partition),
                forall|k: int, partition: i32|
                    0 <= k < i && #[trigger] listing[k].partitions@.contains_key(partition)
                        ==> exists|j: int|
                        0 <= j < flat@.len() && (#[trigger] flat@[j]).topic@ == listing[k].topic@
                            && flat@[j].partition == partition,
            decreases self.entries.len() - i,
        {
            let entries = self.entries[i].entries();
            let ghost base = flat@.len();
            let ghost before = flat@;
            let mut m: usize = 0;
            while m < entries.len()
                invariant
                    i < self.entries.len(),
                    listing == self.entries@,
                    distinct_topics(listing),
                    m <= entries@.len(),
                    lists(entries@, listing[i as int].partitions@),
                    flat@.len() == base + m,
                    origin.len() == flat@.len(),
                    forall|j: int| 0 <= j < base ==> flat@[j] == before[j],
                    forall|j: int| 0 <= j < base ==> 0 <= #[trigger] origin[j] < i,
                    forall|j: int| base <= j < flat@.len() ==> #[trigger] origin[j] == i,
                    forall|j: int|
                        0 <= j < flat@.len() ==> flat@[j].topic@ == listing[#[trigger] origin[j]].topic@
                            && listing[origin[j]].partitions@.contains_key(flat@[j].partition)
                            && listing[origin[j]].partitions@[flat@[j].partition] == flat@[j].offset,
                    forall|q: int|
                        0 <= q < m ==> (#[trigger] flat@[base + q]).partition == entries@[q].0,
                decreases entries@.len() - m,
            {
                let (partition, offset) = entries[m];
                flat.push(
                    PartitionOffset { topic: self.entries[i].topic.clone(), partition, offset },
                );
                proof {
                    origin = origin.push(i as int);
                    assert(listing[i as int].partitions@.contains_key(entries@[m as int].0));
                }
                m += 1;
            }
            proof {
                assert forall|a: int, b: int| 0 <= a < b < flat@.len() implies !((
                #[trigger] flat@[a]).topic@ == (#[trigger] flat@[b]).topic@ && flat@[a].partition
                    == flat@[b].partition) by {
                    if b < base {
                        assert(flat@[a] == before[a] && flat@[b] == before[b]);
                    } else if a < base {
                        assert(origin[a] < i && origin[b] == i);
                        assert(listing[origin[a]].topic@ != listing[origin[b]].topic@);
                    } else {
                        assert(flat@[base + (a - base)].partition == entries@[a - base].0);
                        assert(flat@[base + (b - base)].partition == entries@[b - base].0);
                        assert(entries@[a - base].0 != entries@[b - base].0);
                    }
                }
                assert forall|k: int, partition: i32|
                    0 <= k < i + 1 && #[trigger] listing[k].partitions@.contains_key(
                        partition,
                    ) implies exists|j: int|
                    0 <= j < flat@.len() && (#[trigger] flat@[j]).topic@ == listing[k].topic@
                        && flat@[j].partition == partition by {
                    if k < i {
                        let j = choose|j: int|
                            0 <= j < before.len() && (#[trigger] before[j]).topic@
                                == listing[k].topic@ && before[j].partition == partition;
                        assert(flat@[j] == before[j]);
                    } else {
                        let q = choose|q: int|
                            0 <= q < entries@.len() && (#[trigger] entries@[q]).0 == partition;
                        assert(flat@[base + q].partition == partition);
                        assert(origin[base + q] == i);
                    }
                }
            }
            i += 1;
        }
        proof {
            let table = self@;
            assert forall|j: int| 0 <= j < flat@.len() implies table.contains_key(
                (#[trigger] flat@[j]).topic@,
            ) && table[flat@[j].topic@].contains_key(flat@[j].partition)
                && table[flat@[j].topic@][flat@[j].partition] == flat@[j].offset by {
                lemma_entry_is_shown(listing, origin[j]);
            }
            assert forall|topic: Seq<char>, partition: i32|
                table.contains_key(topic) && #[trigger] table[topic].contains_key(
                    partition,
                ) implies exists|j: int|
                0 <= j < flat@.len() && (#[trigger] flat@[j]).topic@ == topic && flat@[j].partition
                    == partition by {
                let k = topic_index(listing, topic);
                lemma_entry_is_shown(listing, k);
                assert(listing[k].partitions@.contains_key(partition));
            }
        }
        flat
    }
}

} // verus!
