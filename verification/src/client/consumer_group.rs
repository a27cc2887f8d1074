//! The commit state of consumer groups, rebuilt from the records of the
//! internal offsets topic.
//!
//! The topic is a compacted log: a later record about a group, topic and
//! partition supersedes every earlier one. The state is therefore the result
//! of applying the updates one by one, in the order in which they were
//! delivered.

use crate::client::consumer::{
    process_message, KafkyConsumeProperties, KafkyConsumerMessage, KafkyConsumerOffset, MessageModel,
    PayloadFormat, RawMessage,
};
use crate::client::offset_record::{
    commit_key, commit_value, decode, fits_string_field, law_set_commit_round_trip,
    law_tombstone_deletes, record_update, ConsumerUpdate, UpdateModel,
};
use crate::errors::KafkyError;
use crate::client::offsets::{
    distinct_topics, flattens, offsets_of, OffsetTable, PartitionOffset, TopicOffsets,
};
use crate::text::same_text;
use vstd::prelude::*;
use vstd::string::StringExecFns;

verus! {

/// The name of the internal topic in which brokers record the commits of consumer groups.
pub const CONSUMER_OFFSETS_TOPIC: &'static str = "__consumer_offsets";

/// What a scan does with a record that does not decode.
#[derive(Debug, Clone, Copy, PartialEq, Eq, Structural)]
pub enum DecodeErrorPolicy {
    /// The scan ends at the record.
    Abort,
    /// The record is passed over, and the scan goes on.
    Skip,
}

/// The committed offsets of every group, by group name, topic name and partition.
pub type GroupsModel = Map<Seq<char>, Map<Seq<char>, Map<i32, i64>>>;

/// The state that follows `state` when `update` is applied to it.
///
/// Metadata changes nothing. A commit records its offset for the partition, in
/// place of an earlier one, and a group or topic that was not seen before gets
/// its entry. A withdrawal takes the partition's offset away where the group
/// and the topic are known; the group and the topic keep their entries.
pub open spec fn apply_update(state: GroupsModel, update: UpdateModel) -> GroupsModel {
    match update {
        UpdateModel::Metadata => state,
        UpdateModel::SetCommit { group, topic, partition, offset } => state.insert(
            group,
            topics_of(state, group).insert(
                topic,
                partitions_of(state, group, topic).insert(partition, offset),
            ),
        ),
        UpdateModel::DeleteCommit { group, topic, partition } => {
            if state.contains_key(group) && state[group].contains_key(topic) {
                state.insert(group, state[group].insert(topic, state[group][topic].remove(partition)))
            } else {
                state
            }
        },
    }
}

/// The topics that `state` knows of `group`: none where it does not know the group.
pub open spec fn topics_of(state: GroupsModel, group: Seq<char>) -> Map<Seq<char>, Map<i32, i64>> {
    if state.contains_key(group) {
        state[group]
    } else {
        Map::empty()
    }
}

/// The commits that `state` knows of `group` for `topic`: none where it does
/// not know the group or the topic.
pub open spec fn partitions_of(state: GroupsModel, group: Seq<char>, topic: Seq<char>) -> Map<
    i32,
    i64,
> {
    if topics_of(state, group).contains_key(topic) {
        topics_of(state, group)[topic]
    } else {
        Map::empty()
    }
}

/// The state that follows `state` when `updates` are applied in their order.
pub open spec fn apply_updates(state: GroupsModel, updates: Seq<UpdateModel>) -> GroupsModel
    decreases updates.len(),
{
    if updates.len() == 0 {
        state
    } else {
        apply_update(apply_updates(state, updates.drop_last()), updates.last())
    }
}

/// The offset that `state` shows as committed by `group` for the partition of `topic`.
pub open spec fn committed_offset(
    state: GroupsModel,
    group: Seq<char>,
    topic: Seq<char>,
    partition: i32,
) -> Option<i64> {
    if state.contains_key(group) && state[group].contains_key(topic)
        && state[group][topic].contains_key(partition) {
        Some(state[group][topic][partition])
    } else {
        None
    }
}

/// Idempotence of a commit: applying the same commit twice leaves the state
/// that applying it once leaves.
pub proof fn law_commit_is_idempotent(
    state: GroupsModel,
    group: Seq<char>,
    topic: Seq<char>,
    partition: i32,
    offset: i64,
)
    ensures
        apply_update(
            apply_update(state, UpdateModel::SetCommit { group, topic, partition, offset }),
            UpdateModel::SetCommit { group, topic, partition, offset },
        ) == apply_update(state, UpdateModel::SetCommit { group, topic, partition, offset }),
{
    let update = UpdateModel::SetCommit { group, topic, partition, offset };
    let once = apply_update(state, update);
    let twice = apply_update(once, update);
    assert(once.contains_key(group) && once[group].contains_key(topic));
    assert(once[group][topic].insert(partition, offset) =~= once[group][topic]);
    assert(once[group].insert(topic, once[group][topic]) =~= once[group]);
    assert(twice =~= once);
}

/// The last record wins: after a commit, its withdrawal and a second commit
/// for the same group, topic and partition, the state shows the offset of the
/// second commit, whatever the state was before.
pub proof fn law_later_commit_supersedes(
    state: GroupsModel,
    group: Seq<char>,
    topic: Seq<char>,
    partition: i32,
    first: i64,
    second: i64,
)
    ensures
        committed_offset(
            apply_updates(
                state,
                seq![
                    UpdateModel::SetCommit { group, topic, partition, offset: first },
                    UpdateModel::DeleteCommit { group, topic, partition },
                    UpdateModel::SetCommit { group, topic, partition, offset: second },
                ],
            ),
            group,
            topic,
            partition,
        ) == Some(second),
{
    let updates = seq![
        UpdateModel::SetCommit { group, topic, partition, offset: first },
        UpdateModel::DeleteCommit { group, topic, partition },
        UpdateModel::SetCommit { group, topic, partition, offset: second },
    ];
    lemma_three_updates(state, updates);
}

/// The order of application matters: the same three updates with the
/// withdrawal last leave no commit for the partition.
pub proof fn law_final_tombstone_wins(
    state: GroupsModel,
    group: Seq<char>,
    topic: Seq<char>,
    partition: i32,
    first: i64,
    second: i64,
)
    ensures
        committed_offset(
            apply_updates(
                state,
                seq![
                    UpdateModel::SetCommit { group, topic, partition, offset: first },
                    UpdateModel::SetCommit { group, topic, partition, offset: second },
                    UpdateModel::DeleteCommit { group, topic, partition },
                ],
            ),
            group,
            topic,
            partition,
        ) is None,
{
    let updates = seq![
        UpdateModel::SetCommit { group, topic, partition, offset: first },
        UpdateModel::SetCommit { group, topic, partition, offset: second },
        UpdateModel::DeleteCommit { group, topic, partition },
    ];
    lemma_three_updates(state, updates);
}

/// An update touches nothing but the partition that it names: the committed
/// offset of every other group, topic or partition stays what it was.
pub proof fn law_update_is_local(
    state: GroupsModel,
    update: UpdateModel,
    group: Seq<char>,
    topic: Seq<char>,
    partition: i32,
)
    requires
        match update {
            UpdateModel::Metadata => true,
            UpdateModel::SetCommit { group: g, topic: t, partition: p, .. } => !(g == group && t
                == topic && p == partition),
            UpdateModel::DeleteCommit { group: g, topic: t, partition: p } => !(g == group && t
                == topic && p == partition),
        },
    ensures
        committed_offset(apply_update(state, update), group, topic, partition) == committed_offset(
            state,
            group,
            topic,
            partition,
        ),
{
}

proof fn lemma_three_updates(state: GroupsModel, updates: Seq<UpdateModel>)
    requires
        updates.len() == 3,
    ensures
        apply_updates(state, updates) == apply_update(
            apply_update(apply_update(state, updates[0]), updates[1]),
            updates[2],
        ),
{
    let two = updates.drop_last();
    let one = two.drop_last();
    let none = one.drop_last();
    assert(none.len() == 0);
    assert(apply_updates(state, none) == state);
    assert(apply_updates(state, one) == apply_update(apply_updates(state, none), one.last()));
    assert(apply_updates(state, two) == apply_update(apply_updates(state, one), two.last()));
}

/// The commit state of one consumer group.
#[derive(Debug, Clone, PartialEq, Eq)]
pub struct KafkyConsumerGroup {
    group: String,
    topics: OffsetTable,
}

/// What a [`KafkyConsumerGroup`] holds: its name, and its committed offsets by
/// topic name and partition.
pub ghost struct GroupModel {
    pub group: Seq<char>,
    pub topics: Map<Seq<char>, Map<i32, i64>>,
}

impl View for KafkyConsumerGroup {
    type V = GroupModel;

    closed spec fn view(&self) -> GroupModel {
        GroupModel { group: self.group@, topics: self.topics@ }
    }
}

impl KafkyConsumerGroup {
    /// The invariant of the group's state: no topic has two entries.
    pub closed spec fn wf(&self) -> bool {
        self.topics.wf()
    }

    /// The state of a group of which one commit is known.
    pub fn new(group: String, topic: String, partition: i32, offset: i64) -> (state:
        KafkyConsumerGroup)
        ensures
            state.wf(),
            state@.group == group@,
            state@.topics == Map::<Seq<char>, Map<i32, i64>>::empty().insert(
                topic@,
                Map::<i32, i64>::empty().insert(partition, offset),
            ),
    {
        let mut topics = OffsetTable::new();
        topics.upsert(topic, partition, offset);
        KafkyConsumerGroup { group, topics }
    }

    /// Records that the group committed `offset` for the partition of the topic.
    pub fn update_topic_partition(&mut self, topic_name: String, partition: i32, offset: i64)
        requires
            old(self).wf(),
        ensures
            final(self).wf(),
            final(self)@.group == old(self)@.group,
            final(self)@.topics == old(self)@.topics.insert(
                topic_name@,
                if old(self)@.topics.contains_key(topic_name@) {
                    old(self)@.topics[topic_name@].insert(partition, offset)
                } else {
                    Map::<i32, i64>::empty().insert(partition, offset)
                },
            ),
    {
        self.topics.upsert(topic_name, partition, offset);
    }

    /// Withdraws the group's commit for the partition of the topic. The topic
    /// stays known to the group; a commit that the group does not hold leaves
    /// the state as it is.
    pub fn delete_topic_partition(&mut self, topic_name: &String, partition: &i32)
        requires
            old(self).wf(),
        ensures
            final(self).wf(),
            final(self)@.group == old(self)@.group,
            final(self)@.topics == if old(self)@.topics.contains_key(topic_name@) {
                old(self)@.topics.insert(
                    topic_name@,
                    old(self)@.topics[topic_name@].remove(*partition),
                )
            } else {
                old(self)@.topics
            },
    {
        self.topics.remove(topic_name.as_str(), *partition);
    }

    /// The topics of the group with their partitions and committed offsets, in
    /// the order in which the topics were first seen.
    pub fn topics(&self) -> (topics: &Vec<TopicOffsets>)
        ensures
            self.wf() ==> distinct_topics(topics@),
            offsets_of(topics@) == self@.topics,
    {
        self.topics.entries()
    }

    /// The name of the group.
    pub fn group(&self) -> (name: &str)
        ensures
            name@ == self@.group,
    {
        self.group.as_str()
    }

    /// The offset that the group committed for the partition of the topic.
    pub fn committed(&self, topic: &str, partition: i32) -> (offset: Option<i64>)
        requires
            self.wf(),
        ensures
            offset == if self@.topics.contains_key(topic@) && self@.topics[topic@].contains_key(
                partition,
            ) {
                Some(self@.topics[topic@][partition])
            } else {
                None
            },
    {
        self.topics.get(topic, partition)
    }
}

/// Whether no group name occurs twice in `groups`, and every group is well formed.
pub open spec fn distinct_groups(groups: Seq<KafkyConsumerGroup>) -> bool {
    &&& forall|i: int| 0 <= i < groups.len() ==> (#[trigger] groups[i]).wf()
    &&& forall|i: int, j: int|
        0 <= i < j < groups.len() ==> (#[trigger] groups[i])@.group != (#[trigger] groups[j])@.group
}

/// Whether `groups` has an entry for the group called `name`.
pub open spec fn has_group(groups: Seq<KafkyConsumerGroup>, name: Seq<char>) -> bool {
    exists|i: int| 0 <= i < groups.len() && (#[trigger] groups[i])@.group == name
}

/// The place of the group called `name` in `groups`, where it has one.
pub open spec fn group_index(groups: Seq<KafkyConsumerGroup>, name: Seq<char>) -> int {
    choose|i: int| 0 <= i < groups.len() && (#[trigger] groups[i])@.group == name
}

/// The committed offsets that `groups` hold, by group name, topic name and partition.
pub open spec fn groups_of(groups: Seq<KafkyConsumerGroup>) -> GroupsModel {
    Map::new(
        |name: Seq<char>| has_group(groups, name),
        |name: Seq<char>| groups[group_index(groups, name)]@.topics,
    )
}

/// In a list without repeated names, the group at each place is the one that
/// the state shows under its name.
pub proof fn lemma_group_is_shown(groups: Seq<KafkyConsumerGroup>, i: int)
    requires
        distinct_groups(groups),
        0 <= i < groups.len(),
    ensures
        has_group(groups, groups[i]@.group),
        group_index(groups, groups[i]@.group) == i,
        groups_of(groups).contains_key(groups[i]@.group),
        groups_of(groups)[groups[i]@.group] == groups[i]@.topics,
{
    let j = group_index(groups, groups[i]@.group);
    assert(groups[j]@.group == groups[i]@.group);
    if j < i {
        assert(groups[j]@.group != groups[i]@.group);
    } else if i < j {
        assert(groups[i]@.group != groups[j]@.group);
    }
}

/// The commit state of every consumer group that the scanned records spoke of.
#[derive(Debug, Clone, PartialEq, Eq)]
pub struct ConsumerGroups {
    groups: Vec<KafkyConsumerGroup>,
}

impl View for ConsumerGroups {
    type V = GroupsModel;

    open spec fn view(&self) -> GroupsModel {
        groups_of(self.listing())
    }
}

impl ConsumerGroups {
    /// The groups, in the order in which they were first seen.
    pub closed spec fn listing(&self) -> Seq<KafkyConsumerGroup> {
        self.groups@
    }

    /// The invariant of the state: no group has two entries, and no topic has
    /// two entries within a group.
    pub open spec fn wf(&self) -> bool {
        distinct_groups(self.listing())
    }

    /// The state before any record was seen.
    pub fn new() -> (state: ConsumerGroups)
        ensures
            state.wf(),
            state@ == GroupsModel::empty(),
    {
        let state = ConsumerGroups { groups: Vec::new() };
        assert(state@ =~= GroupsModel::empty());
        state
    }

    /// The groups, in the order in which they were first seen.
    pub fn groups(&self) -> (groups: &Vec<KafkyConsumerGroup>)
        ensures
            groups@ == self.listing(),
    {
        &self.groups
    }

    /// The place of the group called `name`, if it is known.
    pub fn position(&self, name: &str) -> (place: Option<usize>)
        ensures
            match place {
                Some(i) => i < self.listing().len() && self.listing()[i as int]@.group == name@,
                None => !has_group(self.listing(), name@),
            },
    {
        let mut i: usize = 0;
        while i < self.groups.len()
            invariant
                i <= self.groups.len(),
                forall|k: int| 0 <= k < i ==> (#[trigger] self.groups[k])@.group != name@,
            decreases self.groups.len() - i,
        {
            if same_text(self.groups[i].group(), name) {
                return Some(i);
            }
            i += 1;
        }
        None
    }

    /// The state of the group called `name`, if it is known.
    pub fn get(&self, name: &str) -> (found: Option<&KafkyConsumerGroup>)
        requires
            self.wf(),
        ensures
            found is Some <==> self@.contains_key(name@),
            found matches Some(group) ==> group.wf() && group@.group == name@ && group@.topics
                == self@[name@],
    {
        match self.position(name) {
            None => None,
            Some(i) => {
                proof {
                    lemma_group_is_shown(self.listing(), i as int);
                }
                Some(&self.groups[i])
            },
        }
    }

    /// The offset that `group` committed for the partition of `topic`.
    pub fn committed(&self, group: &str, topic: &str, partition: i32) -> (offset: Option<i64>)
        requires
            self.wf(),
        ensures
            offset == committed_offset(self@, group@, topic@, partition),
    {
        match self.get(group) {
            None => None,
            Some(state) => state.committed(topic, partition),
        }
    }

    /// Applies one update to the state.
    pub fn apply(&mut self, update: ConsumerUpdate)
        requires
            old(self).wf(),
        ensures
            final(self).wf(),
            final(self)@ == apply_update(old(self)@, update@),
    {
        let ghost before = self.listing();
        match update {
            ConsumerUpdate::Metadata => {},
            ConsumerUpdate::SetCommit { group, topic, partition, offset } => {
                match self.position(group.as_str()) {
                    Some(i) => {
                        self.groups[i].update_topic_partition(topic, partition, offset);
                        proof {
                            self.lemma_one_group_changed(before, i as int);
                        }
                    },
                    None => {
                        let added = KafkyConsumerGroup::new(group, topic, partition, offset);
                        self.groups.push(added);
                        proof {
                            self.lemma_group_added(before);
                        }
                    },
                }
            },
            ConsumerUpdate::DeleteCommit { group, topic, partition } => {
                match self.position(group.as_str()) {
                    Some(i) => {
                        proof {
                            lemma_group_is_shown(before, i as int);
                        }
                        self.groups[i].delete_topic_partition(&topic, &partition);
                        proof {
                            self.lemma_one_group_changed(before, i as int);
                        }
                    },
                    None => {},
                }
            },
        }
    }

    /// Applies the updates in their order.
    pub fn apply_all(&mut self, updates: Vec<ConsumerUpdate>)
        requires
            old(self).wf(),
        ensures
            final(self).wf(),
            final(self)@ == apply_updates(old(self)@, updates.deep_view()),
    {
        let ghost models = updates.deep_view();
        let ghost start = self@;
        proof {
            assert(models.take(0) =~= Seq::<UpdateModel>::empty());
        }
        for update in it: updates
            invariant
                self.wf(),
                it.seq().len() == models.len(),
                forall|k: int| 0 <= k < models.len() ==> (#[trigger] it.seq()[k])@ == models[k],
                self@ == apply_updates(start, models.take(it.index() as int)),
        {
            proof {
                let done = it.index() as int;
                assert(models.take(done + 1).drop_last() =~= models.take(done));
                assert(models.take(done + 1).last() == update@);
            }
            self.apply(update);
        }
        proof {
            assert(models.take(models.len() as int) =~= models);
        }
    }

    /// Takes one record of the offsets topic into the state, and says whether
    /// the scan should go on.
    ///
    /// A record that decodes is applied, and the scan goes on. One that does
    /// not decode leaves the state as it is, and the policy says whether the
    /// scan goes on.
    pub fn consume_record(&mut self, policy: DecodeErrorPolicy, key: &[u8], value: &[u8]) -> (keep_going:
        bool)
        requires
            old(self).wf(),
        ensures
            final(self).wf(),
            match record_update(key@, value@) {
                Ok(update) => keep_going && final(self)@ == apply_update(old(self)@, update),
                Err(_) => keep_going == (policy == DecodeErrorPolicy::Skip) && final(self)@ == old(
                    self,
                )@,
            },
    {
        match decode(key, value) {
            Ok(update) => {
                self.apply(update);
                true
            },
            Err(_) => match policy {
                DecodeErrorPolicy::Abort => false,
                DecodeErrorPolicy::Skip => true,
            },
        }
    }

    proof fn lemma_one_group_changed(&self, before: Seq<KafkyConsumerGroup>, i: int)
        requires
            distinct_groups(before),
            0 <= i < before.len(),
            self.listing().len() == before.len(),
            self.listing()[i].wf(),
            self.listing()[i]@.group == before[i]@.group,
            forall|k: int| 0 <= k < before.len() && k != i ==> self.listing()[k] == before[k],
        ensures
            self.wf(),
            self@ == groups_of(before).insert(before[i]@.group, self.listing()[i]@.topics),
    {
        let after = self.listing();
        assert forall|k: int| 0 <= k < after.len() implies (#[trigger] after[k])@.group
            == before[k]@.group && after[k].wf() by {}
        assert forall|name: Seq<char>| has_group(after, name) == has_group(before, name) by {
            if has_group(before, name) {
                let k = group_index(before, name);
                assert(after[k]@.group == name);
            }
            if has_group(after, name) {
                let k = group_index(after, name);
                assert(before[k]@.group == name);
            }
        }
        lemma_group_is_shown(before, i);
        assert forall|name: Seq<char>| has_group(after, name) implies groups_of(after)[name]
            == groups_of(before).insert(before[i]@.group, after[i]@.topics)[name] by {
            let k = group_index(after, name);
            lemma_group_is_shown(after, k);
            lemma_group_is_shown(before, k);
        }
        assert(self@ =~= groups_of(before).insert(before[i]@.group, after[i]@.topics));
    }

    proof fn lemma_group_added(&self, before: Seq<KafkyConsumerGroup>)
        requires
            distinct_groups(before),
            self.listing().len() == before.len() + 1,
            self.listing().last().wf(),
            !has_group(before, self.listing().last()@.group),
            forall|k: int| 0 <= k < before.len() ==> self.listing()[k] == before[k],
        ensures
            self.wf(),
            self@ == groups_of(before).insert(
                self.listing().last()@.group,
                self.listing().last()@.topics,
            ),
    {
        let after = self.listing();
        let last = after.len() - 1;
        let name = after[last]@.group;
        assert forall|i: int, j: int| 0 <= i < j < after.len() implies (#[trigger] after[i])@.group
            != (#[trigger] after[j])@.group by {
            assert(after[i] == before[i]);
            if j < last {
                assert(after[j] == before[j]);
            }
        }
        assert forall|k: int| 0 <= k < after.len() implies (#[trigger] after[k]).wf() by {
            if k < last {
                assert(after[k] == before[k]);
            }
        }
        assert forall|other: Seq<char>| has_group(after, other) == (has_group(before, other)
            || other == name) by {
            if has_group(before, other) {
                let k = group_index(before, other);
                assert(after[k]@.group == other);
            }
            if has_group(after, other) && other != name {
                let k = group_index(after, other);
                assert(before[k]@.group == other);
            }
            if other == name {
                assert(after[last]@.group == other);
            }
        }
        assert forall|other: Seq<char>| has_group(after, other) implies groups_of(after)[other]
            == groups_of(before).insert(name, after[last]@.topics)[other] by {
            let k = group_index(after, other);
            lemma_group_is_shown(after, k);
            if k < last {
                assert(after[k] == before[k]);
                lemma_group_is_shown(before, k);
            }
        }
        assert(self@ =~= groups_of(before).insert(name, after[last]@.topics));
    }
}


/// The offset that one group committed for one partition of one topic.
#[derive(Debug, Clone, PartialEq, Eq)]
pub struct Commit {
    pub group: String,
    pub topic: String,
    pub partition: i32,
    pub offset: i64,
}

/// Whether `commits` list the state: every commit that the state shows, each once.
pub open spec fn lists_commits(commits: Seq<Commit>, state: GroupsModel) -> bool {
    &&& forall|i: int|
        0 <= i < commits.len() ==> committed_offset(
            state,
            (#[trigger] commits[i]).group@,
            commits[i].topic@,
            commits[i].partition,
        ) == Some(commits[i].offset)
    &&& forall|i: int, j: int|
        0 <= i < j < commits.len() ==> !((#[trigger] commits[i]).group@ == (
        #[trigger] commits[j]).group@ && commits[i].topic@ == commits[j].topic@
            && commits[i].partition == commits[j].partition)
    &&& forall|group: Seq<char>, topic: Seq<char>, partition: i32|
        #[trigger] committed_offset(state, group, topic, partition) is Some ==> exists|i: int|
            0 <= i < commits.len() && (#[trigger] commits[i]).group@ == group && commits[i].topic@
                == topic && commits[i].partition == partition
}

impl KafkyConsumerGroup {
    /// Every offset that the group committed, with its topic and partition, each once.
    pub fn offsets(&self) -> (flat: Vec<PartitionOffset>)
        requires
            self.wf(),
        ensures
            flattens(flat@, self@.topics),
    {
        self.topics.flat()
    }
}

impl ConsumerGroups {
    /// Every commit that the state shows, each once: the groups and their
    /// topics in the order in which they were first seen.
    pub fn commits(&self) -> (commits: Vec<Commit>)
        requires
            self.wf(),
        ensures
            lists_commits(commits@, self@),
    {
        let mut commits: Vec<Commit> = Vec::new();
        let ghost listing = self.listing();
        let ghost mut origin: Seq<int> = Seq::empty();
        let mut i: usize = 0;
        while i < self.groups.len()
            invariant
                i <= self.groups.len(),
                listing == self.groups@,
                distinct_groups(listing),
                origin.len() == commits@.len(),
                forall|j: int|
                    0 <= j < commits@.len() ==> 0 <= #[trigger] origin[j] < i
                        && commits@[j].group@ == listing[origin[j]]@.group
                        && listing[origin[j]]@.topics.contains_key(commits@[j].topic@)
                        && listing[origin[j]]@.topics[commits@[j].topic@].contains_key(
                        commits@[j].partition,
                    ) && listing[origin[j]]@.topics[commits@[j].topic@][commits@[j].partition]
                        == commits@[j].offset,
                forall|a: int, b: int|
                    0 <= a < b < commits@.len() ==> !((#[trigger] commits@[a]).group@ == (
                    #[trigger] commits@[b]).group@ && commits@[a].topic@ == commits@[b].topic@
                        && commits@[a].partition == commits@[b].partition),
                forall|k: int, topic: Seq<char>, partition: i32|
                    0 <= k < i && listing[k]@.topics.contains_key(topic)
                        && #[trigger] listing[k]@.topics[topic].contains_key(partition)
                        ==> exists|j: int|
                        0 <= j < commits@.len() && (#[trigger] commits@[j]).group@
                            == listing[k]@.group && commits@[j].topic@ == topic
                            && commits@[j].partition == partition,
            decreases self.groups.len() - i,
        {
            let flat = self.groups[i].offsets();
            let ghost base = commits@.len();
            let ghost before = commits@;
            let mut m: usize = 0;
            while m < flat.len()
                invariant
                    i < self.groups.len(),
                    listing == self.groups@,
                    distinct_groups(listing),
                    m <= flat@.len(),
                    flattens(flat@, listing[i as int]@.topics),
                    commits@.len() == base + m,
                    origin.len() == commits@.len(),
                    forall|j: int| 0 <= j < base ==> commits@[j] == before[j],
                    forall|j: int| 0 <= j < base ==> 0 <= #[trigger] origin[j] < i,
                    forall|j: int| base <= j < commits@.len() ==> #[trigger] origin[j] == i,
                    forall|j: int|
                        0 <= j < commits@.len() ==> commits@[j].group@ == listing[
                            #[trigger] origin[j]]@.group && listing[origin[j]]@.topics.contains_key(
                            commits@[j].topic@,
                        ) && listing[origin[j]]@.topics[commits@[j].topic@].contains_key(
                            commits@[j].partition,
                        ) && listing[origin[j]]@.topics[commits@[j].topic@][commits@[j].partition]
                            == commits@[j].offset,
                    forall|q: int|
                        0 <= q < m ==> (#[trigger] commits@[base + q]).topic@ == flat@[q].topic@
                            && commits@[base + q].partition == flat@[q].partition,
                decreases flat@.len() - m,
            {
                commits.push(
                    Commit {
                        group: String::from_str(self.groups[i].group()),
                        topic: flat[m].topic.clone(),
                        partition: flat[m].partition,
                        offset: flat[m].offset,
                    },
                );
                proof {
                    origin = origin.push(i as int);
                    assert(listing[i as int]@.topics.contains_key(flat@[m as int].topic@));
                }
                m += 1;
            }
            proof {
                assert forall|a: int, b: int| 0 <= a < b < commits@.len() implies !((
                #[trigger] commits@[a]).group@ == (#[trigger] commits@[b]).group@
                    && commits@[a].topic@ == commits@[b].topic@ && commits@[a].partition
                    == commits@[b].partition) by {
                    if b < base {
                        assert(commits@[a] == before[a] && commits@[b] == before[b]);
                    } else if a < base {
                        assert(origin[a] < i && origin[b] == i);
                        assert(listing[origin[a]]@.group != listing[origin[b]]@.group);
                    } else {
                        assert(commits@[base + (a - base)].topic@ == flat@[a - base].topic@);
                        assert(commits@[base + (b - base)].topic@ == flat@[b - base].topic@);
                        assert(!(flat@[a - base].topic@ == flat@[b - base].topic@ && flat@[a
                            - base].partition == flat@[b - base].partition));
                    }
                }
                assert forall|k: int, topic: Seq<char>, partition: i32|
                    0 <= k < i + 1 && listing[k]@.topics.contains_key(topic)
                        && #[trigger] listing[k]@.topics[topic].contains_key(
                        partition,
                    ) implies exists|j: int|
                    0 <= j < commits@.len() && (#[trigger] commits@[j]).group@ == listing[k]@.group
                        && commits@[j].topic@ == topic && commits@[j].partition == partition by {
                    if k < i {
                        let j = choose|j: int|
                            0 <= j < before.len() && (#[trigger] before[j]).group@
                                == listing[k]@.group && before[j].topic@ == topic
                                && before[j].partition == partition;
                        assert(commits@[j] == before[j]);
                    } else {
                        let q = choose|q: int|
                            0 <= q < flat@.len() && (#[trigger] flat@[q]).topic@ == topic
                                && flat@[q].partition == partition;
                        assert(commits@[base + q].partition == partition);
                        assert(origin[base + q] == i);
                    }
                }
            }
            i += 1;
        }
        proof {
            let state = self@;
            assert forall|j: int| 0 <= j < commits@.len() implies committed_offset(
                state,
                (#[trigger] commits@[j]).group@,
                commits@[j].topic@,
                commits@[j].partition,
            ) == Some(commits@[j].offset) by {
                lemma_group_is_shown(listing, origin[j]);
            }
            assert forall|group: Seq<char>, topic: Seq<char>, partition: i32|
                #[trigger] committed_offset(
                    state,
                    group,
                    topic,
                    partition,
                ) is Some implies exists|j: int|
                0 <= j < commits@.len() && (#[trigger] commits@[j]).group@ == group
                    && commits@[j].topic@ == topic && commits@[j].partition == partition by {
                let k = group_index(listing, group);
                lemma_group_is_shown(listing, k);
                assert(listing[k]@.topics[topic].contains_key(partition));
            }
        }
        commits
    }
}


/// The key of the record that a message of the offsets topic carries: the
/// bytes of the message's key, and no bytes where the message has no key.
pub open spec fn record_key(message: MessageModel) -> Seq<u8> {
    match message.key {
        Some(key) => key.wire_bytes(),
        None => Seq::<u8>::empty(),
    }
}

/// The state after the records of `messages` were taken in one after the
/// other. At a record that does not decode the scan ends or passes on, as the
/// policy says.
pub open spec fn scanned(
    state: GroupsModel,
    messages: Seq<RawMessage>,
    policy: DecodeErrorPolicy,
) -> GroupsModel
    decreases messages.len(),
{
    if messages.len() == 0 {
        state
    } else {
        match record_update(
            match messages[0].key {
                Some(key) => key@,
                None => Seq::<u8>::empty(),
            },
            messages[0].payload@,
        ) {
            Ok(update) => scanned(apply_update(state, update), messages.drop_first(), policy),
            Err(_) => match policy {
                DecodeErrorPolicy::Abort => state,
                DecodeErrorPolicy::Skip => scanned(state, messages.drop_first(), policy),
            },
        }
    }
}

/// Whether `message` carries the record with the given key and value.
pub open spec fn carries(message: RawMessage, key: Seq<u8>, value: Seq<u8>) -> bool {
    message.key matches Some(bytes) && bytes@ == key && message.payload@ == value
}

/// The final tombstone wins, from the bytes on: when the scan takes in two
/// commits of a group for a partition and then the tombstone of the same
/// key, the state shows no commit of the group for the partition, whatever
/// it showed before and whatever the policy is.
pub proof fn law_scan_ends_without_the_commit(
    state: GroupsModel,
    policy: DecodeErrorPolicy,
    first: RawMessage,
    second: RawMessage,
    third: RawMessage,
    version: i16,
    group: Seq<char>,
    topic: Seq<char>,
    partition: i32,
    earlier: (i16, i64, Seq<u8>),
    later: (i16, i64, Seq<u8>),
)
    requires
        version == 0 || version == 1,
        fits_string_field(group),
        fits_string_field(topic),
        carries(
            first,
            commit_key(version, group, topic, partition),
            commit_value(earlier.0, earlier.1, earlier.2),
        ),
        carries(
            second,
            commit_key(version, group, topic, partition),
            commit_value(later.0, later.1, later.2),
        ),
        carries(third, commit_key(version, group, topic, partition), Seq::<u8>::empty()),
    ensures
        committed_offset(
            scanned(state, seq![first, second, third], policy),
            group,
            topic,
            partition,
        ) is None,
{
    let messages = seq![first, second, third];
    let after_first = apply_update(
        state,
        UpdateModel::SetCommit { group, topic, partition, offset: earlier.1 },
    );
    let after_second = apply_update(
        after_first,
        UpdateModel::SetCommit { group, topic, partition, offset: later.1 },
    );
    let after_third = apply_update(
        after_second,
        UpdateModel::DeleteCommit { group, topic, partition },
    );
    law_set_commit_round_trip(version, group, topic, partition, earlier.0, earlier.1, earlier.2);
    law_set_commit_round_trip(version, group, topic, partition, later.0, later.1, later.2);
    law_tombstone_deletes(version, group, topic, partition);
    let two = messages.drop_first();
    let one = two.drop_first();
    let none = one.drop_first();
    assert(messages[0] == first && two[0] == second && one[0] == third && none.len() == 0);
    assert(scanned(after_third, none, policy) == after_third);
    assert(scanned(after_second, one, policy) == after_third);
    assert(scanned(after_first, two, policy) == after_third);
    assert(scanned(state, messages, policy) == after_third);
}

impl ConsumerGroups {
    /// What the scan of the offsets topic consumes, and as whom: the topic
    /// from its beginning, under a group of its own, without committing.
    pub fn scan_properties() -> (properties: KafkyConsumeProperties)
        ensures
            properties.topics@.len() == 1,
            properties.topics@[0]@ == CONSUMER_OFFSETS_TOPIC@,
            properties.consumer_group@ == "kafky"@,
            properties.offset == KafkyConsumerOffset::Beginning,
            !properties.auto_commit,
    {
        let mut topics: Vec<String> = Vec::new();
        topics.push(String::from_str(CONSUMER_OFFSETS_TOPIC));
        KafkyConsumeProperties {
            topics,
            consumer_group: String::from_str("kafky"),
            offset: KafkyConsumerOffset::Beginning,
            auto_commit: false,
        }
    }

    /// Handles what the consumption of the offsets topic delivers, and says
    /// whether the scan should go on.
    ///
    /// The record of a message is taken into the state, and the scan goes on
    /// if it decodes. A message that could not be read, and a record that does
    /// not decode, leave the state as it is, and the policy says whether the
    /// scan goes on.
    pub fn handle(
        &mut self,
        policy: DecodeErrorPolicy,
        delivered: Result<KafkyConsumerMessage, KafkyError>,
    ) -> (keep_going: bool)
        requires
            old(self).wf(),
        ensures
            final(self).wf(),
            match delivered {
                Ok(message) => match record_update(
                    record_key(message@),
                    message@.payload.wire_bytes(),
                ) {
                    Ok(update) => keep_going && final(self)@ == apply_update(old(self)@, update),
                    Err(_) => keep_going == (policy == DecodeErrorPolicy::Skip) && final(self)@
                        == old(self)@,
                },
                Err(_) => keep_going == (policy == DecodeErrorPolicy::Skip) && final(self)@ == old(
                    self,
                )@,
            },
    {
        match delivered {
            Ok(message) => {
                let no_key: Vec<u8> = Vec::new();
                let key = match message.key() {
                    Some(key) => key.as_bytes(),
                    None => no_key.as_slice(),
                };
                self.consume_record(policy, key, message.payload().as_bytes())
            },
            Err(_) => match policy {
                DecodeErrorPolicy::Abort => false,
                DecodeErrorPolicy::Skip => true,
            },
        }
    }

    /// Rebuilds the commit state of the consumer groups from the messages of
    /// the offsets topic, in the order in which they were delivered.
    pub fn get_consumer_groups(messages: Vec<RawMessage>, policy: DecodeErrorPolicy) -> (groups:
        ConsumerGroups)
        ensures
            groups.wf(),
            groups@ == scanned(GroupsModel::empty(), messages@, policy),
    {
        let mut groups = ConsumerGroups::new();
        let ghost all = messages@;
        proof {
            assert(all.skip(0) =~= all);
        }
        for raw in it: messages
            invariant
                groups.wf(),
                it.seq() == all,
                scanned(GroupsModel::empty(), all, policy) == scanned(
                    groups@,
                    all.skip(it.index() as int),
                    policy,
                ),
        {
            let ghost left = all.skip(it.index() as int);
            let ghost model = crate::client::consumer::message_of(raw, PayloadFormat::Bytes)->0;
            proof {
                assert(left[0] == raw);
                assert(left.drop_first() =~= all.skip(it.index() + 1));
                assert(record_key(model) == match raw.key {
                    Some(key) => key@,
                    None => Seq::<u8>::empty(),
                });
                assert(model.payload.wire_bytes() == raw.payload@);
            }
            let delivered = process_message(raw, PayloadFormat::Bytes);
            if !groups.handle(policy, delivered) {
                return groups;
            }
        }
        proof {
            assert(all.skip(all.len() as int).len() == 0);
        }
        groups
    }
}

} // verus!
