//! What a cluster tells about its topics and brokers.

use crate::text::{decimal, i64_text};
use vstd::prelude::*;
use vstd::string::StringExecFns;

verus! {

/// One partition of a topic: its number, the broker that leads it, and the
/// brokers that hold and that are in sync with its log.
#[derive(Debug, Clone, PartialEq, Eq)]
pub struct KafkyPartition {
    id: i32,
    leader: i32,
    replicas: Vec<i32>,
    isrs: Vec<i32>,
}

/// What a [`KafkyPartition`] holds.
pub ghost struct PartitionModel {
    pub id: i32,
    pub leader: i32,
    pub replicas: Seq<i32>,
    pub isrs: Seq<i32>,
}

impl View for KafkyPartition {
    type V = PartitionModel;

    closed spec fn view(&self) -> PartitionModel {
        PartitionModel {
            id: self.id,
            leader: self.leader,
            replicas: self.replicas@,
            isrs: self.isrs@,
        }
    }
}

impl DeepView for KafkyPartition {
    type V = PartitionModel;

    open spec fn deep_view(&self) -> PartitionModel {
        self@
    }
}

impl KafkyPartition {
    /// A partition with the given number, leader, replicas and in-sync replicas.
    pub fn new(id: i32, leader: i32, replicas: Vec<i32>, isrs: Vec<i32>) -> (partition:
        KafkyPartition)
        ensures
            partition@ == (PartitionModel { id, leader, replicas: replicas@, isrs: isrs@ }),
    {
        KafkyPartition { id, leader, replicas, isrs }
    }

    /// The number of the partition within its topic.
    pub fn id(&self) -> (id: i32)
        ensures
            id == self@.id,
    {
        self.id
    }

    /// The broker that leads the partition.
    pub fn leader(&self) -> (leader: i32)
        ensures
            leader == self@.leader,
    {
        self.leader
    }

    /// The brokers that hold a copy of the partition.
    pub fn replicas(&self) -> (replicas: &Vec<i32>)
        ensures
            replicas@ == self@.replicas,
    {
        &self.replicas
    }

    /// The brokers whose copy of the partition is in sync.
    pub fn isrs(&self) -> (isrs: &Vec<i32>)
        ensures
            isrs@ == self@.isrs,
    {
        &self.isrs
    }
}

/// A topic with its partitions.
#[derive(Debug, Clone, PartialEq, Eq)]
pub struct KafkyTopic {
    name: String,
    partitions: Vec<KafkyPartition>,
}

/// What a [`KafkyTopic`] holds.
pub ghost struct TopicModel {
    pub name: Seq<char>,
    pub partitions: Seq<PartitionModel>,
}

impl View for KafkyTopic {
    type V = TopicModel;

    closed spec fn view(&self) -> TopicModel {
        TopicModel { name: self.name@, partitions: self.partitions.deep_view() }
    }
}

impl DeepView for KafkyTopic {
    type V = TopicModel;

    open spec fn deep_view(&self) -> TopicModel {
        self@
    }
}

impl KafkyTopic {
    /// A topic with the given name and partitions.
    pub fn new(name: String, partitions: Vec<KafkyPartition>) -> (topic: KafkyTopic)
        ensures
            topic@ == (TopicModel { name: name@, partitions: partitions.deep_view() }),
    {
        KafkyTopic { name, partitions }
    }

    /// The name of the topic.
    pub fn name(&self) -> (name: &str)
        ensures
            name@ == self@.name,
    {
        self.name.as_str()
    }

    /// The partitions of the topic.
    pub fn partitions(&self) -> (partitions: &Vec<KafkyPartition>)
        ensures
            partitions.deep_view() == self@.partitions,
    {
        &self.partitions
    }
}

/// The topics and the brokers of a cluster.
#[derive(Debug, Clone, PartialEq, Eq)]
pub struct KafkyMetadata {
    pub topics: Vec<KafkyTopic>,
    pub brokers: Vec<String>,
}

/// The names of the topics, in their order.
pub open spec fn names_of(topics: Seq<KafkyTopic>) -> Seq<Seq<char>> {
    Seq::new(topics.len(), |i: int| topics[i]@.name)
}

impl KafkyMetadata {
    /// The names of the cluster's topics, in their order.
    pub fn topic_names(&self) -> (names: Vec<String>)
        ensures
            names.deep_view() == names_of(self.topics@),
    {
        let mut names: Vec<String> = Vec::new();
        let mut i: usize = 0;
        while i < self.topics.len()
            invariant
                i <= self.topics.len(),
                names@.len() == i,
                forall|k: int| 0 <= k < i ==> names@[k]@ == self.topics@[k]@.name,
            decreases self.topics.len() - i,
        {
            names.push(String::from_str(self.topics[i].name()));
            i += 1;
        }
        names
    }
}

/// The address of a broker as it is shown: its host, a colon, and its port.
pub fn broker_address(host: &str, port: i32) -> (address: String)
    ensures
        address@ == host@ + seq![':'] + decimal(port as int),
{
    proof {
        reveal_strlit(":");
    }
    String::from_str(host).concat(":").concat(i64_text(port as i64).as_str())
}

} // verus!
