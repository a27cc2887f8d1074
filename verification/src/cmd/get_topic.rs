//! The table of topics: a line for every partition, with its leader, its
//! in-sync replicas and its replicas.

use crate::client::metadata::{KafkyTopic, PartitionModel, TopicModel};
use crate::cmd::table::{align, tab_aligned};
use crate::text::{decimal, i64_text, join, joined};
use vstd::prelude::*;
use vstd::string::StringExecFns;
use vstd::utf8::encode_utf8;

verus! {

/// The command that shows the topics of a cluster.
#[derive(Debug, Clone, Copy, PartialEq, Eq, Structural)]
pub struct GetTopicCmd {}

/// The numbers written in base ten, in their order.
pub open spec fn numbers(values: Seq<i32>) -> Seq<Seq<char>> {
    Seq::new(values.len(), |i: int| decimal(values[i] as int))
}

/// The line of the table for one partition of the topic called `topic`.
pub open spec fn partition_line(topic: Seq<char>, partition: PartitionModel) -> Seq<char> {
    topic + "\t"@ + decimal(partition.id as int) + "\t"@ + decimal(partition.leader as int) + "\t"@
        + joined(numbers(partition.isrs), ","@) + "\t"@ + joined(numbers(partition.replicas), ","@)
        + "\n"@
}

/// The lines of the table for the partitions of the topic called `topic`.
pub open spec fn partition_lines(topic: Seq<char>, partitions: Seq<PartitionModel>) -> Seq<char>
    decreases partitions.len(),
{
    if partitions.len() == 0 {
        Seq::<char>::empty()
    } else {
        partition_lines(topic, partitions.drop_last()) + partition_line(topic, partitions.last())
    }
}

/// The lines of the table for `topics`.
pub open spec fn topic_lines(topics: Seq<TopicModel>) -> Seq<char>
    decreases topics.len(),
{
    if topics.len() == 0 {
        Seq::<char>::empty()
    } else {
        topic_lines(topics.drop_last()) + partition_lines(
            topics.last().name,
            topics.last().partitions,
        )
    }
}

/// The table for `topics` before it is laid out: the headings, then the lines.
pub open spec fn topics_table_text(topics: Seq<TopicModel>) -> Seq<char> {
    "TOPIC\tPARTITION\tLEADER\tISR\tREPLICAS\n"@ + topic_lines(topics)
}

impl GetTopicCmd {
    /// Writes the numbers in base ten, with a comma between neighbours.
    pub fn join_numbers(values: &Vec<i32>) -> (text: String)
        ensures
            text@ == joined(numbers(values@), ","@),
    {
        let mut texts: Vec<String> = Vec::new();
        let mut i: usize = 0;
        while i < values.len()
            invariant
                i <= values.len(),
                texts@.len() == i,
                forall|k: int| 0 <= k < i ==> texts@[k]@ == decimal(values@[k] as int),
            decreases values.len() - i,
        {
            texts.push(i64_text(values[i] as i64));
            i += 1;
        }
        assert(texts.deep_view() =~= numbers(values@));
        join(&texts, ",")
    }

    /// Writes the lines of the table for the partitions of one topic.
    pub fn partition_lines(topic: &KafkyTopic) -> (text: String)
        ensures
            text@ == partition_lines(topic@.name, topic@.partitions),
    {
        let partitions = topic.partitions();
        let ghost models = partitions.deep_view();
        let mut text = String::new();
        let mut i: usize = 0;
        proof {
            assert(models.take(0) =~= Seq::<PartitionModel>::empty());
        }
        while i < partitions.len()
            invariant
                i <= partitions.len(),
                models == partitions.deep_view(),
                text@ == partition_lines(topic@.name, models.take(i as int)),
            decreases partitions.len() - i,
        {
            let partition = &partitions[i];
            let ghost before = text@;
            text.append(topic.name());
            text.append("\t");
            text.append(i64_text(partition.id() as i64).as_str());
            text.append("\t");
            text.append(i64_text(partition.leader() as i64).as_str());
            text.append("\t");
            text.append(Self::join_numbers(partition.isrs()).as_str());
            text.append("\t");
            text.append(Self::join_numbers(partition.replicas()).as_str());
            text.append("\n");
            proof {
                assert(models.take(i + 1).drop_last() =~= models.take(i as int));
                assert(models.take(i + 1).last() == partition@);
                assert(text@ =~= before + partition_line(topic@.name, partition@));
            }
            i += 1;
        }
        proof {
            assert(models.take(partitions.len() as int) =~= models);
        }
        text
    }

    /// Writes the table for `topics` as text: the headings, then a line for
    /// every partition of every topic, the cells kept apart by tabs.
    pub fn table_text(topics: &Vec<KafkyTopic>) -> (text: String)
        ensures
            text@ == topics_table_text(topics.deep_view()),
    {
        let ghost models = topics.deep_view();
        let mut text = String::from_str("TOPIC\tPARTITION\tLEADER\tISR\tREPLICAS\n");
        let mut i: usize = 0;
        proof {
            assert(models.take(0) =~= Seq::<TopicModel>::empty());
            assert(text@ =~= topics_table_text(models.take(0)));
        }
        while i < topics.len()
            invariant
                i <= topics.len(),
                models == topics.deep_view(),
                text@ == topics_table_text(models.take(i as int)),
            decreases topics.len() - i,
        {
            text.append(Self::partition_lines(&topics[i]).as_str());
            proof {
                assert(models.take(i + 1).drop_last() =~= models.take(i as int));
                assert(models.take(i + 1).last() == topics@[i as int]@);
                assert(text@ =~= "TOPIC\tPARTITION\tLEADER\tISR\tREPLICAS\n"@ + (topic_lines(
                    models.take(i as int),
                ) + partition_lines(topics@[i as int]@.name, topics@[i as int]@.partitions)));
            }
            i += 1;
        }
        proof {
            assert(models.take(topics.len() as int) =~= models);
        }
        text
    }

    /// Makes the table for `topics`, laid out in columns, as the bytes to print.
    pub fn table(topics: &Vec<KafkyTopic>) -> (table: Option<Vec<u8>>)
        ensures
            match tab_aligned(encode_utf8(topics_table_text(topics.deep_view()))) {
                Some(aligned) => table matches Some(bytes) && bytes@ == aligned,
                None => table is None,
            },
    {
        let text = Self::table_text(topics);
        align(text.as_str())
    }
}

} // verus!
