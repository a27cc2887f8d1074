//! The report of consumer groups: one row for every partition that a group
//! has committed an offset for, with the group's lag behind the latest offset
//! of the partition.

use crate::client::consumer_group::{
    committed_offset, lists_commits, Commit, ConsumerGroups, GroupsModel,
};
use crate::client::watermark::{checked_lag, lag_fits, LatestOffsetCache, PartitionKey};
use crate::cmd::table::{align, tab_aligned};
use crate::text::{decimal, i64_text, listed};
use vstd::prelude::*;
use vstd::string::StringExecFns;
use vstd::utf8::encode_utf8;

verus! {

broadcast use vstd::std_specs::hash::group_hash_axioms;

/// The command that reports on consumer groups.
#[derive(Debug, Clone, Copy, PartialEq, Eq, Structural)]
pub struct GetConsumerGroupsCmd {}

/// One row of the report.
#[derive(Debug, Clone, PartialEq, Eq)]
pub struct ConsumerGroupRow {
    pub group: String,
    pub topic: String,
    pub partition: i32,
    pub offset: i64,
    pub lag: i64,
}

/// What a [`ConsumerGroupRow`] holds.
pub ghost struct RowModel {
    pub group: Seq<char>,
    pub topic: Seq<char>,
    pub partition: i32,
    pub offset: i64,
    pub lag: i64,
}

impl View for ConsumerGroupRow {
    type V = RowModel;

    open spec fn view(&self) -> RowModel {
        RowModel {
            group: self.group@,
            topic: self.topic@,
            partition: self.partition,
            offset: self.offset,
            lag: self.lag,
        }
    }
}

impl DeepView for ConsumerGroupRow {
    type V = RowModel;

    open spec fn deep_view(&self) -> RowModel {
        self@
    }
}

/// The names that a filter lets through: all of them where the filter is
/// empty, and else those that it lists.
pub open spec fn passes(filter: Seq<Seq<char>>, name: Seq<char>) -> bool {
    filter.len() == 0 || filter.contains(name)
}

/// Whether the topic called `topic` is shown: every topic where no topic
/// filter is given, and else the topics that the group filter lists.
pub open spec fn topic_passes(
    group_filter: Seq<Seq<char>>,
    topic_filter: Seq<Seq<char>>,
    topic: Seq<char>,
) -> bool {
    topic_filter.len() == 0 || group_filter.contains(topic)
}

/// Whether the report has a row for the partition of the topic and the group.
pub open spec fn shown(
    state: GroupsModel,
    group_filter: Seq<Seq<char>>,
    topic_filter: Seq<Seq<char>>,
    group: Seq<char>,
    topic: Seq<char>,
    partition: i32,
) -> bool {
    &&& state.contains_key(group)
    &&& passes(group_filter, group)
    &&& state[group].contains_key(topic)
    &&& topic_passes(group_filter, topic_filter, topic)
    &&& state[group][topic].contains_key(partition)
}

/// Whether the lag of a commit behind the latest offset of its partition can
/// be told: the latest offset is known, and the difference fits.
pub open spec fn lag_known(
    latest: Map<PartitionKey, i64>,
    topic: Seq<char>,
    partition: i32,
    committed: i64,
) -> bool {
    latest.contains_key((topic, partition)) && lag_fits(committed, latest[(topic, partition)])
}

/// The row of the report for the partition of the topic and the group.
pub open spec fn row_for(
    state: GroupsModel,
    latest: Map<PartitionKey, i64>,
    group: Seq<char>,
    topic: Seq<char>,
    partition: i32,
) -> RowModel {
    RowModel {
        group,
        topic,
        partition,
        offset: state[group][topic][partition],
        lag: (latest[(topic, partition)] - state[group][topic][partition]) as i64,
    }
}

/// Whether the lag of every row of the report can be told.
pub open spec fn report_ready(
    state: GroupsModel,
    group_filter: Seq<Seq<char>>,
    topic_filter: Seq<Seq<char>>,
    latest: Map<PartitionKey, i64>,
) -> bool {
    forall|group: Seq<char>, topic: Seq<char>, partition: i32| #[trigger]
        shown(state, group_filter, topic_filter, group, topic, partition) ==> lag_known(
            latest,
            topic,
            partition,
            state[group][topic][partition],
        )
}

/// Whether `rows` are the report: the row of every partition that is shown,
/// each once, and no other row.
pub open spec fn is_report(
    rows: Seq<RowModel>,
    state: GroupsModel,
    group_filter: Seq<Seq<char>>,
    topic_filter: Seq<Seq<char>>,
    latest: Map<PartitionKey, i64>,
) -> bool {
    &&& rows.no_duplicates()
    &&& forall|i: int|
        0 <= i < rows.len() ==> shown(
            state,
            group_filter,
            topic_filter,
            (#[trigger] rows[i]).group,
            rows[i].topic,
            rows[i].partition,
        ) && rows[i] == row_for(state, latest, rows[i].group, rows[i].topic, rows[i].partition)
    &&& forall|group: Seq<char>, topic: Seq<char>, partition: i32| #[trigger]
        shown(state, group_filter, topic_filter, group, topic, partition) ==> rows.contains(
            row_for(state, latest, group, topic, partition),
        )
}

/// Whether `requests` are the partitions to ask the cluster about before the
/// report can be made: the partitions of the rows whose latest offset is not
/// known, each once.
pub open spec fn is_request_list(
    requests: Seq<(String, i32)>,
    state: GroupsModel,
    group_filter: Seq<Seq<char>>,
    topic_filter: Seq<Seq<char>>,
    latest: Map<PartitionKey, i64>,
) -> bool {
    &&& forall|i: int|
        0 <= i < requests.len() ==> !latest.contains_key(
            ((#[trigger] requests[i]).0@, requests[i].1),
        ) && exists|group: Seq<char>|
            shown(state, group_filter, topic_filter, group, requests[i].0@, requests[i].1)
    &&& forall|i: int, j: int|
        0 <= i < j < requests.len() ==> !((#[trigger] requests[i]).0@ == (#[trigger] requests[j]).0@
            && requests[i].1 == requests[j].1)
    &&& forall|group: Seq<char>, topic: Seq<char>, partition: i32| #[trigger]
        shown(state, group_filter, topic_filter, group, topic, partition) && !latest.contains_key(
            (topic, partition),
        ) ==> exists|i: int|
            0 <= i < requests.len() && (#[trigger] requests[i]).0@ == topic && requests[i].1
                == partition
}

impl GetConsumerGroupsCmd {
    /// Whether the report has a row for the commit.
    pub fn shows(commit: &Commit, group_filter: &Vec<String>, topic_filter: &Vec<String>) -> (shown:
        bool)
        ensures
            shown == (passes(group_filter.deep_view(), commit.group@) && topic_passes(
                group_filter.deep_view(),
                topic_filter.deep_view(),
                commit.topic@,
            )),
    {
        (group_filter.len() == 0 || listed(group_filter, commit.group.as_str())) && (
        topic_filter.len() == 0 || listed(group_filter, commit.topic.as_str()))
    }

    /// Lists the partitions whose latest offset the cluster is to be asked
    /// for before the report can be made, each once.
    pub fn watermark_requests(
        groups: &ConsumerGroups,
        group_filter: &Vec<String>,
        topic_filter: &Vec<String>,
        cache: &LatestOffsetCache,
    ) -> (requests: Vec<(String, i32)>)
        requires
            groups.wf(),
            cache.wf(),
        ensures
            is_request_list(
                requests@,
                groups@,
                group_filter.deep_view(),
                topic_filter.deep_view(),
                cache@,
            ),
    {
        let commits = groups.commits();
        let ghost state = groups@;
        let ghost groups_shown = group_filter.deep_view();
        let ghost topics_shown = topic_filter.deep_view();
        let mut requests: Vec<(String, i32)> = Vec::new();
        let mut asked = LatestOffsetCache::new();
        let mut i: usize = 0;
        while i < commits.len()
            invariant
                i <= commits@.len(),
                cache.wf(),
                asked.wf(),
                state == groups@,
                groups_shown == group_filter.deep_view(),
                topics_shown == topic_filter.deep_view(),
                lists_commits(commits@, state),
                forall|j: int|
                    0 <= j < requests@.len() ==> asked@.contains_key(
                        ((#[trigger] requests@[j]).0@, requests@[j].1),
                    ) && !cache@.contains_key((requests@[j].0@, requests@[j].1))
                        && exists|group: Seq<char>|
                        shown(
                            state,
                            groups_shown,
                            topics_shown,
                            group,
                            requests@[j].0@,
                            requests@[j].1,
                        ),
                forall|key: PartitionKey| #[trigger]
                    asked@.contains_key(key) ==> exists|j: int|
                        0 <= j < requests@.len() && (#[trigger] requests@[j]).0@ == key.0
                            && requests@[j].1 == key.1,
                forall|a: int, b: int|
                    0 <= a < b < requests@.len() ==> !((#[trigger] requests@[a]).0@ == (
                    #[trigger] requests@[b]).0@ && requests@[a].1 == requests@[b].1),
                forall|k: int|
                    0 <= k < i && shown(
                        state,
                        groups_shown,
                        topics_shown,
                        (#[trigger] commits@[k]).group@,
                        commits@[k].topic@,
                        commits@[k].partition,
                    ) && !cache@.contains_key((commits@[k].topic@, commits@[k].partition))
                        ==> asked@.contains_key((commits@[k].topic@, commits@[k].partition)),
            decreases commits@.len() - i,
        {
            let commit = &commits[i];
            proof {
                assert(committed_offset(state, commit.group@, commit.topic@, commit.partition)
                    == Some(commit.offset));
            }
            if Self::shows(commit, group_filter, topic_filter) && cache.get(
                commit.topic.as_str(),
                commit.partition,
            ).is_none() && asked.get(commit.topic.as_str(), commit.partition).is_none() {
                let ghost before = requests@;
                let ghost asked_before = asked@;
                asked.latest_offset(commit.topic.as_str(), commit.partition, 0);
                requests.push((commit.topic.clone(), commit.partition));
                proof {
                    let last = requests@.len() - 1;
                    assert(shown(
                        state,
                        groups_shown,
                        topics_shown,
                        commit.group@,
                        requests@[last].0@,
                        requests@[last].1,
                    ));
                    assert forall|j: int| 0 <= j < requests@.len() implies asked@.contains_key(
                        ((#[trigger] requests@[j]).0@, requests@[j].1),
                    ) && !cache@.contains_key((requests@[j].0@, requests@[j].1))
                        && exists|group: Seq<char>|
                        shown(
                            state,
                            groups_shown,
                            topics_shown,
                            group,
                            requests@[j].0@,
                            requests@[j].1,
                        ) by {
                        if j < last {
                            assert(requests@[j] == before[j]);
                        }
                    }
                    assert forall|key: PartitionKey| #[trigger]
                        asked@.contains_key(key) implies exists|j: int|
                        0 <= j < requests@.len() && (#[trigger] requests@[j]).0@ == key.0
                            && requests@[j].1 == key.1 by {
                        if asked_before.contains_key(key) {
                            let j = choose|j: int|
                                0 <= j < before.len() && (#[trigger] before[j]).0@ == key.0
                                    && before[j].1 == key.1;
                            assert(requests@[j] == before[j]);
                        } else {
                            assert(key == (commit.topic@, commit.partition));
                            assert(requests@[last].0@ == key.0);
                        }
                    }
                    assert forall|a: int, b: int| 0 <= a < b < requests@.len() implies !((
                    #[trigger] requests@[a]).0@ == (#[trigger] requests@[b]).0@ && requests@[a].1
                        == requests@[b].1) by {
                        assert(requests@[a] == before[a]);
                        if b < last {
                            assert(requests@[b] == before[b]);
                        } else {
                            assert(asked_before.contains_key((before[a].0@, before[a].1)));
                        }
                    }
                }
            }
            i += 1;
        }
        proof {
            assert forall|group: Seq<char>, topic: Seq<char>, partition: i32| #[trigger]
                shown(state, groups_shown, topics_shown, group, topic, partition)
                    && !cache@.contains_key((topic, partition)) implies exists|j: int|
                0 <= j < requests@.len() && (#[trigger] requests@[j]).0@ == topic && requests@[j].1
                    == partition by {
                assert(committed_offset(state, group, topic, partition) is Some);
                let k = choose|k: int|
                    0 <= k < commits@.len() && (#[trigger] commits@[k]).group@ == group
                        && commits@[k].topic@ == topic && commits@[k].partition == partition;
                assert(asked@.contains_key((commits@[k].topic@, commits@[k].partition)));
            }
        }
        requests
    }

    /// Makes the report: a row for every commit that is shown, or nothing
    /// where the lag of one of them cannot be told.
    pub fn rows(
        groups: &ConsumerGroups,
        group_filter: &Vec<String>,
        topic_filter: &Vec<String>,
        cache: &LatestOffsetCache,
    ) -> (r: Option<Vec<ConsumerGroupRow>>)
        requires
            groups.wf(),
            cache.wf(),
        ensures
            r is Some <==> report_ready(
                groups@,
                group_filter.deep_view(),
                topic_filter.deep_view(),
                cache@,
            ),
            r matches Some(rows) ==> is_report(
                rows.deep_view(),
                groups@,
                group_filter.deep_view(),
                topic_filter.deep_view(),
                cache@,
            ),
    {
        let commits = groups.commits();
        let ghost state = groups@;
        let ghost groups_shown = group_filter.deep_view();
        let ghost topics_shown = topic_filter.deep_view();
        let mut rows: Vec<ConsumerGroupRow> = Vec::new();
        let ghost mut origin: Seq<int> = Seq::empty();
        let mut i: usize = 0;
        while i < commits.len()
            invariant
                i <= commits@.len(),
                cache.wf(),
                state == groups@,
                groups_shown == group_filter.deep_view(),
                topics_shown == topic_filter.deep_view(),
                lists_commits(commits@, state),
                origin.len() == rows@.len(),
                forall|j: int| 0 <= j < rows@.len() ==> 0 <= #[trigger] origin[j] < i,
                forall|a: int, b: int|
                    0 <= a < b < rows@.len() ==> #[trigger] origin[a] < #[trigger] origin[b],
                forall|j: int|
                    0 <= j < rows@.len() ==> (#[trigger] rows@[j])@ == row_for(
                        state,
                        cache@,
                        commits@[origin[j]].group@,
                        commits@[origin[j]].topic@,
                        commits@[origin[j]].partition,
                    ) && shown(
                        state,
                        groups_shown,
                        topics_shown,
                        commits@[origin[j]].group@,
                        commits@[origin[j]].topic@,
                        commits@[origin[j]].partition,
                    ),
                forall|k: int|
                    0 <= k < i && shown(
                        state,
                        groups_shown,
                        topics_shown,
                        (#[trigger] commits@[k]).group@,
                        commits@[k].topic@,
                        commits@[k].partition,
                    ) ==> lag_known(
                        cache@,
                        commits@[k].topic@,
                        commits@[k].partition,
                        commits@[k].offset,
                    ) && exists|j: int| 0 <= j < rows@.len() && #[trigger] origin[j] == k,
            decreases commits@.len() - i,
        {
            let commit = &commits[i];
            proof {
                assert(committed_offset(state, commit.group@, commit.topic@, commit.partition)
                    == Some(commit.offset));
            }
            if Self::shows(commit, group_filter, topic_filter) {
                let latest = match cache.get(commit.topic.as_str(), commit.partition) {
                    Some(latest) => latest,
                    None => {
                        assert(shown(
                            state,
                            groups_shown,
                            topics_shown,
                            commit.group@,
                            commit.topic@,
                            commit.partition,
                        ));
                        return None;
                    },
                };
                let lag = match checked_lag(commit.offset, latest) {
                    Some(lag) => lag,
                    None => {
                        assert(shown(
                            state,
                            groups_shown,
                            topics_shown,
                            commit.group@,
                            commit.topic@,
                            commit.partition,
                        ));
                        return None;
                    },
                };
                let ghost before = rows@;
                let ghost origin_before = origin;
                rows.push(
                    ConsumerGroupRow {
                        group: commit.group.clone(),
                        topic: commit.topic.clone(),
                        partition: commit.partition,
                        offset: commit.offset,
                        lag,
                    },
                );
                proof {
                    origin = origin.push(i as int);
                    let last = rows@.len() - 1;
                    assert forall|k: int|
                        0 <= k < i + 1 && shown(
                            state,
                            groups_shown,
                            topics_shown,
                            (#[trigger] commits@[k]).group@,
                            commits@[k].topic@,
                            commits@[k].partition,
                        ) implies lag_known(
                        cache@,
                        commits@[k].topic@,
                        commits@[k].partition,
                        commits@[k].offset,
                    ) && exists|j: int| 0 <= j < rows@.len() && #[trigger] origin[j] == k by {
                        if k < i {
                            let j = choose|j: int|
                                0 <= j < before.len() && #[trigger] origin_before[j] == k;
                            assert(origin[j] == k);
                        } else {
                            assert(origin[last] == k);
                        }
                    }
                }
            }
            i += 1;
        }
        proof {
            let models = rows.deep_view();
            assert forall|j: int| 0 <= j < models.len() implies (#[trigger] models[j]) == rows@[j]@ by {}
            assert forall|group: Seq<char>, topic: Seq<char>, partition: i32| #[trigger]
                shown(state, groups_shown, topics_shown, group, topic, partition) implies lag_known(
                cache@,
                topic,
                partition,
                state[group][topic][partition],
            ) && models.contains(row_for(state, cache@, group, topic, partition)) by {
                assert(committed_offset(state, group, topic, partition) is Some);
                let k = choose|k: int|
                    0 <= k < commits@.len() && (#[trigger] commits@[k]).group@ == group
                        && commits@[k].topic@ == topic && commits@[k].partition == partition;
                assert(committed_offset(
                    state,
                    commits@[k].group@,
                    commits@[k].topic@,
                    commits@[k].partition,
                ) == Some(commits@[k].offset));
                let j = choose|j: int| 0 <= j < rows@.len() && #[trigger] origin[j] == k;
                assert(models[j] == row_for(state, cache@, group, topic, partition));
            }
            assert forall|a: int, b: int| 0 <= a < b < models.len() implies models[a]
                != models[b] by {
                assert(origin[a] < origin[b]);
                assert(models[a] == rows@[a]@);
                assert(models[b] == rows@[b]@);
            }
            assert forall|j: int| 0 <= j < models.len() implies shown(
                state,
                groups_shown,
                topics_shown,
                (#[trigger] models[j]).group,
                models[j].topic,
                models[j].partition,
            ) && models[j] == row_for(
                state,
                cache@,
                models[j].group,
                models[j].topic,
                models[j].partition,
            ) by {
                assert(models[j] == rows@[j]@);
            }
        }
        Some(rows)
    }
}

/// The line of the table for one row: its cells, with a tab between neighbours.
pub open spec fn row_line(row: RowModel) -> Seq<char> {
    row.group + "\t"@ + row.topic + "\t"@ + decimal(row.partition as int) + "\t"@ + decimal(
        row.offset as int,
    ) + "\t"@ + decimal(row.lag as int) + "\n"@
}

/// The lines of the table for `rows`, one after the other.
pub open spec fn row_lines(rows: Seq<RowModel>) -> Seq<char>
    decreases rows.len(),
{
    if rows.len() == 0 {
        Seq::<char>::empty()
    } else {
        row_lines(rows.drop_last()) + row_line(rows.last())
    }
}

/// The table for `rows` before it is laid out: the headings, then the rows.
pub open spec fn table_text(rows: Seq<RowModel>) -> Seq<char> {
    "GROUP\tTOPIC\tPARTITION\tOFFSET\tLAG\n"@ + row_lines(rows)
}

impl GetConsumerGroupsCmd {
    /// Writes the table for `rows` as text: the headings, then a line for
    /// every row, the cells kept apart by tabs.
    pub fn table_text(rows: &Vec<ConsumerGroupRow>) -> (text: String)
        ensures
            text@ == table_text(rows.deep_view()),
    {
        let ghost models = rows.deep_view();
        let mut text = String::from_str("GROUP\tTOPIC\tPARTITION\tOFFSET\tLAG\n");
        let mut i: usize = 0;
        proof {
            assert(models.take(0) =~= Seq::<RowModel>::empty());
            assert(text@ =~= table_text(models.take(0)));
        }
        while i < rows.len()
            invariant
                i <= rows.len(),
                models == rows.deep_view(),
                text@ == table_text(models.take(i as int)),
            decreases rows.len() - i,
        {
            let row = &rows[i];
            let ghost before = text@;
            text.append(row.group.as_str());
            text.append("\t");
            text.append(row.topic.as_str());
            text.append("\t");
            text.append(i64_text(row.partition as i64).as_str());
            text.append("\t");
            text.append(i64_text(row.offset).as_str());
            text.append("\t");
            text.append(i64_text(row.lag).as_str());
            text.append("\n");
            proof {
                assert(models.take(i + 1).drop_last() =~= models.take(i as int));
                assert(models.take(i + 1).last() == row@);
                assert(text@ =~= before + row_line(row@));
            }
            i += 1;
        }
        proof {
            assert(models.take(rows.len() as int) =~= models);
        }
        text
    }

    /// Makes the table for `rows`, laid out in columns, as the bytes to print.
    pub fn print_table(rows: &Vec<ConsumerGroupRow>) -> (table: Option<Vec<u8>>)
        ensures
            match tab_aligned(encode_utf8(table_text(rows.deep_view()))) {
                Some(aligned) => table matches Some(bytes) && bytes@ == aligned,
                None => table is None,
            },
    {
        let text = Self::table_text(rows);
        align(text.as_str())
    }
}

} // verus!
