//! Consuming messages for the terminal: where the consumer starts, and the
//! line of text that shows a message.

use crate::client::consumer::{
    KafkyConsumerMessage, KafkyConsumerOffset, MessageModel, Payload, PayloadModel,
};
use crate::errors::KafkyError;
use crate::text::listed;
use chrono::{TimeZone, Utc};
use vstd::prelude::*;
use vstd::string::StringExecFns;

verus! {

/// The command that consumes messages.
#[derive(Debug, Clone, Copy, PartialEq, Eq, Structural)]
pub struct ConsumeCmd {}

/// The instant that lies `millis` milliseconds behind the epoch, written as
/// RFC 3339 prescribes, in universal time. Nothing where the instant is out
/// of the range of `chrono`.
pub uninterp spec fn rfc3339_text(millis: i64) -> Option<Seq<char>>;

/// `chrono::TimeZone::timestamp_millis_opt` of `chrono::Utc`, and, of the one
/// instant that it gives, `chrono::DateTime::to_rfc3339`. Where the number of
/// milliseconds is out of range there is no instant, and no text.
#[verifier::external_body]
fn rfc3339(millis: i64) -> (text: Option<String>)
    ensures
        match rfc3339_text(millis) {
            Some(expected) => text matches Some(found) && found@ == expected,
            None => text is None,
        },
{
    let instant = Utc.timestamp_millis_opt(millis).single()?;
    Some(instant.to_rfc3339())
}

/// The policy that the flags of the command line choose: the first of the
/// policies that has its flag set, and the latest offset where none has.
pub open spec fn chosen_offset(flags: Seq<Seq<char>>) -> KafkyConsumerOffset {
    if flags.contains(KafkyConsumerOffset::Beginning.name()) {
        KafkyConsumerOffset::Beginning
    } else if flags.contains(KafkyConsumerOffset::Earliest.name()) {
        KafkyConsumerOffset::Earliest
    } else {
        KafkyConsumerOffset::Latest
    }
}

/// What stands for the key of a message in its line: the key where it is
/// text, and the word `null` where the message has no key that is text.
pub open spec fn key_label(key: Option<PayloadModel>) -> Seq<char> {
    match key {
        Some(PayloadModel::Text(key)) => key,
        _ => "null"@,
    }
}

/// What stands for the time of a message in its line: the time as text, and
/// `NO-TS` where there is none.
pub open spec fn time_label(time: Option<Seq<char>>) -> Seq<char> {
    match time {
        Some(time) => time,
        None => "NO-TS"@,
    }
}

/// The line that shows a message: the topic where several topics are
/// consumed, the time where it is asked for, the key where a separator is
/// given, and the payload. A payload that is not text has no line.
pub open spec fn text_row_of(
    message: MessageModel,
    time: Option<Seq<char>>,
    several_topics: bool,
    with_timestamp: bool,
    key_separator: Option<Seq<char>>,
) -> Option<Seq<char>> {
    match message.payload {
        PayloadModel::Bytes(_) => None,
        PayloadModel::Text(payload) => Some(
            (if several_topics {
                message.topic + " -> "@
            } else {
                Seq::<char>::empty()
            }) + (if with_timestamp {
                "["@ + time_label(time) + "] "@
            } else {
                Seq::<char>::empty()
            }) + (match key_separator {
                Some(separator) => key_label(message.key) + separator,
                None => Seq::<char>::empty(),
            }) + payload,
        ),
    }
}

/// The time of a message as text: the instant of its timestamp, where it has
/// one that `chrono` can hold.
pub open spec fn time_text(timestamp: Option<i64>) -> Option<Seq<char>> {
    match timestamp {
        Some(millis) => rfc3339_text(millis),
        None => None,
    }
}

/// The sequence of characters of an optional string.
pub open spec fn string_view(text: Option<String>) -> Option<Seq<char>> {
    match text {
        Some(text) => Some(text@),
        None => None,
    }
}

/// The sequence of characters of an optional string slice.
pub open spec fn slice_view(text: Option<&str>) -> Option<Seq<char>> {
    match text {
        Some(text) => Some(text@),
        None => None,
    }
}

impl ConsumeCmd {
    /// Works out where the consumer starts from the flags that are set on
    /// the command line.
    pub fn extract_offset_from_arg(flags: &Vec<String>) -> (r: Result<
        KafkyConsumerOffset,
        KafkyError,
    >)
        ensures
            r == Ok::<KafkyConsumerOffset, KafkyError>(chosen_offset(flags.deep_view())),
    {
        let names = KafkyConsumerOffset::values_str();
        let mut i: usize = 0;
        while i < names.len()
            invariant
                i <= names@.len(),
                names@.len() == 3,
                names@[0]@ == KafkyConsumerOffset::Beginning.name(),
                names@[1]@ == KafkyConsumerOffset::Earliest.name(),
                names@[2]@ == KafkyConsumerOffset::Latest.name(),
                forall|k: int| 0 <= k < i ==> !flags.deep_view().contains(names@[k]@),
            decreases names@.len() - i,
        {
            if listed(flags, names[i]) {
                let found = KafkyConsumerOffset::from_str(names[i]);
                proof {
                    lemma_names_differ();
                }
                return found;
            }
            i += 1;
        }
        proof {
            lemma_names_differ();
        }
        KafkyConsumerOffset::from_str("latest")
    }

    /// The time of a message as text, written as RFC 3339 prescribes.
    pub fn timestamp_text(timestamp: Option<i64>) -> (text: Option<String>)
        ensures
            string_view(text) == time_text(timestamp),
    {
        match timestamp {
            Some(millis) => rfc3339(millis),
            None => None,
        }
    }

    /// Writes the line that shows a message, with `time` as the text of its time.
    pub fn text_row_at(
        message: &KafkyConsumerMessage,
        time: Option<String>,
        several_topics: bool,
        with_timestamp: bool,
        key_separator: Option<&str>,
    ) -> (row: Option<String>)
        ensures
            string_view(row) == text_row_of(
                message@,
                string_view(time),
                several_topics,
                with_timestamp,
                slice_view(key_separator),
            ),
    {
        let payload = match message.payload() {
            Payload::Text(payload) => payload,
            Payload::Bytes(_) => {
                return None;
            },
        };
        let mut row = String::new();
        if several_topics {
            row.append(message.topic());
            row.append(" -> ");
        }
        let ghost with_topic = row@;
        if with_timestamp {
            row.append("[");
            match &time {
                Some(time) => row.append(time.as_str()),
                None => row.append("NO-TS"),
            }
            row.append("] ");
        }
        let ghost with_time = row@;
        match key_separator {
            Some(separator) => {
                match message.key() {
                    Some(Payload::Text(key)) => row.append(key.as_str()),
                    _ => row.append("null"),
                }
                row.append(separator);
            },
            None => {},
        }
        let ghost with_key = row@;
        row.append(payload.as_str());
        proof {
            let expected = text_row_of(
                message@,
                string_view(time),
                several_topics,
                with_timestamp,
                slice_view(key_separator),
            )->0;
            assert(with_topic =~= if several_topics {
                message@.topic + " -> "@
            } else {
                Seq::<char>::empty()
            });
            assert(with_time =~= with_topic + (if with_timestamp {
                "["@ + time_label(string_view(time)) + "] "@
            } else {
                Seq::<char>::empty()
            }));
            assert(with_key =~= with_time + (match slice_view(key_separator) {
                Some(separator) => key_label(message@.key) + separator,
                None => Seq::<char>::empty(),
            }));
            assert(row@ =~= expected);
        }
        Some(row)
    }

    /// Writes the line that shows a message.
    pub fn text_row(
        message: &KafkyConsumerMessage,
        several_topics: bool,
        with_timestamp: bool,
        key_separator: Option<&str>,
    ) -> (row: Option<String>)
        ensures
            string_view(row) == text_row_of(
                message@,
                time_text(message@.timestamp),
                several_topics,
                with_timestamp,
                slice_view(key_separator),
            ),
    {
        let time = Self::timestamp_text(message.timestamp());
        Self::text_row_at(message, time, several_topics, with_timestamp, key_separator)
    }
}

/// The names of the policies differ from one another.
pub proof fn lemma_names_differ()
    ensures
        KafkyConsumerOffset::Beginning.name() != KafkyConsumerOffset::Earliest.name(),
        KafkyConsumerOffset::Beginning.name() != KafkyConsumerOffset::Latest.name(),
        KafkyConsumerOffset::Earliest.name() != KafkyConsumerOffset::Latest.name(),
{
    reveal_strlit("beginning");
    reveal_strlit("earliest");
    reveal_strlit("latest");
    assert("beginning"@.len() != "earliest"@.len());
    assert("beginning"@.len() != "latest"@.len());
    assert("earliest"@.len() != "latest"@.len());
}

} // verus!
