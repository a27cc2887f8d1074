//! Producing messages from lines of text: where a line parts into key and
//! payload, and where the history of a topic is kept.

use crate::client::metadata::{names_of, KafkyMetadata};
use crate::errors::KafkyError;
use crate::text::listed;
use vstd::prelude::*;
use vstd::string::{StrSliceExecFns, StringExecFns};

verus! {

/// The command that produces messages.
#[derive(Debug, Clone, Copy, PartialEq, Eq, Structural)]
pub struct ProduceCmd {}

/// Whether `separator` stands in `line` at the place `at`.
pub open spec fn occurs_at(line: Seq<char>, separator: Seq<char>, at: int) -> bool {
    0 <= at && at + separator.len() <= line.len() && line.subrange(at, at + separator.len())
        == separator
}

/// Whether `at` is the first place at which `separator` stands in `line`.
pub open spec fn first_at(line: Seq<char>, separator: Seq<char>, at: int) -> bool {
    occurs_at(line, separator, at) && forall|k: int| 0 <= k < at ==> !occurs_at(line, separator, k)
}

/// The first place at which `separator` stands in `line`, if it stands there at all.
pub open spec fn first_occurrence(line: Seq<char>, separator: Seq<char>) -> Option<int> {
    if exists|at: int| first_at(line, separator, at) {
        Some(choose|at: int| first_at(line, separator, at))
    } else {
        None
    }
}

/// A first place is the first occurrence.
pub proof fn lemma_first_occurrence_is(line: Seq<char>, separator: Seq<char>, at: int)
    requires
        first_at(line, separator, at),
    ensures
        first_occurrence(line, separator) == Some(at),
{
    let found = choose|at: int| first_at(line, separator, at);
    if found < at {
        assert(!occurs_at(line, separator, found));
    } else if at < found {
        assert(!occurs_at(line, separator, at));
    }
}

/// Where the separator stands nowhere, there is no first occurrence.
pub proof fn lemma_no_occurrence(line: Seq<char>, separator: Seq<char>)
    requires
        forall|k: int| 0 <= k ==> !occurs_at(line, separator, k),
    ensures
        first_occurrence(line, separator) is None,
{
    if exists|at: int| first_at(line, separator, at) {
        let at = choose|at: int| first_at(line, separator, at);
        assert(!occurs_at(line, separator, at));
    }
}

/// The key and the payload that `line` parts into at `separator`: what stands
/// before the separator, and what stands behind it. The line has to hold the
/// separator once: a line without it has no key, and in a line that holds it
/// again behind its first occurrence the key cannot be told from the payload.
/// An empty separator parts the empty line only.
pub open spec fn key_and_payload(separator: Seq<char>, line: Seq<char>) -> Option<
    (Seq<char>, Seq<char>),
> {
    if separator.len() == 0 {
        if line.len() == 0 {
            Some((Seq::<char>::empty(), Seq::<char>::empty()))
        } else {
            None
        }
    } else {
        match first_occurrence(line, separator) {
            None => None,
            Some(at) => if first_occurrence(line.skip(at + separator.len()), separator) is Some {
                None
            } else {
                Some((line.take(at), line.skip(at + separator.len())))
            },
        }
    }
}

/// The name of the file that keeps the history of the lines produced to
/// `topic` with the key separator `separator`.
pub open spec fn history_name(topic: Seq<char>, separator: Option<Seq<char>>) -> Seq<char> {
    topic + "_"@ + (match separator {
        Some(separator) => separator,
        None => Seq::<char>::empty(),
    }) + ".history"@
}

impl ProduceCmd {
    /// Finds the first place at which `separator` stands in `line`, counted in characters.
    pub fn find(line: &str, separator: &str) -> (place: Option<usize>)
        ensures
            match first_occurrence(line@, separator@) {
                Some(at) => place == Some(at as usize) && at <= usize::MAX,
                None => place is None,
            },
    {
        let length = line.unicode_len();
        let width = separator.unicode_len();
        if width > length {
            proof {
                lemma_no_occurrence(line@, separator@);
            }
            return None;
        }
        let mut at: usize = 0;
        while at <= length - width
            invariant
                length == line@.len(),
                width == separator@.len(),
                width <= length,
                at <= length - width + 1,
                forall|k: int| 0 <= k < at ==> !occurs_at(line@, separator@, k),
            decreases length - width + 1 - at,
        {
            let mut matched: usize = 0;
            while matched < width && line.get_char(at + matched) == separator.get_char(matched)
                invariant
                    length == line@.len(),
                    width == separator@.len(),
                    at + width <= length,
                    matched <= width,
                    forall|k: int| 0 <= k < matched ==> line@[at + k] == separator@[k],
                decreases width - matched,
            {
                matched += 1;
            }
            if matched == width {
                proof {
                    assert(line@.subrange(at as int, at + width) =~= separator@);
                    lemma_first_occurrence_is(line@, separator@, at as int);
                }
                return Some(at);
            }
            proof {
                if occurs_at(line@, separator@, at as int) {
                    assert(line@.subrange(at as int, at + width)[matched as int]
                        == separator@[matched as int]);
                }
            }
            at += 1;
        }
        proof {
            lemma_no_occurrence(line@, separator@);
        }
        None
    }

    /// Parts a line into the key and the payload of a message. Without a
    /// separator the whole line is the payload of a message without a key.
    pub fn extract_key_payload(key_separator_opt: Option<&str>, read_line: &str) -> (r: Result<
        (Option<String>, String),
        KafkyError,
    >)
        ensures
            match key_separator_opt {
                None => r matches Ok((None, payload)) && payload@ == read_line@,
                Some(separator) => match key_and_payload(separator@, read_line@) {
                    Some((key, payload)) => r matches Ok((Some(found_key), found_payload))
                        && found_key@ == key && found_payload@ == payload,
                    None => r matches Err(KafkyError::KeySeparatorNotFound()),
                },
            },
    {
        let separator = match key_separator_opt {
            Some(separator) => separator,
            None => {
                return Ok((None, String::from_str(read_line)));
            },
        };
        let length = read_line.unicode_len();
        let width = separator.unicode_len();
        if width == 0 {
            if length == 0 {
                assert(read_line@ =~= Seq::<char>::empty());
                return Ok((Some(String::new()), String::new()));
            } else {
                return Err(KafkyError::KeySeparatorNotFound());
            }
        }
        let at = match Self::find(read_line, separator) {
            Some(at) => at,
            None => {
                return Err(KafkyError::KeySeparatorNotFound());
            },
        };
        proof {
            assert(first_at(read_line@, separator@, at as int)) by {
                if exists|k: int| first_at(read_line@, separator@, k) {
                }
            }
        }
        let key = read_line.substring_char(0, at);
        let payload = read_line.substring_char(at + width, length);
        proof {
            assert(key@ =~= read_line@.take(at as int));
            assert(payload@ =~= read_line@.skip(at + width));
        }
        if Self::find(payload, separator).is_some() {
            return Err(KafkyError::KeySeparatorNotFound());
        }
        Ok((Some(String::from_str(key)), String::from_str(payload)))
    }

    /// Makes sure that the cluster has the topic to produce to.
    pub fn check_topic(metadata: &KafkyMetadata, topic: &str) -> (r: Result<(), KafkyError>)
        ensures
            if names_of(metadata.topics@).contains(topic@) {
                r is Ok
            } else {
                r matches Err(KafkyError::TopicNotFound(name)) && name@ == topic@
            },
    {
        if listed(&metadata.topic_names(), topic) {
            Ok(())
        } else {
            Err(KafkyError::TopicNotFound(String::from_str(topic)))
        }
    }

    /// The name of the file that keeps the history of the lines produced to
    /// `topic` with the key separator `key_separator`.
    pub fn history_file_name(topic: &str, key_separator: Option<&str>) -> (name: String)
        ensures
            name@ == history_name(
                topic@,
                match key_separator {
                    Some(separator) => Some(separator@),
                    None => None,
                },
            ),
    {
        let name = String::from_str(topic).concat("_");
        let name = match key_separator {
            Some(separator) => name.concat(separator),
            None => {
                assert(name@ + Seq::<char>::empty() =~= name@);
                name
            },
        };
        name.concat(".history")
    }
}

} // verus!
