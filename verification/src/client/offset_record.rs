//! Decoding of the records that brokers keep in the internal offsets topic.
//!
//! A record's key starts with a 16-bit schema version. Versions 0 and 1 name a
//! group, a topic and a partition, and the record's value then carries the
//! offset that the group committed there; an empty value is the tombstone that
//! withdraws the commit. Version 2 announces group metadata.

use crate::client::wire::{
    be_bytes_i16, be_bytes_i32, be_bytes_i64, be_i16, be_i32, be_i64, lemma_i16_round_trip,
    lemma_i32_round_trip, lemma_i64_round_trip, take_i16, take_i32, take_i64, text_of,
};
use crate::errors::KafkyError;
use vstd::prelude::*;
use vstd::slice::slice_subrange;
use vstd::string::StringExecFns;
use vstd::utf8::{decode_utf8, encode_utf8, encode_utf8_decode_utf8, encode_utf8_valid_utf8, valid_utf8};

verus! {

/// Why a record of the offsets topic could not be decoded.
#[derive(Debug, Clone, Copy, PartialEq, Eq, Structural)]
pub enum DecodeError {
    /// The buffer ends before the field that is being read does.
    UnexpectedEnd,
    /// A string field does not hold well-formed UTF-8.
    InvalidUtf8,
    /// The key announces a schema version that is not known.
    UnsupportedVersion,
}

impl DecodeError {
    /// The text that describes this failure.
    pub open spec fn text(self) -> Seq<char> {
        match self {
            DecodeError::UnexpectedEnd => "failed to fill whole buffer"@,
            DecodeError::InvalidUtf8 => "invalid utf-8 sequence"@,
            DecodeError::UnsupportedVersion => "error parsing consumer group data"@,
        }
    }

    /// The failure as the error that the rest of the toolkit reports.
    pub open spec fn reported(self, error: KafkyError) -> bool {
        error matches KafkyError::ParseError(cause) && cause@ == self.text()
    }

    /// Turns the failure into the error that the rest of the toolkit reports.
    pub fn into_error(self) -> (error: KafkyError)
        ensures
            self.reported(error),
    {
        match self {
            DecodeError::UnexpectedEnd => KafkyError::ParseError(
                String::from_str("failed to fill whole buffer"),
            ),
            DecodeError::InvalidUtf8 => KafkyError::ParseError(
                String::from_str("invalid utf-8 sequence"),
            ),
            DecodeError::UnsupportedVersion => KafkyError::ParseError(
                String::from_str("error parsing consumer group data"),
            ),
        }
    }
}

/// One change to the commit state of a consumer group, as a record announces it.
#[derive(Debug, Clone, PartialEq, Eq)]
pub enum ConsumerUpdate {
    /// Group metadata: nothing about offsets.
    Metadata,
    /// The group committed `offset` for the partition.
    SetCommit { group: String, topic: String, partition: i32, offset: i64 },
    /// The group's commit for the partition was withdrawn.
    DeleteCommit { group: String, topic: String, partition: i32 },
}

/// What a [`ConsumerUpdate`] says, with its names as sequences of characters.
pub ghost enum UpdateModel {
    Metadata,
    SetCommit { group: Seq<char>, topic: Seq<char>, partition: i32, offset: i64 },
    DeleteCommit { group: Seq<char>, topic: Seq<char>, partition: i32 },
}

impl View for ConsumerUpdate {
    type V = UpdateModel;

    open spec fn view(&self) -> UpdateModel {
        match self {
            ConsumerUpdate::Metadata => UpdateModel::Metadata,
            ConsumerUpdate::SetCommit { group, topic, partition, offset } => UpdateModel::SetCommit {
                group: group@,
                topic: topic@,
                partition: *partition,
                offset: *offset,
            },
            ConsumerUpdate::DeleteCommit { group, topic, partition } => UpdateModel::DeleteCommit {
                group: group@,
                topic: topic@,
                partition: *partition,
            },
        }
    }
}

impl DeepView for ConsumerUpdate {
    type V = UpdateModel;

    open spec fn deep_view(&self) -> UpdateModel {
        self@
    }
}

/// The length-prefixed string at the front of `input`, and what follows it.
///
/// The prefix is a signed 16-bit length. A negative length, or one that runs
/// past the end of the buffer, leaves the string without its end.
pub open spec fn string_field(input: Seq<u8>) -> Result<(Seq<char>, Seq<u8>), DecodeError> {
    if input.len() < 2 {
        Err(DecodeError::UnexpectedEnd)
    } else if be_i16(input) < 0 || be_i16(input) > input.len() - 2 {
        Err(DecodeError::UnexpectedEnd)
    } else if !valid_utf8(input.subrange(2, 2 + be_i16(input))) {
        Err(DecodeError::InvalidUtf8)
    } else {
        Ok((decode_utf8(input.subrange(2, 2 + be_i16(input))), input.skip(2 + be_i16(input))))
    }
}

/// The committed offset that a non-empty record value carries: a 16-bit schema
/// version, which is passed over, and then the 64-bit offset. Whatever follows
/// the offset plays no part.
pub open spec fn offset_field(value: Seq<u8>) -> Result<i64, DecodeError> {
    if value.len() < 10 {
        Err(DecodeError::UnexpectedEnd)
    } else {
        Ok(be_i64(value.skip(2)) as i64)
    }
}

/// What a key of version 0 or 1, taken from behind its version field, and the
/// record's value announce together.
pub open spec fn group_offset(key: Seq<u8>, value: Seq<u8>) -> Result<UpdateModel, DecodeError> {
    match string_field(key) {
        Err(e) => Err(e),
        Ok((group, after_group)) => match string_field(after_group) {
            Err(e) => Err(e),
            Ok((topic, after_topic)) => if after_topic.len() < 4 {
                Err(DecodeError::UnexpectedEnd)
            } else if value.len() == 0 {
                Ok(
                    UpdateModel::DeleteCommit {
                        group,
                        topic,
                        partition: be_i32(after_topic) as i32,
                    },
                )
            } else {
                match offset_field(value) {
                    Err(e) => Err(e),
                    Ok(offset) => Ok(
                        UpdateModel::SetCommit {
                            group,
                            topic,
                            partition: be_i32(after_topic) as i32,
                            offset,
                        },
                    ),
                }
            },
        },
    }
}

/// What the record with the given key and value announces.
pub open spec fn record_update(key: Seq<u8>, value: Seq<u8>) -> Result<UpdateModel, DecodeError> {
    if key.len() < 2 {
        Err(DecodeError::UnexpectedEnd)
    } else if be_i16(key) == 0 || be_i16(key) == 1 {
        group_offset(key.skip(2), value)
    } else if be_i16(key) == 2 {
        Ok(UpdateModel::Metadata)
    } else {
        Err(DecodeError::UnsupportedVersion)
    }
}

/// Whether `result` is the outcome `expected`, the update compared by its view.
pub open spec fn decoded_as(
    result: Result<ConsumerUpdate, DecodeError>,
    expected: Result<UpdateModel, DecodeError>,
) -> bool {
    match expected {
        Ok(update) => result matches Ok(decoded) && decoded@ == update,
        Err(e) => result == Err::<ConsumerUpdate, DecodeError>(e),
    }
}

/// Reads the length-prefixed string at the front of `input` and returns it with
/// the rest of the buffer.
pub fn read_str(input: &[u8]) -> (r: Result<(&str, &[u8]), DecodeError>)
    ensures
        match string_field(input@) {
            Ok((text, rest)) => r matches Ok((s, tail)) && s@ == text && tail@ == rest,
            Err(e) => r == Err::<(&str, &[u8]), DecodeError>(e),
        },
{
    match take_i16(input) {
        None => Err(DecodeError::UnexpectedEnd),
        Some((declared, body)) => {
            if declared < 0 || declared as usize > body.len() {
                return Err(DecodeError::UnexpectedEnd);
            }
            let length = declared as usize;
            let raw = slice_subrange(body, 0, length);
            assert(raw@ == input@.subrange(2, 2 + be_i16(input@)));
            match text_of(raw) {
                None => Err(DecodeError::InvalidUtf8),
                Some(text) => {
                    let tail = slice_subrange(body, length, body.len());
                    Ok((text, tail))
                },
            }
        },
    }
}

/// Decodes a record whose key has version 0 or 1. `key` starts behind the
/// version field; `value` is the whole record value, empty for a tombstone.
pub fn parse_group_offset(key: &[u8], value: &[u8]) -> (r: Result<ConsumerUpdate, DecodeError>)
    ensures
        decoded_as(r, group_offset(key@, value@)),
{
    let (group, after_group) = match read_str(key) {
        Ok(read) => read,
        Err(e) => {
            return Err(e);
        },
    };
    let (topic, after_topic) = match read_str(after_group) {
        Ok(read) => read,
        Err(e) => {
            return Err(e);
        },
    };
    let partition = match take_i32(after_topic) {
        Some((partition, _)) => partition,
        None => {
            return Err(DecodeError::UnexpectedEnd);
        },
    };
    if value.len() != 0 {
        let after_version = match take_i16(value) {
            Some((_, rest)) => rest,
            None => {
                return Err(DecodeError::UnexpectedEnd);
            },
        };
        let offset = match take_i64(after_version) {
            Some((offset, _)) => offset,
            None => {
                return Err(DecodeError::UnexpectedEnd);
            },
        };
        Ok(
            ConsumerUpdate::SetCommit {
                group: String::from_str(group),
                topic: String::from_str(topic),
                partition,
                offset,
            },
        )
    } else {
        Ok(
            ConsumerUpdate::DeleteCommit {
                group: String::from_str(group),
                topic: String::from_str(topic),
                partition,
            },
        )
    }
}

/// Decodes one record of the offsets topic from its raw key and value.
pub fn decode(key: &[u8], value: &[u8]) -> (r: Result<ConsumerUpdate, DecodeError>)
    ensures
        decoded_as(r, record_update(key@, value@)),
{
    match take_i16(key) {
        None => Err(DecodeError::UnexpectedEnd),
        Some((version, rest)) => {
            if version == 0 || version == 1 {
                parse_group_offset(rest, value)
            } else if version == 2 {
                Ok(ConsumerUpdate::Metadata)
            } else {
                Err(DecodeError::UnsupportedVersion)
            }
        },
    }
}

/// The bytes of a string field that holds `text`: its length in bytes, then its UTF-8 encoding.
pub open spec fn string_bytes(text: Seq<char>) -> Seq<u8> {
    be_bytes_i16(encode_utf8(text).len() as i16) + encode_utf8(text)
}

/// Whether `text` fits a string field, whose length prefix is a signed 16-bit number.
pub open spec fn fits_string_field(text: Seq<char>) -> bool {
    encode_utf8(text).len() <= i16::MAX
}

/// The key of a record about the commit of `group` for a partition of `topic`.
pub open spec fn commit_key(version: i16, group: Seq<char>, topic: Seq<char>, partition: i32) -> Seq<
    u8,
> {
    be_bytes_i16(version) + (string_bytes(group) + (string_bytes(topic) + be_bytes_i32(partition)))
}

/// A record value that commits `offset`: a schema version, the offset, and the
/// fields after it, which decoding leaves alone.
pub open spec fn commit_value(schema: i16, offset: i64, trailing: Seq<u8>) -> Seq<u8> {
    be_bytes_i16(schema) + (be_bytes_i64(offset) + trailing)
}

/// A string field that was written with `string_bytes` is read back as the same
/// text, and reading stops exactly behind it.
pub proof fn lemma_string_field_round_trip(text: Seq<char>, tail: Seq<u8>)
    requires
        fits_string_field(text),
    ensures
        string_field(string_bytes(text) + tail) == Ok::<(Seq<char>, Seq<u8>), DecodeError>(
            (text, tail),
        ),
{
    let encoded = encode_utf8(text);
    let input = string_bytes(text) + tail;
    lemma_i16_round_trip(encoded.len() as i16, encoded + tail);
    assert(input.subrange(2, 2 + encoded.len() as int) =~= encoded);
    assert(input.skip(2 + encoded.len() as int) =~= tail);
    encode_utf8_valid_utf8(text);
    encode_utf8_decode_utf8(text);
}

/// Round trip of a commit: a key of version 0 or 1 together with a value that
/// carries an offset decodes to the commit of exactly the group, topic,
/// partition and offset that were written, whatever trails the offset.
pub proof fn law_set_commit_round_trip(
    version: i16,
    group: Seq<char>,
    topic: Seq<char>,
    partition: i32,
    schema: i16,
    offset: i64,
    trailing: Seq<u8>,
)
    requires
        version == 0 || version == 1,
        fits_string_field(group),
        fits_string_field(topic),
    ensures
        record_update(
            commit_key(version, group, topic, partition),
            commit_value(schema, offset, trailing),
        ) == Ok::<UpdateModel, DecodeError>(
            UpdateModel::SetCommit { group, topic, partition, offset },
        ),
{
    let key = commit_key(version, group, topic, partition);
    let value = commit_value(schema, offset, trailing);
    lemma_commit_key_fields(version, group, topic, partition);
    lemma_i16_round_trip(schema, be_bytes_i64(offset) + trailing);
    lemma_i64_round_trip(offset, trailing);
}

/// Tombstone: the same key with an empty value decodes to the withdrawal of the
/// commit for the group, topic and partition that were written.
pub proof fn law_tombstone_deletes(version: i16, group: Seq<char>, topic: Seq<char>, partition: i32)
    requires
        version == 0 || version == 1,
        fits_string_field(group),
        fits_string_field(topic),
    ensures
        record_update(commit_key(version, group, topic, partition), Seq::<u8>::empty()) == Ok::<
            UpdateModel,
            DecodeError,
        >(UpdateModel::DeleteCommit { group, topic, partition }),
{
    lemma_commit_key_fields(version, group, topic, partition);
}

/// A key of version 2 decodes to group metadata, whatever follows the version
/// in the key and whatever the value holds, an empty value included.
pub proof fn law_metadata_needs_no_value(rest_of_key: Seq<u8>, value: Seq<u8>)
    ensures
        record_update(be_bytes_i16(2) + rest_of_key, value) == Ok::<UpdateModel, DecodeError>(
            UpdateModel::Metadata,
        ),
{
    lemma_i16_round_trip(2, rest_of_key);
}

/// A key whose version is none of 0, 1 and 2 is refused as unsupported,
/// whatever follows the version in the key and whatever the value holds.
pub proof fn law_unknown_version_is_refused(version: i16, rest_of_key: Seq<u8>, value: Seq<u8>)
    requires
        version != 0 && version != 1 && version != 2,
    ensures
        record_update(be_bytes_i16(version) + rest_of_key, value) == Err::<
            UpdateModel,
            DecodeError,
        >(DecodeError::UnsupportedVersion),
{
    lemma_i16_round_trip(version, rest_of_key);
}

proof fn lemma_commit_key_fields(version: i16, group: Seq<char>, topic: Seq<char>, partition: i32)
    requires
        fits_string_field(group),
        fits_string_field(topic),
    ensures
        commit_key(version, group, topic, partition).len() >= 2,
        be_i16(commit_key(version, group, topic, partition)) == version,
        string_field(commit_key(version, group, topic, partition).skip(2)) == Ok::<
            (Seq<char>, Seq<u8>),
            DecodeError,
        >((group, string_bytes(topic) + be_bytes_i32(partition))),
        string_field(string_bytes(topic) + be_bytes_i32(partition)) == Ok::<
            (Seq<char>, Seq<u8>),
            DecodeError,
        >((topic, be_bytes_i32(partition))),
        be_bytes_i32(partition).len() == 4,
        be_i32(be_bytes_i32(partition)) == partition,
{
    let after_topic = be_bytes_i32(partition);
    let after_group = string_bytes(topic) + after_topic;
    let after_version = string_bytes(group) + after_group;
    lemma_i16_round_trip(version, after_version);
    lemma_string_field_round_trip(group, after_group);
    lemma_string_field_round_trip(topic, after_topic);
    lemma_i32_round_trip(partition, Seq::<u8>::empty());
}

} // verus!
