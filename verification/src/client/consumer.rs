//! The streaming consumption engine: what is consumed, how messages are read,
//! and the decisions of the consumption loop.
//!
//! The loop itself waits for the cluster, for a clock and for a stop signal,
//! and so it runs outside this library. Around every wait it asks the
//! functions of this module what to do next: whether to go on before a fetch,
//! what to hand to the handler after one, and how the consumption ends.

use crate::client::offset_record::DecodeError;
use crate::client::wire::text_of;
use crate::errors::KafkyError;
use crate::text::same_text;
use vstd::prelude::*;
use vstd::string::StringExecFns;
use vstd::utf8::{decode_utf8, valid_utf8};

verus! {

/// Where a consumer without a committed offset starts to read.
#[derive(Debug, Clone, Copy, PartialEq, Eq, Structural)]
pub enum KafkyConsumerOffset {
    /// From the first message that the cluster still holds.
    Beginning,
    /// From the earliest offset that is available.
    Earliest,
    /// From the messages that arrive after the consumer has joined.
    Latest,
}

impl KafkyConsumerOffset {
    /// The name by which the policy is chosen.
    pub open spec fn name(self) -> Seq<char> {
        match self {
            KafkyConsumerOffset::Beginning => "beginning"@,
            KafkyConsumerOffset::Earliest => "earliest"@,
            KafkyConsumerOffset::Latest => "latest"@,
        }
    }

    /// The value of the broker's `auto.offset.reset` setting that the policy
    /// stands for. Brokers know no policy of their own for the beginning: it is
    /// their earliest offset.
    pub open spec fn broker_name(self) -> Seq<char> {
        match self {
            KafkyConsumerOffset::Beginning => "earliest"@,
            KafkyConsumerOffset::Earliest => "earliest"@,
            KafkyConsumerOffset::Latest => "latest"@,
        }
    }

    /// The policy that is called `name`, if there is one.
    pub open spec fn named(name: Seq<char>) -> Option<KafkyConsumerOffset> {
        if name == "beginning"@ {
            Some(KafkyConsumerOffset::Beginning)
        } else if name == "earliest"@ {
            Some(KafkyConsumerOffset::Earliest)
        } else if name == "latest"@ {
            Some(KafkyConsumerOffset::Latest)
        } else {
            None
        }
    }

    /// The names of all policies.
    pub fn values_str() -> (names: Vec<&'static str>)
        ensures
            names@.len() == 3,
            names@[0]@ == KafkyConsumerOffset::Beginning.name(),
            names@[1]@ == KafkyConsumerOffset::Earliest.name(),
            names@[2]@ == KafkyConsumerOffset::Latest.name(),
    {
        let mut names: Vec<&'static str> = Vec::new();
        names.push(KafkyConsumerOffset::Beginning.as_str());
        names.push(KafkyConsumerOffset::Earliest.as_str());
        names.push(KafkyConsumerOffset::Latest.as_str());
        names
    }

    /// The name by which the policy is chosen.
    pub fn as_str(&self) -> (name: &'static str)
        ensures
            name@ == self.name(),
    {
        match self {
            KafkyConsumerOffset::Beginning => "beginning",
            KafkyConsumerOffset::Earliest => "earliest",
            KafkyConsumerOffset::Latest => "latest",
        }
    }

    /// The value of the broker's `auto.offset.reset` setting for the policy.
    pub fn broker_value(&self) -> (name: &'static str)
        ensures
            name@ == self.broker_name(),
    {
        match self {
            KafkyConsumerOffset::Beginning => "earliest",
            KafkyConsumerOffset::Earliest => "earliest",
            KafkyConsumerOffset::Latest => "latest",
        }
    }

    /// The policy that is called `name`.
    pub fn from_str(name: &str) -> (r: Result<KafkyConsumerOffset, KafkyError>)
        ensures
            match KafkyConsumerOffset::named(name@) {
                Some(policy) => r == Ok::<KafkyConsumerOffset, KafkyError>(policy),
                None => r matches Err(KafkyError::InvalidOffset()),
            },
    {
        if same_text(name, "beginning") {
            Ok(KafkyConsumerOffset::Beginning)
        } else if same_text(name, "earliest") {
            Ok(KafkyConsumerOffset::Earliest)
        } else if same_text(name, "latest") {
            Ok(KafkyConsumerOffset::Latest)
        } else {
            Err(KafkyError::InvalidOffset())
        }
    }
}

/// What to consume, and as whom.
#[derive(Debug, Clone, PartialEq, Eq)]
pub struct KafkyConsumeProperties {
    pub topics: Vec<String>,
    pub consumer_group: String,
    pub offset: KafkyConsumerOffset,
    pub auto_commit: bool,
}

/// A message as the cluster delivered it. A message without a value has an
/// empty payload.
#[derive(Debug, Clone, PartialEq, Eq)]
pub struct RawMessage {
    pub topic: String,
    pub partition: i32,
    pub offset: i64,
    pub key: Option<Vec<u8>>,
    pub payload: Vec<u8>,
    /// Milliseconds since the epoch, where the cluster gave a time.
    pub timestamp: Option<i64>,
}

/// How the bytes of keys and payloads are read.
#[derive(Debug, Clone, Copy, PartialEq, Eq, Structural)]
pub enum PayloadFormat {
    /// As they are.
    Bytes,
    /// As UTF-8 text.
    Text,
}

/// A key or a payload, read in one of the formats.
#[derive(Debug, Clone, PartialEq, Eq)]
pub enum Payload {
    Bytes(Vec<u8>),
    Text(String),
}

/// What a [`Payload`] holds.
pub ghost enum PayloadModel {
    Bytes(Seq<u8>),
    Text(Seq<char>),
}

impl View for Payload {
    type V = PayloadModel;

    open spec fn view(&self) -> PayloadModel {
        match self {
            Payload::Bytes(bytes) => PayloadModel::Bytes(bytes@),
            Payload::Text(text) => PayloadModel::Text(text@),
        }
    }
}

impl PayloadModel {
    /// The bytes that stand for the payload on the wire.
    pub open spec fn wire_bytes(self) -> Seq<u8> {
        match self {
            PayloadModel::Bytes(bytes) => bytes,
            PayloadModel::Text(text) => vstd::utf8::encode_utf8(text),
        }
    }
}

impl Payload {
    /// The bytes that stand for the payload on the wire.
    pub fn as_bytes(&self) -> (bytes: &[u8])
        ensures
            bytes@ == self@.wire_bytes(),
    {
        match self {
            Payload::Bytes(bytes) => bytes.as_slice(),
            Payload::Text(text) => text.as_str().as_bytes(),
        }
    }
}

/// `bytes` read in `format`: text only where the bytes are well-formed UTF-8.
pub open spec fn read_as(bytes: Seq<u8>, format: PayloadFormat) -> Option<PayloadModel> {
    match format {
        PayloadFormat::Bytes => Some(PayloadModel::Bytes(bytes)),
        PayloadFormat::Text => if valid_utf8(bytes) {
            Some(PayloadModel::Text(decode_utf8(bytes)))
        } else {
            None
        },
    }
}

/// Reads `bytes` in `format`.
pub fn read_payload(bytes: Vec<u8>, format: PayloadFormat) -> (payload: Option<Payload>)
    ensures
        match read_as(bytes@, format) {
            Some(model) => payload matches Some(read) && read@ == model,
            None => payload is None,
        },
{
    match format {
        PayloadFormat::Bytes => Some(Payload::Bytes(bytes)),
        PayloadFormat::Text => match text_of(bytes.as_slice()) {
            Some(text) => Some(Payload::Text(String::from_str(text))),
            None => None,
        },
    }
}

/// A message whose key and payload were read in the format that the consumer asked for.
#[derive(Debug, Clone, PartialEq, Eq)]
pub struct KafkyConsumerMessage {
    key: Option<Payload>,
    topic: String,
    payload: Payload,
    partition: i32,
    offset: i64,
    timestamp: Option<i64>,
}

/// What a [`KafkyConsumerMessage`] holds.
pub ghost struct MessageModel {
    pub key: Option<PayloadModel>,
    pub topic: Seq<char>,
    pub payload: PayloadModel,
    pub partition: i32,
    pub offset: i64,
    pub timestamp: Option<i64>,
}

impl View for KafkyConsumerMessage {
    type V = MessageModel;

    closed spec fn view(&self) -> MessageModel {
        MessageModel {
            key: match self.key {
                Some(key) => Some(key@),
                None => None,
            },
            topic: self.topic@,
            payload: self.payload@,
            partition: self.partition,
            offset: self.offset,
            timestamp: self.timestamp,
        }
    }
}

impl KafkyConsumerMessage {
    /// The key of the message, if it has one that could be read.
    pub fn key(&self) -> (key: Option<&Payload>)
        ensures
            match self@.key {
                Some(model) => key matches Some(read) && read@ == model,
                None => key is None,
            },
    {
        match &self.key {
            Some(key) => Some(key),
            None => None,
        }
    }

    /// The payload of the message.
    pub fn payload(&self) -> (payload: &Payload)
        ensures
            payload@ == self@.payload,
    {
        &self.payload
    }

    /// The time of the message in milliseconds since the epoch, where the cluster gave one.
    pub fn timestamp(&self) -> (timestamp: Option<i64>)
        ensures
            timestamp == self@.timestamp,
    {
        self.timestamp
    }

    /// The topic that the message came from.
    pub fn topic(&self) -> (topic: &str)
        ensures
            topic@ == self@.topic,
    {
        self.topic.as_str()
    }

    /// The partition that the message came from.
    pub fn partition(&self) -> (partition: i32)
        ensures
            partition == self@.partition,
    {
        self.partition
    }

    /// The offset of the message within its partition.
    pub fn offset(&self) -> (offset: i64)
        ensures
            offset == self@.offset,
    {
        self.offset
    }
}

/// The message that `raw` becomes when it is read in `format`, or nothing
/// where its payload cannot be read so. A key that cannot be read is left out
/// of the message.
pub open spec fn message_of(raw: RawMessage, format: PayloadFormat) -> Option<MessageModel> {
    match read_as(raw.payload@, format) {
        None => None,
        Some(payload) => Some(
            MessageModel {
                key: match raw.key {
                    Some(key) => read_as(key@, format),
                    None => None,
                },
                topic: raw.topic@,
                payload,
                partition: raw.partition,
                offset: raw.offset,
                timestamp: raw.timestamp,
            },
        ),
    }
}

/// Reads a delivered message in `format`. A payload that cannot be read so
/// makes the message a decode error.
pub fn process_message(raw: RawMessage, format: PayloadFormat) -> (r: Result<
    KafkyConsumerMessage,
    KafkyError,
>)
    ensures
        match message_of(raw, format) {
            Some(model) => r matches Ok(message) && message@ == model,
            None => r matches Err(error) && DecodeError::InvalidUtf8.reported(error),
        },
{
    let RawMessage { topic, partition, offset, key, payload, timestamp } = raw;
    let payload = match read_payload(payload, format) {
        Some(payload) => payload,
        None => {
            return Err(DecodeError::InvalidUtf8.into_error());
        },
    };
    let key = match key {
        Some(key) => read_payload(key, format),
        None => None,
    };
    Ok(KafkyConsumerMessage { key, topic, payload, partition, offset, timestamp })
}

/// What one attempt to get the next message gave.
#[derive(Debug, Clone, PartialEq, Eq)]
pub enum Fetched {
    /// A message.
    Message(RawMessage),
    /// Nothing yet: a poll that ran out of its short wait.
    Nothing,
    /// A failure of the connection, with what the cluster or the client said of it.
    Failed(String),
}

/// Why a consumption ended.
#[derive(Debug, Clone, PartialEq, Eq)]
pub enum StopReason {
    /// The handler asked to stop.
    HandlerStopped,
    /// The time that the caller allowed has run out.
    TimedOut,
    /// The caller's stop signal fired.
    Cancelled,
    /// The connection failed.
    BrokerFailed(String),
}

/// What the loop does with the outcome of a fetch.
#[derive(Debug, PartialEq, Eq)]
pub enum Delivery {
    /// Hand this to the handler, and go by its answer.
    Handle(Result<KafkyConsumerMessage, KafkyError>),
    /// Nothing to hand over: fetch again.
    FetchAgain,
    /// End the consumption.
    Stop(StopReason),
}

/// Whether the time that has passed has used up the time allowed. Without a
/// limit, time never runs out.
pub open spec fn out_of_time(timeout_sec: Option<u64>, elapsed_ms: u128) -> bool {
    timeout_sec matches Some(limit) && elapsed_ms >= limit * 1000
}

/// Decides, before a fetch, whether the consumption ends here. The stop signal
/// is looked at first, the clock second.
pub fn before_fetch(timeout_sec: Option<u64>, elapsed_ms: u128, cancelled: bool) -> (stop: Option<
    StopReason,
>)
    ensures
        stop == if cancelled {
            Some(StopReason::Cancelled)
        } else if out_of_time(timeout_sec, elapsed_ms) {
            Some(StopReason::TimedOut)
        } else {
            None::<StopReason>
        },
{
    if cancelled {
        return Some(StopReason::Cancelled);
    }
    match timeout_sec {
        Some(limit) => {
            let limit_ms: u128 = limit as u128 * 1000;
            if elapsed_ms >= limit_ms {
                Some(StopReason::TimedOut)
            } else {
                None
            }
        },
        None => None,
    }
}

/// Decides what the loop does with the outcome of a fetch: a message goes to
/// the handler, read in `format` or as the decode error that reading it gave;
/// an empty poll leads to the next fetch; a failure of the connection ends
/// the consumption.
pub fn after_fetch(fetched: Fetched, format: PayloadFormat) -> (delivery: Delivery)
    ensures
        match fetched {
            Fetched::Message(raw) => match message_of(raw, format) {
                Some(model) => delivery matches Delivery::Handle(Ok(message)) && message@ == model,
                None => delivery matches Delivery::Handle(Err(error))
                    && DecodeError::InvalidUtf8.reported(error),
            },
            Fetched::Nothing => delivery matches Delivery::FetchAgain,
            Fetched::Failed(cause) => delivery matches Delivery::Stop(
                StopReason::BrokerFailed(text),
            ) && text@ == cause@,
        },
{
    match fetched {
        Fetched::Message(raw) => Delivery::Handle(process_message(raw, format)),
        Fetched::Nothing => Delivery::FetchAgain,
        Fetched::Failed(cause) => Delivery::Stop(StopReason::BrokerFailed(cause)),
    }
}

/// Decides, from the handler's answer, whether the consumption ends here.
pub fn after_handler(keep_going: bool) -> (stop: Option<StopReason>)
    ensures
        stop == if keep_going {
            None::<StopReason>
        } else {
            Some(StopReason::HandlerStopped)
        },
{
    if keep_going {
        None
    } else {
        Some(StopReason::HandlerStopped)
    }
}

/// What the consumption returns to its caller: the failure of the connection
/// as an error, any other end as success.
pub fn consume_result(reason: StopReason) -> (r: Result<(), KafkyError>)
    ensures
        match reason {
            StopReason::BrokerFailed(cause) => r matches Err(KafkyError::KafkaError(text)) && text@
                == cause@,
            _ => r is Ok,
        },
{
    match reason {
        StopReason::BrokerFailed(cause) => Err(KafkyError::KafkaError(cause)),
        _ => Ok(()),
    }
}

} // verus!
