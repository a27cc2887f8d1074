//! Everything that speaks about data coming from, or going to, a Kafka cluster.

pub mod consumer;
pub mod consumer_group;
pub mod kafky_client;
pub mod metadata;
pub mod offset_record;
pub mod offsets;
pub mod watermark;
pub mod wire;
