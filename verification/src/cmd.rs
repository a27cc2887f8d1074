//! The decisions behind each command of the command line.

pub mod config;
pub mod consume;
pub mod create;
pub mod delete;
pub mod get_consumer_groups;
pub mod get_topic;
pub mod produce;
pub mod root;
pub mod table;
