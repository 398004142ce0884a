//! A download engine that splits a resource into byte ranges.

pub mod checksum;
pub mod cli;
pub mod coordinator;
pub mod error;
pub mod fetch;
pub mod human;
pub mod job;
pub mod merge;
pub mod naming;
pub mod progress;
pub mod range;
pub mod single;
pub mod text;
