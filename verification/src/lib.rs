//! Verified core of a benchmark harness for channels over blob and metadata stores.
use vstd::prelude::*;

pub mod binary64;
pub mod blob_sweep;
pub mod channel;
pub mod channel_sweep;
pub mod cli;
pub mod config;
pub mod datapoints;
pub mod dispatch;
pub mod environment;
pub mod latency;
pub mod metadata_sweep;
pub mod naming;
pub mod native;
pub mod order;
pub mod paced;
pub mod participants;
pub mod payload;
pub mod protocol;
pub mod put_sweep;
pub mod report;
pub mod requests;
pub mod resources;
pub mod retry;
pub mod roles;
pub mod staging;
pub mod state;
pub mod stores;
pub mod summary;
pub mod sweep;
pub mod table;
pub mod targets;
pub mod text;

verus! {

} // verus!
