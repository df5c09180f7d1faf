//! Verified core of a bandwidth-efficient SQLite page synchroniser and its
//! highly available SQL gateway.
pub mod batch;
pub mod cli;
pub mod client;
pub mod db;
pub mod endpoint;
pub mod error;
pub mod gateway;
pub mod ha;
pub mod hash;
pub mod ip;
pub mod kv_text;
pub mod proto;
pub mod protocol;
pub mod rpc;
pub mod run;
pub mod sort;
pub mod ssh;
pub mod text;
pub mod time;
pub mod tuning;

pub use tuning::SyncTuning;
