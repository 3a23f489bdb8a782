//! A shard-per-core, in-memory key-value store.
//!
//! The keyspace is split over a fixed number of shards. Each shard owns its
//! part alone and hears from every other shard over a bounded channel of its
//! own: nothing is shared but the channels.

pub mod channel;
pub mod core_affinity;
pub mod error;
pub mod lifecycle;
pub mod node;
pub mod num_cores;
pub mod request;
pub mod shard;
pub mod worker;

pub use error::KVError;
pub use node::Node;
pub use request::{Key, Reply, Request, Value};
pub use shard::Shard;
