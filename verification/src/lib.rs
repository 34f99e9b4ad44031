//! The read path of a sharded flat-file key-value store.
//!
//! A key names one data file below a root directory. The file lives in a
//! subdirectory, the shard, whose name is cut out of the key by the store's
//! sharding strategy. The strategy is recorded once in a sentinel file in the
//! root. This crate holds the rules: how a shard is derived, how the sentinel is
//! written and read, and which path a key resolves to. It touches no file
//! itself; the caller performs the reads and writes that these functions ask for.

pub mod config;
pub mod decimal;
pub mod error;
pub mod path;
pub mod shard;
pub mod store;
pub mod text;

pub use error::{Notfound, StoreError};
pub use shard::Shard;
pub use store::{Datastore, RootState};
