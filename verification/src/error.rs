//! What can go wrong in opening a store or in looking up a key.
//!
//! A lookup fails in one way only, with [`Notfound`]. Everything else is a
//! [`StoreError`].

use vstd::prelude::*;
use vstd::string::*;

verus! {

/// No data was found for a key. Holds the key that was asked for.
#[derive(Debug, PartialEq, Eq)]
pub struct Notfound(pub String);

impl Notfound {
    /// The report for a missing `key`, as one line of text.
    pub open spec fn report(key: Seq<char>) -> Seq<char> {
        "datastore: key ["@ + key + "] not found."@
    }

    /// The key that was asked for.
    pub fn key(&self) -> (key: &String)
        ensures
            key == self.0,
    {
        &self.0
    }

    /// A line of text that names the missing key.
    pub fn message(&self) -> (line: String)
        ensures
            line@ == Self::report(self.0@),
    {
        "datastore: key [".to_owned().concat(self.0.as_str()).concat("] not found.")
    }
}

/// Why a store could not be opened, or a key has no shard.
#[derive(Debug, PartialEq, Eq, Structural, Clone, Copy)]
pub enum StoreError {
    /// The sentinel names a sharding kind that does not exist.
    UnknownShardKind,
    /// The sentinel does not have the form of a configuration line.
    CorruptConfig,
    /// The root directory is neither there nor could it be created.
    StoreInitError,
    /// The key is too short to cut the shard out of it.
    InvalidKey,
}

} // verus!
