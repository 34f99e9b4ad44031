//! The store: a root directory and the strategy that shards it.
//!
//! The store reads and writes no file. Opening a store takes what the caller
//! found at the root and says what to write there; a lookup names the file to
//! read and takes what reading it gave.

use crate::config::{
    config_line, default_config, is_version_field, lemma_config_round_trip, lemma_default_config,
    parse_config,
};
use crate::config::{PREFIX, SHARDING, VERSION};
use crate::decimal::{parse_u8, to_decimal};
use crate::error::{Notfound, StoreError};
use crate::path::{child, join_path};
use crate::shard::Shard;
use crate::text::{join, split_three, strip_prefix};
use vstd::prelude::*;
use vstd::string::*;

verus! {

/// The extension of a data file.
pub const EXT: &'static str = "data";

/// What the caller found at the root when it opened the store.
#[derive(Debug, PartialEq, Eq)]
pub enum RootState {
    /// The root is no directory and could not be created.
    Unusable,
    /// The root is a directory, found or just created, and no sentinel could
    /// be read in it.
    Fresh,
    /// The root is a directory with a sentinel, whose content this is.
    Configured(String),
}

/// A store of data files under a root directory.
#[derive(Debug, PartialEq, Eq)]
pub struct Datastore {
    path: String,
    shard: Shard,
}

/// A store as its contracts see it.
pub struct DatastoreView {
    /// The root directory.
    pub path: Seq<char>,
    /// The strategy that shards the root.
    pub shard: Shard,
}

impl DatastoreView {
    /// The path of the data file of `key`: the file named after the key, with
    /// the data extension, in the key's shard below the root. `None` where the
    /// key is too short for the strategy.
    pub open spec fn data_file(self, key: Seq<char>) -> Option<Seq<char>> {
        match self.shard.dir_name(key) {
            Some(dir) => Some(child(child(self.path, dir), key).push('.') + EXT@),
            None => None,
        }
    }

    /// What a lookup of `key` comes to, given the content of the key's data
    /// file where one could be read: that content, unless the key is too short
    /// to have a data file.
    pub open spec fn lookup(self, key: String, content: Option<Vec<u8>>) -> Result<
        Vec<u8>,
        Notfound,
    > {
        match (self.data_file(key@), content) {
            (Some(_), Some(bytes)) => Ok(bytes),
            _ => Err(Notfound(key)),
        }
    }
}

impl View for Datastore {
    type V = DatastoreView;

    closed spec fn view(&self) -> DatastoreView {
        DatastoreView { path: self.path@, shard: self.shard }
    }
}

impl Datastore {
    /// What opening the root `path` comes to, given what was found there: the
    /// store, and the line to write into the sentinel file, if any.
    ///
    /// - An unusable root fails with `StoreInitError`.
    /// - A fresh root gives the default strategy, and its line is to be written.
    /// - A configured root gives the strategy that its sentinel records, and
    ///   nothing is written; a sentinel that records none fails as it does in
    ///   [`parse_config`].
    pub open spec fn opened(path: Seq<char>, root: RootState) -> Result<
        (DatastoreView, Option<Seq<char>>),
        StoreError,
    > {
        match root {
            RootState::Unusable => Err(StoreError::StoreInitError),
            RootState::Fresh => Ok(
                (DatastoreView { path, shard: Shard::standard() }, Some(default_config())),
            ),
            RootState::Configured(line) => match parse_config(line@) {
                Ok(shard) => Ok((DatastoreView { path, shard }, None)),
                Err(e) => Err(e),
            },
        }
    }

    /// Opening a root again gives the same store and writes nothing.
    ///
    /// `first` is any state in which the root can be opened. `second` is the
    /// state in which that leaves it: configured, the sentinel holding what the
    /// first opening asked to write or, where it asked for nothing, what it
    /// held before.
    pub proof fn lemma_reopen(path: Seq<char>, first: RootState, second: RootState)
        requires
            Self::opened(path, first) is Ok,
            second matches RootState::Configured(line) && line@ == (match first {
                RootState::Configured(before) => before@,
                _ => Self::opened(path, first)->Ok_0.1->0,
            }),
        ensures
            Self::opened(path, second) == Ok::<(DatastoreView, Option<Seq<char>>), StoreError>(
                (Self::opened(path, first)->Ok_0.0, None),
            ),
    {
        lemma_default_config();
    }

    /// A root whose sentinel holds the line written for a strategy opens with
    /// that strategy, and nothing is written.
    pub proof fn lemma_open_configured(
        path: Seq<char>,
        version: nat,
        shard: Shard,
        root: RootState,
    )
        requires
            root matches RootState::Configured(line) && line@ == config_line(version, shard),
        ensures
            Self::opened(path, root) == Ok::<(DatastoreView, Option<Seq<char>>), StoreError>(
                (DatastoreView { path, shard }, None),
            ),
    {
        lemma_config_round_trip(version, shard);
    }

    /// Reads a configuration line.
    ///
    /// Fails with `CorruptConfig` where the line has not the form of one, and
    /// with `UnknownShardKind` where it has and names no kind.
    pub fn parse_shard(sharding: String) -> (shard: Result<Shard, StoreError>)
        ensures
            shard == parse_config(sharding@),
    {
        let rest = match strip_prefix(sharding.as_str(), PREFIX) {
            Some(rest) => rest,
            None => return Err(StoreError::CorruptConfig),
        };
        let (version, kind, length) = match split_three(rest, '/') {
            Some(fields) => fields,
            None => return Err(StoreError::CorruptConfig),
        };
        if !is_version_field(version) {
            return Err(StoreError::CorruptConfig);
        }
        match parse_u8(length) {
            Some(n) => Shard::new(kind, n),
            None => Err(StoreError::CorruptConfig),
        }
    }

    /// Writes the configuration line for a strategy, under a version.
    pub fn format_shard(version: u64, shard: &Shard) -> (line: String)
        ensures
            line@ == config_line(version as nat, *shard),
    {
        let number = to_decimal(version);
        let length = to_decimal(shard.length() as u64);
        let line = PREFIX.to_owned().concat("v").concat(number.as_str()).concat("/").concat(
            shard.name(),
        ).concat("/").concat(length.as_str());
        proof {
            reveal_strlit("v");
            reveal_strlit("/");
            let fields = seq![seq!['v'] + number@, shard.kind_name(), length@];
            assert(fields.drop_last() =~= seq![fields[0], fields[1]]);
            assert(fields.drop_last().drop_last() =~= seq![fields[0]]);
            assert(join(fields, '/') =~= fields[0].push('/') + fields[1] + seq!['/'] + fields[2])
                by {
                reveal_with_fuel(join, 3);
            }
            assert(line@ =~= config_line(version as nat, *shard));
        }
        line
    }

    /// The path of the sentinel file of the root `path`.
    pub fn sharding_path(path: &str) -> (file: String)
        ensures
            file@ == child(path@, SHARDING@),
    {
        join_path(path, SHARDING)
    }

    /// Opens the store at the root `path`, given what was found there.
    ///
    /// Returns the store together with the line that the caller is to write
    /// into the sentinel file, if there is one to write. The store is good
    /// whether or not that write succeeds.
    pub fn new(path: String, root: RootState) -> (made: Result<
        (Datastore, Option<String>),
        StoreError,
    >)
        ensures
            match Self::opened(path@, root) {
                Ok((store, line)) => made matches Ok((s, l)) && s@ == store && l.deep_view()
                    == line,
                Err(e) => made matches Err(x) && x == e,
            },
    {
        match root {
            RootState::Unusable => Err(StoreError::StoreInitError),
            RootState::Fresh => {
                let shard = Shard::default();
                let line = Self::format_shard(VERSION, &shard);
                Ok((Datastore { path, shard }, Some(line)))
            },
            RootState::Configured(line) => match Self::parse_shard(line) {
                Ok(shard) => Ok((Datastore { path, shard }, None)),
                Err(e) => Err(e),
            },
        }
    }

    /// The root directory.
    pub fn path(&self) -> (path: &String)
        ensures
            path@ == self@.path,
    {
        &self.path
    }

    /// The strategy that shards the root.
    pub fn shard(&self) -> (shard: Shard)
        ensures
            shard == self@.shard,
    {
        self.shard
    }

    /// The path of the data file of `key`.
    ///
    /// Fails with `InvalidKey` exactly where the key is too short for the
    /// store's strategy.
    pub fn data_path(&self, key: &String) -> (file: Result<String, StoreError>)
        ensures
            match self@.data_file(key@) {
                Some(f) => file matches Ok(p) && p@ == f,
                None => file matches Err(StoreError::InvalidKey),
            },
    {
        let dir = match self.shard.get_dir_name(key) {
            Ok(dir) => dir,
            Err(e) => return Err(e),
        };
        let shard_dir = join_path(self.path.as_str(), dir.as_str());
        let file = join_path(shard_dir.as_str(), key.as_str());
        proof {
            reveal_strlit(".");
            assert(file@ + "."@ =~= file@.push('.'));
        }
        Ok(file.concat(".").concat(EXT))
    }

    /// The bytes stored under `key`, given what reading the key's data file
    /// gave: its whole content, or `None` where it could not be read.
    ///
    /// Returns the content as it is. Fails with `Notfound`, holding the key,
    /// where there is no content, and where the key is too short for the
    /// strategy: such a key has no data file, whatever was read.
    pub fn get(&self, key: String, content: Option<Vec<u8>>) -> (found: Result<Vec<u8>, Notfound>)
        ensures
            found == self@.lookup(key, content),
    {
        match self.shard.get_dir_name(&key) {
            Err(_) => Err(Notfound(key)),
            Ok(_) => match content {
                Some(bytes) => Ok(bytes),
                None => Err(Notfound(key)),
            },
        }
    }
}

} // verus!
