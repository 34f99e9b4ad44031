//! The sharding strategy: which subdirectory of the root holds a key's file.

use crate::error::StoreError;
use crate::text::same_text;
use vstd::prelude::*;
use vstd::string::*;

verus! {

/// A sharding strategy: its kind, and the shard length it was configured with.
///
/// Lengths and positions count characters of the key, not bytes.
#[derive(Debug, PartialEq, Eq, Structural, Clone, Copy)]
pub enum Shard {
    /// The key without its first character. The length is recorded and plays
    /// no part in the derivation.
    Suffix(u8),
    /// The first characters of the key, as many as the length says.
    Prefix(u8),
    /// The characters just before the key's last one, as many as the length says.
    NextToLast(u8),
}

impl Default for Shard {
    /// The strategy of a root that has no sentinel yet.
    fn default() -> (shard: Shard)
        ensures
            shard == Shard::standard(),
    {
        Shard::NextToLast(2)
    }
}

impl Shard {
    /// The strategy of a root that has no sentinel yet: `NextToLast(2)`.
    pub open spec fn standard() -> Shard {
        Shard::NextToLast(2)
    }

    /// The strategy that a kind name and a length stand for. The kinds are
    /// `prefix`, `suffix` and `next-to-last`; any other name is unknown.
    pub open spec fn named(name: Seq<char>, length: u8) -> Result<Shard, StoreError> {
        if name == "next-to-last"@ {
            Ok(Shard::NextToLast(length))
        } else if name == "suffix"@ {
            Ok(Shard::Suffix(length))
        } else if name == "prefix"@ {
            Ok(Shard::Prefix(length))
        } else {
            Err(StoreError::UnknownShardKind)
        }
    }

    /// The name of the strategy's kind.
    pub open spec fn kind_name(self) -> Seq<char> {
        match self {
            Shard::Suffix(_) => "suffix"@,
            Shard::Prefix(_) => "prefix"@,
            Shard::NextToLast(_) => "next-to-last"@,
        }
    }

    /// The shard length of the strategy.
    pub open spec fn shard_length(self) -> u8 {
        match self {
            Shard::Suffix(n) => n,
            Shard::Prefix(n) => n,
            Shard::NextToLast(n) => n,
        }
    }

    /// The subdirectory for `key`, or `None` where the key is too short.
    ///
    /// - `Prefix(n)`: the first `n` characters; the whole key where it has fewer.
    /// - `Suffix(_)`: all but the first character; nothing for the empty key.
    /// - `NextToLast(n)`: the `n` characters before the last one. The key must
    ///   have more than `n` characters.
    pub open spec fn dir_name(self, key: Seq<char>) -> Option<Seq<char>> {
        match self {
            Shard::Prefix(n) => Some(
                if n <= key.len() {
                    key.take(n as int)
                } else {
                    key
                },
            ),
            Shard::Suffix(_) => Some(
                if key.len() == 0 {
                    key
                } else {
                    key.skip(1)
                },
            ),
            Shard::NextToLast(n) => if key.len() <= n {
                None
            } else {
                Some(key.subrange(key.len() - n - 1, key.len() - 1))
            },
        }
    }

    /// A strategy is found again from its kind's name and its length.
    pub proof fn lemma_named_kind(self)
        ensures
            Self::named(self.kind_name(), self.shard_length()) == Ok::<Shard, StoreError>(self),
    {
        reveal_strlit("next-to-last");
        reveal_strlit("suffix");
        reveal_strlit("prefix");
        assert("suffix"@[0] != "prefix"@[0]);
    }

    /// How long a shard is: `n` characters under `NextToLast(n)`, at most `n`
    /// under `Prefix(n)`, one fewer than the key under `Suffix`. Only
    /// `NextToLast(n)` turns a key down, and only one of at most `n` characters.
    pub proof fn lemma_dir_name_len(self, key: Seq<char>)
        ensures
            match (self, self.dir_name(key)) {
                (Shard::NextToLast(n), Some(dir)) => dir.len() == n && key.len() > n,
                (Shard::NextToLast(n), None) => key.len() <= n,
                (Shard::Prefix(n), Some(dir)) => dir.len() <= n && dir.len() <= key.len(),
                (Shard::Suffix(_), Some(dir)) => dir.len() == key.len() - 1 || key.len() == 0,
                (_, None) => false,
            },
    {
    }

    /// The strategy of the kind called `shard`, with the length `shard_length`.
    /// Fails with `UnknownShardKind` on any other name than the three kinds'.
    pub fn new(shard: &str, shard_length: u8) -> (made: Result<Shard, StoreError>)
        ensures
            made == Self::named(shard@, shard_length),
    {
        if same_text(shard, "next-to-last") {
            Ok(Shard::NextToLast(shard_length))
        } else if same_text(shard, "suffix") {
            Ok(Shard::Suffix(shard_length))
        } else if same_text(shard, "prefix") {
            Ok(Shard::Prefix(shard_length))
        } else {
            Err(StoreError::UnknownShardKind)
        }
    }

    /// The name of the strategy's kind, as the sentinel writes it.
    pub fn name(&self) -> (name: &'static str)
        ensures
            name@ == self.kind_name(),
    {
        match self {
            Shard::Suffix(_) => "suffix",
            Shard::Prefix(_) => "prefix",
            Shard::NextToLast(_) => "next-to-last",
        }
    }

    /// The shard length that the strategy was configured with.
    pub fn length(&self) -> (n: u8)
        ensures
            n == self.shard_length(),
    {
        match self {
            Shard::Suffix(n) => *n,
            Shard::Prefix(n) => *n,
            Shard::NextToLast(n) => *n,
        }
    }

    /// The name of the subdirectory that holds the file of `key`.
    ///
    /// Fails with `InvalidKey` exactly where the strategy is `NextToLast(n)` and
    /// the key has no more than `n` characters.
    pub fn get_dir_name(&self, key: &String) -> (dir: Result<String, StoreError>)
        ensures
            match self.dir_name(key@) {
                Some(d) => dir matches Ok(s) && s@ == d,
                None => dir matches Err(StoreError::InvalidKey),
            },
    {
        let key = key.as_str();
        let len = key.unicode_len();
        match self {
            Shard::Suffix(_) => {
                let from: usize = if len == 0 {
                    0
                } else {
                    1
                };
                Ok(key.substring_char(from, len).to_owned())
            },
            Shard::Prefix(n) => {
                let n = *n as usize;
                let to: usize = if n <= len {
                    n
                } else {
                    len
                };
                Ok(key.substring_char(0, to).to_owned())
            },
            Shard::NextToLast(n) => {
                let n = *n as usize;
                if len <= n {
                    Err(StoreError::InvalidKey)
                } else {
                    Ok(key.substring_char(len - n - 1, len - 1).to_owned())
                }
            },
        }
    }
}

} // verus!
