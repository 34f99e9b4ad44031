//! The configuration line that the sentinel file of a root holds.
//!
//! The line is the fixed tag [`PREFIX`], then three fields with `/` between
//! them: `v` and a version numeral, the name of the sharding kind, and the
//! shard length as a numeral. Nothing stands before or after it, no line end
//! either.

use crate::decimal::{decimal, is_numeral, is_numeral_text, lemma_decimal_value, numeral_u8};
use crate::error::StoreError;
use crate::shard::Shard;
use crate::text::{free_of, join, lemma_join_split, split, strip_prefix};
use vstd::prelude::*;
use vstd::string::*;

verus! {

/// The tag that every configuration line begins with.
pub const PREFIX: &'static str = "/repo/flatfs/shard/";

/// The name of the sentinel file in a root.
pub const SHARDING: &'static str = "SHARDING";

/// The version that a newly written configuration line carries.
pub const VERSION: u64 = 1;

/// Whether `field` is a version field: `v`, then a numeral.
pub open spec fn is_version(field: Seq<char>) -> bool {
    field.len() > 0 && field[0] == 'v' && is_numeral(field.skip(1))
}

/// The strategy that a configuration line records.
///
/// The line is corrupt unless it begins with the tag, what follows the tag has
/// exactly three fields, the first is a version field and the third a numeral
/// for a number up to 255. The version's number is not looked at. The second
/// field must then name a kind.
pub open spec fn parse_config(line: Seq<char>) -> Result<Shard, StoreError> {
    let fields = split(line.skip(PREFIX@.len() as int), '/');
    if PREFIX@.is_prefix_of(line) && fields.len() == 3 && is_version(fields[0]) && numeral_u8(
        fields[2],
    ) is Some {
        Shard::named(fields[1], numeral_u8(fields[2])->0)
    } else {
        Err(StoreError::CorruptConfig)
    }
}

/// The configuration line for a strategy, under a version.
pub open spec fn config_line(version: nat, shard: Shard) -> Seq<char> {
    PREFIX@ + join(
        seq![
            seq!['v'] + decimal(version),
            shard.kind_name(),
            decimal(shard.shard_length() as nat),
        ],
        '/',
    )
}

/// The line written into a root that has no sentinel yet.
pub open spec fn default_config() -> Seq<char> {
    config_line(VERSION as nat, Shard::standard())
}

/// A numeral holds no `/`.
proof fn lemma_numeral_no_slash(s: Seq<char>)
    requires
        is_numeral(s),
    ensures
        !s.contains('/'),
{
}

/// Every strategy is read back from the line written for it, whatever the
/// version.
pub proof fn lemma_config_round_trip(version: nat, shard: Shard)
    ensures
        parse_config(config_line(version, shard)) == Ok::<Shard, StoreError>(shard),
{
    let v = seq!['v'] + decimal(version);
    let k = shard.kind_name();
    let n = decimal(shard.shard_length() as nat);
    let fields = seq![v, k, n];
    let line = config_line(version, shard);
    lemma_decimal_value(version);
    lemma_decimal_value(shard.shard_length() as nat);
    lemma_numeral_no_slash(decimal(version));
    lemma_numeral_no_slash(n);
    assert(v.skip(1) =~= decimal(version));
    assert(!v.contains('/')) by {
        assert forall|i: int| 0 <= i < v.len() implies v[i] != '/' by {
            if i > 0 {
                assert(v[i] == decimal(version)[i - 1]);
            }
        }
    }
    assert(!k.contains('/')) by {
        reveal_strlit("next-to-last");
        reveal_strlit("suffix");
        reveal_strlit("prefix");
    }
    assert(free_of(fields, '/'));
    lemma_join_split(fields, '/');
    assert(line.skip(PREFIX@.len() as int) =~= join(fields, '/'));
    shard.lemma_named_kind();
}

/// The default line records the default strategy.
pub proof fn lemma_default_config()
    ensures
        parse_config(default_config()) == Ok::<Shard, StoreError>(Shard::standard()),
{
    lemma_config_round_trip(VERSION as nat, Shard::standard());
}

/// Whether `field` is a version field.
pub fn is_version_field(field: &str) -> (ok: bool)
    ensures
        ok == is_version(field@),
{
    proof {
        reveal_strlit("v");
        if field@.len() > 0 {
            assert("v"@ =~= field@.subrange(0, 1) <==> field@[0] == 'v') by {
                assert(field@.subrange(0, 1)[0] == field@[0]);
            }
        }
    }
    match strip_prefix(field, "v") {
        Some(number) => is_numeral_text(number),
        None => false,
    }
}

} // verus!
