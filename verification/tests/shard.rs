use flatfs::error::StoreError;
use flatfs::shard::Shard;

fn dir(shard: Shard, key: &str) -> Result<String, StoreError> {
    shard.get_dir_name(&key.to_owned())
}

#[test]
fn prefix_takes_the_first_characters() {
    assert_eq!(dir(Shard::Prefix(2), "hello"), Ok("he".to_owned()));
    assert_eq!(dir(Shard::Prefix(5), "hello"), Ok("hello".to_owned()));
    assert_eq!(dir(Shard::Prefix(0), "hello"), Ok(String::new()));
}

#[test]
fn prefix_of_a_shorter_key_is_the_whole_key() {
    assert_eq!(dir(Shard::Prefix(6), "hello"), Ok("hello".to_owned()));
    assert_eq!(dir(Shard::Prefix(255), "a"), Ok("a".to_owned()));
    assert_eq!(dir(Shard::Prefix(3), ""), Ok(String::new()));
}

#[test]
fn suffix_drops_the_first_character() {
    assert_eq!(dir(Shard::Suffix(2), "hello"), Ok("ello".to_owned()));
    assert_eq!(dir(Shard::Suffix(0), "hello"), Ok("ello".to_owned()));
    assert_eq!(dir(Shard::Suffix(200), "hello"), Ok("ello".to_owned()));
    assert_eq!(dir(Shard::Suffix(1), "h"), Ok(String::new()));
}

#[test]
fn suffix_of_the_empty_key_is_empty() {
    assert_eq!(dir(Shard::Suffix(1), ""), Ok(String::new()));
}

#[test]
fn next_to_last_takes_the_characters_before_the_last() {
    assert_eq!(dir(Shard::NextToLast(2), "BBBAAC"), Ok("AA".to_owned()));
    assert_eq!(dir(Shard::NextToLast(1), "BBBAAC"), Ok("A".to_owned()));
    assert_eq!(dir(Shard::NextToLast(0), "BBBAAC"), Ok(String::new()));
    assert_eq!(dir(Shard::NextToLast(3), "hello"), Ok("ell".to_owned()));
}

#[test]
fn next_to_last_at_the_boundary() {
    assert_eq!(dir(Shard::NextToLast(5), "BBBAAC"), Ok("BBBAA".to_owned()));
    assert_eq!(dir(Shard::NextToLast(6), "BBBAAC"), Err(StoreError::InvalidKey));
    assert_eq!(dir(Shard::NextToLast(7), "BBBAAC"), Err(StoreError::InvalidKey));
    assert_eq!(dir(Shard::NextToLast(255), "BBBAAC"), Err(StoreError::InvalidKey));
    assert_eq!(dir(Shard::NextToLast(0), "C"), Ok(String::new()));
    assert_eq!(dir(Shard::NextToLast(1), "C"), Err(StoreError::InvalidKey));
}

#[test]
fn next_to_last_rejects_the_empty_key() {
    assert_eq!(dir(Shard::NextToLast(0), ""), Err(StoreError::InvalidKey));
    assert_eq!(dir(Shard::NextToLast(2), ""), Err(StoreError::InvalidKey));
}

#[test]
fn shards_count_characters_not_bytes() {
    assert_eq!(dir(Shard::Prefix(2), "héllo"), Ok("hé".to_owned()));
    assert_eq!(dir(Shard::Suffix(0), "éa"), Ok("a".to_owned()));
    assert_eq!(dir(Shard::NextToLast(2), "añöz"), Ok("ñö".to_owned()));
    assert_eq!(dir(Shard::NextToLast(3), "añö"), Err(StoreError::InvalidKey));
    assert_eq!(dir(Shard::NextToLast(2), "añö"), Ok("añ".to_owned()));
}

#[test]
fn new_knows_the_three_kinds() {
    assert_eq!(Shard::new("prefix", 3), Ok(Shard::Prefix(3)));
    assert_eq!(Shard::new("suffix", 0), Ok(Shard::Suffix(0)));
    assert_eq!(Shard::new("next-to-last", 255), Ok(Shard::NextToLast(255)));
}

#[test]
fn new_rejects_any_other_name() {
    assert_eq!(Shard::new("", 2), Err(StoreError::UnknownShardKind));
    assert_eq!(Shard::new("Prefix", 2), Err(StoreError::UnknownShardKind));
    assert_eq!(Shard::new("prefix ", 2), Err(StoreError::UnknownShardKind));
    assert_eq!(Shard::new("prefi", 2), Err(StoreError::UnknownShardKind));
    assert_eq!(Shard::new("next_to_last", 2), Err(StoreError::UnknownShardKind));
    assert_eq!(Shard::new("last", 2), Err(StoreError::UnknownShardKind));
}

#[test]
fn name_and_length_give_the_strategy_back() {
    for shard in [Shard::Prefix(7), Shard::Suffix(8), Shard::NextToLast(9)] {
        assert_eq!(Shard::new(shard.name(), shard.length()), Ok(shard));
    }
    assert_eq!(Shard::Prefix(7).name(), "prefix");
    assert_eq!(Shard::Suffix(8).name(), "suffix");
    assert_eq!(Shard::NextToLast(9).name(), "next-to-last");
    assert_eq!(Shard::NextToLast(9).length(), 9);
}

#[test]
fn the_default_strategy_is_next_to_last_two() {
    assert_eq!(Shard::default(), Shard::NextToLast(2));
}
