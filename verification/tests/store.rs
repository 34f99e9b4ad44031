use flatfs::config::PREFIX;
use flatfs::error::{Notfound, StoreError};
use flatfs::shard::Shard;
use flatfs::store::{Datastore, RootState, EXT};

fn open(path: &str, line: String) -> Datastore {
    let (store, write) = Datastore::new(path.to_owned(), RootState::Configured(line)).unwrap();
    assert_eq!(write, None);
    store
}

#[test]
fn test_new_create_dir_and_sharding() {
    let tmp_dir = ".tmp_dir-0";
    let (x, write) = Datastore::new(tmp_dir.to_owned(), RootState::Fresh).unwrap();
    assert_eq!(x.path(), ".tmp_dir-0");
    assert_eq!(x.shard(), Shard::NextToLast(2));
    assert_eq!(write, Some("/repo/flatfs/shard/v1/next-to-last/2".to_owned()));
    assert_eq!(Datastore::sharding_path(tmp_dir), ".tmp_dir-0/SHARDING");
}

#[test]
fn test_new_read_dir_when_exist() {
    let x = open(".tmp_dir-1", format!("{}v2/{}/{}", PREFIX, "prefix", 100));
    assert_eq!(x.shard(), Shard::Prefix(100));
}

#[test]
fn test_new_get() {
    let x = open(".tmp_dir-2", format!("{}v1/{}/{}", PREFIX, "next-to-last", 2));
    assert_eq!(x.data_path(&"BBBAAC".to_owned()), Ok(".tmp_dir-2/AA/BBBAAC.data".to_owned()));
    let bytes = x.get("BBBAAC".to_owned(), Some("Test".as_bytes().to_vec())).unwrap();
    let actual = String::from_utf8(bytes).unwrap();
    assert_eq!(actual, "Test");
}

#[test]
fn an_unusable_root_fails() {
    assert_eq!(
        Datastore::new("/nowhere".to_owned(), RootState::Unusable),
        Err(StoreError::StoreInitError)
    );
}

#[test]
fn a_corrupt_sentinel_fails() {
    let found = RootState::Configured("garbage".to_owned());
    assert_eq!(Datastore::new("root".to_owned(), found), Err(StoreError::CorruptConfig));
    let found = RootState::Configured(String::new());
    assert_eq!(Datastore::new("root".to_owned(), found), Err(StoreError::CorruptConfig));
}

#[test]
fn an_unknown_kind_fails() {
    let found = RootState::Configured("/repo/flatfs/shard/v1/middle/2".to_owned());
    assert_eq!(Datastore::new("root".to_owned(), found), Err(StoreError::UnknownShardKind));
}

#[test]
fn opening_twice_gives_the_same_store() {
    let (first, write) = Datastore::new("root".to_owned(), RootState::Fresh).unwrap();
    let sentinel = write.unwrap();
    let found = RootState::Configured(sentinel.clone());
    let (second, write) = Datastore::new("root".to_owned(), found).unwrap();
    assert_eq!(write, None);
    assert_eq!(second, first);
    assert_eq!(second.shard(), Shard::NextToLast(2));
    let found = RootState::Configured(sentinel);
    let (third, write) = Datastore::new("root".to_owned(), found).unwrap();
    assert_eq!(write, None);
    assert_eq!(third, first);
}

#[test]
fn every_configuration_is_read_back() {
    for length in [0u8, 1, 2, 5, 100] {
        for (kind, shard) in [
            ("prefix", Shard::Prefix(length)),
            ("suffix", Shard::Suffix(length)),
            ("next-to-last", Shard::NextToLast(length)),
        ] {
            let x = open("root", format!("{}v1/{}/{}", PREFIX, kind, length));
            assert_eq!(x.shard(), shard);
            assert_eq!(x.path(), "root");
            let x = open("root", Datastore::format_shard(1, &shard));
            assert_eq!(x.shard(), shard);
        }
    }
}

#[test]
fn data_paths() {
    assert_eq!(EXT, "data");
    let key = "hello".to_owned();
    let x = open("/var/store", "/repo/flatfs/shard/v1/prefix/2".to_owned());
    assert_eq!(x.data_path(&key), Ok("/var/store/he/hello.data".to_owned()));
    let x = open("/var/store/", "/repo/flatfs/shard/v1/suffix/2".to_owned());
    assert_eq!(x.data_path(&key), Ok("/var/store/ello/hello.data".to_owned()));
    let x = open("store", "/repo/flatfs/shard/v1/next-to-last/3".to_owned());
    assert_eq!(x.data_path(&key), Ok("store/ell/hello.data".to_owned()));
    let x = open("store", "/repo/flatfs/shard/v1/prefix/0".to_owned());
    assert_eq!(x.data_path(&key), Ok("store/hello.data".to_owned()));
    assert_eq!(x.data_path(&"a.b".to_owned()), Ok("store/a.b.data".to_owned()));
    let x = open("", "/repo/flatfs/shard/v1/prefix/1".to_owned());
    assert_eq!(x.data_path(&key), Ok("h/hello.data".to_owned()));
}

#[test]
fn data_path_of_a_short_key_fails() {
    let x = open("store", "/repo/flatfs/shard/v1/next-to-last/5".to_owned());
    assert_eq!(x.data_path(&"hello".to_owned()), Err(StoreError::InvalidKey));
    assert_eq!(x.data_path(&"".to_owned()), Err(StoreError::InvalidKey));
    assert_eq!(x.data_path(&"hello!".to_owned()), Ok("store/hello/hello!.data".to_owned()));
}

#[test]
fn sentinel_paths() {
    assert_eq!(Datastore::sharding_path("/var/store"), "/var/store/SHARDING");
    assert_eq!(Datastore::sharding_path("/var/store/"), "/var/store/SHARDING");
    assert_eq!(Datastore::sharding_path(""), "SHARDING");
}

#[test]
fn get_returns_the_content_unchanged() {
    let x = open("store", "/repo/flatfs/shard/v1/next-to-last/2".to_owned());
    let content: Vec<u8> = vec![0, 255, 10, 13, 0, 7];
    assert_eq!(x.get("BBBAAC".to_owned(), Some(content.clone())), Ok(content));
    assert_eq!(x.get("BBBAAC".to_owned(), Some(Vec::new())), Ok(Vec::new()));
}

#[test]
fn get_without_content_is_not_found() {
    let (x, _) = Datastore::new("store".to_owned(), RootState::Fresh).unwrap();
    assert_eq!(x.get("nonexistent".to_owned(), None), Err(Notfound("nonexistent".to_owned())));
    for line in [
        "/repo/flatfs/shard/v1/prefix/2",
        "/repo/flatfs/shard/v1/prefix/200",
        "/repo/flatfs/shard/v1/suffix/2",
        "/repo/flatfs/shard/v1/next-to-last/0",
        "/repo/flatfs/shard/v1/next-to-last/10",
        "/repo/flatfs/shard/v1/next-to-last/11",
        "/repo/flatfs/shard/v1/next-to-last/255",
    ] {
        let x = open("store", line.to_owned());
        assert_eq!(x.get("nonexistent".to_owned(), None), Err(Notfound("nonexistent".to_owned())));
        assert_eq!(x.get(String::new(), None), Err(Notfound(String::new())));
    }
}

#[test]
fn get_of_a_short_key_is_not_found() {
    let x = open("store", "/repo/flatfs/shard/v1/next-to-last/11".to_owned());
    assert_eq!(x.data_path(&"nonexistent".to_owned()), Err(StoreError::InvalidKey));
    assert_eq!(x.get("nonexistent".to_owned(), None), Err(Notfound("nonexistent".to_owned())));
    assert_eq!(
        x.get("nonexistent".to_owned(), Some(vec![1])),
        Err(Notfound("nonexistent".to_owned()))
    );
    assert_eq!(x.get("nonexistent!".to_owned(), Some(vec![1])), Ok(vec![1]));
}

#[test]
fn a_failed_lookup_leaves_the_store_as_it_was() {
    let x = open("store", "/repo/flatfs/shard/v1/next-to-last/2".to_owned());
    assert!(x.get("ab".to_owned(), None).is_err());
    assert!(x.get("missing".to_owned(), None).is_err());
    assert_eq!(x.shard(), Shard::NextToLast(2));
    assert_eq!(x.get("BBBAAC".to_owned(), Some(vec![84])), Ok(vec![84]));
}

#[test]
fn not_found_names_the_key() {
    let e = Notfound("BBBAAC".to_owned());
    assert_eq!(e.key(), "BBBAAC");
    assert_eq!(e.message(), "datastore: key [BBBAAC] not found.");
    assert_eq!(Notfound(String::new()).message(), "datastore: key [] not found.");
}
