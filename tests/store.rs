use std::collections::BTreeMap;

use replay_store::codec::encode_record;
use replay_store::error::{io_result, store_error_from, write_result, IoFault, StoreError};
use replay_store::layout::{record_file_name, StorePaths};
use replay_store::store::{collect_listing, get_result, ListedEntry};
use serde_cbor::Value;

fn text(s: &str) -> Value {
    Value::Text(s.to_string())
}

fn game1() -> Value {
    let mut config = BTreeMap::new();
    config.insert(text("players"), Value::Integer(2));
    config.insert(text("boards"), Value::Integer(1));
    config.insert(text("cheats"), Value::Integer(0));
    config.insert(text("elapsed"), Value::Integer(300));
    let mut record = BTreeMap::new();
    record.insert(text("name"), text("Alice vs Bob"));
    record.insert(text("time"), Value::Integer(1_700_000_000));
    record.insert(text("config"), Value::Map(config));
    record.insert(text("actions"), Value::Array(vec![text("N"), text("E"), text("S")]));
    Value::Map(record)
}

/// The records directory as a map from file name to content, written and
/// read through the library the way a caller on a real file system does.
struct Dir {
    files: BTreeMap<String, Vec<u8>>,
}

impl Dir {
    fn new() -> Dir {
        Dir { files: BTreeMap::new() }
    }

    fn put(&mut self, key: &str, v: &Value) -> Result<(), StoreError> {
        let bytes = encode_record(v)?;
        self.files.insert(record_file_name(key), bytes);
        write_result(Ok(()))
    }

    fn get(&self, key: &str) -> Result<Value, StoreError> {
        let read = self.files.get(&record_file_name(key)).cloned().ok_or(IoFault::Missing);
        get_result(read)
    }

    fn delete(&mut self, key: &str) -> Result<(), StoreError> {
        let removed = self.files.remove(&record_file_name(key)).map(|_| ()).ok_or(IoFault::Missing);
        io_result(removed)
    }

    fn list(&self) -> Result<Vec<(String, Value)>, StoreError> {
        let entries = self
            .files
            .iter()
            .map(|(name, bytes)| ListedEntry { name: name.clone(), content: Ok(bytes.clone()) })
            .collect();
        collect_listing(entries)
    }
}

#[test]
fn fault_maps_to_error_kind() {
    assert_eq!(store_error_from(IoFault::Missing), StoreError::NotFound);
    assert_eq!(store_error_from(IoFault::Other), StoreError::Io);
    assert_eq!(io_result(Ok(())), Ok(()));
    assert_eq!(io_result(Err(IoFault::Missing)), Err(StoreError::NotFound));
    assert_eq!(io_result(Err(IoFault::Other)), Err(StoreError::Io));
}

#[test]
fn failed_write_is_io() {
    assert_eq!(write_result(Ok(())), Ok(()));
    assert_eq!(write_result(Err(IoFault::Missing)), Err(StoreError::Io));
    assert_eq!(write_result(Err(IoFault::Other)), Err(StoreError::Io));
}

#[test]
fn get_of_missing_file_is_not_found() {
    assert_eq!(get_result(Err(IoFault::Missing)), Err(StoreError::NotFound));
    let mut dir = Dir::new();
    assert_eq!(dir.get("nobody"), Err(StoreError::NotFound));
    assert_eq!(dir.delete("nobody"), Err(StoreError::NotFound));
}

#[test]
fn get_of_unreadable_file_is_io() {
    assert_eq!(get_result(Err(IoFault::Other)), Err(StoreError::Io));
}

#[test]
fn get_of_invalid_content_is_corrupt() {
    assert_eq!(get_result(Ok(vec![0xff, 0x00])), Err(StoreError::Corrupt));
    assert_eq!(get_result(Ok(vec![])), Err(StoreError::Corrupt));
}

#[test]
fn initialized_store_lists_nothing() {
    let paths = StorePaths::new("./.quoridor");
    let created = paths.directories_to_create(false);
    assert_eq!(created, vec!["./.quoridor".to_string(), "./.quoridor/records".to_string()]);
    assert_eq!(collect_listing(Vec::new()), Ok(Vec::new()));
    assert_eq!(Dir::new().list(), Ok(Vec::new()));
}

#[test]
fn get_after_put_returns_value() {
    let mut dir = Dir::new();
    dir.put("game1", &game1()).unwrap();
    assert_eq!(dir.get("game1"), Ok(game1()));
}

#[test]
fn put_game_record_then_get_is_identical() {
    let mut dir = Dir::new();
    dir.put("game1", &game1()).unwrap();
    let got = dir.get("game1").unwrap();
    assert_eq!(got, game1());
    match got {
        Value::Map(m) => {
            assert_eq!(m.get(&text("name")), Some(&text("Alice vs Bob")));
            assert_eq!(m.get(&text("time")), Some(&Value::Integer(1_700_000_000)));
            assert_eq!(
                m.get(&text("actions")),
                Some(&Value::Array(vec![text("N"), text("E"), text("S")]))
            );
        }
        _ => panic!("the record is not a map"),
    }
}

#[test]
fn put_replaces_whole_record() {
    let mut dir = Dir::new();
    let mut first = BTreeMap::new();
    first.insert(text("a"), Value::Integer(1));
    first.insert(text("b"), Value::Integer(2));
    let mut second = BTreeMap::new();
    second.insert(text("a"), Value::Integer(3));
    dir.put("x", &Value::Map(first)).unwrap();
    dir.put("x", &Value::Map(second.clone())).unwrap();
    assert_eq!(dir.get("x"), Ok(Value::Map(second)));
}

#[test]
fn put_twice_is_put_once() {
    let mut once = Dir::new();
    once.put("k", &game1()).unwrap();
    let mut twice = Dir::new();
    twice.put("k", &game1()).unwrap();
    twice.put("k", &game1()).unwrap();
    assert_eq!(once.files, twice.files);
    assert_eq!(once.list(), twice.list());
}

#[test]
fn delete_then_get_is_not_found() {
    let mut dir = Dir::new();
    dir.put("a", &Value::Integer(1)).unwrap();
    dir.put("b", &Value::Integer(2)).unwrap();
    assert_eq!(dir.delete("a"), Ok(()));
    assert_eq!(dir.get("a"), Err(StoreError::NotFound));
    let keys: Vec<String> = dir.list().unwrap().into_iter().map(|(k, _)| k).collect();
    assert_eq!(keys, vec!["b".to_string()]);
}

#[test]
fn listing_after_distinct_puts_has_each_record() {
    let mut dir = Dir::new();
    dir.put("one", &Value::Integer(1)).unwrap();
    dir.put("two", &text("second")).unwrap();
    dir.put("three", &game1()).unwrap();
    dir.put("two", &text("rewritten")).unwrap();
    let listed: BTreeMap<String, Value> = dir.list().unwrap().into_iter().collect();
    let mut expected = BTreeMap::new();
    expected.insert("one".to_string(), Value::Integer(1));
    expected.insert("two".to_string(), text("rewritten"));
    expected.insert("three".to_string(), game1());
    assert_eq!(listed, expected);
}

#[test]
fn listing_keeps_entry_order() {
    let entries = vec![
        ListedEntry { name: "b.cbor".to_string(), content: Ok(vec![0x02]) },
        ListedEntry { name: "a.cbor".to_string(), content: Ok(vec![0x01]) },
    ];
    assert_eq!(
        collect_listing(entries),
        Ok(vec![("b".to_string(), Value::Integer(2)), ("a".to_string(), Value::Integer(1))])
    );
}

#[test]
fn listing_with_invalid_file_is_corrupt() {
    let mut dir = Dir::new();
    dir.put("good", &game1()).unwrap();
    dir.files.insert("bad.cbor".to_string(), vec![0xff, 0xfe, 0x00]);
    assert_eq!(dir.list(), Err(StoreError::Corrupt));
}

#[test]
fn listing_with_foreign_name_is_corrupt() {
    let entries = vec![
        ListedEntry { name: "a.cbor".to_string(), content: Ok(vec![0x01]) },
        ListedEntry { name: "notes.txt".to_string(), content: Ok(vec![0x01]) },
    ];
    assert_eq!(collect_listing(entries), Err(StoreError::Corrupt));
}

#[test]
fn listing_reports_first_failing_entry() {
    let entries = vec![
        ListedEntry { name: "a.cbor".to_string(), content: Ok(vec![0x01]) },
        ListedEntry { name: "sub".to_string(), content: Err(IoFault::Other) },
        ListedEntry { name: "c.cbor".to_string(), content: Ok(vec![0xff]) },
    ];
    assert_eq!(collect_listing(entries), Err(StoreError::Io));
    let entries = vec![
        ListedEntry { name: "gone.cbor".to_string(), content: Err(IoFault::Missing) },
        ListedEntry { name: "c.cbor".to_string(), content: Ok(vec![0xff]) },
    ];
    assert_eq!(collect_listing(entries), Err(StoreError::NotFound));
}

#[test]
fn listing_after_puts_and_deletes_keeps_last_writes() {
    let mut dir = Dir::new();
    dir.put("a", &Value::Integer(1)).unwrap();
    dir.put("b", &Value::Integer(2)).unwrap();
    dir.delete("a").unwrap();
    dir.put("c", &Value::Integer(3)).unwrap();
    dir.put("b", &Value::Integer(4)).unwrap();
    dir.delete("c").unwrap();
    dir.put("c", &Value::Integer(5)).unwrap();
    let listed: BTreeMap<String, Value> = dir.list().unwrap().into_iter().collect();
    let mut expected = BTreeMap::new();
    expected.insert("b".to_string(), Value::Integer(4));
    expected.insert("c".to_string(), Value::Integer(5));
    assert_eq!(listed, expected);
}
