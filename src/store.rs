use vstd::prelude::*;
use crate::codec::{cbor_decodes, cbor_value_of, decode_record};
use crate::error::{error_of_fault, io_failure, store_error_from, IoFault, StoreError};
use crate::layout::{file_name_injective, file_name_of, file_name_of_key, key_of, key_of_file_name, record_key};

verus! {

/// The content of a record file as the caller read it, or how reading failed.
pub open spec fn read_view(read: &Result<Vec<u8>, IoFault>) -> Result<Seq<u8>, IoFault> {
    match read {
        Ok(b) => Ok(b@),
        Err(f) => Err(*f),
    }
}

/// Why reading a record fails, given how reading its file ended; `None`
/// where the record is read.
pub open spec fn get_failure(read: Result<Seq<u8>, IoFault>) -> Option<StoreError> {
    match read {
        Err(f) => Some(error_of_fault(f)),
        Ok(b) => if cbor_decodes(b) {
            None
        } else {
            Some(StoreError::Corrupt)
        },
    }
}

/// The record of a key, from how reading its file ended.
pub fn get_result(read: Result<Vec<u8>, IoFault>) -> (r: Result<serde_cbor::Value, StoreError>)
    ensures
        r is Ok <==> get_failure(read_view(&read)) is None,
        r matches Err(e) ==> get_failure(read_view(&read)) == Some(e),
        r matches Ok(v) ==> read_view(&read) matches Ok(b) && v == cbor_value_of(b),
{
    match read {
        Ok(bytes) => decode_record(bytes.as_slice()),
        Err(f) => Err(store_error_from(f)),
    }
}

/// One entry of the records directory: its file name, and its content or how
/// reading it failed.
#[derive(Debug)]
pub struct ListedEntry {
    pub name: String,
    pub content: Result<Vec<u8>, IoFault>,
}

impl ListedEntry {
    /// The record value this entry holds, where it holds one.
    pub open spec fn value(&self) -> serde_cbor::Value {
        cbor_value_of(read_view(&self.content)->Ok_0)
    }

    /// Why this entry spoils a listing; `None` where it is a record file
    /// holding one CBOR value.
    pub open spec fn failure(&self) -> Option<StoreError> {
        match read_view(&self.content) {
            Err(f) => Some(error_of_fault(f)),
            Ok(b) => if key_of(self.name@) is Some && cbor_decodes(b) {
                None
            } else {
                Some(StoreError::Corrupt)
            },
        }
    }
}

/// The records of a listing of the records directory, in the order given.
/// The listing is all or nothing: the first entry that is not a readable
/// record file decides the error.
pub fn collect_listing(entries: Vec<ListedEntry>) -> (r: Result<
    Vec<(String, serde_cbor::Value)>,
    StoreError,
>)
    ensures
        r is Ok <==> forall|i: int| 0 <= i < entries@.len() ==> entries@[i].failure() is None,
        r matches Ok(list) ==> {
            &&& list@.len() == entries@.len()
            &&& forall|i: int|
                0 <= i < list@.len() ==> key_of(#[trigger] entries@[i].name@) == Some(
                    list@[i].0@,
                )
            &&& forall|i: int| 0 <= i < list@.len() ==> list@[i].1 == #[trigger] entries@[i].value()
        },
        r matches Err(e) ==> exists|i: int|
            0 <= i < entries@.len() && entries@[i].failure() == Some(e) && forall|j: int|
                0 <= j < i ==> entries@[j].failure() is None,
{
    let mut list: Vec<(String, serde_cbor::Value)> = Vec::new();
    let mut i: usize = 0;
    while i < entries.len()
        invariant
            i <= entries@.len(),
            list@.len() == i,
            forall|j: int| 0 <= j < i ==> entries@[j].failure() is None,
            forall|j: int| 0 <= j < i ==> key_of(#[trigger] entries@[j].name@) == Some(list@[j].0@),
            forall|j: int| 0 <= j < i ==> list@[j].1 == #[trigger] entries@[j].value(),
        decreases entries@.len() - i,
    {
        let entry = &entries[i];
        let value = match &entry.content {
            Ok(bytes) => decode_record(bytes.as_slice()),
            Err(f) => Err(store_error_from(*f)),
        };
        let key = record_key(entry.name.as_str());
        match value {
            Err(e) => {
                assert(entries@[i as int].failure() == Some(e));
                return Err(e);
            },
            Ok(v) => match key {
                None => {
                    assert(entries@[i as int].failure() == Some(StoreError::Corrupt));
                    return Err(StoreError::Corrupt);
                },
                Some(k) => {
                    list.push((k, v));
                },
            },
        }
        i = i + 1;
    }
    Ok(list)
}

/// The records directory: the name and the content of each file in it.
pub type RecordDir = Map<Seq<char>, Seq<u8>>;

/// The directory after the record of `key` is written with `bytes`.
pub open spec fn after_put(dir: RecordDir, key: Seq<char>, bytes: Seq<u8>) -> RecordDir {
    dir.insert(file_name_of(key), bytes)
}

/// The directory after the record of `key` is removed.
pub open spec fn after_delete(dir: RecordDir, key: Seq<char>) -> RecordDir {
    dir.remove(file_name_of(key))
}

/// The directory after each record of `puts` is written, in order.
pub open spec fn after_puts(dir: RecordDir, puts: Seq<(Seq<char>, Seq<u8>)>) -> RecordDir
    decreases puts.len(),
{
    if puts.len() == 0 {
        dir
    } else {
        let last = puts.last();
        after_put(after_puts(dir, puts.drop_last()), last.0, last.1)
    }
}

/// How reading the file of `key` ends.
pub open spec fn read_in(dir: RecordDir, key: Seq<char>) -> Result<Seq<u8>, IoFault> {
    if dir.contains_key(file_name_of(key)) {
        Ok(dir[file_name_of(key)])
    } else {
        Err(IoFault::Missing)
    }
}

/// How removing the file of `key` ends.
pub open spec fn remove_in(dir: RecordDir, key: Seq<char>) -> Result<(), IoFault> {
    if dir.contains_key(file_name_of(key)) {
        Ok(())
    } else {
        Err(IoFault::Missing)
    }
}

/// The keys that a listing of the directory names.
pub open spec fn keys_in(dir: RecordDir) -> Set<Seq<char>> {
    Set::new(|k: Seq<char>| dir.contains_key(file_name_of(k)))
}

/// Whether no two writes of `puts` are to the same key.
pub open spec fn distinct_keys(puts: Seq<(Seq<char>, Seq<u8>)>) -> bool {
    forall|i: int, j: int| 0 <= i < j < puts.len() ==> puts[i].0 != puts[j].0
}

/// The keys that `puts` writes.
pub open spec fn keys_written(puts: Seq<(Seq<char>, Seq<u8>)>) -> Set<Seq<char>> {
    Set::new(|k: Seq<char>| exists|i: int| 0 <= i < puts.len() && puts[i].0 == k)
}

/// After a record is written, reading it gives back the bytes written, it is
/// read as a record exactly where those bytes decode, and the file of any
/// other key is as it was.
pub proof fn read_after_put(dir: RecordDir, key: Seq<char>, bytes: Seq<u8>, other: Seq<char>)
    ensures
        read_in(after_put(dir, key, bytes), key) == Ok::<Seq<u8>, IoFault>(bytes),
        get_failure(read_in(after_put(dir, key, bytes), key)) is None <==> cbor_decodes(bytes),
        other != key ==> read_in(after_put(dir, key, bytes), other) == read_in(dir, other),
{
    file_name_injective(key, other);
}

/// After a record is deleted, reading it fails with `NotFound`, and a listing
/// no longer names its key.
pub proof fn get_after_delete(dir: RecordDir, key: Seq<char>)
    ensures
        get_failure(read_in(after_delete(dir, key), key)) == Some(StoreError::NotFound),
        !keys_in(after_delete(dir, key)).contains(key),
{
}

/// Writing the same record twice leaves the directory as writing it once.
pub proof fn put_twice_as_once(dir: RecordDir, key: Seq<char>, bytes: Seq<u8>)
    ensures
        after_put(after_put(dir, key, bytes), key, bytes) == after_put(dir, key, bytes),
{
    assert(after_put(after_put(dir, key, bytes), key, bytes) =~= after_put(dir, key, bytes));
}

/// Reading or deleting a key that has no file fails with `NotFound`.
pub proof fn missing_key_not_found(dir: RecordDir, key: Seq<char>)
    requires
        !dir.contains_key(file_name_of(key)),
    ensures
        get_failure(read_in(dir, key)) == Some(StoreError::NotFound),
        io_failure(remove_in(dir, key)) == Some(StoreError::NotFound),
{
}

/// Writing records under n distinct keys into an empty directory leaves n
/// files, a listing names exactly those keys, and each key reads back the
/// bytes written under it.
pub proof fn listing_after_distinct_puts(puts: Seq<(Seq<char>, Seq<u8>)>)
    requires
        distinct_keys(puts),
    ensures
        after_puts(Map::empty(), puts).dom().finite(),
        after_puts(Map::empty(), puts).dom().len() == puts.len(),
        keys_in(after_puts(Map::empty(), puts)) == keys_written(puts),
        forall|i: int|
            0 <= i < puts.len() ==> read_in(after_puts(Map::empty(), puts), #[trigger] puts[i].0)
                == Ok::<Seq<u8>, IoFault>(puts[i].1),
    decreases puts.len(),
{
    let dir = after_puts(Map::empty(), puts);
    if puts.len() == 0 {
        assert(keys_in(dir) =~= keys_written(puts));
    } else {
        let n = puts.len() - 1;
        let init = puts.drop_last();
        let last = puts.last();
        assert(distinct_keys(init));
        listing_after_distinct_puts(init);
        let prev = after_puts(Map::empty(), init);
        assert(!prev.contains_key(file_name_of(last.0))) by {
            if prev.contains_key(file_name_of(last.0)) {
                assert(keys_in(prev).contains(last.0));
                assert(keys_written(init).contains(last.0));
                let i = choose|i: int| 0 <= i < init.len() && init[i].0 == last.0;
                assert(puts[i].0 == puts[n].0);
            }
        }
        assert forall|k: Seq<char>| keys_in(dir).contains(k) <==> keys_written(puts).contains(k) by {
            file_name_injective(k, last.0);
            if keys_written(puts).contains(k) && k != last.0 {
                let i = choose|i: int| 0 <= i < puts.len() && puts[i].0 == k;
                assert(init[i].0 == k);
                assert(keys_written(init).contains(k));
            }
            if keys_written(init).contains(k) {
                let i = choose|i: int| 0 <= i < init.len() && init[i].0 == k;
                assert(puts[i].0 == k);
            }
            assert(puts[n].0 == last.0);
        }
        assert(keys_in(dir) =~= keys_written(puts));
        assert forall|i: int| 0 <= i < puts.len() implies read_in(dir, #[trigger] puts[i].0)
            == Ok::<Seq<u8>, IoFault>(puts[i].1) by {
            if i < n {
                file_name_injective(puts[i].0, last.0);
                assert(init[i] == puts[i]);
                assert(read_in(prev, init[i].0) == Ok::<Seq<u8>, IoFault>(init[i].1));
            }
        }
    }
}

/// Whether `entries` are the files of `dir`, each once and with its content.
pub open spec fn lists_directory(entries: Seq<ListedEntry>, dir: RecordDir) -> bool {
    &&& forall|i: int, j: int|
        0 <= i < j < entries.len() ==> entries[i].name@ != entries[j].name@
    &&& forall|i: int|
        0 <= i < entries.len() ==> dir.contains_key(#[trigger] entries[i].name@) && read_view(
            &entries[i].content,
        ) == Ok::<Seq<u8>, IoFault>(dir[entries[i].name@])
    &&& forall|name: Seq<char>|
        dir.contains_key(name) ==> exists|i: int|
            0 <= i < entries.len() && #[trigger] entries[i].name@ == name
}

/// The keys of a listing.
pub open spec fn keys_listed(list: Seq<(String, serde_cbor::Value)>) -> Set<Seq<char>> {
    Set::new(|k: Seq<char>| exists|i: int| 0 <= i < list.len() && list[i].0@ == k)
}

/// A listing made from all the files of a directory names exactly the keys
/// that the directory holds, one record for each file, each with the value
/// decoded from its file.
pub proof fn listing_names_keys_in(
    entries: Seq<ListedEntry>,
    dir: RecordDir,
    list: Seq<(String, serde_cbor::Value)>,
)
    requires
        lists_directory(entries, dir),
        list.len() == entries.len(),
        forall|i: int|
            0 <= i < list.len() ==> key_of(#[trigger] entries[i].name@) == Some(list[i].0@),
        forall|i: int| 0 <= i < list.len() ==> list[i].1 == #[trigger] entries[i].value(),
    ensures
        keys_listed(list) == keys_in(dir),
        list.len() == dir.dom().len(),
        forall|i: int|
            0 <= i < list.len() ==> dir.contains_key(file_name_of(#[trigger] list[i].0@))
                && list[i].1 == cbor_value_of(dir[file_name_of(list[i].0@)]),
{
    assert forall|i: int| 0 <= i < list.len() implies dir.contains_key(
        file_name_of(#[trigger] list[i].0@),
    ) && list[i].1 == cbor_value_of(dir[file_name_of(list[i].0@)]) by {
        let name = entries[i].name@;
        assert(key_of(name) == Some(list[i].0@));
        file_name_of_key(name);
        assert(dir.contains_key(name));
        assert(read_view(&entries[i].content) == Ok::<Seq<u8>, IoFault>(dir[name]));
        assert(list[i].1 == entries[i].value());
    }
    let names = Seq::new(entries.len(), |i: int| entries[i].name@);
    names.unique_seq_to_set();
    assert(names.to_set() =~= dir.dom()) by {
        assert forall|name: Seq<char>| dir.contains_key(name) implies names.contains(name) by {
            let i = choose|i: int| 0 <= i < entries.len() && #[trigger] entries[i].name@ == name;
            assert(names[i] == name);
        }
    }
    assert forall|k: Seq<char>| keys_listed(list).contains(k) <==> keys_in(dir).contains(k) by {
        if keys_listed(list).contains(k) {
            let i = choose|i: int| 0 <= i < list.len() && list[i].0@ == k;
            assert(key_of(entries[i].name@) == Some(k));
            file_name_of_key(entries[i].name@);
        }
        if keys_in(dir).contains(k) {
            let i = choose|i: int| 0 <= i < entries.len() && entries[i].name@ == file_name_of(k);
            key_of_file_name(k);
            assert(list[i].0@ == k);
        }
    }
    assert(keys_listed(list) =~= keys_in(dir));
}

/// After a record is deleted, a listing of all the files of the directory
/// does not name its key.
pub proof fn listing_after_delete(
    dir: RecordDir,
    key: Seq<char>,
    entries: Seq<ListedEntry>,
    list: Seq<(String, serde_cbor::Value)>,
)
    requires
        lists_directory(entries, after_delete(dir, key)),
        list.len() == entries.len(),
        forall|i: int|
            0 <= i < list.len() ==> key_of(#[trigger] entries[i].name@) == Some(list[i].0@),
        forall|i: int| 0 <= i < list.len() ==> list[i].1 == #[trigger] entries[i].value(),
    ensures
        !keys_listed(list).contains(key),
{
    listing_names_keys_in(entries, after_delete(dir, key), list);
    get_after_delete(dir, key);
}

/// After writes under n distinct keys into an empty directory, a listing of
/// all its files has n records, one under each key written, each with the
/// value decoded from the bytes written under its key.
pub proof fn listing_after_distinct_puts_has_each_key(
    puts: Seq<(Seq<char>, Seq<u8>)>,
    entries: Seq<ListedEntry>,
    list: Seq<(String, serde_cbor::Value)>,
)
    requires
        distinct_keys(puts),
        lists_directory(entries, after_puts(Map::empty(), puts)),
        list.len() == entries.len(),
        forall|i: int|
            0 <= i < list.len() ==> key_of(#[trigger] entries[i].name@) == Some(list[i].0@),
        forall|i: int| 0 <= i < list.len() ==> list[i].1 == #[trigger] entries[i].value(),
    ensures
        list.len() == puts.len(),
        keys_listed(list) == keys_written(puts),
        forall|i: int|
            0 <= i < list.len() ==> exists|j: int|
                0 <= j < puts.len() && puts[j].0 == #[trigger] list[i].0@ && list[i].1
                    == cbor_value_of(puts[j].1),
{
    let dir = after_puts(Map::empty(), puts);
    listing_after_distinct_puts(puts);
    listing_names_keys_in(entries, dir, list);
    assert forall|i: int| 0 <= i < list.len() implies exists|j: int|
        0 <= j < puts.len() && puts[j].0 == #[trigger] list[i].0@ && list[i].1 == cbor_value_of(
            puts[j].1,
        ) by {
        assert(keys_listed(list).contains(list[i].0@));
        let j = choose|j: int| 0 <= j < puts.len() && puts[j].0 == list[i].0@;
        assert(read_in(dir, puts[j].0) == Ok::<Seq<u8>, IoFault>(puts[j].1));
    }
}

/// A write (`Some` bytes) or a deletion (`None`) of the record of a key.
pub type StoreOp = (Seq<char>, Option<Seq<u8>>);

/// The directory after one operation.
pub open spec fn after_op(dir: RecordDir, op: StoreOp) -> RecordDir {
    match op.1 {
        Some(bytes) => after_put(dir, op.0, bytes),
        None => after_delete(dir, op.0),
    }
}

/// The directory after each operation of `ops`, in order.
pub open spec fn after_ops(dir: RecordDir, ops: Seq<StoreOp>) -> RecordDir
    decreases ops.len(),
{
    if ops.len() == 0 {
        dir
    } else {
        after_op(after_ops(dir, ops.drop_last()), ops.last())
    }
}

/// The bytes of the last operation of `ops` on `key` where it is a write;
/// `None` where it is a deletion or there is none.
pub open spec fn last_write(ops: Seq<StoreOp>, key: Seq<char>) -> Option<Seq<u8>>
    decreases ops.len(),
{
    if ops.len() == 0 {
        None
    } else if ops.last().0 == key {
        ops.last().1
    } else {
        last_write(ops.drop_last(), key)
    }
}

/// After writes and deletions from an empty directory, a key reads the bytes
/// of its last write where its last operation was a write, and has no file
/// otherwise.
pub proof fn read_after_ops(ops: Seq<StoreOp>, key: Seq<char>)
    ensures
        read_in(after_ops(Map::empty(), ops), key) == match last_write(ops, key) {
            Some(b) => Ok::<Seq<u8>, IoFault>(b),
            None => Err::<Seq<u8>, IoFault>(IoFault::Missing),
        },
    decreases ops.len(),
{
    if ops.len() > 0 {
        read_after_ops(ops.drop_last(), key);
        file_name_injective(ops.last().0, key);
    }
}

/// After writes and deletions from an empty directory, a listing of all its
/// files names each key whose last operation was a write, once, with the
/// value decoded from that write, and no other key.
pub proof fn listing_after_ops(
    ops: Seq<StoreOp>,
    entries: Seq<ListedEntry>,
    list: Seq<(String, serde_cbor::Value)>,
)
    requires
        lists_directory(entries, after_ops(Map::empty(), ops)),
        list.len() == entries.len(),
        forall|i: int|
            0 <= i < list.len() ==> key_of(#[trigger] entries[i].name@) == Some(list[i].0@),
        forall|i: int| 0 <= i < list.len() ==> list[i].1 == #[trigger] entries[i].value(),
    ensures
        forall|i: int|
            0 <= i < list.len() ==> (last_write(ops, #[trigger] list[i].0@) matches Some(b)
                && list[i].1 == cbor_value_of(b)),
        forall|k: Seq<char>|
            #[trigger] last_write(ops, k) is Some ==> keys_listed(list).contains(k),
        forall|i: int, j: int| 0 <= i < j < list.len() ==> list[i].0@ != list[j].0@,
{
    let dir = after_ops(Map::empty(), ops);
    listing_names_keys_in(entries, dir, list);
    assert forall|i: int| 0 <= i < list.len() implies (last_write(ops, #[trigger] list[i].0@) matches Some(
        b,
    ) && list[i].1 == cbor_value_of(b)) by {
        read_after_ops(ops, list[i].0@);
    }
    assert forall|k: Seq<char>| #[trigger] last_write(ops, k) is Some implies keys_listed(
        list,
    ).contains(k) by {
        read_after_ops(ops, k);
        assert(keys_in(dir).contains(k));
    }
    assert forall|i: int, j: int| 0 <= i < j < list.len() implies list[i].0@ != list[j].0@ by {
        file_name_of_key(entries[i].name@);
        file_name_of_key(entries[j].name@);
    }
}

} // verus!
