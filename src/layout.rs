use vstd::prelude::*;
use vstd::string::*;

verus! {

/// The extension that turns a key into the name of its record file.
pub open spec fn record_extension() -> Seq<char> {
    seq!['.', 'c', 'b', 'o', 'r']
}

/// The name of the file that holds the record of `key`.
pub open spec fn file_name_of(key: Seq<char>) -> Seq<char> {
    key + record_extension()
}

/// The key whose record a file of this name holds, if the name is one of a
/// record file.
pub open spec fn key_of(name: Seq<char>) -> Option<Seq<char>> {
    let n = name.len();
    if n >= 5 && name.subrange(n - 5, n as int) == record_extension() {
        Some(name.subrange(0, n - 5))
    } else {
        None
    }
}

/// Stripping the extension gives back the key that a file name was made from.
pub proof fn key_of_file_name(key: Seq<char>)
    ensures
        key_of(file_name_of(key)) == Some(key),
{
    let name = file_name_of(key);
    let n = name.len();
    assert(name.subrange(n - 5, n as int) =~= record_extension());
    assert(name.subrange(0, n - 5) =~= key);
}

/// Every file name that yields a key is the file name of that key.
pub proof fn file_name_of_key(name: Seq<char>)
    requires
        key_of(name) is Some,
    ensures
        file_name_of(key_of(name)->0) == name,
{
    let n = name.len();
    assert(name =~= name.subrange(0, n - 5) + name.subrange(n - 5, n as int));
}

/// Distinct keys are stored in distinct files.
pub proof fn file_name_injective(k1: Seq<char>, k2: Seq<char>)
    ensures
        file_name_of(k1) == file_name_of(k2) ==> k1 == k2,
{
    key_of_file_name(k1);
    key_of_file_name(k2);
}

/// The name of the file that holds the record of `key`.
pub fn record_file_name(key: &str) -> (r: String)
    ensures
        r@ == file_name_of(key@),
{
    let mut name = String::from_str(key);
    name.append(".cbor");
    proof {
        reveal_strlit(".cbor");
    }
    name
}

/// The key whose record the file `name` holds, or `None` where `name` does
/// not end with the record extension.
pub fn record_key(name: &str) -> (r: Option<String>)
    ensures
        match r {
            Some(k) => key_of(name@) == Some(k@),
            None => key_of(name@) is None,
        },
{
    let ext = ".cbor";
    proof {
        reveal_strlit(".cbor");
    }
    let n = name.unicode_len();
    if n < 5 {
        return None;
    }
    let start = n - 5;
    let mut i: usize = 0;
    while i < 5
        invariant
            i <= 5,
            start + 5 == n,
            n == name@.len(),
            ext@ == record_extension(),
            forall|j: int| 0 <= j < i ==> name@[start + j] == ext@[j],
        decreases 5 - i,
    {
        if name.get_char(start + i) != ext.get_char(i) {
            proof {
                assert(name@.subrange(start as int, n as int)[i as int] != record_extension()[i as int]);
            }
            return None;
        }
        i = i + 1;
    }
    assert(name@.subrange(start as int, n as int) =~= record_extension());
    let key = name.substring_char(0, start);
    Some(String::from_str(key))
}

/// Where a store keeps its files: a base directory, and inside it the
/// directory of record files.
#[derive(Debug)]
pub struct StorePaths {
    pub base: String,
    pub records: String,
}

/// The records directory inside the base directory `base`.
pub open spec fn records_dir_of(base: Seq<char>) -> Seq<char> {
    base + seq!['/', 'r', 'e', 'c', 'o', 'r', 'd', 's']
}

impl StorePaths {
    /// The records directory lies inside the base directory.
    pub open spec fn wf(&self) -> bool {
        self.records@ == records_dir_of(self.base@)
    }

    /// The paths of a store rooted at `base`.
    pub fn new(base: &str) -> (r: StorePaths)
        ensures
            r.base@ == base@,
            r.wf(),
    {
        let mut records = String::from_str(base);
        records.append("/records");
        proof {
            reveal_strlit("/records");
        }
        assert(records@ =~= records_dir_of(base@));
        StorePaths { base: String::from_str(base), records }
    }

    /// The path of the file that holds the record of `key`.
    pub fn record_path(&self, key: &str) -> (r: String)
        ensures
            r@ == self.records@ + seq!['/'] + file_name_of(key@),
    {
        let mut path = self.records.clone();
        path.append("/");
        let name = record_file_name(key);
        path.append(name.as_str());
        proof {
            reveal_strlit("/");
        }
        assert(path@ =~= self.records@ + seq!['/'] + file_name_of(key@));
        path
    }

    /// The directories to create, in order, when the store starts: none where
    /// the base directory exists already, else the base directory and then
    /// the records directory.
    pub fn directories_to_create(&self, base_exists: bool) -> (r: Vec<String>)
        ensures
            base_exists ==> r@.len() == 0,
            !base_exists ==> r@.len() == 2 && r@[0]@ == self.base@ && r@[1]@ == self.records@,
    {
        let mut dirs: Vec<String> = Vec::new();
        if !base_exists {
            dirs.push(self.base.clone());
            dirs.push(self.records.clone());
        }
        dirs
    }
}

} // verus!
