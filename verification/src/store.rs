//! The file-backed key-value store.
//!
//! The backing medium is one JSON object file.  The functions here do no I/O
//! themselves: each takes the current content of the backing file (`None`
//! when the file does not exist) and, for writes, returns the full new
//! content to be written back.  The surrounding program reads and writes the
//! file at the path that `get_store_full_path` computes.

use vstd::prelude::*;

use crate::codec;
use crate::codec::decoded_i64;
use crate::codec::decoded_string;
use crate::codec::json_of_i64;
use crate::codec::json_of_string;
use crate::codec::store_of_text;
use crate::codec::text_of_store;
use crate::store_map::StoreMap;

verus! {

/// The error of a store operation: the backing content does not parse as a
/// JSON object.
#[derive(Clone, Copy, Debug, PartialEq, Eq, Structural)]
pub enum StoreError {
    Corrupt,
}

/// The backing file content as a sequence of characters, `None` when the
/// file does not exist.
pub open spec fn content_view(content: Option<&str>) -> Option<Seq<char>> {
    match content {
        Some(t) => Some(t@),
        None => None,
    }
}

/// The mapping a backing content denotes: a missing file denotes the empty
/// store, an existing file denotes what its text parses to, and `None` means
/// the text is corrupt.
pub open spec fn store_view(content: Option<Seq<char>>) -> Option<Map<Seq<char>, Seq<char>>> {
    match content {
        None => Some(Map::empty()),
        Some(t) => store_of_text(t),
    }
}

/// The raw value text under a key, if the key is present.
pub open spec fn lookup_raw(m: Map<Seq<char>, Seq<char>>, k: Seq<char>) -> Option<Seq<char>> {
    if m.contains_key(k) {
        Some(m[k])
    } else {
        None
    }
}

/// The string value under a key: present exactly when the key is present
/// and its value text decodes as a JSON string.
pub open spec fn lookup_string(m: Map<Seq<char>, Seq<char>>, k: Seq<char>) -> Option<Seq<char>> {
    match lookup_raw(m, k) {
        Some(t) => decoded_string(t),
        None => None,
    }
}

/// The integer value under a key: present exactly when the key is present
/// and its value text decodes as a JSON number in `i64` range.
pub open spec fn lookup_i64(m: Map<Seq<char>, Seq<char>>, k: Seq<char>) -> Option<int> {
    match lookup_raw(m, k) {
        Some(t) => decoded_i64(t),
        None => None,
    }
}

pub open spec fn opt_string_view(o: Option<String>) -> Option<Seq<char>> {
    match o {
        Some(s) => Some(s@),
        None => None,
    }
}

pub open spec fn opt_i64_view(o: Option<i64>) -> Option<int> {
    match o {
        Some(n) => Some(n as int),
        None => None,
    }
}

/// The path of the backing file under a base directory, components joined
/// with `/`.
pub open spec fn store_path(base: Seq<char>) -> Seq<char> {
    base + "/.local/saraf-currency-exchange-systems-front/kvs.json"@
}

/// Durable key-value persistence backed by one JSON object file under a
/// fixed subdirectory of the given base directory.
pub struct KeyValueStore {
    base_dir: String,
}

impl KeyValueStore {
    /// The base directory the store was built over.
    pub closed spec fn base(&self) -> Seq<char> {
        self.base_dir@
    }

    /// Stores the base directory; touches nothing else.
    pub fn new(base_dir: String) -> (r: Self)
        ensures
            r.base() == base_dir@,
    {
        KeyValueStore { base_dir }
    }

    /// Computes the full path of the backing file.  The caller is expected
    /// to create the intermediate directories and, when the file is absent,
    /// to create it with the content `initial_content` returns, before every
    /// read or write of the file.
    pub fn get_store_full_path(&self) -> (r: String)
        ensures
            r@ == store_path(self.base()),
    {
        let mut path = self.base_dir.clone();
        path.append("/.local/saraf-currency-exchange-systems-front/kvs.json");
        path
    }

    /// The content a missing backing file is created with: the empty JSON
    /// object, which parses to the empty store.
    pub fn initial_content(&self) -> (r: String)
        ensures
            r@ == codec::empty_object_text(),
            store_of_text(r@) == Some(Map::<Seq<char>, Seq<char>>::empty()),
    {
        let r: String = "{}".to_owned();
        proof {
            reveal_strlit("{}");
            assert(r@ =~= codec::empty_object_text());
        }
        let checked = codec::parse_store_text(r.as_str());
        proof {
            let ps = checked.unwrap();
            assert(ps@ =~= Seq::<(String, String)>::empty());
            assert(store_of_text(r@) == Some(codec::map_of_pairs(ps@)));
        }
        r
    }

    /// Parses the backing content into the store image.  A missing file
    /// denotes the empty store; a file that does not parse as a JSON object
    /// is reported as corrupt.
    pub fn get_hash_map(&self, content: Option<&str>) -> (r: Result<StoreMap, StoreError>)
        ensures
            match store_view(content_view(content)) {
                Some(m) => r matches Ok(sm) && sm@ == m,
                None => r matches Err(e) && e == StoreError::Corrupt,
            },
    {
        match content {
            None => Ok(StoreMap::empty()),
            Some(t) => match codec::parse_store_text(t) {
                Some(ps) => Ok(StoreMap::from_pairs(ps)),
                None => Err(StoreError::Corrupt),
            },
        }
    }

    /// Reads the string value under a key.  A key that was never written,
    /// and a key whose value is not a JSON string, both read as absent; only
    /// a backing content that is not a JSON object at all is an error.
    pub fn get_as(&self, content: Option<&str>, key: &str) -> (r: Result<
        Option<String>,
        StoreError,
    >)
        ensures
            match store_view(content_view(content)) {
                Some(m) => r matches Ok(o) && opt_string_view(o) == lookup_string(m, key@),
                None => r matches Err(e) && e == StoreError::Corrupt,
            },
    {
        let sm = match self.get_hash_map(content) {
            Ok(sm) => sm,
            Err(e) => {
                return Err(e);
            },
        };
        match sm.get(key) {
            Some(vt) => Ok(codec::decode_string(vt.as_str())),
            None => Ok(None),
        }
    }

    /// Reads the integer value under a key, in the same way.
    pub fn get_as_i64(&self, content: Option<&str>, key: &str) -> (r: Result<
        Option<i64>,
        StoreError,
    >)
        ensures
            match store_view(content_view(content)) {
                Some(m) => r matches Ok(o) && opt_i64_view(o) == lookup_i64(m, key@),
                None => r matches Err(e) && e == StoreError::Corrupt,
            },
    {
        let sm = match self.get_hash_map(content) {
            Ok(sm) => sm,
            Err(e) => {
                return Err(e);
            },
        };
        match sm.get(key) {
            Some(vt) => Ok(codec::decode_i64(vt.as_str())),
            None => Ok(None),
        }
    }

    /// Writes a string value under a key and returns the full new backing
    /// content.  The new content parses back to the old mapping with exactly
    /// this key replaced; the key then reads back as this string and not as
    /// an integer, and every other key keeps its raw value.
    pub fn set(&self, content: Option<&str>, key: &str, value: &str) -> (r: Result<
        String,
        StoreError,
    >)
        ensures
            match store_view(content_view(content)) {
                Some(m) => {
                    &&& r matches Ok(t)
                    &&& t@ == text_of_store(m.insert(key@, json_of_string(value@)))
                    &&& store_of_text(t@) == Some(m.insert(key@, json_of_string(value@)))
                    &&& lookup_string(m.insert(key@, json_of_string(value@)), key@) == Some(
                        value@,
                    )
                    &&& lookup_i64(m.insert(key@, json_of_string(value@)), key@) is None
                    &&& forall|k2: Seq<char>|
                        k2 != key@ ==> lookup_raw(m.insert(key@, json_of_string(value@)), k2)
                            == lookup_raw(m, k2)
                },
                None => r matches Err(e) && e == StoreError::Corrupt,
            },
    {
        let mut sm = match self.get_hash_map(content) {
            Ok(sm) => sm,
            Err(e) => {
                return Err(e);
            },
        };
        let vt = codec::encode_string(value);
        sm.insert_canonical(key, vt);
        Ok(sm.to_text())
    }

    /// Writes an integer value under a key, in the same way; the key then
    /// reads back as this integer and not as a string.
    pub fn set_i64(&self, content: Option<&str>, key: &str, value: i64) -> (r: Result<
        String,
        StoreError,
    >)
        ensures
            match store_view(content_view(content)) {
                Some(m) => {
                    &&& r matches Ok(t)
                    &&& t@ == text_of_store(m.insert(key@, json_of_i64(value as int)))
                    &&& store_of_text(t@) == Some(m.insert(key@, json_of_i64(value as int)))
                    &&& lookup_i64(m.insert(key@, json_of_i64(value as int)), key@) == Some(
                        value as int,
                    )
                    &&& lookup_string(m.insert(key@, json_of_i64(value as int)), key@) is None
                    &&& forall|k2: Seq<char>|
                        k2 != key@ ==> lookup_raw(m.insert(key@, json_of_i64(value as int)), k2)
                            == lookup_raw(m, k2)
                },
                None => r matches Err(e) && e == StoreError::Corrupt,
            },
    {
        let mut sm = match self.get_hash_map(content) {
            Ok(sm) => sm,
            Err(e) => {
                return Err(e);
            },
        };
        let vt = codec::encode_i64(value);
        sm.insert_canonical(key, vt);
        Ok(sm.to_text())
    }
}

/// A key that is not in the mapping reads as absent, both raw and decoded.
pub proof fn lemma_absent_key_reads_absent(m: Map<Seq<char>, Seq<char>>, k: Seq<char>)
    requires
        !m.contains_key(k),
    ensures
        lookup_raw(m, k) is None,
        lookup_string(m, k) is None,
        lookup_i64(m, k) is None,
{
}

/// Writing a key twice leaves only the second value retrievable under it,
/// and leaves every other key's raw value as it was.
pub proof fn lemma_second_write_wins(
    m: Map<Seq<char>, Seq<char>>,
    k: Seq<char>,
    v1: Seq<char>,
    v2: Seq<char>,
)
    ensures
        m.insert(k, v1).insert(k, v2) == m.insert(k, v2),
        lookup_raw(m.insert(k, v1).insert(k, v2), k) == Some(v2),
        forall|k2: Seq<char>|
            k2 != k ==> lookup_raw(m.insert(k, v1).insert(k, v2), k2) == lookup_raw(m, k2),
{
    assert(m.insert(k, v1).insert(k, v2) =~= m.insert(k, v2));
}

} // verus!
