//! The browser-storage-backed key-value store.
//!
//! The backing medium keeps one independent entry per key, each holding the
//! JSON text of its value.  The storage calls themselves stay with the
//! surrounding program: it reads the raw entry for a key and hands it to
//! `get_as`, and writes the text `set` returns back under the key.  Entries
//! are independent, so writes to distinct keys never touch each other.

use vstd::prelude::*;

use crate::codec;
use crate::codec::decoded_string;
use crate::codec::json_of_string;
use crate::store::opt_string_view;

verus! {

/// The string value a raw storage entry denotes: present exactly when the
/// entry exists and decodes as a JSON string; a missing entry and an entry
/// of another type both read as absent.
pub open spec fn entry_string(raw: Option<Seq<char>>) -> Option<Seq<char>> {
    match raw {
        Some(t) => decoded_string(t),
        None => None,
    }
}

/// Key-value persistence backed by the browser's persistent storage object.
pub struct KeyValueStore {}

impl KeyValueStore {
    pub fn new() -> (r: Self)
    {
        KeyValueStore {  }
    }

    /// Reads the string value a raw entry denotes.
    pub fn get_as(&self, raw: Option<&str>) -> (r: Option<String>)
        ensures
            opt_string_view(r) == entry_string(
                match raw {
                    Some(t) => Some(t@),
                    None => None,
                },
            ),
    {
        match raw {
            Some(t) => codec::decode_string(t),
            None => None,
        }
    }

    /// Encodes a string value into the entry text to store under its key.
    /// The text reads back as the same string.
    pub fn set(&self, value: &str) -> (r: String)
        ensures
            r@ == json_of_string(value@),
            entry_string(Some(r@)) == Some(value@),
    {
        codec::encode_string(value)
    }
}

} // verus!
