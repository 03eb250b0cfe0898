//! The in-memory image of the store: a mapping from string keys to the
//! canonical JSON texts of their values.
//!
//! The image is held as an association list with distinct keys, viewed as a
//! `Map<Seq<char>, Seq<char>>`.  Every value text is canonical (see
//! `codec::canonical_text`), so the image can always be serialized back to a
//! file text that parses to the same map.

use vstd::prelude::*;

use crate::codec::canonical_text;
use crate::codec::map_of_pairs;
use crate::codec::store_of_text;
use crate::codec::store_text_of_pairs;
use crate::codec::text_of_store;

verus! {

/// No two entries share a key.
pub open spec fn distinct_keys(ps: Seq<(String, String)>) -> bool {
    forall|i: int, j: int|
        0 <= i < j < ps.len() ==> (#[trigger] ps[i]).0@ != (#[trigger] ps[j]).0@
}

/// Every value text is canonical JSON.
pub open spec fn canonical_values(ps: Seq<(String, String)>) -> bool {
    forall|i: int| 0 <= i < ps.len() ==> canonical_text((#[trigger] ps[i]).1@)
}

/// A key is in the map of an association list exactly when some entry
/// carries it, and under distinct keys that entry gives its value.
proof fn lemma_map_of_pairs_get(ps: Seq<(String, String)>, k: Seq<char>)
    ensures
        map_of_pairs(ps).contains_key(k) <==> (exists|i: int|
            0 <= i < ps.len() && (#[trigger] ps[i]).0@ == k),
        distinct_keys(ps) ==> forall|i: int|
            0 <= i < ps.len() && (#[trigger] ps[i]).0@ == k ==> map_of_pairs(ps)[k] == ps[i].1@,
    decreases ps.len(),
{
    if ps.len() > 0 {
        let qs = ps.drop_last();
        lemma_map_of_pairs_get(qs, k);
        assert(forall|i: int| 0 <= i < qs.len() ==> #[trigger] qs[i] == ps[i]);
        if ps.last().0@ == k {
            assert((ps[ps.len() - 1]).0@ == k);
        } else {
            if exists|i: int| 0 <= i < ps.len() && (#[trigger] ps[i]).0@ == k {
                let i = choose|i: int| 0 <= i < ps.len() && (#[trigger] ps[i]).0@ == k;
                assert(qs[i].0@ == k);
            }
        }
        if distinct_keys(ps) {
            assert(distinct_keys(qs));
            assert forall|i: int|
                0 <= i < ps.len() && (#[trigger] ps[i]).0@ == k implies map_of_pairs(ps)[k]
                == ps[i].1@ by {
                if i < ps.len() - 1 {
                    assert(ps.last().0@ != ps[i].0@);
                    assert(qs[i] == ps[i]);
                }
            }
        }
    }
}

/// Replacing the one entry that carries a key, by removing it and pushing the
/// new pair, changes the map exactly by an insert, and keeps the list's
/// invariants.
proof fn lemma_remove_push(ps: Seq<(String, String)>, i: int, kv: (String, String))
    requires
        distinct_keys(ps),
        canonical_values(ps),
        canonical_text(kv.1@),
        0 <= i < ps.len(),
        ps[i].0@ == kv.0@,
    ensures
        map_of_pairs(ps.remove(i).push(kv)) == map_of_pairs(ps).insert(kv.0@, kv.1@),
        distinct_keys(ps.remove(i).push(kv)),
        canonical_values(ps.remove(i).push(kv)),
{
    let qs = ps.remove(i);
    let rs = qs.push(kv);
    assert(forall|a: int| 0 <= a < i ==> #[trigger] qs[a] == ps[a]);
    assert(forall|a: int| i <= a < qs.len() ==> #[trigger] qs[a] == ps[a + 1]);
    assert(distinct_keys(qs));
    assert(forall|a: int| 0 <= a < qs.len() ==> (#[trigger] qs[a]).0@ != kv.0@);
    assert(distinct_keys(rs)) by {
        assert(forall|a: int| 0 <= a < qs.len() ==> #[trigger] rs[a] == qs[a]);
        assert(rs[rs.len() - 1] == kv);
    }
    assert(canonical_values(rs)) by {
        assert(forall|a: int| 0 <= a < qs.len() ==> #[trigger] rs[a] == qs[a]);
        assert(rs[rs.len() - 1] == kv);
    }
    assert(rs.drop_last() =~= qs);
    assert(rs.last() == kv);
    assert(map_of_pairs(rs) == map_of_pairs(qs).insert(kv.0@, kv.1@));
    assert(map_of_pairs(qs).insert(kv.0@, kv.1@) =~= map_of_pairs(ps).insert(kv.0@, kv.1@)) by {
        assert forall|x: Seq<char>|
            map_of_pairs(qs).contains_key(x) == map_of_pairs(ps).contains_key(x) || x
                == kv.0@ by {
            lemma_map_of_pairs_get(qs, x);
            lemma_map_of_pairs_get(ps, x);
            if x != kv.0@ {
                if exists|a: int| 0 <= a < ps.len() && (#[trigger] ps[a]).0@ == x {
                    let a = choose|a: int| 0 <= a < ps.len() && (#[trigger] ps[a]).0@ == x;
                    if a < i {
                        assert(qs[a].0@ == x);
                    } else {
                        assert(a != i);
                        assert(qs[a - 1].0@ == x);
                    }
                }
                if exists|a: int| 0 <= a < qs.len() && (#[trigger] qs[a]).0@ == x {
                    let a = choose|a: int| 0 <= a < qs.len() && (#[trigger] qs[a]).0@ == x;
                    if a < i {
                        assert(ps[a].0@ == x);
                    } else {
                        assert(ps[a + 1].0@ == x);
                    }
                }
            }
        }
        assert forall|x: Seq<char>|
            x != kv.0@ && map_of_pairs(ps).contains_key(x) implies map_of_pairs(qs)[x]
            == map_of_pairs(ps)[x] by {
            lemma_map_of_pairs_get(ps, x);
            lemma_map_of_pairs_get(qs, x);
            let a = choose|a: int| 0 <= a < ps.len() && (#[trigger] ps[a]).0@ == x;
            if a < i {
                assert(qs[a].0@ == x && qs[a].1@ == ps[a].1@);
            } else {
                assert(a != i);
                assert(qs[a - 1].0@ == x && qs[a - 1].1@ == ps[a].1@);
            }
        }
    }
}

/// The store image: string keys, each mapped to the canonical JSON text of
/// its value.
pub struct StoreMap {
    entries: Vec<(String, String)>,
}

impl View for StoreMap {
    type V = Map<Seq<char>, Seq<char>>;

    closed spec fn view(&self) -> Map<Seq<char>, Seq<char>> {
        map_of_pairs(self.entries@)
    }
}

impl StoreMap {
    #[verifier::type_invariant]
    spec fn wf(&self) -> bool {
        distinct_keys(self.entries@) && canonical_values(self.entries@)
    }

    /// The image of a store that holds no keys.
    pub fn empty() -> (r: StoreMap)
        ensures
            r@ == Map::<Seq<char>, Seq<char>>::empty(),
    {
        StoreMap { entries: Vec::new() }
    }

    /// Builds the image from parsed entries.
    pub(crate) fn from_pairs(entries: Vec<(String, String)>) -> (r: StoreMap)
        requires
            distinct_keys(entries@),
            canonical_values(entries@),
        ensures
            r@ == map_of_pairs(entries@),
    {
        StoreMap { entries }
    }

    /// Looks a key up and returns the JSON text of its value, if any.
    pub fn get(&self, key: &str) -> (r: Option<String>)
        ensures
            match r {
                Some(v) => self@.contains_key(key@) && v@ == self@[key@],
                None => !self@.contains_key(key@),
            },
    {
        proof {
            use_type_invariant(self);
        }
        let key_string: String = key.to_owned();
        let n = self.entries.len();
        let mut idx: usize = 0;
        while idx < n
            invariant
                n == self.entries@.len(),
                idx <= n,
                key_string@ == key@,
                self.wf(),
                forall|j: int| 0 <= j < idx ==> (#[trigger] self.entries@[j]).0@ != key@,
            decreases n - idx,
        {
            if self.entries[idx].0 == key_string {
                let v = self.entries[idx].1.clone();
                proof {
                    lemma_map_of_pairs_get(self.entries@, key@);
                }
                return Some(v);
            }
            idx += 1;
        }
        proof {
            lemma_map_of_pairs_get(self.entries@, key@);
        }
        None
    }

    /// Inserts or overwrites a key with the canonical JSON text of a value.
    pub(crate) fn insert_canonical(&mut self, key: &str, value_text: String)
        requires
            canonical_text(value_text@),
        ensures
            final(self)@ == old(self)@.insert(key@, value_text@),
    {
        proof {
            use_type_invariant(&*self);
        }
        let mut taken = StoreMap { entries: Vec::new() };
        core::mem::swap(self, &mut taken);
        let StoreMap { entries: mut entries } = taken;
        let ghost ps0 = entries@;
        let key_string: String = key.to_owned();
        let n = entries.len();
        let mut idx: usize = 0;
        while idx < n
            invariant
                n == entries@.len(),
                idx <= n,
                key_string@ == key@,
                canonical_text(value_text@),
                entries@ == ps0,
                ps0 == old(self).entries@,
                distinct_keys(ps0),
                canonical_values(ps0),
                forall|j: int| 0 <= j < idx ==> (#[trigger] entries@[j]).0@ != key@,
            decreases n - idx,
        {
            if entries[idx].0 == key_string {
                proof {
                    lemma_remove_push(entries@, idx as int, (key_string, value_text));
                }
                entries.remove(idx);
                entries.push((key_string, value_text));
                *self = StoreMap { entries };
                return ;
            }
            idx += 1;
        }
        entries.push((key_string, value_text));
        proof {
            assert(entries@.drop_last() =~= ps0);
            assert(entries@.last() == (key_string, value_text));
            assert(distinct_keys(entries@)) by {
                assert(forall|j: int| 0 <= j < ps0.len() ==> #[trigger] entries@[j] == ps0[j]);
            }
            assert(canonical_values(entries@)) by {
                assert(forall|j: int| 0 <= j < ps0.len() ==> #[trigger] entries@[j] == ps0[j]);
            }
        }
        *self = StoreMap { entries };
    }

    /// Serializes the image to the pretty-printed text of one JSON object.
    /// The text parses back to exactly this image.
    pub fn to_text(&self) -> (r: String)
        ensures
            r@ == text_of_store(self@),
            store_of_text(r@) == Some(self@),
    {
        proof {
            use_type_invariant(self);
        }
        match store_text_of_pairs(&self.entries) {
            Some(t) => t,
            None => vstd::pervasive::unreached(),
        }
    }
}

} // verus!
