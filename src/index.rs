//! The hash index from a text to the arena slot that holds it.
use vstd::prelude::*;

verus! {

/// A `hashbrown` map from text to slot number, hashed with `ahash`.
#[verifier::external_body]
pub struct ContentIndex {
    map: hashbrown::HashMap<String, usize, ahash::RandomState>,
}

/// The pairs that the index holds: each text with its slot number.
pub uninterp spec fn index_entries(m: ContentIndex) -> Map<Seq<char>, usize>;

impl ContentIndex {
    /// Relies on `hashbrown::HashMap::default`: a new map holds no entry.
    #[verifier::external_body]
    pub(crate) fn new() -> (r: ContentIndex)
        ensures
            forall|k: Seq<char>| !(#[trigger] index_entries(r).contains_key(k)),
    {
        ContentIndex { map: hashbrown::HashMap::default() }
    }

    /// Relies on `hashbrown::HashMap::get`: the value stored under a key
    /// equal to `k`, if there is one.
    #[verifier::external_body]
    pub(crate) fn get(&self, k: &str) -> (r: Option<usize>)
        ensures
            r == (if index_entries(*self).contains_key(k@) {
                Some(index_entries(*self)[k@])
            } else {
                None::<usize>
            }),
    {
        self.map.get(k).copied()
    }

    /// Relies on `hashbrown::HashMap::insert`: afterwards `k` maps to `v`
    /// and every other key keeps its value.
    #[verifier::external_body]
    pub(crate) fn insert(&mut self, k: String, v: usize)
        ensures
            index_entries(*final(self)) == index_entries(*old(self)).insert(k@, v),
    {
        self.map.insert(k, v);
    }
}

} // verus!
