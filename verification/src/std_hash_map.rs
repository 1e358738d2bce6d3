//! The few `std::collections::HashMap` methods that the map uses and that
//! vstd gives no specification of. Each function below makes exactly one
//! call; its contract repeats what std's documentation says of that call.
use std::collections::HashMap;
use std::hash::BuildHasher;
use vstd::prelude::*;
use vstd::std_specs::hash::builds_valid_hashers;
use crate::id::Id;
use crate::id_map::{entry_ids, lists_dom};

verus! {

/// `HashMap::with_hasher`: std documents that it creates an *empty* map that
/// will use the given hash builder.
#[verifier::external_body]
pub(crate) fn hash_map_with_hasher<V, S>(hash_builder: S) -> (m: HashMap<u64, V, S>)
    ensures
        m@.is_empty(),
{
    HashMap::with_hasher(hash_builder)
}

/// `HashMap::with_capacity_and_hasher`: std documents that it creates an
/// *empty* map with room for at least `capacity` entries, using the given
/// hash builder. Nothing is claimed of the capacity actually allocated.
#[verifier::external_body]
pub(crate) fn hash_map_with_capacity_and_hasher<V, S>(capacity: usize, hash_builder: S) -> (m:
    HashMap<u64, V, S>)
    ensures
        m@.is_empty(),
{
    HashMap::with_capacity_and_hasher(capacity, hash_builder)
}

/// `HashMap::capacity`: std documents it as the number of elements the map
/// can hold without reallocating, so it is at least the number it holds.
/// The exact value depends on the allocator's choices and is not stated.
#[verifier::external_body]
pub(crate) fn hash_map_capacity<V, S>(m: &HashMap<u64, V, S>) -> (c: usize)
    ensures
        c >= m@.len(),
{
    m.capacity()
}

/// `HashMap::hasher`: returns a reference to the map's hash builder. Nothing
/// is claimed of it; the hash builder is opaque here.
#[verifier::external_body]
pub(crate) fn hash_map_hasher<V, S>(m: &HashMap<u64, V, S>) -> (h: &S) {
    m.hasher()
}

/// `HashMap::shrink_to_fit`: std documents that it only lowers the capacity;
/// the entries stay as they were.
#[verifier::external_body]
pub(crate) fn hash_map_shrink_to_fit<V, S: BuildHasher>(m: &mut HashMap<u64, V, S>)
    ensures
        final(m)@ == old(m)@,
{
    m.shrink_to_fit()
}

/// `HashMap::iter_mut`, its items collected into a vector with each key made
/// into an identifier. For a hash builder that behaves as `BuildHasher`
/// documents, std documents that the iterator visits every entry
/// once, in arbitrary order, yielding the key and a mutable reference to the
/// value; so each reference starts at the value held under its key, and what
/// is written through it is what the map holds under that key afterwards.
#[verifier::external_body]
pub(crate) fn hash_map_iter_mut<'a, T, S>(m: &'a mut HashMap<u64, T, S>) -> (r: Vec<(Id<T>, &'a mut T)>)
    requires
        builds_valid_hashers::<S>(),
    ensures
        lists_dom(old(m)@, entry_ids(r@)),
        forall|i: int| 0 <= i < r@.len() ==> *(#[trigger] r@[i]).1 == old(m)@[r@[i].0@],
        final(m)@.dom() == old(m)@.dom(),
        forall|i: int| 0 <= i < r@.len() ==> final(m)@[(#[trigger] r@[i]).0@] == *final(r@[i].1),
{
    m.iter_mut().map(|(k, v)| (Id::from_raw(*k), v)).collect()
}

/// `HashMap::values_mut`, its items collected into a vector. For a hash
/// builder that behaves as `BuildHasher` documents, std documents
/// that the iterator visits every entry once, in arbitrary order, yielding a
/// mutable reference to its value; so the references follow some listing of
/// the keys, each starts at the value held under its key, and what is written
/// through it is what the map holds under that key afterwards.
#[verifier::external_body]
pub(crate) fn hash_map_values_mut<'a, T, S>(m: &'a mut HashMap<u64, T, S>) -> (r: Vec<&'a mut T>)
    requires
        builds_valid_hashers::<S>(),
    ensures
        final(m)@.dom() == old(m)@.dom(),
        exists|keys: Seq<u64>|
            {
                &&& lists_dom(old(m)@, keys)
                &&& #[trigger] keys.len() == r@.len()
                &&& forall|i: int| 0 <= i < r@.len() ==> *r@[i] == old(m)@[keys[i]]
                &&& forall|i: int| 0 <= i < r@.len() ==> final(m)@[keys[i]] == *final(r@[i])
            },
{
    m.values_mut().collect()
}

} // verus!
