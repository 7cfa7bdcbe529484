//! Trusted interface to `indexmap::IndexMap`, used with `String` keys and unit
//! values as an insertion-ordered set of names.

use vstd::prelude::*;
use indexmap::IndexMap;

verus! {

/// Declares `indexmap::IndexMap` as an opaque type.
#[verifier::external_type_specification]
#[verifier::external_body]
#[verifier::reject_recursive_types(K)]
#[verifier::reject_recursive_types(V)]
#[verifier::reject_recursive_types(S)]
pub struct ExIndexMap<K, V, S>(IndexMap<K, V, S>);

/// The keys of a string-keyed `IndexMap`, each taken by its characters, in
/// the map's order (the order in which they were first inserted).
pub uninterp spec fn index_map_keys(m: IndexMap<String, ()>) -> Seq<Seq<char>>;

/// `IndexMap::new`: claims that the new map holds no keys.
#[verifier::external_body]
pub(crate) fn key_map_new() -> (m: IndexMap<String, ()>)
    ensures
        index_map_keys(m) == Seq::<Seq<char>>::empty(),
{
    IndexMap::new()
}

/// `IndexMap::entry` followed by `Entry::or_insert`: claims that a key
/// already present (compared by its characters, as `String`'s `Eq` and `Hash`
/// do) leaves the keys unchanged, and that an absent key is appended last.
#[verifier::external_body]
pub(crate) fn key_map_entry_or_insert(m: &mut IndexMap<String, ()>, key: String)
    ensures
        index_map_keys(*final(m)) == (if index_map_keys(*old(m)).contains(key@) {
            index_map_keys(*old(m))
        } else {
            index_map_keys(*old(m)).push(key@)
        }),
{
    m.entry(key).or_insert(());
}

/// `IndexMap::entry` followed by `Entry::insert_entry`: claims that a key
/// already present keeps its place, and that an absent key is appended last.
#[verifier::external_body]
pub(crate) fn key_map_entry_insert(m: &mut IndexMap<String, ()>, key: String)
    ensures
        index_map_keys(*final(m)) == (if index_map_keys(*old(m)).contains(key@) {
            index_map_keys(*old(m))
        } else {
            index_map_keys(*old(m)).push(key@)
        }),
{
    m.entry(key).insert_entry(());
}

/// `IndexMap::get_index_of`: claims that the result is the position of a key
/// equal to `key`, or `None` exactly when no key equals it.
#[verifier::external_body]
pub(crate) fn key_map_get_index_of(m: &IndexMap<String, ()>, key: &String) -> (r: Option<usize>)
    ensures
        match r {
            Some(i) => i < index_map_keys(*m).len() && index_map_keys(*m)[i as int] == key@,
            None => !index_map_keys(*m).contains(key@),
        },
{
    m.get_index_of(key)
}

/// `IndexMap::get_index`, keeping the key: claims that an index below the
/// map's length gives the key at that place in the map's order, and any
/// other index gives `None`.
#[verifier::external_body]
pub(crate) fn key_map_get_index(m: &IndexMap<String, ()>, i: usize) -> (r: Option<&String>)
    ensures
        (i < index_map_keys(*m).len()) == (r is Some),
        r is Some ==> r.unwrap()@ == index_map_keys(*m)[i as int],
{
    match m.get_index(i) {
        Some((k, _)) => Some(k),
        None => None,
    }
}

/// `IndexMap::keys`, each key cloned: claims that the result holds the keys
/// in the map's order.
#[verifier::external_body]
pub(crate) fn key_map_keys(m: &IndexMap<String, ()>) -> (r: Vec<String>)
    ensures
        r@.len() == index_map_keys(*m).len(),
        forall|i: int| 0 <= i < r@.len() ==> #[trigger] r@[i]@ == index_map_keys(*m)[i],
{
    m.keys().cloned().collect()
}

} // verus!
