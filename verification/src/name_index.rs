//! Maps from names, kept in an `indexmap::IndexMap`: the index from the
//! names of items to their places, and the assignment of truth values to
//! features.
use vstd::prelude::*;
use indexmap::IndexMap;
use crate::context::first_index;

verus! {

/// `indexmap::IndexMap`, taken as an opaque type: what a map holds is
/// known through [`map_entries`] alone.
#[verifier::external_type_specification]
#[verifier::external_body]
#[verifier::reject_recursive_types(K)]
#[verifier::reject_recursive_types(V)]
#[verifier::reject_recursive_types(S)]
pub struct ExIndexMap<K, V, S>(IndexMap<K, V, S>);

/// The keys and values that an index holds, in the order of the map.
pub uninterp spec fn map_entries(m: IndexMap<String, usize>) -> Seq<(Seq<char>, usize)>;

/// The keys of a list of entries.
pub open spec fn entry_keys<V>(entries: Seq<(Seq<char>, V)>) -> Seq<Seq<char>> {
    Seq::new(entries.len(), |i: int| entries[i].0)
}

/// The value that a list of entries holds for a key.
pub open spec fn entry_value<V>(entries: Seq<(Seq<char>, V)>, key: Seq<char>) -> Option<V> {
    match first_index(entry_keys(entries), key) {
        Some(i) => Some(entries[i].1),
        None => None,
    }
}

/// The entries after an insertion: the value of a key that is there is
/// replaced where it stands, a new key goes to the end with its value.
pub open spec fn entries_with<V>(entries: Seq<(Seq<char>, V)>, key: Seq<char>, value: V) -> Seq<
    (Seq<char>, V),
> {
    match first_index(entry_keys(entries), key) {
        Some(i) => entries.update(i, (key, value)),
        None => entries.push((key, value)),
    }
}

/// `IndexMap::new`: a map that holds nothing.
#[verifier::external_body]
pub(crate) fn index_new() -> (m: IndexMap<String, usize>)
    ensures
        map_entries(m) == Seq::<(Seq<char>, usize)>::empty(),
{
    IndexMap::new()
}

/// `IndexMap::get`: the value that the map holds for the key, or nothing
/// where the key is not in the map.
#[verifier::external_body]
pub(crate) fn index_get(m: &IndexMap<String, usize>, key: &str) -> (r: Option<usize>)
    ensures
        r == entry_value(map_entries(*m), key@),
{
    m.get(key).copied()
}

/// `IndexMap::insert`: the value of a key that is in the map is replaced
/// and the key keeps its place; a new key goes to the end with its value.
#[verifier::external_body]
pub(crate) fn index_insert(m: &mut IndexMap<String, usize>, key: String, value: usize)
    ensures
        map_entries(*final(m)) == entries_with(map_entries(*old(m)), key@, value),
{
    m.insert(key, value);
}

/// The features and truth values that an assignment holds, in the order
/// of the map.
pub uninterp spec fn flag_entries(m: IndexMap<String, bool>) -> Seq<(Seq<char>, bool)>;

/// `IndexMap::new`: a map that holds nothing.
#[verifier::external_body]
pub(crate) fn flags_new() -> (m: IndexMap<String, bool>)
    ensures
        flag_entries(m) == Seq::<(Seq<char>, bool)>::empty(),
{
    IndexMap::new()
}

/// `IndexMap::get`: the value that the map holds for the key, or nothing
/// where the key is not in the map.
#[verifier::external_body]
pub(crate) fn flags_get(m: &IndexMap<String, bool>, key: &str) -> (r: Option<bool>)
    ensures
        r == entry_value(flag_entries(*m), key@),
{
    m.get(key).copied()
}

/// `IndexMap::insert`: the value of a key that is in the map is replaced
/// and the key keeps its place; a new key goes to the end with its value.
#[verifier::external_body]
pub(crate) fn flags_insert(m: &mut IndexMap<String, bool>, key: String, value: bool)
    ensures
        flag_entries(*final(m)) == entries_with(flag_entries(*old(m)), key@, value),
{
    m.insert(key, value);
}

} // verus!
