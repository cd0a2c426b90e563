//! The insertion-ordered hash map that holds a parameter collection.
//!
//! The map is `indexmap::IndexMap`. Verus does not look into it: this module
//! names what a map holds and states, for each method that the library calls,
//! what the method does to that content. These statements are believed, not
//! proved.

use indexmap::IndexMap;
use vstd::prelude::*;

use crate::parameter::{Parameter, ParameterView};

verus! {

/// `indexmap::IndexMap`, a hash map that keeps its entries in a sequence.
#[verifier::external_type_specification]
#[verifier::external_body]
#[verifier::reject_recursive_types(K)]
#[verifier::reject_recursive_types(V)]
#[verifier::reject_recursive_types(S)]
pub struct ExIndexMap<K, V, S>(IndexMap<K, V, S>);

/// The entries of a map from keys to parameters, in the order of the map, each
/// as the pair of its key and its value.
pub uninterp spec fn map_entries(map: IndexMap<String, Parameter>) -> Seq<(Seq<char>, ParameterView)>;

/// `IndexMap::new`: a new map holds no entry.
#[verifier::external_body]
pub(crate) fn map_new() -> (map: IndexMap<String, Parameter>)
    ensures
        map_entries(map) == Seq::<(Seq<char>, ParameterView)>::empty(),
{
    IndexMap::new()
}

/// `IndexMap::len`: the number of entries.
#[verifier::external_body]
pub(crate) fn map_len(map: &IndexMap<String, Parameter>) -> (len: usize)
    ensures
        len == map_entries(*map).len(),
{
    map.len()
}

/// `IndexMap::get_index`: the entry at a position of the order, for every
/// position below the length, and nothing for any other.
#[verifier::external_body]
pub(crate) fn map_get_index(map: &IndexMap<String, Parameter>, index: usize) -> (entry: Option<
    (&String, &Parameter),
>)
    ensures
        entry is Some <==> index < map_entries(*map).len(),
        entry matches Some((key, value)) ==> (key@, value@) == map_entries(*map)[index as int],
{
    map.get_index(index)
}

/// `IndexMap::get_index_of`: the position of the entry with the given key, or
/// nothing if no entry has that key.
#[verifier::external_body]
pub(crate) fn map_get_index_of(map: &IndexMap<String, Parameter>, key: &str) -> (position: Option<
    usize,
>)
    ensures
        match position {
            Some(index) => index < map_entries(*map).len() && map_entries(*map)[index as int].0
                == key@,
            None => forall|i: int|
                0 <= i < map_entries(*map).len() ==> (#[trigger] map_entries(*map)[i]).0 != key@,
        },
{
    map.get_index_of(key)
}

/// `IndexMap::insert`: where an entry has the key, the entry stays in its place
/// and takes the new value, and the value that it had is returned; where none
/// has it, the pair becomes the last entry and nothing is returned.
#[verifier::external_body]
pub(crate) fn map_insert(map: &mut IndexMap<String, Parameter>, key: String, value: Parameter) -> (previous:
    Option<Parameter>)
    ensures
        match previous {
            Some(replaced) => exists|i: int|
                0 <= i < map_entries(*old(map)).len() && (#[trigger] map_entries(*old(map))[i])
                    == (key@, replaced@) && map_entries(*final(map)) == map_entries(
                    *old(map),
                ).update(i, (key@, value@)),
            None => (forall|i: int|
                0 <= i < map_entries(*old(map)).len() ==> (#[trigger] map_entries(
                    *old(map),
                )[i]).0 != key@) && map_entries(*final(map)) == map_entries(*old(map)).push(
                (key@, value@),
            ),
        },
{
    map.insert(key, value)
}

/// `IndexMap::shift_remove_index`: for a position below the length, the entry
/// at the position is removed and returned, and the entries that follow it move
/// up by one, in their order; for any other position the map stays as it is
/// and nothing is returned.
#[verifier::external_body]
pub(crate) fn map_shift_remove_index(map: &mut IndexMap<String, Parameter>, index: usize) -> (removed:
    Option<(String, Parameter)>)
    ensures
        match removed {
            Some((key, value)) => index < map_entries(*old(map)).len() && (key@, value@)
                == map_entries(*old(map))[index as int] && map_entries(*final(map))
                == map_entries(*old(map)).remove(index as int),
            None => index >= map_entries(*old(map)).len() && map_entries(*final(map))
                == map_entries(*old(map)),
        },
{
    map.shift_remove_index(index)
}

/// `IndexMap::into_iter`: the entries that a map holds, in the order of the
/// map, each key with its value.
#[verifier::external_body]
pub(crate) fn map_into_entries(map: IndexMap<String, Parameter>) -> (entries: Vec<
    (String, Parameter),
>)
    ensures
        entries.len() == map_entries(map).len(),
        forall|i: int|
            0 <= i < entries.len() ==> ((#[trigger] entries[i]).0@, entries[i].1@) == map_entries(
                map,
            )[i],
{
    map.into_iter().collect()
}

} // verus!
