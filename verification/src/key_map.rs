//! The concurrent map from page keys to frame indices, and what this crate
//! takes on trust about it.
//!
//! The map is keyed by the table's name and the page number as plain values,
//! which are compared by content. Every function here turns a page key into
//! such a pair, makes one call into the map and hands back a plain value; no
//! reference into the map outlives a call.

use dashmap::DashMap;
use vstd::prelude::*;

use crate::definitions::BufferPoolKey;

verus! {

/// `dashmap::DashMap`, whose inside is of no concern here.
#[verifier::external_type_specification]
#[verifier::external_body]
#[verifier::reject_recursive_types(K)]
#[verifier::reject_recursive_types(V)]
#[verifier::reject_recursive_types(S)]
pub struct ExDashMap<K, V, S>(DashMap<K, V, S>);

/// Frame indices by table name and page number.
pub type KeyMap = DashMap<(String, usize), usize>;

/// The associations that a key map holds: for each key, by table name and
/// page number, the frame index stored under it.
pub uninterp spec fn key_map_entries(m: KeyMap) -> Map<(Seq<char>, usize), usize>;

/// `DashMap::default`: a new map holds no association.
#[verifier::external_body]
pub(crate) fn key_map_new() -> (created: KeyMap)
    ensures
        key_map_entries(created) == (Map::<(Seq<char>, usize), usize>::empty()),
{
    DashMap::default()
}

/// `DashMap::get`: the value stored under the key, if the map holds the key.
#[verifier::external_body]
pub(crate) fn key_map_get(m: &KeyMap, id: &BufferPoolKey) -> (found: Option<usize>)
    ensures
        found == (if key_map_entries(*m).contains_key(id@) {
            Some(key_map_entries(*m)[id@])
        } else {
            None
        }),
{
    m.get(&(id.0.0.clone(), id.1.0)).map(|entry| *entry.value())
}

/// `DashMap::insert`: afterwards the key is associated with the new value
/// and every other association is as before.
#[verifier::external_body]
pub(crate) fn key_map_insert(m: &mut KeyMap, id: &BufferPoolKey, frame: usize)
    ensures
        key_map_entries(*final(m)) == key_map_entries(*old(m)).insert(id@, frame),
{
    m.insert((id.0.0.clone(), id.1.0), frame);
}

/// `DashMap::remove`: afterwards the key is absent and every other
/// association is as before.
#[verifier::external_body]
pub(crate) fn key_map_remove(m: &mut KeyMap, id: &BufferPoolKey)
    ensures
        key_map_entries(*final(m)) == key_map_entries(*old(m)).remove(id@),
{
    m.remove(&(id.0.0.clone(), id.1.0));
}

} // verus!
