//! Tables keyed by a module's result ids, and sets of such ids.
use vstd::prelude::*;
use std::collections::HashMap;
use std::collections::HashSet;

verus! {

/// `fxhash::FxHasher`, the hasher of the tables.
#[verifier::external_type_specification]
#[verifier::external_body]
pub struct ExFxHasher(fxhash::FxHasher);

/// `core::hash::BuildHasherDefault`, which makes the hashers of a table.
#[verifier::external_type_specification]
#[verifier::external_body]
#[verifier::reject_recursive_types(H)]
pub struct ExBuildHasherDefault<H>(core::hash::BuildHasherDefault<H>);

/// A table from result ids to values, hashed by `fxhash`.
pub type IdMap<V> = HashMap<u32, V, fxhash::FxBuildHasher>;

/// `fxhash::FxHashMap::default`: the new table is empty.
#[verifier::external_body]
pub(crate) fn id_map_new<V>() -> (m: IdMap<V>)
    ensures
        m@ =~= Map::empty(),
{
    fxhash::FxHashMap::default()
}

/// `HashMap::insert` on a table hashed by `fxhash`: afterwards `id` maps to `value`, and every
/// other id to what it mapped to before.
#[verifier::external_body]
pub(crate) fn id_map_insert<V>(m: &mut IdMap<V>, id: u32, value: V)
    ensures
        final(m)@ == old(m)@.insert(id, value),
{
    m.insert(id, value);
}

/// `HashMap::get` on a table hashed by `fxhash`: the value that `id` maps to, if it maps to
/// one.
#[verifier::external_body]
pub(crate) fn id_map_get<V: Copy>(m: &IdMap<V>, id: u32) -> (r: Option<V>)
    ensures
        r == if m@.contains_key(id) { Some(m@[id]) } else { None },
{
    m.get(&id).copied()
}

/// A set of result ids, hashed by `fxhash`.
pub type IdSet = HashSet<u32, fxhash::FxBuildHasher>;

/// `fxhash::FxHashSet::default`: the new set is empty.
#[verifier::external_body]
pub(crate) fn id_set_new() -> (s: IdSet)
    ensures
        s@ =~= Set::empty(),
{
    fxhash::FxHashSet::default()
}

/// `HashSet::insert` on a set hashed by `fxhash`: afterwards the set holds `id` and what it
/// held before.
#[verifier::external_body]
pub(crate) fn id_set_insert(s: &mut IdSet, id: u32)
    ensures
        final(s)@ == old(s)@.insert(id),
{
    s.insert(id);
}

/// `HashSet::contains` on a set hashed by `fxhash`: whether the set holds `id`.
#[verifier::external_body]
pub(crate) fn id_set_contains(s: &IdSet, id: u32) -> (r: bool)
    ensures
        r == s@.contains(id),
{
    s.contains(&id)
}

} // verus!
