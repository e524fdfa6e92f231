//! The hash maps of `ahash` that hold the board and the pending updates.

use vstd::prelude::*;
use ahash::AHashMap;
use crate::generation::Update;

verus! {

#[verifier::external_type_specification]
#[verifier::external_body]
#[verifier::reject_recursive_types(K)]
#[verifier::reject_recursive_types(V)]
#[verifier::reject_recursive_types(S)]
pub struct ExAHashMap<K, V, S>(AHashMap<K, V, S>);

#[verifier::external_type_specification]
#[verifier::external_body]
pub struct ExRandomState(ahash::RandomState);

/// What a map of packed hex records holds, by hex coordinate.
pub uninterp spec fn cells_of(m: AHashMap<(i64, i64), u8>) -> Map<(i64, i64), u8>;

/// What a map of pending updates holds, by edge key.
pub uninterp spec fn updates_of(m: AHashMap<(i64, i64, u8), Update>) -> Map<
    (i64, i64, u8),
    Update,
>;

pub open spec fn no_cells() -> Map<(i64, i64), u8> {
    Map::empty()
}

pub open spec fn no_updates() -> Map<(i64, i64, u8), Update> {
    Map::empty()
}

/// Relies on `AHashMap::new`: a new map is empty.
#[verifier::external_body]
pub(crate) fn cells_new() -> (r: AHashMap<(i64, i64), u8>)
    ensures
        cells_of(r) == no_cells(),
{
    AHashMap::new()
}

/// Relies on `AHashMap`'s `Clone`: the copy holds the same entries.
#[verifier::external_body]
pub(crate) fn cells_clone(m: &AHashMap<(i64, i64), u8>) -> (r: AHashMap<(i64, i64), u8>)
    ensures
        cells_of(r) == cells_of(*m),
{
    m.clone()
}

/// Relies on `AHashMap::get`: the value stored under the key, if there is one.
#[verifier::external_body]
pub(crate) fn cells_get(m: &AHashMap<(i64, i64), u8>, k: (i64, i64)) -> (r: Option<u8>)
    ensures
        r == (if cells_of(*m).contains_key(k) {
            Some(cells_of(*m)[k])
        } else {
            None
        }),
{
    m.get(&k).copied()
}

/// Relies on `AHashMap::insert`: the key maps to the value afterwards, and
/// every other key keeps its value.
#[verifier::external_body]
pub(crate) fn cells_insert(m: &mut AHashMap<(i64, i64), u8>, k: (i64, i64), v: u8)
    ensures
        cells_of(*final(m)) == cells_of(*old(m)).insert(k, v),
{
    m.insert(k, v);
}

/// Relies on `AHashMap::remove`: the key is gone afterwards, and every other
/// key keeps its value.
#[verifier::external_body]
pub(crate) fn cells_remove(m: &mut AHashMap<(i64, i64), u8>, k: (i64, i64))
    ensures
        cells_of(*final(m)) == cells_of(*old(m)).remove(k),
{
    m.remove(&k);
}

/// Relies on `HashMap::clear`, reached through `AHashMap`'s `DerefMut`: the
/// map is empty afterwards.
#[verifier::external_body]
pub(crate) fn cells_clear(m: &mut AHashMap<(i64, i64), u8>)
    ensures
        cells_of(*final(m)) == no_cells(),
{
    m.clear();
}

/// Relies on `HashMap::iter`, reached through `AHashMap`'s `Deref`: each entry
/// once, in an order that the map's random hasher decides.
#[verifier::external_body]
pub(crate) fn cells_entries(m: &AHashMap<(i64, i64), u8>) -> (r: Vec<((i64, i64), u8)>)
    ensures
        forall|i: int|
            0 <= i < r.len() ==> #[trigger] cells_of(*m).contains_key(r[i].0) && cells_of(
                *m,
            )[r[i].0] == r[i].1,
        forall|k: (i64, i64)|
            #[trigger] cells_of(*m).contains_key(k) ==> exists|i: int|
                0 <= i < r.len() && r[i].0 == k,
        forall|i: int, j: int| 0 <= i < j < r.len() ==> r[i].0 != r[j].0,
{
    m.iter().map(|(k, v)| (*k, *v)).collect()
}

/// Relies on `AHashMap::new`: a new map is empty.
#[verifier::external_body]
pub(crate) fn updates_new() -> (r: AHashMap<(i64, i64, u8), Update>)
    ensures
        updates_of(r) == no_updates(),
{
    AHashMap::new()
}

/// Relies on `AHashMap::get`: the value stored under the key, if there is one.
#[verifier::external_body]
pub(crate) fn updates_get(m: &AHashMap<(i64, i64, u8), Update>, k: (i64, i64, u8)) -> (r: Option<
    Update,
>)
    ensures
        r == (if updates_of(*m).contains_key(k) {
            Some(updates_of(*m)[k])
        } else {
            None
        }),
{
    m.get(&k).copied()
}

/// Relies on `AHashMap::insert`: the key maps to the value afterwards, and
/// every other key keeps its value.
#[verifier::external_body]
pub(crate) fn updates_insert(m: &mut AHashMap<(i64, i64, u8), Update>, k: (i64, i64, u8), v: Update)
    ensures
        updates_of(*final(m)) == updates_of(*old(m)).insert(k, v),
{
    m.insert(k, v);
}

/// Relies on `AHashMap`'s `IntoIterator`: each entry once, in an order that the
/// map's random hasher decides.
#[verifier::external_body]
pub(crate) fn updates_entries(m: AHashMap<(i64, i64, u8), Update>) -> (r: Vec<
    ((i64, i64, u8), Update),
>)
    ensures
        forall|i: int|
            0 <= i < r.len() ==> #[trigger] updates_of(m).contains_key(r[i].0) && updates_of(
                m,
            )[r[i].0] == r[i].1,
        forall|k: (i64, i64, u8)|
            #[trigger] updates_of(m).contains_key(k) ==> exists|i: int|
                0 <= i < r.len() && r[i].0 == k,
        forall|i: int, j: int| 0 <= i < j < r.len() ==> r[i].0 != r[j].0,
{
    m.into_iter().collect()
}

} // verus!
