//! The sharded storage backend: a lock-striped concurrent map from context
//! name to a concurrent token set.  The collection itself comes from the
//! `dashmap` crate; each call into it stands behind a trusted wrapper whose
//! contract is stated over the named contents `shard_contents`.
use vstd::prelude::*;
use crate::model::{no_dup, set_or_empty, PoolModel};
use dashmap::{DashMap, DashSet};

verus! {

#[verifier::external_type_specification]
#[verifier::external_body]
#[verifier::reject_recursive_types(K)]
#[verifier::reject_recursive_types(V)]
#[verifier::reject_recursive_types(S)]
pub struct ExDashMap<K, V, S>(DashMap<K, V, S>);

#[verifier::external_type_specification]
#[verifier::external_body]
#[verifier::reject_recursive_types(K)]
#[verifier::reject_recursive_types(S)]
pub struct ExDashSet<K, S>(DashSet<K, S>);

/// What the sharded map holds: each context name mapped to the members of its
/// token set.  A context whose set has become empty may still carry a key
/// here; the registry view hides that.
pub uninterp spec fn shard_contents(m: DashMap<String, DashSet<u128>>) -> PoolModel;

/// Relies on `dashmap::DashMap::new`: a fresh map with no entries.
#[verifier::external_body]
pub fn shard_new() -> (r: DashMap<String, DashSet<u128>>)
    ensures
        forall|c: Seq<char>| !shard_contents(r).contains_key(c),
{
    DashMap::new()
}

/// Relies on `dashmap::DashMap::entry`, `Entry::or_insert_with` and
/// `dashmap::DashSet::insert`: the set under `key` (created empty when the
/// key is absent) gains `t`, and the result says whether `t` was not yet a
/// member.
#[verifier::external_body]
pub fn shard_try_insert(m: &mut DashMap<String, DashSet<u128>>, key: &str, t: u128) -> (r: bool)
    ensures
        r == !(shard_contents(*old(m)).contains_key(key@) && shard_contents(*old(m))[key@].contains(
            t,
        )),
        shard_contents(*final(m)) == shard_contents(*old(m)).insert(
            key@,
            set_or_empty(shard_contents(*old(m)), key@).insert(t),
        ),
{
    m.entry(key.to_owned()).or_insert_with(DashSet::new).insert(t)
}

/// Relies on `dashmap::DashMap::get` and `dashmap::DashSet::contains`: whether
/// `t` is a member of the set under `key`.
#[verifier::external_body]
pub fn shard_contains(m: &DashMap<String, DashSet<u128>>, key: &str, t: u128) -> (r: bool)
    ensures
        r == (shard_contents(*m).contains_key(key@) && shard_contents(*m)[key@].contains(t)),
{
    m.get(key).map(|s| s.contains(&t)).unwrap_or(false)
}

/// Relies on `dashmap::DashMap::get` and `dashmap::DashSet::remove`: `t`
/// leaves the set under `key` if both exist; the key itself stays, even over
/// an emptied set.  The result says whether `t` was a member.
#[verifier::external_body]
pub fn shard_remove(m: &mut DashMap<String, DashSet<u128>>, key: &str, t: u128) -> (r: bool)
    ensures
        r == (shard_contents(*old(m)).contains_key(key@) && shard_contents(*old(m))[key@].contains(
            t,
        )),
        shard_contents(*final(m)) == (if shard_contents(*old(m)).contains_key(key@) {
            shard_contents(*old(m)).insert(key@, shard_contents(*old(m))[key@].remove(t))
        } else {
            shard_contents(*old(m))
        }),
{
    m.get(key).map(|s| s.remove(&t).is_some()).unwrap_or(false)
}

/// Relies on `dashmap::DashMap::remove`: the entry under `key` is gone; a
/// no-op if it was absent.
#[verifier::external_body]
pub fn shard_clear_context(m: &mut DashMap<String, DashSet<u128>>, key: &str)
    ensures
        shard_contents(*final(m)) == shard_contents(*old(m)).remove(key@),
{
    m.remove(key);
}

/// Relies on `dashmap::DashMap::clear`: every entry is gone.
#[verifier::external_body]
pub fn shard_clear_all(m: &mut DashMap<String, DashSet<u128>>)
    ensures
        forall|c: Seq<char>| !shard_contents(*final(m)).contains_key(c),
{
    m.clear();
}

/// Relies on `dashmap::DashMap::get` and `dashmap::DashSet` iteration: a copy
/// of the members of the set under `key`, each exactly once, in no promised
/// order.
#[verifier::external_body]
pub fn shard_snapshot(m: &DashMap<String, DashSet<u128>>, key: &str) -> (r: Option<Vec<u128>>)
    ensures
        match r {
            Some(v) => shard_contents(*m).contains_key(key@) && v@.to_set() == shard_contents(*m)[key@]
                && no_dup(v@),
            None => !shard_contents(*m).contains_key(key@),
        },
{
    m.get(key).map(|s| s.iter().map(|x| *x).collect())
}

} // verus!
