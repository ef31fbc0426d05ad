//! The mathematical model of the registry: a map from context name to the set
//! of tokens currently tracked under it.  Every operation's contract is stated
//! over this model.
use vstd::prelude::*;

verus! {

/// What the registry holds: each context's name mapped to its token set.
/// An entry is present only while its set is non-empty.
pub type PoolModel = Map<Seq<char>, Set<u128>>;

/// Whether `t` is currently tracked under context `c`.
pub open spec fn tracked_in(m: PoolModel, c: Seq<char>, t: u128) -> bool {
    m.contains_key(c) && m[c].contains(t)
}

/// The token set of context `c`, or the empty set if `c` is absent.
pub open spec fn set_or_empty(m: PoolModel, c: Seq<char>) -> Set<u128> {
    if m.contains_key(c) {
        m[c]
    } else {
        Set::empty()
    }
}

/// The model after `t` is inserted under `c` (creating `c` if absent).
pub open spec fn with_token(m: PoolModel, c: Seq<char>, t: u128) -> PoolModel {
    m.insert(c, set_or_empty(m, c).insert(t))
}

/// The model after `t` is removed from `c`; a context whose set becomes empty
/// is pruned.
pub open spec fn without_token(m: PoolModel, c: Seq<char>, t: u128) -> PoolModel {
    if m[c].remove(t) == Set::<u128>::empty() {
        m.remove(c)
    } else {
        m.insert(c, m[c].remove(t))
    }
}

/// The observable part of a raw contents map: a context whose set is empty
/// reads as absent, which makes a backend that prunes emptied contexts at once
/// and one that keeps their keys around observably identical.
pub open spec fn normalize(m: PoolModel) -> PoolModel {
    Map::new(|c: Seq<char>| m.contains_key(c) && m[c] != Set::<u128>::empty(), |c: Seq<char>| m[c])
}

/// A sequence with no repeated elements.
pub open spec fn no_dup(s: Seq<u128>) -> bool {
    forall|i: int, j: int| 0 <= i < j < s.len() ==> s[i] != s[j]
}

} // verus!
