//! The registry: a map from context name to token set, over one of two
//! interchangeable storage backends chosen at construction time.  The
//! primitives here carry one contract, stated over the observable `PoolModel`,
//! whichever backend is underneath.
use vstd::prelude::*;
use crate::coarse::CoarseStore;
use crate::model::{
    no_dup, normalize, set_or_empty, tracked_in, with_token, without_token, PoolModel,
};
use crate::sharded::{
    shard_clear_all, shard_clear_context, shard_contains, shard_contents, shard_new, shard_remove,
    shard_snapshot, shard_try_insert,
};
use dashmap::{DashMap, DashSet};

verus! {

/// The storage backend: one ordinary map-of-sets serialized behind a single
/// lock by the caller, or a lock-striped concurrent map.
pub(crate) enum Store {
    Coarse(CoarseStore),
    Sharded(DashMap<String, DashSet<u128>>),
}

impl Store {
    /// The observable contents, with emptied-but-present contexts hidden.
    pub(crate) open spec fn contents(&self) -> PoolModel {
        match self {
            Store::Coarse(c) => c@,
            Store::Sharded(m) => normalize(shard_contents(*m)),
        }
    }

    pub(crate) open spec fn wf(&self) -> bool {
        match self {
            Store::Coarse(c) => c.wf(),
            Store::Sharded(_) => true,
        }
    }

    /// Creates the context if missing and inserts `t` unless it is already a
    /// member; the result says whether `t` was newly inserted.
    pub(crate) fn try_insert(&mut self, key: &String, t: u128) -> (r: bool)
        requires
            old(self).wf(),
        ensures
            final(self).wf(),
            r == !tracked_in(old(self).contents(), key@, t),
            r ==> final(self).contents() == with_token(old(self).contents(), key@, t),
            !r ==> final(self).contents() == old(self).contents(),
    {
        match self {
            Store::Coarse(c) => c.try_insert(key, t),
            Store::Sharded(m) => {
                let ghost raw = shard_contents(*m);
                let ghost c = key@;
                let r = shard_try_insert(m, key.as_str(), t);
                proof {
                    let raw2 = shard_contents(*m);
                    if raw.contains_key(c) && raw[c].contains(t) {
                        assert(raw[c] != Set::<u128>::empty());
                        assert(tracked_in(normalize(raw), c, t));
                    }
                    if r {
                        assert(set_or_empty(raw, c).insert(t).contains(t));
                        assert(normalize(raw2) =~= with_token(normalize(raw), c, t));
                    } else {
                        assert(raw[c].insert(t) =~= raw[c]);
                        assert(raw2 =~= raw);
                    }
                }
                r
            },
        }
    }

    /// Whether `t` is currently a member of the context named `key`.
    pub(crate) fn contains(&self, key: &String, t: u128) -> (r: bool)
        requires
            self.wf(),
        ensures
            r == tracked_in(self.contents(), key@, t),
    {
        match self {
            Store::Coarse(c) => c.contains(key, t),
            Store::Sharded(m) => {
                let r = shard_contains(m, key.as_str(), t);
                proof {
                    let raw = shard_contents(*m);
                    let c = key@;
                    if raw.contains_key(c) && raw[c].contains(t) {
                        assert(raw[c] != Set::<u128>::empty());
                    }
                }
                r
            },
        }
    }

    /// Removes `t` from the context named `key` if present; the result says
    /// whether it was.  An emptied context leaves the observable contents.
    pub(crate) fn remove(&mut self, key: &String, t: u128) -> (r: bool)
        requires
            old(self).wf(),
        ensures
            final(self).wf(),
            r == tracked_in(old(self).contents(), key@, t),
            r ==> final(self).contents() == without_token(old(self).contents(), key@, t),
            !r ==> final(self).contents() == old(self).contents(),
    {
        match self {
            Store::Coarse(c) => c.remove(key, t),
            Store::Sharded(m) => {
                let ghost raw = shard_contents(*m);
                let ghost c = key@;
                let r = shard_remove(m, key.as_str(), t);
                proof {
                    let raw2 = shard_contents(*m);
                    if raw.contains_key(c) && raw[c].contains(t) {
                        assert(raw[c] != Set::<u128>::empty());
                        assert(tracked_in(normalize(raw), c, t));
                        assert(normalize(raw)[c] == raw[c]);
                        if raw[c].remove(t) == Set::<u128>::empty() {
                            assert(normalize(raw2) =~= normalize(raw).remove(c));
                        } else {
                            assert(normalize(raw2) =~= normalize(raw).insert(c, raw[c].remove(t)));
                        }
                    } else {
                        if raw.contains_key(c) {
                            assert(raw[c].remove(t) =~= raw[c]);
                            assert(raw2 =~= raw);
                        }
                        assert(normalize(raw2) == normalize(raw));
                    }
                }
                r
            },
        }
    }

    /// Unconditionally drops the context named `key`; a no-op if absent.
    pub(crate) fn clear_context(&mut self, key: &String)
        requires
            old(self).wf(),
        ensures
            final(self).wf(),
            final(self).contents() == old(self).contents().remove(key@),
    {
        match self {
            Store::Coarse(c) => c.clear_context(key),
            Store::Sharded(m) => {
                let ghost raw = shard_contents(*m);
                shard_clear_context(m, key.as_str());
                proof {
                    assert(normalize(shard_contents(*m)) =~= normalize(raw).remove(key@));
                }
            },
        }
    }

    /// Unconditionally drops every context.
    pub(crate) fn clear_all(&mut self)
        requires
            old(self).wf(),
        ensures
            final(self).wf(),
            final(self).contents() == Map::<Seq<char>, Set<u128>>::empty(),
    {
        match self {
            Store::Coarse(c) => c.clear_all(),
            Store::Sharded(m) => {
                shard_clear_all(m);
                proof {
                    assert(normalize(shard_contents(*m)) =~= Map::<Seq<char>, Set<u128>>::empty());
                }
            },
        }
    }

    /// A duplicate-free snapshot copy of the tokens under `key`, or `None` if
    /// the context is observably absent.
    pub(crate) fn snapshot(&self, key: &String) -> (r: Option<Vec<u128>>)
        requires
            self.wf(),
        ensures
            match r {
                Some(v) => self.contents().contains_key(key@) && v@.to_set() == self.contents()[key@]
                    && no_dup(v@) && v@.len() > 0,
                None => !self.contents().contains_key(key@),
            },
    {
        match self {
            Store::Coarse(c) => c.snapshot(key),
            Store::Sharded(m) => {
                let ghost raw = shard_contents(*m);
                let ghost c = key@;
                match shard_snapshot(m, key.as_str()) {
                    Some(v) => {
                        if v.len() == 0 {
                            proof {
                                assert(v@.to_set() =~= Set::<u128>::empty());
                                assert(raw[c] == Set::<u128>::empty());
                            }
                            None
                        } else {
                            proof {
                                assert(v@.to_set().contains(v@[0]));
                                assert(raw[c] != Set::<u128>::empty());
                                assert(normalize(raw).contains_key(c));
                            }
                            Some(v)
                        }
                    },
                    None => None,
                }
            },
        }
    }
}

/// The registry: issues and tracks per-context unique tokens.  Its view is
/// the map from context name to the set of live tokens under it; a context is
/// in the view exactly while its set is non-empty.
pub struct Registry {
    pub(crate) store: Store,
}

impl View for Registry {
    type V = PoolModel;

    open(crate) spec fn view(&self) -> PoolModel {
        self.store.contents()
    }
}

impl Registry {
    /// The registry's internal invariant; constructors establish it and every
    /// operation preserves it.
    pub open(crate) spec fn wf(&self) -> bool {
        self.store.wf()
    }

    /// A fresh, empty registry over the coarse single-lock backend.
    pub fn new() -> (r: Registry)
        ensures
            r.wf(),
            r@ == Map::<Seq<char>, Set<u128>>::empty(),
    {
        Registry { store: Store::Coarse(CoarseStore::new()) }
    }

    /// A fresh, empty registry over the sharded concurrent backend.
    pub fn new_concurrent() -> (r: Registry)
        ensures
            r.wf(),
            r@ == Map::<Seq<char>, Set<u128>>::empty(),
    {
        let m = shard_new();
        proof {
            assert(normalize(shard_contents(m)) =~= Map::<Seq<char>, Set<u128>>::empty());
        }
        Registry { store: Store::Sharded(m) }
    }
}

} // verus!
