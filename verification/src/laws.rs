//! Properties that relate several operations, stated once over the registry
//! model and proved for every input.
use vstd::prelude::*;
use crate::model::{set_or_empty, tracked_in, with_token, PoolModel};

verus! {

/// Draining a context empties it and is idempotent: afterwards the context is
/// absent (so `get` reports not-found), and draining it again changes
/// nothing.
pub proof fn lemma_clear_context_idempotent(m: PoolModel, c: Seq<char>)
    ensures
        !m.remove(c).contains_key(c),
        m.remove(c).remove(c) == m.remove(c),
{
    assert(m.remove(c).remove(c) =~= m.remove(c));
}

/// Within one context a token is tracked at most once: establishing a token
/// that is already tracked cannot produce a second copy — it leaves the
/// registry exactly as it was (and `add` rejects that case outright).
pub proof fn lemma_tracked_at_most_once(m: PoolModel, c: Seq<char>, t: u128)
    requires
        tracked_in(m, c, t),
    ensures
        with_token(m, c, t) == m,
{
    assert(m[c].insert(t) =~= m[c]);
    assert(with_token(m, c, t) =~= m);
}

/// Uniqueness is scoped per context, not globally: tracking a token under one
/// context leaves every other context's membership and token set untouched,
/// so the same token can be added under two different contexts and both calls
/// succeed.
pub proof fn lemma_cross_context_independent(m: PoolModel, c1: Seq<char>, c2: Seq<char>, t: u128)
    requires
        c1 != c2,
    ensures
        tracked_in(with_token(m, c1, t), c2, t) == tracked_in(m, c2, t),
        set_or_empty(with_token(m, c1, t), c2) == set_or_empty(m, c2),
{
}

} // verus!
