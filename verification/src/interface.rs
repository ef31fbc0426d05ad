//! The public operation set: reserve, add, remove, try_remove, replace, get,
//! clear_context and clear_all, each a method of [`Registry`] with its
//! behaviour pinned down over the registry's map-of-sets view.
use vstd::prelude::*;
use vstd::string::StringExecFns;
use crate::model::{set_or_empty, tracked_in, with_token, without_token, PoolModel};
use crate::registry::Registry;
use crate::token::{base_of, has_v8_marks, make_uuid_with_base, Token};
use crate::UuidPoolError;

verus! {

/// The base used by `reserve` when the caller names none.
pub const DEFAULT_UUID_BASE: u32 = 64;

/// The retry budget used by `reserve` when the caller names none.
pub const DEFAULT_MAX_RETRIES: usize = 64;

/// What one reserve call may observably do: on success a token whose base
/// field is as asked, and which was not tracked before, joins the context; on
/// failure the registry is unchanged and the error reports generation
/// exhaustion.
pub open spec fn reserve_outcome(
    pre: PoolModel,
    post: PoolModel,
    c: Seq<char>,
    base: u32,
    budget: usize,
    r: Result<Token, UuidPoolError>,
) -> bool {
    match r {
        Ok(t) => {
            &&& t.base_spec() == base
            &&& has_v8_marks(t.value)
            &&& !tracked_in(pre, c, t.value)
            &&& post == with_token(pre, c, t.value)
        },
        Err(e) => {
            &&& e is FailedToGenerateUniqueUuidError
            &&& e.message_spec() == exhausted_message(budget as nat)
            &&& post == pre
        },
    }
}

/// No token currently tracked under `c` carries the base `base`.  A fresh
/// candidate built with that base can then never collide, so a reserve with a
/// positive retry budget is owed success: its outcome does not depend on the
/// random draw.  An absent context is the common special case.
pub open spec fn base_unused(m: PoolModel, c: Seq<char>, base: u32) -> bool {
    forall|t: u128| tracked_in(m, c, t) ==> base_of(t) != base
}

/// The retry-exhaustion diagnostic for a given attempt budget, as
/// `msg_exhausted` renders it.
pub uninterp spec fn exhausted_message(attempts: nat) -> Seq<char>;

/// Relies on std's formatting: the retry-exhaustion diagnostic, carrying the
/// attempt count in decimal.
#[verifier::external_body]
fn msg_exhausted(attempts: usize) -> (r: String)
    ensures
        r@ == exhausted_message(attempts as nat),
{
    format!("Failed to generate unique UUID after {} attempts", attempts)
}

/// The already-present diagnostic for a context and token, as
/// `msg_already_present` renders it.
pub uninterp spec fn already_present_message(context: Seq<char>, t: u128) -> Seq<char>;

/// Relies on std's formatting and uuid::Uuid's Display impl: the
/// already-present diagnostic, naming the context and the token.
#[verifier::external_body]
fn msg_already_present(context: &str, t: u128) -> (r: String)
    ensures
        r@ == already_present_message(context@, t),
{
    format!("UUID already exists in pool for context '{}': {}", context, uuid::Uuid::from_u128(t))
}

/// The not-found diagnostic for a context and token, as `msg_not_found`
/// renders it.
pub uninterp spec fn not_found_message(context: Seq<char>, t: u128) -> Seq<char>;

/// Relies on std's formatting and uuid::Uuid's Display impl: the not-found
/// diagnostic, naming the context and the token.
#[verifier::external_body]
fn msg_not_found(context: &str, t: u128) -> (r: String)
    ensures
        r@ == not_found_message(context@, t),
{
    format!("Failed to find UUID in pool for context '{}': {}", context, uuid::Uuid::from_u128(t))
}

/// The absent-context diagnostic, as `msg_context_not_found` renders it.
pub uninterp spec fn context_not_found_message(context: Seq<char>) -> Seq<char>;

/// Relies on std's formatting: the absent-context diagnostic.
#[verifier::external_body]
fn msg_context_not_found(context: &str) -> (r: String)
    ensures
        r@ == context_not_found_message(context@),
{
    format!("Failed to find UUIDs in pool for context '{}'", context)
}

impl Registry {
    /// Generates and atomically claims a fresh token under `context`, with the
    /// default base and retry budget.
    pub fn reserve(&mut self, context: &str) -> (r: Result<Token, UuidPoolError>)
        requires
            old(self).wf(),
        ensures
            final(self).wf(),
            reserve_outcome(old(self)@, final(self)@, context@, DEFAULT_UUID_BASE, DEFAULT_MAX_RETRIES, r),
            !old(self)@.contains_key(context@) ==> r is Ok,
            base_unused(old(self)@, context@, DEFAULT_UUID_BASE) ==> r is Ok,
    {
        self.reserve_with(context, DEFAULT_UUID_BASE, DEFAULT_MAX_RETRIES)
    }

    /// Generates and atomically claims a fresh token under `context` with the
    /// given base and the default retry budget.
    pub fn reserve_with_base(&mut self, context: &str, base: u32) -> (r: Result<
        Token,
        UuidPoolError,
    >)
        requires
            old(self).wf(),
        ensures
            final(self).wf(),
            reserve_outcome(old(self)@, final(self)@, context@, base, DEFAULT_MAX_RETRIES, r),
            !old(self)@.contains_key(context@) ==> r is Ok,
            base_unused(old(self)@, context@, base) ==> r is Ok,
    {
        self.reserve_with(context, base, DEFAULT_MAX_RETRIES)
    }

    /// Generates a candidate token (base in the high bits, fresh entropy
    /// below) and claims it under `context`, retrying on collision at most
    /// `max_retries` times.  A zero budget fails at once.
    pub fn reserve_with(&mut self, context: &str, base: u32, max_retries: usize) -> (r: Result<
        Token,
        UuidPoolError,
    >)
        requires
            old(self).wf(),
        ensures
            final(self).wf(),
            reserve_outcome(old(self)@, final(self)@, context@, base, max_retries, r),
            max_retries == 0 ==> r is Err,
            max_retries > 0 && !old(self)@.contains_key(context@) ==> r is Ok,
            max_retries > 0 && base_unused(old(self)@, context@, base) ==> r is Ok,
    {
        let key: String = context.to_owned();
        let mut attempts: usize = 0;
        while attempts < max_retries
            invariant
                self.wf(),
                self@ == old(self)@,
                key@ == context@,
                attempts <= max_retries,
                attempts > 0 ==> old(self)@.contains_key(context@) && !base_unused(
                    old(self)@,
                    context@,
                    base,
                ),
            decreases max_retries - attempts,
        {
            let candidate = make_uuid_with_base(base);
            if self.store.try_insert(&key, candidate.value) {
                return Ok(candidate);
            }
            proof {
                assert(tracked_in(old(self)@, context@, candidate.value));
                assert(base_of(candidate.value) == base);
            }
            attempts = attempts + 1;
        }
        Err(UuidPoolError::FailedToGenerateUniqueUuidError(msg_exhausted(max_retries)))
    }

    /// Tracks a caller-supplied token under `context`, failing if it is
    /// already a member there.
    pub fn add(&mut self, context: &str, uuid: Token) -> (r: Result<(), UuidPoolError>)
        requires
            old(self).wf(),
        ensures
            final(self).wf(),
            match r {
                Ok(_) => !tracked_in(old(self)@, context@, uuid.value) && final(self)@ == with_token(
                    old(self)@,
                    context@,
                    uuid.value,
                ),
                Err(e) => tracked_in(old(self)@, context@, uuid.value) && e
                    is FailedToSetUuidInPoolError && e.message_spec() == already_present_message(
                    context@,
                    uuid.value,
                ) && final(self)@ == old(self)@,
            },
    {
        let key: String = context.to_owned();
        if self.store.contains(&key, uuid.value) {
            return Err(
                UuidPoolError::FailedToSetUuidInPoolError(msg_already_present(context, uuid.value)),
            );
        }
        if !self.store.try_insert(&key, uuid.value) {
            return Err(
                UuidPoolError::FailedToSetUuidInPoolError(msg_already_present(context, uuid.value)),
            );
        }
        Ok(())
    }

    /// Stops tracking `uuid` under `context`, failing if it is not a member;
    /// a context whose set becomes empty leaves the registry.
    pub fn remove(&mut self, context: &str, uuid: Token) -> (r: Result<(), UuidPoolError>)
        requires
            old(self).wf(),
        ensures
            final(self).wf(),
            match r {
                Ok(_) => tracked_in(old(self)@, context@, uuid.value) && final(self)@
                    == without_token(old(self)@, context@, uuid.value),
                Err(e) => !tracked_in(old(self)@, context@, uuid.value) && e
                    is FailedToFindUuidInPoolError && e.message_spec()
                    == "Failed to locate/remove UUID in pool"@ && final(self)@ == old(self)@,
            },
    {
        let key: String = context.to_owned();
        if self.store.remove(&key, uuid.value) {
            Ok(())
        } else {
            Err(
                UuidPoolError::FailedToFindUuidInPoolError(
                    String::from_str("Failed to locate/remove UUID in pool"),
                ),
            )
        }
    }

    /// The same operation as `remove`, with the error collapsed to a boolean:
    /// true exactly when the token was there (and so was removed).
    pub fn try_remove(&mut self, context: &str, uuid: Token) -> (r: bool)
        requires
            old(self).wf(),
        ensures
            final(self).wf(),
            r == tracked_in(old(self)@, context@, uuid.value),
            r ==> final(self)@ == without_token(old(self)@, context@, uuid.value),
            !r ==> final(self)@ == old(self)@,
    {
        match self.remove(context, uuid) {
            Ok(_) => true,
            Err(_) => false,
        }
    }

    /// Swaps `old_uuid` for `new_uuid` under `context`.  When `old_uuid` is
    /// absent the call first tries to establish `new_uuid` as `add` would,
    /// then still reports that `old_uuid` was not found; the check-then-act
    /// sequence is deliberately not one atomic step.
    pub fn replace(&mut self, context: &str, old_uuid: Token, new_uuid: Token) -> (r: Result<
        (),
        UuidPoolError,
    >)
        requires
            old(self).wf(),
        ensures
            final(self).wf(),
            tracked_in(old(self)@, context@, old_uuid.value) ==> (if tracked_in(
                without_token(old(self)@, context@, old_uuid.value),
                context@,
                new_uuid.value,
            ) {
                (match r {
                    Ok(_) => false,
                    Err(e) => e is FailedToSetUuidInPoolError && e.message_spec()
                        == not_found_message(context@, old_uuid.value) && final(self)@
                        == without_token(old(self)@, context@, old_uuid.value),
                })
            } else {
                r is Ok && final(self)@ == with_token(
                    without_token(old(self)@, context@, old_uuid.value),
                    context@,
                    new_uuid.value,
                )
            }),
            !tracked_in(old(self)@, context@, old_uuid.value) && tracked_in(
                old(self)@,
                context@,
                new_uuid.value,
            ) ==> (match r {
                Ok(_) => false,
                Err(e) => e is FailedToSetUuidInPoolError && e.message_spec()
                    == already_present_message(context@, new_uuid.value) && final(self)@ == old(
                    self,
                )@,
            }),
            !tracked_in(old(self)@, context@, old_uuid.value) && !tracked_in(
                old(self)@,
                context@,
                new_uuid.value,
            ) && old_uuid.value == new_uuid.value ==> r is Ok && final(self)@ == with_token(
                old(self)@,
                context@,
                new_uuid.value,
            ),
            !tracked_in(old(self)@, context@, old_uuid.value) && !tracked_in(
                old(self)@,
                context@,
                new_uuid.value,
            ) && old_uuid.value != new_uuid.value ==> (match r {
                Ok(_) => false,
                Err(e) => e is FailedToFindUuidInPoolError && e.message_spec() == not_found_message(
                    context@,
                    old_uuid.value,
                ) && final(self)@ == with_token(old(self)@, context@, new_uuid.value),
            }),
    {
        let key: String = context.to_owned();
        if !self.store.contains(&key, old_uuid.value) {
            match self.add(context, new_uuid) {
                Ok(_) => {},
                Err(e) => {
                    return Err(e);
                },
            }
        }
        if self.store.remove(&key, old_uuid.value) {
            if !self.store.try_insert(&key, new_uuid.value) {
                return Err(
                    UuidPoolError::FailedToSetUuidInPoolError(
                        msg_not_found(context, old_uuid.value),
                    ),
                );
            }
            proof {
                if !tracked_in(old(self)@, context@, old_uuid.value) && !tracked_in(
                    old(self)@,
                    context@,
                    new_uuid.value,
                ) && old_uuid.value == new_uuid.value {
                    lemma_replace_roundabout(old(self)@, context@, old_uuid.value, new_uuid.value);
                }
            }
            Ok(())
        } else {
            Err(UuidPoolError::FailedToFindUuidInPoolError(msg_not_found(context, old_uuid.value)))
        }
    }

    /// A snapshot of every token currently under `context`, each paired with
    /// the context name: every tracked token exactly once, in no promised
    /// order.  An absent or empty context is a not-found failure.
    pub fn get(&self, context: &str) -> (r: Result<Vec<(String, Token)>, UuidPoolError>)
        requires
            self.wf(),
        ensures
            match r {
                Ok(v) => self@.contains_key(context@) && v@.len() > 0 && (forall|i: int|
                    0 <= i < v@.len() ==> (#[trigger] v@[i]).0@ == context@) && (forall|i: int|
                    0 <= i < v@.len() ==> self@[context@].contains((#[trigger] v@[i]).1.value)) && (
                forall|t: u128|
                    #[trigger] self@[context@].contains(t) ==> exists|i: int|
                        0 <= i < v@.len() && (#[trigger] v@[i]).1.value == t) && (forall|
                    i: int,
                    j: int,
                |
                    0 <= i < j < v@.len() ==> v@[i].1.value != v@[j].1.value),
                Err(e) => !self@.contains_key(context@) && e is FailedToFindUuidInPoolError
                    && e.message_spec() == context_not_found_message(context@),
            },
    {
        let key: String = context.to_owned();
        match self.store.snapshot(&key) {
            Some(toks) => {
                let n = toks.len();
                let mut out: Vec<(String, Token)> = Vec::new();
                let mut i: usize = 0;
                while i < n
                    invariant
                        n == toks@.len(),
                        i <= n,
                        out@.len() == i,
                        forall|j: int| 0 <= j < i ==> (#[trigger] out@[j]).0@ == context@,
                        forall|j: int| 0 <= j < i ==> (#[trigger] out@[j]).1.value == toks@[j],
                    decreases n - i,
                {
                    out.push((context.to_owned(), Token { value: toks[i] }));
                    i = i + 1;
                }
                proof {
                    assert forall|t: u128| #[trigger] self@[context@].contains(t) implies exists|
                        i: int,
                    |
                        0 <= i < out@.len() && (#[trigger] out@[i]).1.value == t by {
                        assert(toks@.to_set().contains(t));
                        let k = choose|k: int| 0 <= k < toks@.len() && toks@[k] == t;
                        assert(out@[k].1.value == t);
                    }
                }
                Ok(out)
            },
            None => Err(UuidPoolError::FailedToFindUuidInPoolError(msg_context_not_found(context))),
        }
    }

    /// Unconditionally removes every token of `context`; idempotent.
    pub fn clear_context(&mut self, context: &str) -> (r: Result<(), UuidPoolError>)
        requires
            old(self).wf(),
        ensures
            final(self).wf(),
            r is Ok,
            final(self)@ == old(self)@.remove(context@),
    {
        let key: String = context.to_owned();
        self.store.clear_context(&key);
        Ok(())
    }

    /// Unconditionally removes every context; idempotent.
    pub fn clear_all(&mut self) -> (r: Result<(), UuidPoolError>)
        requires
            old(self).wf(),
        ensures
            final(self).wf(),
            r is Ok,
            final(self)@ == Map::<Seq<char>, Set<u128>>::empty(),
    {
        self.store.clear_all();
        Ok(())
    }
}

/// The establish-then-swap path of `replace` on an absent `old_uuid` equal to
/// `new_uuid` nets out to a single insertion.
proof fn lemma_replace_roundabout(m: PoolModel, c: Seq<char>, a: u128, b: u128)
    requires
        !tracked_in(m, c, a),
        !tracked_in(m, c, b),
        a == b,
    ensures
        (if with_token(m, c, b)[c].remove(a) == Set::<u128>::empty() {
            with_token(with_token(m, c, b).remove(c), c, b) == with_token(m, c, b)
        } else {
            with_token(
                with_token(m, c, b).insert(c, with_token(m, c, b)[c].remove(a)),
                c,
                b,
            ) == with_token(m, c, b)
        }),
{
    let m2 = with_token(m, c, b);
    assert(m2[c] == set_or_empty(m, c).insert(b));
    if m2[c].remove(a) == Set::<u128>::empty() {
        assert(with_token(m2.remove(c), c, b) =~= with_token(m, c, b)) by {
            assert(set_or_empty(m2.remove(c), c) =~= Set::<u128>::empty());
            assert(set_or_empty(m, c).insert(b).remove(b) == Set::<u128>::empty());
            assert(set_or_empty(m, c).insert(b) =~= Set::<u128>::empty().insert(b));
        }
    } else {
        let s = m2[c].remove(a);
        assert(s =~= set_or_empty(m, c));
        assert(with_token(m2.insert(c, s), c, b) =~= with_token(m, c, b));
    }
}

} // verus!
