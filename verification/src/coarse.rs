//! The coarse storage backend: one ordinary map-of-sets, represented as a
//! vector of context entries, each holding a duplicate-free vector of tokens.
//! Every operation on it is verified against the `PoolModel` view.
use vstd::prelude::*;
use crate::model::{no_dup, set_or_empty, with_token, without_token, PoolModel};

verus! {

/// One context: its name and the tokens tracked under it.
pub struct ContextEntry {
    pub name: String,
    pub tokens: Vec<u128>,
}

impl ContextEntry {
    /// The entry's tokens, as a set.
    pub open spec fn set(&self) -> Set<u128> {
        self.tokens@.to_set()
    }

    /// An entry is well formed when it is non-empty (empty contexts are
    /// pruned) and holds no duplicate token.
    pub open spec fn wf(&self) -> bool {
        self.tokens@.len() > 0 && no_dup(self.tokens@)
    }
}

/// The backend itself: a list of entries with pairwise-distinct names.
pub struct CoarseStore {
    pub entries: Vec<ContextEntry>,
}

impl View for CoarseStore {
    type V = PoolModel;

    open spec fn view(&self) -> PoolModel {
        Map::new(
            |c: Seq<char>| self.has_ctx(c),
            |c: Seq<char>| self.entries@[self.idx_of(c)].set(),
        )
    }
}

impl CoarseStore {
    /// Every entry is well formed and no two entries share a name.
    pub open spec fn wf(&self) -> bool {
        &&& forall|i: int|
            0 <= i < self.entries@.len() ==> (#[trigger] self.entries@[i]).wf()
        &&& forall|i: int, j: int|
            0 <= i < j < self.entries@.len() ==> self.entries@[i].name@ != self.entries@[j].name@
    }

    /// Whether some entry is named `c`.
    pub open spec fn has_ctx(&self, c: Seq<char>) -> bool {
        exists|i: int| 0 <= i < self.entries@.len() && (#[trigger] self.entries@[i]).name@ == c
    }

    /// The index of the entry named `c`, where one exists.
    pub open spec fn idx_of(&self, c: Seq<char>) -> int {
        choose|i: int| 0 <= i < self.entries@.len() && (#[trigger] self.entries@[i]).name@ == c
    }

    /// In a well-formed store the entry index for a name is unique, so the
    /// view of context `i` is exactly entry `i`'s token set.
    pub proof fn lemma_entry_view(&self, i: int)
        requires
            self.wf(),
            0 <= i < self.entries@.len(),
        ensures
            self.idx_of(self.entries@[i].name@) == i,
            self@.contains_key(self.entries@[i].name@),
            self@[self.entries@[i].name@] == self.entries@[i].set(),
    {
        let c = self.entries@[i].name@;
        assert(self.has_ctx(c));
        let j = self.idx_of(c);
        assert(0 <= j < self.entries@.len() && self.entries@[j].name@ == c);
        if i < j {
            assert(self.entries@[i].name@ != self.entries@[j].name@);
        } else if j < i {
            assert(self.entries@[j].name@ != self.entries@[i].name@);
        }
    }

    /// An empty store.
    pub fn new() -> (r: CoarseStore)
        ensures
            r.wf(),
            r@ == Map::<Seq<char>, Set<u128>>::empty(),
    {
        let r = CoarseStore { entries: Vec::new() };
        proof {
            assert(r@ =~= Map::<Seq<char>, Set<u128>>::empty());
        }
        r
    }

    /// Linear search for the entry named `key`.
    fn find(&self, key: &String) -> (r: Option<usize>)
        ensures
            match r {
                Some(i) => i < self.entries@.len() && self.entries@[i as int].name@ == key@,
                None => !self.has_ctx(key@),
            },
    {
        let n = self.entries.len();
        let mut i: usize = 0;
        while i < n
            invariant
                n == self.entries@.len(),
                i <= n,
                forall|j: int| 0 <= j < i ==> self.entries@[j].name@ != key@,
            decreases n - i,
        {
            if self.entries[i].name == *key {
                return Some(i);
            }
            i = i + 1;
        }
        None
    }

    /// Linear search for `t` in entry `i`'s tokens.
    fn entry_has_token(&self, i: usize, t: u128) -> (r: bool)
        requires
            i < self.entries@.len(),
        ensures
            r == self.entries@[i as int].set().contains(t),
    {
        let n = self.entries[i].tokens.len();
        let mut j: usize = 0;
        while j < n
            invariant
                i < self.entries@.len(),
                n == self.entries@[i as int].tokens@.len(),
                j <= n,
                forall|k: int| 0 <= k < j ==> self.entries@[i as int].tokens@[k] != t,
            decreases n - j,
        {
            if self.entries[i].tokens[j] == t {
                return true;
            }
            j = j + 1;
        }
        false
    }

    /// Creates the context if missing and inserts `t` unless it is already a
    /// member; the result says whether `t` was newly inserted.
    pub fn try_insert(&mut self, key: &String, t: u128) -> (r: bool)
        requires
            old(self).wf(),
        ensures
            final(self).wf(),
            r == !(old(self)@.contains_key(key@) && old(self)@[key@].contains(t)),
            r ==> final(self)@ == with_token(old(self)@, key@, t),
            !r ==> final(self)@ == old(self)@,
    {
        match self.find(key) {
            Some(i) => {
                proof {
                    self.lemma_entry_view(i as int);
                }
                if self.entry_has_token(i, t) {
                    false
                } else {
                    let ghost pre = *self;
                    let mut e = self.entries.remove(i);
                    e.tokens.push(t);
                    self.entries.insert(i, e);
                    proof {
                        assert(self.entries@ =~= pre.entries@.update(
                            i as int,
                            ContextEntry {
                                name: pre.entries@[i as int].name,
                                tokens: e.tokens,
                            },
                        ));
                        lemma_push_to_set(pre.entries@[i as int].tokens@, t);
                        self.lemma_same_names_view(pre, i as int, key@);
                        assert(self.entries@[i as int].set() =~= set_or_empty(
                            pre@,
                            key@,
                        ).insert(t));
                        assert(self@ =~= with_token(pre@, key@, t));
                    }
                    true
                }
            },
            None => {
                let ghost pre = *self;
                let mut toks: Vec<u128> = Vec::new();
                toks.push(t);
                self.entries.push(ContextEntry { name: key.clone(), tokens: toks });
                proof {
                    let n = pre.entries@.len() as int;
                    assert forall|i: int| 0 <= i < self.entries@.len() implies (
                    #[trigger] self.entries@[i]).wf() by {
                        if i < n {
                            assert(pre.entries@[i].wf());
                        }
                    }
                    lemma_push_to_set(Seq::<u128>::empty(), t);
                    assert(Seq::<u128>::empty().to_set() =~= Set::<u128>::empty());
                    assert(self.entries@[n].tokens@ == Seq::<u128>::empty().push(t));
                    assert(self.entries@[n].set() =~= Set::<u128>::empty().insert(t));
                    self.lemma_appended_view(pre, key@);
                    assert(self@ =~= with_token(pre@, key@, t));
                }
                true
            },
        }
    }

    /// Whether `t` is currently a member of the context named `key`.
    pub fn contains(&self, key: &String, t: u128) -> (r: bool)
        requires
            self.wf(),
        ensures
            r == (self@.contains_key(key@) && self@[key@].contains(t)),
    {
        match self.find(key) {
            Some(i) => {
                proof {
                    self.lemma_entry_view(i as int);
                }
                self.entry_has_token(i, t)
            },
            None => false,
        }
    }

    /// Linear search for `t` in entry `i`'s tokens, returning its position.
    fn entry_token_index(&self, i: usize, t: u128) -> (r: Option<usize>)
        requires
            i < self.entries@.len(),
        ensures
            match r {
                Some(j) => j < self.entries@[i as int].tokens@.len()
                    && self.entries@[i as int].tokens@[j as int] == t,
                None => !self.entries@[i as int].set().contains(t),
            },
    {
        let n = self.entries[i].tokens.len();
        let mut j: usize = 0;
        while j < n
            invariant
                i < self.entries@.len(),
                n == self.entries@[i as int].tokens@.len(),
                j <= n,
                forall|k: int| 0 <= k < j ==> self.entries@[i as int].tokens@[k] != t,
            decreases n - j,
        {
            if self.entries[i].tokens[j] == t {
                return Some(j);
            }
            j = j + 1;
        }
        None
    }

    /// Removes `t` from the context named `key` if present, pruning the
    /// context once its set is empty; the result says whether `t` was there.
    pub fn remove(&mut self, key: &String, t: u128) -> (r: bool)
        requires
            old(self).wf(),
        ensures
            final(self).wf(),
            r == (old(self)@.contains_key(key@) && old(self)@[key@].contains(t)),
            r ==> final(self)@ == without_token(old(self)@, key@, t),
            !r ==> final(self)@ == old(self)@,
    {
        match self.find(key) {
            Some(i) => {
                proof {
                    self.lemma_entry_view(i as int);
                }
                match self.entry_token_index(i, t) {
                    Some(j) => {
                        let ghost pre = *self;
                        proof {
                            assert(pre.entries@[i as int].set().contains(t));
                            lemma_remove_to_set(pre.entries@[i as int].tokens@, j as int);
                        }
                        let mut e = self.entries.remove(i);
                        e.tokens.remove(j);
                        if e.tokens.len() == 0 {
                            proof {
                                assert(self.entries@ =~= pre.entries@.remove(i as int));
                                self.lemma_removed_entry_view(pre, i as int, key@);
                                assert(e.tokens@.to_set() =~= Set::<u128>::empty());
                                assert(pre@[key@].remove(t) == Set::<u128>::empty());
                                assert(self@ =~= without_token(pre@, key@, t));
                            }
                        } else {
                            self.entries.insert(i, e);
                            proof {
                                assert(self.entries@ =~= pre.entries@.update(
                                    i as int,
                                    ContextEntry {
                                        name: pre.entries@[i as int].name,
                                        tokens: e.tokens,
                                    },
                                ));
                                self.lemma_same_names_view(pre, i as int, key@);
                                assert(self.entries@[i as int].set() == pre@[key@].remove(t));
                                assert(pre@[key@].remove(t).contains(e.tokens@[0]));
                                assert(pre@[key@].remove(t) != Set::<u128>::empty());
                                assert(self@ =~= without_token(pre@, key@, t));
                            }
                        }
                        true
                    },
                    None => false,
                }
            },
            None => false,
        }
    }

    /// Unconditionally drops the context named `key`; a no-op if it is absent.
    pub fn clear_context(&mut self, key: &String)
        requires
            old(self).wf(),
        ensures
            final(self).wf(),
            final(self)@ == old(self)@.remove(key@),
    {
        let ghost pre = *self;
        match self.find(key) {
            Some(i) => {
                self.entries.remove(i);
                proof {
                    assert(self.entries@ =~= pre.entries@.remove(i as int));
                    self.lemma_removed_entry_view(pre, i as int, key@);
                }
            },
            None => {
                proof {
                    assert(self@ =~= pre@.remove(key@));
                }
            },
        }
    }

    /// Unconditionally drops every context.
    pub fn clear_all(&mut self)
        ensures
            final(self).wf(),
            final(self)@ == Map::<Seq<char>, Set<u128>>::empty(),
    {
        self.entries.clear();
        proof {
            assert(self@ =~= Map::<Seq<char>, Set<u128>>::empty());
        }
    }

    /// A snapshot copy of the tokens under `key`, or `None` if the context is
    /// absent.  The copy is duplicate-free and covers the whole set.
    pub fn snapshot(&self, key: &String) -> (r: Option<Vec<u128>>)
        requires
            self.wf(),
        ensures
            match r {
                Some(v) => self@.contains_key(key@) && v@.to_set() == self@[key@] && no_dup(v@)
                    && v@.len() > 0,
                None => !self@.contains_key(key@),
            },
    {
        match self.find(key) {
            Some(i) => {
                proof {
                    self.lemma_entry_view(i as int);
                }
                let n = self.entries[i].tokens.len();
                let mut out: Vec<u128> = Vec::new();
                let mut j: usize = 0;
                while j < n
                    invariant
                        i < self.entries@.len(),
                        n == self.entries@[i as int].tokens@.len(),
                        j <= n,
                        out@ == self.entries@[i as int].tokens@.subrange(0, j as int),
                    decreases n - j,
                {
                    out.push(self.entries[i].tokens[j]);
                    proof {
                        assert(out@ =~= self.entries@[i as int].tokens@.subrange(0, j + 1));
                    }
                    j = j + 1;
                }
                proof {
                    assert(out@ =~= self.entries@[i as int].tokens@);
                }
                Some(out)
            },
            None => None,
        }
    }

    /// After removing entry `i` (named `c`) outright, the view is the old one
    /// without `c`.
    proof fn lemma_removed_entry_view(&self, pre: CoarseStore, i: int, c: Seq<char>)
        requires
            pre.wf(),
            0 <= i < pre.entries@.len(),
            pre.entries@[i].name@ == c,
            self.entries@ == pre.entries@.remove(i),
        ensures
            self.wf(),
            self@ =~= pre@.remove(c),
    {
        let n = pre.entries@.len() as int;
        assert(self.entries@.len() == n - 1);
        assert forall|j: int| 0 <= j < n - 1 implies #[trigger] self.entries@[j] == (if j < i {
            pre.entries@[j]
        } else {
            pre.entries@[j + 1]
        }) by {}
        assert forall|a: int, b: int|
            0 <= a < b < self.entries@.len() implies self.entries@[a].name@
            != self.entries@[b].name@ by {}
        assert forall|j: int| 0 <= j < self.entries@.len() implies (
        #[trigger] self.entries@[j]).wf() by {}
        assert(!self.has_ctx(c)) by {
            if self.has_ctx(c) {
                let j = choose|j: int|
                    0 <= j < self.entries@.len() && (#[trigger] self.entries@[j]).name@ == c;
                if j < i {
                    assert(pre.entries@[j].name@ != pre.entries@[i].name@);
                } else {
                    assert(pre.entries@[i].name@ != pre.entries@[j + 1].name@);
                }
            }
        }
        assert forall|k: Seq<char>| k != c implies self.has_ctx(k) == pre.has_ctx(k) by {
            if self.has_ctx(k) {
                let j = choose|j: int|
                    0 <= j < self.entries@.len() && (#[trigger] self.entries@[j]).name@ == k;
                if j < i {
                    assert(pre.entries@[j].name@ == k);
                } else {
                    assert(pre.entries@[j + 1].name@ == k);
                }
            }
            if pre.has_ctx(k) {
                let j = choose|j: int|
                    0 <= j < pre.entries@.len() && (#[trigger] pre.entries@[j]).name@ == k;
                assert(j != i);
                if j < i {
                    assert(self.entries@[j].name@ == k);
                } else {
                    assert(self.entries@[j - 1].name@ == k);
                }
            }
        }
        assert forall|k: Seq<char>| #[trigger] self@.contains_key(k) implies self@[k] == pre@.remove(
            c,
        )[k] by {
            let j = choose|j: int|
                0 <= j < self.entries@.len() && (#[trigger] self.entries@[j]).name@ == k;
            self.lemma_entry_view(j);
            if j < i {
                pre.lemma_entry_view(j);
                assert(self.entries@[j].set() =~= pre.entries@[j].set());
            } else {
                pre.lemma_entry_view(j + 1);
                assert(self.entries@[j].set() =~= pre.entries@[j + 1].set());
            }
        }
    }

    /// After an update that changes only entry `i`'s tokens, every context's
    /// presence is unchanged, and every context other than `c` (entry `i`'s
    /// name) keeps its token set.
    proof fn lemma_same_names_view(&self, pre: CoarseStore, i: int, c: Seq<char>)
        requires
            pre.wf(),
            0 <= i < pre.entries@.len(),
            pre.entries@[i].name@ == c,
            self.entries@.len() == pre.entries@.len(),
            forall|j: int|
                0 <= j < pre.entries@.len() ==> (#[trigger] self.entries@[j]).name@
                    == pre.entries@[j].name@,
            forall|j: int|
                0 <= j < pre.entries@.len() && j != i ==> (#[trigger] self.entries@[j]).tokens@
                    == pre.entries@[j].tokens@,
            forall|j: int| 0 <= j < self.entries@.len() ==> (#[trigger] self.entries@[j]).wf(),
        ensures
            self.wf(),
            forall|k: Seq<char>| self.has_ctx(k) == pre.has_ctx(k),
            forall|k: Seq<char>|
                #![trigger self@.contains_key(k)]
                k != c && pre.has_ctx(k) ==> self@[k] == pre@[k],
            self@.contains_key(c),
            self@[c] == self.entries@[i].set(),
    {
        assert forall|a: int, b: int|
            0 <= a < b < self.entries@.len() implies self.entries@[a].name@
            != self.entries@[b].name@ by {
            assert(pre.entries@[a].name@ != pre.entries@[b].name@);
        }
        assert forall|k: Seq<char>| self.has_ctx(k) == pre.has_ctx(k) by {
            if self.has_ctx(k) {
                let j = choose|j: int|
                    0 <= j < self.entries@.len() && (#[trigger] self.entries@[j]).name@ == k;
                assert(pre.entries@[j].name@ == k);
            }
            if pre.has_ctx(k) {
                let j = choose|j: int|
                    0 <= j < pre.entries@.len() && (#[trigger] pre.entries@[j]).name@ == k;
                assert(self.entries@[j].name@ == k);
            }
        }
        assert forall|k: Seq<char>| #![trigger self@.contains_key(k)] k != c && pre.has_ctx(
            k,
        ) implies self@[k] == pre@[k] by {
            let j = choose|j: int|
                0 <= j < pre.entries@.len() && (#[trigger] pre.entries@[j]).name@ == k;
            pre.lemma_entry_view(j);
            self.lemma_entry_view(j);
            assert(self.entries@[j].set() =~= pre.entries@[j].set());
        }
        self.lemma_entry_view(i);
    }

    /// After appending an entry with a fresh name `c`, every other context is
    /// untouched and `c` maps to the new entry's set.
    proof fn lemma_appended_view(&self, pre: CoarseStore, c: Seq<char>)
        requires
            pre.wf(),
            !pre.has_ctx(c),
            self.entries@.len() == pre.entries@.len() + 1,
            forall|j: int|
                0 <= j < pre.entries@.len() ==> #[trigger] self.entries@[j] == pre.entries@[j],
            self.entries@[pre.entries@.len() as int].name@ == c,
            forall|j: int| 0 <= j < self.entries@.len() ==> (#[trigger] self.entries@[j]).wf(),
        ensures
            self.wf(),
            self.has_ctx(c),
            forall|k: Seq<char>| k != c ==> self.has_ctx(k) == pre.has_ctx(k),
            forall|k: Seq<char>|
                #![trigger self@.contains_key(k)]
                k != c && pre.has_ctx(k) ==> self@[k] == pre@[k],
            self@.contains_key(c),
            self@[c] == self.entries@[pre.entries@.len() as int].set(),
    {
        let n = pre.entries@.len() as int;
        assert forall|a: int, b: int|
            0 <= a < b < self.entries@.len() implies self.entries@[a].name@
            != self.entries@[b].name@ by {
            if b < n {
                assert(pre.entries@[a].name@ != pre.entries@[b].name@);
            } else {
                assert(pre.entries@[a].name@ != c);
            }
        }
        assert(self.entries@[n].name@ == c);
        assert forall|k: Seq<char>| k != c implies self.has_ctx(k) == pre.has_ctx(k) by {
            if self.has_ctx(k) {
                let j = choose|j: int|
                    0 <= j < self.entries@.len() && (#[trigger] self.entries@[j]).name@ == k;
                assert(j < n);
                assert(pre.entries@[j].name@ == k);
            }
            if pre.has_ctx(k) {
                let j = choose|j: int|
                    0 <= j < pre.entries@.len() && (#[trigger] pre.entries@[j]).name@ == k;
                assert(self.entries@[j].name@ == k);
            }
        }
        assert forall|k: Seq<char>| #![trigger self@.contains_key(k)] k != c && pre.has_ctx(
            k,
        ) implies self@[k] == pre@[k] by {
            let j = choose|j: int|
                0 <= j < pre.entries@.len() && (#[trigger] pre.entries@[j]).name@ == k;
            pre.lemma_entry_view(j);
            self.lemma_entry_view(j);
            assert(self.entries@[j].set() =~= pre.entries@[j].set());
        }
        self.lemma_entry_view(n);
    }
}

/// Pushing an element onto a sequence adds exactly it to the element set.
pub proof fn lemma_push_to_set(s: Seq<u128>, t: u128)
    ensures
        s.push(t).to_set() =~= s.to_set().insert(t),
{
    assert forall|a: u128| s.push(t).to_set().contains(a) implies s.to_set().insert(t).contains(
        a,
    ) by {
        let i = choose|i: int| 0 <= i < s.push(t).len() && s.push(t)[i] == a;
        if i < s.len() {
            assert(s[i] == a);
        }
    }
    assert forall|a: u128| s.to_set().insert(t).contains(a) implies s.push(t).to_set().contains(
        a,
    ) by {
        if a == t {
            assert(s.push(t)[s.len() as int] == a);
        } else {
            let i = choose|i: int| 0 <= i < s.len() && s[i] == a;
            assert(s.push(t)[i] == a);
        }
    }
}

/// Removing position `j` from a duplicate-free sequence removes exactly the
/// element `s[j]` from its element set, and keeps the rest duplicate-free.
pub proof fn lemma_remove_to_set(s: Seq<u128>, j: int)
    requires
        no_dup(s),
        0 <= j < s.len(),
    ensures
        s.remove(j).to_set() =~= s.to_set().remove(s[j]),
        no_dup(s.remove(j)),
{
    let r = s.remove(j);
    assert forall|k: int| 0 <= k < r.len() implies #[trigger] r[k] == (if k < j {
        s[k]
    } else {
        s[k + 1]
    }) by {}
    assert forall|a: u128| r.to_set().contains(a) implies s.to_set().remove(s[j]).contains(a) by {
        let k = choose|k: int| 0 <= k < r.len() && r[k] == a;
        if k < j {
            assert(s[k] == a);
            assert(a != s[j]);
        } else {
            assert(s[k + 1] == a);
            assert(a != s[j]);
        }
    }
    assert forall|a: u128| s.to_set().remove(s[j]).contains(a) implies r.to_set().contains(a) by {
        let k = choose|k: int| 0 <= k < s.len() && s[k] == a;
        assert(k != j);
        if k < j {
            assert(r[k] == a);
        } else {
            assert(r[k - 1] == a);
        }
    }
}

} // verus!
