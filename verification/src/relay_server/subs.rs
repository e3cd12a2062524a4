//! The subscription table: publisher identity -> set of subscriber
//! identities. Entries are created lazily on first reference and are never
//! deleted for the process lifetime; membership is unordered and free of
//! duplicates, mirroring a map of sets.
use vstd::prelude::*;

verus! {

/// Maps each publisher identity to the identities subscribed to it.
pub struct SubTable {
    entries: Vec<(u64, Vec<u64>)>,
}

impl SubTable {
    /// Keys in entry order (creation order, oldest first).
    pub closed spec fn spec_keys(self) -> Seq<u64> {
        self.entries@.map_values(|e: (u64, Vec<u64>)| e.0)
    }

    /// Whether a subscription set exists for publisher identity `p`.
    pub closed spec fn spec_has_key(self, p: u64) -> bool {
        exists|i: int| 0 <= i < self.entries.len() && self.entries[i].0 == p
    }

    /// The index of `p`'s entry (meaningful only when the key exists and the
    /// table is well formed).
    closed spec fn idx_of(self, p: u64) -> int {
        choose|i: int| 0 <= i < self.entries.len() && self.entries[i].0 == p
    }

    /// The members of `p`'s subscription set, in entry order.
    pub closed spec fn spec_members(self, p: u64) -> Seq<u64> {
        self.entries[self.idx_of(p)].1@
    }

    /// `s` is currently a member of `p`'s subscription set.
    pub open spec fn spec_member(self, p: u64, s: u64) -> bool {
        self.spec_has_key(p) && self.spec_members(p).contains(s)
    }

    /// Well-formedness: keys are unique and no set holds a duplicate.
    pub closed spec fn wf(self) -> bool {
        &&& forall|i: int, j: int|
            0 <= i < j < self.entries.len() ==> self.entries[i].0 != self.entries[j].0
        &&& forall|i: int| 0 <= i < self.entries.len() ==> (#[trigger] self.entries[i].1@).no_duplicates()
    }

    /// In a well-formed table the entry index of a present key is unique.
    proof fn lemma_idx_unique(self, p: u64, i: int)
        requires
            self.wf(),
            0 <= i < self.entries.len(),
            self.entries[i].0 == p,
        ensures
            self.idx_of(p) == i,
    {
        assert(0 <= self.idx_of(p) < self.entries.len() && self.entries[self.idx_of(p)].0 == p);
    }

    /// A key is listed exactly when its subscription set exists.
    pub proof fn lemma_keys_iff(self, p: u64)
        ensures
            self.spec_keys().contains(p) <==> self.spec_has_key(p),
    {
        if self.spec_has_key(p) {
            let i = choose|i: int| 0 <= i < self.entries.len() && self.entries[i].0 == p;
            assert(self.spec_keys()[i] == p);
        }
        if self.spec_keys().contains(p) {
            let i = choose|i: int| 0 <= i < self.spec_keys().len() && self.spec_keys()[i] == p;
            assert(self.entries[i].0 == p);
        }
    }

    pub fn new() -> (r: SubTable)
        ensures
            r.wf(),
            forall|p: u64| !r.spec_has_key(p),
            r.spec_keys() == Seq::<u64>::empty(),
    {
        let r = SubTable { entries: Vec::new() };
        proof {
            assert(r.spec_keys() =~= Seq::<u64>::empty());
        }
        r
    }

    fn find_idx(&self, p: u64) -> (r: Option<usize>)
        requires
            self.wf(),
        ensures
            match r {
                Some(i) => i < self.entries.len() && self.entries[i as int].0 == p
                    && self.idx_of(p) == i,
                None => !self.spec_has_key(p),
            },
    {
        let mut i: usize = 0;
        while i < self.entries.len()
            invariant
                i <= self.entries.len(),
                self.wf(),
                forall|j: int| 0 <= j < i ==> self.entries[j].0 != p,
            decreases self.entries.len() - i,
        {
            if self.entries[i].0 == p {
                proof {
                    self.lemma_idx_unique(p, i as int);
                }
                return Some(i);
            }
            i = i + 1;
        }
        None
    }

    pub fn has_key(&self, p: u64) -> (r: bool)
        requires
            self.wf(),
        ensures
            r == self.spec_has_key(p),
    {
        self.find_idx(p).is_some()
    }

    /// Create an empty subscription set for `p` if none exists yet. Returns
    /// whether a set was created.
    pub fn ensure_key(&mut self, p: u64) -> (created: bool)
        requires
            old(self).wf(),
        ensures
            final(self).wf(),
            created == !old(self).spec_has_key(p),
            final(self).spec_has_key(p),
            forall|q: u64| #[trigger] final(self).spec_has_key(q) <==> (old(self).spec_has_key(q) || q == p),
            forall|q: u64| old(self).spec_has_key(q) ==> #[trigger] final(self).spec_members(q) == old(self).spec_members(q),
            !old(self).spec_has_key(p) ==> final(self).spec_members(p) == Seq::<u64>::empty(),
            final(self).spec_keys() == if old(self).spec_has_key(p) {
                old(self).spec_keys()
            } else {
                old(self).spec_keys().push(p)
            },
    {
        match self.find_idx(p) {
            Some(_) => false,
            None => {
                let n = self.entries.len();
                self.entries.push((p, Vec::new()));
                proof {
                    let new = *self;
                    let prev = *old(self);
                    assert forall|q: u64| #[trigger] new.spec_has_key(q) implies (prev.spec_has_key(q)
                        || q == p) by {
                        let i = choose|i: int|
                            0 <= i < new.entries.len() && new.entries[i].0 == q;
                        if i < n {
                            assert(prev.entries[i].0 == q);
                        }
                    };
                    assert forall|q: u64| prev.spec_has_key(q) implies new.spec_has_key(q) by {
                        let i = choose|i: int|
                            0 <= i < prev.entries.len() && prev.entries[i].0 == q;
                        assert(new.entries[i].0 == q);
                    };
                    assert(new.entries[n as int].0 == p);
                    new.lemma_idx_unique(p, n as int);
                    assert(new.spec_members(p) =~= Seq::<u64>::empty());
                    assert forall|q: u64| prev.spec_has_key(q) implies #[trigger] new.spec_members(
                        q,
                    ) == prev.spec_members(q) by {
                        let i = choose|i: int|
                            0 <= i < prev.entries.len() && prev.entries[i].0 == q;
                        prev.lemma_idx_unique(q, i);
                        new.lemma_idx_unique(q, i);
                    };
                    assert(new.spec_keys() =~= prev.spec_keys().push(p));
                }
                true
            },
        }
    }

    /// Insert `s` into `p`'s subscription set, if that set exists. Returns
    /// whether `s` was newly added.
    pub fn add_member(&mut self, p: u64, s: u64) -> (added: bool)
        requires
            old(self).wf(),
        ensures
            final(self).wf(),
            added == (old(self).spec_has_key(p) && !old(self).spec_members(p).contains(s)),
            forall|q: u64| #[trigger] final(self).spec_has_key(q) == old(self).spec_has_key(q),
            final(self).spec_keys() == old(self).spec_keys(),
            forall|q: u64|
                q != p && old(self).spec_has_key(q) ==> #[trigger] final(self).spec_members(q) == old(
                    self,
                ).spec_members(q),
            old(self).spec_has_key(p) ==> final(self).spec_members(p) == if old(self).spec_members(
                p,
            ).contains(s) {
                old(self).spec_members(p)
            } else {
                old(self).spec_members(p).push(s)
            },
    {
        match self.find_idx(p) {
            None => {
                proof {
                    assert(self.spec_keys() == old(self).spec_keys());
                }
                false
            },
            Some(i) => {
                let e = self.entries.remove(i);
                let k = e.0;
                let mut ms = e.1;
                let already = contains_u64(&ms, s);
                if !already {
                    ms.push(s);
                }
                self.entries.insert(i, (k, ms));
                proof {
                    let new = *self;
                    let prev = *old(self);
                    assert(new.entries@ =~= prev.entries@.update(i as int, new.entries[i as int]));
                    assert(new.entries[i as int].0 == p);
                    assert forall|q: u64| #[trigger] new.spec_has_key(q) == prev.spec_has_key(
                        q,
                    ) by {
                        if new.spec_has_key(q) {
                            let j = choose|j: int|
                                0 <= j < new.entries.len() && new.entries[j].0 == q;
                            assert(prev.entries[j].0 == q);
                        }
                        if prev.spec_has_key(q) {
                            let j = choose|j: int|
                                0 <= j < prev.entries.len() && prev.entries[j].0 == q;
                            assert(new.entries[j].0 == q);
                        }
                    };
                    assert(new.spec_keys() =~= prev.spec_keys());
                    prev.lemma_idx_unique(p, i as int);
                    new.lemma_idx_unique(p, i as int);
                    assert forall|q: u64| q != p && prev.spec_has_key(q) implies #[trigger] new
                        .spec_members(q) == prev.spec_members(q) by {
                        let j = choose|j: int|
                            0 <= j < prev.entries.len() && prev.entries[j].0 == q;
                        prev.lemma_idx_unique(q, j);
                        new.lemma_idx_unique(q, j);
                    };
                }
                !already
            },
        }
    }

    /// Remove `s` from every subscription set. Keys are untouched: a
    /// publisher's set survives the departure of its members.
    pub fn remove_everywhere(&mut self, s: u64)
        requires
            old(self).wf(),
        ensures
            final(self).wf(),
            forall|q: u64| #[trigger] final(self).spec_has_key(q) == old(self).spec_has_key(q),
            final(self).spec_keys() == old(self).spec_keys(),
            forall|q: u64, x: u64|
                old(self).spec_has_key(q) ==> (#[trigger] final(self).spec_members(q).contains(x) <==> (
                old(self).spec_members(q).contains(x) && x != s)),
    {
        let ghost prev = *self;
        let n = self.entries.len();
        let mut i: usize = 0;
        while i < n
            invariant
                i <= n,
                n == self.entries.len(),
                self.entries.len() == prev.entries.len(),
                prev.wf(),
                forall|j: int| 0 <= j < self.entries.len() ==> #[trigger] self.entries[j].0 == prev.entries[j].0,
                forall|j: int|
                    i <= j < self.entries.len() ==> #[trigger] self.entries[j].1 == prev.entries[j].1,
                forall|j: int|
                    0 <= j < i ==> (#[trigger] self.entries[j].1@).no_duplicates(),
                forall|j: int, x: u64|
                    0 <= j < i ==> ((#[trigger] self.entries[j].1@.contains(x)) <==> (
                    prev.entries[j].1@.contains(x) && x != s)),
            decreases n - i,
        {
            let ghost snap = self.entries@;
            let e = self.entries.remove(i);
            let k = e.0;
            let filtered = remove_u64(&e.1, s);
            self.entries.insert(i, (k, filtered));
            proof {
                assert(self.entries@ =~= snap.update(i as int, self.entries@[i as int]));
            }
            i = i + 1;
        }
        proof {
            let new = *self;
            assert(new.wf()) by {
                assert forall|a: int, b: int|
                    0 <= a < b < new.entries.len() implies new.entries[a].0 != new.entries[b].0 by {
                    assert(new.entries[a].0 == prev.entries[a].0);
                    assert(new.entries[b].0 == prev.entries[b].0);
                };
            };
            assert forall|q: u64| #[trigger] new.spec_has_key(q) == prev.spec_has_key(q) by {
                if new.spec_has_key(q) {
                    let j = choose|j: int| 0 <= j < new.entries.len() && new.entries[j].0 == q;
                    assert(prev.entries[j].0 == q);
                }
                if prev.spec_has_key(q) {
                    let j = choose|j: int| 0 <= j < prev.entries.len() && prev.entries[j].0 == q;
                    assert(new.entries[j].0 == q);
                }
            };
            assert(new.spec_keys() =~= prev.spec_keys());
            assert forall|q: u64, x: u64| prev.spec_has_key(q) implies (#[trigger] new.spec_members(
                q,
            ).contains(x) <==> (prev.spec_members(q).contains(x) && x != s)) by {
                let j = choose|j: int| 0 <= j < prev.entries.len() && prev.entries[j].0 == q;
                prev.lemma_idx_unique(q, j);
                assert(new.entries[j].0 == q);
                new.lemma_idx_unique(q, j);
            };
        }
    }

    /// A snapshot of every publisher identity that can be subscribed to.
    pub fn keys_vec(&self) -> (r: Vec<u64>)
        requires
            self.wf(),
        ensures
            r@ == self.spec_keys(),
    {
        let mut r: Vec<u64> = Vec::new();
        let mut i: usize = 0;
        while i < self.entries.len()
            invariant
                i <= self.entries.len(),
                r@ == self.spec_keys().subrange(0, i as int),
            decreases self.entries.len() - i,
        {
            r.push(self.entries[i].0);
            proof {
                assert(r@ =~= self.spec_keys().subrange(0, i + 1 as int));
            }
            i = i + 1;
        }
        proof {
            assert(r@ =~= self.spec_keys());
        }
        r
    }

    /// A copy of `p`'s subscription set, if it exists.
    pub fn members_of(&self, p: u64) -> (r: Option<Vec<u64>>)
        requires
            self.wf(),
        ensures
            match r {
                Some(ms) => self.spec_has_key(p) && ms@ == self.spec_members(p),
                None => !self.spec_has_key(p),
            },
    {
        match self.find_idx(p) {
            None => None,
            Some(i) => {
                let src = &self.entries[i].1;
                let mut ms: Vec<u64> = Vec::new();
                let mut j: usize = 0;
                while j < src.len()
                    invariant
                        j <= src.len(),
                        ms@ == src@.subrange(0, j as int),
                        src@ == self.entries[i as int].1@,
                        i < self.entries.len(),
                    decreases src.len() - j,
                {
                    ms.push(src[j]);
                    proof {
                        assert(ms@ =~= src@.subrange(0, j + 1 as int));
                    }
                    j = j + 1;
                }
                proof {
                    assert(ms@ =~= self.spec_members(p));
                }
                Some(ms)
            },
        }
    }
}

/// Whether `v` holds `x`.
pub fn contains_u64(v: &Vec<u64>, x: u64) -> (r: bool)
    ensures
        r == v@.contains(x),
{
    let mut i: usize = 0;
    while i < v.len()
        invariant
            i <= v.len(),
            forall|j: int| 0 <= j < i ==> v@[j] != x,
        decreases v.len() - i,
    {
        if v[i] == x {
            return true;
        }
        i = i + 1;
    }
    false
}

/// A copy of `v` without any occurrence of `s`; duplicates stay absent.
fn remove_u64(v: &Vec<u64>, s: u64) -> (r: Vec<u64>)
    requires
        v@.no_duplicates(),
    ensures
        r@.no_duplicates(),
        forall|x: u64| #[trigger] r@.contains(x) <==> (v@.contains(x) && x != s),
{
    let mut r: Vec<u64> = Vec::new();
    let mut i: usize = 0;
    while i < v.len()
        invariant
            i <= v.len(),
            v@.no_duplicates(),
            r@.no_duplicates(),
            forall|x: u64| #[trigger] r@.contains(x) <==> (v@.subrange(0, i as int).contains(x) && x != s),
        decreases v.len() - i,
    {
        let ghost r_before = r@;
        let x = v[i];
        if x != s {
            proof {
                if r@.contains(x) {
                    let j = choose|j: int| 0 <= j < i && v@.subrange(0, i as int)[j] == x;
                    assert(v@[j] == x && v@[i as int] == x);
                }
            }
            r.push(x);
        }
        proof {
            assert forall|y: u64| #[trigger] r@.contains(y) implies (v@.subrange(
                0,
                i + 1 as int,
            ).contains(y) && y != s) by {
                let w = choose|w: int| 0 <= w < r@.len() && r@[w] == y;
                if w < r_before.len() {
                    assert(r_before[w] == y);
                    assert(r_before.contains(y));
                    let j = choose|j: int| 0 <= j < i && v@.subrange(0, i as int)[j] == y;
                    assert(v@.subrange(0, i + 1 as int)[j] == y);
                } else {
                    assert(y == x && x != s);
                    assert(v@.subrange(0, i + 1 as int)[i as int] == x);
                }
            };
            assert forall|y: u64| (v@.subrange(0, i + 1 as int).contains(y) && y != s) implies #[trigger] r@
                .contains(y) by {
                let j = choose|j: int| 0 <= j <= i && #[trigger] v@.subrange(0, i + 1 as int)[j] == y;
                if j < i {
                    assert(v@.subrange(0, i as int)[j] == y);
                    assert(r_before.contains(y));
                    let w = choose|w: int| 0 <= w < r_before.len() && r_before[w] == y;
                    assert(r@[w] == y);
                } else {
                    assert(y == x);
                    assert(r@[r@.len() - 1] == x);
                }
            };
        }
        i = i + 1;
    }
    proof {
        assert(v@.subrange(0, v.len() as int) =~= v@);
    }
    r
}

} // verus!
