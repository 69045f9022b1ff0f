//! An in-memory versioned key-value store.
//!
//! Each entry carries a sequence number assigned by the store on write.
//! Writers state the version they expect; a mismatch is a `Conflict`.
use vstd::prelude::*;

verus! {

/// What a key looks like to contracts: the numeric scope it lives in, its
/// name, and a qualifier that tells apart entries of one name.
pub type KeyView = (u64, Seq<char>, Seq<char>);

/// A structured key: entries with equal scope, name and qualifier are the
/// same entry.
pub struct StoreKey {
    pub scope: u64,
    pub name: String,
    pub qualifier: String,
}

impl View for StoreKey {
    type V = KeyView;

    open spec fn view(&self) -> KeyView {
        (self.scope, self.name@, self.qualifier@)
    }
}

impl StoreKey {
    pub fn new(scope: u64, name: &str, qualifier: &str) -> (r: StoreKey)
        ensures
            r@ == (scope, name@, qualifier@),
    {
        StoreKey { scope, name: name.to_owned(), qualifier: qualifier.to_owned() }
    }

    pub fn same(&self, other: &StoreKey) -> (r: bool)
        ensures
            r == (self@ == other@),
    {
        let b = self.name == other.name;
        let c = self.qualifier == other.qualifier;
        self.scope == other.scope && b && c
    }
}

/// One stored value and the version it was written at.
pub struct KvEntry<V> {
    pub key: StoreKey,
    pub data: V,
    pub seq: u64,
}

/// Failures of a single store operation.
#[derive(Clone, Copy, Debug, PartialEq, Eq, Structural)]
pub enum StoreError {
    /// The key exists where it must not, is absent where it must exist, or
    /// its version differs from the one expected.
    Conflict,
    /// No further version numbers can be handed out.
    SeqExhausted,
}

pub struct VersionedStore<V> {
    entries: Vec<KvEntry<V>>,
    next_seq: u64,
    contents: Ghost<Map<KeyView, (V, u64)>>,
}

impl<V> View for VersionedStore<V> {
    type V = Map<KeyView, (V, u64)>;

    closed spec fn view(&self) -> Map<KeyView, (V, u64)> {
        self.contents@
    }
}

impl<V> VersionedStore<V> {
    /// The version that the next successful write will receive.
    pub closed spec fn next_version(&self) -> u64 {
        self.next_seq
    }

    pub closed spec fn wf(&self) -> bool {
        &&& forall|i: int, j: int|
            0 <= i < j < self.entries@.len() ==> self.entries@[i].key@ != self.entries@[j].key@
        &&& forall|i: int|
            0 <= i < self.entries@.len() ==> {
                &&& #[trigger] self.contents@.contains_key(self.entries@[i].key@)
                &&& self.contents@[self.entries@[i].key@] == (
                    self.entries@[i].data,
                    self.entries@[i].seq,
                )
            }
        &&& forall|k: KeyView|
            #[trigger] self.contents@.contains_key(k) ==> exists|i: int|
                0 <= i < self.entries@.len() && self.entries@[i].key@ == k
        &&& forall|i: int| 0 <= i < self.entries@.len() ==> #[trigger] self.entries@[i].seq < self.next_seq
    }

    pub fn new() -> (r: VersionedStore<V>)
        ensures
            r.wf(),
            r@ == Map::<KeyView, (V, u64)>::empty(),
            r.next_version() == 1,
    {
        VersionedStore { entries: Vec::new(), next_seq: 1, contents: Ghost(Map::empty()) }
    }

    fn find(&self, key: &StoreKey) -> (r: Option<usize>)
        requires
            self.wf(),
        ensures
            r is None <==> !self@.contains_key(key@),
            r matches Some(i) ==> i < self.entries@.len() && self.entries@[i as int].key@ == key@,
    {
        let mut i: usize = 0;
        while i < self.entries.len()
            invariant
                self.wf(),
                i <= self.entries@.len(),
                forall|j: int| 0 <= j < i ==> self.entries@[j].key@ != key@,
            decreases self.entries@.len() - i,
        {
            if self.entries[i].key.same(key) {
                return Some(i);
            }
            i = i + 1;
        }
        proof {
            if self@.contains_key(key@) {
                let j = choose|j: int| 0 <= j < self.entries@.len() && self.entries@[j].key@ == key@;
                assert(self.entries@[j].key@ != key@);
            }
        }
        None
    }

    /// The current value and version under `key`, if any.
    pub fn get(&self, key: &StoreKey) -> (r: Option<&KvEntry<V>>)
        requires
            self.wf(),
        ensures
            r is None <==> !self@.contains_key(key@),
            r matches Some(e) ==> e.key@ == key@ && self@[key@] == (e.data, e.seq),
    {
        match self.find(key) {
            None => None,
            Some(i) => Some(&self.entries[i]),
        }
    }

    /// Number of entries.
    pub fn len(&self) -> (r: usize)
        requires
            self.wf(),
        ensures
            r == self@.len(),
    {
        proof { self.lemma_len(); }
        self.entries.len()
    }

    proof fn lemma_len(&self)
        requires
            self.wf(),
        ensures
            self@.len() == self.entries@.len(),
            self@.dom() == self.entries@.map_values(|e: KvEntry<V>| e.key@).to_set(),
    {
        let keys = self.entries@.map_values(|e: KvEntry<V>| e.key@);
        assert forall|k: KeyView| self@.dom().contains(k) <==> keys.to_set().contains(k) by {
            if self@.dom().contains(k) {
                let i = choose|i: int| 0 <= i < self.entries@.len() && self.entries@[i].key@ == k;
                assert(keys[i] == k);
            }
            if keys.to_set().contains(k) {
                let i = choose|i: int| 0 <= i < keys.len() && keys[i] == k;
                assert(self.contents@.contains_key(self.entries@[i].key@));
            }
        }
        assert(self@.dom() =~= keys.to_set());
        assert(keys.no_duplicates());
        keys.unique_seq_to_set();
    }

    /// The entry at position `i` of the store's listing order.
    pub fn entry_at(&self, i: usize) -> (r: &KvEntry<V>)
        requires
            self.wf(),
            i < self@.len(),
        ensures
            self@.contains_key(r.key@),
            self@[r.key@] == (r.data, r.seq),
            forall|j: int| 0 <= j < self@.len() && j != i ==> self.listed(j) != r.key@,
            self.listed(i as int) == r.key@,
    {
        proof { self.lemma_len(); }
        &self.entries[i]
    }

    /// The key at position `i` of the listing order.
    pub closed spec fn listed(&self, i: int) -> KeyView {
        self.entries@[i].key@
    }

    /// Every key of the store is listed at exactly one position.
    pub proof fn lemma_listing_covers(&self, k: KeyView)
        requires
            self.wf(),
            self@.contains_key(k),
        ensures
            exists|i: int| 0 <= i < self@.len() && self.listed(i) == k,
    {
        self.lemma_len();
        let i = choose|i: int| 0 <= i < self.entries@.len() && self.entries@[i].key@ == k;
        assert(self.listed(i) == k);
    }

    /// Writes `data` under a key that must not exist yet.
    pub fn put_new(&mut self, key: StoreKey, data: V) -> (r: Result<u64, StoreError>)
        requires
            old(self).wf(),
        ensures
            final(self).wf(),
            match r {
                Ok(s) => {
                    &&& !old(self)@.contains_key(key@)
                    &&& s == old(self).next_version()
                    &&& final(self)@ == old(self)@.insert(key@, (data, s))
                    &&& final(self).next_version() == s + 1
                },
                Err(e) => {
                    &&& final(self)@ == old(self)@
                    &&& final(self).next_version() == old(self).next_version()
                    &&& (e == StoreError::Conflict) == old(self)@.contains_key(key@)
                    &&& (e == StoreError::SeqExhausted) == (!old(self)@.contains_key(key@)
                        && old(self).next_version() == u64::MAX)
                },
            },
    {
        if self.find(&key).is_some() {
            return Err(StoreError::Conflict);
        }
        if self.next_seq == u64::MAX {
            return Err(StoreError::SeqExhausted);
        }
        let s = self.next_seq;
        let ghost k = key@;
        let ghost old_entries = self.entries@;
        self.entries.push(KvEntry { key, data, seq: s });
        self.next_seq = s + 1;
        self.contents = Ghost(self.contents@.insert(k, (data, s)));
        proof {
            let n = old_entries.len() as int;
            assert forall|k2: KeyView| #[trigger] self.contents@.contains_key(k2) implies exists|i: int|
                0 <= i < self.entries@.len() && self.entries@[i].key@ == k2 by {
                if k2 != k {
                    let i = choose|i: int| 0 <= i < old_entries.len() && old_entries[i].key@ == k2;
                    assert(self.entries@[i].key@ == k2);
                } else {
                    assert(self.entries@[n].key@ == k2);
                }
            }
            assert forall|i: int| 0 <= i < n implies old_entries[i].key@ != k by {
                assert(old(self).contents@.contains_key(old_entries[i].key@));
            }
        }
        Ok(s)
    }

    /// Overwrites the value under `key` if its version is `expected`.
    pub fn put_if_version(&mut self, key: StoreKey, data: V, expected: u64) -> (r: Result<u64, StoreError>)
        requires
            old(self).wf(),
        ensures
            final(self).wf(),
            match r {
                Ok(s) => {
                    &&& old(self)@.contains_key(key@)
                    &&& old(self)@[key@].1 == expected
                    &&& s == old(self).next_version()
                    &&& final(self)@ == old(self)@.insert(key@, (data, s))
                    &&& final(self).next_version() == s + 1
                },
                Err(e) => {
                    &&& final(self)@ == old(self)@
                    &&& final(self).next_version() == old(self).next_version()
                    &&& (e == StoreError::Conflict) == !(old(self)@.contains_key(key@)
                        && old(self)@[key@].1 == expected)
                    &&& (e == StoreError::SeqExhausted) == (old(self)@.contains_key(key@)
                        && old(self)@[key@].1 == expected && old(self).next_version() == u64::MAX)
                },
            },
    {
        let i = match self.find(&key) {
            None => { return Err(StoreError::Conflict); },
            Some(i) => i,
        };
        if self.entries[i].seq != expected {
            return Err(StoreError::Conflict);
        }
        if self.next_seq == u64::MAX {
            return Err(StoreError::SeqExhausted);
        }
        let s = self.next_seq;
        let ghost k = key@;
        let ghost old_entries = self.entries@;
        self.entries.set(i, KvEntry { key, data, seq: s });
        self.next_seq = s + 1;
        self.contents = Ghost(self.contents@.insert(k, (data, s)));
        proof {
            assert forall|k2: KeyView| #[trigger] self.contents@.contains_key(k2) implies exists|j: int|
                0 <= j < self.entries@.len() && self.entries@[j].key@ == k2 by {
                if k2 != k {
                    let j = choose|j: int| 0 <= j < old_entries.len() && old_entries[j].key@ == k2;
                    assert(self.entries@[j].key@ == k2);
                } else {
                    assert(self.entries@[i as int].key@ == k2);
                }
            }
        }
        Ok(s)
    }

    /// Removes the entry under `key` if its version is `expected`.
    pub fn delete_if_version(&mut self, key: &StoreKey, expected: u64) -> (r: Result<(), StoreError>)
        requires
            old(self).wf(),
        ensures
            final(self).wf(),
            final(self).next_version() == old(self).next_version(),
            r is Ok <==> (old(self)@.contains_key(key@) && old(self)@[key@].1 == expected),
            r is Ok ==> final(self)@ == old(self)@.remove(key@),
            r is Err ==> final(self)@ == old(self)@ && r == Err::<(), StoreError>(StoreError::Conflict),
    {
        let i = match self.find(key) {
            None => { return Err(StoreError::Conflict); },
            Some(i) => i,
        };
        if self.entries[i].seq != expected {
            return Err(StoreError::Conflict);
        }
        let ghost k = key@;
        let ghost old_entries = self.entries@;
        self.entries.remove(i);
        self.contents = Ghost(self.contents@.remove(k));
        proof {
            let n = old_entries.len() as int;
            assert(forall|j: int| 0 <= j < i ==> self.entries@[j] == old_entries[j]);
            assert(forall|j: int| i <= j < n - 1 ==> self.entries@[j] == old_entries[j + 1]);
            assert forall|j: int| 0 <= j < self.entries@.len() implies {
                &&& #[trigger] self.contents@.contains_key(self.entries@[j].key@)
                &&& self.contents@[self.entries@[j].key@] == (self.entries@[j].data, self.entries@[j].seq)
            } by {
                let oj = if j < i { j } else { j + 1 };
                assert(old_entries[oj] == self.entries@[j]);
                assert(old(self).contents@.contains_key(old_entries[oj].key@));
                assert(old_entries[oj].key@ != k);
            }
            assert forall|k2: KeyView| #[trigger] self.contents@.contains_key(k2) implies exists|j: int|
                0 <= j < self.entries@.len() && self.entries@[j].key@ == k2 by {
                let oj = choose|j: int| 0 <= j < n && old_entries[j].key@ == k2;
                assert(oj != i);
                let j = if oj < i { oj } else { oj - 1 };
                assert(self.entries@[j].key@ == k2);
            }
            assert forall|a: int, b: int| 0 <= a < b < self.entries@.len() implies
                self.entries@[a].key@ != self.entries@[b].key@ by {
                let oa = if a < i { a } else { a + 1 };
                let ob = if b < i { b } else { b + 1 };
                assert(old_entries[oa] == self.entries@[a]);
                assert(old_entries[ob] == self.entries@[b]);
            }
            assert forall|j: int| 0 <= j < self.entries@.len() implies #[trigger] self.entries@[j].seq < self.next_seq by {
                let oj = if j < i { j } else { j + 1 };
                assert(old_entries[oj] == self.entries@[j]);
            }
        }
        Ok(())
    }
}

} // verus!
