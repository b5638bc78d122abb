//! Read-through metadata caches with time-to-idle and time-to-live
//! eviction, keyed by key identifier.
//!
//! Two caches exist: one holds the full version list of a key, the other
//! its alias list.  An entry is served only while it is live: younger than
//! the time-to-live bound since insertion (a hard upper bound regardless of
//! access pattern) and younger than the time-to-idle bound since its last
//! access.  Writers never patch an entry in place: every write path
//! invalidates, forcing the next read to reload authoritative state.
//! Invalidating an absent key is a no-op.

use vstd::prelude::*;

use crate::models::{metas_view, KeyAliasModel, KeyMetaModel};
use crate::strutil::str_eq;

verus! {

broadcast use vstd::string::to_string_from_display_ensures_for_str;

/// Default time-to-idle of a cache entry, in seconds (five minutes).
pub const CACHE_TTI_SECS: u64 = 300;

/// Default time-to-live of a cache entry, in seconds (thirty minutes).
pub const CACHE_TTL_SECS: u64 = 1800;

/// Duplicate of an alias list, row for row.
pub fn clone_aliases(v: &Vec<KeyAliasModel>) -> (r: Vec<KeyAliasModel>)
    ensures
        r@ == v@,
{
    let mut r: Vec<KeyAliasModel> = Vec::new();
    let mut i: usize = 0;
    while i < v.len()
        invariant
            0 <= i <= v@.len(),
            r@ == v@.subrange(0, i as int),
        decreases v@.len() - i,
    {
        proof {
            assert(v@.subrange(0, i + 1) =~= v@.subrange(0, i as int).push(v@[i as int]));
        }
        r.push(v[i].clone());
        i += 1;
    }
    proof {
        assert(v@.subrange(0, v@.len() as int) =~= v@);
    }
    r
}

/// Duplicate of a version list, row for row (equal at the view level).
pub fn clone_metas(v: &Vec<KeyMetaModel>) -> (r: Vec<KeyMetaModel>)
    ensures
        metas_view(r@) == metas_view(v@),
{
    let mut r: Vec<KeyMetaModel> = Vec::new();
    let mut i: usize = 0;
    while i < v.len()
        invariant
            0 <= i <= v@.len(),
            metas_view(r@) == metas_view(v@).subrange(0, i as int),
        decreases v@.len() - i,
    {
        proof {
            assert(metas_view(v@).subrange(0, i + 1) =~= metas_view(v@).subrange(0, i as int).push(
                metas_view(v@)[i as int],
            ));
            assert(metas_view(v@)[i as int] == v@[i as int]@);
        }
        r.push(v[i].clone());
        proof {
            assert(metas_view(r@) =~= metas_view(r@.drop_last()).push(r@.last()@));
        }
        i += 1;
    }
    proof {
        assert(metas_view(v@).subrange(0, v@.len() as int) =~= metas_view(v@));
    }
    r
}

/// One alias-cache slot.
pub struct AliasCacheEntry {
    /// Key identifier the slot caches.
    pub key: String,
    /// Cached alias list of the key.
    pub value: Vec<KeyAliasModel>,
    /// When the slot was populated.
    pub inserted_at: u64,
    /// When the slot was last served.
    pub last_access: u64,
}

/// One version-cache slot.
pub struct MetaCacheEntry {
    /// Key identifier the slot caches.
    pub key: String,
    /// Cached version list of the key.
    pub value: Vec<KeyMetaModel>,
    /// When the slot was populated.
    pub inserted_at: u64,
    /// When the slot was last served.
    pub last_access: u64,
}

/// Cache of key identifier to alias list.
pub struct AliasCache {
    /// The slots, one per cached key.
    pub entries: Vec<AliasCacheEntry>,
    /// Time-to-idle bound in seconds.
    pub tti: u64,
    /// Time-to-live bound in seconds.
    pub ttl: u64,
}

/// Cache of key identifier to version list.
pub struct MetaCache {
    /// The slots, one per cached key.
    pub entries: Vec<MetaCacheEntry>,
    /// Time-to-idle bound in seconds.
    pub tti: u64,
    /// Time-to-live bound in seconds.
    pub ttl: u64,
}

impl AliasCache {
    /// At most one slot per key.
    pub open spec fn keys_unique(self) -> bool {
        forall|i: int, j: int|
            0 <= i < j < self.entries@.len() ==> self.entries@[i].key@ != self.entries@[j].key@
    }

    /// Every row a slot caches belongs to the slot's key: the cache can
    /// never serve another key's aliases.
    pub open spec fn slots_own_rows(self) -> bool {
        forall|i: int, j: int|
            #![trigger self.entries@[i].value@[j]]
            0 <= i < self.entries@.len() && 0 <= j < self.entries@[i].value@.len()
                ==> self.entries@[i].value@[j].key_id@ == self.entries@[i].key@
    }

    /// Well-formedness of the cache.
    pub open spec fn wf(self) -> bool {
        self.keys_unique() && self.slots_own_rows()
    }

    /// Whether some slot caches this key.
    pub open spec fn has_key(self, k: Seq<char>) -> bool {
        exists|i: int| 0 <= i < self.entries@.len() && self.entries@[i].key@ == k
    }

    /// Index of the slot caching this key (unique under [`Self::wf`]).
    pub open spec fn idx_of(self, k: Seq<char>) -> int {
        choose|i: int| 0 <= i < self.entries@.len() && self.entries@[i].key@ == k
    }

    /// Whether a slot may still be served at time `now`.
    pub open spec fn slot_live(self, i: int, now: u64) -> bool {
        let e = self.entries@[i];
        &&& e.inserted_at <= now < e.inserted_at + self.ttl
        &&& e.last_access <= now < e.last_access + self.tti
    }

    /// A read for this key at time `now` hits the cache.
    pub open spec fn lookup_hit(self, k: Seq<char>, now: u64) -> bool {
        self.has_key(k) && self.slot_live(self.idx_of(k), now)
    }

    /// Cached alias list of this key.
    pub open spec fn value_of(self, k: Seq<char>) -> Seq<KeyAliasModel> {
        self.entries@[self.idx_of(k)].value@
    }

    /// Fresh, empty cache with the given eviction bounds.
    pub fn new(tti: u64, ttl: u64) -> (c: Self)
        ensures
            c.wf(),
            c.entries@.len() == 0,
            c.tti == tti,
            c.ttl == ttl,
    {
        AliasCache { entries: Vec::new(), tti, ttl }
    }

    /// Index of the slot caching this key, if any.
    fn find_idx(&self, key: &str) -> (r: Option<usize>)
        requires
            self.wf(),
        ensures
            match r {
                Option::Some(i) => self.has_key(key@) && i < self.entries@.len()
                    && self.entries@[i as int].key@ == key@ && self.idx_of(key@) == i,
                Option::None => !self.has_key(key@),
            },
    {
        let mut k: usize = 0;
        while k < self.entries.len()
            invariant
                self.wf(),
                0 <= k <= self.entries@.len(),
                forall|j: int| 0 <= j < k ==> self.entries@[j].key@ != key@,
            decreases self.entries@.len() - k,
        {
            if str_eq(self.entries[k].key.as_str(), key) {
                proof {
                    let c = self.idx_of(key@);
                    if c != k {
                        assert(self.entries@[c].key@ != self.entries@[k as int].key@);
                    }
                }
                return Some(k);
            }
            k += 1;
        }
        None
    }

    /// Read through the cache: on a live slot, serves its value and
    /// refreshes the slot's idle clock; otherwise serves nothing and leaves
    /// the cache unchanged.
    pub fn get(&mut self, key: &str, now: u64) -> (r: Option<Vec<KeyAliasModel>>)
        requires
            old(self).wf(),
        ensures
            final(self).wf(),
            final(self).tti == old(self).tti,
            final(self).ttl == old(self).ttl,
            match r {
                Option::Some(v) => {
                    let i = old(self).idx_of(key@);
                    &&& old(self).lookup_hit(key@, now)
                    &&& v@ == old(self).value_of(key@)
                    &&& final(self).entries@.len() == old(self).entries@.len()
                    &&& forall|j: int|
                        0 <= j < old(self).entries@.len() && j != i ==> final(self).entries@[j]
                            == old(self).entries@[j]
                    &&& final(self).entries@[i].key@ == key@
                    &&& final(self).entries@[i].value@ == old(self).value_of(key@)
                    &&& final(self).entries@[i].inserted_at == old(self).entries@[i].inserted_at
                    &&& final(self).entries@[i].last_access == now
                },
                Option::None => !old(self).lookup_hit(key@, now) && *final(self) == *old(self),
            },
    {
        match self.find_idx(key) {
            Some(i) => {
                let e = &self.entries[i];
                let live = e.inserted_at <= now && now - e.inserted_at < self.ttl
                    && e.last_access <= now && now - e.last_access < self.tti;
                if live {
                    let touched = AliasCacheEntry {
                        key: e.key.clone(),
                        value: clone_aliases(&e.value),
                        inserted_at: e.inserted_at,
                        last_access: now,
                    };
                    let out = clone_aliases(&self.entries[i].value);
                    self.entries.set(i, touched);
                    proof {
                        assert forall|x: int, y: int|
                            0 <= x < y < self.entries@.len() implies self.entries@[x].key@
                            != self.entries@[y].key@ by {
                            assert(old(self).entries@[x].key@ != old(self).entries@[y].key@);
                        }
                    }
                    Some(out)
                } else {
                    None
                }
            },
            None => None,
        }
    }

    /// Populate (or replace) the slot of this key with a fresh value; the
    /// rows must all belong to the key the slot is for.
    pub fn insert(&mut self, key: &str, value: Vec<KeyAliasModel>, now: u64)
        requires
            old(self).wf(),
            forall|j: int| 0 <= j < value@.len() ==> value@[j].key_id@ == key@,
        ensures
            final(self).wf(),
            final(self).tti == old(self).tti,
            final(self).ttl == old(self).ttl,
            final(self).has_key(key@),
            ({
                let i = final(self).idx_of(key@);
                &&& final(self).entries@[i].key@ == key@
                &&& final(self).entries@[i].value@ == value@
                &&& final(self).entries@[i].inserted_at == now
                &&& final(self).entries@[i].last_access == now
            }),
            old(self).has_key(key@) ==> final(self).entries@.len() == old(self).entries@.len()
                && final(self).idx_of(key@) == old(self).idx_of(key@) && (forall|j: int|
                0 <= j < old(self).entries@.len() && j != old(self).idx_of(key@)
                    ==> final(self).entries@[j] == old(self).entries@[j]),
            !old(self).has_key(key@) ==> final(self).entries@.len() == old(self).entries@.len() + 1
                && final(self).idx_of(key@) == old(self).entries@.len()
                && final(self).entries@.subrange(0, old(self).entries@.len() as int)
                    == old(self).entries@,
    {
        let fresh = AliasCacheEntry { key: key.to_string(), value, inserted_at: now, last_access: now };
        match self.find_idx(key) {
            Some(i) => {
                self.entries.set(i, fresh);
                proof {
                    assert forall|x: int, y: int|
                        0 <= x < y < self.entries@.len() implies self.entries@[x].key@
                        != self.entries@[y].key@ by {
                        assert(old(self).entries@[x].key@ != old(self).entries@[y].key@);
                    }
                    self.lemma_idx_at(i as int, key@);
                }
            },
            None => {
                self.entries.push(fresh);
                proof {
                    assert(self.entries@.subrange(0, old(self).entries@.len() as int) =~= old(
                        self,
                    ).entries@);
                    self.lemma_idx_at(old(self).entries@.len() as int, key@);
                }
            },
        }
    }

    /// Under uniqueness, the chosen slot index is the given one.
    pub proof fn lemma_idx_at(self, i: int, k: Seq<char>)
        requires
            self.wf(),
            0 <= i < self.entries@.len(),
            self.entries@[i].key@ == k,
        ensures
            self.has_key(k),
            self.idx_of(k) == i,
    {
        assert(self.has_key(k));
        let c = self.idx_of(k);
        if c != i {
            assert(self.entries@[c].key@ != self.entries@[i].key@);
        }
    }

    /// Drop the slot of this key; a no-op when the key is not cached.
    pub fn invalidate(&mut self, key: &str)
        requires
            old(self).wf(),
        ensures
            final(self).wf(),
            final(self).tti == old(self).tti,
            final(self).ttl == old(self).ttl,
            !final(self).has_key(key@),
            old(self).has_key(key@) ==> final(self).entries@ == old(self).entries@.remove(
                old(self).idx_of(key@),
            ),
            !old(self).has_key(key@) ==> *final(self) == *old(self),
    {
        match self.find_idx(key) {
            Some(i) => {
                self.entries.remove(i);
                proof {
                    let pre = old(self).entries@;
                    assert forall|x: int|
                        0 <= x < self.entries@.len() implies self.entries@[x] == (if x < i {
                        pre[x]
                    } else {
                        pre[x + 1]
                    }) by {
                        assert(pre.remove(i as int)[x] == (if x < i {
                            pre[x]
                        } else {
                            pre[x + 1]
                        }));
                    }
                    assert forall|x: int, y: int|
                        0 <= x < y < self.entries@.len() implies self.entries@[x].key@
                        != self.entries@[y].key@ by {}
                    assert forall|x: int|
                        0 <= x < self.entries@.len() implies self.entries@[x].key@ != key@ by {}
                }
            },
            None => {},
        }
    }
}

impl MetaCache {
    /// At most one slot per key.
    pub open spec fn keys_unique(self) -> bool {
        forall|i: int, j: int|
            0 <= i < j < self.entries@.len() ==> self.entries@[i].key@ != self.entries@[j].key@
    }

    /// Every row a slot caches belongs to the slot's key: the cache can
    /// never serve another key's versions.
    pub open spec fn slots_own_rows(self) -> bool {
        forall|i: int, j: int|
            #![trigger self.entries@[i].value@[j]]
            0 <= i < self.entries@.len() && 0 <= j < self.entries@[i].value@.len()
                ==> self.entries@[i].value@[j]@.key_id == self.entries@[i].key@
    }

    /// Well-formedness of the cache.
    pub open spec fn wf(self) -> bool {
        self.keys_unique() && self.slots_own_rows()
    }

    /// Whether some slot caches this key.
    pub open spec fn has_key(self, k: Seq<char>) -> bool {
        exists|i: int| 0 <= i < self.entries@.len() && self.entries@[i].key@ == k
    }

    /// Index of the slot caching this key (unique under [`Self::wf`]).
    pub open spec fn idx_of(self, k: Seq<char>) -> int {
        choose|i: int| 0 <= i < self.entries@.len() && self.entries@[i].key@ == k
    }

    /// Whether a slot may still be served at time `now`.
    pub open spec fn slot_live(self, i: int, now: u64) -> bool {
        let e = self.entries@[i];
        &&& e.inserted_at <= now < e.inserted_at + self.ttl
        &&& e.last_access <= now < e.last_access + self.tti
    }

    /// A read for this key at time `now` hits the cache.
    pub open spec fn lookup_hit(self, k: Seq<char>, now: u64) -> bool {
        self.has_key(k) && self.slot_live(self.idx_of(k), now)
    }

    /// Cached version list of this key, at the view level.
    pub open spec fn value_of(self, k: Seq<char>) -> Seq<crate::models::KeyMetaView> {
        metas_view(self.entries@[self.idx_of(k)].value@)
    }

    /// Fresh, empty cache with the given eviction bounds.
    pub fn new(tti: u64, ttl: u64) -> (c: Self)
        ensures
            c.wf(),
            c.entries@.len() == 0,
            c.tti == tti,
            c.ttl == ttl,
    {
        MetaCache { entries: Vec::new(), tti, ttl }
    }

    /// Index of the slot caching this key, if any.
    fn find_idx(&self, key: &str) -> (r: Option<usize>)
        requires
            self.wf(),
        ensures
            match r {
                Option::Some(i) => self.has_key(key@) && i < self.entries@.len()
                    && self.entries@[i as int].key@ == key@ && self.idx_of(key@) == i,
                Option::None => !self.has_key(key@),
            },
    {
        let mut k: usize = 0;
        while k < self.entries.len()
            invariant
                self.wf(),
                0 <= k <= self.entries@.len(),
                forall|j: int| 0 <= j < k ==> self.entries@[j].key@ != key@,
            decreases self.entries@.len() - k,
        {
            if str_eq(self.entries[k].key.as_str(), key) {
                proof {
                    let c = self.idx_of(key@);
                    if c != k {
                        assert(self.entries@[c].key@ != self.entries@[k as int].key@);
                    }
                }
                return Some(k);
            }
            k += 1;
        }
        None
    }

    /// Read through the cache: on a live slot, serves its value and
    /// refreshes the slot's idle clock; otherwise serves nothing and leaves
    /// the cache unchanged.
    pub fn get(&mut self, key: &str, now: u64) -> (r: Option<Vec<KeyMetaModel>>)
        requires
            old(self).wf(),
        ensures
            final(self).wf(),
            final(self).tti == old(self).tti,
            final(self).ttl == old(self).ttl,
            match r {
                Option::Some(v) => {
                    let i = old(self).idx_of(key@);
                    &&& old(self).lookup_hit(key@, now)
                    &&& metas_view(v@) == old(self).value_of(key@)
                    &&& final(self).entries@.len() == old(self).entries@.len()
                    &&& forall|j: int|
                        0 <= j < old(self).entries@.len() && j != i ==> final(self).entries@[j]
                            == old(self).entries@[j]
                    &&& final(self).entries@[i].key@ == key@
                    &&& metas_view(final(self).entries@[i].value@) == old(self).value_of(key@)
                    &&& final(self).entries@[i].inserted_at == old(self).entries@[i].inserted_at
                    &&& final(self).entries@[i].last_access == now
                },
                Option::None => !old(self).lookup_hit(key@, now) && *final(self) == *old(self),
            },
    {
        match self.find_idx(key) {
            Some(i) => {
                let e = &self.entries[i];
                let live = e.inserted_at <= now && now - e.inserted_at < self.ttl
                    && e.last_access <= now && now - e.last_access < self.tti;
                if live {
                    let touched = MetaCacheEntry {
                        key: e.key.clone(),
                        value: clone_metas(&e.value),
                        inserted_at: e.inserted_at,
                        last_access: now,
                    };
                    let out = clone_metas(&self.entries[i].value);
                    self.entries.set(i, touched);
                    proof {
                        assert forall|x: int, y: int|
                            0 <= x < y < self.entries@.len() implies self.entries@[x].key@
                            != self.entries@[y].key@ by {
                            assert(old(self).entries@[x].key@ != old(self).entries@[y].key@);
                        }
                        assert forall|x: int, j: int|
                            #![trigger self.entries@[x].value@[j]]
                            0 <= x < self.entries@.len() && 0 <= j
                                < self.entries@[x].value@.len() implies self.entries@[x].value@[j]@.key_id
                            == self.entries@[x].key@ by {
                            if x == i {
                                let pre = old(self).entries@[x];
                                assert(metas_view(self.entries@[x].value@).len()
                                    == self.entries@[x].value@.len());
                                assert(metas_view(pre.value@).len() == pre.value@.len());
                                assert(metas_view(self.entries@[x].value@)[j] == self.entries@[x].value@[j]@);
                                assert(metas_view(pre.value@)[j] == pre.value@[j]@);
                                assert(pre.value@[j]@.key_id == pre.key@);
                            } else {
                                assert(old(self).entries@[x].value@[j]@.key_id == old(self).entries@[x].key@);
                            }
                        }
                    }
                    Some(out)
                } else {
                    None
                }
            },
            None => None,
        }
    }

    /// Populate (or replace) the slot of this key with a fresh value; the
    /// rows must all belong to the key the slot is for.
    pub fn insert(&mut self, key: &str, value: Vec<KeyMetaModel>, now: u64)
        requires
            old(self).wf(),
            forall|j: int| 0 <= j < value@.len() ==> value@[j]@.key_id == key@,
        ensures
            final(self).wf(),
            final(self).tti == old(self).tti,
            final(self).ttl == old(self).ttl,
            final(self).has_key(key@),
            ({
                let i = final(self).idx_of(key@);
                &&& final(self).entries@[i].key@ == key@
                &&& metas_view(final(self).entries@[i].value@) == metas_view(value@)
                &&& final(self).entries@[i].inserted_at == now
                &&& final(self).entries@[i].last_access == now
            }),
            old(self).has_key(key@) ==> final(self).entries@.len() == old(self).entries@.len()
                && final(self).idx_of(key@) == old(self).idx_of(key@) && (forall|j: int|
                0 <= j < old(self).entries@.len() && j != old(self).idx_of(key@)
                    ==> final(self).entries@[j] == old(self).entries@[j]),
            !old(self).has_key(key@) ==> final(self).entries@.len() == old(self).entries@.len() + 1
                && final(self).idx_of(key@) == old(self).entries@.len()
                && final(self).entries@.subrange(0, old(self).entries@.len() as int)
                    == old(self).entries@,
    {
        let fresh = MetaCacheEntry { key: key.to_string(), value, inserted_at: now, last_access: now };
        match self.find_idx(key) {
            Some(i) => {
                self.entries.set(i, fresh);
                proof {
                    assert forall|x: int, y: int|
                        0 <= x < y < self.entries@.len() implies self.entries@[x].key@
                        != self.entries@[y].key@ by {
                        assert(old(self).entries@[x].key@ != old(self).entries@[y].key@);
                    }
                    self.lemma_idx_at(i as int, key@);
                }
            },
            None => {
                self.entries.push(fresh);
                proof {
                    assert(self.entries@.subrange(0, old(self).entries@.len() as int) =~= old(
                        self,
                    ).entries@);
                    self.lemma_idx_at(old(self).entries@.len() as int, key@);
                }
            },
        }
    }

    /// Under uniqueness, the chosen slot index is the given one.
    pub proof fn lemma_idx_at(self, i: int, k: Seq<char>)
        requires
            self.wf(),
            0 <= i < self.entries@.len(),
            self.entries@[i].key@ == k,
        ensures
            self.has_key(k),
            self.idx_of(k) == i,
    {
        assert(self.has_key(k));
        let c = self.idx_of(k);
        if c != i {
            assert(self.entries@[c].key@ != self.entries@[i].key@);
        }
    }

    /// Drop the slot of this key; a no-op when the key is not cached.
    pub fn invalidate(&mut self, key: &str)
        requires
            old(self).wf(),
        ensures
            final(self).wf(),
            final(self).tti == old(self).tti,
            final(self).ttl == old(self).ttl,
            !final(self).has_key(key@),
            old(self).has_key(key@) ==> final(self).entries@ == old(self).entries@.remove(
                old(self).idx_of(key@),
            ),
            !old(self).has_key(key@) ==> *final(self) == *old(self),
    {
        match self.find_idx(key) {
            Some(i) => {
                self.entries.remove(i);
                proof {
                    let pre = old(self).entries@;
                    assert forall|x: int|
                        0 <= x < self.entries@.len() implies self.entries@[x] == (if x < i {
                        pre[x]
                    } else {
                        pre[x + 1]
                    }) by {
                        assert(pre.remove(i as int)[x] == (if x < i {
                            pre[x]
                        } else {
                            pre[x + 1]
                        }));
                    }
                    assert forall|x: int, y: int|
                        0 <= x < y < self.entries@.len() implies self.entries@[x].key@
                        != self.entries@[y].key@ by {}
                    assert forall|x: int|
                        0 <= x < self.entries@.len() implies self.entries@[x].key@ != key@ by {}
                }
            },
            None => {},
        }
    }
}

} // verus!
