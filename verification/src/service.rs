//! The key metadata service: a store fronted by the two read-through
//! caches, with an alias-count limit and the sessions of pending imports.
//!
//! Every read of key metadata or aliases goes through the matching cache
//! (populating it on a miss and counting the store read); every write goes
//! to the store first and then invalidates the affected cache entry, so a
//! later read can never serve state from before the write.

use vstd::prelude::*;

use crate::cache::{
    clone_aliases, clone_metas, AliasCache, MetaCache, CACHE_TTI_SECS, CACHE_TTL_SECS,
};
use crate::errors::ServiceError;
use crate::import::{imports_unique, ImportSession};
use crate::models::{KeyAliasModel, KeyMetaModel, KeyMetaView};
use crate::store::{
    shared_attrs_agree, spec_aliases_of, spec_metas_of, spec_set_alias_post, spec_upsert_meta_post,
    KeyMetaStore,
};
use crate::strutil::str_eq;

verus! {

broadcast use
    vstd::string::to_string_from_display_ensures_for_str,
    vstd::seq_lib::group_filter_ensures;

/// Default bound on the number of aliases one key may own.
pub const DEFAULT_KEY_ALIAS_LIMIT: usize = 5;

/// A counter bumped by one, stopping at its ceiling.
pub open spec fn spec_bump(n: u64) -> u64 {
    if n == u64::MAX {
        n
    } else {
        (n + 1) as u64
    }
}

/// The whole service state: authoritative store, the two caches, the
/// alias-count limit, and the live import sessions.
pub struct Kms {
    /// Authoritative store of version and alias rows.
    pub store: KeyMetaStore,
    /// Read-through cache of a key's version list.
    pub meta_cache: MetaCache,
    /// Read-through cache of a key's alias list.
    pub alias_cache: AliasCache,
    /// Largest number of aliases one key may own.
    pub alias_limit: usize,
    /// Live wrapping-key sessions, at most one per key pending import.
    pub imports: Vec<ImportSession>,
    /// Store reads issued by the read-through caches (cache misses).
    pub store_reads: u64,
}

impl Kms {
    /// Well-formedness of the whole service state.
    pub open spec fn wf(self) -> bool {
        &&& self.store.wf()
        &&& self.meta_cache.wf()
        &&& self.alias_cache.wf()
        &&& imports_unique(self.imports@)
        &&& self.meta_cache.tti > 0
        &&& self.meta_cache.ttl > 0
        &&& self.alias_cache.tti > 0
        &&& self.alias_cache.ttl > 0
    }

    /// Fresh service state with the default alias limit and cache bounds.
    pub fn new() -> (s: Self)
        ensures
            s.wf(),
            s.store.metas@.len() == 0,
            s.store.aliases@.len() == 0,
            s.alias_limit == DEFAULT_KEY_ALIAS_LIMIT,
            s.imports@.len() == 0,
            s.store_reads == 0,
            s.meta_cache.entries@.len() == 0,
            s.alias_cache.entries@.len() == 0,
    {
        Kms {
            store: KeyMetaStore::new(),
            meta_cache: MetaCache::new(CACHE_TTI_SECS, CACHE_TTL_SECS),
            alias_cache: AliasCache::new(CACHE_TTI_SECS, CACHE_TTL_SECS),
            alias_limit: DEFAULT_KEY_ALIAS_LIMIT,
            imports: Vec::new(),
            store_reads: 0,
        }
    }

    /// Fresh service state with an explicit alias limit (the configuration
    /// surface: the limit is overridable by the embedding process).
    pub fn with_alias_limit(limit: usize) -> (s: Self)
        ensures
            s.wf(),
            s.store.metas@.len() == 0,
            s.store.aliases@.len() == 0,
            s.alias_limit == limit,
            s.imports@.len() == 0,
            s.store_reads == 0,
            s.alias_cache.entries@.len() == 0,
    {
        let mut s = Self::new();
        s.alias_limit = limit;
        s
    }

    /// The version list a read of this key observes at time `now`: the
    /// cached list on a hit, the authoritative store rows otherwise.
    pub open spec fn spec_visible_metas(self, key: Seq<char>, now: u64) -> Seq<KeyMetaView> {
        if self.meta_cache.lookup_hit(key, now) {
            self.meta_cache.value_of(key)
        } else {
            spec_metas_of(self.store.meta_views(), key)
        }
    }

    /// The alias list a read of this key observes at time `now`.
    pub open spec fn spec_visible_aliases(self, key: Seq<char>, now: u64) -> Seq<KeyAliasModel> {
        if self.alias_cache.lookup_hit(key, now) {
            self.alias_cache.value_of(key)
        } else {
            spec_aliases_of(self.store.aliases@, key)
        }
    }

    /// Everything but the version cache and the read counter is unchanged.
    pub open spec fn spec_only_meta_cache_touched(pre: Self, post: Self) -> bool {
        &&& post.store == pre.store
        &&& post.alias_cache == pre.alias_cache
        &&& post.alias_limit == pre.alias_limit
        &&& post.imports == pre.imports
        &&& post.meta_cache.tti == pre.meta_cache.tti
        &&& post.meta_cache.ttl == pre.meta_cache.ttl
    }

    /// Everything but the alias cache and the read counter is unchanged.
    pub open spec fn spec_only_alias_cache_touched(pre: Self, post: Self) -> bool {
        &&& post.store == pre.store
        &&& post.meta_cache == pre.meta_cache
        &&& post.alias_limit == pre.alias_limit
        &&& post.imports == pre.imports
        &&& post.alias_cache.tti == pre.alias_cache.tti
        &&& post.alias_cache.ttl == pre.alias_cache.ttl
    }

    /// All version rows of one key, served through the version cache: a
    /// live cache entry answers without a store read; otherwise the store
    /// answers, one read is counted, and the entry is (re)populated, so an
    /// immediate second read hits the cache.
    pub fn get_key_metas(&mut self, key_id: &str, now: u64) -> (r: Vec<KeyMetaModel>)
        requires
            old(self).wf(),
        ensures
            final(self).wf(),
            Self::spec_only_meta_cache_touched(*old(self), *final(self)),
            crate::models::metas_view(r@) == old(self).spec_visible_metas(key_id@, now),
            final(self).meta_cache.lookup_hit(key_id@, now),
            final(self).meta_cache.value_of(key_id@) == crate::models::metas_view(r@),
            old(self).meta_cache.lookup_hit(key_id@, now) ==> final(self).store_reads == old(
                self,
            ).store_reads,
            !old(self).meta_cache.lookup_hit(key_id@, now) ==> final(self).store_reads
                == spec_bump(old(self).store_reads),
            forall|j: int| 0 <= j < r@.len() ==> r@[j]@.key_id == key_id@,
    {
        match self.meta_cache.get(key_id, now) {
            Some(v) => {
                proof {
                    let i = old(self).meta_cache.idx_of(key_id@);
                    self.meta_cache.lemma_idx_at(i, key_id@);
                    let slot = old(self).meta_cache.entries@[i];
                    assert forall|j: int|
                        0 <= j < v@.len() implies v@[j]@.key_id == key_id@ by {
                        assert(crate::models::metas_view(v@).len() == v@.len());
                        assert(crate::models::metas_view(slot.value@).len() == slot.value@.len());
                        assert(crate::models::metas_view(v@)[j] == v@[j]@);
                        assert(crate::models::metas_view(slot.value@)[j] == slot.value@[j]@);
                        assert(slot.value@[j]@.key_id == slot.key@);
                    }
                }
                v
            },
            None => {
                let v = self.store.select_key_metas(key_id);
                if self.store_reads < u64::MAX {
                    self.store_reads = self.store_reads + 1;
                }
                let copy = clone_metas(&v);
                proof {
                    assert forall|j: int|
                        0 <= j < copy@.len() implies copy@[j]@.key_id == key_id@ by {
                        assert(crate::models::metas_view(copy@)[j] == copy@[j]@);
                        assert(crate::models::metas_view(v@)[j] == v@[j]@);
                    }
                    assert forall|j: int|
                        0 <= j < v@.len() implies v@[j]@.key_id == key_id@ by {
                        assert(crate::models::metas_view(v@)[j] == v@[j]@);
                    }
                }
                self.meta_cache.insert(key_id, copy, now);
                proof {
                    let i = self.meta_cache.idx_of(key_id@);
                    assert(self.meta_cache.slot_live(i, now));
                }
                v
            },
        }
    }

    /// All alias rows of one key, served through the alias cache, with the
    /// same read-through discipline as [`Self::get_key_metas`].
    pub fn get_aliases(&mut self, key_id: &str, now: u64) -> (r: Vec<KeyAliasModel>)
        requires
            old(self).wf(),
        ensures
            final(self).wf(),
            Self::spec_only_alias_cache_touched(*old(self), *final(self)),
            r@ == old(self).spec_visible_aliases(key_id@, now),
            final(self).alias_cache.lookup_hit(key_id@, now),
            final(self).alias_cache.value_of(key_id@) == r@,
            old(self).alias_cache.lookup_hit(key_id@, now) ==> final(self).store_reads == old(
                self,
            ).store_reads,
            !old(self).alias_cache.lookup_hit(key_id@, now) ==> final(self).store_reads
                == spec_bump(old(self).store_reads),
            forall|j: int| 0 <= j < r@.len() ==> r@[j].key_id@ == key_id@,
    {
        match self.alias_cache.get(key_id, now) {
            Some(v) => {
                proof {
                    let i = old(self).alias_cache.idx_of(key_id@);
                    self.alias_cache.lemma_idx_at(i, key_id@);
                    let slot = old(self).alias_cache.entries@[i];
                    assert forall|j: int|
                        0 <= j < v@.len() implies v@[j].key_id@ == key_id@ by {
                        assert(slot.value@[j].key_id@ == slot.key@);
                    }
                }
                v
            },
            None => {
                let v = self.store.select_key_aliases(key_id);
                if self.store_reads < u64::MAX {
                    self.store_reads = self.store_reads + 1;
                }
                let copy = clone_aliases(&v);
                proof {
                    assert forall|j: int|
                        0 <= j < copy@.len() implies copy@[j].key_id@ == key_id@ by {}
                }
                self.alias_cache.insert(key_id, copy, now);
                proof {
                    let i = self.alias_cache.idx_of(key_id@);
                    assert(self.alias_cache.slot_live(i, now));
                }
                v
            },
        }
    }

    /// The key's primary version row: the row whose version equals the
    /// key's declared primary version; `NotFound` when the key is unknown
    /// or no row matches (a key pending import has no primary yet).
    pub fn get_main_key_meta(&mut self, key_id: &str, now: u64) -> (r: Result<
        KeyMetaModel,
        ServiceError,
    >)
        requires
            old(self).wf(),
        ensures
            final(self).wf(),
            Self::spec_only_meta_cache_touched(*old(self), *final(self)),
            ({
                let rows = old(self).spec_visible_metas(key_id@, now);
                match r {
                    Result::Ok(m) => (exists|i: int|
                        0 <= i < rows.len() && rows[i] == m@) && m@.version == m@.primary_version,
                    Result::Err(e) => {
                        &&& e matches ServiceError::NotFound(s) && s@ == key_id@
                        &&& forall|i: int|
                            0 <= i < rows.len() ==> rows[i].version != rows[i].primary_version
                    },
                }
            }),
    {
        let ghost rows_spec = old(self).spec_visible_metas(key_id@, now);
        let rows = self.get_key_metas(key_id, now);
        let mut k: usize = 0;
        while k < rows.len()
            invariant
                self.wf(),
                Self::spec_only_meta_cache_touched(*old(self), *self),
                0 <= k <= rows@.len(),
                rows_spec == old(self).spec_visible_metas(key_id@, now),
                rows_spec == crate::models::metas_view(rows@),
                forall|j: int| 0 <= j < k ==> rows_spec[j].version != rows_spec[j].primary_version,
            decreases rows@.len() - k,
        {
            let m = &rows[k];
            proof {
                assert(crate::models::metas_view(rows@)[k as int] == rows@[k as int]@);
            }
            if str_eq(m.version.as_str(), m.primary_version.as_str()) {
                let out = m.clone();
                proof {
                    assert(old(self).spec_visible_metas(key_id@, now)[k as int] == out@);
                }
                return Ok(out);
            }
            k += 1;
        }
        Err(ServiceError::NotFound(key_id.to_string()))
    }

    /// One specific version row of a key; `NotFound` when the key or the
    /// version is unknown.
    pub fn get_version_key_meta(&mut self, key_id: &str, version: &str, now: u64) -> (r: Result<
        KeyMetaModel,
        ServiceError,
    >)
        requires
            old(self).wf(),
        ensures
            final(self).wf(),
            Self::spec_only_meta_cache_touched(*old(self), *final(self)),
            ({
                let rows = old(self).spec_visible_metas(key_id@, now);
                match r {
                    Result::Ok(m) => (exists|i: int|
                        0 <= i < rows.len() && rows[i] == m@) && m@.version == version@,
                    Result::Err(e) => {
                        &&& e matches ServiceError::NotFound(s) && s@ == key_id@
                        &&& forall|i: int| 0 <= i < rows.len() ==> rows[i].version != version@
                    },
                }
            }),
    {
        let ghost rows_spec = old(self).spec_visible_metas(key_id@, now);
        let rows = self.get_key_metas(key_id, now);
        let mut k: usize = 0;
        while k < rows.len()
            invariant
                self.wf(),
                Self::spec_only_meta_cache_touched(*old(self), *self),
                0 <= k <= rows@.len(),
                rows_spec == old(self).spec_visible_metas(key_id@, now),
                rows_spec == crate::models::metas_view(rows@),
                forall|j: int| 0 <= j < k ==> rows_spec[j].version != version@,
            decreases rows@.len() - k,
        {
            let m = &rows[k];
            proof {
                assert(crate::models::metas_view(rows@)[k as int] == rows@[k as int]@);
            }
            if str_eq(m.version.as_str(), version) {
                let out = m.clone();
                proof {
                    assert(old(self).spec_visible_metas(key_id@, now)[k as int] == out@);
                }
                return Ok(out);
            }
            k += 1;
        }
        Err(ServiceError::NotFound(key_id.to_string()))
    }

    /// Write-through of one version row: upserted in the store, then the
    /// key's version-cache entry is invalidated, so no later read can
    /// serve the shape from before this write.
    pub fn set_key_meta(&mut self, m: &KeyMetaModel)
        requires
            old(self).wf(),
            old(self).store.next_meta_id < i64::MAX,
            forall|j: int|
                0 <= j < old(self).store.meta_views().len() && old(self).store.meta_views()[j].key_id
                    == m@.key_id ==> shared_attrs_agree(old(self).store.meta_views()[j], m@),
        ensures
            final(self).wf(),
            spec_upsert_meta_post(old(self).store, final(self).store, m@),
            final(self).store.aliases == old(self).store.aliases,
            final(self).store.next_alias_id == old(self).store.next_alias_id,
            final(self).alias_cache == old(self).alias_cache,
            final(self).imports == old(self).imports,
            final(self).alias_limit == old(self).alias_limit,
            final(self).store_reads == old(self).store_reads,
            !final(self).meta_cache.has_key(m@.key_id),
            final(self).meta_cache.tti == old(self).meta_cache.tti,
            final(self).meta_cache.ttl == old(self).meta_cache.ttl,
            old(self).meta_cache.has_key(m@.key_id) ==> final(self).meta_cache.entries@ == old(
                self,
            ).meta_cache.entries@.remove(old(self).meta_cache.idx_of(m@.key_id)),
            !old(self).meta_cache.has_key(m@.key_id) ==> final(self).meta_cache == old(
                self,
            ).meta_cache,
    {
        self.store.insert_or_update_key_meta(m);
        let key = m.key_id.clone();
        self.meta_cache.invalidate(key.as_str());
    }

    /// Alias assignment with the configured per-key cap: reads the key's
    /// current alias list through the cache, rejects the request with
    /// `BadRequest` (carrying the key identifier) when the list is at or
    /// over the limit, and otherwise upserts the alias — relinking it from
    /// any key that owned the string before — invalidates the key's
    /// alias-cache entry and returns the authoritative list.
    pub fn set_alias(&mut self, key_id: &str, alias: &str, now: u64) -> (r: Result<
        Vec<KeyAliasModel>,
        ServiceError,
    >)
        requires
            old(self).wf(),
            old(self).store.next_alias_id < i64::MAX,
        ensures
            final(self).wf(),
            final(self).meta_cache == old(self).meta_cache,
            final(self).imports == old(self).imports,
            final(self).alias_limit == old(self).alias_limit,
            final(self).store.metas == old(self).store.metas,
            final(self).store.next_meta_id == old(self).store.next_meta_id,
            match r {
                Result::Ok(v) => {
                    &&& old(self).spec_visible_aliases(key_id@, now).len() < old(self).alias_limit
                    &&& spec_set_alias_post(old(self).store, final(self).store, key_id@, alias@, now)
                    &&& v@ == spec_aliases_of(final(self).store.aliases@, key_id@)
                    &&& !final(self).alias_cache.has_key(key_id@)
                },
                Result::Err(e) => {
                    &&& e matches ServiceError::BadRequest(s) && s@ == key_id@
                    &&& old(self).spec_visible_aliases(key_id@, now).len() >= old(self).alias_limit
                    &&& final(self).store == old(self).store
                },
            },
    {
        let current = self.get_aliases(key_id, now);
        if current.len() >= self.alias_limit {
            return Err(ServiceError::BadRequest(key_id.to_string()));
        }
        self.store.set_key_alias(key_id, alias, now);
        self.alias_cache.invalidate(key_id);
        let out = self.store.select_key_aliases(key_id);
        Ok(out)
    }

    /// Deletion of a key's aliases (all of them, or only the given
    /// strings), with the key's alias-cache entry invalidated.
    pub fn delete_aliases(&mut self, key_id: &str, alias_filter: &Vec<String>)
        requires
            old(self).wf(),
        ensures
            final(self).wf(),
            final(self).meta_cache == old(self).meta_cache,
            final(self).imports == old(self).imports,
            final(self).alias_limit == old(self).alias_limit,
            final(self).store_reads == old(self).store_reads,
            final(self).store.metas == old(self).store.metas,
            final(self).store.next_meta_id == old(self).store.next_meta_id,
            final(self).store.next_alias_id == old(self).store.next_alias_id,
            final(self).store.aliases@ == crate::store::spec_delete_aliases(
                old(self).store.aliases@,
                key_id@,
                alias_filter@,
            ),
            !final(self).alias_cache.has_key(key_id@),
    {
        self.store.delete_key_aliases(key_id, alias_filter);
        self.alias_cache.invalidate(key_id);
    }
}

} // verus!
