//! Key lifecycle operations: creating keys and key versions, changing
//! lifecycle state under the transition guard, and the paged listings.
//!
//! Every mutating operation validates against the authoritative store,
//! applies the state machine before any write, commits, and then
//! invalidates the key's cache entry; on any rejection the service is left
//! exactly as it was.

use vstd::prelude::*;

use crate::crypto::random_bytes;
use crate::errors::ServiceError;
use crate::models::{KeyMetaModel, KeyMetaView};
use crate::service::Kms;
use crate::store::{
    lemma_filter_elems, shared_attrs_agree, spec_has_key, spec_has_version, spec_kms_candidates,
    spec_meta_candidates, spec_metas_of, spec_page_cursor, spec_page_items, spec_rewrite_primary,
    spec_rewrite_state, Page, Paginator,
};
use crate::strutil::{spec_version_name, version_name};
use crate::types::{
    assert_state, spec_can_transition, spec_rejection_of, KeyOrigin, KeySpec, KeyState, KeyUsage,
};

verus! {

impl Kms {
    /// Creation of a new master key: resolves the registry entry for the
    /// requested specification and usage (`BadRequest` when the
    /// combination is invalid or the identifier is taken), persists the
    /// initial version row — primary and carrying fresh material for a
    /// service-generated key, uncommitted and empty for a key whose
    /// material will be imported — and invalidates the key's cache entry.
    pub fn create_key(
        &mut self,
        kms_id: &str,
        key_id: &str,
        key_spec: KeySpec,
        usage: KeyUsage,
        origin: KeyOrigin,
        now: u64,
    ) -> (r: Result<KeyMetaModel, ServiceError>)
        requires
            old(self).wf(),
            old(self).store.next_meta_id < i64::MAX,
        ensures
            final(self).wf(),
            key_spec.spec_algorithm(usage) is None ==> r is Err,
            spec_has_key(old(self).store.meta_views(), key_id@) ==> r is Err,
            (key_spec.spec_algorithm(usage) is Some && !spec_has_key(
                old(self).store.meta_views(),
                key_id@,
            ) && origin == KeyOrigin::External) ==> r is Ok,
            match r {
                Result::Ok(m) => {
                    &&& key_spec.spec_algorithm(usage) is Some
                    &&& !spec_has_key(old(self).store.meta_views(), key_id@)
                    &&& m@.key_id == key_id@
                    &&& m@.kms_id == kms_id@
                    &&& m@.key_spec == key_spec
                    &&& m@.usage == usage
                    &&& m@.origin == origin
                    &&& m@.key_type == key_spec.spec_key_type()
                    &&& m@.state == (if origin == KeyOrigin::External {
                        KeyState::PendingImport
                    } else {
                        KeyState::Enabled
                    })
                    &&& m@.version == spec_version_name(old(self).store.next_meta_id as nat)
                    &&& m@.primary_version == (if origin == KeyOrigin::External {
                        Seq::<char>::empty()
                    } else {
                        m@.version
                    })
                    &&& m@.material.len() == (if origin == KeyOrigin::External {
                        0int
                    } else {
                        key_spec.spec_key_length() as int
                    })
                    &&& m@.created_at == now
                    &&& final(self).store.meta_views() == old(self).store.meta_views().push(
                        KeyMetaView { id: old(self).store.next_meta_id as int, ..m@ },
                    )
                    &&& final(self).store.next_meta_id == old(self).store.next_meta_id + 1
                    &&& final(self).store.aliases == old(self).store.aliases
                    &&& final(self).alias_cache == old(self).alias_cache
                    &&& final(self).imports == old(self).imports
                    &&& !final(self).meta_cache.has_key(key_id@)
                },
                Result::Err(e) => (e matches ServiceError::BadRequest(s) && s@ == key_id@)
                    && *final(self) == *old(self),
            },
    {
        if key_spec.algorithm(usage).is_none() {
            return Err(ServiceError::BadRequest(key_id.to_string()));
        }
        if self.store.key_exists(key_id) {
            return Err(ServiceError::BadRequest(key_id.to_string()));
        }
        proof {
            assert(self.store.next_meta_id >= 0);
        }
        let version = version_name(self.store.next_meta_id as u64);
        let external = matches!(origin, KeyOrigin::External);
        let state = if external {
            KeyState::PendingImport
        } else {
            KeyState::Enabled
        };
        let primary_version = if external {
            String::new()
        } else {
            version.clone()
        };
        let material = if external {
            Vec::new()
        } else {
            proof {
                assert(key_spec.spec_key_length() <= 0x7fff_ffff);
            }
            match random_bytes(key_spec.key_length()) {
                Some(v) => v,
                None => {
                    return Err(ServiceError::BadRequest(key_id.to_string()));
                },
            }
        };
        let row = KeyMetaModel {
            id: 0,
            kms_id: kms_id.to_string(),
            key_id: key_id.to_string(),
            version,
            primary_version,
            state,
            key_spec,
            usage,
            origin,
            key_type: key_spec.key_type(),
            material,
            created_at: now,
            updated_at: now,
        };
        proof {
            assert forall|j: int|
                0 <= j < self.store.meta_views().len() && self.store.meta_views()[j].key_id
                    == row@.key_id implies shared_attrs_agree(self.store.meta_views()[j], row@) by {}
            if spec_has_version(self.store.meta_views(), row@.key_id, row@.version) {
                assert(spec_has_key(self.store.meta_views(), key_id@));
            }
        }
        self.store.insert_or_update_key_meta(&row);
        self.meta_cache.invalidate(key_id);
        Ok(row)
    }

    /// Creation of a new key version: validates the key's state against
    /// the guard (`Enabled` or `Disabled`; a key pending deletion is
    /// rejected with the `PendingPendingDeletion` reason and nothing is
    /// written), mints a fresh version with fresh material, re-points the
    /// primary designation of every row of the key to it, persists it, and
    /// invalidates the key's version-cache entry.
    pub fn create_key_version(&mut self, key_id: &str, now: u64) -> (r: Result<
        KeyMetaModel,
        ServiceError,
    >)
        requires
            old(self).wf(),
            old(self).store.next_meta_id < i64::MAX,
        ensures
            final(self).wf(),
            ({
                let rows = spec_metas_of(old(self).store.meta_views(), key_id@);
                &&& rows.len() == 0 ==> (r matches Result::Err(e) && e matches
                    ServiceError::NotFound(s) && s@ == key_id@) && *final(self) == *old(self)
                &&& (rows.len() > 0 && !spec_can_transition(rows[0].state, KeyState::Enabled))
                    ==> (r matches Result::Err(e) && e == ServiceError::StateChange(
                    spec_rejection_of(rows[0].state),
                )) && *final(self) == *old(self)
                &&& (rows.len() > 0 && spec_can_transition(rows[0].state, KeyState::Enabled)
                    && spec_has_version(
                    old(self).store.meta_views(),
                    key_id@,
                    spec_version_name(old(self).store.next_meta_id as nat),
                )) ==> (r matches Result::Err(e) && e matches ServiceError::BadRequest(s) && s@
                    == key_id@) && *final(self) == *old(self)
                &&& match r {
                    Result::Ok(m) => {
                        &&& rows.len() > 0
                        &&& spec_can_transition(rows[0].state, KeyState::Enabled)
                        &&& !spec_has_version(
                            old(self).store.meta_views(),
                            key_id@,
                            m@.version,
                        )
                        &&& m@.key_id == key_id@
                        &&& m@.version == spec_version_name(old(self).store.next_meta_id as nat)
                        &&& m@.primary_version == m@.version
                        &&& m@.state == rows[0].state
                        &&& m@.key_spec == rows[0].key_spec
                        &&& m@.material.len() == rows[0].key_spec.spec_key_length()
                        &&& final(self).store.meta_views() == spec_rewrite_primary(
                            old(self).store.meta_views(),
                            key_id@,
                            m@.version,
                            now,
                        ).push(KeyMetaView { id: old(self).store.next_meta_id as int, ..m@ })
                        &&& final(self).store.next_meta_id == old(self).store.next_meta_id + 1
                        &&& final(self).store.aliases == old(self).store.aliases
                        &&& final(self).alias_cache == old(self).alias_cache
                        &&& final(self).imports == old(self).imports
                        &&& !final(self).meta_cache.has_key(key_id@)
                    },
                    Result::Err(_) => *final(self) == *old(self),
                }
            }),
    {
        let ghost mv = self.store.meta_views();
        let rows = self.store.select_key_metas(key_id);
        if rows.len() == 0 {
            proof {
                assert(spec_metas_of(mv, key_id@).len() == 0);
            }
            return Err(ServiceError::NotFound(key_id.to_string()));
        }
        let main = &rows[0];
        proof {
            assert(crate::models::metas_view(rows@)[0] == rows@[0]@);
        }
        match assert_state(KeyState::Enabled, main.state) {
            Ok(_) => {},
            Err(e) => {
                return Err(e);
            },
        }
        proof {
            assert(self.store.next_meta_id >= 0);
        }
        let vname = version_name(self.store.next_meta_id as u64);
        if self.store.has_version(key_id, vname.as_str()) {
            return Err(ServiceError::BadRequest(key_id.to_string()));
        }
        proof {
            assert(main.key_spec.spec_key_length() <= 0x7fff_ffff);
        }
        let material = match random_bytes(main.key_spec.key_length()) {
            Some(v) => v,
            None => {
                return Err(ServiceError::BadRequest(key_id.to_string()));
            },
        };
        let row = KeyMetaModel {
            id: 0,
            kms_id: main.kms_id.clone(),
            key_id: key_id.to_string(),
            version: vname.clone(),
            primary_version: vname,
            state: main.state,
            key_spec: main.key_spec,
            usage: main.usage,
            origin: main.origin,
            key_type: main.key_type,
            material,
            created_at: now,
            updated_at: now,
        };
        self.store.set_primary_rows(key_id, row.primary_version.as_str(), now);
        proof {
            lemma_filter_elems(mv, |x: KeyMetaView| x.key_id == key_id@);
            let j = choose|j: int|
                0 <= j < mv.len() && mv[j] == spec_metas_of(mv, key_id@)[0];
            assert forall|i: int|
                0 <= i < self.store.meta_views().len() && self.store.meta_views()[i].key_id
                    == row@.key_id implies shared_attrs_agree(
                self.store.meta_views()[i],
                row@,
            ) by {
                assert(shared_attrs_agree(mv[i], mv[j]));
            }
            if spec_has_version(self.store.meta_views(), row@.key_id, row@.version) {
                let i = crate::store::spec_version_idx(
                    self.store.meta_views(),
                    row@.key_id,
                    row@.version,
                );
                assert(spec_has_version(mv, key_id@, row@.version));
            }
        }
        self.store.insert_or_update_key_meta(&row);
        self.meta_cache.invalidate(key_id);
        Ok(row)
    }

    /// Lifecycle state change under the transition guard: rejected — with
    /// the reason keyed by the state the key was found in — unless the
    /// fixed matrix allows moving the key from its current state to
    /// `new_state`; on success every row of the key is rewritten and the
    /// key's version-cache entry is invalidated.
    pub fn set_key_state(&mut self, key_id: &str, new_state: KeyState, now: u64) -> (r: Result<
        (),
        ServiceError,
    >)
        requires
            old(self).wf(),
        ensures
            final(self).wf(),
            ({
                let rows = spec_metas_of(old(self).store.meta_views(), key_id@);
                &&& rows.len() == 0 ==> (r matches Result::Err(e) && e matches
                    ServiceError::NotFound(s) && s@ == key_id@) && *final(self) == *old(self)
                &&& (rows.len() > 0 && !spec_can_transition(rows[0].state, new_state)) ==> (
                r matches Result::Err(e) && e == ServiceError::StateChange(
                    spec_rejection_of(rows[0].state),
                )) && *final(self) == *old(self)
                &&& (rows.len() > 0 && spec_can_transition(rows[0].state, new_state)) ==> r is Ok
                &&& match r {
                    Result::Ok(_) => {
                        &&& rows.len() > 0
                        &&& spec_can_transition(rows[0].state, new_state)
                        &&& final(self).store.meta_views() == spec_rewrite_state(
                            old(self).store.meta_views(),
                            key_id@,
                            new_state,
                            now,
                        )
                        &&& final(self).store.next_meta_id == old(self).store.next_meta_id
                        &&& final(self).store.aliases == old(self).store.aliases
                        &&& final(self).alias_cache == old(self).alias_cache
                        &&& final(self).imports == old(self).imports
                        &&& !final(self).meta_cache.has_key(key_id@)
                    },
                    Result::Err(_) => *final(self) == *old(self),
                }
            }),
    {
        let ghost mv = self.store.meta_views();
        let rows = self.store.select_key_metas(key_id);
        if rows.len() == 0 {
            proof {
                assert(spec_metas_of(mv, key_id@).len() == 0);
            }
            return Err(ServiceError::NotFound(key_id.to_string()));
        }
        proof {
            assert(crate::models::metas_view(rows@)[0] == rows@[0]@);
        }
        match assert_state(new_state, rows[0].state) {
            Ok(_) => {},
            Err(e) => {
                return Err(e);
            },
        }
        self.store.set_state_rows(key_id, new_state, now);
        self.meta_cache.invalidate(key_id);
        Ok(())
    }

    /// One page of key summaries of a service instance, ordered by
    /// surrogate identifier; read-only and cache-bypassing.
    pub fn list_kms_keys(&self, kms_id: &str, p: &Paginator) -> (r: Page<KeyMetaModel>)
        ensures
            spec_page_items(
                spec_kms_candidates(self.store.meta_views(), kms_id@, p.cursor),
                crate::models::metas_view(r.items@),
                p.limit,
            ),
            spec_page_cursor(
                spec_kms_candidates(self.store.meta_views(), kms_id@, p.cursor),
                r.next_cursor,
                p.limit,
            ),
    {
        self.store.pagin_kms_keys(kms_id, p)
    }

    /// One page of a key's versions, ordered by surrogate identifier;
    /// read-only and cache-bypassing.
    pub fn list_key_versions(&self, key_id: &str, p: &Paginator) -> (r: Page<KeyMetaModel>)
        ensures
            spec_page_items(
                spec_meta_candidates(self.store.meta_views(), key_id@, p.cursor),
                crate::models::metas_view(r.items@),
                p.limit,
            ),
            spec_page_cursor(
                spec_meta_candidates(self.store.meta_views(), key_id@, p.cursor),
                r.next_cursor,
                p.limit,
            ),
    {
        self.store.pagin_key_meta(key_id, p)
    }
}

} // verus!
