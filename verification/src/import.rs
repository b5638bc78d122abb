//! The import protocol: a two-phase handshake bringing externally
//! generated key material under service control.
//!
//! Phase one issues a one-time wrapping key pair and a short-lived token
//! bound to the target key; the private half lives only in the session and
//! is zeroized when the session ends.  Phase two accepts the wrapped
//! material, unwraps it under the session's private key, validates its
//! length against the key's declared specification, and commits it as the
//! key's primary version, moving the key out of `PendingImport`.  Any
//! unwrap or validation failure is reported as one indistinguishable
//! `BadRequest`, so a caller learns nothing about wrapping-key internals.

use vstd::prelude::*;

use crate::crypto::{
    bytes_eq, random_bytes, rsa_generate_keypair_der, sm2_generate_keypair_der, unwrap_of,
    unwrap_wrapped, wipe_bytes,
};
use crate::errors::ServiceError;
use crate::models::{clone_bytes, KeyMetaModel, KeyMetaView};
use crate::service::Kms;
use crate::store::{
    lemma_filter_elems, shared_attrs_agree, spec_has_version, spec_metas_of, spec_version_idx,
};
use crate::strutil::str_eq;
use crate::types::{
    spec_rejection_of, KeyOrigin, KeyState, KeyStateStatus, WrappingKeyAlgorithm, WrappingKeySpec,
};

verus! {

broadcast use vstd::string::to_string_from_display_ensures_for_str;

/// Lifetime of an import token, in seconds (one day).
pub const IMPORT_TOKEN_TTL_SECS: u64 = 86400;

/// Length of an import token, in bytes.
pub const IMPORT_TOKEN_BYTES: usize = 32;

/// One live import handshake: the wrapping key pair and the token bound to
/// a key pending import.  At most one session exists per key; a repeated
/// phase one replaces it.
pub struct ImportSession {
    /// The target key.
    pub key_id: String,
    /// Token the caller must present with the wrapped material.
    pub token: Vec<u8>,
    /// Specification the wrapping key pair was generated under.
    pub wrapping_spec: WrappingKeySpec,
    /// Algorithm the material must be wrapped with.
    pub wrapping_algorithm: WrappingKeyAlgorithm,
    /// Public half handed to the caller.
    pub public_key: Vec<u8>,
    /// Private half, held only here and zeroized when the session ends.
    pub private_key: Vec<u8>,
    /// Time after which the token is rejected.
    pub expires_at: u64,
}

/// At most one session per key.
pub open spec fn imports_unique(s: Seq<ImportSession>) -> bool {
    forall|i: int, j: int| 0 <= i < j < s.len() ==> s[i].key_id@ != s[j].key_id@
}

/// What phase one hands back to the caller: the public wrapping key, the
/// algorithm to wrap under, and the token with its expiry.
#[derive(Debug)]
pub struct ImportParams {
    /// The target key.
    pub key_id: String,
    /// Token to present with the wrapped material.
    pub token: Vec<u8>,
    /// Public half of the one-time wrapping key pair, DER encoded.
    pub public_key: Vec<u8>,
    /// Algorithm the material must be wrapped with.
    pub wrapping_algorithm: WrappingKeyAlgorithm,
    /// Specification the wrapping key pair was generated under.
    pub wrapping_key_spec: WrappingKeySpec,
    /// Time after which the token is rejected.
    pub expires_at: u64,
}

/// Expiry of a token issued at `now`.
pub open spec fn spec_token_expiry(now: u64) -> u64 {
    if now > u64::MAX - IMPORT_TOKEN_TTL_SECS {
        u64::MAX
    } else {
        (now + IMPORT_TOKEN_TTL_SECS) as u64
    }
}

/// Whether some session belongs to this key.
pub open spec fn spec_has_import(s: Seq<ImportSession>, key: Seq<char>) -> bool {
    exists|i: int| 0 <= i < s.len() && s[i].key_id@ == key
}

/// Index of the session of this key (unique under [`imports_unique`]).
pub open spec fn spec_import_idx(s: Seq<ImportSession>, key: Seq<char>) -> int {
    choose|i: int| 0 <= i < s.len() && s[i].key_id@ == key
}

/// Exact effect of a successful material commit on the service: every row
/// of the key moves to `Enabled` with the key's first version designated
/// primary and carrying the material; rows of other keys, the alias side
/// and the allocators are untouched, and the key's version-cache entry is
/// gone.
pub open spec fn spec_committed(
    pre: Kms,
    post: Kms,
    key: Seq<char>,
    material: Seq<u8>,
    now: u64,
) -> bool {
    let pre_mv = pre.store.meta_views();
    let post_mv = post.store.meta_views();
    let v0 = spec_metas_of(pre_mv, key)[0].version;
    &&& post_mv.len() == pre_mv.len()
    &&& forall|i: int|
        0 <= i < pre_mv.len() && pre_mv[i].key_id != key ==> post_mv[i] == pre_mv[i]
    &&& forall|i: int|
        0 <= i < post_mv.len() && post_mv[i].key_id == key ==> post_mv[i].state
            == KeyState::Enabled && post_mv[i].primary_version == v0
    &&& spec_has_version(post_mv, key, v0)
    &&& post_mv[spec_version_idx(post_mv, key, v0)].material == material
    &&& post.store.next_meta_id == pre.store.next_meta_id
    &&& post.store.aliases == pre.store.aliases
    &&& post.store.next_alias_id == pre.store.next_alias_id
    &&& !post.meta_cache.has_key(key)
    &&& post.alias_cache == pre.alias_cache
    &&& post.alias_limit == pre.alias_limit
    &&& post.store_reads == pre.store_reads
}

impl Kms {
    /// Index of the live session of this key, if any.
    fn find_import_idx(&self, key_id: &str) -> (r: Option<usize>)
        requires
            imports_unique(self.imports@),
        ensures
            match r {
                Option::Some(i) => spec_has_import(self.imports@, key_id@) && i
                    < self.imports@.len() && self.imports@[i as int].key_id@ == key_id@
                    && spec_import_idx(self.imports@, key_id@) == i,
                Option::None => !spec_has_import(self.imports@, key_id@),
            },
    {
        let mut k: usize = 0;
        while k < self.imports.len()
            invariant
                imports_unique(self.imports@),
                0 <= k <= self.imports@.len(),
                forall|j: int| 0 <= j < k ==> self.imports@[j].key_id@ != key_id@,
            decreases self.imports@.len() - k,
        {
            if str_eq(self.imports[k].key_id.as_str(), key_id) {
                proof {
                    assert(spec_has_import(self.imports@, key_id@));
                    let c = spec_import_idx(self.imports@, key_id@);
                    if c != k {
                        assert(self.imports@[c].key_id@ != self.imports@[k as int].key_id@);
                    }
                }
                return Some(k);
            }
            k += 1;
        }
        None
    }

    /// Phase one of the import protocol: for a key that exists, was
    /// declared `External` and is pending import, generates a one-time
    /// wrapping key pair under the requested specification, issues a fresh
    /// token bound to the key with a fixed expiry, replaces any earlier
    /// session of the key (at most one lives per key), and returns the
    /// public half with algorithm, token and expiry.  Nothing else of the
    /// service changes; on any rejection nothing changes at all.
    pub fn generate_key_import_params(
        &mut self,
        key_id: &str,
        wrapping_spec: WrappingKeySpec,
        wrapping_algorithm: WrappingKeyAlgorithm,
        now: u64,
    ) -> (r: Result<ImportParams, ServiceError>)
        requires
            old(self).wf(),
        ensures
            final(self).wf(),
            ({
                let rows = spec_metas_of(old(self).store.meta_views(), key_id@);
                &&& !wrapping_algorithm.spec_matches_spec(wrapping_spec) ==> (
                r matches Result::Err(e) && e matches ServiceError::BadRequest(s) && s@ == key_id@)
                &&& (wrapping_algorithm.spec_matches_spec(wrapping_spec) && rows.len() == 0) ==> (
                r matches Result::Err(e) && e matches ServiceError::NotFound(s) && s@ == key_id@)
                &&& (wrapping_algorithm.spec_matches_spec(wrapping_spec) && rows.len() > 0
                    && rows[0].state != KeyState::PendingImport) ==> (r matches Result::Err(e) && e
                    == ServiceError::StateChange(spec_rejection_of(rows[0].state)))
                &&& (wrapping_algorithm.spec_matches_spec(wrapping_spec) && rows.len() > 0
                    && rows[0].state == KeyState::PendingImport && rows[0].origin
                    != KeyOrigin::External) ==> (r matches Result::Err(e) && e matches
                    ServiceError::BadRequest(s) && s@ == key_id@)
                &&& match r {
                    Result::Ok(p) => {
                        &&& wrapping_algorithm.spec_matches_spec(wrapping_spec)
                        &&& rows.len() > 0
                        &&& rows[0].state == KeyState::PendingImport
                        &&& rows[0].origin == KeyOrigin::External
                        &&& p.key_id@ == key_id@
                        &&& p.wrapping_algorithm == wrapping_algorithm
                        &&& p.wrapping_key_spec == wrapping_spec
                        &&& p.expires_at == spec_token_expiry(now)
                        &&& p.token@.len() == IMPORT_TOKEN_BYTES
                        &&& final(self).imports@.len() > 0
                        &&& ({
                            let ns = final(self).imports@.last();
                            &&& ns.key_id@ == key_id@
                            &&& ns.token@ == p.token@
                            &&& ns.wrapping_spec == wrapping_spec
                            &&& ns.wrapping_algorithm == wrapping_algorithm
                            &&& ns.public_key@ == p.public_key@
                            &&& ns.expires_at == p.expires_at
                        })
                        &&& (spec_has_import(old(self).imports@, key_id@) ==> final(
                        self).imports@.drop_last() == old(self).imports@.remove(
                            spec_import_idx(old(self).imports@, key_id@),
                        ))
                        &&& (!spec_has_import(old(self).imports@, key_id@) ==> final(
                        self).imports@.drop_last() == old(self).imports@)
                        &&& final(self).store == old(self).store
                        &&& final(self).meta_cache == old(self).meta_cache
                        &&& final(self).alias_cache == old(self).alias_cache
                        &&& final(self).alias_limit == old(self).alias_limit
                        &&& final(self).store_reads == old(self).store_reads
                    },
                    Result::Err(_) => *final(self) == *old(self),
                }
            }),
    {
        if !wrapping_algorithm.matches_spec(wrapping_spec) {
            return Err(ServiceError::BadRequest(key_id.to_string()));
        }
        let rows = self.store.select_key_metas(key_id);
        if rows.len() == 0 {
            proof {
                assert(spec_metas_of(self.store.meta_views(), key_id@).len() == 0);
            }
            return Err(ServiceError::NotFound(key_id.to_string()));
        }
        proof {
            assert(crate::models::metas_view(rows@)[0] == rows@[0]@);
        }
        if !matches!(rows[0].state, KeyState::PendingImport) {
            return Err(ServiceError::StateChange(KeyStateStatus::from(rows[0].state)));
        }
        if !matches!(rows[0].origin, KeyOrigin::External) {
            return Err(ServiceError::BadRequest(key_id.to_string()));
        }
        let pair = match wrapping_spec {
            WrappingKeySpec::Rsa2048 => rsa_generate_keypair_der(),
            WrappingKeySpec::EcSm2 => sm2_generate_keypair_der(),
        };
        let (public_key, private_key) = match pair {
            Some(p) => p,
            None => {
                return Err(ServiceError::BadRequest(key_id.to_string()));
            },
        };
        let token = match random_bytes(IMPORT_TOKEN_BYTES) {
            Some(t) => t,
            None => {
                return Err(ServiceError::BadRequest(key_id.to_string()));
            },
        };
        let expires_at = if now > u64::MAX - IMPORT_TOKEN_TTL_SECS {
            u64::MAX
        } else {
            now + IMPORT_TOKEN_TTL_SECS
        };
        match self.find_import_idx(key_id) {
            Some(i) => {
                let mut stale = self.imports.remove(i);
                wipe_bytes(&mut stale.private_key);
                proof {
                    let pre = old(self).imports@;
                    assert forall|x: int|
                        0 <= x < self.imports@.len() implies self.imports@[x] == (if x < i {
                        pre[x]
                    } else {
                        pre[x + 1]
                    }) by {
                        assert(pre.remove(i as int)[x] == (if x < i {
                            pre[x]
                        } else {
                            pre[x + 1]
                        }));
                    }
                    assert forall|x: int|
                        0 <= x < self.imports@.len() implies self.imports@[x].key_id@
                        != key_id@ by {}
                }
            },
            None => {},
        }
        let session = ImportSession {
            key_id: key_id.to_string(),
            token: clone_bytes(&token),
            wrapping_spec,
            wrapping_algorithm,
            public_key: clone_bytes(&public_key),
            private_key,
            expires_at,
        };
        self.imports.push(session);
        proof {
            assert(self.imports@.drop_last() =~= self.imports@.subrange(
                0,
                self.imports@.len() - 1,
            ));
            assert forall|x: int, y: int|
                0 <= x < y < self.imports@.len() implies self.imports@[x].key_id@
                != self.imports@[y].key_id@ by {}
        }
        Ok(
            ImportParams {
                key_id: key_id.to_string(),
                token,
                public_key,
                wrapping_algorithm,
                wrapping_key_spec: wrapping_spec,
                expires_at,
            },
        )
    }

    /// The commit step of phase two, for material already unwrapped: for a
    /// key pending import whose material has exactly the length the key's
    /// specification demands, commits the material under the key's first
    /// version, designates it primary, moves the key to `Enabled`, and
    /// invalidates the key's version-cache entry; any rejection leaves the
    /// service exactly as it was.
    pub fn import_unwrapped_material(&mut self, key_id: &str, material: Vec<u8>, now: u64) -> (r:
        Result<(), ServiceError>)
        requires
            old(self).wf(),
            old(self).store.next_meta_id < i64::MAX,
        ensures
            final(self).wf(),
            ({
                let rows = spec_metas_of(old(self).store.meta_views(), key_id@);
                &&& r is Ok <==> (rows.len() > 0 && rows[0].state == KeyState::PendingImport
                    && material@.len() == rows[0].key_spec.spec_key_length())
                &&& rows.len() == 0 ==> (r matches Result::Err(e) && e matches
                    ServiceError::NotFound(s) && s@ == key_id@)
                &&& (rows.len() > 0 && rows[0].state != KeyState::PendingImport) ==> (
                r matches Result::Err(e) && e == ServiceError::StateChange(
                    spec_rejection_of(rows[0].state),
                ))
                &&& (rows.len() > 0 && rows[0].state == KeyState::PendingImport && material@.len()
                    != rows[0].key_spec.spec_key_length()) ==> (r matches Result::Err(e) && e
                    matches ServiceError::BadRequest(s) && s@ == key_id@)
                &&& match r {
                    Result::Ok(_) => spec_committed(*old(self), *final(self), key_id@, material@, now)
                        && final(self).imports == old(self).imports,
                    Result::Err(_) => *final(self) == *old(self),
                }
            }),
    {
        let ghost mv = self.store.meta_views();
        let rows = self.store.select_key_metas(key_id);
        if rows.len() == 0 {
            proof {
                assert(spec_metas_of(mv, key_id@).len() == 0);
            }
            return Err(ServiceError::NotFound(key_id.to_string()));
        }
        proof {
            assert(crate::models::metas_view(rows@)[0] == rows@[0]@);
        }
        if !matches!(rows[0].state, KeyState::PendingImport) {
            return Err(ServiceError::StateChange(KeyStateStatus::from(rows[0].state)));
        }
        if material.len() != rows[0].key_spec.key_length() {
            return Err(ServiceError::BadRequest(key_id.to_string()));
        }
        let main = &rows[0];
        let v0 = main.version.clone();
        self.store.set_state_rows(key_id, KeyState::Enabled, now);
        self.store.set_primary_rows(key_id, v0.as_str(), now);
        let row = KeyMetaModel {
            id: 0,
            kms_id: main.kms_id.clone(),
            key_id: key_id.to_string(),
            version: v0.clone(),
            primary_version: v0,
            state: KeyState::Enabled,
            key_spec: main.key_spec,
            usage: main.usage,
            origin: main.origin,
            key_type: main.key_type,
            material,
            created_at: main.created_at,
            updated_at: now,
        };
        proof {
            lemma_filter_elems(mv, |x: KeyMetaView| x.key_id == key_id@);
            let j = choose|j: int| 0 <= j < mv.len() && mv[j] == spec_metas_of(mv, key_id@)[0];
            assert forall|i: int|
                0 <= i < self.store.meta_views().len() && self.store.meta_views()[i].key_id
                    == row@.key_id implies shared_attrs_agree(
                self.store.meta_views()[i],
                row@,
            ) by {
                assert(shared_attrs_agree(mv[i], mv[j]));
            }
            assert(self.store.meta_views()[j].key_id == key_id@ && self.store.meta_views()[j].version
                == row@.version);
            self.store.lemma_version_idx_is(j, key_id@, row@.version);
        }
        let ghost pre_upsert = self.store.meta_views();
        self.store.insert_or_update_key_meta(&row);
        self.meta_cache.invalidate(key_id);
        proof {
            let idx = spec_version_idx(pre_upsert, key_id@, row@.version);
            assert(self.store.meta_views() == pre_upsert.update(
                idx,
                crate::store::spec_upserted_meta(pre_upsert[idx], row@),
            ));
            let post_mv = self.store.meta_views();
            let fidx = spec_version_idx(post_mv, key_id@, row@.version);
            self.store.lemma_version_idx_is(idx, key_id@, row@.version);
        }
        Ok(())
    }

    /// Phase two of the import protocol: validates the token (it must
    /// belong to this key, match byte for byte, and be unexpired), unwraps
    /// the material under the session's private wrapping key, and hands the
    /// result to [`Self::import_unwrapped_material`]; on success the
    /// session is discarded with its private key zeroized.  Every
    /// validation or unwrap failure is the same generic `BadRequest`
    /// carrying the key identifier, so a caller cannot distinguish a
    /// failed decryption from malformed material.
    pub fn import_key_material(
        &mut self,
        key_id: &str,
        wrapped: &Vec<u8>,
        token: &Vec<u8>,
        now: u64,
    ) -> (r: Result<(), ServiceError>)
        requires
            old(self).wf(),
            old(self).store.next_meta_id < i64::MAX,
        ensures
            final(self).wf(),
            !spec_has_import(old(self).imports@, key_id@) ==> (r matches Result::Err(e) && e
                matches ServiceError::BadRequest(s) && s@ == key_id@) && *final(self) == *old(self),
            ({
                let s = old(self).imports@[spec_import_idx(old(self).imports@, key_id@)];
                let rows = spec_metas_of(old(self).store.meta_views(), key_id@);
                let unwrapped = unwrap_of(s.private_key@, s.wrapping_algorithm, wrapped@);
                &&& (spec_has_import(old(self).imports@, key_id@) && s.token@ != token@) ==> (
                r matches Result::Err(e) && e matches ServiceError::BadRequest(sid) && sid@
                    == key_id@)
                &&& (spec_has_import(old(self).imports@, key_id@) && s.token@ == token@ && now
                    >= s.expires_at) ==> (r matches Result::Err(e) && e matches
                    ServiceError::BadRequest(sid) && sid@ == key_id@)
                &&& (spec_has_import(old(self).imports@, key_id@) && s.token@ == token@ && now
                    < s.expires_at && unwrapped is None) ==> (r matches Result::Err(e) && e matches
                    ServiceError::BadRequest(sid) && sid@ == key_id@)
                &&& ({
                    &&& spec_has_import(old(self).imports@, key_id@)
                    &&& s.token@ == token@
                    &&& now < s.expires_at
                    &&& rows.len() > 0
                    &&& rows[0].state == KeyState::PendingImport
                    &&& unwrapped matches Some(m) && m.len() != rows[0].key_spec.spec_key_length()
                }) ==> (r matches Result::Err(e) && e matches ServiceError::BadRequest(sid) && sid@
                    == key_id@)
                &&& ({
                    &&& spec_has_import(old(self).imports@, key_id@)
                    &&& s.token@ == token@
                    &&& now < s.expires_at
                    &&& rows.len() > 0
                    &&& rows[0].state == KeyState::PendingImport
                    &&& unwrapped matches Some(m) && m.len() == rows[0].key_spec.spec_key_length()
                }) ==> r is Ok
                &&& match r {
                    Result::Ok(_) => {
                        &&& spec_has_import(old(self).imports@, key_id@)
                        &&& s.token@ == token@
                        &&& now < s.expires_at
                        &&& unwrapped matches Some(m)
                        &&& (unwrapped matches Some(m) ==> {
                            &&& rows.len() > 0
                            &&& m.len() == rows[0].key_spec.spec_key_length()
                            &&& spec_committed(*old(self), *final(self), key_id@, m, now)
                        })
                        &&& final(self).imports@ == old(self).imports@.remove(
                            spec_import_idx(old(self).imports@, key_id@),
                        )
                    },
                    Result::Err(_) => *final(self) == *old(self),
                }
            }),
    {
        let idx = match self.find_import_idx(key_id) {
            Some(i) => i,
            None => {
                return Err(ServiceError::BadRequest(key_id.to_string()));
            },
        };
        if !bytes_eq(token, &self.imports[idx].token) {
            return Err(ServiceError::BadRequest(key_id.to_string()));
        }
        if now >= self.imports[idx].expires_at {
            return Err(ServiceError::BadRequest(key_id.to_string()));
        }
        let material = match unwrap_wrapped(
            &self.imports[idx].private_key,
            self.imports[idx].wrapping_algorithm,
            wrapped,
        ) {
            Some(m) => m,
            None => {
                return Err(ServiceError::BadRequest(key_id.to_string()));
            },
        };
        match self.import_unwrapped_material(key_id, material, now) {
            Ok(_) => {},
            Err(e) => {
                return Err(match e {
                    ServiceError::NotFound(s) => ServiceError::NotFound(s),
                    ServiceError::StateChange(c) => ServiceError::StateChange(c),
                    ServiceError::BadRequest(s) => ServiceError::BadRequest(s),
                });
            },
        }
        let mut session = self.imports.remove(idx);
        wipe_bytes(&mut session.private_key);
        proof {
            let pre = old(self).imports@;
            assert(self.imports@ =~= pre.remove(idx as int));
            assert forall|x: int, y: int|
                0 <= x < y < self.imports@.len() implies self.imports@[x].key_id@
                != self.imports@[y].key_id@ by {
                assert(pre.remove(idx as int)[x] == (if x < idx {
                    pre[x]
                } else {
                    pre[x + 1]
                }));
                assert(pre.remove(idx as int)[y] == (if y < idx {
                    pre[y]
                } else {
                    pre[y + 1]
                }));
            }
        }
        Ok(())
    }
}

} // verus!
