//! Records the store holds: one row per key version and one row per alias.
//!
//! `KeyMetaModel` is deliberately denormalized: every version row of a key
//! carries the key-wide attributes (state, specification, usage, origin,
//! primary version), and the store keeps all rows of one key in agreement.
//! A key pending import has no committed primary version: its
//! `primary_version` stays empty until the import protocol commits material.

use vstd::prelude::*;

use crate::types::{KeyOrigin, KeySpec, KeyState, KeyType, KeyUsage};

verus! {

/// One alias row: a globally unique alias string pointing at a key.
#[derive(Debug)]
pub struct KeyAliasModel {
    /// Surrogate identifier, unique and increasing across the alias table.
    pub id: i64,
    /// Identifier of the key the alias points at.
    pub key_id: String,
    /// The alias string, unique across the whole keyspace.
    pub alias: String,
    /// Seconds timestamp of creation.
    pub created_at: u64,
    /// Seconds timestamp of the last relink.
    pub updated_at: u64,
}

impl Clone for KeyAliasModel {
    fn clone(&self) -> (r: Self)
        ensures
            r == *self,
    {
        KeyAliasModel {
            id: self.id,
            key_id: self.key_id.clone(),
            alias: self.alias.clone(),
            created_at: self.created_at,
            updated_at: self.updated_at,
        }
    }
}

/// One key-version row, carrying the key-wide attributes alongside the
/// version's own material.
#[derive(Debug)]
pub struct KeyMetaModel {
    /// Surrogate identifier, unique and increasing across the table.
    pub id: i64,
    /// Identifier of the owning service instance.
    pub kms_id: String,
    /// Identifier of the key.
    pub key_id: String,
    /// Identifier of this version, unique within the key.
    pub version: String,
    /// Version currently designated primary for the key; empty while the
    /// key has no committed material.
    pub primary_version: String,
    /// Lifecycle state of the key.
    pub state: KeyState,
    /// Specification of the key.
    pub key_spec: KeySpec,
    /// Declared usage of the key.
    pub usage: KeyUsage,
    /// Where the key material comes from.
    pub origin: KeyOrigin,
    /// Symmetric or asymmetric, as the registry resolves the specification.
    pub key_type: KeyType,
    /// Material payload of this version; empty until committed.
    pub material: Vec<u8>,
    /// Seconds timestamp of creation.
    pub created_at: u64,
    /// Seconds timestamp of the last update.
    pub updated_at: u64,
}

/// Mathematical value of a [`KeyMetaModel`] row.
#[verifier::ext_equal]
pub ghost struct KeyMetaView {
    pub id: int,
    pub kms_id: Seq<char>,
    pub key_id: Seq<char>,
    pub version: Seq<char>,
    pub primary_version: Seq<char>,
    pub state: KeyState,
    pub key_spec: KeySpec,
    pub usage: KeyUsage,
    pub origin: KeyOrigin,
    pub key_type: KeyType,
    pub material: Seq<u8>,
    pub created_at: u64,
    pub updated_at: u64,
}

impl View for KeyMetaModel {
    type V = KeyMetaView;

    open spec fn view(&self) -> KeyMetaView {
        KeyMetaView {
            id: self.id as int,
            kms_id: self.kms_id@,
            key_id: self.key_id@,
            version: self.version@,
            primary_version: self.primary_version@,
            state: self.state,
            key_spec: self.key_spec,
            usage: self.usage,
            origin: self.origin,
            key_type: self.key_type,
            material: self.material@,
            created_at: self.created_at,
            updated_at: self.updated_at,
        }
    }
}

impl Clone for KeyMetaModel {
    fn clone(&self) -> (r: Self)
        ensures
            r@ == self@,
    {
        let r = KeyMetaModel {
            id: self.id,
            kms_id: self.kms_id.clone(),
            key_id: self.key_id.clone(),
            version: self.version.clone(),
            primary_version: self.primary_version.clone(),
            state: self.state,
            key_spec: self.key_spec,
            usage: self.usage,
            origin: self.origin,
            key_type: self.key_type,
            material: clone_bytes(&self.material),
            created_at: self.created_at,
            updated_at: self.updated_at,
        };
        proof {
            assert(r@ =~= self@);
        }
        r
    }
}

/// Byte-for-byte copy of a buffer.
pub fn clone_bytes(b: &Vec<u8>) -> (r: Vec<u8>)
    ensures
        r@ == b@,
{
    let r = b.clone();
    proof {
        assert(r@ =~= b@);
    }
    r
}

/// The view of the whole metadata table.
pub open spec fn metas_view(s: Seq<KeyMetaModel>) -> Seq<KeyMetaView> {
    s.map_values(|m: KeyMetaModel| m@)
}

/// The row's view with its key-wide state replaced.
pub open spec fn spec_with_state(m: KeyMetaView, state: KeyState, now: u64) -> KeyMetaView {
    KeyMetaView { state, updated_at: now, ..m }
}

/// The row's view re-pointed at a new primary version.
pub open spec fn spec_with_primary(m: KeyMetaView, primary: Seq<char>, now: u64) -> KeyMetaView {
    KeyMetaView { primary_version: primary, updated_at: now, ..m }
}

} // verus!
