//! Crypto-facing types: the closed enums describing a key, the algorithm
//! registry, and the lifecycle state machine.
//!
//! The registry is a pure, total mapping from a key or wrapping-key
//! specification to its underlying primitive identifier and key length in
//! bytes; the enums are closed, so there is no fallback path that could
//! silently substitute a weaker algorithm.
//!
//! The state machine validates a lifecycle transition against a fixed
//! compatibility matrix; `PendingImport` is owned exclusively by the import
//! protocol and is never a source or target of the general matrix.

use vstd::prelude::*;

use crate::errors::ServiceError;

verus! {

/// Concrete algorithm run under a key, selected by the registry from the
/// key specification and the declared usage.
#[derive(Clone, Copy, PartialEq, Eq, Structural, Debug)]
pub enum KeyAlgorithm {
    AesCBC,
    AesGCM,
    RsaOAEP,
    SM2PKE,
    Sm4CTR,
    Sm4CBC,
    EciesSha1,
    RsaPSS,
    RsaPKCS1,
    Ecdsa,
    SM2DSA,
}

/// Digest used by signature and OAEP constructions.
#[derive(Clone, Copy, PartialEq, Eq, Structural, Debug)]
pub enum MessageDigest {
    Sha1,
    Sha224,
    Sha256,
    Sha384,
    Sha512,
    Sha3_224,
    Sha3_256,
    Sha3_384,
    Sha3_512,
}

/// Block-cipher padding discipline.
#[derive(Clone, Copy, PartialEq, Eq, Structural, Debug)]
pub enum Padding {
    Pkcs7Padding,
    NoPadding,
}

/// What a key is allowed to be used for.
#[derive(Clone, Copy, PartialEq, Eq, Structural, Debug)]
pub enum KeyUsage {
    EncryptAndDecrypt,
    SignAndVerify,
}

/// Whether the key is a symmetric secret or an asymmetric pair.
#[derive(Clone, Copy, PartialEq, Eq, Structural, Debug)]
pub enum KeyType {
    Symmetric,
    Asymmetric,
    Unknown,
}

/// Where the key material comes from: generated here or imported.
#[derive(Clone, Copy, PartialEq, Eq, Structural, Debug)]
pub enum KeyOrigin {
    Kms,
    External,
}

/// Concrete specification of a master key.
#[derive(Clone, Copy, PartialEq, Eq, Structural, Debug)]
pub enum KeySpec {
    Aes128,
    Aes256,
    Rsa2048,
    Rsa3072,
    EcP256,
    EcP256K,
    SM4,
}

/// Lifecycle state of a master key.
#[derive(Clone, Copy, PartialEq, Eq, Structural, Debug)]
pub enum KeyState {
    Enabled,
    Disabled,
    PendingDeletion,
    PendingImport,
}

/// Outcome of a state-machine check; on rejection it names which rule was
/// violated, keyed by the state the key was found in.
#[derive(Clone, Copy, PartialEq, Eq, Structural, Debug)]
pub enum KeyStateStatus {
    Success,
    RejectedEnable,
    RejectedDisable,
    PendingPendingDeletion,
    PendingPendingImport,
    PendingStateModifiedFailed,
}

/// Algorithm used to wrap key material in transit during an import.
#[derive(Clone, Copy, PartialEq, Eq, Structural, Debug)]
pub enum WrappingKeyAlgorithm {
    RsaesPkcs1V1_5,
    RsaesOaepSha1,
    RsaesOaepSha256,
    SM2PKE,
}

/// Specification of the one-time wrapping key pair.
#[derive(Clone, Copy, PartialEq, Eq, Structural, Debug)]
pub enum WrappingKeySpec {
    Rsa2048,
    EcSm2,
}

/// Primitive identifier a specification resolves to in the registry.
#[derive(Clone, Copy, PartialEq, Eq, Structural, Debug)]
pub enum KeyPrimitive {
    Aes128Gcm,
    Aes256Gcm,
    Rsa,
    Prime256v1,
    Secp256k1,
    Sm4Cbc,
    Sm2,
}

// ---------------------------------------------------------------------------
// Algorithm registry
// ---------------------------------------------------------------------------

impl KeySpec {
    /// Registry row of this specification: its primitive identifier.
    pub open spec fn spec_primitive(self) -> KeyPrimitive {
        match self {
            KeySpec::Aes128 => KeyPrimitive::Aes128Gcm,
            KeySpec::Aes256 => KeyPrimitive::Aes256Gcm,
            KeySpec::Rsa2048 => KeyPrimitive::Rsa,
            KeySpec::Rsa3072 => KeyPrimitive::Rsa,
            KeySpec::EcP256 => KeyPrimitive::Prime256v1,
            KeySpec::EcP256K => KeyPrimitive::Secp256k1,
            KeySpec::SM4 => KeyPrimitive::Sm4Cbc,
        }
    }

    /// Registry row of this specification: its key length in bytes.
    pub open spec fn spec_key_length(self) -> usize {
        match self {
            KeySpec::Aes128 => 16usize,
            KeySpec::Aes256 => 32usize,
            KeySpec::Rsa2048 => 256usize,
            KeySpec::Rsa3072 => 384usize,
            KeySpec::EcP256 => 256usize,
            KeySpec::EcP256K => 256usize,
            KeySpec::SM4 => 16usize,
        }
    }

    /// Whether the specification names a symmetric primitive.
    pub open spec fn spec_key_type(self) -> KeyType {
        match self {
            KeySpec::Aes128 | KeySpec::Aes256 | KeySpec::SM4 => KeyType::Symmetric,
            _ => KeyType::Asymmetric,
        }
    }

    /// Algorithm the registry selects for this specification under the given
    /// usage; `None` when the combination is invalid (for example a
    /// symmetric key asked to sign).
    pub open spec fn spec_algorithm(self, usage: KeyUsage) -> Option<KeyAlgorithm> {
        match (self, usage) {
            (KeySpec::Aes128, KeyUsage::EncryptAndDecrypt) => Some(KeyAlgorithm::AesGCM),
            (KeySpec::Aes256, KeyUsage::EncryptAndDecrypt) => Some(KeyAlgorithm::AesGCM),
            (KeySpec::SM4, KeyUsage::EncryptAndDecrypt) => Some(KeyAlgorithm::Sm4CBC),
            (KeySpec::Rsa2048, KeyUsage::EncryptAndDecrypt) => Some(KeyAlgorithm::RsaOAEP),
            (KeySpec::Rsa3072, KeyUsage::EncryptAndDecrypt) => Some(KeyAlgorithm::RsaOAEP),
            (KeySpec::EcP256, KeyUsage::EncryptAndDecrypt) => Some(KeyAlgorithm::EciesSha1),
            (KeySpec::EcP256K, KeyUsage::EncryptAndDecrypt) => Some(KeyAlgorithm::EciesSha1),
            (KeySpec::Rsa2048, KeyUsage::SignAndVerify) => Some(KeyAlgorithm::RsaPSS),
            (KeySpec::Rsa3072, KeyUsage::SignAndVerify) => Some(KeyAlgorithm::RsaPSS),
            (KeySpec::EcP256, KeyUsage::SignAndVerify) => Some(KeyAlgorithm::Ecdsa),
            (KeySpec::EcP256K, KeyUsage::SignAndVerify) => Some(KeyAlgorithm::Ecdsa),
            (KeySpec::Aes128, KeyUsage::SignAndVerify) => None,
            (KeySpec::Aes256, KeyUsage::SignAndVerify) => None,
            (KeySpec::SM4, KeyUsage::SignAndVerify) => None,
        }
    }

    /// See [`Self::spec_primitive`].
    pub fn primitive(self) -> (r: KeyPrimitive)
        ensures
            r == self.spec_primitive(),
    {
        match self {
            KeySpec::Aes128 => KeyPrimitive::Aes128Gcm,
            KeySpec::Aes256 => KeyPrimitive::Aes256Gcm,
            KeySpec::Rsa2048 => KeyPrimitive::Rsa,
            KeySpec::Rsa3072 => KeyPrimitive::Rsa,
            KeySpec::EcP256 => KeyPrimitive::Prime256v1,
            KeySpec::EcP256K => KeyPrimitive::Secp256k1,
            KeySpec::SM4 => KeyPrimitive::Sm4Cbc,
        }
    }

    /// See [`Self::spec_key_length`].
    pub fn key_length(self) -> (r: usize)
        ensures
            r == self.spec_key_length(),
    {
        match self {
            KeySpec::Aes128 => 16,
            KeySpec::Aes256 => 32,
            KeySpec::Rsa2048 => 256,
            KeySpec::Rsa3072 => 384,
            KeySpec::EcP256 => 256,
            KeySpec::EcP256K => 256,
            KeySpec::SM4 => 16,
        }
    }

    /// See [`Self::spec_key_type`].
    pub fn key_type(self) -> (r: KeyType)
        ensures
            r == self.spec_key_type(),
    {
        match self {
            KeySpec::Aes128 | KeySpec::Aes256 | KeySpec::SM4 => KeyType::Symmetric,
            _ => KeyType::Asymmetric,
        }
    }

    /// See [`Self::spec_algorithm`].
    pub fn algorithm(self, usage: KeyUsage) -> (r: Option<KeyAlgorithm>)
        ensures
            r == self.spec_algorithm(usage),
    {
        match usage {
            KeyUsage::EncryptAndDecrypt => match self {
                KeySpec::Aes128 | KeySpec::Aes256 => Some(KeyAlgorithm::AesGCM),
                KeySpec::SM4 => Some(KeyAlgorithm::Sm4CBC),
                KeySpec::Rsa2048 | KeySpec::Rsa3072 => Some(KeyAlgorithm::RsaOAEP),
                KeySpec::EcP256 | KeySpec::EcP256K => Some(KeyAlgorithm::EciesSha1),
            },
            KeyUsage::SignAndVerify => match self {
                KeySpec::Rsa2048 | KeySpec::Rsa3072 => Some(KeyAlgorithm::RsaPSS),
                KeySpec::EcP256 | KeySpec::EcP256K => Some(KeyAlgorithm::Ecdsa),
                KeySpec::Aes128 | KeySpec::Aes256 | KeySpec::SM4 => None,
            },
        }
    }
}

impl WrappingKeySpec {
    /// Registry row of this wrapping specification: its primitive identifier.
    pub open spec fn spec_primitive(self) -> KeyPrimitive {
        match self {
            WrappingKeySpec::Rsa2048 => KeyPrimitive::Rsa,
            WrappingKeySpec::EcSm2 => KeyPrimitive::Sm2,
        }
    }

    /// Registry row of this wrapping specification: its key length in bytes.
    pub open spec fn spec_key_length(self) -> usize {
        match self {
            WrappingKeySpec::Rsa2048 => 256usize,
            WrappingKeySpec::EcSm2 => 256usize,
        }
    }

    /// See [`Self::spec_primitive`].
    pub fn primitive(self) -> (r: KeyPrimitive)
        ensures
            r == self.spec_primitive(),
    {
        match self {
            WrappingKeySpec::Rsa2048 => KeyPrimitive::Rsa,
            WrappingKeySpec::EcSm2 => KeyPrimitive::Sm2,
        }
    }

    /// See [`Self::spec_key_length`].
    pub fn key_length(self) -> (r: usize)
        ensures
            r == self.spec_key_length(),
    {
        match self {
            WrappingKeySpec::Rsa2048 => 256,
            WrappingKeySpec::EcSm2 => 256,
        }
    }
}

impl WrappingKeyAlgorithm {
    /// Digest the unwrap step must use; `None` for paddings that fix their
    /// own digest or use none.
    pub open spec fn spec_digest(self) -> Option<MessageDigest> {
        match self {
            WrappingKeyAlgorithm::RsaesPkcs1V1_5 => None,
            WrappingKeyAlgorithm::RsaesOaepSha1 => Some(MessageDigest::Sha1),
            WrappingKeyAlgorithm::RsaesOaepSha256 => Some(MessageDigest::Sha256),
            WrappingKeyAlgorithm::SM2PKE => None,
        }
    }

    /// See [`Self::spec_digest`].
    pub fn digest(self) -> (r: Option<MessageDigest>)
        ensures
            r == self.spec_digest(),
    {
        match self {
            WrappingKeyAlgorithm::RsaesPkcs1V1_5 => None,
            WrappingKeyAlgorithm::RsaesOaepSha1 => Some(MessageDigest::Sha1),
            WrappingKeyAlgorithm::RsaesOaepSha256 => Some(MessageDigest::Sha256),
            WrappingKeyAlgorithm::SM2PKE => None,
        }
    }

    /// Whether the algorithm is carried by an RSA wrapping key pair (as
    /// opposed to an SM2 one).
    pub open spec fn spec_is_rsa(self) -> bool {
        !(self == WrappingKeyAlgorithm::SM2PKE)
    }

    /// Wrapping specification an algorithm belongs with: the unwrap step
    /// rejects a pairing outside this mapping.
    pub open spec fn spec_matches_spec(self, spec: WrappingKeySpec) -> bool {
        match spec {
            WrappingKeySpec::Rsa2048 => self.spec_is_rsa(),
            WrappingKeySpec::EcSm2 => self == WrappingKeyAlgorithm::SM2PKE,
        }
    }

    /// See [`Self::spec_matches_spec`].
    pub fn matches_spec(self, spec: WrappingKeySpec) -> (r: bool)
        ensures
            r == self.spec_matches_spec(spec),
    {
        match spec {
            WrappingKeySpec::Rsa2048 => !(self == WrappingKeyAlgorithm::SM2PKE),
            WrappingKeySpec::EcSm2 => self == WrappingKeyAlgorithm::SM2PKE,
        }
    }
}

impl KeyAlgorithm {
    /// Padding discipline of the block-cipher modes: the CBC modes pad
    /// with PKCS#7, the stream and AEAD modes take the plaintext as is;
    /// the asymmetric algorithms carry their padding in the algorithm
    /// itself.
    pub open spec fn spec_cipher_padding(self) -> Option<Padding> {
        match self {
            KeyAlgorithm::AesCBC => Some(Padding::Pkcs7Padding),
            KeyAlgorithm::Sm4CBC => Some(Padding::Pkcs7Padding),
            KeyAlgorithm::AesGCM => Some(Padding::NoPadding),
            KeyAlgorithm::Sm4CTR => Some(Padding::NoPadding),
            _ => None,
        }
    }

    /// See [`Self::spec_cipher_padding`].
    pub fn cipher_padding(self) -> (r: Option<Padding>)
        ensures
            r == self.spec_cipher_padding(),
    {
        match self {
            KeyAlgorithm::AesCBC | KeyAlgorithm::Sm4CBC => Some(Padding::Pkcs7Padding),
            KeyAlgorithm::AesGCM | KeyAlgorithm::Sm4CTR => Some(Padding::NoPadding),
            _ => None,
        }
    }
}

// ---------------------------------------------------------------------------
// State machine
// ---------------------------------------------------------------------------

/// The fixed transition-compatibility matrix.
///
/// Rows are the current state, columns the attempted next state:
/// `Enabled` and `Disabled` may move to any of `Enabled`, `Disabled`,
/// `PendingDeletion`; `PendingDeletion` may stay or move to `Disabled`, but
/// never back to `Enabled`.  `PendingImport` is handled out of band by the
/// import protocol and is never a source or target of this matrix.
pub open spec fn spec_can_transition(current: KeyState, target: KeyState) -> bool {
    match (current, target) {
        (KeyState::PendingImport, _) => false,
        (_, KeyState::PendingImport) => false,
        (KeyState::PendingDeletion, KeyState::Enabled) => false,
        _ => true,
    }
}

/// Pure transition guard; see [`spec_can_transition`] for the matrix.
pub fn can_transition(current: KeyState, target: KeyState) -> (r: bool)
    ensures
        r == spec_can_transition(current, target),
{
    match (current, target) {
        (KeyState::PendingImport, _) => false,
        (_, KeyState::PendingImport) => false,
        (KeyState::PendingDeletion, KeyState::Enabled) => false,
        _ => true,
    }
}

/// Rejection reason reported when a guard refuses an operation on a key
/// found in the given state.
pub open spec fn spec_rejection_of(state: KeyState) -> KeyStateStatus {
    match state {
        KeyState::Enabled => KeyStateStatus::RejectedEnable,
        KeyState::Disabled => KeyStateStatus::RejectedDisable,
        KeyState::PendingDeletion => KeyStateStatus::PendingPendingDeletion,
        KeyState::PendingImport => KeyStateStatus::PendingPendingImport,
    }
}

impl From<KeyState> for KeyStateStatus {
    /// See [`spec_rejection_of`].
    fn from(value: KeyState) -> (r: KeyStateStatus) {
        match value {
            KeyState::Enabled => KeyStateStatus::RejectedEnable,
            KeyState::Disabled => KeyStateStatus::RejectedDisable,
            KeyState::PendingDeletion => KeyStateStatus::PendingPendingDeletion,
            KeyState::PendingImport => KeyStateStatus::PendingPendingImport,
        }
    }
}

impl vstd::std_specs::convert::FromSpecImpl<KeyState> for KeyStateStatus {
    open spec fn obeys_from_spec() -> bool {
        true
    }

    open spec fn from_spec(value: KeyState) -> KeyStateStatus {
        spec_rejection_of(value)
    }
}

/// Guard used before every state-affecting operation: succeeds exactly when
/// the key, found in state `actual`, may move to (or be validated against)
/// state `expect`; on rejection reports the reason keyed by `actual`.
pub fn assert_state(expect: KeyState, actual: KeyState) -> (r: Result<(), ServiceError>)
    ensures
        r matches Ok(_) <==> spec_can_transition(actual, expect),
        r matches Err(e) ==> e == ServiceError::StateChange(spec_rejection_of(actual)),
{
    if can_transition(actual, expect) {
        Ok(())
    } else {
        Err(ServiceError::StateChange(KeyStateStatus::from(actual)))
    }
}

impl KeyStateStatus {
    /// Stable wire code of the status, for audit logging at the boundary.
    pub fn code(self) -> (r: &'static str)
        ensures
            self == KeyStateStatus::Success ==> r@ == "SUCCESS"@,
            self == KeyStateStatus::RejectedEnable ==> r@ == "REJECTED.ENABLE"@,
            self == KeyStateStatus::RejectedDisable ==> r@ == "REJECTED.DISABLE"@,
            self == KeyStateStatus::PendingPendingDeletion ==> r@ == "PENDDING.PENDDING_DELETION"@,
            self == KeyStateStatus::PendingPendingImport ==> r@ == "PENDDING.PENDDING_IMPORT"@,
            self == KeyStateStatus::PendingStateModifiedFailed ==> r@
                == "PENDDING.STATE_MODIFIED_FAILED"@,
    {
        match self {
            KeyStateStatus::Success => "SUCCESS",
            KeyStateStatus::RejectedEnable => "REJECTED.ENABLE",
            KeyStateStatus::RejectedDisable => "REJECTED.DISABLE",
            KeyStateStatus::PendingPendingDeletion => "PENDDING.PENDDING_DELETION",
            KeyStateStatus::PendingPendingImport => "PENDDING.PENDDING_IMPORT",
            KeyStateStatus::PendingStateModifiedFailed => "PENDDING.STATE_MODIFIED_FAILED",
        }
    }
}

// ---------------------------------------------------------------------------
// Laws of the state machine
// ---------------------------------------------------------------------------

/// The guard agrees with the declared matrix on every pair of matrix
/// states, and rejects every pair that involves `PendingImport`; in
/// particular a key pending deletion can never transition straight back to
/// `Enabled`.
pub proof fn lemma_transition_matrix()
    ensures
        spec_can_transition(KeyState::Enabled, KeyState::Enabled),
        spec_can_transition(KeyState::Enabled, KeyState::Disabled),
        spec_can_transition(KeyState::Enabled, KeyState::PendingDeletion),
        spec_can_transition(KeyState::Disabled, KeyState::Enabled),
        spec_can_transition(KeyState::Disabled, KeyState::Disabled),
        spec_can_transition(KeyState::Disabled, KeyState::PendingDeletion),
        !spec_can_transition(KeyState::PendingDeletion, KeyState::Enabled),
        spec_can_transition(KeyState::PendingDeletion, KeyState::Disabled),
        spec_can_transition(KeyState::PendingDeletion, KeyState::PendingDeletion),
        forall|t: KeyState| !spec_can_transition(KeyState::PendingImport, t),
        forall|c: KeyState| !spec_can_transition(c, KeyState::PendingImport),
{
}

/// Round trip: an enabled key may be disabled and then enabled again.
pub proof fn lemma_enable_disable_round_trip()
    ensures
        spec_can_transition(KeyState::Enabled, KeyState::Disabled),
        spec_can_transition(KeyState::Disabled, KeyState::Enabled),
{
}

} // verus!
