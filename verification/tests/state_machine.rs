//! Tests of the state machine, the rejection reasons and the algorithm
//! registry.

use kms_core::errors::ServiceError;
use kms_core::types::{
    assert_state, can_transition, KeyAlgorithm, KeyPrimitive, KeySpec, KeyState, KeyStateStatus,
    KeyType, KeyUsage, MessageDigest, Padding, WrappingKeyAlgorithm, WrappingKeySpec,
};

const ALL_STATES: [KeyState; 4] = [
    KeyState::Enabled,
    KeyState::Disabled,
    KeyState::PendingDeletion,
    KeyState::PendingImport,
];

#[test]
fn transition_matrix_matches_declaration() {
    // Rows: current state; columns: attempted next state, over the three
    // matrix states in declaration order.
    let matrix = [
        (KeyState::Enabled, [true, true, true]),
        (KeyState::Disabled, [true, true, true]),
        (KeyState::PendingDeletion, [false, true, true]),
    ];
    let targets = [KeyState::Enabled, KeyState::Disabled, KeyState::PendingDeletion];
    for (current, row) in matrix {
        for (k, target) in targets.iter().enumerate() {
            assert_eq!(can_transition(current, *target), row[k]);
        }
    }
}

#[test]
fn pending_deletion_never_reenabled() {
    assert!(!can_transition(KeyState::PendingDeletion, KeyState::Enabled));
}

#[test]
fn pending_import_is_out_of_band() {
    for s in ALL_STATES {
        assert!(!can_transition(KeyState::PendingImport, s));
        assert!(!can_transition(s, KeyState::PendingImport));
    }
}

#[test]
fn enable_disable_round_trip_allowed() {
    assert!(can_transition(KeyState::Enabled, KeyState::Disabled));
    assert!(can_transition(KeyState::Disabled, KeyState::Enabled));
}

#[test]
fn assert_state_reports_reason_of_found_state() {
    assert!(assert_state(KeyState::Enabled, KeyState::Enabled).is_ok());
    assert!(assert_state(KeyState::Enabled, KeyState::Disabled).is_ok());
    match assert_state(KeyState::Enabled, KeyState::PendingDeletion) {
        Err(ServiceError::StateChange(r)) => {
            assert_eq!(r, KeyStateStatus::PendingPendingDeletion)
        },
        other => panic!("unexpected: {:?}", other),
    }
    match assert_state(KeyState::Enabled, KeyState::PendingImport) {
        Err(ServiceError::StateChange(r)) => {
            assert_eq!(r, KeyStateStatus::PendingPendingImport)
        },
        other => panic!("unexpected: {:?}", other),
    }
}

#[test]
fn status_codes_are_stable() {
    assert_eq!(KeyStateStatus::Success.code(), "SUCCESS");
    assert_eq!(KeyStateStatus::RejectedEnable.code(), "REJECTED.ENABLE");
    assert_eq!(KeyStateStatus::RejectedDisable.code(), "REJECTED.DISABLE");
    assert_eq!(
        KeyStateStatus::PendingPendingDeletion.code(),
        "PENDDING.PENDDING_DELETION"
    );
    assert_eq!(
        KeyStateStatus::PendingPendingImport.code(),
        "PENDDING.PENDDING_IMPORT"
    );
    assert_eq!(
        KeyStateStatus::PendingStateModifiedFailed.code(),
        "PENDDING.STATE_MODIFIED_FAILED"
    );
}

#[test]
fn rejection_reason_from_state() {
    assert_eq!(KeyStateStatus::from(KeyState::Enabled), KeyStateStatus::RejectedEnable);
    assert_eq!(KeyStateStatus::from(KeyState::Disabled), KeyStateStatus::RejectedDisable);
    assert_eq!(
        KeyStateStatus::from(KeyState::PendingDeletion),
        KeyStateStatus::PendingPendingDeletion
    );
    assert_eq!(
        KeyStateStatus::from(KeyState::PendingImport),
        KeyStateStatus::PendingPendingImport
    );
}

#[test]
fn registry_key_lengths() {
    assert_eq!(KeySpec::Aes128.key_length(), 16);
    assert_eq!(KeySpec::Aes256.key_length(), 32);
    assert_eq!(KeySpec::Rsa2048.key_length(), 256);
    assert_eq!(KeySpec::Rsa3072.key_length(), 384);
    assert_eq!(KeySpec::EcP256.key_length(), 256);
    assert_eq!(KeySpec::EcP256K.key_length(), 256);
    assert_eq!(KeySpec::SM4.key_length(), 16);
}

#[test]
fn registry_primitives() {
    assert_eq!(KeySpec::Aes128.primitive(), KeyPrimitive::Aes128Gcm);
    assert_eq!(KeySpec::Aes256.primitive(), KeyPrimitive::Aes256Gcm);
    assert_eq!(KeySpec::Rsa2048.primitive(), KeyPrimitive::Rsa);
    assert_eq!(KeySpec::Rsa3072.primitive(), KeyPrimitive::Rsa);
    assert_eq!(KeySpec::EcP256.primitive(), KeyPrimitive::Prime256v1);
    assert_eq!(KeySpec::EcP256K.primitive(), KeyPrimitive::Secp256k1);
    assert_eq!(KeySpec::SM4.primitive(), KeyPrimitive::Sm4Cbc);
    assert_eq!(WrappingKeySpec::Rsa2048.primitive(), KeyPrimitive::Rsa);
    assert_eq!(WrappingKeySpec::EcSm2.primitive(), KeyPrimitive::Sm2);
    assert_eq!(WrappingKeySpec::Rsa2048.key_length(), 256);
    assert_eq!(WrappingKeySpec::EcSm2.key_length(), 256);
}

#[test]
fn registry_key_types_and_algorithms() {
    assert_eq!(KeySpec::Aes256.key_type(), KeyType::Symmetric);
    assert_eq!(KeySpec::SM4.key_type(), KeyType::Symmetric);
    assert_eq!(KeySpec::Rsa2048.key_type(), KeyType::Asymmetric);
    assert_eq!(KeySpec::EcP256K.key_type(), KeyType::Asymmetric);
    assert_eq!(
        KeySpec::Aes256.algorithm(KeyUsage::EncryptAndDecrypt),
        Some(KeyAlgorithm::AesGCM)
    );
    assert_eq!(
        KeySpec::SM4.algorithm(KeyUsage::EncryptAndDecrypt),
        Some(KeyAlgorithm::Sm4CBC)
    );
    assert_eq!(
        KeySpec::Rsa3072.algorithm(KeyUsage::SignAndVerify),
        Some(KeyAlgorithm::RsaPSS)
    );
    assert_eq!(
        KeySpec::EcP256.algorithm(KeyUsage::SignAndVerify),
        Some(KeyAlgorithm::Ecdsa)
    );
    assert_eq!(
        KeySpec::EcP256.algorithm(KeyUsage::EncryptAndDecrypt),
        Some(KeyAlgorithm::EciesSha1)
    );
    assert_eq!(KeySpec::Aes128.algorithm(KeyUsage::SignAndVerify), None);
    assert_eq!(KeySpec::SM4.algorithm(KeyUsage::SignAndVerify), None);
}

#[test]
fn wrapping_algorithm_pairing() {
    assert!(WrappingKeyAlgorithm::RsaesPkcs1V1_5.matches_spec(WrappingKeySpec::Rsa2048));
    assert!(WrappingKeyAlgorithm::RsaesOaepSha1.matches_spec(WrappingKeySpec::Rsa2048));
    assert!(WrappingKeyAlgorithm::RsaesOaepSha256.matches_spec(WrappingKeySpec::Rsa2048));
    assert!(!WrappingKeyAlgorithm::SM2PKE.matches_spec(WrappingKeySpec::Rsa2048));
    assert!(WrappingKeyAlgorithm::SM2PKE.matches_spec(WrappingKeySpec::EcSm2));
    assert!(!WrappingKeyAlgorithm::RsaesOaepSha1.matches_spec(WrappingKeySpec::EcSm2));
    assert_eq!(
        WrappingKeyAlgorithm::RsaesOaepSha256.digest(),
        Some(MessageDigest::Sha256)
    );
    assert_eq!(WrappingKeyAlgorithm::RsaesOaepSha1.digest(), Some(MessageDigest::Sha1));
    assert_eq!(WrappingKeyAlgorithm::RsaesPkcs1V1_5.digest(), None);
}

#[test]
fn cipher_padding_of_block_modes() {
    assert_eq!(KeyAlgorithm::AesCBC.cipher_padding(), Some(Padding::Pkcs7Padding));
    assert_eq!(KeyAlgorithm::Sm4CBC.cipher_padding(), Some(Padding::Pkcs7Padding));
    assert_eq!(KeyAlgorithm::AesGCM.cipher_padding(), Some(Padding::NoPadding));
    assert_eq!(KeyAlgorithm::Sm4CTR.cipher_padding(), Some(Padding::NoPadding));
    assert_eq!(KeyAlgorithm::RsaOAEP.cipher_padding(), None);
    assert_eq!(KeyAlgorithm::Ecdsa.cipher_padding(), None);
}
