//! End-to-end tests of the service: lifecycle, aliases, cache behaviour,
//! pagination and the import protocol, run against the real crypto
//! library.

use kms_core::errors::ServiceError;
use kms_core::service::Kms;
use kms_core::store::Paginator;
use kms_core::types::{KeyOrigin, KeySpec, KeyState, KeyStateStatus, KeyUsage, WrappingKeyAlgorithm, WrappingKeySpec};

fn new_enabled_key(kms: &mut Kms, key_id: &str, now: u64) {
    kms.create_key(
        "kms-1",
        key_id,
        KeySpec::Aes256,
        KeyUsage::EncryptAndDecrypt,
        KeyOrigin::Kms,
        now,
    )
    .expect("create_key");
}

#[test]
fn create_key_returns_primary_version() {
    let mut kms = Kms::new();
    let created = kms
        .create_key(
            "kms-1",
            "key-1",
            KeySpec::Aes256,
            KeyUsage::EncryptAndDecrypt,
            KeyOrigin::Kms,
            10,
        )
        .expect("create_key");
    assert_eq!(created.key_id, "key-1");
    assert_eq!(created.version, created.primary_version);
    assert_eq!(created.version, "v0");
    assert_eq!(created.state, KeyState::Enabled);
    assert_eq!(created.material.len(), 32);
    let main = kms.get_main_key_meta("key-1", 11).expect("main");
    assert_eq!(main.version, created.version);
    assert_eq!(main.state, KeyState::Enabled);
}

#[test]
fn create_key_rejects_bad_combination_and_duplicate() {
    let mut kms = Kms::new();
    match kms.create_key(
        "kms-1",
        "key-1",
        KeySpec::Aes128,
        KeyUsage::SignAndVerify,
        KeyOrigin::Kms,
        1,
    ) {
        Err(ServiceError::BadRequest(s)) => assert_eq!(s, "key-1"),
        other => panic!("unexpected: {:?}", other),
    }
    new_enabled_key(&mut kms, "key-1", 2);
    match kms.create_key(
        "kms-1",
        "key-1",
        KeySpec::Aes256,
        KeyUsage::EncryptAndDecrypt,
        KeyOrigin::Kms,
        3,
    ) {
        Err(ServiceError::BadRequest(s)) => assert_eq!(s, "key-1"),
        other => panic!("unexpected: {:?}", other),
    }
}

#[test]
fn unknown_key_is_not_found() {
    let mut kms = Kms::new();
    match kms.get_main_key_meta("missing", 1) {
        Err(ServiceError::NotFound(s)) => assert_eq!(s, "missing"),
        other => panic!("unexpected: {:?}", other),
    }
}

#[test]
fn enabled_disabled_enabled_round_trip() {
    let mut kms = Kms::new();
    new_enabled_key(&mut kms, "key-1", 1);
    kms.set_key_state("key-1", KeyState::Disabled, 2).expect("disable");
    let main = kms.get_main_key_meta("key-1", 3).expect("main");
    assert_eq!(main.state, KeyState::Disabled);
    kms.set_key_state("key-1", KeyState::Enabled, 4).expect("re-enable");
    let main = kms.get_main_key_meta("key-1", 5).expect("main");
    assert_eq!(main.state, KeyState::Enabled);
}

#[test]
fn pending_deletion_cannot_be_reenabled() {
    let mut kms = Kms::new();
    new_enabled_key(&mut kms, "key-1", 1);
    kms.set_key_state("key-1", KeyState::PendingDeletion, 2).expect("schedule deletion");
    match kms.set_key_state("key-1", KeyState::Enabled, 3) {
        Err(ServiceError::StateChange(r)) => {
            assert_eq!(r, KeyStateStatus::PendingPendingDeletion)
        },
        other => panic!("unexpected: {:?}", other),
    }
    // Recovery path: a pending-deletion key may still be disabled.
    kms.set_key_state("key-1", KeyState::Disabled, 4).expect("disable");
    kms.set_key_state("key-1", KeyState::Enabled, 5).expect("enable after disable");
}

#[test]
fn create_key_version_repoints_primary() {
    let mut kms = Kms::new();
    new_enabled_key(&mut kms, "key-1", 1);
    let v2 = kms.create_key_version("key-1", 2).expect("new version");
    assert_eq!(v2.version, v2.primary_version);
    let main = kms.get_main_key_meta("key-1", 3).expect("main");
    assert_eq!(main.version, v2.version);
    let old = kms.get_version_key_meta("key-1", "v0", 4).expect("old version");
    assert_eq!(old.primary_version, v2.version);
    let page = kms.list_key_versions("key-1", &Paginator { limit: 10, cursor: None });
    assert_eq!(page.items.len(), 2);
    assert!(page.next_cursor.is_none());
}

#[test]
fn create_key_version_rejected_pending_deletion() {
    let mut kms = Kms::new();
    new_enabled_key(&mut kms, "key-1", 1);
    kms.set_key_state("key-1", KeyState::PendingDeletion, 2).expect("schedule deletion");
    let versions_before = kms.list_key_versions("key-1", &Paginator { limit: 10, cursor: None });
    match kms.create_key_version("key-1", 3) {
        Err(ServiceError::StateChange(r)) => {
            assert_eq!(r, KeyStateStatus::PendingPendingDeletion)
        },
        other => panic!("unexpected: {:?}", other),
    }
    let versions_after = kms.list_key_versions("key-1", &Paginator { limit: 10, cursor: None });
    assert_eq!(versions_before.items.len(), versions_after.items.len());
    assert_eq!(versions_after.items.len(), 1);
    assert_eq!(versions_before.items[0].version, versions_after.items[0].version);
}

#[test]
fn alias_visible_after_write_despite_warm_cache() {
    let mut kms = Kms::new();
    new_enabled_key(&mut kms, "key-1", 1);
    // Warm the alias cache so the write must invalidate it.
    let before = kms.get_aliases("key-1", 2);
    assert!(before.is_empty());
    let listed = kms.set_alias("key-1", "first-alias", 3).expect("set_alias");
    assert!(listed.iter().any(|a| a.alias == "first-alias"));
    let after = kms.get_aliases("key-1", 4);
    assert!(after.iter().any(|a| a.alias == "first-alias"));
}

#[test]
fn alias_limit_allows_five_rejects_sixth() {
    let mut kms = Kms::new();
    new_enabled_key(&mut kms, "key-1", 1);
    for k in 1..=5u64 {
        let name = format!("alias-{}", k);
        let listed = kms.set_alias("key-1", &name, 10 + k).expect("within limit");
        assert_eq!(listed.len(), k as usize);
    }
    match kms.set_alias("key-1", "alias-6", 20) {
        Err(ServiceError::BadRequest(s)) => assert_eq!(s, "key-1"),
        other => panic!("unexpected: {:?}", other),
    }
    assert_eq!(kms.get_aliases("key-1", 21).len(), 5);
}

#[test]
fn alias_limit_override() {
    let mut kms = Kms::with_alias_limit(2);
    new_enabled_key(&mut kms, "key-1", 1);
    kms.set_alias("key-1", "a-1", 2).expect("first");
    kms.set_alias("key-1", "a-2", 3).expect("second");
    assert!(matches!(
        kms.set_alias("key-1", "a-3", 4),
        Err(ServiceError::BadRequest(_))
    ));
}

#[test]
fn alias_upsert_relinks_last_writer_wins() {
    let mut kms = Kms::new();
    new_enabled_key(&mut kms, "key-a", 1);
    new_enabled_key(&mut kms, "key-b", 2);
    kms.set_alias("key-a", "shared", 3).expect("owner a");
    kms.set_alias("key-b", "shared", 4).expect("relink to b");
    let row = kms.store.select_alias("shared").expect("alias exists");
    assert_eq!(row.key_id, "key-b");
    // The previous owner's list no longer carries it once its cache entry
    // is invalidated.
    kms.alias_cache.invalidate("key-a");
    let a_aliases = kms.get_aliases("key-a", 5);
    assert!(!a_aliases.iter().any(|a| a.alias == "shared"));
    let b_aliases = kms.get_aliases("key-b", 6);
    assert!(b_aliases.iter().any(|a| a.alias == "shared"));
}

#[test]
fn delete_aliases_scoped_and_unscoped() {
    let mut kms = Kms::new();
    new_enabled_key(&mut kms, "key-1", 1);
    kms.set_alias("key-1", "a-1", 2).expect("a-1");
    kms.set_alias("key-1", "a-2", 3).expect("a-2");
    kms.set_alias("key-1", "a-3", 4).expect("a-3");
    kms.delete_aliases("key-1", &vec!["a-2".to_string()]);
    let left = kms.get_aliases("key-1", 5);
    assert_eq!(left.len(), 2);
    assert!(!left.iter().any(|a| a.alias == "a-2"));
    kms.delete_aliases("key-1", &Vec::new());
    assert!(kms.get_aliases("key-1", 6).is_empty());
}

#[test]
fn invalidating_absent_entry_is_noop_and_refetch_reads_once() {
    let mut kms = Kms::new();
    new_enabled_key(&mut kms, "key-1", 1);
    // Invalidating an entry that does not exist: no error, nothing changes.
    kms.alias_cache.invalidate("no-such-key");
    kms.meta_cache.invalidate("no-such-key");
    let base = kms.store_reads;
    // First fetch misses and reads the store exactly once.
    kms.get_aliases("key-1", 2);
    assert_eq!(kms.store_reads, base + 1);
    // Re-fetching hits the populated entry: no further store read.
    kms.get_aliases("key-1", 3);
    assert_eq!(kms.store_reads, base + 1);
    // After invalidation the next fetch reads the store exactly once again.
    kms.alias_cache.invalidate("key-1");
    kms.get_aliases("key-1", 4);
    assert_eq!(kms.store_reads, base + 2);
    kms.get_aliases("key-1", 5);
    assert_eq!(kms.store_reads, base + 2);
}

#[test]
fn cache_expires_by_idle_and_by_lifetime() {
    let mut kms = Kms::new();
    new_enabled_key(&mut kms, "key-1", 1000);
    let base = kms.store_reads;
    kms.get_key_metas("key-1", 1000);
    assert_eq!(kms.store_reads, base + 1);
    // Within the idle bound: served from the cache.
    kms.get_key_metas("key-1", 1250);
    assert_eq!(kms.store_reads, base + 1);
    // Idle for longer than the time-to-idle bound: reloaded.
    kms.get_key_metas("key-1", 1600);
    assert_eq!(kms.store_reads, base + 2);
    // Steady accesses keep it warm, but the time-to-live bound still caps
    // the entry's age.
    let mut t = 1600u64;
    while t < 3400 {
        t += 250;
        kms.get_key_metas("key-1", t);
    }
    assert_eq!(kms.store_reads, base + 3);
}

#[test]
fn pagination_walks_in_id_order() {
    let mut kms = Kms::new();
    for k in 0..5u64 {
        let key = format!("key-{}", k);
        new_enabled_key(&mut kms, &key, k);
    }
    let first = kms.list_kms_keys("kms-1", &Paginator { limit: 2, cursor: None });
    assert_eq!(first.items.len(), 2);
    assert_eq!(first.items[0].key_id, "key-0");
    assert_eq!(first.items[1].key_id, "key-1");
    let c1 = first.next_cursor.expect("more pages");
    let second = kms.list_kms_keys("kms-1", &Paginator { limit: 2, cursor: Some(c1) });
    assert_eq!(second.items.len(), 2);
    assert_eq!(second.items[0].key_id, "key-2");
    let c2 = second.next_cursor.expect("more pages");
    let third = kms.list_kms_keys("kms-1", &Paginator { limit: 2, cursor: Some(c2) });
    assert_eq!(third.items.len(), 1);
    assert_eq!(third.items[0].key_id, "key-4");
    assert!(third.next_cursor.is_none());
    let other = kms.list_kms_keys("kms-2", &Paginator { limit: 2, cursor: None });
    assert!(other.items.is_empty());
}

fn wrap_with_public_key(public_der: &[u8], material: &[u8]) -> Vec<u8> {
    let pkey = openssl::pkey::PKey::public_key_from_der(public_der).expect("public key");
    let mut enc = openssl::encrypt::Encrypter::new(&pkey).expect("encrypter");
    enc.set_rsa_padding(openssl::rsa::Padding::PKCS1_OAEP).expect("padding");
    let len = enc.encrypt_len(material).expect("len");
    let mut wrapped = vec![0u8; len];
    let n = enc.encrypt(material, &mut wrapped).expect("encrypt");
    wrapped.truncate(n);
    wrapped
}

#[test]
fn import_protocol_full_round_trip() {
    let mut kms = Kms::new();
    kms.create_key(
        "kms-1",
        "ext-key",
        KeySpec::Aes256,
        KeyUsage::EncryptAndDecrypt,
        KeyOrigin::External,
        1,
    )
    .expect("create external key");
    // No committed material yet: no primary version to serve.
    assert!(matches!(
        kms.get_main_key_meta("ext-key", 2),
        Err(ServiceError::NotFound(_))
    ));
    let params = kms
        .generate_key_import_params(
            "ext-key",
            WrappingKeySpec::Rsa2048,
            WrappingKeyAlgorithm::RsaesOaepSha1,
            10,
        )
        .expect("import params");
    assert!(!params.public_key.is_empty());
    assert_eq!(params.expires_at, 10 + 86400);

    // Material of the wrong length for AES-256 is rejected and the key
    // stays pending import.
    let short = vec![7u8; 16];
    let wrapped_short = wrap_with_public_key(&params.public_key, &short);
    match kms.import_key_material("ext-key", &wrapped_short, &params.token, 11) {
        Err(ServiceError::BadRequest(s)) => assert_eq!(s, "ext-key"),
        other => panic!("unexpected: {:?}", other),
    }
    assert!(matches!(
        kms.get_main_key_meta("ext-key", 12),
        Err(ServiceError::NotFound(_))
    ));

    // Correctly sized material commits, and the key becomes usable.
    let material = vec![42u8; 32];
    let wrapped = wrap_with_public_key(&params.public_key, &material);
    kms.import_key_material("ext-key", &wrapped, &params.token, 13).expect("import");
    let main = kms.get_main_key_meta("ext-key", 14).expect("main after import");
    assert_eq!(main.state, KeyState::Enabled);
    assert_eq!(main.material, material);
    assert_eq!(main.version, main.primary_version);
}

#[test]
fn import_rejects_bad_token_expiry_and_states() {
    let mut kms = Kms::new();
    kms.create_key(
        "ext-key",
        "ext-key",
        KeySpec::Aes128,
        KeyUsage::EncryptAndDecrypt,
        KeyOrigin::External,
        1,
    )
    .expect("create external key");
    // Import params for a key not pending import are rejected with the
    // state-machine reason.
    new_enabled_key(&mut kms, "plain-key", 2);
    match kms.generate_key_import_params(
        "plain-key",
        WrappingKeySpec::Rsa2048,
        WrappingKeyAlgorithm::RsaesOaepSha1,
        3,
    ) {
        Err(ServiceError::StateChange(r)) => assert_eq!(r, KeyStateStatus::RejectedEnable),
        other => panic!("unexpected: {:?}", other),
    }
    // Mismatched wrapping algorithm and specification.
    assert!(matches!(
        kms.generate_key_import_params(
            "ext-key",
            WrappingKeySpec::Rsa2048,
            WrappingKeyAlgorithm::SM2PKE,
            4,
        ),
        Err(ServiceError::BadRequest(_))
    ));
    let params = kms
        .generate_key_import_params(
            "ext-key",
            WrappingKeySpec::Rsa2048,
            WrappingKeyAlgorithm::RsaesOaepSha1,
            5,
        )
        .expect("import params");
    let material = vec![9u8; 16];
    let wrapped = wrap_with_public_key(&params.public_key, &material);
    // Wrong token.
    let bad_token = vec![0u8; params.token.len()];
    assert!(matches!(
        kms.import_key_material("ext-key", &wrapped, &bad_token, 6),
        Err(ServiceError::BadRequest(_))
    ));
    // Expired token.
    assert!(matches!(
        kms.import_key_material("ext-key", &wrapped, &params.token, params.expires_at),
        Err(ServiceError::BadRequest(_))
    ));
    // Unknown key: no session.
    assert!(matches!(
        kms.import_key_material("other", &wrapped, &params.token, 7),
        Err(ServiceError::BadRequest(_))
    ));
    // In time and with the right token the import goes through.
    kms.import_key_material("ext-key", &wrapped, &params.token, 8).expect("import");
    // A second import finds no live session any more.
    assert!(matches!(
        kms.import_key_material("ext-key", &wrapped, &params.token, 9),
        Err(ServiceError::BadRequest(_))
    ));
}

#[test]
fn repeated_import_params_replace_session() {
    let mut kms = Kms::new();
    kms.create_key(
        "kms-1",
        "ext-key",
        KeySpec::Aes256,
        KeyUsage::EncryptAndDecrypt,
        KeyOrigin::External,
        1,
    )
    .expect("create external key");
    let first = kms
        .generate_key_import_params(
            "ext-key",
            WrappingKeySpec::Rsa2048,
            WrappingKeyAlgorithm::RsaesOaepSha1,
            2,
        )
        .expect("first params");
    let second = kms
        .generate_key_import_params(
            "ext-key",
            WrappingKeySpec::Rsa2048,
            WrappingKeyAlgorithm::RsaesOaepSha1,
            3,
        )
        .expect("second params");
    assert_eq!(kms.imports.len(), 1);
    let material = vec![5u8; 32];
    // The first session's token and wrapping key are dead.
    let wrapped_old = wrap_with_public_key(&first.public_key, &material);
    assert!(matches!(
        kms.import_key_material("ext-key", &wrapped_old, &first.token, 4),
        Err(ServiceError::BadRequest(_))
    ));
    // The second session works.
    let wrapped_new = wrap_with_public_key(&second.public_key, &material);
    kms.import_key_material("ext-key", &wrapped_new, &second.token, 5).expect("import");
}

#[test]
fn alias_pagination_walks_in_id_order() {
    let mut kms = Kms::new();
    new_enabled_key(&mut kms, "key-1", 1);
    kms.set_alias("key-1", "b-1", 2).expect("b-1");
    kms.set_alias("key-1", "b-2", 3).expect("b-2");
    kms.set_alias("key-1", "b-3", 4).expect("b-3");
    let first = kms.store.pagin_key_alias("key-1", &Paginator { limit: 2, cursor: None });
    assert_eq!(first.items.len(), 2);
    assert_eq!(first.items[0].alias, "b-1");
    assert_eq!(first.items[1].alias, "b-2");
    let c = first.next_cursor.expect("more");
    let second = kms.store.pagin_key_alias("key-1", &Paginator { limit: 2, cursor: Some(c) });
    assert_eq!(second.items.len(), 1);
    assert_eq!(second.items[0].alias, "b-3");
    assert!(second.next_cursor.is_none());
}

#[test]
fn set_key_meta_updates_row_and_invalidates_cache() {
    let mut kms = Kms::new();
    new_enabled_key(&mut kms, "key-1", 1);
    // Warm the version cache, then write through the store.
    let mut row = kms.get_main_key_meta("key-1", 2).expect("main");
    row.updated_at = 99;
    kms.set_key_meta(&row);
    let reread = kms.get_version_key_meta("key-1", &row.version.clone(), 3).expect("version");
    assert_eq!(reread.updated_at, 99);
    // An unknown version of a known key is still not found.
    match kms.get_version_key_meta("key-1", "v99", 4) {
        Err(ServiceError::NotFound(s)) => assert_eq!(s, "key-1"),
        other => panic!("unexpected: {:?}", other),
    }
}
