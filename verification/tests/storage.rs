use op4_core::crypto::primitives::{Argon2Params, SymKey};
use op4_core::error::VaultError;
use op4_core::storage::paths::{get_vault_path, get_vault_path_android, seq_marker_path};
use op4_core::storage::payload::{VaultPayload, OPK_BATCH_SIZE, OPK_REPLENISH_THRESHOLD};
use op4_core::storage::records::{AppSettings, StoredMessage};
use op4_core::storage::vault::{
    build_vault_file, parse_header, read_sequence_marker, write_sequence_marker, SavedVault,
    VaultUnlocked,
};
use x25519_dalek::{PublicKey as X25519PublicKey, StaticSecret};

/// Fast Argon2 costs (1 MiB, 1 iteration), for tests only.
fn test_params() -> Argon2Params {
    Argon2Params { m_cost: 1024, t_cost: 1, p_cost: 1 }
}

fn create_test_vault(normal: &[u8], duress: &[u8]) -> (VaultUnlocked, Vec<u8>) {
    VaultUnlocked::create_with_params(normal, duress, &test_params()).ok().unwrap()
}

fn unlock_test_vault(file: &[u8], pass: &[u8]) -> Result<VaultUnlocked, VaultError> {
    VaultUnlocked::unlock_with_params(file, pass, &test_params())
}

fn saved(vault: &mut VaultUnlocked) -> SavedVault {
    vault.save().ok().unwrap()
}

#[test]
fn vault_create_and_unlock_normal() {
    let (_, file) = create_test_vault(b"normal-pass", b"duress-pass");
    let v = unlock_test_vault(&file, b"normal-pass").ok().unwrap();

    assert!(!v.is_duress);
    assert!(v.payload.contacts.is_empty());
}

#[test]
fn vault_create_and_unlock_duress() {
    let (_, file) = create_test_vault(b"normal-pass", b"duress-pass");
    let v = unlock_test_vault(&file, b"duress-pass").ok().unwrap();

    assert!(v.is_duress);
    assert_eq!(v.payload.nym_address, "[duress]");
}

#[test]
fn vault_wrong_passphrase_returns_invalid_passphrase() {
    let (_, file) = create_test_vault(b"correct", b"duress");
    let result = unlock_test_vault(&file, b"wrong");

    assert!(matches!(result, Err(VaultError::InvalidPassphrase)));
}

#[test]
fn vault_save_persists_payload_fields() {
    let (mut vault, _) = create_test_vault(b"pass", b"duress");
    vault.payload.nym_address = "onion_addr".into();
    vault.payload.sequence = 42;
    let file = saved(&mut vault).file; // save() auto-increments sequence to 43

    let reloaded = unlock_test_vault(&file, b"pass").ok().unwrap();
    assert_eq!(reloaded.payload.nym_address, "onion_addr");
    assert_eq!(reloaded.payload.sequence, 43);
}

#[test]
fn vault_duress_passphrase_still_works_after_normal_save() {
    let (mut vault, _) = create_test_vault(b"normal", b"duress");
    vault.payload.sequence = 1;
    let file = saved(&mut vault).file;

    let dv = unlock_test_vault(&file, b"duress").ok().unwrap();
    assert!(dv.is_duress);
    assert_eq!(dv.payload.nym_address, "[duress]");
}

#[test]
fn vault_vault_file_starts_with_magic_and_version() {
    let (_, raw) = create_test_vault(b"pass", b"duress");
    assert_eq!(&raw[..4], b"OP4V");
    assert_eq!(raw[4], 2, "VAULT_VERSION must be 2");
}

#[test]
fn rollback_detection_catches_stale_vault() {
    let (mut vault, _) = create_test_vault(b"pass", b"duress");
    saved(&mut vault); // seq 1
    let snapshot = saved(&mut vault).file; // seq 2, kept aside

    let marker = saved(&mut vault).marker; // seq 3 -- the marker now says 3

    // Going back to the old file simulates rollback
    let rolled_back = unlock_test_vault(&snapshot, b"pass").ok().unwrap();
    assert!(
        rolled_back.check_rollback(Some(&marker)),
        "vault at seq 2 with marker at seq 3 should be detected as rollback"
    );
}

#[test]
fn no_rollback_on_normal_use() {
    let (mut vault, _) = create_test_vault(b"pass", b"duress");
    saved(&mut vault);
    let last = saved(&mut vault);

    let reloaded = unlock_test_vault(&last.file, b"pass").ok().unwrap();
    assert!(
        !reloaded.check_rollback(Some(&last.marker)),
        "normal save/unlock cycle should not trigger rollback"
    );
}

#[test]
fn vault_corrupt_file_returns_error_without_argon2() {
    // Garbage fails in the header, before any key derivation.
    let result = VaultUnlocked::unlock(b"not a vault", b"any");
    assert!(matches!(result, Err(VaultError::InvalidMagic) | Err(VaultError::Corrupt)));
}

#[test]
fn vault_headers_are_checked_in_order() {
    assert!(matches!(parse_header(&[0u8; 10]), Err(VaultError::Corrupt)));
    let good = build_vault_file(&[1u8; 32], &[2u8; 32], b"normal", b"duress");
    let mut bad = good.clone();
    bad[0] = b'X';
    assert!(matches!(parse_header(&bad), Err(VaultError::InvalidMagic)));
    let mut bad = good.clone();
    bad[4] = 1;
    assert!(matches!(parse_header(&bad), Err(VaultError::InvalidVersion)));
    assert!(matches!(parse_header(&good[..good.len() - 1]), Err(VaultError::Corrupt)));
    let header = parse_header(&good).ok().unwrap();
    assert_eq!(header.normal_salt, [1u8; 32]);
    assert_eq!(header.duress_salt, [2u8; 32]);
    assert_eq!(&good[header.normal_section_offset..][..header.normal_ct_len], b"normal");
    assert_eq!(&good[header.duress_section_offset..][..header.duress_ct_len], b"duress");
}

#[test]
fn vault_headers_say_where_the_sections_start() {
    let data = [
        &b"OP4V"[..],
        &[2u8],
        &[0xAAu8; 32],
        &[0xBBu8; 32],
        &[3u8, 0, 0, 0],
        &[5u8, 0, 0, 0],
        &[0u8; 11],
    ]
    .concat();
    let h = parse_header(&data).ok().unwrap();
    assert_eq!(h.normal_salt, [0xAA; 32]);
    assert_eq!(h.duress_salt, [0xBB; 32]);
    assert_eq!((h.normal_ct_len, h.duress_ct_len), (3, 5));
    assert_eq!((h.normal_section_offset, h.duress_section_offset), (77, 82));
}

#[test]
fn other_passphrases_do_not_open_a_vault() {
    let (_, file) = create_test_vault(b"normal", b"duress");
    assert!(matches!(
        unlock_test_vault(&file, b"other"),
        Err(VaultError::InvalidPassphrase)
    ));
    assert!(unlock_test_vault(&file, b"normal").is_ok());
}

#[test]
fn saving_the_decoy_keeps_the_real_section() {
    let (mut vault, _) = create_test_vault(b"normal", b"duress");
    vault.payload.nym_address = "real".into();
    let file = saved(&mut vault).file;
    let mut decoy = unlock_test_vault(&file, b"duress").ok().unwrap();
    decoy.payload.nym_address = "changed decoy".into();
    let file = saved(&mut decoy).file;
    let real = unlock_test_vault(&file, b"normal").ok().unwrap();
    assert!(!real.is_duress);
    assert_eq!(real.payload.nym_address, "real");
    let decoy = unlock_test_vault(&file, b"duress").ok().unwrap();
    assert!(decoy.is_duress);
    assert_eq!(decoy.payload.nym_address, "changed decoy");
}

#[test]
fn sequence_markers_read_back_under_their_key_only() {
    let marker = write_sequence_marker(&SymKey([5u8; 32]), 77);
    assert_eq!(read_sequence_marker(&SymKey([5u8; 32]), &marker), Some(77));
    assert_eq!(read_sequence_marker(&SymKey([6u8; 32]), &marker), None);
    assert_eq!(read_sequence_marker(&SymKey([5u8; 32]), &marker[1..]), None);
    let mut altered = marker;
    altered[0] ^= 1;
    assert_eq!(read_sequence_marker(&SymKey([5u8; 32]), &altered), None);
}

#[test]
fn a_missing_or_odd_marker_is_no_rollback() {
    let (vault, _) = create_test_vault(b"pass", b"duress");
    assert!(!vault.check_rollback(None));
    assert!(!vault.check_rollback(Some(b"odd")));
}

#[test]
fn vaults_with_weak_costs_are_refused_as_parameters() {
    let params = Argon2Params { m_cost: 0, t_cost: 0, p_cost: 0 };
    assert!(matches!(
        VaultUnlocked::create_with_params(b"a", b"b", &params),
        Err(VaultError::Crypto(_))
    ));
}

#[test]
fn conversation_keys_differ() {
    let (vault, _) = create_test_vault(b"pass", b"duress");
    let a = vault.derive_conversation_key(&[1u8; 32]);
    let b = vault.derive_conversation_key(&[2u8; 32]);
    assert_ne!(a.0, b.0);
    assert_eq!(a.0, vault.derive_conversation_key(&[1u8; 32]).0);
}

// One-time keys

#[test]
fn generate_opks_creates_batch() {
    let mut payload = VaultPayload::default();
    assert!(payload.opk_secrets.is_empty());
    payload.generate_opks();
    assert_eq!(payload.opk_secrets.len(), OPK_BATCH_SIZE);
}

#[test]
fn opk_public_keys_derive_from_secrets() {
    let mut payload = VaultPayload::default();
    payload.generate_opks();
    let pubs = payload.opk_public_keys();
    assert_eq!(pubs.len(), OPK_BATCH_SIZE);
    // Each public key should be 32 bytes and non-zero
    for pk in &pubs {
        assert_ne!(pk, &[0u8; 32]);
    }
}

#[test]
fn opk_public_keys_match_secrets() {
    let mut payload = VaultPayload::default();
    payload.generate_opks();
    let pubs = payload.opk_public_keys();
    for (secret, expected_pub) in payload.opk_secrets.iter().zip(pubs.iter()) {
        let s = StaticSecret::from(*secret);
        let p = X25519PublicKey::from(&s).to_bytes();
        assert_eq!(&p, expected_pub);
    }
}

#[test]
fn consume_opk_by_id_removes_correct_key() {
    let mut payload = VaultPayload::default();
    payload.generate_opks();
    let target_secret = payload.opk_secrets[0];
    let target_id = VaultPayload::opk_id_for_secret(&target_secret);
    let original_len = payload.opk_secrets.len();

    let removed = payload.consume_opk_by_id(&target_id);
    assert!(removed.is_some());
    assert_eq!(removed.unwrap(), target_secret);
    assert_eq!(payload.opk_secrets.len(), original_len - 1);
    // The removed secret should no longer be in the pool
    assert!(!payload.opk_secrets.contains(&target_secret));
}

#[test]
fn consume_opk_by_id_unknown_returns_none() {
    let mut payload = VaultPayload::default();
    payload.generate_opks();
    let fake_id = [0xFF, 0xFF, 0xFF, 0xFF];
    assert!(payload.consume_opk_by_id(&fake_id).is_none());
    assert_eq!(payload.opk_secrets.len(), OPK_BATCH_SIZE);
}

#[test]
fn opk_ids_match_public_key_hashes() {
    let mut payload = VaultPayload::default();
    payload.generate_opks();
    let ids = payload.opk_ids();
    assert_eq!(ids.len(), OPK_BATCH_SIZE);
    // Each ID should match the hash of the corresponding public key
    for (secret, id) in payload.opk_secrets.iter().zip(ids.iter()) {
        assert_eq!(&VaultPayload::opk_id_for_secret(secret), id);
    }
}

#[test]
fn replenish_opks_generates_new_batch_when_low() {
    let mut payload = VaultPayload::default();
    payload.generate_opks();
    // Drain to threshold
    while payload.opk_secrets.len() > OPK_REPLENISH_THRESHOLD {
        payload.opk_secrets.remove(0);
    }
    assert_eq!(payload.opk_secrets.len(), OPK_REPLENISH_THRESHOLD);
    assert!(payload.replenish_opks_if_needed());
    assert_eq!(payload.opk_secrets.len(), OPK_REPLENISH_THRESHOLD + OPK_BATCH_SIZE);
}

#[test]
fn replenish_opks_does_nothing_when_pool_full() {
    let mut payload = VaultPayload::default();
    payload.generate_opks();
    assert!(!payload.replenish_opks_if_needed());
    assert_eq!(payload.opk_secrets.len(), OPK_BATCH_SIZE);
}

// Settings

#[test]
fn app_settings_default_values() {
    let s = AppSettings::default();
    assert_eq!(s.tor_socks_addr, "127.0.0.1:9050");
    assert!(s.nym_gateway.is_none());
    assert!(s.default_auto_delete.is_none());
}

// Messages

#[test]
fn save_and_load_messages_roundtrip() {
    let (mut vault, _) = create_test_vault(b"pass", b"duress");

    let contact_id = [0xAAu8; 32];
    let msgs = vec![
        StoredMessage { counter: 1, content: "hello".into(), from_us: true },
        StoredMessage { counter: 2, content: "world".into(), from_us: false },
    ];
    vault.save_messages(&contact_id, &msgs).unwrap();

    let loaded = vault.load_messages(&contact_id);
    assert_eq!(loaded.len(), 2);
    assert_eq!(loaded[0].content, "hello");
    assert_eq!(loaded[1].content, "world");
    assert!(loaded[0].from_us);
    assert!(!loaded[1].from_us);
}

#[test]
fn load_messages_returns_empty_for_unknown_contact() {
    let (vault, _) = create_test_vault(b"pass", b"duress");
    let loaded = vault.load_messages(&[0xBBu8; 32]);
    assert!(loaded.is_empty());
}

#[test]
fn logs_of_other_contacts_are_kept() {
    let (mut vault, _) = create_test_vault(b"pass", b"duress");
    let one = vec![StoredMessage { counter: 1, content: "one".into(), from_us: true }];
    let two = vec![StoredMessage { counter: 1, content: "two".into(), from_us: true }];
    vault.save_messages(&[1u8; 32], &one).unwrap();
    vault.save_messages(&[2u8; 32], &two).unwrap();
    assert_eq!(vault.load_messages(&[1u8; 32])[0].content, "one");
    assert_eq!(vault.load_messages(&[2u8; 32])[0].content, "two");
    assert_eq!(vault.find_conversation_by_contact(&[2u8; 32]), Some(1));
    assert_eq!(vault.find_conversation_by_contact(&[3u8; 32]), None);
}

// Conversations

#[test]
fn get_or_create_conversation_creates_on_first_call() {
    let (mut vault, _) = create_test_vault(b"pass", b"duress");

    let cid = [0xCCu8; 32];
    assert!(vault.payload.conversations.is_empty());
    let conv = vault.get_or_create_conversation(cid);
    assert_eq!(conv.contact_id, cid);
    assert_eq!(conv.unread_count, 0);
    assert_eq!(vault.payload.conversations.len(), 1);
}

#[test]
fn get_or_create_conversation_reuses_existing() {
    let (mut vault, _) = create_test_vault(b"pass", b"duress");

    let cid = [0xDDu8; 32];
    vault.get_or_create_conversation(cid);
    vault.get_or_create_conversation(cid);
    assert_eq!(vault.payload.conversations.len(), 1);
}

// Paths

#[test]
fn get_vault_path_ends_with_vault_op4() {
    let path = get_vault_path(Some("/home/op4"));
    assert!(std::path::Path::new(&path).ends_with("op4/vault.op4"));
    assert!(std::path::Path::new(&path).is_absolute());
}

#[test]
fn get_vault_path_contains_local_share() {
    let s = get_vault_path(Some("/home/op4"));
    assert!(s.contains(".local/share/op4"));
}

#[test]
fn paths_are_exact() {
    assert_eq!(get_vault_path(Some("/root")), "/root/.local/share/op4/vault.op4");
    assert_eq!(
        get_vault_path_android("/data/user/0/app/files"),
        "/data/user/0/app/files/vault.op4"
    );
    let vault = get_vault_path(Some("/root"));
    assert_eq!(seq_marker_path(&vault), "/root/.local/share/op4/vault.op4.seq");
    assert_eq!(seq_marker_path("/d/vault.op4"), "/d/vault.op4.seq");
    assert_eq!(seq_marker_path(""), ".seq");
}
