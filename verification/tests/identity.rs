use op4_core::crypto::keys::{HybridKemKeypair, HybridSigningKeypair, PublicKeyBundle};
use op4_core::error::IdentityError;
use op4_core::identity::profile::{
    change_allowed, BootstrapCode, ContactCode, KeyChangeGuard, StoredContact, BOOTSTRAP_PREFIX,
};
use op4_core::identity::revocation::{RevocationCertificate, RevocationReason};
use sha2::{Digest, Sha256};

fn make_bundle() -> PublicKeyBundle {
    let kem = HybridKemKeypair::generate();
    let signing = HybridSigningKeypair::generate();
    PublicKeyBundle::from_keypairs(&kem, &signing, [0u8; 32], "test_addr".into())
}

/// The bytes that a serde struct with the bundle's fields has.
fn serialized(b: &PublicKeyBundle) -> Vec<u8> {
    postcard::to_allocvec(&(
        b.version,
        &b.nym_address,
        b.x25519_pub,
        &b.mlkem_ek,
        b.ed25519_vk,
        &b.mldsa_vk,
        b.ratchet_pub,
        &b.opk_pubs,
        &b.opk_ids,
    ))
    .unwrap()
}

// Bootstrap codes

#[test]
fn bootstrap_code_roundtrip() {
    let bundle = make_bundle();
    let code = BootstrapCode::from_bundle(&bundle);
    let encoded = code.encode();
    assert!(encoded.starts_with(BOOTSTRAP_PREFIX));
    let decoded = BootstrapCode::decode(&encoded).unwrap();
    assert_eq!(decoded.nym_address, code.nym_address);
    assert_eq!(decoded.ed25519_vk, code.ed25519_vk);
    assert_eq!(decoded.x25519_pub, code.x25519_pub);
    assert_eq!(decoded.fingerprint_prefix, code.fingerprint_prefix);
}

#[test]
fn bootstrap_code_fingerprint_matches_bundle_sha256() {
    let bundle = make_bundle();
    let code = BootstrapCode::from_bundle(&bundle);
    let mut h = Sha256::new();
    h.update(bundle.x25519_pub);
    h.update(&bundle.mlkem_ek);
    h.update(bundle.ed25519_vk);
    h.update(&bundle.mldsa_vk);
    h.update(bundle.ratchet_pub);
    let expected: [u8; 32] = h.finalize().into();
    assert_eq!(code.fingerprint_prefix, expected);
}

#[test]
fn bootstrap_code_wrong_prefix_fails() {
    let bundle = make_bundle();
    let encoded = BootstrapCode::from_bundle(&bundle).encode();
    // Strip the real prefix and add a wrong one
    let payload = &encoded[BOOTSTRAP_PREFIX.len()..];
    let wrong = format!("op4x:{payload}");
    assert!(BootstrapCode::decode(&wrong).is_err());
}

#[test]
fn bootstrap_code_garbage_base58_fails() {
    let garbled = format!("{BOOTSTRAP_PREFIX}!!!invalid!!!");
    assert!(BootstrapCode::decode(&garbled).is_err());
}

#[test]
fn is_bootstrap_recognises_prefix() {
    let bundle = make_bundle();
    let encoded = BootstrapCode::from_bundle(&bundle).encode();
    assert!(BootstrapCode::is_bootstrap(&encoded));
    assert!(!BootstrapCode::is_bootstrap("op4x:abc"));
    assert!(!BootstrapCode::is_bootstrap(""));
}

#[test]
fn bootstrap_code_errors_tell_what_is_wrong() {
    assert!(matches!(BootstrapCode::decode("abc"), Err(IdentityError::InvalidFormat)));
    assert!(matches!(BootstrapCode::decode("op4b2:0OIl"), Err(IdentityError::InvalidBase58)));
    assert!(matches!(BootstrapCode::decode("op4b2:2g"), Err(IdentityError::InvalidFormat)));
}

#[test]
fn bootstrap_code_is_base58_of_its_record() {
    let code = BootstrapCode {
        nym_address: "peer.onion:14101".into(),
        ed25519_vk: [1u8; 32],
        x25519_pub: [2u8; 32],
        fingerprint_prefix: [3u8; 32],
    };
    let record =
        postcard::to_allocvec(&("peer.onion:14101", [1u8; 32], [2u8; 32], [3u8; 32])).unwrap();
    assert_eq!(code.encode(), format!("op4b2:{}", bs58::encode(record).into_string()));
}

// Contact codes

#[test]
fn contact_code_roundtrip() {
    let bundle = make_bundle();
    let encoded = ContactCode(bundle.clone()).encode();
    let decoded = ContactCode::decode(&encoded).unwrap();
    assert_eq!(decoded.0.version, bundle.version);
    assert_eq!(decoded.0.nym_address, bundle.nym_address);
    assert_eq!(decoded.0.x25519_pub, bundle.x25519_pub);
    assert_eq!(decoded.0.ed25519_vk, bundle.ed25519_vk);
}

#[test]
fn contact_code_no_prefix() {
    // A contact code is plain base58 with no "op4..." prefix
    let bundle = make_bundle();
    let encoded = ContactCode(bundle).encode();
    assert!(!BootstrapCode::is_bootstrap(&encoded));
}

#[test]
fn contact_code_garbage_fails() {
    // Invalid base58 characters
    assert!(ContactCode::decode("!!!not-base58!!!").is_err());
}

#[test]
fn contact_code_bundle_returns_inner() {
    let bundle = make_bundle();
    let cc = ContactCode(bundle.clone());
    assert_eq!(cc.bundle().nym_address, bundle.nym_address);
    assert_eq!(cc.bundle().x25519_pub, bundle.x25519_pub);
}

#[test]
fn contact_code_fingerprint_matches_bundle_fingerprint() {
    let bundle = make_bundle();
    let expected = bundle.fingerprint();
    let cc = ContactCode(bundle);
    assert_eq!(cc.fingerprint(), expected);
}

#[test]
fn contact_code_is_base58_of_the_bundle() {
    let bundle = make_bundle();
    assert_eq!(bundle.to_bytes(), serialized(&bundle));
    let expected = bs58::encode(serialized(&bundle)).into_string();
    assert_eq!(ContactCode(bundle).encode(), expected);
    assert!(matches!(ContactCode::decode("!!"), Err(IdentityError::InvalidBase58)));
    assert!(matches!(ContactCode::decode("2g"), Err(IdentityError::InvalidFormat)));
}

// Stored contacts

#[test]
fn stored_contact_starts_unverified_with_correct_seq() {
    let bundle = make_bundle();
    let c = StoredContact::new(bundle, "Alice".into(), 7);
    assert!(!c.verified, "new contacts must start unverified");
    assert_eq!(c.added_seq, 7);
    assert_eq!(c.last_key_seq, 0);
    assert_eq!(c.display_name, "Alice");
}

#[test]
fn stored_contact_id_is_sha256_of_postcard_bundle() {
    let bundle = make_bundle();
    let bytes = serialized(&bundle);
    let expected: [u8; 32] = Sha256::digest(&bytes).into();
    let c = StoredContact::new(bundle, "Bob".into(), 0);
    assert_eq!(c.id, expected);
}

#[test]
fn apply_opk_refresh_replaces_pool() {
    let mut c = StoredContact::new(make_bundle(), "Eve".into(), 0);
    assert!(c.bundle.opk_pubs.is_empty());

    let pubs = vec![[0xAA; 32], [0xBB; 32], [0xCC; 32]];
    let ids = vec![[1, 0, 0, 0], [2, 0, 0, 0], [3, 0, 0, 0]];
    let n = c.apply_opk_refresh(pubs.clone(), ids.clone());
    assert_eq!(n, 3);
    assert_eq!(c.bundle.opk_pubs, pubs);
    assert_eq!(c.bundle.opk_ids, ids);
}

#[test]
fn apply_opk_refresh_mismatched_lengths_takes_min() {
    let mut c = StoredContact::new(make_bundle(), "Eve".into(), 0);
    let pubs = vec![[0xAA; 32], [0xBB; 32]];
    let ids = vec![[1, 0, 0, 0]]; // only 1 id
    let n = c.apply_opk_refresh(pubs, ids);
    assert_eq!(n, 1);
    assert_eq!(c.bundle.opk_pubs.len(), 1);
    assert_eq!(c.bundle.opk_ids.len(), 1);
}

#[test]
fn stored_contact_ids_differ_for_different_bundles() {
    let c1 = StoredContact::new(make_bundle(), "A".into(), 0);
    let c2 = StoredContact::new(make_bundle(), "B".into(), 0);
    assert_ne!(c1.id, c2.id);
}

#[test]
fn contact_codes_are_no_bootstrap_codes() {
    let code = ContactCode(make_bundle()).encode();
    assert!(!BootstrapCode::is_bootstrap(&code));
    assert!(ContactCode::decode(&code).is_ok());
    assert!(matches!(
        ContactCode::decode("!!!not-base58!!!"),
        Err(IdentityError::InvalidBase58)
    ));
    assert!(matches!(
        BootstrapCode::decode("op4b2:!!!not-base58!!!"),
        Err(IdentityError::InvalidBase58)
    ));
    assert!(matches!(BootstrapCode::decode(&code), Err(IdentityError::InvalidFormat)));
}

// Key changes

#[test]
fn key_change_guard_allows_first_change() {
    let mut g = KeyChangeGuard::new();
    assert!(g.can_change_key());
    assert!(g.record_change().is_ok());
}

#[test]
fn key_change_guard_blocks_rapid_second_change() {
    let mut g = KeyChangeGuard::new();
    g.record_change().unwrap();
    assert!(!g.can_change_key());
    let result = g.record_change();
    assert!(matches!(result, Err(IdentityError::KeyChangeTooFrequent)));
}

#[test]
fn key_changes_are_recorded_at_their_moment() {
    let long_ago = std::time::Instant::now();
    let mut g = KeyChangeGuard::new();
    assert!(g.record_change_at(None, long_ago).is_ok());
    assert!(!g.can_change_key());
    assert!(matches!(
        g.record_change_at(Some(59), long_ago),
        Err(IdentityError::KeyChangeTooFrequent)
    ));
    assert!(g.record_change_at(Some(u64::MAX), std::time::Instant::now()).is_ok());
    assert!(!g.can_change_key());
}

#[test]
fn key_change_guard_default_impl() {
    let g = KeyChangeGuard::default();
    assert!(g.can_change_key());
}

#[test]
fn keys_may_change_once_a_day() {
    assert!(change_allowed(None));
    assert!(!change_allowed(Some(86399)));
    assert!(change_allowed(Some(86400)));
}

// Revocations

#[test]
fn revocations_verify_under_the_revoked_keys_only() {
    let kem = HybridKemKeypair::generate();
    let signing = HybridSigningKeypair::generate();
    let bundle = PublicKeyBundle::from_keypairs(&kem, &signing, [0u8; 32], "addr".into());
    let cert = RevocationCertificate::create(
        &signing,
        bundle.fingerprint(),
        bundle.x25519_pub,
        RevocationReason::Rotation,
        3,
        Some(make_bundle()),
    );
    assert!(cert.verify(&bundle).is_ok());
    assert!(matches!(
        cert.verify(&make_bundle()),
        Err(IdentityError::SignatureVerification)
    ));
    let mut altered = cert.clone();
    altered.sequence = 4;
    assert!(altered.verify(&bundle).is_err());
    let mut altered = cert.clone();
    altered.reason = RevocationReason::Retirement;
    assert!(altered.verify(&bundle).is_err());
    let mut altered = cert.clone();
    altered.version = 2;
    assert!(matches!(
        altered.verify(&bundle),
        Err(IdentityError::SignatureVerification)
    ));
    let mut altered = cert.clone();
    altered.revoked_fingerprint.push('0');
    assert!(altered.verify(&bundle).is_err());
    let mut altered = cert.clone();
    altered.revoked_x25519_pub[0] ^= 1;
    assert!(altered.verify(&bundle).is_err());
    let mut altered = cert;
    altered.new_bundle = None;
    assert!(altered.verify(&bundle).is_err());
}

#[test]
fn revocations_read_back() {
    let kem = HybridKemKeypair::generate();
    let signing = HybridSigningKeypair::generate();
    let bundle = PublicKeyBundle::from_keypairs(&kem, &signing, [0u8; 32], "addr".into());
    let cert = RevocationCertificate::create(
        &signing,
        bundle.fingerprint(),
        bundle.x25519_pub,
        RevocationReason::Compromised,
        9,
        None,
    );
    let back = RevocationCertificate::from_bytes(&cert.to_bytes()).unwrap();
    assert_eq!(back.version, 1);
    assert_eq!(back.revoked_fingerprint, cert.revoked_fingerprint);
    assert_eq!(back.reason, RevocationReason::Compromised);
    assert_eq!(back.sequence, 9);
    assert!(back.new_bundle.is_none());
    assert!(back.verify(&bundle).is_ok());
    assert!(RevocationCertificate::from_bytes(&[1, 2, 3]).is_none());
}
