use op4_core::crypto::handshake::{
    perform_handshake_alice, perform_handshake_bob, perform_handshake_bob_with_opks,
    HandshakeInitMessage,
};
use op4_core::crypto::hmac_auth::{compute_message_mac, verify_message_mac};
use op4_core::crypto::keys::{
    hybrid_kem_decapsulate, hybrid_kem_encapsulate, hybrid_sign, hybrid_verify, HybridKemKeypair,
    HybridSigningKeypair, PublicKeyBundle,
};
use op4_core::crypto::primitives::{
    aead_decrypt, aead_encrypt, argon2id_derive, hkdf_expand, hmac_sign, hmac_verify,
    Argon2Params, MacKey, SymKey,
};
use op4_core::crypto::ratchet::{
    kdf_ck, kdf_rk, split_message_key, RatchetState, MAX_SKIP, SKIPPED_KEY_MAX_AGE,
};
use op4_core::crypto::skipped::{ChainKey, MessageKey};
use op4_core::error::CryptoError;
use rand::rngs::OsRng;
use x25519_dalek::{PublicKey as X25519PublicKey, StaticSecret};

// Message tags

fn key() -> MacKey {
    MacKey([0x42u8; 32])
}

fn conv_id() -> [u8; 32] {
    [0x01u8; 32]
}

#[test]
fn compute_verify_correct() {
    let mac = compute_message_mac(&key(), &conv_id(), 0, b"ciphertext");
    assert!(verify_message_mac(&key(), &conv_id(), 0, b"ciphertext", &mac));
}

#[test]
fn verify_wrong_key_fails() {
    let mac = compute_message_mac(&key(), &conv_id(), 0, b"ciphertext");
    let other_key = MacKey([0x99u8; 32]);
    assert!(!verify_message_mac(&other_key, &conv_id(), 0, b"ciphertext", &mac));
}

#[test]
fn verify_wrong_counter_fails() {
    let mac = compute_message_mac(&key(), &conv_id(), 0, b"ciphertext");
    assert!(!verify_message_mac(&key(), &conv_id(), 1, b"ciphertext", &mac));
}

#[test]
fn verify_wrong_ciphertext_fails() {
    let mac = compute_message_mac(&key(), &conv_id(), 0, b"ciphertext");
    assert!(!verify_message_mac(&key(), &conv_id(), 0, b"different", &mac));
}

#[test]
fn verify_wrong_conv_id_fails() {
    let mac = compute_message_mac(&key(), &conv_id(), 0, b"ciphertext");
    let other_id = [0x02u8; 32];
    assert!(!verify_message_mac(&key(), &other_id, 0, b"ciphertext", &mac));
}

#[test]
fn tag_is_32_bytes() {
    let mac = compute_message_mac(&key(), &conv_id(), 0, b"payload");
    assert_eq!(mac.tag.len(), 32);
}

// Primitives

#[test]
fn aead_roundtrip() {
    let key = SymKey([0x42u8; 32]);
    let plaintext = b"hello op4";
    let aad = b"context";
    let ct = aead_encrypt(&key, plaintext, aad).unwrap();
    let pt = aead_decrypt(&key, &ct, aad).unwrap();
    assert_eq!(pt, plaintext);
}

#[test]
fn aead_wrong_aad_fails() {
    let key = SymKey([0x42u8; 32]);
    let ct = aead_encrypt(&key, b"msg", b"aad").unwrap();
    assert!(aead_decrypt(&key, &ct, b"wrong").is_err());
}

#[test]
fn hmac_sign_verify() {
    let key = MacKey([0x11u8; 32]);
    let tag = hmac_sign(&key, b"data");
    assert!(hmac_verify(&key, b"data", &tag));
    assert!(!hmac_verify(&key, b"other", &tag));
}

#[test]
fn hkdf_deterministic() {
    let mut out1 = [0u8; 32];
    let mut out2 = [0u8; 32];
    hkdf_expand(b"ikm", Some(b"salt"), b"info", &mut out1).unwrap();
    hkdf_expand(b"ikm", Some(b"salt"), b"info", &mut out2).unwrap();
    assert_eq!(out1, out2);
}

#[test]
fn argon2id_derives_key() {
    let params = Argon2Params { m_cost: 1024, t_cost: 1, p_cost: 1 };
    let key = argon2id_derive(b"passphrase", &[0u8; 16], &params).unwrap();
    assert_eq!(key.0.len(), 32);
    // Different passphrase → different key
    let key2 = argon2id_derive(b"other", &[0u8; 16], &params).unwrap();
    assert_ne!(key.0, key2.0);
}

#[test]
fn ciphertexts_carry_nonce_and_tag() {
    let key = SymKey([7u8; 32]);
    let ct = aead_encrypt(&key, b"hello", b"").unwrap();
    assert_eq!(ct.len(), 12 + 5 + 16);
    let again = aead_encrypt(&key, b"hello", b"").unwrap();
    assert_ne!(ct, again);
    assert!(matches!(aead_decrypt(&key, &ct[..27], b""), Err(CryptoError::AeadDecrypt)));
    assert!(matches!(aead_decrypt(&SymKey([8u8; 32]), &ct, b""), Err(CryptoError::AeadDecrypt)));
}

#[test]
fn hmac_tag_of_a_known_input() {
    let mut key = [0u8; 32];
    for b in key.iter_mut().take(20) {
        *b = 0x0b;
    }
    let tag = hmac_sign(&MacKey(key), b"Hi There");
    let expected = [
        0xb0, 0x34, 0x4c, 0x61, 0xd8, 0xdb, 0x38, 0x53, 0x5c, 0xa8, 0xaf, 0xce, 0xaf, 0x0b, 0xf1,
        0x2b, 0x88, 0x1d, 0xc2, 0x00, 0xc9, 0x83, 0x3d, 0xa7, 0x26, 0xe9, 0x37, 0x6c, 0x2e, 0x32,
        0xcf, 0xf7,
    ];
    assert_eq!(tag, expected);
}

#[test]
fn hkdf_output_of_a_known_input() {
    let ikm = [0x0bu8; 22];
    let salt: Vec<u8> = (0u8..13).collect();
    let info: Vec<u8> = (0xf0u8..0xfa).collect();
    let mut out = [0u8; 42];
    hkdf_expand(&ikm, Some(&salt), &info, &mut out).unwrap();
    let expected = [
        0x3c, 0xb2, 0x5f, 0x25, 0xfa, 0xac, 0xd5, 0x7a, 0x90, 0x43, 0x4f, 0x64, 0xd0, 0x36, 0x2f,
        0x2a, 0x2d, 0x2d, 0x0a, 0x90, 0xcf, 0x1a, 0x5a, 0x4c, 0x5d, 0xb0, 0x2d, 0x56, 0xec, 0xc4,
        0xc5, 0xbf, 0x34, 0x00, 0x72, 0x08, 0xd5, 0xb8, 0x87, 0x18, 0x58, 0x65,
    ];
    assert_eq!(out, expected);
}

#[test]
fn hkdf_output_is_bounded() {
    let mut longest = vec![0u8; 255 * 32];
    assert!(hkdf_expand(b"ikm", None, b"info", &mut longest).is_ok());
    let mut longer = vec![0u8; 255 * 32 + 1];
    assert!(matches!(
        hkdf_expand(b"ikm", None, b"info", &mut longer),
        Err(CryptoError::HkdfExpand)
    ));
}

#[test]
fn argon2_rejects_bad_costs_and_salts() {
    let no_memory = Argon2Params { m_cost: 0, t_cost: 1, p_cost: 1 };
    assert!(matches!(
        argon2id_derive(b"pass", &[0u8; 16], &no_memory),
        Err(CryptoError::Argon2Params)
    ));
    let fine = Argon2Params { m_cost: 1024, t_cost: 1, p_cost: 1 };
    assert!(matches!(
        argon2id_derive(b"pass", &[0u8; 4], &fine),
        Err(CryptoError::Argon2Hash)
    ));
}

#[test]
fn argon2_defaults_are_64_mib_and_three_passes() {
    let p = Argon2Params::default();
    assert_eq!((p.m_cost, p.t_cost, p.p_cost), (65536, 3, 1));
}

// Keys

#[test]
fn key_bytes_round_trip() {
    let kem = HybridKemKeypair::generate();
    let back = HybridKemKeypair::from_bytes(&kem.to_bytes()).unwrap();
    assert_eq!(back.x25519_secret, kem.x25519_secret);
    assert_eq!(back.x25519_public, kem.x25519_public);
    assert_eq!(back.mlkem_dk, kem.mlkem_dk);
    assert_eq!(back.mlkem_ek, kem.mlkem_ek);
    assert_eq!(kem.to_bytes().len(), 32 + 2400);

    let signing = HybridSigningKeypair::generate();
    let back = HybridSigningKeypair::from_bytes(&signing.to_bytes()).unwrap();
    assert_eq!(back.ed25519_sk, signing.ed25519_sk);
    assert_eq!(back.ed25519_vk, signing.ed25519_vk);
    assert_eq!(back.mldsa_vk, signing.mldsa_vk);
    assert!(matches!(HybridKemKeypair::from_bytes(&[0u8; 10]), Err(CryptoError::KeyParse)));
    assert!(matches!(HybridSigningKeypair::from_bytes(&[0u8; 10]), Err(CryptoError::KeyParse)));
}

#[test]
fn x25519_public_key_belongs_to_the_secret() {
    let kem = HybridKemKeypair::generate();
    let expected = X25519PublicKey::from(&StaticSecret::from(kem.x25519_secret)).to_bytes();
    assert_eq!(kem.x25519_public, expected);
}

#[test]
fn hybrid_signatures_need_both_halves() {
    let kem = HybridKemKeypair::generate();
    let signing = HybridSigningKeypair::generate();
    let bundle = PublicKeyBundle::from_keypairs(&kem, &signing, [0u8; 32], "addr".into());
    let sig = hybrid_sign(&signing, b"message");
    assert!(hybrid_verify(&bundle, b"message", &sig).is_ok());
    assert!(hybrid_verify(&bundle, b"other", &sig).is_err());
    let mut bad = sig.clone();
    bad.ed25519[0] ^= 1;
    assert!(matches!(hybrid_verify(&bundle, b"message", &bad), Err(CryptoError::SigVerify)));
    let mut bad = sig.clone();
    bad.mldsa[0] ^= 1;
    assert!(matches!(hybrid_verify(&bundle, b"message", &bad), Err(CryptoError::SigVerify)));
    let mut short = sig;
    short.ed25519.pop();
    assert!(hybrid_verify(&bundle, b"message", &short).is_err());
}

#[test]
fn hybrid_encapsulation_agrees() {
    let alice = HybridKemKeypair::generate();
    let bob = HybridKemKeypair::generate();
    let bob_signing = HybridSigningKeypair::generate();
    let bundle = PublicKeyBundle::from_keypairs(&bob, &bob_signing, [0u8; 32], "bob".into());
    let (ct, ours) = hybrid_kem_encapsulate(&bundle, &alice.x25519_secret).unwrap();
    let theirs = hybrid_kem_decapsulate(&bob, &alice.x25519_public, &ct).unwrap();
    assert_eq!(ours.0, theirs.0);
    let mut short = ct;
    short.mlkem_ct.pop();
    assert!(matches!(
        hybrid_kem_decapsulate(&bob, &alice.x25519_public, &short),
        Err(CryptoError::KeyParse)
    ));
    let mut odd = bundle.clone();
    odd.mlkem_ek.pop();
    assert!(matches!(
        hybrid_kem_encapsulate(&odd, &alice.x25519_secret),
        Err(CryptoError::KeyParse)
    ));
}

#[test]
fn fingerprints_are_words_of_hex() {
    let kem = HybridKemKeypair::generate();
    let signing = HybridSigningKeypair::generate();
    let a = PublicKeyBundle::from_keypairs(&kem, &signing, [0u8; 32], "addr".into());
    let b = PublicKeyBundle::from_keypairs(&kem, &signing, [1u8; 32], "addr".into());
    assert_eq!(a.fingerprint(), a.clone().fingerprint());
    assert!(!a.fingerprint().is_empty());
    assert_ne!(a.digest(), b.digest());
}

// Handshake

fn make_bob() -> (HybridKemKeypair, HybridSigningKeypair, [u8; 32], PublicKeyBundle) {
    let kem = HybridKemKeypair::generate();
    let signing = HybridSigningKeypair::generate();
    let ratchet_secret = StaticSecret::random_from_rng(OsRng);
    let ratchet_pub = X25519PublicKey::from(&ratchet_secret).to_bytes();
    let bundle = PublicKeyBundle::from_keypairs(&kem, &signing, ratchet_pub, "bob_addr".into());
    (kem, signing, ratchet_secret.to_bytes(), bundle)
}

#[test]
fn session_keys_match_after_handshake() {
    let (bob_kem, _bob_signing, bob_ratchet_secret, bob_bundle) = make_bob();
    let alice_kem = HybridKemKeypair::generate();
    let alice_signing = HybridSigningKeypair::generate();

    let (msg, alice_sk) = perform_handshake_alice(
        &alice_kem,
        &alice_signing,
        [0u8; 32],
        "alice_addr".into(),
        &bob_bundle,
        b"hello bob",
    )
    .unwrap();

    let (plaintext, bob_sk) = perform_handshake_bob(&bob_kem, &bob_ratchet_secret, &msg).unwrap();

    assert_eq!(alice_sk.0, bob_sk.0, "session keys must match");
    assert_eq!(plaintext, b"hello bob", "initial plaintext must survive E2EE");
}

#[test]
fn alice_identity_embedded_in_message() {
    let (_bob_kem, _bob_signing, _bob_ratchet_secret, bob_bundle) = make_bob();
    let alice_kem = HybridKemKeypair::generate();
    let alice_signing = HybridSigningKeypair::generate();

    let (msg, _) = perform_handshake_alice(
        &alice_kem,
        &alice_signing,
        [0u8; 32],
        "alice_addr".into(),
        &bob_bundle,
        b"hi",
    )
    .unwrap();

    // Alice's X25519 public key must be in the message
    assert_eq!(msg.alice_identity.x25519_pub, alice_kem.x25519_public);
    assert_eq!(msg.alice_identity.nym_address, "alice_addr");
}

#[test]
fn tampered_mac_rejected() {
    let (bob_kem, _bob_signing, bob_ratchet_secret, bob_bundle) = make_bob();
    let alice_kem = HybridKemKeypair::generate();
    let alice_signing = HybridSigningKeypair::generate();

    let (mut msg, _) = perform_handshake_alice(
        &alice_kem,
        &alice_signing,
        [0u8; 32],
        "alice_addr".into(),
        &bob_bundle,
        b"hi",
    )
    .unwrap();

    msg.mac[0] ^= 0xff; // flip a bit in the HMAC tag
    assert!(
        perform_handshake_bob(&bob_kem, &bob_ratchet_secret, &msg).is_err(),
        "tampered MAC must be rejected"
    );
}

#[test]
fn tampered_ciphertext_rejected() {
    let (bob_kem, _bob_signing, bob_ratchet_secret, bob_bundle) = make_bob();
    let alice_kem = HybridKemKeypair::generate();
    let alice_signing = HybridSigningKeypair::generate();

    let (mut msg, _) = perform_handshake_alice(
        &alice_kem,
        &alice_signing,
        [0u8; 32],
        "alice_addr".into(),
        &bob_bundle,
        b"secret",
    )
    .unwrap();

    // Corrupt the encrypted payload
    if let Some(b) = msg.initial_ct.first_mut() {
        *b ^= 0xff;
    }
    // Either the MAC check or AEAD decryption must reject this
    assert!(perform_handshake_bob(&bob_kem, &bob_ratchet_secret, &msg).is_err());
}

#[test]
fn handshake_to_ratchet_full_flow() {
    // 1. Generate identities
    let (bob_kem, _bob_signing, bob_ratchet_secret, bob_bundle) = make_bob();
    let alice_kem = HybridKemKeypair::generate();
    let alice_signing = HybridSigningKeypair::generate();
    let alice_ratchet_pub =
        X25519PublicKey::from(&StaticSecret::from(bob_ratchet_secret)).to_bytes();

    // 2. Alice initiates handshake
    let (hs_msg, alice_sk) = perform_handshake_alice(
        &alice_kem,
        &alice_signing,
        alice_ratchet_pub,
        "alice_addr".into(),
        &bob_bundle,
        b"hello from alice",
    )
    .unwrap();

    // 3. Bob completes handshake
    let (initial_plaintext, bob_sk) =
        perform_handshake_bob(&bob_kem, &bob_ratchet_secret, &hs_msg).unwrap();
    assert_eq!(initial_plaintext, b"hello from alice");
    assert_eq!(alice_sk.0, bob_sk.0);

    // 4. Initialize Double Ratchets
    let bob_ratchet_pub_key =
        X25519PublicKey::from(&StaticSecret::from(bob_ratchet_secret)).to_bytes();
    let mut alice_ratchet = RatchetState::init_alice(alice_sk.0, bob_ratchet_pub_key).unwrap();
    let mut bob_ratchet = RatchetState::init_bob(bob_sk.0, bob_ratchet_secret);

    // 5. Alice sends multiple messages to Bob
    for i in 0..5 {
        let msg = format!("alice msg {i}");
        let (header, ct, _mac_key) = alice_ratchet.ratchet_encrypt(msg.as_bytes()).unwrap();
        let (pt, _mk) = bob_ratchet.ratchet_decrypt(&header, &ct).unwrap();
        assert_eq!(pt, msg.as_bytes());
    }

    // 6. Bob replies (triggers DH ratchet step)
    for i in 0..3 {
        let msg = format!("bob reply {i}");
        let (header, ct, _mac_key) = bob_ratchet.ratchet_encrypt(msg.as_bytes()).unwrap();
        let (pt, _mk) = alice_ratchet.ratchet_decrypt(&header, &ct).unwrap();
        assert_eq!(pt, msg.as_bytes());
    }

    // 7. Interleaved exchange (multiple ratchet steps)
    let (h, c, _) = alice_ratchet.ratchet_encrypt(b"ping").unwrap();
    let (pt, _) = bob_ratchet.ratchet_decrypt(&h, &c).unwrap();
    assert_eq!(pt, b"ping");

    let (h, c, _) = bob_ratchet.ratchet_encrypt(b"pong").unwrap();
    let (pt, _) = alice_ratchet.ratchet_decrypt(&h, &c).unwrap();
    assert_eq!(pt, b"pong");

    let (h, c, _) = alice_ratchet.ratchet_encrypt(b"final").unwrap();
    let (pt, _) = bob_ratchet.ratchet_decrypt(&h, &c).unwrap();
    assert_eq!(pt, b"final");

    // 8. Persistence roundtrip
    let key = SymKey([0xABu8; 32]);
    let alice_ct = alice_ratchet.to_encrypted_bytes(&key).unwrap();
    let mut alice_restored = RatchetState::from_encrypted_bytes(&key, &alice_ct).unwrap();

    // The restored ratchet must be able to decrypt a new message from Bob.
    let (h, c, _) = bob_ratchet.ratchet_encrypt(b"after restore").unwrap();
    let (pt, _) =
        alice_restored.ratchet_decrypt(&h, &c).expect("restored ratchet must decrypt");
    assert_eq!(pt, b"after restore");
}

#[test]
fn handshake_messages_read_back() {
    let (bob_kem, _bob_signing, bob_ratchet_secret, bob_bundle) = make_bob();
    let alice_kem = HybridKemKeypair::generate();
    let alice_signing = HybridSigningKeypair::generate();
    let (msg, sk) = perform_handshake_alice(
        &alice_kem,
        &alice_signing,
        [3u8; 32],
        "alice_addr".into(),
        &bob_bundle,
        b"hi",
    )
    .unwrap();
    let back = HandshakeInitMessage::from_bytes(&msg.to_bytes()).unwrap();
    let (pt, bob_sk) = perform_handshake_bob(&bob_kem, &bob_ratchet_secret, &back).unwrap();
    assert_eq!(pt, b"hi");
    assert_eq!(bob_sk.0, sk.0);
    assert!(HandshakeInitMessage::from_bytes(b"garbage").is_none());
}

#[test]
fn handshake_uses_a_one_time_key() {
    let kem = HybridKemKeypair::generate();
    let signing = HybridSigningKeypair::generate();
    let ratchet_secret = StaticSecret::random_from_rng(OsRng);
    let opk_secret = StaticSecret::random_from_rng(OsRng);
    let opk_pub = X25519PublicKey::from(&opk_secret).to_bytes();
    let opk_id = op4_core::crypto::handshake::opk_id_of(&opk_secret.to_bytes());
    let bundle = PublicKeyBundle::from_keypairs_with_opks(
        &kem,
        &signing,
        X25519PublicKey::from(&ratchet_secret).to_bytes(),
        "bob".into(),
        vec![opk_pub],
        vec![opk_id],
    );
    let alice_kem = HybridKemKeypair::generate();
    let alice_signing = HybridSigningKeypair::generate();
    let (msg, sk) = perform_handshake_alice(
        &alice_kem,
        &alice_signing,
        [0u8; 32],
        "alice".into(),
        &bundle,
        b"with a one-time key",
    )
    .unwrap();
    let secrets = vec![[9u8; 32], opk_secret.to_bytes()];
    let (pt, bob_sk, used) =
        perform_handshake_bob_with_opks(&kem, &ratchet_secret.to_bytes(), &secrets, &msg).unwrap();
    assert_eq!(pt, b"with a one-time key");
    assert_eq!(bob_sk.0, sk.0);
    assert_eq!(used, Some(opk_id));
    let none: Vec<[u8; 32]> = Vec::new();
    assert!(
        perform_handshake_bob_with_opks(&kem, &ratchet_secret.to_bytes(), &none, &msg).is_err()
    );
}

// Double Ratchet

fn make_pair() -> (RatchetState, RatchetState) {
    let root_key = [0x42u8; 32];
    let bob_ratchet_secret = StaticSecret::random_from_rng(OsRng);
    let bob_ratchet_pub = X25519PublicKey::from(&bob_ratchet_secret).to_bytes();
    let alice = RatchetState::init_alice(root_key, bob_ratchet_pub).unwrap();
    let bob = RatchetState::init_bob(root_key, bob_ratchet_secret.to_bytes());
    (alice, bob)
}

#[test]
fn ratchet_basic_roundtrip() {
    let (mut alice, mut bob) = make_pair();
    let msg = b"hello from alice";
    let (hdr, ct, _mac_key) = alice.ratchet_encrypt(msg).unwrap();
    let (pt, _mac_key) = bob.ratchet_decrypt(&hdr, &ct).unwrap();
    assert_eq!(pt, msg);
}

#[test]
fn ratchet_forward_secrecy_multiple_messages() {
    let (mut alice, mut bob) = make_pair();
    for i in 0u8..10 {
        let msg = vec![i; 16];
        let (hdr, ct, _) = alice.ratchet_encrypt(&msg).unwrap();
        let (pt, _) = bob.ratchet_decrypt(&hdr, &ct).unwrap();
        assert_eq!(pt, msg);
    }
}

#[test]
fn ratchet_counters_are_monotonic() {
    let (mut alice, _) = make_pair();
    let (hdr1, _, _) = alice.ratchet_encrypt(b"a").unwrap();
    let (hdr2, _, _) = alice.ratchet_encrypt(b"b").unwrap();
    assert!(hdr2.n > hdr1.n);
}

#[test]
fn bidirectional_messaging() {
    // Alice sends, Bob replies, Alice decrypts reply
    let (mut alice, mut bob) = make_pair();

    let (hdr_a, ct_a, _) = alice.ratchet_encrypt(b"alice-to-bob").unwrap();
    let (pt_a, _) = bob.ratchet_decrypt(&hdr_a, &ct_a).unwrap();
    assert_eq!(pt_a, b"alice-to-bob");

    let (hdr_b, ct_b, _) = bob.ratchet_encrypt(b"bob-to-alice").unwrap();
    let (pt_b, _) = alice.ratchet_decrypt(&hdr_b, &ct_b).unwrap();
    assert_eq!(pt_b, b"bob-to-alice");
}

#[test]
fn to_encrypted_bytes_roundtrip() {
    let (mut alice, _) = make_pair();
    // Send a message so the state is non-trivial (counters advanced)
    let _ = alice.ratchet_encrypt(b"test").unwrap();

    let key = SymKey([0xddu8; 32]);
    let ct = alice.to_encrypted_bytes(&key).unwrap();
    let alice2 = RatchetState::from_encrypted_bytes(&key, &ct).unwrap();

    // Both states should produce identical serializable mirrors
    let s1 = alice.to_serializable();
    let s2 = alice2.to_serializable();
    assert_eq!(s1.dhs, s2.dhs);
    assert_eq!(s1.rk, s2.rk);
    assert_eq!(s1.ns, s2.ns);
    assert_eq!(s1.nr, s2.nr);
    assert_eq!(s1.pn, s2.pn);
}

#[test]
fn to_encrypted_bytes_wrong_key_fails() {
    let (alice, _) = make_pair();
    let key = SymKey([0x11u8; 32]);
    let ct = alice.to_encrypted_bytes(&key).unwrap();

    let wrong_key = SymKey([0x22u8; 32]);
    assert!(RatchetState::from_encrypted_bytes(&wrong_key, &ct).is_err());
}

#[test]
fn split_message_key_deterministic() {
    let mk = MessageKey([0x55u8; 32]);
    let (aead1, mac1) = split_message_key(&mk).unwrap();
    let (aead2, mac2) = split_message_key(&mk).unwrap();
    assert_eq!(aead1.0, aead2.0);
    assert_eq!(mac1, mac2);
    // AEAD key and MAC key must be different
    assert_ne!(aead1.0, mac1);
}

#[test]
fn out_of_order_messages_decrypt_correctly() {
    let (mut alice, mut bob) = make_pair();

    // Alice sends 3 messages
    let (hdr0, ct0, _) = alice.ratchet_encrypt(b"msg-0").unwrap();
    let (hdr1, ct1, _) = alice.ratchet_encrypt(b"msg-1").unwrap();
    let (hdr2, ct2, _) = alice.ratchet_encrypt(b"msg-2").unwrap();

    // Bob decrypts in reverse order (2, 0, 1)
    let (pt2, _) = bob.ratchet_decrypt(&hdr2, &ct2).unwrap();
    assert_eq!(pt2, b"msg-2");

    let (pt0, _) = bob.ratchet_decrypt(&hdr0, &ct0).unwrap();
    assert_eq!(pt0, b"msg-0");

    let (pt1, _) = bob.ratchet_decrypt(&hdr1, &ct1).unwrap();
    assert_eq!(pt1, b"msg-1");
}

#[test]
fn batches_arrive_in_any_order() {
    let n: usize = MAX_SKIP as usize + 1;
    let backwards: Vec<usize> = (0..n).rev().collect();
    let by_sevens: Vec<usize> = (0..n).map(|i| (i * 7 + 3) % n).collect();
    let in_order: Vec<usize> = (0..n).collect();
    for order in [backwards, by_sevens, in_order] {
        let (mut alice, mut bob) = make_pair();
        let sent: Vec<_> = (0..n)
            .map(|i| alice.ratchet_encrypt(format!("message {i}").as_bytes()).unwrap())
            .collect();
        for i in order {
            let (pt, mac_key) = bob.ratchet_decrypt(&sent[i].0, &sent[i].1).unwrap();
            assert_eq!(pt, format!("message {i}").into_bytes());
            assert_eq!(mac_key, sent[i].2);
        }
        assert_eq!(bob.total_recv, n as u64);
        assert_eq!(bob.mkskipped.len(), 0);
    }
}

#[test]
fn nonces_are_drawn_anew() {
    let (mut alice, _) = make_pair();
    let (_, first, _) = alice.ratchet_encrypt(b"same").unwrap();
    let (_, second, _) = alice.ratchet_encrypt(b"same").unwrap();
    assert_ne!(first[..12], second[..12]);
    let key = SymKey([7u8; 32]);
    let a = aead_encrypt(&key, b"same", b"").unwrap();
    let b = aead_encrypt(&key, b"same", b"").unwrap();
    assert_ne!(a[..12], b[..12]);
}

#[test]
fn serializable_roundtrip_preserves_skipped_keys() {
    let (mut alice, mut bob) = make_pair();

    // Alice sends 3, Bob only decrypts the 3rd -- skips 0 and 1
    let (_hdr0, _ct0, _) = alice.ratchet_encrypt(b"skip-0").unwrap();
    let (_hdr1, _ct1, _) = alice.ratchet_encrypt(b"skip-1").unwrap();
    let (hdr2, ct2, _) = alice.ratchet_encrypt(b"take-2").unwrap();
    let (pt, _) = bob.ratchet_decrypt(&hdr2, &ct2).unwrap();
    assert_eq!(pt, b"take-2");

    // Bob should have 2 skipped keys buffered
    let s = bob.to_serializable();
    assert_eq!(s.mkskipped.len(), 2);

    // Roundtrip through serialization
    let bob2 = RatchetState::from_serializable(s);
    let s2 = bob2.to_serializable();
    assert_eq!(s2.mkskipped.len(), 2);
}

#[test]
fn our_ratchet_pub_returns_32_bytes() {
    let (alice, _) = make_pair();
    let pub_key = alice.our_ratchet_pub();
    assert_ne!(pub_key, [0u8; 32]);
}

#[test]
fn kdf_ck_produces_distinct_keys() {
    let ck = ChainKey([0xAAu8; 32]);
    let (mk, next_ck) = kdf_ck(&ck);
    assert_ne!(mk.0, ck.0);
    assert_ne!(next_ck.0, ck.0);
    assert_ne!(mk.0, next_ck.0);
}

#[test]
fn skipped_keys_expire_after_ttl() {
    let (mut alice, mut bob) = make_pair();

    // Alice sends 3 messages; Bob only receives the 3rd (skipping 0 and 1)
    let (hdr0, ct0, _) = alice.ratchet_encrypt(b"msg-0").unwrap();
    let (_hdr1, _ct1, _) = alice.ratchet_encrypt(b"msg-1").unwrap();
    let (hdr2, ct2, _) = alice.ratchet_encrypt(b"msg-2").unwrap();

    let (pt2, _) = bob.ratchet_decrypt(&hdr2, &ct2).unwrap();
    assert_eq!(pt2, b"msg-2");
    // Bob has 2 skipped keys stored
    assert_eq!(bob.mkskipped.len(), 2);

    // Simulate receiving SKIPPED_KEY_MAX_AGE more messages to expire them.
    // We do this by artificially advancing total_recv and purging.
    bob.total_recv += SKIPPED_KEY_MAX_AGE + 1;
    bob.purge_expired_skipped_keys();
    assert_eq!(bob.mkskipped.len(), 0, "skipped keys should be purged after TTL");

    // The expired skipped key should no longer decrypt
    assert!(bob.ratchet_decrypt(&hdr0, &ct0).is_err());
}

#[test]
fn total_recv_increments_on_each_decrypt() {
    let (mut alice, mut bob) = make_pair();
    assert_eq!(bob.total_recv, 0);

    for i in 0..5u8 {
        let (hdr, ct, _) = alice.ratchet_encrypt(&[i]).unwrap();
        bob.ratchet_decrypt(&hdr, &ct).unwrap();
    }
    assert_eq!(bob.total_recv, 5);
}

#[test]
fn kdf_rk_produces_new_root_and_chain() {
    let rk = [0xBBu8; 32];
    let dh = [0xCCu8; 32];
    let (new_rk, new_ck) = kdf_rk(&rk, &dh).unwrap();
    assert_ne!(new_rk, rk);
    assert_ne!(new_ck.0, [0u8; 32]);
}

#[test]
fn a_message_opens_only_once() {
    let (mut alice, mut bob) = make_pair();
    let (h0, c0, _) = alice.ratchet_encrypt(b"first").unwrap();
    let (h1, c1, _) = alice.ratchet_encrypt(b"second").unwrap();
    assert!(bob.ratchet_decrypt(&h1, &c1).is_ok());
    assert!(bob.ratchet_decrypt(&h0, &c0).is_ok());
    assert!(bob.ratchet_decrypt(&h0, &c0).is_err());
    assert!(bob.ratchet_decrypt(&h1, &c1).is_err());
}

#[test]
fn skipping_is_bounded() {
    let (mut alice, mut bob) = make_pair();
    let mut last = alice.ratchet_encrypt(b"first").unwrap();
    for _ in 0..MAX_SKIP {
        last = alice.ratchet_encrypt(b"x").unwrap();
    }
    assert_eq!(last.0.n, MAX_SKIP);
    assert!(bob.ratchet_decrypt(&last.0, &last.1).is_ok());

    let (mut alice, mut bob) = make_pair();
    let mut last = alice.ratchet_encrypt(b"first").unwrap();
    for _ in 0..MAX_SKIP + 1 {
        last = alice.ratchet_encrypt(b"x").unwrap();
    }
    assert!(matches!(
        bob.ratchet_decrypt(&last.0, &last.1),
        Err(CryptoError::TooManySkipped)
    ));
}

#[test]
fn the_buffer_of_skipped_keys_is_bounded() {
    let (mut alice, mut bob) = make_pair();
    let mut sent = Vec::new();
    for i in 0..202u32 {
        let (h, c, _) = alice.ratchet_encrypt(&i.to_be_bytes()).unwrap();
        sent.push((h, c));
    }
    assert!(bob.ratchet_decrypt(&sent[100].0, &sent[100].1).is_ok());
    assert_eq!(bob.to_serializable().mkskipped.len(), 100);
    assert!(bob.ratchet_decrypt(&sent[201].0, &sent[201].1).is_ok());
    assert_eq!(bob.to_serializable().mkskipped.len(), 100);
    // The oldest keys gave way.
    assert!(bob.ratchet_decrypt(&sent[99].0, &sent[99].1).is_err());
    let (plain, _) = bob.ratchet_decrypt(&sent[150].0, &sent[150].1).unwrap();
    assert_eq!(plain, 150u32.to_be_bytes());
    assert_eq!(bob.to_serializable().mkskipped.len(), 99);
}

#[test]
fn only_as_many_old_keys_give_way_as_needed() {
    let (mut alice, mut bob) = make_pair();
    let mut sent = Vec::new();
    for i in 0..120u32 {
        let (h, c, _) = alice.ratchet_encrypt(&i.to_be_bytes()).unwrap();
        sent.push((h, c));
    }
    for n in [10, 30, 119] {
        assert!(bob.ratchet_decrypt(&sent[n].0, &sent[n].1).is_ok());
    }
    // 10 and 19 keys were buffered, and beside 88 more there is room for neither.
    assert_eq!(bob.to_serializable().mkskipped.len(), 88);
    let (mut alice, mut bob) = make_pair();
    let mut sent = Vec::new();
    for i in 0..100u32 {
        let (h, c, _) = alice.ratchet_encrypt(&i.to_be_bytes()).unwrap();
        sent.push((h, c));
    }
    for n in [10, 12, 99] {
        assert!(bob.ratchet_decrypt(&sent[n].0, &sent[n].1).is_ok());
    }
    // The ten oldest are still there beside the one and the 86.
    assert_eq!(bob.to_serializable().mkskipped.len(), 97);
    assert!(bob.ratchet_decrypt(&sent[0].0, &sent[0].1).is_ok());
}

#[test]
fn bob_cannot_write_first() {
    let (_, mut bob) = make_pair();
    assert!(matches!(bob.ratchet_encrypt(b"x"), Err(CryptoError::NoChainKey)));
}

#[test]
fn garbage_is_no_ratchet_state() {
    let key = SymKey([1u8; 32]);
    let ct = aead_encrypt(&key, b"not a state", b"op4-ratchet-v1").unwrap();
    assert!(RatchetState::from_encrypted_bytes(&key, &ct).is_err());
    assert!(RatchetState::from_encrypted_bytes(&key, &[0u8; 3]).is_err());
}
