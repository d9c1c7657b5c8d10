use op4_core::crypto::primitives::Argon2Params;
use op4_core::identity::profile::BootstrapCode;
use op4_core::messenger::bundles::{
    accept_bundle_response, answer_bundle_request, bundle_request, seal_to, unseal,
    BootstrapPending,
};
use op4_core::messenger::contacts::{
    add_contact, add_numbered_contact, contact_unread_counts, mark_verified, remove_contact,
    total_unread,
};
use op4_core::messenger::identity::{
    build_bootstrap_code, build_export_code, build_our_bundle, create_new_vault,
    load_ratchet_secret, Identity,
};
use op4_core::messenger::incoming::{
    open_handshake, receive_data, receive_handshake, receive_revocation, spend_prekey,
    text_of_message, DataOutcome, RevocationOutcome,
};
use op4_core::messenger::outgoing::{compose_message, SendError};
use op4_core::messenger::rotation::{retire_identity, rotate_identity, rotate_to, KeyError};
use op4_core::messenger::sessions::{clear_unread, log_message, mark_unread, vault_has_room};
use op4_core::network::message::{put_length, take_length, WireMessage, WireMessageType};
use op4_core::storage::vault::VaultUnlocked;
use x25519_dalek::{PublicKey as X25519PublicKey, StaticSecret};

fn vault() -> VaultUnlocked {
    let params = Argon2Params { m_cost: 64, t_cost: 1, p_cost: 1 };
    VaultUnlocked::create_with_params(b"normal", b"duress", &params).ok().unwrap().0
}

fn party(address: &str) -> VaultUnlocked {
    let mut v = vault();
    Identity::generate().install(&mut v);
    v.payload.nym_address = address.into();
    v
}

/// Two parties that have each other as their only contact.
fn acquainted() -> (VaultUnlocked, VaultUnlocked) {
    let mut alice = party("alice.onion:14101");
    let mut bob = party("bob.onion:14101");
    let alice_bundle = build_our_bundle(&alice).unwrap();
    let bob_bundle = build_our_bundle(&bob).unwrap();
    add_contact(&mut alice, bob_bundle, "Bob".into());
    add_contact(&mut bob, alice_bundle, "Alice".into());
    (alice, bob)
}

// Identity

#[test]
fn codes_belong_to_our_bundle() {
    let v = party("me.onion:14101");
    let bundle = build_our_bundle(&v).unwrap();
    assert_eq!(bundle.nym_address, "me.onion:14101");
    let secret = load_ratchet_secret(&v).unwrap();
    assert_eq!(
        bundle.ratchet_pub,
        X25519PublicKey::from(&StaticSecret::from(secret)).to_bytes()
    );
    let code = BootstrapCode::decode(&build_bootstrap_code(&v)).unwrap();
    assert_eq!(code.fingerprint_prefix, bundle.digest());
    assert!(!build_export_code(&v).is_empty());
    assert!(build_our_bundle(&vault()).is_none());
    assert!(load_ratchet_secret(&vault()).is_none());
}

#[test]
fn a_new_vault_has_an_identity() {
    let (v, saved) = create_new_vault(b"long passphrase", b"other passphrase").ok().unwrap();
    assert!(!v.is_duress);
    assert!(build_our_bundle(&v).is_some());
    assert_eq!(&saved.file[..4], b"OP4V");
    assert!(!v.check_rollback(Some(&saved.marker)));
}

#[test]
fn both_passphrases_open_a_saved_vault() {
    let params = Argon2Params { m_cost: 64, t_cost: 1, p_cost: 1 };
    let (mut v, _) = VaultUnlocked::create_with_params(b"normal", b"duress", &params).ok().unwrap();
    Identity::generate().install(&mut v);
    let saved = v.save().ok().unwrap();
    let unlock = |p: &[u8]| VaultUnlocked::unlock_with_params(&saved.file, p, &params).ok();
    let unlocked = unlock(b"normal").unwrap();
    assert!(!unlocked.is_duress);
    assert_eq!(
        build_our_bundle(&unlocked).unwrap().fingerprint(),
        build_our_bundle(&v).unwrap().fingerprint()
    );
    assert!(!unlocked.check_rollback(Some(&saved.marker)));
    let decoy = unlock(b"duress").unwrap();
    assert!(decoy.is_duress);
    assert_eq!(decoy.payload.nym_address, "[duress]");
    assert!(build_our_bundle(&decoy).is_none());
    assert!(decoy.payload.contacts.is_empty() && decoy.payload.opk_secrets.is_empty());
    assert!(unlock(b"neither").is_none());
}

#[test]
fn identities_are_drawn_anew() {
    let a = Identity::generate();
    let b = Identity::generate();
    assert_ne!(a.ratchet_secret, b.ratchet_secret);
    assert_ne!(a.kem.x25519_secret, b.kem.x25519_secret);
    assert_ne!(a.kem.mlkem_ek, b.kem.mlkem_ek);
    assert_ne!(a.signing.ed25519_vk, b.signing.ed25519_vk);
    assert_ne!(a.signing.mldsa_vk, b.signing.mldsa_vk);
}

// First messages

#[test]
fn a_first_message_opens_a_session() {
    let (mut alice, mut bob) = acquainted();
    let out = compose_message(&mut alice, Some(0), b"hello bob").ok().unwrap();
    assert_eq!(out.to, "bob.onion:14101");
    let wire = WireMessage::from_bytes(&out.payload).unwrap();
    assert_eq!(wire.msg_type, WireMessageType::Handshake);
    let opened = open_handshake(&bob, &wire.ciphertext).unwrap();
    assert_eq!(opened.plaintext, b"hello bob");
    assert_eq!(opened.bundle.nym_address, "alice.onion:14101");
    let id = bob.payload.contacts[0].id;
    let messages = receive_handshake(&mut bob, &id, &opened, false).unwrap();
    assert_eq!(messages.len(), 1);
    assert_eq!(messages[0].content, "hello bob");
    assert!(!messages[0].from_us);
    assert_eq!(contact_unread_counts(&bob), [1]);
    assert_eq!(total_unread(&bob), Some(1));
}

#[test]
fn handshakes_for_others_do_not_open() {
    let (mut alice, bob) = acquainted();
    let out = compose_message(&mut alice, Some(0), b"hello").ok().unwrap();
    let wire = WireMessage::from_bytes(&out.payload).unwrap();
    assert!(open_handshake(&party("eve"), &wire.ciphertext).is_none());
    assert!(open_handshake(&bob, b"garbage").is_none());
    assert!(open_handshake(&vault(), &wire.ciphertext).is_none());
}

#[test]
fn messages_that_cannot_go_out_say_why() {
    let (mut alice, _) = acquainted();
    assert_eq!(compose_message(&mut alice, None, b"x").err(), Some(SendError::NoContact));
    assert_eq!(compose_message(&mut alice, Some(1), b"x").err(), Some(SendError::ContactNotFound));
    let mut nowhere = party("a");
    let mut bundle = build_our_bundle(&alice).unwrap();
    bundle.nym_address = String::new();
    add_contact(&mut nowhere, bundle, "B".into());
    assert_eq!(compose_message(&mut nowhere, Some(0), b"x").err(), Some(SendError::NoAddress));
    let mut keyless = vault();
    add_contact(&mut keyless, build_our_bundle(&alice).unwrap(), "A".into());
    assert_eq!(compose_message(&mut keyless, Some(0), b"x").err(), Some(SendError::Keys));
    let mut odd = party("a");
    let mut bundle = build_our_bundle(&alice).unwrap();
    bundle.mlkem_ek.pop();
    add_contact(&mut odd, bundle, "A".into());
    assert_eq!(compose_message(&mut odd, Some(0), b"x").err(), Some(SendError::Handshake));
    let (mut broken, _) = acquainted();
    let id = broken.payload.contacts[0].id;
    broken.get_or_create_conversation(id).ratchet_state_ct = vec![1, 2, 3];
    assert_eq!(compose_message(&mut broken, Some(0), b"x").err(), Some(SendError::Session));
    for e in [
        SendError::NoContact,
        SendError::ContactNotFound,
        SendError::NoAddress,
        SendError::Keys,
        SendError::Session,
        SendError::Encryption,
        SendError::Handshake,
        SendError::SessionStart,
    ] {
        assert!(!e.text().is_empty());
    }
}

// Data messages

/// Acquainted parties with a session.
fn in_session() -> (VaultUnlocked, VaultUnlocked) {
    let (mut alice, mut bob) = acquainted();
    let out = compose_message(&mut alice, Some(0), b"hi").ok().unwrap();
    let wire = WireMessage::from_bytes(&out.payload).unwrap();
    let opened = open_handshake(&bob, &wire.ciphertext).unwrap();
    let id = bob.payload.contacts[0].id;
    receive_handshake(&mut bob, &id, &opened, true).unwrap();
    (alice, bob)
}

fn sent(vault: &mut VaultUnlocked, plaintext: &[u8]) -> WireMessage {
    let out = compose_message(vault, Some(0), plaintext).ok().unwrap();
    WireMessage::from_bytes(&out.payload).unwrap()
}

/// The text that a data message is logged as.
fn received(vault: &mut VaultUnlocked, wire: &WireMessage) -> Option<String> {
    match receive_data(vault, &wire.header, &wire.ciphertext, &wire.mac, None) {
        DataOutcome::Received(id, messages) => {
            assert_eq!(id, vault.payload.contacts[0].id);
            Some(messages.last().unwrap().content.clone())
        }
        _ => None,
    }
}

#[test]
fn data_messages_arrive_in_both_directions() {
    let (mut alice, mut bob) = in_session();
    assert_ne!(alice.payload.contacts[0].id, bob.payload.contacts[0].id);
    for text in ["", "short", "a line of some length", &"m".repeat(512 - 28), &"m".repeat(4064)] {
        let wire = sent(&mut alice, text.as_bytes());
        assert_eq!(wire.msg_type, WireMessageType::Data);
        assert_eq!(wire.ciphertext.len() % 512, 0);
        assert_eq!(received(&mut bob, &wire).as_deref(), Some(text));
        // And the other way round.
        let wire = sent(&mut bob, text.as_bytes());
        assert_eq!(received(&mut alice, &wire).as_deref(), Some(text));
    }
    assert_eq!(contact_unread_counts(&alice), [5]);
    let id = bob.payload.contacts[0].id;
    assert_eq!(bob.load_messages(&id).len(), 1 + 5);
}

#[test]
fn data_messages_arrive_in_any_order() {
    let (mut alice, mut bob) = in_session();
    let first = sent(&mut alice, b"first");
    let second = sent(&mut alice, b"second");
    let third = sent(&mut alice, b"third");
    assert_eq!(received(&mut bob, &third).as_deref(), Some("third"));
    assert_eq!(received(&mut bob, &first).as_deref(), Some("first"));
    assert_eq!(received(&mut bob, &second).as_deref(), Some("second"));
    assert_eq!(received(&mut bob, &second), None);
}

#[test]
fn messages_beyond_the_payload_do_not_arrive() {
    let (mut alice, mut bob) = in_session();
    let wire = sent(&mut alice, "m".repeat(4065).as_bytes());
    assert_eq!(wire.ciphertext.len(), 4096);
    assert_eq!(received(&mut bob, &wire), None);
}

#[test]
fn lengths_stand_in_front_of_the_ciphertext() {
    let b = put_length(vec![7u8; 5]);
    assert_eq!(b, [0, 0, 0, 5, 7, 7, 7, 7, 7]);
    let mut padded = b;
    padded.extend([9u8; 20]);
    assert_eq!(take_length(&padded), Some(vec![7u8; 5]));
    assert_eq!(take_length(&[0, 0, 0, 2, 1]), None);
    assert_eq!(take_length(&[0, 0, 0]), None);
    assert_eq!(put_length(vec![1u8; 5000]).len(), 4096);
}

#[test]
fn one_time_prekeys_are_found_and_spent() {
    let (mut alice, mut bob) = acquainted();
    bob.payload.generate_opks();
    let pubs = bob.payload.opk_public_keys();
    let ids = bob.payload.opk_ids();
    let (pubs, ids) = (pubs[3..].to_vec(), ids[3..].to_vec());
    alice.payload.contacts[0].apply_opk_refresh(pubs, ids.clone());
    let wire = sent(&mut alice, b"hi");
    let opened = open_handshake(&bob, &wire.ciphertext).unwrap();
    assert_eq!(opened.plaintext, b"hi");
    assert_eq!(opened.used_opk, Some(ids[0]));
    let before = bob.payload.opk_secrets.clone();
    spend_prekey(&mut bob, &opened);
    let mut expected = before;
    expected.remove(3);
    assert_eq!(bob.payload.opk_secrets, expected);
    assert!(open_handshake(&bob, &wire.ciphertext).is_none());
}

#[test]
fn tags_are_checked_but_zeros_pass() {
    let (mut alice, mut bob) = in_session();
    let mut wire = sent(&mut alice, b"text");
    wire.mac.tag[0] ^= 1;
    assert!(matches!(
        receive_data(&mut bob, &wire.header, &wire.ciphertext, &wire.mac, None),
        DataOutcome::Rejected
    ));
    wire.mac.tag = [0u8; 32];
    assert!(matches!(
        receive_data(&mut bob, &wire.header, &wire.ciphertext, &wire.mac, None),
        DataOutcome::Received(_, _)
    ));
}

#[test]
fn logged_text_is_cleaned() {
    assert_eq!(text_of_message(b"\x1b[2Jclean\xff"), "clean\u{fffd}");
}

// Bundles

#[test]
fn sealed_bytes_open_for_their_reader_only() {
    let secret = [5u8; 32];
    let public = X25519PublicKey::from(&StaticSecret::from(secret)).to_bytes();
    let sealed = seal_to(&public, b"label", b"payload").unwrap();
    assert_eq!(unseal(&secret, &sealed, b"label"), Some(b"payload".to_vec()));
    assert_eq!(unseal(&secret, &sealed, b"other"), None);
    assert_eq!(unseal(&[6u8; 32], &sealed, b"label"), None);
    assert_eq!(unseal(&secret, &sealed[..20], b"label"), None);
}

#[test]
fn bundles_are_exchanged_for_a_bootstrap_code() {
    let mut alice = party("alice.onion:14101");
    let bob = party("bob.onion:14101");
    let code = BootstrapCode::decode(&build_bootstrap_code(&bob)).unwrap();
    let request = bundle_request(&alice, &code).unwrap();
    assert_eq!(request.to, "bob.onion:14101");
    let wire = WireMessage::from_bytes(&request.payload).unwrap();
    assert_eq!(wire.msg_type, WireMessageType::BundleRequest);
    let answer = answer_bundle_request(&bob, &wire.ciphertext).unwrap();
    assert_eq!(answer.to, "alice.onion:14101");
    let wire = WireMessage::from_bytes(&answer.payload).unwrap();
    assert_eq!(wire.msg_type, WireMessageType::BundleResponse);
    let mut other = vec![BootstrapPending {
        ed25519_vk: [0u8; 32],
        fingerprint_prefix: code.fingerprint_prefix,
    }];
    assert_eq!(accept_bundle_response(&mut alice, &mut other, &wire.ciphertext), None);
    assert_eq!(other.len(), 1);
    let mut expected = vec![BootstrapPending {
        ed25519_vk: code.ed25519_vk,
        fingerprint_prefix: code.fingerprint_prefix,
    }];
    assert_eq!(accept_bundle_response(&mut alice, &mut expected, &wire.ciphertext), Some(0));
    assert!(expected.is_empty());
    assert_eq!(alice.payload.contacts[0].display_name, "Contact 1");
    assert_eq!(
        alice.payload.contacts[0].bundle.fingerprint(),
        build_our_bundle(&bob).unwrap().fingerprint()
    );
    assert_eq!(answer_bundle_request(&bob, b"garbage").map(|o| o.to), None);
}

// Revocations

/// What a bare wire message of any length carries.
fn carried(payload: &[u8]) -> Vec<u8> {
    let (_, _, carried, _): (u32, ([u8; 32], u64, u64), Vec<u8>, ([u8; 32],)) =
        postcard::from_bytes(payload).unwrap();
    carried
}

#[test]
fn contacts_follow_a_rotation() {
    let (mut alice, mut bob) = acquainted();
    let before = build_our_bundle(&alice).unwrap().fingerprint();
    let sent = rotate_identity(&mut alice).ok().unwrap();
    assert_eq!(sent.len(), 1);
    assert_eq!(sent[0].to, "bob.onion:14101");
    let after = build_our_bundle(&alice).unwrap();
    assert_ne!(after.fingerprint(), before);
    bob.payload.contacts[0].verified = true;
    // With a bundle the record is beyond what is read off the wire.
    assert!(WireMessage::from_bytes(&sent[0].payload).is_none());
    let cert = carried(&sent[0].payload);
    match receive_revocation(&mut bob, &cert) {
        RevocationOutcome::Rotated(name, fingerprint) => {
            assert_eq!(name, "Alice");
            assert_eq!(fingerprint, after.fingerprint());
        }
        _ => panic!("the rotation is accepted"),
    }
    assert_eq!(bob.payload.contacts[0].bundle.ed25519_vk, after.ed25519_vk);
    assert!(!bob.payload.contacts[0].verified);
    // The old certificate does not count twice.
    assert!(matches!(receive_revocation(&mut bob, &cert), RevocationOutcome::Ignored));
}

#[test]
fn a_rotation_installs_the_new_keys() {
    let (mut alice, mut bob) = acquainted();
    let identity = Identity::generate();
    let sent = rotate_to(&mut alice, &identity).ok().unwrap();
    let bundle = build_our_bundle(&alice).unwrap();
    assert_eq!(bundle.ed25519_vk, identity.signing.ed25519_vk);
    assert_eq!(bundle.mldsa_vk, identity.signing.mldsa_vk);
    assert_eq!(bundle.x25519_pub, identity.kem.x25519_public);
    assert_eq!(bundle.mlkem_ek, identity.kem.mlkem_ek);
    assert_eq!(load_ratchet_secret(&alice), Some(identity.ratchet_secret));
    let cert = carried(&sent[0].payload);
    assert!(matches!(receive_revocation(&mut bob, &cert), RevocationOutcome::Rotated(_, _)));
    assert_eq!(bob.payload.contacts[0].bundle.mlkem_ek, identity.kem.mlkem_ek);
}

#[test]
fn contacts_lose_a_retired_key() {
    let (mut alice, mut bob) = acquainted();
    let sent = retire_identity(&mut alice).ok().unwrap();
    let wire = WireMessage::from_bytes(&sent[0].payload).unwrap();
    assert!(matches!(
        receive_revocation(&mut bob, &wire.ciphertext),
        RevocationOutcome::Removed(name) if name == "Alice"
    ));
    assert!(bob.payload.contacts.is_empty());
    assert!(matches!(receive_revocation(&mut bob, b"junk"), RevocationOutcome::Ignored));
}

#[test]
fn rotations_need_keys() {
    let mut v = vault();
    assert_eq!(rotate_identity(&mut v).err(), Some(KeyError::Signing));
    assert_eq!(retire_identity(&mut v).err(), Some(KeyError::Signing));
    let mut v = party("x");
    v.payload.identity_kem_secret.clear();
    assert_eq!(rotate_identity(&mut v).err(), Some(KeyError::Kem));
    assert_eq!(retire_identity(&mut v).err(), Some(KeyError::Kem));
}

// Contacts and conversations

#[test]
fn contacts_are_added_numbered_verified_and_removed() {
    let mut v = vault();
    let bundle = build_our_bundle(&party("a")).unwrap();
    assert_eq!(add_numbered_contact(&mut v, bundle), 0);
    let bundle = build_our_bundle(&party("b")).unwrap();
    assert_eq!(add_contact(&mut v, bundle, "Bee".into()), 1);
    assert_eq!(v.payload.contacts[0].display_name, "Contact 1");
    assert_eq!(v.payload.contacts[1].display_name, "Bee");
    mark_verified(&mut v, 1);
    assert!(v.payload.contacts[1].verified && !v.payload.contacts[0].verified);
    remove_contact(&mut v, 0);
    assert_eq!(v.payload.contacts.len(), 1);
    assert_eq!(v.payload.contacts[0].display_name, "Bee");
}

#[test]
fn unread_marks_are_counted_and_cleared() {
    let (mut alice, _) = acquainted();
    let id = alice.payload.contacts[0].id;
    assert!(vault_has_room(&alice));
    let messages = log_message(&mut alice, &id, "one".into(), false);
    assert_eq!(messages.len(), 1);
    assert_eq!(messages[0].counter, 1);
    let messages = log_message(&mut alice, &id, "two".into(), true);
    assert_eq!(messages[1].counter, 2);
    mark_unread(&mut alice, &id);
    mark_unread(&mut alice, &id);
    assert_eq!(contact_unread_counts(&alice), [2]);
    assert!(clear_unread(&mut alice, &id));
    assert!(!clear_unread(&mut alice, &id));
    assert_eq!(total_unread(&alice), Some(0));
    alice.payload.sequence = u64::MAX;
    assert!(!vault_has_room(&alice));
}
