use op4_core::crypto::primitives::Argon2Params;
use op4_core::identity::profile::StoredContact;
use op4_core::messenger::contacts::push_contact;
use op4_core::messenger::identity::{
    build_bootstrap_code, build_export_code, build_our_bundle, Identity,
};
use op4_core::messenger::outgoing::compose_message;
use op4_core::messenger::rotation::{retire_identity, rotate_identity};
use op4_core::messenger::sessions::{log_message, mark_unread};
use op4_core::mobile::incoming::{handle_inbound_revocation, handle_incoming_message};
use op4_core::mobile::state::{MobileEdit, MobileMode, MobileState, Screen};
use op4_core::mobile::taps::{contact_label_row, finish_mobile_send, handle_tap, Tap};
use op4_core::network::message::WireMessage;
use op4_core::storage::vault::VaultUnlocked;
use op4_core::ui::state::{Tab, MAX_PENDING_HANDSHAKES};

fn params() -> Argon2Params {
    Argon2Params { m_cost: 64, t_cost: 1, p_cost: 1 }
}

fn party(address: &str) -> VaultUnlocked {
    let mut v =
        VaultUnlocked::create_with_params(b"normal", b"duress", &params()).ok().unwrap().0;
    Identity::generate().install(&mut v);
    v.payload.nym_address = address.into();
    v
}

fn unlocked(vault: &VaultUnlocked) -> MobileState {
    let mut app = MobileState::new();
    app.unlocked(vault);
    app.connected = true;
    app
}

/// What a bare wire message of any length carries.
fn carried(payload: &[u8]) -> Vec<u8> {
    let (_, _, carried, _): (u32, ([u8; 32], u64, u64), Vec<u8>, ([u8; 32],)) =
        postcard::from_bytes(payload).unwrap();
    carried
}

#[test]
fn unlocking_shows_the_contacts_or_the_decoy() {
    let mut v = party("me");
    let mut app = MobileState::new();
    assert_eq!(app.screen, Screen::Passphrase);
    app.refused();
    assert_eq!(app.auth_error, "Invalid passphrase.");
    app.unlocked(&v);
    assert_eq!(app.screen, Screen::Main);
    assert_eq!(app.status, "Vault unlocked.");
    assert_eq!(app.export_code, build_export_code(&v));
    assert_eq!(app.bootstrap_code, build_bootstrap_code(&v));
    let mut app = MobileState::new();
    app.created(&v);
    assert_eq!(app.status, "Vault created.");
    let file = v.save().ok().unwrap().file;
    let decoy = VaultUnlocked::unlock_with_params(&file, b"duress", &params()).ok().unwrap();
    let mut app = MobileState::new();
    app.unlocked(&decoy);
    assert_eq!(app.screen, Screen::Duress);
    assert!(app.export_code.is_empty());
}

#[test]
fn the_address_goes_into_the_codes() {
    let mut v = party("");
    let mut app = MobileState::new();
    app.unlocked(&v);
    assert!(!app.connected);
    app.connection_failed("no route");
    assert_eq!(app.status, "Tor connection failed: no route");
    let saved = app.connected_at(&mut v, "me.onion:14101".into());
    assert!(saved.is_some() && app.connected);
    assert_eq!(app.status, "Connected: me.onion:14101");
    assert_eq!(v.payload.nym_address, "me.onion:14101");
    assert_eq!(app.bootstrap_code, build_bootstrap_code(&v));
}

#[test]
fn contacts_are_added_verified_and_deleted() {
    let mut v = party("me");
    let mut app = unlocked(&v);
    handle_tap(&mut app, &mut v, Tap::AddContact);
    assert_eq!(app.contact_mode, MobileMode::AddContact);
    app.add_contact_buf = format!("  {}\n", build_export_code(&party("peer")));
    let effects = handle_tap(&mut app, &mut v, Tap::SubmitCode);
    assert!(effects.saved.is_some());
    assert_eq!(app.status, "Contact added. Verify fingerprint out-of-band.");
    assert_eq!(v.payload.contacts[0].display_name, "Contact 1");
    handle_tap(&mut app, &mut v, Tap::Verify);
    assert!(v.payload.contacts[0].verified);
    assert_eq!(app.status, "'Contact 1' marked as verified.");
    handle_tap(&mut app, &mut v, Tap::ToggleFingerprint);
    assert_eq!(app.contact_mode, MobileMode::Fingerprint);
    handle_tap(&mut app, &mut v, Tap::Delete);
    assert!(v.payload.contacts.is_empty());
    assert_eq!(app.status, "Contact removed.");
    app.add_contact_buf = "junk!".into();
    handle_tap(&mut app, &mut v, Tap::SubmitCode);
    assert_eq!(app.status, "Invalid contact code.");
    app.add_contact_buf = build_bootstrap_code(&party("peer"));
    handle_tap(&mut app, &mut v, Tap::SubmitCode);
    assert_eq!(app.status, "Bootstrap code accepted — awaiting response.");
    app.add_contact_buf = "op4b2:!".into();
    handle_tap(&mut app, &mut v, Tap::SubmitCode);
    assert_eq!(app.status, "Invalid bootstrap code.");
    app.add_contact_buf = "x".into();
    handle_tap(&mut app, &mut v, Tap::CancelCode);
    assert!(app.add_contact_buf.is_empty());
}

#[test]
fn deleting_the_last_contact_selects_the_one_before() {
    let mut v = party("me");
    for name in ["A", "B", "C"] {
        push_contact(&mut v, build_our_bundle(&party(name)).unwrap(), name.into());
    }
    let mut app = unlocked(&v);
    handle_tap(&mut app, &mut v, Tap::Select(2));
    handle_tap(&mut app, &mut v, Tap::Delete);
    assert_eq!(app.selected_contact, 1);
    handle_tap(&mut app, &mut v, Tap::Select(7));
    assert_eq!(app.selected_contact, 1);
}

#[test]
fn messages_go_out_and_requests_are_accepted() {
    let mut alice = party("alice.onion:14101");
    let mut bob = party("bob.onion:14101");
    push_contact(&mut alice, build_our_bundle(&bob).unwrap(), "Bob".into());
    let mut app_a = unlocked(&alice);
    app_a.draft = "hi \x07bob".into();
    let effects = handle_tap(&mut app_a, &mut alice, Tap::Send);
    assert!(app_a.draft.is_empty());
    let draft = effects.message.unwrap();
    finish_mobile_send(&mut app_a, &mut alice, &draft.contact_id, &draft.plaintext, None);
    assert_eq!(app_a.messages[0].content, "hi bob");
    assert_eq!(app_a.status, "Message sent.");
    finish_mobile_send(&mut app_a, &mut alice, &draft.contact_id, b"x", Some("down".into()));
    assert_eq!(app_a.status, "Send failed: down");

    let mut app_b = unlocked(&bob);
    handle_incoming_message(&mut app_b, &mut bob, &draft.outgoing.payload);
    assert_eq!(app_b.status, "1 pending contact request(s)");
    handle_tap(&mut app_b, &mut bob, Tap::ReviewPending);
    assert_eq!(app_b.contact_mode, MobileMode::PendingRequest);
    handle_tap(&mut app_b, &mut bob, Tap::Accept);
    assert_eq!(app_b.status, "Please enter a name.");
    app_b.pending_name_buf = " Alice ".into();
    let effects = handle_tap(&mut app_b, &mut bob, Tap::Accept);
    assert!(effects.saved.is_some());
    assert_eq!(app_b.status, "Contact 'Alice' added.");
    assert_eq!(bob.payload.contacts[0].display_name, "Alice");
    let id = bob.payload.contacts[0].id;
    assert_eq!(bob.load_messages(&id)[0].content, "hi bob");
}

#[test]
fn sending_tells_what_is_wrong() {
    let mut v = party("me");
    let mut app = unlocked(&v);
    app.draft = "x".into();
    assert!(handle_tap(&mut app, &mut v, Tap::Send).message.is_none());
    assert_eq!(app.status, "No contact selected.");
    let mut bundle = build_our_bundle(&party("peer")).unwrap();
    bundle.nym_address = String::new();
    push_contact(&mut v, bundle, "P".into());
    app.draft = "x".into();
    handle_tap(&mut app, &mut v, Tap::Send);
    assert_eq!(app.status, "Contact has no address.");
    app.connected = false;
    v.payload.contacts[0].bundle.nym_address = "peer".into();
    app.draft = "x".into();
    assert!(handle_tap(&mut app, &mut v, Tap::Send).message.is_none());
    assert!(app.draft.is_empty());
}

#[test]
fn further_requests_are_dropped_when_the_queue_is_full() {
    let mut bob = party("bob");
    let mut app = unlocked(&bob);
    for i in 0..MAX_PENDING_HANDSHAKES + 1 {
        let mut peer = party("peer");
        push_contact(&mut peer, build_our_bundle(&bob).unwrap(), "Bob".into());
        let text = format!("request {i}");
        let out = compose_message(&mut peer, Some(0), text.as_bytes()).ok().unwrap();
        handle_incoming_message(&mut app, &mut bob, &out.payload);
    }
    assert_eq!(app.pending_handshakes.len(), MAX_PENDING_HANDSHAKES);
    assert_eq!(app.pending_handshakes[0].plaintext, b"request 0");
    handle_tap(&mut app, &mut bob, Tap::Reject);
    assert_eq!(app.pending_handshakes.len(), MAX_PENDING_HANDSHAKES - 1);
}

#[test]
fn data_messages_need_an_accepted_tag() {
    let mut alice = party("alice");
    let mut bob = party("bob");
    push_contact(&mut alice, build_our_bundle(&bob).unwrap(), "Bob".into());
    let out = compose_message(&mut alice, Some(0), b"hi").ok().unwrap();
    let mut app = unlocked(&bob);
    handle_incoming_message(&mut app, &mut bob, &out.payload);
    app.pending_name_buf = "Alice".into();
    handle_tap(&mut app, &mut bob, Tap::Accept);
    let out = compose_message(&mut alice, Some(0), b"first").ok().unwrap();
    let mut altered = WireMessage::from_bytes(&out.payload).unwrap();
    altered.mac.tag[0] ^= 1;
    let effects = handle_incoming_message(&mut app, &mut bob, &altered.to_bytes().unwrap());
    assert!(effects.saved.is_none());
    app.loaded_contact = Some(0);
    let effects = handle_incoming_message(&mut app, &mut bob, &out.payload);
    assert!(effects.saved.is_some());
    assert_eq!(app.messages.last().unwrap().content, "first");
    assert_eq!(bob.payload.conversations[0].unread_count, 1);
    // A peer that makes no tags yet is heard.
    let out = compose_message(&mut alice, Some(0), b"second").ok().unwrap();
    let mut untagged = WireMessage::from_bytes(&out.payload).unwrap();
    untagged.mac.tag = [0u8; 32];
    let effects = handle_incoming_message(&mut app, &mut bob, &untagged.to_bytes().unwrap());
    assert!(effects.saved.is_some());
    assert_eq!(app.messages.last().unwrap().content, "second");
}

#[test]
fn requests_spend_their_prekey() {
    let mut alice = party("alice");
    let mut bob = party("bob");
    bob.payload.generate_opks();
    push_contact(&mut alice, build_our_bundle(&bob).unwrap(), "Bob".into());
    let (pubs, ids) = (bob.payload.opk_public_keys(), bob.payload.opk_ids());
    alice.payload.contacts[0].apply_opk_refresh(pubs, ids);
    let out = compose_message(&mut alice, Some(0), b"hi").ok().unwrap();
    let mut app = unlocked(&bob);
    let had = bob.payload.opk_secrets.clone();
    let effects = handle_incoming_message(&mut app, &mut bob, &out.payload);
    assert!(effects.saved.is_some());
    assert_eq!(app.pending_handshakes.len(), 1);
    assert_eq!(bob.payload.opk_secrets, had[1..]);
    handle_incoming_message(&mut app, &mut bob, &out.payload);
    assert_eq!(app.pending_handshakes.len(), 1);
}

#[test]
fn rotations_ask_for_a_new_verification() {
    let mut alice = party("alice");
    let mut bob = party("bob");
    push_contact(&mut alice, build_our_bundle(&bob).unwrap(), "Bob".into());
    push_contact(&mut bob, build_our_bundle(&alice).unwrap(), "Alice".into());
    bob.payload.contacts[0].verified = true;
    let mut app = unlocked(&bob);
    let retired = retire_identity(&mut alice).ok().unwrap();
    handle_incoming_message(&mut app, &mut bob, &retired[0].payload);
    assert_eq!(app.status, "'Alice' has retired their key.");
    assert!(bob.payload.contacts[0].verified);
    let rotated = rotate_identity(&mut alice).ok().unwrap();
    handle_inbound_revocation(&mut app, &mut bob, &carried(&rotated[0].payload));
    assert_eq!(app.status, "Key rotated for 'Alice' — re-verify fingerprint.");
    assert_eq!(app.screen, Screen::KeyAlert);
    assert!(!bob.payload.contacts[0].verified);
    handle_tap(&mut app, &mut bob, Tap::AcceptKey);
    assert_eq!(app.screen, Screen::Main);
    assert!(bob.payload.contacts[0].verified);
    app.screen = Screen::KeyAlert;
    handle_tap(&mut app, &mut bob, Tap::RejectKey);
    assert!(bob.payload.contacts.is_empty());
    assert_eq!(app.status, "Contact rejected and removed.");
}

#[test]
fn settings_are_edited_and_confirmed() {
    let mut v = party("me");
    let mut app = unlocked(&v);
    handle_tap(&mut app, &mut v, Tap::Settings);
    assert_eq!(app.tab, Tab::Settings);
    handle_tap(&mut app, &mut v, Tap::EditAutoDelete);
    assert_eq!(app.settings_edit, MobileEdit::AutoDelete);
    app.edit_buf = " 30 ".into();
    assert!(handle_tap(&mut app, &mut v, Tap::SaveAutoDelete).saved.is_some());
    assert_eq!(v.payload.settings.default_auto_delete, Some(30));
    assert_eq!(app.status, "Auto-delete updated.");
    handle_tap(&mut app, &mut v, Tap::EditAutoDelete);
    assert_eq!(app.edit_buf, "30");
    handle_tap(&mut app, &mut v, Tap::CancelEdit);
    handle_tap(&mut app, &mut v, Tap::AskRotate);
    handle_tap(&mut app, &mut v, Tap::Confirm);
    assert_eq!(app.status, "Key rotation not yet implemented on Android.");
    handle_tap(&mut app, &mut v, Tap::AskRevoke);
    handle_tap(&mut app, &mut v, Tap::Confirm);
    assert_eq!(app.status, "Key revocation not yet implemented on Android.");
    assert!(handle_tap(&mut app, &mut v, Tap::RefreshCircuit).new_circuit);
    handle_tap(&mut app, &mut v, Tap::ShowCode);
    assert_eq!((app.tab, app.contact_mode), (Tab::Contacts, MobileMode::ExportCode));
}

#[test]
fn opening_the_messages_reads_them() {
    let mut v = party("me");
    push_contact(&mut v, build_our_bundle(&party("peer")).unwrap(), "P".into());
    let id = v.payload.contacts[0].id;
    log_message(&mut v, &id, "unread".into(), false);
    mark_unread(&mut v, &id);
    let mut app = unlocked(&v);
    assert!(handle_tap(&mut app, &mut v, Tap::Messages).saved.is_some());
    assert_eq!(app.messages.len(), 1);
    assert_eq!(app.loaded_contact, Some(0));
    assert_eq!(v.payload.conversations[0].unread_count, 0);
    assert!(handle_tap(&mut app, &mut v, Tap::Messages).saved.is_none());
}

#[test]
fn labels_tell_the_state_of_a_contact() {
    assert_eq!(contact_label_row("Al\x07ice", true, 0), "Alice ✓");
    assert_eq!(contact_label_row("Bob", false, 2), "Bob ⚠ UNVERIFIED (2)");
}
