use op4_core::crypto::keys::{HybridKemKeypair, HybridSigningKeypair, PublicKeyBundle};
use op4_core::crypto::primitives::Argon2Params;
use op4_core::identity::profile::StoredContact;
use op4_core::messenger::contacts::add_contact;
use op4_core::messenger::identity::{
    build_bootstrap_code, build_export_code, build_our_bundle, Identity,
};
use op4_core::messenger::sessions::{log_message, mark_unread};
use op4_core::network::message::{WireMessage, WireMessageType};
use op4_core::storage::records::{AppSettings, StoredMessage};
use op4_core::storage::vault::VaultUnlocked;
use op4_core::ui::app::{
    ends_duress, handle_inbound_revocation, handle_incoming_message, handle_key, refresh_messages,
};
use op4_core::ui::contacts::{
    contact_row, empty_list, export_codes, fingerprint_banner, fingerprint_text, key_change_alert,
    tab_label,
};
use op4_core::ui::conversation::{conversation_screen, message_lines};
use op4_core::ui::conversation_keys::{count_matches, finish_send};
use op4_core::ui::passphrase::{
    after_wrong_passphrase, check_new_passphrases, duress_differs, evaluate_strength, first_entry,
    judge, meter_label, meter_score, prompt_text, prompt_unlock_passphrase, score_label, second_entry,
    strongest, type_byte, Estimate, NewPassphrase,
};
use op4_core::ui::qr::{
    qr_failure, qr_fits, qr_image, qr_lines, qr_terminal_height, qr_terminal_width,
};
use op4_core::ui::settings::{settings_lines, settings_popup, show_threshold};
use op4_core::ui::settings_keys::read_threshold;
use op4_core::ui::state::{
    AppState, ContactMode, Effects, Key, KeyPress, SettingsEditMode, Tab, MAX_PENDING_HANDSHAKES,
};

fn vault() -> VaultUnlocked {
    let params = Argon2Params { m_cost: 64, t_cost: 1, p_cost: 1 };
    VaultUnlocked::create_with_params(b"normal", b"duress", &params).ok().unwrap().0
}

fn party(address: &str) -> VaultUnlocked {
    let mut v = vault();
    Identity::generate().install(&mut v);
    v.payload.nym_address = address.into();
    v
}

fn state(vault: &VaultUnlocked) -> AppState {
    AppState::new(build_export_code(vault), build_bootstrap_code(vault))
}

fn press(app: &mut AppState, vault: &mut VaultUnlocked, key: Key) -> Effects {
    handle_key(app, KeyPress { key, control: false }, vault)
}

fn type_text(app: &mut AppState, vault: &mut VaultUnlocked, text: &str) {
    for c in text.chars() {
        press(app, vault, Key::Char(c));
    }
}

/// What a bare wire message of any length carries.
fn carried(payload: &[u8]) -> Vec<u8> {
    let (_, _, carried, _): (u32, ([u8; 32], u64, u64), Vec<u8>, ([u8; 32],)) =
        postcard::from_bytes(payload).unwrap();
    carried
}

// Keys

#[test]
fn control_c_ends_the_program_anywhere() {
    for tab in [Tab::Contacts, Tab::Conversation, Tab::Settings] {
        let mut v = party("me");
        let mut app = state(&v);
        app.tab = tab;
        handle_key(&mut app, KeyPress { key: Key::Char('c'), control: true }, &mut v);
        assert!(!app.running);
    }
}

#[test]
fn a_contact_is_added_by_its_code() {
    let mut v = party("me");
    let mut app = state(&v);
    let code = build_export_code(&party("peer.onion:14101"));
    press(&mut app, &mut v, Key::Char('a'));
    assert_eq!(app.contact_mode, ContactMode::AddContact);
    type_text(&mut app, &mut v, &code);
    let effects = press(&mut app, &mut v, Key::Enter);
    assert!(effects.saved.is_some());
    assert_eq!(v.payload.contacts.len(), 1);
    assert_eq!(v.payload.contacts[0].display_name, "Contact 1");
    assert_eq!(app.contact_mode, ContactMode::List);
    assert_eq!(app.status, "Contact added. Press [v] to verify fingerprint out-of-band.");
}

#[test]
fn a_bootstrap_code_asks_for_the_bundle() {
    let mut v = party("me");
    let mut app = state(&v);
    let code = build_bootstrap_code(&party("peer.onion:14101"));
    press(&mut app, &mut v, Key::Char('a'));
    type_text(&mut app, &mut v, &code);
    let effects = press(&mut app, &mut v, Key::Enter);
    assert_eq!(effects.sent.len(), 1);
    assert_eq!(effects.sent[0].to, "peer.onion:14101");
    let wire = WireMessage::from_bytes(&effects.sent[0].payload).unwrap();
    assert_eq!(wire.msg_type, WireMessageType::BundleRequest);
    assert_eq!(app.pending_bundle_requests.len(), 1);
    press(&mut app, &mut v, Key::Char('a'));
    type_text(&mut app, &mut v, "op4b2:!!");
    press(&mut app, &mut v, Key::Enter);
    assert_eq!(app.status, "Invalid bootstrap code — check and try again.");
    press(&mut app, &mut v, Key::Char('a'));
    type_text(&mut app, &mut v, "junk!");
    press(&mut app, &mut v, Key::Enter);
    assert_eq!(app.status, "Invalid contact code — check and try again.");
}

#[test]
fn bundles_travel_through_the_interface() {
    let mut alice = party("alice.onion:14101");
    let mut bob = party("bob.onion:14101");
    let mut app_a = state(&alice);
    let mut app_b = state(&bob);
    press(&mut app_a, &mut alice, Key::Char('a'));
    type_text(&mut app_a, &mut alice, &build_bootstrap_code(&bob));
    let asked = press(&mut app_a, &mut alice, Key::Enter);
    let answered = handle_incoming_message(&mut app_b, &mut bob, &asked.sent[0].payload);
    assert_eq!(answered.sent.len(), 1);
    assert_eq!(answered.sent[0].to, "alice.onion:14101");
    let done = handle_incoming_message(&mut app_a, &mut alice, &answered.sent[0].payload);
    assert!(done.saved.is_some());
    assert_eq!(alice.payload.contacts.len(), 1);
    assert!(app_a.pending_bundle_requests.is_empty());
}

#[test]
fn a_message_goes_out_and_waits_for_approval() {
    let mut alice = party("alice.onion:14101");
    let mut bob = party("bob.onion:14101");
    add_contact(&mut alice, build_our_bundle(&bob).unwrap(), "Bob".into());
    let mut app_a = state(&alice);
    press(&mut app_a, &mut alice, Key::Char('2'));
    assert_eq!(app_a.tab, Tab::Conversation);
    type_text(&mut app_a, &mut alice, "hello bob");
    let effects = press(&mut app_a, &mut alice, Key::Enter);
    let draft = effects.message.unwrap();
    assert_eq!(draft.outgoing.to, "bob.onion:14101");
    assert_eq!(draft.plaintext, b"hello bob");
    let saved = finish_send(&mut app_a, &mut alice, &draft.contact_id, &draft.plaintext, None);
    assert!(saved.is_some());
    assert_eq!(app_a.status, "Message sent.");
    assert_eq!(app_a.messages[0].content, "hello bob");
    assert!(app_a.messages[0].from_us);

    let mut app_b = state(&bob);
    let effects = handle_incoming_message(&mut app_b, &mut bob, &draft.outgoing.payload);
    assert!(effects.saved.is_none());
    assert_eq!(app_b.pending_handshakes.len(), 1);
    assert_eq!(
        app_b.status,
        "1 pending contact request(s) — press [p] in Contacts to review"
    );
    press(&mut app_b, &mut bob, Key::Char('p'));
    assert_eq!(app_b.contact_mode, ContactMode::PendingRequest);
    press(&mut app_b, &mut bob, Key::Enter);
    assert_eq!(app_b.status, "Please enter a name for this contact first.");
    type_text(&mut app_b, &mut bob, "Alice");
    let effects = press(&mut app_b, &mut bob, Key::Enter);
    assert!(effects.saved.is_some());
    assert_eq!(bob.payload.contacts[0].display_name, "Alice");
    let id = bob.payload.contacts[0].id;
    assert_eq!(bob.load_messages(&id)[0].content, "hello bob");

    // What follows the first message arrives as well.
    type_text(&mut app_a, &mut alice, "again");
    let draft = press(&mut app_a, &mut alice, Key::Enter).message.unwrap();
    let effects = handle_incoming_message(&mut app_b, &mut bob, &draft.outgoing.payload);
    assert!(effects.saved.is_some());
    let log = bob.load_messages(&id);
    assert_eq!((log.len(), log[1].counter), (2, 2));
    assert_eq!(log[1].content, "again");
    assert!(!log[1].from_us);
}

#[test]
fn handshakes_spend_their_prekey() {
    let mut alice = party("alice");
    let mut bob = party("bob");
    bob.payload.generate_opks();
    add_contact(&mut alice, build_our_bundle(&bob).unwrap(), "Bob".into());
    let (pubs, ids) = (bob.payload.opk_public_keys(), bob.payload.opk_ids());
    alice.payload.contacts[0].apply_opk_refresh(pubs, ids);
    add_contact(&mut bob, build_our_bundle(&alice).unwrap(), "Alice".into());
    let out = op4_core::messenger::outgoing::compose_message(&mut alice, Some(0), b"hi")
        .ok()
        .unwrap();
    let had = bob.payload.opk_secrets.clone();
    let mut app = state(&bob);
    assert!(handle_incoming_message(&mut app, &mut bob, &out.payload).saved.is_some());
    assert_eq!(bob.payload.opk_secrets, had[1..]);
    let id = bob.payload.contacts[0].id;
    assert_eq!(bob.load_messages(&id)[0].content, "hi");
    assert!(handle_incoming_message(&mut app, &mut bob, &out.payload).saved.is_none());
}

#[test]
fn a_refused_message_is_not_logged() {
    let mut alice = party("alice");
    add_contact(&mut alice, build_our_bundle(&party("bob")).unwrap(), "Bob".into());
    let id = alice.payload.contacts[0].id;
    let mut app = state(&alice);
    let saved = finish_send(&mut app, &mut alice, &id, b"x", Some("no route".into()));
    assert!(saved.is_none());
    assert!(app.status.contains("no route"));
    assert!(alice.load_messages(&id).is_empty());
}

#[test]
fn the_request_queue_drops_the_oldest() {
    let mut bob = party("bob");
    let mut app = state(&bob);
    for i in 0..MAX_PENDING_HANDSHAKES + 2 {
        let mut peer = party("peer");
        add_contact(&mut peer, build_our_bundle(&bob).unwrap(), "Bob".into());
        let text = format!("request {i}");
        let out =
            op4_core::messenger::outgoing::compose_message(&mut peer, Some(0), text.as_bytes())
                .ok()
                .unwrap();
        handle_incoming_message(&mut app, &mut bob, &out.payload);
    }
    assert_eq!(app.pending_handshakes.len(), MAX_PENDING_HANDSHAKES);
    assert_eq!(app.pending_handshakes[0].plaintext, b"request 2");
    assert_eq!(app.pending_handshakes[9].plaintext, b"request 11");
}

#[test]
fn rotations_raise_a_key_alert() {
    let mut alice = party("alice");
    let mut bob = party("bob");
    let bob_bundle = build_our_bundle(&bob).unwrap();
    add_contact(&mut alice, bob_bundle, "Bob".into());
    add_contact(&mut bob, build_our_bundle(&alice).unwrap(), "Alice".into());
    let mut app_a = state(&alice);
    let old_code = app_a.export_code.clone();
    app_a.tab = Tab::Settings;
    app_a.settings_selected = Some(3);
    press(&mut app_a, &mut alice, Key::Enter);
    assert_eq!(app_a.settings_edit_mode, SettingsEditMode::ConfirmRotate);
    let effects = press(&mut app_a, &mut alice, Key::Char('y'));
    assert_eq!(effects.sent.len(), 1);
    assert!(effects.saved.is_some());
    assert_ne!(app_a.export_code, old_code);

    let mut app_b = state(&bob);
    handle_inbound_revocation(&mut app_b, &mut bob, &carried(&effects.sent[0].payload));
    assert_eq!(app_b.contact_mode, ContactMode::KeyAlert);
    assert_eq!(app_b.key_alert.as_ref().unwrap().0, "Alice");
    press(&mut app_b, &mut bob, Key::Char('x'));
    assert_eq!(app_b.contact_mode, ContactMode::KeyAlert);
    press(&mut app_b, &mut bob, Key::Char('v'));
    assert_eq!(app_b.contact_mode, ContactMode::List);
    assert!(bob.payload.contacts[0].verified);
    app_b.contact_mode = ContactMode::KeyAlert;
    press(&mut app_b, &mut bob, Key::Char('r'));
    assert!(bob.payload.contacts.is_empty());
    assert_eq!(app_b.status, "Contact rejected and removed.");
}

#[test]
fn garbage_changes_nothing() {
    let mut bob = party("bob");
    let mut app = state(&bob);
    let status = app.status.clone();
    let effects = handle_incoming_message(&mut app, &mut bob, b"garbage");
    assert!(effects.saved.is_none() && effects.sent.is_empty() && effects.message.is_none());
    assert_eq!(app.status, status);
    assert_eq!(bob.payload.sequence, 0);
}

#[test]
fn searches_count_whatever_the_case() {
    let mut v = party("me");
    let mut app = state(&v);
    app.messages = vec![
        StoredMessage { counter: 1, content: "Hello World".into(), from_us: true },
        StoredMessage { counter: 2, content: "ÄRGER".into(), from_us: false },
    ];
    assert_eq!(count_matches(&app.messages, "wORLD"), 1);
    assert_eq!(count_matches(&app.messages, "är"), 1);
    assert_eq!(count_matches(&app.messages, "zz"), 0);
    app.tab = Tab::Conversation;
    press(&mut app, &mut v, Key::Char('/'));
    assert!(app.search_active);
    type_text(&mut app, &mut v, "he");
    assert_eq!(app.status, "Search: \"he\"  (1 match(es))  Esc:clear");
    press(&mut app, &mut v, Key::Esc);
    assert!(!app.search_active && app.search_query.is_empty());
}

#[test]
fn settings_are_edited() {
    let mut v = party("me");
    let mut app = state(&v);
    app.tab = Tab::Settings;
    app.settings_selected = Some(2);
    press(&mut app, &mut v, Key::Enter);
    type_text(&mut app, &mut v, "50x");
    press(&mut app, &mut v, Key::Backspace);
    let effects = press(&mut app, &mut v, Key::Enter);
    assert!(effects.saved.is_some());
    assert_eq!(v.payload.settings.default_auto_delete, Some(50));
    assert_eq!(app.status, "Auto-delete threshold updated.");
    app.settings_selected = Some(0);
    press(&mut app, &mut v, Key::Enter);
    assert_eq!(app.settings_edit_buf, "127.0.0.1:9050");
    app.settings_edit_buf = "  ".into();
    let effects = press(&mut app, &mut v, Key::Enter);
    assert!(effects.saved.is_none());
    assert_eq!(app.status, "No change — address cannot be empty.");
    app.settings_selected = Some(6);
    assert!(press(&mut app, &mut v, Key::Enter).new_circuit);
}

#[test]
fn thresholds_are_numbers_or_nothing() {
    assert_eq!(read_threshold(" 42 "), Some(42));
    assert_eq!(read_threshold(""), None);
    assert_eq!(read_threshold("abc"), None);
    assert_eq!(read_threshold("4294967295"), Some(u32::MAX));
    assert_eq!(read_threshold("4294967296"), None);
    assert_eq!(show_threshold(Some(3)), "3 messages");
    assert_eq!(show_threshold(None), "disabled");
}

#[test]
fn opening_a_conversation_reads_it() {
    let mut v = party("me");
    add_contact(&mut v, build_our_bundle(&party("bob")).unwrap(), "Bob".into());
    let id = v.payload.contacts[0].id;
    log_message(&mut v, &id, "unread".into(), false);
    mark_unread(&mut v, &id);
    let mut app = state(&v);
    assert!(refresh_messages(&mut app, &mut v).is_some());
    assert_eq!(app.messages.len(), 1);
    assert_eq!(v.payload.conversations[0].unread_count, 0);
    assert!(refresh_messages(&mut app, &mut v).is_none());
}

#[test]
fn the_decoy_ends_on_q_or_control_c() {
    assert!(ends_duress(KeyPress { key: Key::Char('q'), control: false }));
    assert!(ends_duress(KeyPress { key: Key::Char('c'), control: true }));
    assert!(!ends_duress(KeyPress { key: Key::Char('c'), control: false }));
    assert!(!ends_duress(KeyPress { key: Key::Esc, control: false }));
}

// What is shown

fn contact(name: &str) -> StoredContact {
    let kem = HybridKemKeypair::generate();
    let signing = HybridSigningKeypair::generate();
    let bundle = PublicKeyBundle::from_keypairs(&kem, &signing, [0u8; 32], "peer.onion".into());
    StoredContact::new(bundle, name.into(), 0)
}

#[test]
fn fingerprint_unverified_shows_warning() {
    let contact = contact("Suspect");
    let output = format!("{}\n{}", fingerprint_banner(contact.verified), fingerprint_text(&contact));
    assert!(output.contains("FINGERPRINT NOT VERIFIED"), "unverified must show warning");
    assert!(output.contains("Fingerprint:"), "must display fingerprint label");
}

#[test]
fn fingerprint_verified_shows_checkmark() {
    let mut contact = contact("Trusted");
    contact.verified = true;
    let output = format!("{}\n{}", fingerprint_banner(contact.verified), fingerprint_text(&contact));
    assert!(output.contains("Fingerprint verified"), "verified must show confirmation");
    assert!(!output.contains("FINGERPRINT NOT VERIFIED"), "must not show warning");
}

#[test]
fn rows_carry_marks_and_badges() {
    let mut c = contact("Al\x1b[1mice");
    let row = contact_row(&c, 3);
    assert_eq!((row.name.as_str(), row.mark(), row.badge.as_str()), ("Alice", " ⚠ UNVERIFIED", " (3)"));
    c.verified = true;
    let row = contact_row(&c, 0);
    assert_eq!((row.mark(), row.badge.as_str()), (" ✓", ""));
    assert_eq!(tab_label("Contacts", 2), "Contacts (2)");
    assert_eq!(tab_label("Contacts", 0), "Contacts");
    assert!(empty_list(0).starts_with("No contacts yet."));
    assert!(empty_list(4).ends_with("[p]  Review 4 pending contact request(s)"));
    let alert = key_change_alert("Alice", "AAAA");
    assert!(alert.contains("Alice") && alert.contains("AAAA"));
    let codes = export_codes("BOOT", "FULL");
    assert!(codes.ends_with("\nBOOT\n\nFull contact code (manual sharing):\nFULL"));
}

#[test]
fn message_lines_follow_the_search() {
    let messages = vec![
        StoredMessage { counter: 7, content: "Hello".into(), from_us: true },
        StoredMessage { counter: 8, content: "Other".into(), from_us: false },
    ];
    let all = message_lines(&messages, "");
    assert_eq!(all.len(), 2);
    assert!(all[0].from_us && !all[1].from_us);
    let found = message_lines(&messages, "HELL");
    assert_eq!(found.len(), 1);
    assert_eq!(found[0].content, "Hello");
    assert_eq!(all[0].counter, "[#000007] ");
    assert_eq!((all[0].prefix(), all[1].prefix()), ("You  ", "Them "));
    let screen = conversation_screen("Bob", &messages, "draft", "");
    assert_eq!(screen.lines.len(), 2);
    assert_eq!(screen.title, " Bob ");
    assert_eq!(screen.draft, "draft");
    let screen = conversation_screen("Bob", &messages, "", "hell");
    assert_eq!(screen.title, " Bob — search: \"hell\" (1/2) ");
    assert_eq!(screen.draft_title, "Message  [search active — Esc to clear]");
}

#[test]
fn settings_have_lines_and_popups() {
    let mut s = AppSettings::default();
    s.default_auto_delete = Some(9);
    let lines = settings_lines(&s);
    assert_eq!(lines.len(), 7);
    assert_eq!(lines[0], "Tor SOCKS5 address: 127.0.0.1:9050");
    assert_eq!(lines[1], "Nym gateway: (auto)");
    assert_eq!(lines[2], "Auto-delete after: 9 messages");
    assert_eq!(lines[6], "Refresh Tor circuit (SIGNAL NEWNYM)");
    assert!(settings_popup(SettingsEditMode::Closed).is_none());
    let popup = settings_popup(SettingsEditMode::EditTorAddr).unwrap();
    assert!(popup.editable);
    assert_eq!(popup.title, "Edit Tor SOCKS5 Address");
    assert!(!settings_popup(SettingsEditMode::ConfirmRevoke).unwrap().editable);
}

#[test]
fn qr_codes_are_drawn_in_half_blocks() {
    let lines = qr_lines("op4").unwrap();
    let code = qrcode::QrCode::new(b"op4").unwrap();
    let modules = code.width();
    let colors = code.to_colors();
    let zone = (qr_terminal_width("op4") as usize - modules) / 2;
    let size = modules + 2 * zone;
    assert_eq!(qr_terminal_height("op4") as usize, (size + 1) / 2);
    let dark = |row: usize, col: usize| {
        row >= zone
            && col >= zone
            && row < zone + modules
            && col < zone + modules
            && colors[(row - zone) * modules + (col - zone)] == qrcode::Color::Dark
    };
    assert_eq!(lines.len(), (size + 1) / 2);
    for (r, line) in lines.iter().enumerate() {
        assert_eq!(line.len(), size);
        for (c, cell) in line.iter().enumerate() {
            let expected = match (dark(2 * r, c), dark(2 * r + 1, c)) {
                (true, true) => '█',
                (true, false) => '▀',
                (false, true) => '▄',
                (false, false) => ' ',
            };
            assert_eq!(cell.glyph(), expected);
        }
    }
}

#[test]
fn qr_codes_have_bounds() {
    assert!(qr_fits("op4", 200, 200));
    assert!(!qr_fits("op4", 10, 10));
    let long = "x".repeat(10000);
    assert!(qr_lines(&long).is_none());
    assert_eq!((qr_terminal_width(&long), qr_terminal_height(&long)), (0, 0));
    assert!(!qr_fits(&long, 200, 200));
    assert_eq!(qr_failure(), "[QR generation failed — data may be too large]");
}

#[test]
fn qr_pictures_have_four_pixels_per_module() {
    let picture = qr_image("op4").unwrap();
    let code = qrcode::QrCode::new(b"op4").unwrap();
    let modules = code.width();
    let colors = code.to_colors();
    let size = modules * 4 + 32;
    assert_eq!(picture.len(), size);
    for (y, line) in picture.iter().enumerate() {
        assert_eq!(line.len(), size);
        for (x, black) in line.iter().enumerate() {
            let inside = y >= 16 && x >= 16 && y < size - 16 && x < size - 16;
            let expected = inside
                && colors[(y - 16) / 4 * modules + (x - 16) / 4] == qrcode::Color::Dark;
            assert_eq!(*black, expected);
        }
    }
}

// Passphrases

#[test]
fn strength_is_judged() {
    let weak = evaluate_strength("password");
    assert!(!weak.is_acceptable);
    assert!(weak
        .feedback
        .contains(&"Passphrase must be at least 12 characters (currently 8)".to_string()));
    let strong = evaluate_strength("correct horse battery staple quartz");
    assert!(strong.is_acceptable);
    assert!(strong.score >= 3);
    assert!(!evaluate_strength("aaaaaaaaaaaaaaaa").is_acceptable);
    assert_eq!(score_label(0), "Very weak");
    assert_eq!(score_label(4), "Very strong");
}

#[test]
fn long_passphrases_are_as_strong_as_their_strongest_stretch() {
    for text in ["qw".repeat(60), "aA".repeat(50), "password1".repeat(30)] {
        let r = evaluate_strength(&text);
        assert!(r.score <= 4);
        assert_eq!(r.is_acceptable, r.score >= 3);
        assert_eq!(meter_score(&text), r.score);
    }
    let tail = "x7#Kq!pZ0vLm@3Rt";
    assert!(!evaluate_strength(&"a".repeat(60)).is_acceptable);
    assert!(evaluate_strength(&("a".repeat(20) + tail)).is_acceptable);
    assert!(evaluate_strength(&(tail.to_string() + &"a".repeat(200))).is_acceptable);
    // What stands behind the first hundred characters is not read.
    assert!(!evaluate_strength(&("a".repeat(100) + tail)).is_acceptable);
}

#[test]
fn the_first_of_the_strongest_estimates_counts() {
    let estimate = |score: u8, text: &str| Estimate {
        score,
        warning: Some(text.into()),
        suggestions: Vec::new(),
    };
    let r = strongest(vec![estimate(1, "a"), estimate(3, "b"), estimate(3, "c"), estimate(0, "d")]);
    assert_eq!((r.score, r.warning.as_deref()), (3, Some("b")));
    assert_eq!(strongest(vec![estimate(0, "only")]).warning.as_deref(), Some("only"));
}

#[test]
fn estimates_are_judged_by_their_score() {
    let estimate = |score: u8| Estimate {
        score,
        warning: Some("This is a name".into()),
        suggestions: vec!["Add a word".into()],
    };
    let r = judge(&estimate(3));
    assert!(r.is_acceptable);
    assert_eq!(r.score, 3);
    assert_eq!(r.feedback, ["Warning: This is a name", "Suggestion: Add a word"]);
    assert!(!judge(&estimate(2)).is_acceptable);
}

#[test]
fn new_passphrases_are_entered_twice() {
    assert_eq!(prompt_unlock_passphrase(), "Passphrase: ");
    assert_eq!(prompt_text(&NewPassphrase::Enter), "Enter new passphrase: ");
    let weak = evaluate_strength("short");
    let (step, told) = first_entry("short".into(), &weak);
    assert!(matches!(step, NewPassphrase::Enter));
    assert!(told[0].starts_with("Passphrase is too weak (score "));
    let text = "correct horse battery staple quartz";
    let strong = evaluate_strength(text);
    let (step, told) = first_entry(text.into(), &strong);
    assert_eq!(prompt_text(&step), "Confirm passphrase: ");
    assert!(told.is_empty());
    match step {
        NewPassphrase::Confirm(p) => assert_eq!(p, text),
        _ => panic!("strong passphrases are confirmed"),
    }
    match second_entry(text.into(), &text.to_string()) {
        (NewPassphrase::Chosen(p), None) => assert_eq!(p, text),
        _ => panic!("the entries match"),
    }
    match second_entry(text.into(), &"other".to_string()) {
        (NewPassphrase::Enter, Some(t)) => assert_eq!(t, "Passphrases do not match. Try again."),
        _ => panic!("the entries differ"),
    }
    assert!(duress_differs(&"a".to_string(), &"b".to_string()));
    assert!(!duress_differs(&"a".to_string(), &"a".to_string()));
}

#[test]
fn wrong_passphrases_are_limited() {
    let told = after_wrong_passphrase(1);
    assert_eq!(told, ("Incorrect passphrase (1/3). Try again.".to_string(), true));
    assert!(after_wrong_passphrase(2).1);
    assert_eq!(
        after_wrong_passphrase(3),
        ("3 incorrect attempts. Exiting.".to_string(), false)
    );
}

#[test]
fn typed_bytes_build_a_passphrase() {
    let mut secret = String::new();
    for b in "aé b".as_bytes() {
        assert!(!type_byte(&mut secret, *b));
    }
    assert_eq!(secret, "a b");
    assert!(type_byte(&mut secret, b'\n'));
    assert!(type_byte(&mut secret, b'\r'));
    assert_eq!(secret, "a b");
}

#[test]
fn phone_passphrases_are_checked() {
    let check = |a: &str, b: &str| check_new_passphrases(&a.to_string(), &b.to_string());
    assert_eq!(check("12345678", "other"), None);
    assert_eq!(check("1234567", "other"), Some("Passphrase must be at least 8 characters."));
    assert_eq!(check("12345678", ""), Some("Duress passphrase is required."));
    assert_eq!(
        check("12345678", "12345678"),
        Some("Duress passphrase must differ from main passphrase.")
    );
    assert_eq!(meter_score("password"), 0);
    assert!(meter_score("correct horse battery staple quartz") >= 3);
    assert_eq!((meter_label(1), meter_label(3), meter_label(4)), ("Weak", "Good", "Strong"));
}
