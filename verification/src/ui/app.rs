//! The event loop's decisions: what a key does, and what a message that came
//! in does.
use crate::codec::{models, Record};
use crate::crypto::hmac_auth::MessageMac;
use crate::crypto::ratchet::{bob_start, HeaderView, MessageHeader};
use crate::identity::profile::ContactView;
use crate::identity::revocation::{RevocationCertificate, RevocationView};
use crate::messenger::bundles::{
    accept_bundle_response, accepted_answer, answer_bundle_request, is_answer, requester,
};
use crate::messenger::contacts::contact_label;
use crate::messenger::incoming::{
    contacts_after, data_received, find_sender, handshake_opened, message_text, open_handshake,
    opener_from, owner_from, prekey_spent, receive_data, receive_handshake, receive_revocation,
    received_from, sender_from, spend_prekey,
    DataOutcome, OpenedView, RevocationOutcome,
};
use crate::messenger::sessions::{clear_unread, lemma_same_sequence, logged, only_talk_changed};
use crate::crypto::suite::sealable;
use crate::network::message::{decoded, sized_part, WireMessage, WireMessageType, WireView};
use crate::storage::vault::{SavedVault, VaultUnlocked, VaultView};
use crate::text;
use crate::text::decimal;
use crate::bytes;
use crate::ui::contact_keys::{
    alert_app, alert_place, alert_vault, contacts_app, contacts_outcome, handle_contacts_key,
    handle_key_alert, is_reject, is_verify,
};
use crate::ui::conversation_keys::{
    conversation_app, conversation_outcome, handle_conversation_key,
};
use crate::ui::input::{display_text, sanitize_for_display};
use crate::ui::settings_keys::{handle_settings_key, settings_app, settings_outcome};
use crate::ui::state::{
    opened_views, saves, try_save, AppState, AppView, ContactMode, Effects, Key, KeyPress, Tab,
    MAX_PENDING_HANDSHAKES,
};
use vstd::prelude::*;

verus! {

/// Whether a key press ends the program wherever the user is.
pub open spec fn is_interrupt(press: KeyPress) -> bool {
    press.control && press.key == Key::Char('c')
}

/// What a key press makes of the interface.
pub open spec fn key_app(a: AppView, v: VaultView, press: KeyPress, after: VaultView) -> AppView {
    if is_interrupt(press) {
        AppView { running: false, ..a }
    } else if a.contact_mode == ContactMode::KeyAlert {
        alert_app(a, v, press.key)
    } else {
        match a.tab {
            Tab::Contacts => contacts_app(a, v, press.key),
            Tab::Conversation => conversation_app(a, v, press.key),
            Tab::Settings => settings_app(a, v, press.key, after),
        }
    }
}

/// What a key press makes of the vault, and what it saves and sends.
pub open spec fn key_outcome(
    a: AppView,
    v: VaultView,
    press: KeyPress,
    after: VaultView,
    e: Effects,
) -> bool {
    if is_interrupt(press) {
        after == v && e.none_spec()
    } else if a.contact_mode == ContactMode::KeyAlert {
        &&& after == alert_vault(a, v, press.key)
        &&& if is_reject(press.key) || (is_verify(press.key) && alert_place(a)
            < v.payload.contacts.len()) {
            e.saves_only(after)
        } else {
            e.none_spec()
        }
    } else {
        match a.tab {
            Tab::Contacts => contacts_outcome(a, v, press.key, after, e),
            Tab::Conversation => conversation_outcome(a, v, press.key, after, e),
            Tab::Settings => settings_outcome(a, v, press.key, after, e),
        }
    }
}

/// Whether a key press is met by a contact: rejecting a changed key removes
/// the selected contact, which must be in the list.
pub open spec fn key_meets(a: AppView, v: VaultView, press: KeyPress) -> bool {
    a.contact_mode == ContactMode::KeyAlert && !is_interrupt(press) && is_reject(press.key)
        ==> alert_place(a) < v.payload.contacts.len()
}

/// A key press.
pub fn handle_key(app: &mut AppState, press: KeyPress, vault: &mut VaultUnlocked) -> (r: Effects)
    requires
        old(app)@.wf(),
        old(vault)@.has_room(),
        key_meets(old(app)@, old(vault)@, press),
    ensures
        final(app)@.wf(),
        final(app)@ == key_app(old(app)@, old(vault)@, press, final(vault)@),
        key_outcome(old(app)@, old(vault)@, press, final(vault)@, r),
{
    if press.control && press.key == Key::Char('c') {
        app.running = false;
        return Effects::none();
    }
    if app.contact_mode == ContactMode::KeyAlert {
        return handle_key_alert(app, press.key, vault);
    }
    match app.tab {
        Tab::Contacts => handle_contacts_key(app, press.key, vault),
        Tab::Conversation => handle_conversation_key(app, press.key, vault),
        Tab::Settings => handle_settings_key(app, press.key, vault),
    }
}

/// Whether a key press ends the decoy that the duress passphrase opens.
pub fn ends_duress(press: KeyPress) -> (r: bool)
    ensures
        r == (is_interrupt(press) || press.key == Key::Char('q') || press.key == Key::Char('Q')),
{
    press.key == Key::Char('q') || press.key == Key::Char('Q') || (press.control && press.key
        == Key::Char('c'))
}

/// What opening another conversation makes of the interface: its messages are
/// on screen.
pub open spec fn refreshed_app(a: AppView, v: VaultView) -> AppView {
    if a.current_contact() == a.loaded_contact {
        a
    } else {
        AppView {
            messages: match a.on_screen(v) {
                Some(id) => v.messages(id),
                None => seq![],
            },
            loaded_contact: a.current_contact(),
            ..a
        }
    }
}

/// What opening another conversation makes of the vault: it has no unread
/// messages any more.
pub open spec fn refreshed_vault(
    a: AppView,
    v: VaultView,
    after: VaultView,
    saved: Option<SavedVault>,
) -> bool {
    match a.on_screen(v) {
        Some(id) => if a.current_contact() != a.loaded_contact && v.unread(id) > 0 {
            let talk = after.at(v.payload.sequence);
            &&& after == talk.next()
            &&& only_talk_changed(v, talk, id)
            &&& talk.session(id) == v.session(id)
            &&& talk.messages(id) == v.messages(id)
            &&& talk.unread(id) == 0
            &&& saves(after, saved)
        } else {
            after == v && saved is None
        },
        None => after == v && saved is None,
    }
}

/// Loads the messages of the conversation that the user is in, if others are
/// on screen.
pub fn refresh_messages(app: &mut AppState, vault: &mut VaultUnlocked) -> (r: Option<SavedVault>)
    requires
        old(app)@.wf(),
        old(vault)@.has_room(),
    ensures
        final(app)@.wf(),
        final(app)@ == refreshed_app(old(app)@, old(vault)@),
        refreshed_vault(old(app)@, old(vault)@, final(vault)@, r),
{
    let current = app.current_contact();
    let same = match current {
        Some(i) => match app.loaded_contact {
            Some(k) => i == k,
            None => false,
        },
        None => app.loaded_contact.is_none(),
    };
    if same {
        return None;
    }
    let shown = app.on_screen(vault);
    app.loaded_contact = current;
    match shown {
        None => {
            app.messages = Vec::new();
            assert(app@.messages =~= seq![]);
            None
        },
        Some(id) => {
            app.messages = vault.load_messages(&id);
            if !clear_unread(vault, &id) {
                return None;
            }
            let ghost talk = vault@;
            let saved = try_save(vault);
            assert(vault@.at(old(vault)@.payload.sequence) =~= talk);
            saved
        },
    }
}

/// The queue of contact requests with one more in it. A full queue loses its
/// oldest.
pub open spec fn queued(pending: Seq<OpenedView>, h: OpenedView) -> Seq<OpenedView> {
    if pending.len() >= MAX_PENDING_HANDSHAKES {
        pending.remove(0).push(h)
    } else {
        pending.push(h)
    }
}

/// The queue of contact requests never exceeds its cap, however many come in,
/// and the newest is always in it.
pub proof fn queue_is_bounded(pending: Seq<OpenedView>, h: OpenedView)
    requires
        pending.len() <= MAX_PENDING_HANDSHAKES,
    ensures
        queued(pending, h).len() <= MAX_PENDING_HANDSHAKES,
        queued(pending, h).last() == h,
{
}

/// What a handshake makes of the interface.
pub open spec fn handshake_app(a: AppView, v: VaultView, b: Seq<u8>) -> AppView {
    match handshake_opened(v.payload, b) {
        None => a,
        Some(h) => match sender_from(v.payload.contacts, h.bundle.ed25519_vk, 0) {
            Some(i) => {
                let id = v.payload.contacts[i].id;
                if a.on_screen(v) == Some(id) {
                    AppView {
                        messages: logged(v.messages(id), message_text(h.plaintext), false),
                        ..a
                    }
                } else {
                    a
                }
            },
            None => AppView {
                pending: queued(a.pending, h),
                status: decimal(queued(a.pending, h).len())
                    + " pending contact request(s) — press [p] in Contacts to review"@,
                ..a
            },
        },
    }
}

/// What a handshake makes of the vault: one from a contact starts the session
/// over and brings a message; any other waits for the user. A one-time prekey
/// of ours that it used is spent either way.
pub open spec fn handshake_outcome(
    a: AppView,
    v: VaultView,
    b: Seq<u8>,
    after: VaultView,
    e: Effects,
) -> bool {
    match handshake_opened(v.payload, b) {
        None => after == v && e.none_spec(),
        Some(h) => match sender_from(v.payload.contacts, h.bundle.ed25519_vk, 0) {
            Some(i) => {
                let id = v.payload.contacts[i].id;
                let talk = after.at(v.payload.sequence);
                &&& after == talk.next()
                &&& received_from(
                    prekey_spent(v, h.used_opk),
                    talk,
                    id,
                    bob_start(h.session_key, v.payload.ratchet_secret()->0),
                    message_text(h.plaintext),
                    a.on_screen(v) == Some(id),
                )
                &&& e.saves_only(after)
            },
            None => if h.used_opk is None {
                after == v && e.none_spec()
            } else {
                after == prekey_spent(v, h.used_opk).next() && e.saves_only(after)
            },
        },
    }
}

/// Whether two ids are the same.
fn is_same(a: &Option<[u8; 32]>, b: &[u8; 32]) -> (r: bool)
    ensures
        r == (match *a {
            Some(x) => Some(x@),
            None => None,
        } == Some(b@)),
{
    match a {
        Some(x) => bytes::same_bytes(x, b),
        None => false,
    }
}

/// A handshake that came in. From a contact it completes the session at once;
/// from anyone else it waits for the user.
pub fn handle_inbound_handshake(app: &mut AppState, vault: &mut VaultUnlocked, hs_bytes: &[u8]) -> (r:
    Effects)
    requires
        old(app)@.wf(),
        old(vault)@.has_room(),
    ensures
        final(app)@.wf(),
        final(app)@ == handshake_app(old(app)@, old(vault)@, hs_bytes@),
        handshake_outcome(old(app)@, old(vault)@, hs_bytes@, final(vault)@, r),
{
    let h = match open_handshake(vault, hs_bytes) {
        Some(h) => h,
        None => {
            return Effects::none();
        },
    };
    spend_prekey(vault, &h);
    let ghost spent = vault@;
    match find_sender(&vault.payload.contacts, &h.bundle.ed25519_vk) {
        Some(i) => {
            assert(spent.messages(old(vault)@.payload.contacts[i as int].id) == old(
                vault,
            )@.messages(old(vault)@.payload.contacts[i as int].id));
            assert(vault@.payload.contacts[i as int] == vault.payload.contacts@[i as int]@);
            let contact_id = vault.payload.contacts[i].id;
            let shown = is_same(&app.on_screen(vault), &contact_id);
            let messages = match receive_handshake(vault, &contact_id, &h, shown) {
                Some(m) => m,
                None => {
                    return Effects::none();
                },
            };
            let ghost talk = vault@;
            if shown {
                app.messages = messages;
            }
            proof {
                lemma_same_sequence(spent, talk, contact_id@);
            }
            let effects = Effects::save_of(vault);
            assert(vault@.at(old(vault)@.payload.sequence) =~= talk);
            effects
        },
        None => {
            let used = h.used_opk.is_some();
            let ghost all = app.pending_handshakes@;
            let ghost view = h@;
            if app.pending_handshakes.len() >= MAX_PENDING_HANDSHAKES {
                app.pending_handshakes.remove(0);
                assert(opened_views(app.pending_handshakes@) =~= opened_views(all).remove(0));
            }
            let ghost kept = app.pending_handshakes@;
            app.pending_handshakes.push(h);
            assert(app@.pending =~= opened_views(kept).push(view));
            let n: usize = app.pending_handshakes.len();
            app.status = text::joined(
                text::decimal_text(n as u64).as_str(),
                " pending contact request(s) — press [p] in Contacts to review",
            );
            if used {
                Effects::save_of(vault)
            } else {
                Effects::none()
            }
        },
    }
}

/// What a data message makes of the interface, the vault and the disk.
pub open spec fn data_outcome(
    a: AppView,
    v: VaultView,
    header: HeaderView,
    ct: Seq<u8>,
    tag: Seq<u8>,
    after_app: AppView,
    after: VaultView,
    e: Effects,
    outcome: DataOutcome,
) -> bool {
    let talk = after.at(v.payload.sequence);
    &&& data_received(v, talk, header, ct, tag, a.on_screen(v), outcome)
    &&& match outcome {
        DataOutcome::Dropped => after_app == a && after == v && e.none_spec(),
        DataOutcome::Rejected => {
            &&& after_app == (AppView {
                status: "Message rejected: HMAC authentication failed."@,
                ..a
            })
            &&& after == v
            &&& e.none_spec()
        },
        DataOutcome::Received(id, messages) => {
            &&& after_app == (if a.on_screen(v) == Some(id@) {
                AppView { messages: models(messages@), ..a }
            } else {
                a
            })
            &&& after == talk.next()
            &&& e.saves_only(after)
        },
    }
}

/// What a data message makes of the interface, the vault and the disk, however
/// it ends.
pub open spec fn data_result(
    a: AppView,
    v: VaultView,
    w: WireView,
    after_app: AppView,
    after: VaultView,
    e: Effects,
) -> bool {
    exists|outcome: DataOutcome|
        #[trigger] data_outcome(
            a,
            v,
            w.header,
            w.ciphertext,
            w.mac,
            after_app,
            after,
            e,
            outcome,
        )
}

/// A data message that came in: it is tried against every session.
pub fn handle_inbound_data(
    app: &mut AppState,
    vault: &mut VaultUnlocked,
    header: &MessageHeader,
    ciphertext: &[u8],
    mac: &MessageMac,
) -> (r: Effects)
    requires
        old(app)@.wf(),
        old(vault)@.has_room(),
    ensures
        final(app)@.wf(),
        data_result(
            old(app)@,
            old(vault)@,
            WireView {
                msg_type: WireMessageType::Data,
                header: header@,
                ciphertext: ciphertext@,
                mac: mac.tag@,
            },
            final(app)@,
            final(vault)@,
            r,
        ),
{
    let shown = app.on_screen(vault);
    let outcome = receive_data(vault, header, ciphertext, mac, shown);
    let ghost talk = vault@;
    let ghost what = outcome;
    proof {
        lemma_data_keeps_sequence(
            old(vault)@,
            talk,
            header@,
            ciphertext@,
            mac.tag@,
            old(app)@.on_screen(old(vault)@),
            what,
        );
        assert(talk.at(old(vault)@.payload.sequence) =~= talk);
    }
    let effects = match outcome {
        DataOutcome::Dropped => Effects::none(),
        DataOutcome::Rejected => {
            app.status = "Message rejected: HMAC authentication failed.".to_owned();
            Effects::none()
        },
        DataOutcome::Received(id, messages) => {
            if is_same(&shown, &id) {
                app.messages = messages;
            }
            let effects = Effects::save_of(vault);
            assert(vault@.at(old(vault)@.payload.sequence) =~= talk);
            effects
        },
    };
    proof {
        let w = WireView {
            msg_type: WireMessageType::Data,
            header: header@,
            ciphertext: ciphertext@,
            mac: mac.tag@,
        };
        assert(data_outcome(
            old(app)@,
            old(vault)@,
            w.header,
            w.ciphertext,
            w.mac,
            app@,
            vault@,
            effects,
            what,
        ));
        assert(data_result(old(app)@, old(vault)@, w, app@, vault@, effects));
    }
    effects
}

/// A data message leaves the sequence as it is.
proof fn lemma_data_keeps_sequence(
    before: VaultView,
    after: VaultView,
    header: HeaderView,
    padded: Seq<u8>,
    tag: Seq<u8>,
    on_screen: Option<Seq<u8>>,
    outcome: DataOutcome,
)
    requires
        data_received(before, after, header, padded, tag, on_screen, outcome),
    ensures
        after.payload.sequence == before.payload.sequence,
{
    if outcome is Received {
        let ct = sized_part(padded)->0;
        let i = opener_from(before, header, ct, 0)->0;
        lemma_same_sequence(before, after, before.payload.contacts[i].id);
    }
}

/// What a revocation makes of the interface.
pub open spec fn revocation_app(a: AppView, contacts: Seq<ContactView>, cert: RevocationView) -> AppView {
    match owner_from(contacts, cert.x25519_pub, 0) {
        None => a,
        Some(i) => {
            let name = contacts[i].display_name;
            if !cert.signed_by(contacts[i].bundle) {
                a
            } else {
                match cert.new_bundle {
                    Some(b) => AppView {
                        key_alert: Some((name, b.fingerprint())),
                        contact_mode: ContactMode::KeyAlert,
                        tab: Tab::Contacts,
                        status: "⚠ "@ + name
                            + " has rotated their key — re-verify fingerprint out-of-band."@,
                        ..a
                    },
                    None => AppView {
                        status: "Contact '"@ + name
                            + "' has revoked their key with no replacement. They have been removed from your contact list."@,
                        ..a
                    },
                }
            }
        },
    }
}

/// Whether a revocation is one of a contact, signed by it.
pub open spec fn revocation_counts(contacts: Seq<ContactView>, cert: RevocationView) -> bool {
    owner_from(contacts, cert.x25519_pub, 0) matches Some(i) && cert.signed_by(contacts[i].bundle)
}

/// What a revocation makes of the interface, the vault and the disk. One that
/// does not count leaves no trace.
pub open spec fn revocation_result(
    a: AppView,
    v: VaultView,
    b: Seq<u8>,
    after_app: AppView,
    after: VaultView,
    e: Effects,
) -> bool {
    match RevocationCertificate::take_spec(b) {
        Some((cert, _)) if revocation_counts(v.payload.contacts, cert) => {
            &&& after_app == revocation_app(a, v.payload.contacts, cert)
            &&& after == v.with_contacts(contacts_after(v.payload.contacts, cert)).next()
            &&& e.saves_only(after)
        },
        _ => after_app == a && after == v && e.none_spec(),
    }
}

/// A revocation that came in. A rotation raises an alert until the user has
/// looked at the new fingerprint.
pub fn handle_inbound_revocation(app: &mut AppState, vault: &mut VaultUnlocked, cert_bytes: &[u8]) -> (r:
    Effects)
    requires
        old(app)@.wf(),
        old(vault)@.has_room(),
    ensures
        final(app)@.wf(),
        revocation_result(old(app)@, old(vault)@, cert_bytes@, final(app)@, final(vault)@, r),
{
    match receive_revocation(vault, cert_bytes) {
        RevocationOutcome::Ignored => Effects::none(),
        RevocationOutcome::Rotated(name, fingerprint) => {
            app.status = text::joined3(
                "⚠ ",
                name.as_str(),
                " has rotated their key — re-verify fingerprint out-of-band.",
            );
            app.key_alert = Some((name, fingerprint));
            app.contact_mode = ContactMode::KeyAlert;
            app.tab = Tab::Contacts;
            Effects::save_of(vault)
        },
        RevocationOutcome::Removed(name) => {
            app.status = text::joined3(
                "Contact '",
                name.as_str(),
                "' has revoked their key with no replacement. They have been removed from your contact list.",
            );
            Effects::save_of(vault)
        },
    }
}

/// What a request for our bundle sends.
pub open spec fn request_outcome(v: VaultView, b: Seq<u8>, e: Effects) -> bool {
    &&& e.saved is None
    &&& e.message is None
    &&& !e.new_circuit
    &&& match requester(v.payload, b) {
        None => e.sent@.len() == 0,
        Some((address, key)) => match v.payload.our_bundle() {
            None => e.sent@.len() == 0,
            Some(bundle) => if sealable(bundle.bytes().len()) {
                &&& e.sent@.len() == 1
                &&& e.sent@[0].to@ == address
                &&& is_answer(e.sent@[0].payload@, key, bundle)
            } else {
                e.sent@.len() == 0
            },
        },
    }
}

/// A request for our bundle that came in.
pub fn handle_inbound_bundle_request(vault: &VaultUnlocked, request: &[u8]) -> (r: Effects)
    ensures
        request_outcome(vault@, request@, r),
{
    let mut effects = Effects::none();
    if let Some(out) = answer_bundle_request(vault, request) {
        effects.sent.push(out);
    }
    effects
}

/// What an answer to a request of ours makes of the interface, the vault and
/// the disk. One that nobody asked for leaves no trace.
pub open spec fn response_result(
    a: AppView,
    v: VaultView,
    b: Seq<u8>,
    after_app: AppView,
    after: VaultView,
    e: Effects,
) -> bool {
    match accepted_answer(v.payload, a.requests, b) {
        Some((i, bundle)) => {
            let n = v.payload.contacts.len();
            &&& after_app == (AppView {
                requests: a.requests.remove(i),
                selected: Some(n as usize),
                status: "Contact '"@ + display_text(contact_label(n + 1))
                    + "' added via QR bootstrap. Press [v] to verify fingerprint."@,
                ..a
            })
            &&& after == v.with_contact(bundle, contact_label(n + 1)).next()
            &&& e.saves_only(after)
        },
        None => after_app == a && after == v && e.none_spec(),
    }
}

/// An answer to a request of ours that came in: the contact is added.
pub fn handle_inbound_bundle_response(
    app: &mut AppState,
    vault: &mut VaultUnlocked,
    response: &[u8],
) -> (r: Effects)
    requires
        old(app)@.wf(),
        old(vault)@.has_room(),
    ensures
        final(app)@.wf(),
        response_result(old(app)@, old(vault)@, response@, final(app)@, final(vault)@, r),
{
    match accept_bundle_response(vault, &mut app.pending_bundle_requests, response) {
        None => Effects::none(),
        Some(place) => {
            let ghost all = vault@.payload.contacts;
            let count: usize = vault.payload.contacts.len();
            assert(all.len() == count);
            assert(place < count);
            app.selected = Some(place);
            assert(vault.payload.contacts@[place as int]@ == all[place as int]);
            let label = sanitize_for_display(vault.payload.contacts[place].display_name.as_str());
            app.status = text::joined3(
                "Contact '",
                label.as_str(),
                "' added via QR bootstrap. Press [v] to verify fingerprint.",
            );
            Effects::save_of(vault)
        },
    }
}

/// What a message that came in makes of the interface, the vault and the disk,
/// and what it sends. What cannot be read, cover traffic and acknowledgements
/// leave no trace.
pub open spec fn incoming_outcome(
    a: AppView,
    v: VaultView,
    w: Option<WireView>,
    after_app: AppView,
    after: VaultView,
    e: Effects,
) -> bool {
    let quiet = after_app == a && after == v && e.none_spec();
    match w {
        None => quiet,
        Some(w) => match w.msg_type {
            WireMessageType::Dummy | WireMessageType::Loop | WireMessageType::Ack => quiet,
            WireMessageType::Handshake => {
                &&& after_app == handshake_app(a, v, w.ciphertext)
                &&& handshake_outcome(a, v, w.ciphertext, after, e)
            },
            WireMessageType::Data => data_result(a, v, w, after_app, after, e),
            WireMessageType::BundleRequest => {
                &&& after_app == a
                &&& after == v
                &&& request_outcome(v, w.ciphertext, e)
            },
            WireMessageType::BundleResponse => response_result(
                a,
                v,
                w.ciphertext,
                after_app,
                after,
                e,
            ),
            WireMessageType::Revocation => revocation_result(
                a,
                v,
                w.ciphertext,
                after_app,
                after,
                e,
            ),
        },
    }
}

/// Dispatches bytes that came in from the transport.
pub fn handle_incoming_message(app: &mut AppState, vault: &mut VaultUnlocked, payload: &[u8]) -> (r:
    Effects)
    requires
        old(app)@.wf(),
        old(vault)@.has_room(),
    ensures
        final(app)@.wf(),
        incoming_outcome(
            old(app)@,
            old(vault)@,
            decoded(payload@),
            final(app)@,
            final(vault)@,
            r,
        ),
{
    let wire = match WireMessage::from_bytes(payload) {
        Some(w) => w,
        None => {
            return Effects::none();
        },
    };
    match wire.msg_type {
        WireMessageType::Dummy | WireMessageType::Loop | WireMessageType::Ack => Effects::none(),
        WireMessageType::Handshake => handle_inbound_handshake(app, vault, &wire.ciphertext),
        WireMessageType::Data => handle_inbound_data(
            app,
            vault,
            &wire.header,
            &wire.ciphertext,
            &wire.mac,
        ),
        WireMessageType::BundleRequest => handle_inbound_bundle_request(vault, &wire.ciphertext),
        WireMessageType::BundleResponse => handle_inbound_bundle_response(
            app,
            vault,
            &wire.ciphertext,
        ),
        WireMessageType::Revocation => handle_inbound_revocation(app, vault, &wire.ciphertext),
    }
}

} // verus!
