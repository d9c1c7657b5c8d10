//! What taps do.
use crate::bytes;
use crate::codec::models;
use crate::crypto::ratchet::{bob_start, RatchetState};
use crate::crypto::suite::sha256;
use crate::identity::profile::{BootstrapCode, ContactCode};
use crate::messenger::contacts::{
    contact_label, mark_verified, push_contact, push_numbered_contact, remove_contact,
    verified_at,
};
use crate::messenger::identity::load_ratchet_secret;
use crate::messenger::outgoing::{compose_message, composed, send_error, SendError};
use crate::messenger::sessions::{
    keep_messages, lemma_only_talk_changed_twice, log_message, log_set, logged, only_talk_changed,
    store_session,
};
use crate::mobile::state::{
    plain_message, reload_messages, reload_outcome, reloaded, text_of_plain, MobileEdit,
    MobileMode, MobileState, MobileView, Screen,
};
use crate::storage::records::{SettingsView, StoredMessage, StoredMessageView};
use crate::storage::vault::{SavedVault, VaultUnlocked, VaultView};
use crate::text;
use crate::text::{decimal, trim_spec};
use crate::ui::contact_keys::{code_read, CodeView};
use crate::ui::input::{plain_text, sanitize};
use crate::ui::settings_keys::{read_threshold, threshold_in};
use crate::ui::state::{opened_views, saves, try_save, Draft, Effects, Tab};
use vstd::prelude::*;
use vstd::utf8::encode_utf8;

verus! {

/// A tap.
#[derive(Debug, Clone, Copy, PartialEq, Eq, Structural)]
pub enum Tap {
    /// The tab bar.
    Contacts,
    Messages,
    Settings,
    /// The contact list.
    AddContact,
    ExportCode,
    ReviewPending,
    Select(usize),
    ToggleFingerprint,
    Verify,
    Delete,
    /// The entry of a code.
    SubmitCode,
    CancelCode,
    /// Our code.
    CloseCode,
    /// The review of a contact request.
    Accept,
    Reject,
    LeaveReview,
    /// A key alert.
    AcceptKey,
    RejectKey,
    /// A conversation.
    Search,
    ClearSearch,
    Send,
    /// The settings.
    EditAutoDelete,
    SaveAutoDelete,
    CancelEdit,
    AskRotate,
    AskRevoke,
    Confirm,
    ShowCode,
    RefreshCircuit,
}

/// What a tap in the contact list makes of the interface.
pub open spec fn list_tapped(a: MobileView, v: VaultView, tap: Tap) -> MobileView {
    let n = v.payload.contacts.len();
    let i = a.selected_contact;
    match tap {
        Tap::AddContact => MobileView {
            contact_mode: MobileMode::AddContact,
            add_contact_buf: seq![],
            ..a
        },
        Tap::ExportCode => MobileView { contact_mode: MobileMode::ExportCode, ..a },
        Tap::ReviewPending => if a.pending.len() > 0 {
            MobileView {
                contact_mode: MobileMode::PendingRequest,
                pending_name_buf: seq![],
                ..a
            }
        } else {
            a
        },
        Tap::Select(k) => if k < n {
            MobileView { selected_contact: k, ..a }
        } else {
            a
        },
        Tap::ToggleFingerprint => MobileView {
            contact_mode: if a.contact_mode == MobileMode::Fingerprint {
                MobileMode::List
            } else {
                MobileMode::Fingerprint
            },
            ..a
        },
        Tap::Verify => if a.selects(v) {
            MobileView {
                status: "'"@ + plain_text(v.payload.contacts[i as int].display_name)
                    + "' marked as verified."@,
                ..a
            }
        } else {
            a
        },
        Tap::Delete => if a.selects(v) {
            MobileView {
                selected_contact: if n > 1 && i == n - 1 {
                    (n - 2) as usize
                } else {
                    i
                },
                status: "Contact removed."@,
                ..a
            }
        } else {
            a
        },
        _ => a,
    }
}

/// What a tap on verify or delete makes of the vault.
pub open spec fn list_tapped_vault(a: MobileView, v: VaultView, tap: Tap) -> VaultView {
    let contacts = v.payload.contacts;
    let i = a.selected_contact as int;
    if a.selects(v) && tap == Tap::Verify {
        v.with_contacts(verified_at(contacts, i)).next()
    } else if a.selects(v) && tap == Tap::Delete {
        v.with_contacts(contacts.remove(i)).next()
    } else {
        v
    }
}

/// A tap in the contact list.
pub fn tap_contact_list(app: &mut MobileState, vault: &mut VaultUnlocked, tap: Tap) -> (r: Effects)
    requires
        old(vault)@.has_room(),
    ensures
        final(app)@ == list_tapped(old(app)@, old(vault)@, tap),
        final(vault)@ == list_tapped_vault(old(app)@, old(vault)@, tap),
        if old(app)@.selects(old(vault)@) && (tap == Tap::Verify || tap == Tap::Delete) {
            r.saves_only(final(vault)@)
        } else {
            r.none_spec()
        },
{
    let n: usize = vault.payload.contacts.len();
    let i: usize = app.selected_contact;
    match tap {
        Tap::AddContact => {
            app.contact_mode = MobileMode::AddContact;
            app.add_contact_buf = String::new();
            Effects::none()
        },
        Tap::ExportCode => {
            app.contact_mode = MobileMode::ExportCode;
            Effects::none()
        },
        Tap::ReviewPending => {
            if app.pending_handshakes.len() > 0 {
                app.contact_mode = MobileMode::PendingRequest;
                app.pending_name_buf = String::new();
            }
            Effects::none()
        },
        Tap::Select(k) => {
            if k < n {
                app.selected_contact = k;
            }
            Effects::none()
        },
        Tap::ToggleFingerprint => {
            app.contact_mode = if app.contact_mode == MobileMode::Fingerprint {
                MobileMode::List
            } else {
                MobileMode::Fingerprint
            };
            Effects::none()
        },
        Tap::Verify => {
            if i >= n {
                return Effects::none();
            }
            assert(vault@.payload.contacts[i as int] == vault.payload.contacts@[i as int]@);
            let name = sanitize(vault.payload.contacts[i].display_name.as_str());
            mark_verified(vault, i);
            app.status = text::joined3("'", name.as_str(), "' marked as verified.");
            Effects::save_of(vault)
        },
        Tap::Delete => {
            if i >= n {
                return Effects::none();
            }
            remove_contact(vault, i);
            if n > 1 && i == n - 1 {
                app.selected_contact = n - 2;
            }
            app.status = "Contact removed.".to_owned();
            Effects::save_of(vault)
        },
        _ => Effects::none(),
    }
}

/// What submitting a code makes of the interface.
pub open spec fn code_tapped(a: MobileView, v: VaultView) -> MobileView {
    let closed = MobileView { contact_mode: MobileMode::List, add_contact_buf: seq![], ..a };
    match code_read(trim_spec(a.add_contact_buf)) {
        CodeView::Bootstrap(Ok(_)) => MobileView {
            status: "Bootstrap code accepted — awaiting response."@,
            ..closed
        },
        CodeView::Bootstrap(Err(_)) => MobileView { status: "Invalid bootstrap code."@, ..closed },
        CodeView::Contact(Ok(_)) => MobileView {
            selected_contact: v.payload.contacts.len() as usize,
            status: "Contact added. Verify fingerprint out-of-band."@,
            ..closed
        },
        CodeView::Contact(Err(_)) => MobileView { status: "Invalid contact code."@, ..closed },
    }
}

/// What submitting a code makes of the vault.
pub open spec fn code_tapped_vault(a: MobileView, v: VaultView) -> VaultView {
    match code_read(trim_spec(a.add_contact_buf)) {
        CodeView::Contact(Ok(bundle)) => v.with_pushed(
            bundle,
            contact_label(v.payload.contacts.len() + 1),
        ).next(),
        _ => v,
    }
}

/// Whether the code that was entered adds a contact.
pub open spec fn adds_contact(a: MobileView) -> bool {
    code_read(trim_spec(a.add_contact_buf)) matches CodeView::Contact(Ok(_))
}

/// Takes up the code that was entered.
pub fn submit_code(app: &mut MobileState, vault: &mut VaultUnlocked) -> (r: Effects)
    requires
        old(vault)@.has_room(),
    ensures
        final(app)@ == code_tapped(old(app)@, old(vault)@),
        final(vault)@ == code_tapped_vault(old(app)@, old(vault)@),
        if adds_contact(old(app)@) {
            r.saves_only(final(vault)@)
        } else {
            r.none_spec()
        },
{
    let code = text::trim(app.add_contact_buf.as_str());
    app.add_contact_buf = String::new();
    app.contact_mode = MobileMode::List;
    if BootstrapCode::is_bootstrap(code.as_str()) {
        app.status = match BootstrapCode::decode(code.as_str()) {
            Ok(_) => "Bootstrap code accepted — awaiting response.".to_owned(),
            Err(_) => "Invalid bootstrap code.".to_owned(),
        };
        Effects::none()
    } else {
        match ContactCode::decode(code.as_str()) {
            Ok(c) => {
                app.selected_contact = push_numbered_contact(vault, c.0);
                app.status = "Contact added. Verify fingerprint out-of-band.".to_owned();
                Effects::save_of(vault)
            },
            Err(_) => {
                app.status = "Invalid contact code.".to_owned();
                Effects::none()
            },
        }
    }
}

/// What accepting the oldest contact request makes of the interface.
pub open spec fn accept_tapped(a: MobileView, v: VaultView) -> MobileView {
    let name = trim_spec(a.pending_name_buf);
    if name.len() == 0 {
        MobileView { status: "Please enter a name."@, ..a }
    } else if a.pending.len() == 0 {
        MobileView { contact_mode: MobileMode::List, ..a }
    } else {
        let taken = MobileView {
            pending: a.pending.remove(0),
            pending_name_buf: seq![],
            selected_contact: v.payload.contacts.len() as usize,
            ..a
        };
        if v.payload.ratchet_secret() is None {
            MobileView { status: "Key error."@, ..taken }
        } else {
            MobileView {
                contact_mode: MobileMode::List,
                status: "Contact '"@ + plain_text(name) + "' added."@,
                ..taken
            }
        }
    }
}

/// Whether a contact request can be accepted.
pub open spec fn mobile_acceptable(a: MobileView) -> bool {
    trim_spec(a.pending_name_buf).len() > 0 && a.pending.len() > 0
}

/// The log of a contact that was just accepted.
pub open spec fn first_plain_log(plaintext: Seq<u8>) -> Seq<StoredMessageView> {
    seq![StoredMessageView { counter: 1, content: plain_message(plaintext), from_us: false }]
}

/// What accepting the oldest contact request makes of the vault.
pub open spec fn accept_tapped_vault(a: MobileView, v: VaultView, after: VaultView) -> bool {
    if !mobile_acceptable(a) {
        after == v
    } else {
        let p = a.pending[0];
        let base = v.with_pushed(p.bundle, trim_spec(a.pending_name_buf));
        let id = sha256(p.bundle.bytes());
        match v.payload.ratchet_secret() {
            None => after == base,
            Some(secret) => {
                let talk = after.at(v.payload.sequence);
                &&& after == talk.next()
                &&& only_talk_changed(base, talk, id)
                &&& talk.session(id) == Some(bob_start(p.session_key, secret))
                &&& log_set(base, talk, id, first_plain_log(p.plaintext))
                &&& talk.unread(id) == base.unread(id)
            },
        }
    }
}

/// Accepts the oldest contact request under the name that was typed.
pub fn accept_pending(app: &mut MobileState, vault: &mut VaultUnlocked) -> (r: Effects)
    requires
        old(vault)@.has_room(),
    ensures
        final(app)@ == accept_tapped(old(app)@, old(vault)@),
        accept_tapped_vault(old(app)@, old(vault)@, final(vault)@),
        if mobile_acceptable(old(app)@) && old(vault)@.payload.ratchet_secret() is Some {
            r.saves_only(final(vault)@)
        } else {
            r.none_spec()
        },
{
    let name = text::trim(app.pending_name_buf.as_str());
    if name.as_str().is_empty() {
        app.status = "Please enter a name.".to_owned();
        return Effects::none();
    }
    if app.pending_handshakes.len() == 0 {
        app.contact_mode = MobileMode::List;
        return Effects::none();
    }
    let ghost all = app.pending_handshakes@;
    let pending = app.pending_handshakes.remove(0);
    assert(app@.pending =~= opened_views(all).remove(0));
    app.pending_name_buf = String::new();
    let ghost p = pending@;
    assert(p == old(app)@.pending[0]);
    let shown = sanitize(name.as_str());
    let place = push_contact(vault, pending.bundle, name);
    app.selected_contact = place;
    let ghost base = vault@;
    assert(vault.payload.contacts@[place as int]@ == base.payload.contacts[place as int]);
    let contact_id = vault.payload.contacts[place].id;
    let secret = match load_ratchet_secret(vault) {
        Some(s) => s,
        None => {
            app.status = "Key error.".to_owned();
            return Effects::none();
        },
    };
    let state = RatchetState::init_bob(pending.session_key, secret);
    store_session(vault, &contact_id, &state);
    let ghost mid = vault@;
    let mut log: Vec<StoredMessage> = Vec::new();
    log.push(
        StoredMessage { counter: 1, content: text_of_plain(&pending.plaintext), from_us: false },
    );
    assert(models(log@) =~= first_plain_log(p.plaintext));
    keep_messages(vault, &contact_id, &log);
    let ghost talk = vault@;
    proof {
        lemma_only_talk_changed_twice(base, mid, talk, contact_id@);
    }
    let effects = Effects::save_of(vault);
    assert(vault@.at(old(vault)@.payload.sequence) =~= talk);
    app.contact_mode = MobileMode::List;
    app.status = text::joined3("Contact '", shown.as_str(), "' added.");
    effects
}

/// What a tap on a key alert makes of the interface.
pub open spec fn alert_tapped(a: MobileView, tap: Tap) -> MobileView {
    match tap {
        Tap::AcceptKey => MobileView { screen: Screen::Main, ..a },
        Tap::RejectKey => MobileView {
            screen: Screen::Main,
            status: "Contact rejected and removed."@,
            ..a
        },
        _ => a,
    }
}

/// What a tap on a key alert makes of the vault.
pub open spec fn alert_tapped_vault(a: MobileView, v: VaultView, tap: Tap) -> VaultView {
    let contacts = v.payload.contacts;
    let i = a.selected_contact as int;
    if a.selects(v) && tap == Tap::AcceptKey {
        v.with_contacts(verified_at(contacts, i)).next()
    } else if a.selects(v) && tap == Tap::RejectKey {
        v.with_contacts(contacts.remove(i)).next()
    } else {
        v
    }
}

/// A tap on a key alert: the changed key is accepted, or its contact removed.
pub fn tap_key_alert(app: &mut MobileState, vault: &mut VaultUnlocked, tap: Tap) -> (r: Effects)
    requires
        old(vault)@.has_room(),
    ensures
        final(app)@ == alert_tapped(old(app)@, tap),
        final(vault)@ == alert_tapped_vault(old(app)@, old(vault)@, tap),
        if old(app)@.selects(old(vault)@) && (tap == Tap::AcceptKey || tap == Tap::RejectKey) {
            r.saves_only(final(vault)@)
        } else {
            r.none_spec()
        },
{
    let i: usize = app.selected_contact;
    let listed = i < vault.payload.contacts.len();
    let mut effects = Effects::none();
    match tap {
        Tap::AcceptKey => {
            if listed {
                mark_verified(vault, i);
                effects = Effects::save_of(vault);
            }
            app.screen = Screen::Main;
        },
        Tap::RejectKey => {
            if listed {
                remove_contact(vault, i);
                effects = Effects::save_of(vault);
            }
            app.screen = Screen::Main;
            app.status = "Contact rejected and removed.".to_owned();
        },
        _ => {},
    }
    effects
}

/// What the phone tells of a message that cannot be sent.
pub open spec fn mobile_error(e: SendError) -> Seq<char> {
    match e {
        SendError::NoContact | SendError::ContactNotFound => "No contact selected."@,
        SendError::NoAddress => "Contact has no address."@,
        SendError::Keys => "Key error."@,
        SendError::Session => "Failed to load ratchet."@,
        SendError::Encryption => "Encryption failed."@,
        SendError::Handshake => "Handshake failed."@,
        SendError::SessionStart => "Ratchet init failed."@,
    }
}

/// What sending the draft makes of the interface.
pub open spec fn send_tapped(a: MobileView, v: VaultView) -> MobileView {
    if a.draft.len() == 0 {
        a
    } else {
        let cleared = MobileView { draft: seq![], ..a };
        match send_error(v, Some(a.selected_contact), encode_utf8(a.draft).len()) {
            Some(e) => MobileView { status: mobile_error(e), ..cleared },
            None => cleared,
        }
    }
}

/// What sending the draft makes of the vault and hands to the transport. While
/// there is no transport, the message goes nowhere.
pub open spec fn send_tapped_outcome(a: MobileView, v: VaultView, after: VaultView, e: Effects) -> bool {
    let plaintext = encode_utf8(a.draft);
    &&& e.saved is None
    &&& e.sent@.len() == 0
    &&& !e.new_circuit
    &&& if a.draft.len() == 0 || send_error(v, Some(a.selected_contact), plaintext.len()) is Some {
        e.message is None && after == v
    } else {
        let c = v.payload.contacts[a.selected_contact as int];
        exists|payload: Seq<u8>|
            {
                &&& #[trigger] composed(v, after, c, plaintext, payload)
                &&& match e.message {
                    Some(d) => {
                        &&& a.connected
                        &&& d.contact_id@ == c.id
                        &&& d.plaintext@ == plaintext
                        &&& d.outgoing.to@ == c.bundle.nym_address
                        &&& d.outgoing.payload@ == payload
                    },
                    None => !a.connected,
                }
            }
    }
}

/// Encrypts the draft for the selected contact.
pub fn send_draft(app: &mut MobileState, vault: &mut VaultUnlocked) -> (r: Effects)
    ensures
        final(app)@ == send_tapped(old(app)@, old(vault)@),
        send_tapped_outcome(old(app)@, old(vault)@, final(vault)@, r),
{
    if app.draft.as_str().is_empty() {
        return Effects::none();
    }
    let plaintext = bytes::copied(app.draft.as_str().as_bytes());
    app.draft = String::new();
    let i: usize = app.selected_contact;
    let ghost before = vault@;
    let contact_id: [u8; 32] = if i < vault.payload.contacts.len() {
        assert(before.payload.contacts[i as int] == vault.payload.contacts@[i as int]@);
        vault.payload.contacts[i].id
    } else {
        [0u8;32]
    };
    match compose_message(vault, Some(i), &plaintext) {
        Ok(outgoing) => {
            assert(composed(
                before,
                vault@,
                before.payload.contacts[i as int],
                plaintext@,
                outgoing.payload@,
            ));
            if app.connected {
                Effects {
                    saved: None,
                    sent: Vec::new(),
                    message: Some(Draft { contact_id, plaintext, outgoing }),
                    new_circuit: false,
                }
            } else {
                Effects::none()
            }
        },
        Err(e) => {
            app.status = match e {
                SendError::NoContact | SendError::ContactNotFound => "No contact selected.".to_owned(),
                SendError::NoAddress => "Contact has no address.".to_owned(),
                SendError::Keys => "Key error.".to_owned(),
                SendError::Session => "Failed to load ratchet.".to_owned(),
                SendError::Encryption => "Encryption failed.".to_owned(),
                SendError::Handshake => "Handshake failed.".to_owned(),
                SendError::SessionStart => "Ratchet init failed.".to_owned(),
            };
            Effects::none()
        },
    }
}

/// Completes a message once the transport has taken it, or refused it for a
/// reason.
pub fn finish_mobile_send(
    app: &mut MobileState,
    vault: &mut VaultUnlocked,
    contact_id: &[u8; 32],
    plaintext: &[u8],
    refused: Option<String>,
) -> (r: Option<SavedVault>)
    requires
        old(vault)@.has_room(),
    ensures
        match refused {
            None => {
                let messages = logged(
                    old(vault)@.messages(contact_id@),
                    plain_message(plaintext@),
                    true,
                );
                let talk = final(vault)@.at(old(vault)@.payload.sequence);
                &&& final(app)@ == (MobileView { messages, status: "Message sent."@, ..old(app)@ })
                &&& final(vault)@ == talk.next()
                &&& only_talk_changed(old(vault)@, talk, contact_id@)
                &&& log_set(old(vault)@, talk, contact_id@, messages)
                &&& talk.session(contact_id@) == old(vault)@.session(contact_id@)
                &&& talk.unread(contact_id@) == old(vault)@.unread(contact_id@)
                &&& saves(final(vault)@, r)
            },
            Some(why) => {
                &&& final(app)@ == (MobileView { status: "Send failed: "@ + why@, ..old(app)@ })
                &&& final(vault)@ == old(vault)@
                &&& r is None
            },
        },
{
    match refused {
        None => {
            let messages = log_message(vault, contact_id, text_of_plain(plaintext), true);
            let ghost talk = vault@;
            app.messages = messages;
            app.status = "Message sent.".to_owned();
            let saved = try_save(vault);
            assert(vault@.at(old(vault)@.payload.sequence) =~= talk);
            saved
        },
        Some(why) => {
            app.status = text::joined("Send failed: ", why.as_str());
            None
        },
    }
}

/// What a tap in the settings makes of the interface.
pub open spec fn settings_tapped(a: MobileView, v: VaultView, tap: Tap) -> MobileView {
    let closed = MobileView { settings_edit: MobileEdit::Closed, ..a };
    match tap {
        Tap::EditAutoDelete => MobileView {
            edit_buf: match v.payload.settings.default_auto_delete {
                Some(n) => decimal(n as nat),
                None => seq![],
            },
            settings_edit: MobileEdit::AutoDelete,
            ..a
        },
        Tap::SaveAutoDelete => MobileView { status: "Auto-delete updated."@, ..closed },
        Tap::CancelEdit => closed,
        Tap::AskRotate => MobileView { settings_edit: MobileEdit::ConfirmRotate, ..a },
        Tap::AskRevoke => MobileView { settings_edit: MobileEdit::ConfirmRevoke, ..a },
        Tap::Confirm => match a.settings_edit {
            MobileEdit::ConfirmRotate => MobileView {
                status: "Key rotation not yet implemented on Android."@,
                ..closed
            },
            MobileEdit::ConfirmRevoke => MobileView {
                status: "Key revocation not yet implemented on Android."@,
                ..closed
            },
            _ => a,
        },
        Tap::ShowCode => MobileView {
            tab: Tab::Contacts,
            contact_mode: MobileMode::ExportCode,
            ..a
        },
        Tap::RefreshCircuit => if a.connected {
            MobileView { status: "Circuit refresh requested."@, ..a }
        } else {
            a
        },
        _ => a,
    }
}

/// What a tap in the settings makes of the vault.
pub open spec fn settings_tapped_vault(a: MobileView, v: VaultView, tap: Tap) -> VaultView {
    if tap == Tap::SaveAutoDelete {
        v.with_settings(
            SettingsView {
                default_auto_delete: threshold_in(a.edit_buf),
                ..v.payload.settings
            },
        ).next()
    } else {
        v
    }
}

/// A tap in the settings.
pub fn tap_settings(app: &mut MobileState, vault: &mut VaultUnlocked, tap: Tap) -> (r: Effects)
    requires
        old(vault)@.has_room(),
    ensures
        final(app)@ == settings_tapped(old(app)@, old(vault)@, tap),
        final(vault)@ == settings_tapped_vault(old(app)@, old(vault)@, tap),
        if tap == Tap::SaveAutoDelete {
            r.saves_only(final(vault)@)
        } else {
            &&& r.saved is None
            &&& r.sent@.len() == 0
            &&& r.message is None
            &&& r.new_circuit == (tap == Tap::RefreshCircuit && old(app)@.connected)
        },
{
    let mut effects = Effects::none();
    match tap {
        Tap::EditAutoDelete => {
            app.edit_buf = match vault.payload.settings.default_auto_delete {
                Some(n) => text::decimal_text(n as u64),
                None => String::new(),
            };
            app.settings_edit = MobileEdit::AutoDelete;
        },
        Tap::SaveAutoDelete => {
            vault.payload.settings.default_auto_delete = read_threshold(app.edit_buf.as_str());
            effects = Effects::save_of(vault);
            app.settings_edit = MobileEdit::Closed;
            app.status = "Auto-delete updated.".to_owned();
        },
        Tap::CancelEdit => {
            app.settings_edit = MobileEdit::Closed;
        },
        Tap::AskRotate => {
            app.settings_edit = MobileEdit::ConfirmRotate;
        },
        Tap::AskRevoke => {
            app.settings_edit = MobileEdit::ConfirmRevoke;
        },
        Tap::Confirm => {
            match app.settings_edit {
                MobileEdit::ConfirmRotate => {
                    app.settings_edit = MobileEdit::Closed;
                    app.status = "Key rotation not yet implemented on Android.".to_owned();
                },
                MobileEdit::ConfirmRevoke => {
                    app.settings_edit = MobileEdit::Closed;
                    app.status = "Key revocation not yet implemented on Android.".to_owned();
                },
                _ => {},
            }
        },
        Tap::ShowCode => {
            app.tab = Tab::Contacts;
            app.contact_mode = MobileMode::ExportCode;
        },
        Tap::RefreshCircuit => {
            if app.connected {
                effects.new_circuit = true;
                app.status = "Circuit refresh requested.".to_owned();
            }
        },
        _ => {},
    }
    effects
}

/// What a tap on the tab bar, on our code, on a review or on a search makes of
/// the interface.
pub open spec fn plain_tapped(a: MobileView, v: VaultView, tap: Tap) -> MobileView {
    match tap {
        Tap::Contacts => MobileView { tab: Tab::Contacts, ..a },
        Tap::Messages => reloaded(MobileView { tab: Tab::Conversation, ..a }, v),
        Tap::Settings => MobileView { tab: Tab::Settings, ..a },
        Tap::CancelCode => MobileView {
            contact_mode: MobileMode::List,
            add_contact_buf: seq![],
            ..a
        },
        Tap::CloseCode | Tap::LeaveReview => MobileView { contact_mode: MobileMode::List, ..a },
        Tap::Reject => if a.pending.len() > 0 {
            MobileView {
                pending: a.pending.remove(0),
                pending_name_buf: seq![],
                contact_mode: MobileMode::List,
                ..a
            }
        } else {
            a
        },
        Tap::Search => MobileView { search_active: true, search_query: seq![], ..a },
        Tap::ClearSearch => MobileView { search_active: false, search_query: seq![], ..a },
        _ => a,
    }
}

/// A tap on the tab bar, on our code, on a review or on a search.
pub fn tap_plain(app: &mut MobileState, vault: &mut VaultUnlocked, tap: Tap) -> (r: Effects)
    requires
        old(vault)@.has_room(),
    ensures
        final(app)@ == plain_tapped(old(app)@, old(vault)@, tap),
        if tap == Tap::Messages {
            reload_outcome(old(app)@, old(vault)@, final(vault)@, r)
        } else {
            final(vault)@ == old(vault)@ && r.none_spec()
        },
{
    match tap {
        Tap::Contacts => {
            app.tab = Tab::Contacts;
        },
        Tap::Messages => {
            app.tab = Tab::Conversation;
            return reload_messages(app, vault);
        },
        Tap::Settings => {
            app.tab = Tab::Settings;
        },
        Tap::CancelCode => {
            app.add_contact_buf = String::new();
            app.contact_mode = MobileMode::List;
        },
        Tap::CloseCode | Tap::LeaveReview => {
            app.contact_mode = MobileMode::List;
        },
        Tap::Reject => {
            if app.pending_handshakes.len() > 0 {
                let ghost all = app.pending_handshakes@;
                app.pending_handshakes.remove(0);
                assert(app@.pending =~= opened_views(all).remove(0));
                app.pending_name_buf = String::new();
                app.contact_mode = MobileMode::List;
            }
        },
        Tap::Search => {
            app.search_active = true;
            app.search_query = String::new();
        },
        Tap::ClearSearch => {
            app.search_active = false;
            app.search_query = String::new();
        },
        _ => {},
    }
    Effects::none()
}

/// What a tap does.
pub open spec fn tapped(
    a: MobileView,
    v: VaultView,
    tap: Tap,
    after_app: MobileView,
    after: VaultView,
) -> bool {
    match tap {
        Tap::SubmitCode => after_app == code_tapped(a, v) && after == code_tapped_vault(a, v),
        Tap::Accept => after_app == accept_tapped(a, v) && accept_tapped_vault(a, v, after),
        Tap::AcceptKey | Tap::RejectKey => after_app == alert_tapped(a, tap) && after
            == alert_tapped_vault(a, v, tap),
        Tap::Send => after_app == send_tapped(a, v),
        Tap::AddContact
        | Tap::ExportCode
        | Tap::ReviewPending
        | Tap::Select(_)
        | Tap::ToggleFingerprint
        | Tap::Verify
        | Tap::Delete => after_app == list_tapped(a, v, tap) && after == list_tapped_vault(
            a,
            v,
            tap,
        ),
        Tap::EditAutoDelete
        | Tap::SaveAutoDelete
        | Tap::CancelEdit
        | Tap::AskRotate
        | Tap::AskRevoke
        | Tap::Confirm
        | Tap::ShowCode
        | Tap::RefreshCircuit => after_app == settings_tapped(a, v, tap) && after
            == settings_tapped_vault(a, v, tap),
        _ => after_app == plain_tapped(a, v, tap),
    }
}

/// What a tap saves and sends.
pub open spec fn tap_effects(a: MobileView, v: VaultView, tap: Tap, after: VaultView, e: Effects) -> bool {
    match tap {
        Tap::Send => send_tapped_outcome(a, v, after, e),
        Tap::Messages => reload_outcome(a, v, after, e),
        Tap::SubmitCode => if adds_contact(a) {
            e.saves_only(after)
        } else {
            e.none_spec()
        },
        Tap::Accept => if mobile_acceptable(a) && v.payload.ratchet_secret() is Some {
            e.saves_only(after)
        } else {
            e.none_spec()
        },
        Tap::SaveAutoDelete => e.saves_only(after),
        Tap::AcceptKey | Tap::RejectKey | Tap::Verify | Tap::Delete => if a.selects(v) {
            e.saves_only(after)
        } else {
            e.none_spec()
        },
        _ => {
            &&& after == v
            &&& e.saved is None
            &&& e.sent@.len() == 0
            &&& e.message is None
            &&& e.new_circuit == (tap == Tap::RefreshCircuit && a.connected)
        },
    }
}

/// A tap.
pub fn handle_tap(app: &mut MobileState, vault: &mut VaultUnlocked, tap: Tap) -> (r: Effects)
    requires
        old(vault)@.has_room(),
    ensures
        tapped(old(app)@, old(vault)@, tap, final(app)@, final(vault)@),
        tap_effects(old(app)@, old(vault)@, tap, final(vault)@, r),
{
    match tap {
        Tap::SubmitCode => submit_code(app, vault),
        Tap::Accept => accept_pending(app, vault),
        Tap::AcceptKey | Tap::RejectKey => tap_key_alert(app, vault, tap),
        Tap::Send => send_draft(app, vault),
        Tap::AddContact
        | Tap::ExportCode
        | Tap::ReviewPending
        | Tap::Select(_)
        | Tap::ToggleFingerprint
        | Tap::Verify
        | Tap::Delete => tap_contact_list(app, vault, tap),
        Tap::EditAutoDelete
        | Tap::SaveAutoDelete
        | Tap::CancelEdit
        | Tap::AskRotate
        | Tap::AskRevoke
        | Tap::Confirm
        | Tap::ShowCode
        | Tap::RefreshCircuit => tap_settings(app, vault, tap),
        _ => tap_plain(app, vault, tap),
    }
}

/// A row of the contact list: name, mark and unread count in one label.
pub open spec fn row_label(name: Seq<char>, verified: bool, unread: u32) -> Seq<char> {
    plain_text(name) + (if verified {
        " \u{2713}"@
    } else {
        " \u{26A0} UNVERIFIED"@
    }) + (if unread > 0 {
        " ("@ + decimal(unread as nat) + ")"@
    } else {
        seq![]
    })
}

/// A row of the contact list.
pub fn contact_label_row(name: &str, verified: bool, unread: u32) -> (r: String)
    ensures
        r@ == row_label(name@, verified, unread),
{
    let mark = if verified {
        " \u{2713}"
    } else {
        " \u{26A0} UNVERIFIED"
    };
    let badge = if unread > 0 {
        text::joined3(" (", text::decimal_text(unread as u64).as_str(), ")")
    } else {
        String::new()
    };
    text::joined3(sanitize(name).as_str(), mark, badge.as_str())
}

} // verus!
