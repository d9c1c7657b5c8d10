//! What keys do in the contacts tab.
use crate::codec::models;
use crate::crypto::ratchet::{bob_start, RatchetState};
use crate::crypto::suite::sha256;
use crate::error::IdentityError;
use crate::crypto::keys::BundleView;
use crate::identity::profile::{
    bootstrap_read, contact_read, BootstrapCode, BootstrapView, ContactCode, BOOTSTRAP_PREFIX,
};
use crate::messenger::bundles::{
    bundle_request, expected_of, is_request, pending_views, request_bytes, BootstrapPending,
};
use crate::messenger::contacts::{
    add_contact, add_numbered_contact, contact_label, mark_verified, remove_contact, verified_at,
};
use crate::messenger::identity::load_ratchet_secret;
use crate::messenger::incoming::{message_text, text_of_message};
use crate::messenger::sessions::{
    keep_messages, lemma_only_talk_changed_twice, lemma_same_sequence, log_set, only_talk_changed,
    store_session,
};
use crate::crypto::suite::sealable;
use crate::storage::records::{StoredMessage, StoredMessageView};
use crate::storage::vault::{VaultUnlocked, VaultView};
use crate::text;
use crate::text::{trim_spec, trim_start_spec};
use crate::ui::input::{display_text, sanitize_for_display};
use crate::ui::state::{
    contacts_help, help_text, opened_views, AppState, AppView, ContactMode, Effects, Key, Tab,
};
use vstd::prelude::*;

verus! {

/// A text without its last character, if it has one.
pub open spec fn backspaced(s: Seq<char>) -> Seq<char> {
    if s.len() > 0 {
        s.drop_last()
    } else {
        s
    }
}

/// The contact that a key alert is about: the selected one.
pub open spec fn alert_place(a: AppView) -> usize {
    match a.selected {
        Some(i) => i,
        None => 0,
    }
}

/// Whether a key accepts a changed key.
pub open spec fn is_verify(key: Key) -> bool {
    key == Key::Char('v') || key == Key::Char('V')
}

/// Whether a key rejects a changed key.
pub open spec fn is_reject(key: Key) -> bool {
    key == Key::Char('r') || key == Key::Char('R')
}

/// What a key makes of a key alert.
pub open spec fn alert_app(a: AppView, v: VaultView, key: Key) -> AppView {
    let i = alert_place(a);
    let done = AppView { key_alert: None, contact_mode: ContactMode::List, ..a };
    if is_verify(key) {
        if i < v.payload.contacts.len() {
            AppView {
                status: "Key change accepted — '"@ + display_text(
                    v.payload.contacts[i as int].display_name,
                ) + "' marked verified."@,
                ..done
            }
        } else {
            done
        }
    } else if is_reject(key) {
        AppView { selected: Some(0), status: "Contact rejected and removed."@, ..done }
    } else {
        a
    }
}

/// What a key makes of the vault under a key alert.
pub open spec fn alert_vault(a: AppView, v: VaultView, key: Key) -> VaultView {
    let i = alert_place(a);
    let contacts = v.payload.contacts;
    if is_verify(key) && i < contacts.len() {
        v.with_contacts(verified_at(contacts, i as int)).next()
    } else if is_reject(key) {
        v.with_contacts(contacts.remove(i as int)).next()
    } else {
        v
    }
}

/// A key alert takes every key until the user accepts the changed key or
/// removes the contact.
pub fn handle_key_alert(app: &mut AppState, key: Key, vault: &mut VaultUnlocked) -> (r: Effects)
    requires
        old(app)@.wf(),
        old(vault)@.has_room(),
        is_reject(key) ==> alert_place(old(app)@) < old(vault).payload.contacts@.len(),
    ensures
        final(app)@.wf(),
        final(app)@ == alert_app(old(app)@, old(vault)@, key),
        final(vault)@ == alert_vault(old(app)@, old(vault)@, key),
        if is_reject(key) || (is_verify(key) && alert_place(old(app)@) < old(
            vault,
        ).payload.contacts@.len()) {
            r.saves_only(final(vault)@)
        } else {
            r.none_spec()
        },
{
    let i: usize = match app.selected {
        Some(i) => i,
        None => 0,
    };
    match key {
        Key::Char('v') | Key::Char('V') => {
            let mut effects = Effects::none();
            if i < vault.payload.contacts.len() {
                assert(vault@.payload.contacts[i as int] == vault.payload.contacts@[i as int]@);
                let name = sanitize_for_display(vault.payload.contacts[i].display_name.as_str());
                mark_verified(vault, i);
                effects = Effects::save_of(vault);
                app.status = text::joined3(
                    "Key change accepted — '",
                    name.as_str(),
                    "' marked verified.",
                );
            }
            app.key_alert = None;
            app.contact_mode = ContactMode::List;
            effects
        },
        Key::Char('r') | Key::Char('R') => {
            remove_contact(vault, i);
            let effects = Effects::save_of(vault);
            app.selected = Some(0);
            app.status = "Contact rejected and removed.".to_owned();
            app.key_alert = None;
            app.contact_mode = ContactMode::List;
            effects
        },
        _ => Effects::none(),
    }
}

/// What the user typed or pasted as a contact's code.
pub enum CodeView {
    Bootstrap(Result<BootstrapView, IdentityError>),
    Contact(Result<BundleView, IdentityError>),
}

/// What a code stands for: a bootstrap code by its prefix, a contact code
/// otherwise.
pub open spec fn code_read(code: Seq<char>) -> CodeView {
    if BOOTSTRAP_PREFIX@.is_prefix_of(trim_start_spec(code)) {
        CodeView::Bootstrap(bootstrap_read(code))
    } else {
        CodeView::Contact(contact_read(code))
    }
}

/// What entering a code makes of the interface. A bootstrap code leaves a
/// request that waits for its answer; a contact code adds the contact at once.
pub open spec fn code_app(a: AppView, v: VaultView) -> AppView {
    let closed = AppView { contact_mode: ContactMode::List, add_buf: seq![], ..a };
    match code_read(trim_spec(a.add_buf)) {
        CodeView::Bootstrap(Ok(code)) => AppView {
            requests: a.requests.push(expected_of(code)),
            status: "Bundle request sent — contact will be added automatically when they respond."@,
            ..closed
        },
        CodeView::Bootstrap(Err(_)) => AppView {
            status: "Invalid bootstrap code — check and try again."@,
            ..closed
        },
        CodeView::Contact(Ok(_)) => AppView {
            selected: Some(v.payload.contacts.len() as usize),
            status: "Contact added. Press [v] to verify fingerprint out-of-band."@,
            ..closed
        },
        CodeView::Contact(Err(_)) => AppView {
            status: "Invalid contact code — check and try again."@,
            ..closed
        },
    }
}

/// What entering a code makes of the vault.
pub open spec fn code_vault(a: AppView, v: VaultView) -> VaultView {
    match code_read(trim_spec(a.add_buf)) {
        CodeView::Contact(Ok(bundle)) => v.with_contact(
            bundle,
            contact_label(v.payload.contacts.len() + 1),
        ).next(),
        _ => v,
    }
}

/// What entering a code sends and saves.
pub open spec fn code_effects(a: AppView, v: VaultView, after: VaultView, e: Effects) -> bool {
    match code_read(trim_spec(a.add_buf)) {
        CodeView::Bootstrap(Ok(code)) => {
            &&& e.saved is None
            &&& e.message is None
            &&& !e.new_circuit
            &&& if v.payload.has_kem() && sealable(request_bytes(v.payload).len()) {
                &&& e.sent@.len() == 1
                &&& e.sent@[0].to@ == code.nym_address
                &&& is_request(e.sent@[0].payload@, code.x25519_pub, v.payload)
            } else {
                e.sent@.len() == 0
            }
        },
        CodeView::Contact(Ok(_)) => e.saves_only(after),
        _ => e.none_spec(),
    }
}

/// Takes up the code that the user entered.
fn enter_code(app: &mut AppState, vault: &mut VaultUnlocked) -> (r: Effects)
    requires
        old(app)@.wf(),
        old(vault)@.has_room(),
    ensures
        final(app)@.wf(),
        final(app)@ == code_app(old(app)@, old(vault)@),
        final(vault)@ == code_vault(old(app)@, old(vault)@),
        code_effects(old(app)@, old(vault)@, final(vault)@, r),
{
    let code = text::trim(app.add_buf.as_str());
    app.add_buf = String::new();
    app.contact_mode = ContactMode::List;
    if BootstrapCode::is_bootstrap(code.as_str()) {
        match BootstrapCode::decode(code.as_str()) {
            Ok(bc) => {
                let ghost before = app.pending_bundle_requests@;
                app.pending_bundle_requests.push(
                    BootstrapPending {
                        ed25519_vk: bc.ed25519_vk,
                        fingerprint_prefix: bc.fingerprint_prefix,
                    },
                );
                assert(app@.requests =~= pending_views(before).push(expected_of(bc@)));
                app.status = "Bundle request sent — contact will be added automatically when they respond.".to_owned();
                let mut effects = Effects::none();
                if let Some(out) = bundle_request(vault, &bc) {
                    effects.sent.push(out);
                }
                effects
            },
            Err(_) => {
                app.status = "Invalid bootstrap code — check and try again.".to_owned();
                Effects::none()
            },
        }
    } else {
        match ContactCode::decode(code.as_str()) {
            Ok(c) => {
                let place = add_numbered_contact(vault, c.0);
                assert(place < vault.payload.contacts@.len());
                let count: usize = vault.payload.contacts.len();
                assert(place < count);
                app.selected = Some(place);
                let effects = Effects::save_of(vault);
                app.status = "Contact added. Press [v] to verify fingerprint out-of-band.".to_owned();
                effects
            },
            Err(_) => {
                app.status = "Invalid contact code — check and try again.".to_owned();
                Effects::none()
            },
        }
    }
}

/// What accepting the oldest contact request makes of the interface.
pub open spec fn accept_app(a: AppView, v: VaultView) -> AppView {
    if a.pending.len() == 0 {
        AppView { contact_mode: ContactMode::List, ..a }
    } else if trim_spec(a.pending_name_buf).len() == 0 {
        AppView { status: "Please enter a name for this contact first."@, ..a }
    } else {
        let taken = AppView {
            pending: a.pending.remove(0),
            pending_name_buf: seq![],
            selected: Some(v.payload.contacts.len() as usize),
            ..a
        };
        if v.payload.ratchet_secret() is None {
            AppView { status: "Key error — vault may be corrupt."@, ..taken }
        } else {
            AppView {
                contact_mode: ContactMode::List,
                status: help_text((a.pending.len() - 1) as nat),
                ..taken
            }
        }
    }
}

/// Whether a contact request can be accepted: there is one, and it has a name.
pub open spec fn acceptable(a: AppView) -> bool {
    a.pending.len() > 0 && trim_spec(a.pending_name_buf).len() > 0
}

/// The log of a contact that was just accepted.
pub open spec fn first_log(plaintext: Seq<u8>) -> Seq<StoredMessageView> {
    seq![StoredMessageView { counter: 1, content: message_text(plaintext), from_us: false }]
}

/// The vault with the contact of a request under the name that was typed.
pub open spec fn with_accepted(a: AppView, v: VaultView) -> VaultView {
    v.with_contact(a.pending[0].bundle, trim_spec(a.pending_name_buf))
}

/// What accepting the oldest contact request makes of the vault: a new
/// contact, a session under the key of the handshake, and its first message.
pub open spec fn accept_vault(a: AppView, v: VaultView, after: VaultView) -> bool {
    if !acceptable(a) {
        after == v
    } else {
        let p = a.pending[0];
        let base = with_accepted(a, v);
        let id = sha256(p.bundle.bytes());
        match v.payload.ratchet_secret() {
            None => after == base,
            Some(secret) => {
                let talk = after.at(base.payload.sequence);
                &&& after == talk.next()
                &&& only_talk_changed(base, talk, id)
                &&& talk.session(id) == Some(bob_start(p.session_key, secret))
                &&& log_set(base, talk, id, first_log(p.plaintext))
                &&& talk.unread(id) == base.unread(id)
            },
        }
    }
}

/// Accepts the oldest contact request: the contact is added under the name
/// that was typed, the session starts, and the first message is logged.
pub fn accept_pending_handshake(app: &mut AppState, vault: &mut VaultUnlocked) -> (r: Effects)
    requires
        old(app)@.wf(),
        old(vault)@.has_room(),
    ensures
        final(app)@.wf(),
        final(app)@ == accept_app(old(app)@, old(vault)@),
        accept_vault(old(app)@, old(vault)@, final(vault)@),
        if acceptable(old(app)@) && old(vault)@.payload.ratchet_secret() is Some {
            r.saves_only(final(vault)@)
        } else {
            r.none_spec()
        },
{
    if app.pending_handshakes.len() == 0 {
        app.contact_mode = ContactMode::List;
        return Effects::none();
    }
    let name = text::trim(app.pending_name_buf.as_str());
    if name.as_str().is_empty() {
        app.status = "Please enter a name for this contact first.".to_owned();
        return Effects::none();
    }
    let ghost all = app.pending_handshakes@;
    let pending = app.pending_handshakes.remove(0);
    assert(app@.pending =~= opened_views(all).remove(0));
    app.pending_name_buf = String::new();
    let ghost p = pending@;
    assert(p == old(app)@.pending[0]);
    let place = add_contact(vault, pending.bundle, name);
    let count: usize = vault.payload.contacts.len();
    assert(place < count);
    app.selected = Some(place);
    let ghost base = vault@;
    assert(base == with_accepted(old(app)@, old(vault)@));
    let contact_id = vault.payload.contacts[place].id;
    assert(vault.payload.contacts@[place as int]@ == base.payload.contacts[place as int]);
    let secret = match load_ratchet_secret(vault) {
        Some(s) => s,
        None => {
            app.status = "Key error — vault may be corrupt.".to_owned();
            return Effects::none();
        },
    };
    let state = RatchetState::init_bob(pending.session_key, secret);
    store_session(vault, &contact_id, &state);
    let ghost mid = vault@;
    let mut log: Vec<StoredMessage> = Vec::new();
    log.push(
        StoredMessage { counter: 1, content: text_of_message(&pending.plaintext), from_us: false },
    );
    assert(models(log@) =~= first_log(p.plaintext));
    keep_messages(vault, &contact_id, &log);
    let ghost talk = vault@;
    proof {
        lemma_only_talk_changed_twice(base, mid, talk, contact_id@);
        lemma_same_sequence(base, talk, contact_id@);
    }
    let effects = Effects::save_of(vault);
    assert(vault@.at(base.payload.sequence) =~= talk);
    app.contact_mode = ContactMode::List;
    app.status = contacts_help(app.pending_handshakes.len());
    effects
}

/// What a key makes of the contact list.
pub open spec fn list_app(a: AppView, v: VaultView, key: Key) -> AppView {
    let n = v.payload.contacts.len();
    let i = match a.selected {
        Some(i) => i as int,
        None => 0,
    };
    match key {
        Key::Up => if n > 0 {
            AppView {
                selected: Some(
                    if i == 0 {
                        (n - 1) as usize
                    } else {
                        (i - 1) as usize
                    },
                ),
                ..a
            }
        } else {
            a
        },
        Key::Down => if n > 0 {
            AppView { selected: Some(((i + 1) % (n as int)) as usize), ..a }
        } else {
            a
        },
        Key::Enter => AppView {
            contact_mode: ContactMode::Fingerprint,
            status: "v:verify  d:delete  Esc:back"@,
            ..a
        },
        Key::Esc => AppView {
            contact_mode: ContactMode::List,
            status: help_text(a.pending.len()),
            ..a
        },
        Key::Char(c) => if c == 'a' {
            AppView {
                contact_mode: ContactMode::AddContact,
                add_buf: seq![],
                status: "Paste contact code then Enter. Esc to cancel."@,
                ..a
            }
        } else if c == 'e' {
            AppView { contact_mode: ContactMode::ExportCode, status: "Esc to close."@, ..a }
        } else if c == 'p' {
            if a.pending.len() > 0 {
                AppView {
                    contact_mode: ContactMode::PendingRequest,
                    pending_name_buf: seq![],
                    status: "Type a name, then Enter to accept. Esc to reject."@,
                    ..a
                }
            } else {
                AppView { status: "No pending contact requests."@, ..a }
            }
        } else if c == 'v' {
            if selects(a, v) {
                AppView {
                    status: "'"@ + display_text(v.payload.contacts[i].display_name)
                        + "' marked as verified."@,
                    ..a
                }
            } else {
                a
            }
        } else if c == 'd' {
            if selects(a, v) {
                AppView {
                    selected: if n == 1 {
                        None
                    } else if i < n - 1 {
                        Some(i as usize)
                    } else {
                        Some((n - 2) as usize)
                    },
                    status: "Contact removed."@,
                    ..a
                }
            } else {
                a
            }
        } else if c == '2' {
            AppView {
                active_contact: a.selected,
                tab: Tab::Conversation,
                status: "Enter:send  Esc:back  Type to compose"@,
                ..a
            }
        } else if c == '3' {
            AppView {
                tab: Tab::Settings,
                status: "↑↓:navigate  Enter:select  1:contacts  q:quit"@,
                ..a
            }
        } else if c == 'q' {
            AppView { running: false, ..a }
        } else {
            a
        },
        _ => a,
    }
}

/// Whether the selection is a contact.
pub open spec fn selects(a: AppView, v: VaultView) -> bool {
    a.selected matches Some(i) && i < v.payload.contacts.len()
}

/// What a key in the contact list makes of the vault.
pub open spec fn list_vault(a: AppView, v: VaultView, key: Key) -> VaultView {
    let contacts = v.payload.contacts;
    if selects(a, v) && key == Key::Char('v') {
        v.with_contacts(verified_at(contacts, a.selected->0 as int)).next()
    } else if selects(a, v) && key == Key::Char('d') {
        v.with_contacts(contacts.remove(a.selected->0 as int)).next()
    } else {
        v
    }
}

/// Whether a key in the contact list saves the vault.
pub open spec fn list_saves(a: AppView, v: VaultView, key: Key) -> bool {
    selects(a, v) && (key == Key::Char('v') || key == Key::Char('d'))
}

/// A key in the contact list, with a fingerprint shown or not.
fn handle_list_key(app: &mut AppState, key: Key, vault: &mut VaultUnlocked) -> (r: Effects)
    requires
        old(app)@.wf(),
        old(vault)@.has_room(),
    ensures
        final(app)@.wf(),
        final(app)@ == list_app(old(app)@, old(vault)@, key),
        final(vault)@ == list_vault(old(app)@, old(vault)@, key),
        if list_saves(old(app)@, old(vault)@, key) {
            r.saves_only(final(vault)@)
        } else {
            r.none_spec()
        },
{
    let n: usize = vault.payload.contacts.len();
    let i: usize = match app.selected {
        Some(i) => i,
        None => 0,
    };
    match key {
        Key::Up => {
            if n > 0 {
                app.selected = Some(
                    if i == 0 {
                        n - 1
                    } else {
                        i - 1
                    },
                );
            }
            Effects::none()
        },
        Key::Down => {
            if n > 0 {
                app.selected = Some((i + 1) % n);
            }
            Effects::none()
        },
        Key::Enter => {
            app.contact_mode = ContactMode::Fingerprint;
            app.status = "v:verify  d:delete  Esc:back".to_owned();
            Effects::none()
        },
        Key::Esc => {
            app.contact_mode = ContactMode::List;
            app.status = contacts_help(app.pending_handshakes.len());
            Effects::none()
        },
        Key::Char('a') => {
            app.contact_mode = ContactMode::AddContact;
            app.add_buf = String::new();
            app.status = "Paste contact code then Enter. Esc to cancel.".to_owned();
            Effects::none()
        },
        Key::Char('e') => {
            app.contact_mode = ContactMode::ExportCode;
            app.status = "Esc to close.".to_owned();
            Effects::none()
        },
        Key::Char('p') => {
            if app.pending_handshakes.len() > 0 {
                app.contact_mode = ContactMode::PendingRequest;
                app.pending_name_buf = String::new();
                app.status = "Type a name, then Enter to accept. Esc to reject.".to_owned();
            } else {
                app.status = "No pending contact requests.".to_owned();
            }
            Effects::none()
        },
        Key::Char('v') => {
            if app.selected.is_none() || i >= n {
                return Effects::none();
            }
            assert(vault@.payload.contacts[i as int] == vault.payload.contacts@[i as int]@);
            let name = sanitize_for_display(vault.payload.contacts[i].display_name.as_str());
            mark_verified(vault, i);
            app.status = text::joined3("'", name.as_str(), "' marked as verified.");
            Effects::save_of(vault)
        },
        Key::Char('d') => {
            if app.selected.is_none() || i >= n {
                return Effects::none();
            }
            remove_contact(vault, i);
            app.selected = if n == 1 {
                None
            } else if i < n - 1 {
                Some(i)
            } else {
                Some(n - 2)
            };
            app.status = "Contact removed.".to_owned();
            Effects::save_of(vault)
        },
        Key::Char('2') => {
            app.active_contact = app.selected;
            app.tab = Tab::Conversation;
            app.status = "Enter:send  Esc:back  Type to compose".to_owned();
            Effects::none()
        },
        Key::Char('3') => {
            app.tab = Tab::Settings;
            app.status = "↑↓:navigate  Enter:select  1:contacts  q:quit".to_owned();
            Effects::none()
        },
        Key::Char('q') => {
            app.running = false;
            Effects::none()
        },
        _ => Effects::none(),
    }
}

/// What a key makes of the entry of a contact's code.
pub open spec fn add_app(a: AppView, v: VaultView, key: Key) -> AppView {
    match key {
        Key::Esc => AppView {
            contact_mode: ContactMode::List,
            add_buf: seq![],
            status: help_text(a.pending.len()),
            ..a
        },
        Key::Enter => code_app(a, v),
        Key::Backspace => AppView { add_buf: backspaced(a.add_buf), ..a },
        Key::Char(c) => AppView { add_buf: a.add_buf.push(c), ..a },
        _ => a,
    }
}

/// What a key makes of the review of a contact request.
pub open spec fn review_app(a: AppView, v: VaultView, key: Key) -> AppView {
    match key {
        Key::Esc => {
            let left = if a.pending.len() > 0 {
                a.pending.remove(0)
            } else {
                a.pending
            };
            AppView {
                pending: left,
                pending_name_buf: seq![],
                contact_mode: ContactMode::List,
                status: help_text(left.len()),
                ..a
            }
        },
        Key::Enter => accept_app(a, v),
        Key::Backspace => AppView { pending_name_buf: backspaced(a.pending_name_buf), ..a },
        Key::Char(c) => AppView { pending_name_buf: a.pending_name_buf.push(c), ..a },
        _ => a,
    }
}

/// What a key makes of the interface in the contacts tab.
pub open spec fn contacts_app(a: AppView, v: VaultView, key: Key) -> AppView {
    match a.contact_mode {
        ContactMode::List | ContactMode::Fingerprint => list_app(a, v, key),
        ContactMode::AddContact => add_app(a, v, key),
        ContactMode::ExportCode | ContactMode::KeyAlert => if key == Key::Esc || key == Key::Enter
            || key == Key::Char('q') {
            AppView {
                contact_mode: ContactMode::List,
                status: help_text(a.pending.len()),
                ..a
            }
        } else {
            a
        },
        ContactMode::PendingRequest => review_app(a, v, key),
    }
}

/// What a key in the contacts tab makes of the vault, and what it saves and
/// sends.
pub open spec fn contacts_outcome(
    a: AppView,
    v: VaultView,
    key: Key,
    after: VaultView,
    e: Effects,
) -> bool {
    match a.contact_mode {
        ContactMode::List | ContactMode::Fingerprint => {
            &&& after == list_vault(a, v, key)
            &&& if list_saves(a, v, key) {
                e.saves_only(after)
            } else {
                e.none_spec()
            }
        },
        ContactMode::AddContact if key == Key::Enter => {
            &&& after == code_vault(a, v)
            &&& code_effects(a, v, after, e)
        },
        ContactMode::PendingRequest if key == Key::Enter => {
            &&& accept_vault(a, v, after)
            &&& if acceptable(a) && v.payload.ratchet_secret() is Some {
                e.saves_only(after)
            } else {
                e.none_spec()
            }
        },
        _ => after == v && e.none_spec(),
    }
}

/// A key in the contacts tab.
pub fn handle_contacts_key(app: &mut AppState, key: Key, vault: &mut VaultUnlocked) -> (r: Effects)
    requires
        old(app)@.wf(),
        old(vault)@.has_room(),
    ensures
        final(app)@.wf(),
        final(app)@ == contacts_app(old(app)@, old(vault)@, key),
        contacts_outcome(old(app)@, old(vault)@, key, final(vault)@, r),
{
    match app.contact_mode {
        ContactMode::List | ContactMode::Fingerprint => handle_list_key(app, key, vault),
        ContactMode::AddContact => match key {
            Key::Esc => {
                app.contact_mode = ContactMode::List;
                app.add_buf = String::new();
                app.status = contacts_help(app.pending_handshakes.len());
                Effects::none()
            },
            Key::Enter => enter_code(app, vault),
            Key::Backspace => {
                app.add_buf = text::without_last(app.add_buf.as_str());
                Effects::none()
            },
            Key::Char(c) => {
                app.add_buf.push(c);
                Effects::none()
            },
            _ => Effects::none(),
        },
        ContactMode::ExportCode | ContactMode::KeyAlert => {
            match key {
                Key::Esc | Key::Enter | Key::Char('q') => {
                    app.contact_mode = ContactMode::List;
                    app.status = contacts_help(app.pending_handshakes.len());
                },
                _ => {},
            }
            Effects::none()
        },
        ContactMode::PendingRequest => match key {
            Key::Esc => {
                let ghost all = app.pending_handshakes@;
                if app.pending_handshakes.len() > 0 {
                    app.pending_handshakes.remove(0);
                    assert(app@.pending =~= opened_views(all).remove(0));
                }
                app.pending_name_buf = String::new();
                app.contact_mode = ContactMode::List;
                app.status = contacts_help(app.pending_handshakes.len());
                Effects::none()
            },
            Key::Enter => accept_pending_handshake(app, vault),
            Key::Backspace => {
                app.pending_name_buf = text::without_last(app.pending_name_buf.as_str());
                Effects::none()
            },
            Key::Char(c) => {
                app.pending_name_buf.push(c);
                Effects::none()
            },
            _ => Effects::none(),
        },
    }
}

} // verus!
