//! What keys do in the settings tab.
use crate::messenger::identity::{
    bootstrap_text, build_bootstrap_code, build_export_code, export_text, rekeyed,
};
use crate::messenger::rotation::{
    announces, key_error, outgoing_views, retire_identity, rotate_identity, KeyError,
};
use crate::identity::revocation::RevocationReason;
use crate::storage::payload::PayloadView;
use crate::storage::records::SettingsView;
use crate::storage::vault::{VaultUnlocked, VaultView};
use crate::text;
use crate::text::{decimal, number_in, trim_spec};
use crate::ui::contact_keys::backspaced;
use crate::ui::state::{
    contacts_help, help_text, saves, try_save, AppState, AppView, ContactMode, Effects, Key,
    SettingsEditMode, Tab, NUM_SETTINGS,
};
use vstd::prelude::*;

verus! {

/// The help line of the settings tab.
pub open spec fn settings_help() -> Seq<char> {
    "↑↓:navigate  Enter:select  1:contacts  q:quit"@
}

impl VaultView {
    /// The vault with other settings.
    pub open spec fn with_settings(self, settings: SettingsView) -> VaultView {
        VaultView { payload: PayloadView { settings, ..self.payload }, ..self }
    }
}

/// What the user is told of a failed rotation.
pub open spec fn rotate_error(e: KeyError) -> Seq<char> {
    match e {
        KeyError::Signing => "Key rotation failed: cannot load current signing key."@,
        KeyError::Kem => "Key rotation failed: cannot load current KEM key."@,
    }
}

/// What the user is told of a failed revocation.
pub open spec fn revoke_error(e: KeyError) -> Seq<char> {
    match e {
        KeyError::Signing => "Revocation failed: cannot load signing key."@,
        KeyError::Kem => "Revocation failed: cannot load KEM key."@,
    }
}

/// What rotating our keys makes of the interface; the codes are those of the
/// new identity.
pub open spec fn rotate_app(a: AppView, v: VaultView, after: VaultView) -> AppView {
    match key_error(v.payload) {
        Some(e) => AppView { status: rotate_error(e), ..a },
        None => AppView {
            export_code: export_text(after.payload),
            bootstrap_code: bootstrap_text(after.payload),
            status: "Keys rotated. New contact code ready — share it with contacts via [e] or Settings > 6."@,
            ..a
        },
    }
}

/// What rotating our keys makes of the vault and sends: new keys, announced to
/// every contact under the old ones.
pub open spec fn rotate_outcome(v: VaultView, after: VaultView, e: Effects) -> bool {
    match key_error(v.payload) {
        Some(_) => after == v && e.none_spec(),
        None => {
            let keyed = after.at((v.payload.sequence + 1) as u64);
            &&& after == keyed.next()
            &&& after == (VaultView { payload: after.payload, ..v })
            &&& rekeyed(v.next().payload, keyed.payload)
            &&& announces(
                outgoing_views(e.sent@),
                v,
                RevocationReason::Rotation,
                keyed.payload.our_bundle(),
            )
            &&& saves(after, e.saved)
            &&& e.message is None
            &&& !e.new_circuit
        },
    }
}

/// Generates new identity keys, announces them to all contacts, and refreshes
/// the codes on screen.
pub fn rotate_keys(app: &mut AppState, vault: &mut VaultUnlocked) -> (r: Effects)
    requires
        old(app)@.wf(),
        old(vault)@.has_room(),
    ensures
        final(app)@.wf(),
        final(app)@ == rotate_app(old(app)@, old(vault)@, final(vault)@),
        rotate_outcome(old(vault)@, final(vault)@, r),
{
    match rotate_identity(vault) {
        Err(e) => {
            app.status = match e {
                KeyError::Signing => "Key rotation failed: cannot load current signing key.".to_owned(),
                KeyError::Kem => "Key rotation failed: cannot load current KEM key.".to_owned(),
            };
            Effects::none()
        },
        Ok(sent) => {
            let ghost keyed = vault@;
            let saved = try_save(vault);
            assert(vault@.at((old(vault)@.payload.sequence + 1) as u64) =~= keyed);
            app.export_code = build_export_code(vault);
            app.bootstrap_code = build_bootstrap_code(vault);
            app.status = "Keys rotated. New contact code ready — share it with contacts via [e] or Settings > 6.".to_owned();
            Effects { saved, sent, message: None, new_circuit: false }
        },
    }
}

/// What revoking our key makes of the interface.
pub open spec fn revoke_app(a: AppView, v: VaultView) -> AppView {
    match key_error(v.payload) {
        Some(e) => AppView { status: revoke_error(e), ..a },
        None => AppView { status: "Revocation certificate sent to all contacts."@, ..a },
    }
}

/// What revoking our key makes of the vault and sends.
pub open spec fn revoke_outcome(v: VaultView, after: VaultView, e: Effects) -> bool {
    match key_error(v.payload) {
        Some(_) => after == v && e.none_spec(),
        None => {
            &&& after == v.next().next()
            &&& announces(outgoing_views(e.sent@), v, RevocationReason::Retirement, None)
            &&& saves(after, e.saved)
            &&& e.message is None
            &&& !e.new_circuit
        },
    }
}

/// Announces to all contacts that our key is retired. No new key is made.
pub fn revoke_key(app: &mut AppState, vault: &mut VaultUnlocked) -> (r: Effects)
    requires
        old(app)@.wf(),
        old(vault)@.has_room(),
    ensures
        final(app)@.wf(),
        final(app)@ == revoke_app(old(app)@, old(vault)@),
        revoke_outcome(old(vault)@, final(vault)@, r),
{
    match retire_identity(vault) {
        Err(e) => {
            app.status = match e {
                KeyError::Signing => "Revocation failed: cannot load signing key.".to_owned(),
                KeyError::Kem => "Revocation failed: cannot load KEM key.".to_owned(),
            };
            Effects::none()
        },
        Ok(sent) => {
            let saved = try_save(vault);
            app.status = "Revocation certificate sent to all contacts.".to_owned();
            Effects { saved, sent, message: None, new_circuit: false }
        },
    }
}

/// The threshold that a text stands for: none where it is blank or no number.
pub open spec fn threshold_in(s: Seq<char>) -> Option<u32> {
    let t = trim_spec(s);
    if t.len() == 0 {
        None
    } else {
        match number_in(t, u32::MAX as nat) {
            Some(n) => Some(n as u32),
            None => None,
        }
    }
}

/// Reads the threshold for automatic deletion.
pub fn read_threshold(s: &str) -> (r: Option<u32>)
    ensures
        r == threshold_in(s@),
{
    let t = text::trim(s);
    if t.as_str().is_empty() {
        None
    } else {
        text::number(t.as_str(), u32::MAX)
    }
}

/// What a key makes of an edit field.
pub open spec fn edit_app(a: AppView, v: VaultView, key: Key) -> AppView {
    let closed = AppView {
        settings_edit_mode: SettingsEditMode::Closed,
        settings_edit_buf: seq![],
        ..a
    };
    match key {
        Key::Esc => AppView { status: settings_help(), ..closed },
        Key::Enter => AppView {
            status: if a.settings_edit_mode == SettingsEditMode::EditAutoDelete {
                "Auto-delete threshold updated."@
            } else if trim_spec(a.settings_edit_buf).len() > 0 {
                "Tor SOCKS5 address updated. Restart to apply."@
            } else {
                "No change — address cannot be empty."@
            },
            ..closed
        },
        Key::Backspace => AppView { settings_edit_buf: backspaced(a.settings_edit_buf), ..a },
        Key::Char(c) => AppView { settings_edit_buf: a.settings_edit_buf.push(c), ..a },
        _ => a,
    }
}

/// Whether a key in an edit field changes a setting.
pub open spec fn edit_saves(a: AppView, key: Key) -> bool {
    key == Key::Enter && (a.settings_edit_mode == SettingsEditMode::EditAutoDelete || trim_spec(
        a.settings_edit_buf,
    ).len() > 0)
}

/// The settings once an edit field was confirmed.
pub open spec fn edited(a: AppView, s: SettingsView) -> SettingsView {
    if a.settings_edit_mode == SettingsEditMode::EditAutoDelete {
        SettingsView { default_auto_delete: threshold_in(a.settings_edit_buf), ..s }
    } else {
        SettingsView { tor_socks_addr: trim_spec(a.settings_edit_buf), ..s }
    }
}

/// What a key in an edit field makes of the vault.
pub open spec fn edit_vault(a: AppView, v: VaultView, key: Key) -> VaultView {
    if edit_saves(a, key) {
        v.with_settings(edited(a, v.payload.settings)).next()
    } else {
        v
    }
}

/// A key in an edit field.
fn handle_edit_key(app: &mut AppState, key: Key, vault: &mut VaultUnlocked) -> (r: Effects)
    requires
        old(app)@.wf(),
        old(vault)@.has_room(),
        old(app)@.settings_edit_mode == SettingsEditMode::EditAutoDelete || old(
            app,
        )@.settings_edit_mode == SettingsEditMode::EditTorAddr,
    ensures
        final(app)@.wf(),
        final(app)@ == edit_app(old(app)@, old(vault)@, key),
        final(vault)@ == edit_vault(old(app)@, old(vault)@, key),
        if edit_saves(old(app)@, key) {
            r.saves_only(final(vault)@)
        } else {
            r.none_spec()
        },
{
    match key {
        Key::Esc => {
            app.settings_edit_mode = SettingsEditMode::Closed;
            app.settings_edit_buf = String::new();
            app.status = "↑↓:navigate  Enter:select  1:contacts  q:quit".to_owned();
            Effects::none()
        },
        Key::Enter => {
            let mut effects = Effects::none();
            if app.settings_edit_mode == SettingsEditMode::EditAutoDelete {
                vault.payload.settings.default_auto_delete = read_threshold(
                    app.settings_edit_buf.as_str(),
                );
                effects = Effects::save_of(vault);
                app.status = "Auto-delete threshold updated.".to_owned();
            } else {
                let value = text::trim(app.settings_edit_buf.as_str());
                if value.as_str().is_empty() {
                    app.status = "No change — address cannot be empty.".to_owned();
                } else {
                    vault.payload.settings.tor_socks_addr = value;
                    effects = Effects::save_of(vault);
                    app.status = "Tor SOCKS5 address updated. Restart to apply.".to_owned();
                }
            }
            app.settings_edit_mode = SettingsEditMode::Closed;
            app.settings_edit_buf = String::new();
            effects
        },
        Key::Backspace => {
            app.settings_edit_buf = text::without_last(app.settings_edit_buf.as_str());
            Effects::none()
        },
        Key::Char(c) => {
            app.settings_edit_buf.push(c);
            Effects::none()
        },
        _ => Effects::none(),
    }
}

/// The selected entry of the settings list.
pub open spec fn settings_place(a: AppView) -> int {
    match a.settings_selected {
        Some(i) => i as int,
        None => 0,
    }
}

/// What choosing an entry of the settings list makes of the interface.
pub open spec fn entry_app(a: AppView, v: VaultView) -> AppView {
    let i = settings_place(a);
    if i == 0 {
        AppView {
            settings_edit_buf: v.payload.settings.tor_socks_addr,
            settings_edit_mode: SettingsEditMode::EditTorAddr,
            status: "Edit Tor address. Enter:save  Esc:cancel"@,
            ..a
        }
    } else if i == 2 {
        AppView {
            settings_edit_buf: match v.payload.settings.default_auto_delete {
                Some(n) => decimal(n as nat),
                None => seq![],
            },
            settings_edit_mode: SettingsEditMode::EditAutoDelete,
            status: "Enter count (blank=disable). Enter:save  Esc:cancel"@,
            ..a
        }
    } else if i == 3 {
        AppView {
            settings_edit_mode: SettingsEditMode::ConfirmRotate,
            status: "Confirm key rotation? y:yes  Esc/n:cancel"@,
            ..a
        }
    } else if i == 4 {
        AppView {
            settings_edit_mode: SettingsEditMode::ConfirmRevoke,
            status: "Confirm key revocation? y:yes  Esc/n:cancel"@,
            ..a
        }
    } else if i == 5 {
        AppView {
            tab: Tab::Contacts,
            contact_mode: ContactMode::ExportCode,
            status: "Your contact code — press Esc to close."@,
            ..a
        }
    } else if i == 6 {
        AppView { status: "SIGNAL NEWNYM sent — new circuits active in ~60 s."@, ..a }
    } else {
        a
    }
}

/// Chooses the selected entry of the settings list.
fn choose_entry(app: &mut AppState, vault: &VaultUnlocked) -> (r: Effects)
    requires
        old(app)@.wf(),
    ensures
        final(app)@.wf(),
        final(app)@ == entry_app(old(app)@, vault@),
        r.saved is None && r.sent@.len() == 0 && r.message is None,
        r.new_circuit == (settings_place(old(app)@) == 6),
{
    let i: usize = match app.settings_selected {
        Some(i) => i,
        None => 0,
    };
    let mut effects = Effects::none();
    match i {
        0 => {
            app.settings_edit_buf = vault.payload.settings.tor_socks_addr.clone();
            app.settings_edit_mode = SettingsEditMode::EditTorAddr;
            app.status = "Edit Tor address. Enter:save  Esc:cancel".to_owned();
        },
        2 => {
            app.settings_edit_buf = match vault.payload.settings.default_auto_delete {
                Some(n) => text::decimal_text(n as u64),
                None => String::new(),
            };
            app.settings_edit_mode = SettingsEditMode::EditAutoDelete;
            app.status = "Enter count (blank=disable). Enter:save  Esc:cancel".to_owned();
        },
        3 => {
            app.settings_edit_mode = SettingsEditMode::ConfirmRotate;
            app.status = "Confirm key rotation? y:yes  Esc/n:cancel".to_owned();
        },
        4 => {
            app.settings_edit_mode = SettingsEditMode::ConfirmRevoke;
            app.status = "Confirm key revocation? y:yes  Esc/n:cancel".to_owned();
        },
        5 => {
            app.tab = Tab::Contacts;
            app.contact_mode = ContactMode::ExportCode;
            app.status = "Your contact code — press Esc to close.".to_owned();
        },
        6 => {
            effects.new_circuit = true;
            app.status = "SIGNAL NEWNYM sent — new circuits active in ~60 s.".to_owned();
        },
        _ => {},
    }
    effects
}

/// What a key makes of the settings list.
pub open spec fn menu_app(a: AppView, v: VaultView, key: Key) -> AppView {
    let i = settings_place(a);
    match key {
        Key::Up => AppView {
            settings_selected: Some(
                if i == 0 {
                    (NUM_SETTINGS - 1) as usize
                } else {
                    (i - 1) as usize
                },
            ),
            ..a
        },
        Key::Down => AppView {
            settings_selected: Some(((i + 1) % (NUM_SETTINGS as int)) as usize),
            ..a
        },
        Key::Enter => entry_app(a, v),
        Key::Char(c) => if c == '1' {
            AppView { tab: Tab::Contacts, status: help_text(a.pending.len()), ..a }
        } else if c == '2' {
            AppView {
                tab: Tab::Conversation,
                status: "Enter:send  Esc:back  Type to compose"@,
                ..a
            }
        } else if c == 'q' {
            AppView { running: false, ..a }
        } else {
            a
        },
        _ => a,
    }
}

/// Whether a key confirms.
pub open spec fn is_yes(key: Key) -> bool {
    key == Key::Char('y') || key == Key::Char('Y')
}

/// What a key makes of the interface in the settings tab.
pub open spec fn settings_app(a: AppView, v: VaultView, key: Key, after: VaultView) -> AppView {
    match a.settings_edit_mode {
        SettingsEditMode::EditTorAddr | SettingsEditMode::EditAutoDelete => edit_app(a, v, key),
        SettingsEditMode::ConfirmRotate => AppView {
            settings_edit_mode: SettingsEditMode::Closed,
            ..if is_yes(key) {
                rotate_app(a, v, after)
            } else {
                AppView { status: "Key rotation cancelled."@, ..a }
            }
        },
        SettingsEditMode::ConfirmRevoke => AppView {
            settings_edit_mode: SettingsEditMode::Closed,
            ..if is_yes(key) {
                revoke_app(a, v)
            } else {
                AppView { status: "Key revocation cancelled."@, ..a }
            }
        },
        SettingsEditMode::Closed => menu_app(a, v, key),
    }
}

/// What a key in the settings tab makes of the vault, and what it saves and
/// sends.
pub open spec fn settings_outcome(
    a: AppView,
    v: VaultView,
    key: Key,
    after: VaultView,
    e: Effects,
) -> bool {
    match a.settings_edit_mode {
        SettingsEditMode::EditTorAddr | SettingsEditMode::EditAutoDelete => {
            &&& after == edit_vault(a, v, key)
            &&& if edit_saves(a, key) {
                e.saves_only(after)
            } else {
                e.none_spec()
            }
        },
        SettingsEditMode::ConfirmRotate if is_yes(key) => rotate_outcome(v, after, e),
        SettingsEditMode::ConfirmRevoke if is_yes(key) => revoke_outcome(v, after, e),
        SettingsEditMode::Closed => {
            &&& after == v
            &&& e.saved is None
            &&& e.sent@.len() == 0
            &&& e.message is None
            &&& e.new_circuit == (key == Key::Enter && settings_place(a) == 6)
        },
        _ => after == v && e.none_spec(),
    }
}

/// A key in the settings tab.
pub fn handle_settings_key(app: &mut AppState, key: Key, vault: &mut VaultUnlocked) -> (r: Effects)
    requires
        old(app)@.wf(),
        old(vault)@.has_room(),
    ensures
        final(app)@.wf(),
        final(app)@ == settings_app(old(app)@, old(vault)@, key, final(vault)@),
        settings_outcome(old(app)@, old(vault)@, key, final(vault)@, r),
{
    match app.settings_edit_mode {
        SettingsEditMode::EditTorAddr | SettingsEditMode::EditAutoDelete => handle_edit_key(
            app,
            key,
            vault,
        ),
        SettingsEditMode::ConfirmRotate => {
            let effects = match key {
                Key::Char('y') | Key::Char('Y') => rotate_keys(app, vault),
                _ => {
                    app.status = "Key rotation cancelled.".to_owned();
                    Effects::none()
                },
            };
            app.settings_edit_mode = SettingsEditMode::Closed;
            effects
        },
        SettingsEditMode::ConfirmRevoke => {
            let effects = match key {
                Key::Char('y') | Key::Char('Y') => revoke_key(app, vault),
                _ => {
                    app.status = "Key revocation cancelled.".to_owned();
                    Effects::none()
                },
            };
            app.settings_edit_mode = SettingsEditMode::Closed;
            effects
        },
        SettingsEditMode::Closed => {
            let i: usize = match app.settings_selected {
                Some(i) => i,
                None => 0,
            };
            match key {
                Key::Up => {
                    app.settings_selected = Some(
                        if i == 0 {
                            NUM_SETTINGS - 1
                        } else {
                            i - 1
                        },
                    );
                    Effects::none()
                },
                Key::Down => {
                    app.settings_selected = Some((i + 1) % NUM_SETTINGS);
                    Effects::none()
                },
                Key::Enter => choose_entry(app, vault),
                Key::Char('1') => {
                    app.tab = Tab::Contacts;
                    app.status = contacts_help(app.pending_handshakes.len());
                    Effects::none()
                },
                Key::Char('2') => {
                    app.tab = Tab::Conversation;
                    app.status = "Enter:send  Esc:back  Type to compose".to_owned();
                    Effects::none()
                },
                Key::Char('q') => {
                    app.running = false;
                    Effects::none()
                },
                _ => Effects::none(),
            }
        },
    }
}

} // verus!
