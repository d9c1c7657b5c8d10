//! The state of the terminal interface.
use crate::codec::{models, Record};
use crate::messenger::bundles::{pending_views, BootstrapPending, BootstrapPendingView};
use crate::messenger::incoming::{OpenedHandshake, OpenedView};
use crate::messenger::outgoing::Outgoing;
use crate::storage::payload::VaultPayload;
use crate::crypto::suite::sealable;
use crate::storage::records::{StoredMessage, StoredMessageView};
use crate::storage::vault::{SavedVault, VaultUnlocked, VaultView};
use crate::text;
use crate::text::decimal;
use vstd::prelude::*;

verus! {

/// At most this many contact requests wait for the user. Each took an ML-KEM
/// decapsulation; the cap keeps a flood of handshakes from filling memory.
pub const MAX_PENDING_HANDSHAKES: usize = 10;

/// Number of entries in the settings list.
pub const NUM_SETTINGS: usize = 7;

/// A key.
#[derive(Debug, Clone, Copy, PartialEq, Eq, Structural)]
pub enum Key {
    Up,
    Down,
    Enter,
    Esc,
    Backspace,
    Tab,
    Char(char),
    /// Any other key.
    Other,
}

/// A key that was pressed.
#[derive(Debug, Clone, Copy, PartialEq, Eq, Structural)]
pub struct KeyPress {
    pub key: Key,
    /// Whether the control key was held.
    pub control: bool,
}

/// The tabs.
#[derive(Debug, Clone, Copy, PartialEq, Eq, Structural)]
pub enum Tab {
    Contacts,
    Conversation,
    Settings,
}

/// What the contacts tab shows.
#[derive(Debug, Clone, Copy, PartialEq, Eq, Structural)]
pub enum ContactMode {
    List,
    Fingerprint,
    AddContact,
    ExportCode,
    KeyAlert,
    /// A contact request of an unknown party.
    PendingRequest,
}

/// What is being edited or confirmed in the settings tab.
#[derive(Debug, Clone, Copy, PartialEq, Eq, Structural)]
pub enum SettingsEditMode {
    /// Nothing.
    Closed,
    EditTorAddr,
    EditAutoDelete,
    ConfirmRotate,
    ConfirmRevoke,
}

/// The state of the interface.
pub struct AppState {
    pub running: bool,
    pub tab: Tab,
    /// The selected contact.
    pub selected: Option<usize>,
    pub contact_mode: ContactMode,
    pub add_buf: String,
    pub export_code: String,
    pub bootstrap_code: String,
    /// Name and new fingerprint of a contact whose key has changed.
    pub key_alert: Option<(String, String)>,
    /// Contact requests that wait for the user, the oldest first.
    pub pending_handshakes: Vec<OpenedHandshake>,
    pub pending_name_buf: String,
    /// Bundle requests of ours that wait for their answers.
    pub pending_bundle_requests: Vec<BootstrapPending>,
    pub draft: String,
    /// The messages on screen.
    pub messages: Vec<StoredMessage>,
    /// The contact whose conversation was opened.
    pub active_contact: Option<usize>,
    /// The contact whose messages are on screen.
    pub loaded_contact: Option<usize>,
    pub search_active: bool,
    pub search_query: String,
    pub settings_selected: Option<usize>,
    pub settings_edit_mode: SettingsEditMode,
    pub settings_edit_buf: String,
    pub status: String,
}

/// What an [`AppState`] means.
#[verifier::ext_equal]
pub struct AppView {
    pub running: bool,
    pub tab: Tab,
    pub selected: Option<usize>,
    pub contact_mode: ContactMode,
    pub add_buf: Seq<char>,
    pub export_code: Seq<char>,
    pub bootstrap_code: Seq<char>,
    pub key_alert: Option<(Seq<char>, Seq<char>)>,
    pub pending: Seq<OpenedView>,
    pub pending_name_buf: Seq<char>,
    pub requests: Seq<BootstrapPendingView>,
    pub draft: Seq<char>,
    pub messages: Seq<StoredMessageView>,
    pub active_contact: Option<usize>,
    pub loaded_contact: Option<usize>,
    pub search_active: bool,
    pub search_query: Seq<char>,
    pub settings_selected: Option<usize>,
    pub settings_edit_mode: SettingsEditMode,
    pub settings_edit_buf: Seq<char>,
    pub status: Seq<char>,
}

/// The views of the waiting contact requests.
pub open spec fn opened_views(s: Seq<OpenedHandshake>) -> Seq<OpenedView> {
    Seq::new(s.len(), |i: int| s[i]@)
}

impl View for AppState {
    type V = AppView;

    open spec fn view(&self) -> AppView {
        AppView {
            running: self.running,
            tab: self.tab,
            selected: self.selected,
            contact_mode: self.contact_mode,
            add_buf: self.add_buf@,
            export_code: self.export_code@,
            bootstrap_code: self.bootstrap_code@,
            key_alert: match self.key_alert {
                Some((name, fingerprint)) => Some((name@, fingerprint@)),
                None => None,
            },
            pending: opened_views(self.pending_handshakes@),
            pending_name_buf: self.pending_name_buf@,
            requests: pending_views(self.pending_bundle_requests@),
            draft: self.draft@,
            messages: models(self.messages@),
            active_contact: self.active_contact,
            loaded_contact: self.loaded_contact,
            search_active: self.search_active,
            search_query: self.search_query@,
            settings_selected: self.settings_selected,
            settings_edit_mode: self.settings_edit_mode,
            settings_edit_buf: self.settings_edit_buf@,
            status: self.status@,
        }
    }
}

impl AppView {
    /// The selections leave room for one step, the settings selection is an
    /// entry of the list, and the contact requests are within their cap.
    pub open spec fn wf(self) -> bool {
        &&& self.selected matches Some(i) ==> i < usize::MAX
        &&& self.settings_selected matches Some(i) ==> i < NUM_SETTINGS
        &&& self.pending.len() <= MAX_PENDING_HANDSHAKES
    }

    /// The contact whose conversation the user is in.
    pub open spec fn current_contact(self) -> Option<usize> {
        match self.active_contact {
            Some(i) => Some(i),
            None => self.selected,
        }
    }

    /// The id of that contact, if it is in the list.
    pub open spec fn on_screen(self, v: VaultView) -> Option<Seq<u8>> {
        match self.current_contact() {
            Some(i) => if i < v.payload.contacts.len() {
                Some(v.payload.contacts[i as int].id)
            } else {
                None
            },
            None => None,
        }
    }
}

/// The help line of the contacts tab.
pub open spec fn help_text(pending: nat) -> Seq<char> {
    if pending > 0 {
        "Tab:switch  ↑↓:nav  a:add  e:export  v:verify  d:delete  p:pending("@ + decimal(pending)
            + ")  q:quit"@
    } else {
        "Tab:switch  ↑↓:navigate  a:add-contact  e:export-code  v:verify  d:delete  Enter:view  q:quit"@
    }
}

/// The help line of the contacts tab.
pub fn contacts_help(pending: usize) -> (r: String)
    ensures
        r@ == help_text(pending as nat),
{
    if pending > 0 {
        text::joined3(
            "Tab:switch  ↑↓:nav  a:add  e:export  v:verify  d:delete  p:pending(",
            text::decimal_text(pending as u64).as_str(),
            ")  q:quit",
        )
    } else {
        "Tab:switch  ↑↓:navigate  a:add-contact  e:export-code  v:verify  d:delete  Enter:view  q:quit".to_owned()
    }
}

impl AppState {
    /// The state at the start.
    pub fn new(export_code: String, bootstrap_code: String) -> (r: Self)
        ensures
            r@.wf(),
            r@ == (AppView {
                running: true,
                tab: Tab::Contacts,
                selected: Some(0),
                contact_mode: ContactMode::List,
                add_buf: seq![],
                export_code: export_code@,
                bootstrap_code: bootstrap_code@,
                key_alert: None,
                pending: seq![],
                pending_name_buf: seq![],
                requests: seq![],
                draft: seq![],
                messages: seq![],
                active_contact: None,
                loaded_contact: None,
                search_active: false,
                search_query: seq![],
                settings_selected: Some(0),
                settings_edit_mode: SettingsEditMode::Closed,
                settings_edit_buf: seq![],
                status: help_text(0),
            }),
    {
        let r = AppState {
            running: true,
            tab: Tab::Contacts,
            selected: Some(0),
            contact_mode: ContactMode::List,
            add_buf: String::new(),
            export_code,
            bootstrap_code,
            key_alert: None,
            pending_handshakes: Vec::new(),
            pending_name_buf: String::new(),
            pending_bundle_requests: Vec::new(),
            draft: String::new(),
            messages: Vec::new(),
            active_contact: None,
            loaded_contact: None,
            search_active: false,
            search_query: String::new(),
            settings_selected: Some(0),
            settings_edit_mode: SettingsEditMode::Closed,
            settings_edit_buf: String::new(),
            status: contacts_help(0),
        };
        assert(r@.pending =~= seq![]);
        assert(r@.requests =~= seq![]);
        assert(r@.messages =~= seq![]);
        r
    }

    /// The contact whose conversation the user is in.
    pub fn current_contact(&self) -> (r: Option<usize>)
        ensures
            r == self@.current_contact(),
    {
        match self.active_contact {
            Some(i) => Some(i),
            None => self.selected,
        }
    }

    /// The id of the contact whose conversation the user is in.
    pub fn on_screen(&self, vault: &VaultUnlocked) -> (r: Option<[u8; 32]>)
        ensures
            match r {
                Some(id) => self@.on_screen(vault@) == Some(id@),
                None => self@.on_screen(vault@) is None,
            },
    {
        match self.current_contact() {
            Some(i) => if i < vault.payload.contacts.len() {
                assert(vault@.payload.contacts[i as int] == vault.payload.contacts@[i as int]@);
                Some(vault.payload.contacts[i].id)
            } else {
                None
            },
            None => None,
        }
    }
}

/// A message of the user on its way out. Once the transport has taken it or
/// refused it, [`crate::ui::conversation_keys::finish_send`] completes it.
pub struct Draft {
    /// Whose conversation it belongs to.
    pub contact_id: [u8; 32],
    pub plaintext: Vec<u8>,
    pub outgoing: Outgoing,
}

/// What has to happen outside: what goes to disk and what goes out.
pub struct Effects {
    /// A save, to be written to disk.
    pub saved: Option<SavedVault>,
    /// Handed to the transport, whether it takes them or not.
    pub sent: Vec<Outgoing>,
    /// A message whose fate the user is told.
    pub message: Option<Draft>,
    /// Whether Tor is asked for new circuits.
    pub new_circuit: bool,
}

impl Effects {
    /// Nothing happens.
    pub open spec fn none_spec(self) -> bool {
        self.saved is None && self.sent@.len() == 0 && self.message is None && !self.new_circuit
    }

    /// Nothing but a save of the vault `v`, as far as it can be encrypted.
    pub open spec fn saves_only(self, v: VaultView) -> bool {
        &&& saves(v, self.saved)
        &&& self.sent@.len() == 0
        &&& self.message is None
        &&& !self.new_circuit
    }

    /// Nothing happens.
    pub fn none() -> (r: Self)
        ensures
            r.none_spec(),
    {
        Effects { saved: None, sent: Vec::new(), message: None, new_circuit: false }
    }

    /// A save.
    pub fn save_of(vault: &mut VaultUnlocked) -> (r: Self)
        requires
            old(vault)@.payload.sequence < u64::MAX,
        ensures
            final(vault)@ == old(vault)@.next(),
            r.saves_only(final(vault)@),
    {
        Effects { saved: try_save(vault), sent: Vec::new(), message: None, new_circuit: false }
    }
}

/// Whether a save holds the vault `v`; there is none where the vault is too
/// large to be encrypted.
pub open spec fn saves(v: VaultView, saved: Option<SavedVault>) -> bool {
    match saved {
        Some(s) => v.held_by(s) && v.freshly_held_by(s),
        None => !sealable(VaultPayload::put_spec(v.payload).len()),
    }
}

/// Saves the vault where it can be encrypted.
pub fn try_save(vault: &mut VaultUnlocked) -> (r: Option<SavedVault>)
    requires
        old(vault)@.payload.sequence < u64::MAX,
    ensures
        final(vault)@ == old(vault)@.next(),
        saves(final(vault)@, r),
{
    match vault.save() {
        Ok(s) => Some(s),
        Err(_) => None,
    }
}

} // verus!
