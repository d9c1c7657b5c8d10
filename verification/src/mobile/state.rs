//! The state of the phone's interface.
use crate::codec::models;
use crate::messenger::identity::{
    bootstrap_text, build_bootstrap_code, build_export_code, build_our_bundle, export_text,
};
use crate::messenger::incoming::{OpenedHandshake, OpenedView};
use crate::messenger::sessions::{clear_unread, only_talk_changed};
use crate::storage::payload::PayloadView;
use crate::storage::records::{StoredMessage, StoredMessageView};
use crate::storage::vault::{SavedVault, VaultUnlocked, VaultView};
use crate::text;
use crate::text::{is_control, text_in};
use crate::ui::input::{plain_text, plain_text_is_kept, sanitize};
use crate::ui::state::{
    opened_views, saves, try_save, Effects, Tab, MAX_PENDING_HANDSHAKES,
};
use vstd::prelude::*;
use vstd::utf8::encode_utf8;

verus! {

/// The screens.
#[derive(Debug, Clone, Copy, PartialEq, Eq, Structural)]
pub enum Screen {
    Passphrase,
    Main,
    Duress,
    KeyAlert,
}

/// What the contacts tab shows.
#[derive(Debug, Clone, Copy, PartialEq, Eq, Structural)]
pub enum MobileMode {
    List,
    Fingerprint,
    AddContact,
    ExportCode,
    PendingRequest,
}

/// What is being edited or confirmed in the settings tab.
#[derive(Debug, Clone, Copy, PartialEq, Eq, Structural)]
pub enum MobileEdit {
    /// Nothing.
    Closed,
    AutoDelete,
    ConfirmRotate,
    ConfirmRevoke,
}

/// The state of the interface.
pub struct MobileState {
    pub screen: Screen,
    pub tab: Tab,
    pub auth_error: String,
    /// Whether there is a transport.
    pub connected: bool,
    pub selected_contact: usize,
    pub contact_mode: MobileMode,
    pub add_contact_buf: String,
    pub pending_handshakes: Vec<OpenedHandshake>,
    pub pending_name_buf: String,
    pub export_code: String,
    pub bootstrap_code: String,
    pub draft: String,
    pub messages: Vec<StoredMessage>,
    pub loaded_contact: Option<usize>,
    pub search_query: String,
    pub search_active: bool,
    pub settings_edit: MobileEdit,
    pub edit_buf: String,
    pub status: String,
}

/// What a [`MobileState`] means.
#[verifier::ext_equal]
pub struct MobileView {
    pub screen: Screen,
    pub tab: Tab,
    pub auth_error: Seq<char>,
    pub connected: bool,
    pub selected_contact: usize,
    pub contact_mode: MobileMode,
    pub add_contact_buf: Seq<char>,
    pub pending: Seq<OpenedView>,
    pub pending_name_buf: Seq<char>,
    pub export_code: Seq<char>,
    pub bootstrap_code: Seq<char>,
    pub draft: Seq<char>,
    pub messages: Seq<StoredMessageView>,
    pub loaded_contact: Option<usize>,
    pub search_query: Seq<char>,
    pub search_active: bool,
    pub settings_edit: MobileEdit,
    pub edit_buf: Seq<char>,
    pub status: Seq<char>,
}

impl View for MobileState {
    type V = MobileView;

    open spec fn view(&self) -> MobileView {
        MobileView {
            screen: self.screen,
            tab: self.tab,
            auth_error: self.auth_error@,
            connected: self.connected,
            selected_contact: self.selected_contact,
            contact_mode: self.contact_mode,
            add_contact_buf: self.add_contact_buf@,
            pending: opened_views(self.pending_handshakes@),
            pending_name_buf: self.pending_name_buf@,
            export_code: self.export_code@,
            bootstrap_code: self.bootstrap_code@,
            draft: self.draft@,
            messages: models(self.messages@),
            loaded_contact: self.loaded_contact,
            search_query: self.search_query@,
            search_active: self.search_active,
            settings_edit: self.settings_edit,
            edit_buf: self.edit_buf@,
            status: self.status@,
        }
    }
}

impl MobileView {
    /// The contact requests are within their cap.
    pub open spec fn wf(self) -> bool {
        self.pending.len() <= MAX_PENDING_HANDSHAKES
    }

    /// Whether the selection is a contact.
    pub open spec fn selects(self, v: VaultView) -> bool {
        self.selected_contact < v.payload.contacts.len()
    }
}

/// The text that the phone shows and logs for bytes.
pub open spec fn plain_message(b: Seq<u8>) -> Seq<char> {
    plain_text(text_in(b))
}

/// The text that the phone shows and logs for bytes.
pub fn text_of_plain(b: &[u8]) -> (r: String)
    ensures
        r@ == plain_message(b@),
        forall|t: Seq<char>|
            b@ == #[trigger] encode_utf8(t) && (forall|i: int|
                0 <= i < t.len() ==> (!is_control(#[trigger] t[i]) || t[i] == '\n')) ==> r@ == t,
{
    proof {
        assert forall|t: Seq<char>|
            b@ == #[trigger] encode_utf8(t) && (forall|i: int|
                0 <= i < t.len() ==> (!is_control(#[trigger] t[i]) || t[i] == '\n')) implies
            plain_message(b@) == t by {
            text::encoded_text_is_read(t);
            plain_text_is_kept(t);
        }
    }
    sanitize(text::from_utf8_lossy(b).as_str())
}

impl MobileState {
    /// The state at the start: the passphrase is asked for.
    pub fn new() -> (r: Self)
        ensures
            r@.wf(),
            r@ == (MobileView {
                screen: Screen::Passphrase,
                tab: Tab::Contacts,
                auth_error: seq![],
                connected: false,
                selected_contact: 0,
                contact_mode: MobileMode::List,
                add_contact_buf: seq![],
                pending: seq![],
                pending_name_buf: seq![],
                export_code: seq![],
                bootstrap_code: seq![],
                draft: seq![],
                messages: seq![],
                loaded_contact: None,
                search_query: seq![],
                search_active: false,
                settings_edit: MobileEdit::Closed,
                edit_buf: seq![],
                status: seq![],
            }),
    {
        let r = MobileState {
            screen: Screen::Passphrase,
            tab: Tab::Contacts,
            auth_error: String::new(),
            connected: false,
            selected_contact: 0,
            contact_mode: MobileMode::List,
            add_contact_buf: String::new(),
            pending_handshakes: Vec::new(),
            pending_name_buf: String::new(),
            export_code: String::new(),
            bootstrap_code: String::new(),
            draft: String::new(),
            messages: Vec::new(),
            loaded_contact: None,
            search_query: String::new(),
            search_active: false,
            settings_edit: MobileEdit::Closed,
            edit_buf: String::new(),
            status: String::new(),
        };
        assert(r@.pending =~= seq![]);
        assert(r@.messages =~= seq![]);
        r
    }

    /// Rebuilds the codes from the keys in the vault, where there are keys.
    pub fn refresh_codes(&mut self, vault: &VaultUnlocked)
        ensures
            final(self)@ == coded(old(self)@, vault@),
    {
        if build_our_bundle(vault).is_some() {
            self.export_code = build_export_code(vault);
            self.bootstrap_code = build_bootstrap_code(vault);
        }
    }

    /// What follows an unlocked vault: the decoy for the duress passphrase, the
    /// contacts for the other.
    pub fn unlocked(&mut self, vault: &VaultUnlocked)
        ensures
            final(self)@ == (if vault@.is_duress {
                MobileView { screen: Screen::Duress, ..old(self)@ }
            } else {
                MobileView {
                    screen: Screen::Main,
                    status: "Vault unlocked."@,
                    ..coded(old(self)@, vault@)
                }
            }),
    {
        if vault.is_duress {
            self.screen = Screen::Duress;
        } else {
            self.refresh_codes(vault);
            self.screen = Screen::Main;
            self.status = "Vault unlocked.".to_owned();
        }
    }

    /// What follows a new vault.
    pub fn created(&mut self, vault: &VaultUnlocked)
        ensures
            final(self)@ == (MobileView {
                screen: Screen::Main,
                status: "Vault created."@,
                ..coded(old(self)@, vault@)
            }),
    {
        self.refresh_codes(vault);
        self.screen = Screen::Main;
        self.status = "Vault created.".to_owned();
    }

    /// What follows once the transport is up: our address is in the vault and
    /// in the codes.
    pub fn connected_at(&mut self, vault: &mut VaultUnlocked, address: String) -> (r: Option<
        SavedVault,
    >)
        requires
            old(vault)@.has_room(),
        ensures
            final(vault)@ == old(vault)@.with_address(address@).next(),
            saves(final(vault)@, r),
            final(self)@ == coded(
                MobileView { connected: true, status: "Connected: "@ + address@, ..old(self)@ },
                final(vault)@,
            ),
    {
        self.status = text::joined("Connected: ", address.as_str());
        vault.payload.nym_address = address;
        let saved = try_save(vault);
        self.connected = true;
        self.refresh_codes(vault);
        saved
    }

    /// What follows where the transport could not be set up.
    pub fn connection_failed(&mut self, why: &str)
        ensures
            final(self)@ == (MobileView {
                status: "Tor connection failed: "@ + why@,
                ..old(self)@
            }),
    {
        self.status = text::joined("Tor connection failed: ", why);
    }

    /// What follows a wrong passphrase.
    pub fn refused(&mut self)
        ensures
            final(self)@ == (MobileView { auth_error: "Invalid passphrase."@, ..old(self)@ }),
    {
        self.auth_error = "Invalid passphrase.".to_owned();
    }
}

impl VaultView {
    /// The vault with another address of ours.
    pub open spec fn with_address(self, nym_address: Seq<char>) -> VaultView {
        VaultView { payload: PayloadView { nym_address, ..self.payload }, ..self }
    }
}

/// The interface with the codes of the keys in a vault.
pub open spec fn coded(a: MobileView, v: VaultView) -> MobileView {
    if v.payload.our_bundle() is Some {
        MobileView {
            export_code: export_text(v.payload),
            bootstrap_code: bootstrap_text(v.payload),
            ..a
        }
    } else {
        a
    }
}

/// What loading the messages of the selected contact makes of the interface.
pub open spec fn reloaded(a: MobileView, v: VaultView) -> MobileView {
    if a.selects(v) {
        MobileView {
            messages: v.messages(v.payload.contacts[a.selected_contact as int].id),
            loaded_contact: Some(a.selected_contact),
            ..a
        }
    } else {
        a
    }
}

/// What loading the messages of the selected contact makes of the vault: they
/// are read.
pub open spec fn reload_outcome(a: MobileView, v: VaultView, after: VaultView, e: Effects) -> bool {
    let id = v.payload.contacts[a.selected_contact as int].id;
    if a.selects(v) && v.unread(id) > 0 {
        let talk = after.at(v.payload.sequence);
        &&& after == talk.next()
        &&& only_talk_changed(v, talk, id)
        &&& talk.session(id) == v.session(id)
        &&& talk.messages(id) == v.messages(id)
        &&& talk.unread(id) == 0
        &&& e.saves_only(after)
    } else {
        after == v && e.none_spec()
    }
}

/// Loads the messages of the selected contact and takes its unread mark off.
pub fn reload_messages(app: &mut MobileState, vault: &mut VaultUnlocked) -> (r: Effects)
    requires
        old(vault)@.has_room(),
    ensures
        final(app)@ == reloaded(old(app)@, old(vault)@),
        reload_outcome(old(app)@, old(vault)@, final(vault)@, r),
{
    let i = app.selected_contact;
    if i >= vault.payload.contacts.len() {
        return Effects::none();
    }
    assert(vault@.payload.contacts[i as int] == vault.payload.contacts@[i as int]@);
    let id = vault.payload.contacts[i].id;
    app.messages = vault.load_messages(&id);
    app.loaded_contact = Some(i);
    if !clear_unread(vault, &id) {
        return Effects::none();
    }
    let ghost talk = vault@;
    let effects = Effects::save_of(vault);
    assert(vault@.at(old(vault)@.payload.sequence) =~= talk);
    effects
}

} // verus!
