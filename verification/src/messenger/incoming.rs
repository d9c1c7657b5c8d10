//! Messages on their way in. Nothing on the wire names the sender: a data
//! message is tried against every session.
use crate::bytes;
use crate::codec::{models, Record};
use crate::crypto::handshake::{
    bob_spec, candidate, opk_id, perform_handshake_bob_with_opks, secret_views,
    HandshakeInitMessage,
};
use crate::crypto::hmac_auth::{mac_input, verify_message_mac, MessageMac};
use crate::crypto::keys::{BundleView, HybridKemKeypair, PublicKeyBundle};
use crate::crypto::primitives::MacKey;
use crate::crypto::ratchet::{
    bob_start, decrypt_spec, result_is, zeros, HeaderView, MessageHeader, RatchetState,
    RatchetView, MAX_SKIP,
};
use crate::crypto::suite::{drawn_32, hmac_sha256};
use crate::identity::profile::{ContactView, StoredContact};
use crate::identity::revocation::{RevocationCertificate, RevocationView};
use crate::messenger::identity::load_ratchet_secret;
use crate::messenger::sessions::{
    lemma_only_talk_changed_twice, lemma_room, log_message, log_set, logged, mark_unread,
    only_talk_changed, store_session,
};
use crate::network::message::{sized_part, take_length};
use crate::storage::payload::{opk_position, PayloadView};
use crate::storage::records::StoredMessage;
use crate::storage::vault::{VaultUnlocked, VaultView};
use crate::text;
use crate::text::{is_control, text_in};
use crate::ui::input::{
    display_text, display_text_is_harmless, harmless_text_is_kept, sanitize_for_display,
};
use vstd::prelude::*;
use vstd::utf8::encode_utf8;

verus! {

/// What a handshake brought: who sent it, what they wrote, and the session key
/// that both sides now hold.
pub struct OpenedHandshake {
    pub bundle: PublicKeyBundle,
    pub plaintext: Vec<u8>,
    pub session_key: [u8; 32],
    /// Short name of the one-time prekey of ours that went into the key.
    pub used_opk: Option<[u8; 4]>,
}

/// What an [`OpenedHandshake`] means.
#[verifier::ext_equal]
pub struct OpenedView {
    pub bundle: BundleView,
    pub plaintext: Seq<u8>,
    pub session_key: Seq<u8>,
    pub used_opk: Option<Seq<u8>>,
}

impl View for OpenedHandshake {
    type V = OpenedView;

    open spec fn view(&self) -> OpenedView {
        OpenedView {
            bundle: self.bundle@,
            plaintext: self.plaintext@,
            session_key: self.session_key@,
            used_opk: match self.used_opk {
                Some(id) => Some(id@),
                None => None,
            },
        }
    }
}

/// What we make of the record of a handshake, if anything.
pub open spec fn handshake_opened(p: PayloadView, b: Seq<u8>) -> Option<OpenedView> {
    match HandshakeInitMessage::take_spec(b) {
        None => None,
        Some((msg, _)) => if !p.has_kem() {
            None
        } else {
            match bob_spec(
                p.x25519_secret(),
                p.ratchet_secret()->0,
                p.mlkem_dk(),
                msg,
                p.opk_secrets,
            ) {
                Ok((plaintext, session_key, i)) => Some(
                    OpenedView {
                        bundle: msg.identity,
                        plaintext,
                        session_key,
                        used_opk: match candidate(p.opk_secrets, i) {
                            Some(secret) => Some(opk_id(secret)),
                            None => None,
                        },
                    },
                ),
                Err(_) => None,
            }
        },
    }
}

/// Completes a handshake as the responder, without one-time prekey or with any
/// of ours. Anything that does not open under our keys is dropped.
pub fn open_handshake(vault: &VaultUnlocked, hs_bytes: &[u8]) -> (r: Option<OpenedHandshake>)
    ensures
        match r {
            Some(h) => handshake_opened(vault@.payload, hs_bytes@) == Some(h@),
            None => handshake_opened(vault@.payload, hs_bytes@) is None,
        },
{
    let msg = match HandshakeInitMessage::from_bytes(hs_bytes) {
        Some(m) => m,
        None => {
            return None;
        },
    };
    let kem = match HybridKemKeypair::from_bytes(&vault.payload.identity_kem_secret) {
        Ok(k) => k,
        Err(_) => {
            return None;
        },
    };
    let ratchet_secret = match load_ratchet_secret(vault) {
        Some(s) => s,
        None => {
            return None;
        },
    };
    let opks = &vault.payload.opk_secrets;
    assert(secret_views(opks@) =~= vault@.payload.opk_secrets);
    match perform_handshake_bob_with_opks(&kem, &ratchet_secret, opks, &msg) {
        Ok((plaintext, key, used_opk)) => Some(
            OpenedHandshake { bundle: msg.alice_identity, plaintext, session_key: key.0, used_opk },
        ),
        Err(_) => None,
    }
}

/// The vault once the one-time prekey with a short name is spent, where one was
/// used.
pub open spec fn prekey_spent(v: VaultView, used: Option<Seq<u8>>) -> VaultView {
    match used {
        None => v,
        Some(id) => match opk_position(v.payload.opk_secrets, id) {
            None => v,
            Some(i) => VaultView {
                payload: PayloadView {
                    opk_secrets: v.payload.opk_secrets.remove(i),
                    ..v.payload
                },
                ..v
            },
        },
    }
}

/// Drops the one-time prekey that a handshake has used, so that it serves no
/// second time.
pub fn spend_prekey(vault: &mut VaultUnlocked, handshake: &OpenedHandshake)
    ensures
        final(vault)@ == prekey_spent(old(vault)@, handshake@.used_opk),
{
    if let Some(id) = &handshake.used_opk {
        let _ = vault.payload.consume_opk_by_id(id);
    }
    assert(vault@ =~= prekey_spent(old(vault)@, handshake@.used_opk));
}

/// The first contact from `from` on with an Ed25519 key.
pub open spec fn sender_from(contacts: Seq<ContactView>, vk: Seq<u8>, from: int) -> Option<int>
    decreases contacts.len() - from,
{
    if from < 0 || from >= contacts.len() {
        None
    } else if contacts[from].bundle.ed25519_vk == vk {
        Some(from)
    } else {
        sender_from(contacts, vk, from + 1)
    }
}

/// The contact with an Ed25519 key.
pub fn find_sender(contacts: &Vec<StoredContact>, vk: &[u8; 32]) -> (r: Option<usize>)
    ensures
        match r {
            Some(i) => sender_from(models(contacts@), vk@, 0) == Some(i as int) && i
                < contacts@.len(),
            None => sender_from(models(contacts@), vk@, 0) is None,
        },
        match r {
            Some(i) => {
                &&& contacts@[i as int].bundle.ed25519_vk@ == vk@
                &&& forall|j: int|
                    0 <= j < i ==> (#[trigger] contacts@[j]).bundle.ed25519_vk@ != vk@
            },
            None => forall|j: int|
                0 <= j < contacts@.len() ==> (#[trigger] contacts@[j]).bundle.ed25519_vk@ != vk@,
        },
{
    let ghost all = models(contacts@);
    let mut i: usize = 0;
    while i < contacts.len()
        invariant
            i <= contacts@.len(),
            all == models(contacts@),
            sender_from(all, vk@, 0) == sender_from(all, vk@, i as int),
            forall|j: int| 0 <= j < i ==> (#[trigger] contacts@[j]).bundle.ed25519_vk@ != vk@,
        decreases contacts@.len() - i,
    {
        assert(all[i as int] == contacts@[i as int]@);
        if bytes::same_bytes(&contacts[i].bundle.ed25519_vk, vk) {
            return Some(i);
        }
        i = i + 1;
    }
    None
}

/// The sender is found wherever it stands in the list: the first contact with
/// the key is, and none only where no contact has it.
pub proof fn sender_is_found(contacts: Seq<ContactView>, vk: Seq<u8>)
    ensures
        match sender_from(contacts, vk, 0) {
            Some(i) => {
                &&& 0 <= i < contacts.len()
                &&& contacts[i].bundle.ed25519_vk == vk
                &&& forall|j: int| 0 <= j < i ==> (#[trigger] contacts[j]).bundle.ed25519_vk != vk
            },
            None => forall|j: int|
                0 <= j < contacts.len() ==> (#[trigger] contacts[j]).bundle.ed25519_vk != vk,
        },
        forall|i: int|
            {
                &&& 0 <= i < contacts.len()
                &&& (#[trigger] contacts[i]).bundle.ed25519_vk == vk
                &&& forall|j: int| 0 <= j < i ==> (#[trigger] contacts[j]).bundle.ed25519_vk != vk
            } ==> sender_from(contacts, vk, 0) == Some(i),
{
    lemma_sender_is_found(contacts, vk, 0);
}

proof fn lemma_sender_is_found(contacts: Seq<ContactView>, vk: Seq<u8>, from: int)
    requires
        0 <= from <= contacts.len(),
    ensures
        match sender_from(contacts, vk, from) {
            Some(i) => {
                &&& from <= i < contacts.len()
                &&& contacts[i].bundle.ed25519_vk == vk
                &&& forall|j: int| from <= j < i ==> (#[trigger] contacts[j]).bundle.ed25519_vk != vk
            },
            None => forall|j: int|
                from <= j < contacts.len() ==> (#[trigger] contacts[j]).bundle.ed25519_vk != vk,
        },
    decreases contacts.len() - from,
{
    if from < contacts.len() && contacts[from].bundle.ed25519_vk != vk {
        lemma_sender_is_found(contacts, vk, from + 1);
    }
}

/// The first contact from `from` on with an X25519 key.
pub open spec fn owner_from(contacts: Seq<ContactView>, key: Seq<u8>, from: int) -> Option<int>
    decreases contacts.len() - from,
{
    if from < 0 || from >= contacts.len() {
        None
    } else if contacts[from].bundle.x25519_pub == key {
        Some(from)
    } else {
        owner_from(contacts, key, from + 1)
    }
}

/// The contact with an X25519 key.
pub fn find_owner(contacts: &Vec<StoredContact>, key: &[u8; 32]) -> (r: Option<usize>)
    ensures
        match r {
            Some(i) => owner_from(models(contacts@), key@, 0) == Some(i as int) && i
                < contacts@.len(),
            None => owner_from(models(contacts@), key@, 0) is None,
        },
        match r {
            Some(i) => {
                &&& contacts@[i as int].bundle.x25519_pub@ == key@
                &&& forall|j: int|
                    0 <= j < i ==> (#[trigger] contacts@[j]).bundle.x25519_pub@ != key@
            },
            None => forall|j: int|
                0 <= j < contacts@.len() ==> (#[trigger] contacts@[j]).bundle.x25519_pub@ != key@,
        },
{
    let ghost all = models(contacts@);
    let mut i: usize = 0;
    while i < contacts.len()
        invariant
            i <= contacts@.len(),
            all == models(contacts@),
            owner_from(all, key@, 0) == owner_from(all, key@, i as int),
            forall|j: int| 0 <= j < i ==> (#[trigger] contacts@[j]).bundle.x25519_pub@ != key@,
        decreases contacts@.len() - i,
    {
        assert(all[i as int] == contacts@[i as int]@);
        if bytes::same_bytes(&contacts[i].bundle.x25519_pub, key) {
            return Some(i);
        }
        i = i + 1;
    }
    None
}

/// The owner of a key is found wherever it stands in the list: the first contact
/// with the key is, and none only where no contact has it.
pub proof fn owner_is_found(contacts: Seq<ContactView>, key: Seq<u8>)
    ensures
        match owner_from(contacts, key, 0) {
            Some(i) => {
                &&& 0 <= i < contacts.len()
                &&& contacts[i].bundle.x25519_pub == key
                &&& forall|j: int| 0 <= j < i ==> (#[trigger] contacts[j]).bundle.x25519_pub != key
            },
            None => forall|j: int|
                0 <= j < contacts.len() ==> (#[trigger] contacts[j]).bundle.x25519_pub != key,
        },
        forall|i: int|
            {
                &&& 0 <= i < contacts.len()
                &&& (#[trigger] contacts[i]).bundle.x25519_pub == key
                &&& forall|j: int| 0 <= j < i ==> (#[trigger] contacts[j]).bundle.x25519_pub != key
            } ==> owner_from(contacts, key, 0) == Some(i),
{
    lemma_owner_is_found(contacts, key, 0);
}

proof fn lemma_owner_is_found(contacts: Seq<ContactView>, key: Seq<u8>, from: int)
    requires
        0 <= from <= contacts.len(),
    ensures
        match owner_from(contacts, key, from) {
            Some(i) => {
                &&& from <= i < contacts.len()
                &&& contacts[i].bundle.x25519_pub == key
                &&& forall|j: int| from <= j < i ==> (#[trigger] contacts[j]).bundle.x25519_pub != key
            },
            None => forall|j: int|
                from <= j < contacts.len() ==> (#[trigger] contacts[j]).bundle.x25519_pub != key,
        },
    decreases contacts.len() - from,
{
    if from < contacts.len() && contacts[from].bundle.x25519_pub != key {
        lemma_owner_is_found(contacts, key, from + 1);
    }
}

/// The text that is shown and logged for received bytes.
pub open spec fn message_text(plaintext: Seq<u8>) -> Seq<char> {
    display_text(text_in(plaintext))
}

/// The text that is shown and logged for received bytes.
pub fn text_of_message(plaintext: &[u8]) -> (r: String)
    ensures
        r@ == message_text(plaintext@),
        forall|t: Seq<char>|
            is_harmless(t) && plaintext@ == #[trigger] encode_utf8(t) ==> r@ == t,
        is_harmless(r@),
{
    proof {
        assert forall|t: Seq<char>|
            is_harmless(t) && plaintext@ == #[trigger] encode_utf8(t) implies message_text(
            plaintext@,
        ) == t by {
            messages_are_kept_to_the_letter(t);
        }
        display_text_is_harmless(text_in(plaintext@));
    }
    sanitize_for_display(text::from_utf8_lossy(plaintext).as_str())
}

/// Whether a text holds no control character but line feeds and tabs.
pub open spec fn is_harmless(t: Seq<char>) -> bool {
    forall|i: int|
        0 <= i < t.len() ==> (!is_control(#[trigger] t[i]) || t[i] == '\n' || t[i] == '\t')
}

/// What a contact writes is what we read: a text without control characters
/// other than line feeds and tabs is shown and logged to the letter.
pub proof fn messages_are_kept_to_the_letter(t: Seq<char>)
    requires
        is_harmless(t),
    ensures
        message_text(encode_utf8(t)) == t,
{
    text::encoded_text_is_read(t);
    harmless_text_is_kept(t);
}

/// What receiving a message makes of the vault: the session is `session`, the
/// message stands at the end of the log, and it counts as unread unless its
/// conversation is the one on screen.
pub open spec fn received_from(
    before: VaultView,
    after: VaultView,
    contact_id: Seq<u8>,
    session: RatchetView,
    content: Seq<char>,
    on_screen: bool,
) -> bool {
    &&& only_talk_changed(before, after, contact_id)
    &&& after.session(contact_id) == Some(session)
    &&& log_set(before, after, contact_id, logged(before.messages(contact_id), content, false))
    &&& after.unread(contact_id) == before.unread(contact_id) + (if on_screen {
        0int
    } else {
        1
    })
}

/// Stores a session that has just moved on, and the message that moved it.
pub fn take_in(
    vault: &mut VaultUnlocked,
    contact_id: &[u8; 32],
    state: &RatchetState,
    content: String,
    on_screen: bool,
) -> (r: Vec<StoredMessage>)
    requires
        state.wf(),
        old(vault)@.has_room(),
    ensures
        received_from(
            old(vault)@,
            final(vault)@,
            contact_id@,
            state@,
            content@,
            on_screen,
        ),
        models(r@) == logged(old(vault)@.messages(contact_id@), content@, false),
{
    store_session(vault, contact_id, state);
    let ghost mid = vault@;
    let messages = log_message(vault, contact_id, content, false);
    proof {
        lemma_only_talk_changed_twice(old(vault)@, mid, vault@, contact_id@);
        lemma_room(old(vault)@, vault@, contact_id@);
    }
    if !on_screen {
        let ghost logged_in = vault@;
        mark_unread(vault, contact_id);
        proof {
            lemma_only_talk_changed_twice(old(vault)@, logged_in, vault@, contact_id@);
        }
    }
    messages
}

/// Completes a handshake from a known contact: the session starts over, and
/// the message comes in.
pub fn receive_handshake(
    vault: &mut VaultUnlocked,
    contact_id: &[u8; 32],
    handshake: &OpenedHandshake,
    on_screen: bool,
) -> (r: Option<Vec<StoredMessage>>)
    requires
        old(vault)@.has_room(),
    ensures
        match r {
            Some(messages) => {
                &&& old(vault)@.payload.ratchet_secret() matches Some(secret)
                &&& received_from(
                    old(vault)@,
                    final(vault)@,
                    contact_id@,
                    bob_start(handshake@.session_key, secret),
                    message_text(handshake@.plaintext),
                    on_screen,
                )
                &&& models(messages@) == logged(
                    old(vault)@.messages(contact_id@),
                    message_text(handshake@.plaintext),
                    false,
                )
            },
            None => old(vault)@.payload.ratchet_secret() is None && final(vault)@ == old(vault)@,
        },
{
    let secret = match load_ratchet_secret(vault) {
        Some(s) => s,
        None => {
            return None;
        },
    };
    let state = RatchetState::init_bob(handshake.session_key, secret);
    let content = text_of_message(&handshake.plaintext);
    Some(take_in(vault, contact_id, &state, content, on_screen))
}

/// Whether a session's counters leave room for one more message.
pub open spec fn countable(s: RatchetView) -> bool {
    s.ns < u64::MAX && s.nr < u64::MAX - MAX_SKIP && s.total_recv < u64::MAX
}

/// What a session makes of a message: the plaintext and the key of its tag.
pub open spec fn opened_by(s: RatchetView, header: HeaderView, ct: Seq<u8>) -> Option<
    (Seq<u8>, Seq<u8>),
> {
    if countable(s) {
        match decrypt_spec(s, header, ct, seq![]).1 {
            Ok(x) => Some(x),
            Err(_) => None,
        }
    } else {
        None
    }
}

/// What comes out of a session does not depend on our next ratchet secret.
pub proof fn plaintext_needs_no_fresh_secret(
    s: RatchetView,
    header: HeaderView,
    ct: Seq<u8>,
    f: Seq<u8>,
    g: Seq<u8>,
)
    ensures
        decrypt_spec(s, header, ct, f).1 == decrypt_spec(s, header, ct, g).1,
{
}

/// What the session with a contact makes of a message, if anything.
pub open spec fn trial(v: VaultView, contact_id: Seq<u8>, header: HeaderView, ct: Seq<u8>) -> Option<
    (Seq<u8>, Seq<u8>),
> {
    match v.session(contact_id) {
        Some(s) => opened_by(s, header, ct),
        None => None,
    }
}

/// The first contact from `from` on whose session opens a message.
pub open spec fn opener_from(v: VaultView, header: HeaderView, ct: Seq<u8>, from: int) -> Option<int>
    decreases v.payload.contacts.len() - from,
{
    if from < 0 || from >= v.payload.contacts.len() {
        None
    } else if trial(v, v.payload.contacts[from].id, header, ct) is Some {
        Some(from)
    } else {
        opener_from(v, header, ct, from + 1)
    }
}

/// Whether a tag is accepted: the right one is, and so is the zero-filled one
/// of peers that do not make tags yet. The tag covers the ratchet key in the
/// header.
pub open spec fn tag_accepted(
    tag: Seq<u8>,
    mac_key: Seq<u8>,
    header: HeaderView,
    ct: Seq<u8>,
) -> bool {
    tag == hmac_sha256(mac_key, mac_input(header.dh_pub, header.n, ct)) || tag == zeros()
}

/// Whether a tag is accepted.
pub fn accept_tag(mac: &MessageMac, mac_key: [u8; 32], header: &MessageHeader, ct: &[u8]) -> (r: bool)
    ensures
        r == tag_accepted(mac.tag@, mac_key@, header@, ct@),
{
    let zero = [0u8;32];
    assert(zero@ =~= zeros());
    verify_message_mac(&MacKey(mac_key), &header.dh_pub, header.n, ct, mac) || bytes::same_bytes(
        &mac.tag,
        &zero,
    )
}

/// What became of a data message.
pub enum DataOutcome {
    /// No session opens it: cover traffic, or an unknown sender.
    Dropped,
    /// A session opens it, but its tag is wrong.
    Rejected,
    /// It came in from the contact with this id, whose log is now this.
    Received([u8; 32], Vec<StoredMessage>),
}

/// What a data message makes of the vault: `padded` holds its ciphertext behind
/// its length and in front of the padding.
pub open spec fn data_received(
    before: VaultView,
    after: VaultView,
    header: HeaderView,
    padded: Seq<u8>,
    tag: Seq<u8>,
    on_screen: Option<Seq<u8>>,
    outcome: DataOutcome,
) -> bool {
    match sized_part(padded) {
        None => outcome is Dropped && after == before,
        Some(ct) => ciphertext_received(before, after, header, ct, tag, on_screen, outcome),
    }
}

/// What the ciphertext of a data message makes of the vault.
pub open spec fn ciphertext_received(
    before: VaultView,
    after: VaultView,
    header: HeaderView,
    ct: Seq<u8>,
    tag: Seq<u8>,
    on_screen: Option<Seq<u8>>,
    outcome: DataOutcome,
) -> bool {
    match opener_from(before, header, ct, 0) {
        None => outcome is Dropped && after == before,
        Some(i) => {
            let id = before.payload.contacts[i].id;
            let (plaintext, mac_key) = trial(before, id, header, ct)->0;
            if !tag_accepted(tag, mac_key, header, ct) {
                outcome is Rejected && after == before
            } else {
                &&& outcome matches DataOutcome::Received(who, messages)
                &&& who@ == id
                &&& models(messages@) == logged(
                    before.messages(id),
                    message_text(plaintext),
                    false,
                )
                &&& exists|fresh: Seq<u8>|
                    fresh.len() == 32 && drawn_32(fresh) && received_from(
                        before,
                        after,
                        id,
                        (#[trigger] decrypt_spec(
                            before.session(id)->0,
                            header,
                            ct,
                            fresh,
                        )).0,
                        message_text(plaintext),
                        on_screen == Some(id),
                    )
            }
        },
    }
}

/// The session with a contact, where it can be read and has room.
pub fn load_session(vault: &VaultUnlocked, contact_id: &[u8; 32]) -> (r: Option<RatchetState>)
    ensures
        match r {
            Some(s) => s.wf() && s.has_room_spec() && vault@.session(contact_id@) == Some(s@),
            None => match vault@.session(contact_id@) {
                Some(s) => !countable(s),
                None => true,
            },
        },
{
    let i = match vault.find_conversation_by_contact(contact_id) {
        Some(i) => i,
        None => {
            return None;
        },
    };
    assert(vault@.payload.conversations[i as int] == vault.payload.conversations@[i as int]@);
    let key = vault.derive_conversation_key(contact_id);
    match RatchetState::from_encrypted_bytes(&key, &vault.payload.conversations[i].ratchet_state_ct) {
        Ok(s) => if s.has_room() {
            Some(s)
        } else {
            None
        },
        Err(_) => None,
    }
}

/// Takes up a data message: its ciphertext is told from the padding and tried
/// against the session of every contact. The first that opens it decides: its
/// tag is checked, the session moves on, and the message is logged.
pub fn receive_data(
    vault: &mut VaultUnlocked,
    header: &MessageHeader,
    padded: &[u8],
    mac: &MessageMac,
    on_screen: Option<[u8; 32]>,
) -> (r: DataOutcome)
    requires
        old(vault)@.has_room(),
    ensures
        data_received(
            old(vault)@,
            final(vault)@,
            header@,
            padded@,
            mac.tag@,
            match on_screen {
                Some(id) => Some(id@),
                None => None,
            },
            r,
        ),
{
    match take_length(padded) {
        Some(ciphertext) => receive_ciphertext(vault, header, &ciphertext, mac, on_screen),
        None => DataOutcome::Dropped,
    }
}

/// Tries a ciphertext against the session of every contact.
fn receive_ciphertext(
    vault: &mut VaultUnlocked,
    header: &MessageHeader,
    ciphertext: &[u8],
    mac: &MessageMac,
    on_screen: Option<[u8; 32]>,
) -> (r: DataOutcome)
    requires
        old(vault)@.has_room(),
    ensures
        ciphertext_received(
            old(vault)@,
            final(vault)@,
            header@,
            ciphertext@,
            mac.tag@,
            match on_screen {
                Some(id) => Some(id@),
                None => None,
            },
            r,
        ),
{
    let ghost before = vault@;
    let mut i: usize = 0;
    while i < vault.payload.contacts.len()
        invariant
            i <= vault.payload.contacts@.len(),
            before == old(vault)@,
            vault@ == before,
            before.has_room(),
            opener_from(before, header@, ciphertext@, 0) == opener_from(
                before,
                header@,
                ciphertext@,
                i as int,
            ),
        decreases vault.payload.contacts@.len() - i,
    {
        let contact_id = vault.payload.contacts[i].id;
        assert(before.payload.contacts[i as int] == vault.payload.contacts@[i as int]@);
        if let Some(state) = load_session(vault, &contact_id) {
            let mut ratchet = state;
            let ghost s = ratchet@;
            let opened = ratchet.ratchet_decrypt(header, ciphertext);
            let ghost fresh = choose|fresh: Seq<u8>|
                {
                    &&& fresh.len() == 32
                    &&& drawn_32(fresh)
                    &&& ratchet@ == (#[trigger] decrypt_spec(s, header@, ciphertext@, fresh)).0
                    &&& result_is(opened, decrypt_spec(s, header@, ciphertext@, fresh).1)
                };
            proof {
                plaintext_needs_no_fresh_secret(s, header@, ciphertext@, fresh, seq![]);
            }
            if let Ok((plaintext, mac_key)) = opened {
                if !accept_tag(mac, mac_key, header, ciphertext) {
                    return DataOutcome::Rejected;
                }
                let shown = match on_screen {
                    Some(id) => bytes::same_bytes(&id, &contact_id),
                    None => false,
                };
                let content = text_of_message(&plaintext);
                let messages = take_in(vault, &contact_id, &ratchet, content, shown);
                return DataOutcome::Received(contact_id, messages);
            }
        }
        i = i + 1;
    }
    DataOutcome::Dropped
}

/// What became of a revocation.
pub enum RevocationOutcome {
    /// Not readable, not about a contact, or not signed by it.
    Ignored,
    /// The contact with this name has a new key with this fingerprint.
    Rotated(String, String),
    /// The contact with this name revoked its key without a successor, and
    /// was removed.
    Removed(String),
}

/// What a contact is once it has rotated its key: the new bundle, to be
/// verified anew.
pub open spec fn rotated(c: ContactView, bundle: BundleView) -> ContactView {
    ContactView { bundle, verified: false, last_key_seq: (c.last_key_seq + 1) as u64, ..c }
}

/// The contacts once a revocation has been processed.
pub open spec fn contacts_after(contacts: Seq<ContactView>, cert: RevocationView) -> Seq<ContactView> {
    match owner_from(contacts, cert.x25519_pub, 0) {
        None => contacts,
        Some(i) => if !cert.signed_by(contacts[i].bundle) {
            contacts
        } else {
            match cert.new_bundle {
                Some(b) => contacts.update(i, rotated(contacts[i], b)),
                None => contacts.remove(i),
            }
        },
    }
}

/// What is reported of a revocation.
pub open spec fn revocation_reported(
    contacts: Seq<ContactView>,
    cert: RevocationView,
    outcome: RevocationOutcome,
) -> bool {
    match owner_from(contacts, cert.x25519_pub, 0) {
        None => outcome is Ignored,
        Some(i) => if !cert.signed_by(contacts[i].bundle) {
            outcome is Ignored
        } else {
            match cert.new_bundle {
                Some(b) => outcome matches RevocationOutcome::Rotated(name, fingerprint) && name@
                    == contacts[i].display_name && fingerprint@ == b.fingerprint(),
                None => outcome matches RevocationOutcome::Removed(name) && name@
                    == contacts[i].display_name,
            }
        },
    }
}

/// Processes a revocation. The contact is found by the revoked key, and the
/// signature must be valid under the keys already known of it. A new bundle
/// takes the place of the old one and is not verified; without one the contact
/// is removed. Anything else is ignored without an answer.
pub fn receive_revocation(vault: &mut VaultUnlocked, cert_bytes: &[u8]) -> (r: RevocationOutcome)
    requires
        old(vault)@.has_room(),
    ensures
        match RevocationCertificate::take_spec(cert_bytes@) {
            None => r is Ignored && final(vault)@ == old(vault)@,
            Some((cert, _)) => {
                &&& revocation_reported(old(vault)@.payload.contacts, cert, r)
                &&& final(vault)@ == (VaultView {
                    payload: PayloadView {
                        contacts: contacts_after(old(vault)@.payload.contacts, cert),
                        ..old(vault)@.payload
                    },
                    ..old(vault)@
                })
            },
        },
{
    let cert = match RevocationCertificate::from_bytes(cert_bytes) {
        Some(c) => c,
        None => {
            return RevocationOutcome::Ignored;
        },
    };
    let ghost all = vault@.payload.contacts;
    let i = match find_owner(&vault.payload.contacts, &cert.revoked_x25519_pub) {
        Some(i) => i,
        None => {
            return RevocationOutcome::Ignored;
        },
    };
    assert(all[i as int] == vault.payload.contacts@[i as int]@);
    if cert.verify(&vault.payload.contacts[i].bundle).is_err() {
        return RevocationOutcome::Ignored;
    }
    let name = vault.payload.contacts[i].display_name.clone();
    match cert.new_bundle {
        Some(new_bundle) => {
            let fingerprint = new_bundle.fingerprint();
            let ghost b = new_bundle@;
            let sequence: u64 = vault.payload.contacts[i].last_key_seq + 1;
            vault.payload.contacts[i].bundle = new_bundle;
            vault.payload.contacts[i].verified = false;
            vault.payload.contacts[i].last_key_seq = sequence;
            assert(vault@.payload.contacts =~= all.update(i as int, rotated(all[i as int], b)));
            RevocationOutcome::Rotated(name, fingerprint)
        },
        None => {
            vault.payload.contacts.remove(i);
            assert(vault@.payload.contacts =~= all.remove(i as int));
            RevocationOutcome::Removed(name)
        },
    }
}

} // verus!
