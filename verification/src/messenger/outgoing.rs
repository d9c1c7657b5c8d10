//! Messages on their way out: the first message to a contact opens a session,
//! every later one goes through its ratchet.
use crate::bytes;
use crate::codec::Record;
use crate::crypto::handshake::{
    alice_session, bob_session, bundle_prekey, carries, owns, perform_handshake_alice, prekey,
    HandshakeInitMessage, InitView,
};
use crate::crypto::hmac_auth::{compute_message_mac, mac_input, MessageMac};
use crate::crypto::keys::{
    BundleView, HybridKemKeypair, HybridSigningKeypair, PublicKeyBundle,
};
use crate::crypto::primitives::{seals, MacKey, AEAD_NONCE_LEN};
use crate::crypto::ratchet::{
    aead_of, agrees_with_owner, alice_start, encrypt_spec, mac_of, mk_of, zeros, HeaderView,
    MessageHeader, RatchetState, RatchetView,
};
use crate::crypto::suite::{
    drawn_32, drawn_bytes, drawn_nonce, hmac_sha256, mlkem_encap, mlkem_shared, sealable, x25519_base,
    MLKEM_CT_LEN, MLKEM_EK_LEN,
};
use crate::identity::profile::ContactView;
use crate::messenger::identity::own_ratchet_pub;
use crate::messenger::sessions::{only_talk_changed, store_session};
use crate::network::message::{
    capped, padded_len, put_length, sized, WireMessage, WireMessageType, WireView, MAX_WIRE_BYTES,
};
use crate::storage::payload::PayloadView;
use crate::storage::vault::{VaultUnlocked, VaultView};
use vstd::prelude::*;

verus! {

/// Bytes for a peer.
pub struct Outgoing {
    /// Where they go.
    pub to: String,
    /// The record of a wire message.
    pub payload: Vec<u8>,
}

/// Why a message cannot be sent.
#[derive(Debug, Clone, Copy, PartialEq, Eq, Structural)]
pub enum SendError {
    /// No contact is selected.
    NoContact,
    /// There is no contact at the selected place.
    ContactNotFound,
    /// The contact's code has no address.
    NoAddress,
    /// Our keys in the vault are malformed.
    Keys,
    /// The stored session cannot be read.
    Session,
    /// The session cannot encrypt.
    Encryption,
    /// The contact's keys are malformed, or the message is too long.
    Handshake,
    /// The new session could not be started.
    SessionStart,
}

impl SendError {
    /// What the status bar says.
    pub open spec fn text_spec(self) -> Seq<char> {
        match self {
            SendError::NoContact => "No contact selected."@,
            SendError::ContactNotFound => "Contact not found."@,
            SendError::NoAddress => "Contact has no address — verify their contact code."@,
            SendError::Keys => "Key error — vault may be corrupt."@,
            SendError::Session => "Failed to load ratchet state."@,
            SendError::Encryption => "Encryption failed."@,
            SendError::Handshake => "Handshake failed."@,
            SendError::SessionStart => "Ratchet init failed — contact may be corrupt."@,
        }
    }

    /// What the status bar says.
    pub fn text(self) -> (r: String)
        ensures
            r@ == self.text_spec(),
    {
        match self {
            SendError::NoContact => "No contact selected.".to_owned(),
            SendError::ContactNotFound => "Contact not found.".to_owned(),
            SendError::NoAddress => "Contact has no address — verify their contact code.".to_owned(),
            SendError::Keys => "Key error — vault may be corrupt.".to_owned(),
            SendError::Session => "Failed to load ratchet state.".to_owned(),
            SendError::Encryption => "Encryption failed.".to_owned(),
            SendError::Handshake => "Handshake failed.".to_owned(),
            SendError::SessionStart => "Ratchet init failed — contact may be corrupt.".to_owned(),
        }
    }
}

/// The header of a message that goes outside a session.
pub open spec fn blank_header() -> HeaderView {
    HeaderView { dh_pub: zeros(), pn: 0, n: 0 }
}

/// A wire message outside a session: no header, no tag, no padding.
pub open spec fn bare_wire(msg_type: WireMessageType, ciphertext: Seq<u8>) -> WireView {
    WireView { msg_type, header: blank_header(), ciphertext, mac: zeros() }
}

/// The record of a wire message outside a session.
pub fn bare_message(msg_type: WireMessageType, ciphertext: Vec<u8>) -> (r: Vec<u8>)
    ensures
        r@ == bare_wire(msg_type, ciphertext@).bytes(),
        WireMessage::fits(bare_wire(msg_type, ciphertext@)),
{
    let zero = [0u8;32];
    assert(zero@ =~= zeros());
    let wire = WireMessage {
        msg_type,
        header: MessageHeader { dh_pub: zero, pn: 0, n: 0 },
        ciphertext,
        mac: MessageMac { tag: zero },
    };
    let mut out: Vec<u8> = Vec::new();
    wire.put(&mut out);
    assert(wire@ == bare_wire(msg_type, ciphertext@));
    assert(out@ =~= wire@.bytes());
    out
}

/// A bare wire message that is small enough to be read has fields that fit.
pub proof fn lemma_bare_wire_fits(msg_type: WireMessageType, b: Seq<u8>)
    requires
        bare_wire(msg_type, b).bytes().len() <= MAX_WIRE_BYTES,
    ensures
        WireMessage::fits(bare_wire(msg_type, b)),
{
    crate::codec::varint_len(b.len() as u64);
}

/// The header that a session's next message carries.
pub open spec fn next_header(s: RatchetView) -> HeaderView {
    HeaderView { dh_pub: s.dhs_pub, pn: s.pn, n: s.ns }
}

/// Whether `w` carries `plaintext` as the next message of the session `s`,
/// where `ct` is its ciphertext. The tag covers the ratchet key that the
/// message goes out under, which names the conversation to both sides alike.
pub open spec fn data_wire(w: WireView, s: RatchetView, plaintext: Seq<u8>, ct: Seq<u8>) -> bool {
    let mk = mk_of(s.cks->0);
    &&& w.msg_type == WireMessageType::Data
    &&& w.header == next_header(s)
    &&& w.header.dh_pub.len() == 32
    &&& seals(aead_of(mk), plaintext, w.header.bytes(), ct)
    &&& w.mac == hmac_sha256(mac_of(mk), mac_input(s.dhs_pub, s.ns, ct))
    &&& w.mac.len() == 32
    &&& sized(ct).is_prefix_of(w.ciphertext)
    &&& w.ciphertext.len() == padded_len(sized(ct).len())
}

/// Whether `payload` is a data message of the session `s`, under a nonce from
/// the generator and filled up with bytes from it.
pub open spec fn is_data_message(payload: Seq<u8>, s: RatchetView, plaintext: Seq<u8>) -> bool {
    exists|w: WireView, ct: Seq<u8>|
        {
            &&& payload == w.bytes()
            &&& #[trigger] data_wire(w, s, plaintext, ct)
            &&& drawn_nonce(ct.take(AEAD_NONCE_LEN as int))
            &&& w.ciphertext.len() > sized(ct).len() ==> drawn_bytes(
                w.ciphertext.skip(sized(ct).len() as int),
            )
        }
}

/// Whether `payload` is a handshake from us that carries `plaintext` and that
/// agrees on `key`.
pub open spec fn is_handshake_message(
    payload: Seq<u8>,
    ours: PayloadView,
    plaintext: Seq<u8>,
    msg: InitView,
    key: Seq<u8>,
) -> bool {
    &&& payload == bare_wire(
        WireMessageType::Handshake,
        HandshakeInitMessage::put_spec(msg),
    ).bytes()
    &&& msg.identity == ours.bundle_at(ours.nym_address)
    &&& msg.mlkem_ct.len() == MLKEM_CT_LEN
    &&& carries(msg, key, plaintext)
}

/// Whether a session is the one that a handshake to `bob` starts.
pub open spec fn opens_session(s: RatchetView, key: Seq<u8>, bob: BundleView) -> bool {
    &&& s == alice_start(key, prekey(bob), s.dhs)
    &&& agrees_with_owner(s.dhs, prekey(bob))
}

/// Whether the owner of the keys in `bob` agrees on `key` from the handshake
/// `msg`, provided that its ML-KEM key recovers the secret that was
/// encapsulated with `m`.
pub open spec fn agreed_with(msg: InitView, key: Seq<u8>, bob: BundleView, m: Seq<u8>) -> bool {
    &&& msg.mlkem_ct == mlkem_encap(bob.mlkem_ek, m).0
    &&& forall|b: Seq<u8>, q: Seq<u8>, dk: Seq<u8>, o: Option<Seq<u8>>|
        owns(bob, b, q, o) && mlkem_shared(dk, msg.mlkem_ct) == mlkem_encap(bob.mlkem_ek, m).1
            ==> #[trigger] bob_session(b, q, dk, msg, o) == key
}

/// Whether `key` is ours from the handshake `msg` to `bob`, with the ephemeral
/// secret `ephemeral` from the generator and the secret that was encapsulated
/// with `m`.
pub open spec fn agreed_by(
    msg: InitView,
    key: Seq<u8>,
    ours: PayloadView,
    bob: BundleView,
    ephemeral: Seq<u8>,
    m: Seq<u8>,
) -> bool {
    &&& drawn_32(ephemeral)
    &&& msg.ek == x25519_base(ephemeral)
    &&& key == alice_session(
        ours.x25519_secret(),
        ephemeral,
        bob,
        mlkem_encap(bob.mlkem_ek, m).1,
    )
}

/// Whether `payload` is a handshake from us to `bob` that carries `plaintext`
/// and starts the session `s`.
pub open spec fn first_message(
    payload: Seq<u8>,
    ours: PayloadView,
    bob: BundleView,
    plaintext: Seq<u8>,
    s: RatchetView,
) -> bool {
    exists|msg: InitView, key: Seq<u8>, ephemeral: Seq<u8>, m: Seq<u8>|
        {
            &&& #[trigger] is_handshake_message(payload, ours, plaintext, msg, key)
            &&& drawn_nonce(msg.initial_ct.take(AEAD_NONCE_LEN as int))
            &&& #[trigger] agreed_by(msg, key, ours, bob, ephemeral, m)
            &&& agreed_with(msg, key, bob, m)
            &&& opens_session(s, key, bob)
            &&& drawn_32(s.dhs)
        }
}

/// Why a message to a contact cannot be sent, before anything is encrypted.
pub open spec fn send_error(v: VaultView, contact: Option<usize>, len: nat) -> Option<SendError> {
    match contact {
        None => Some(SendError::NoContact),
        Some(i) => if i >= v.payload.contacts.len() {
            Some(SendError::ContactNotFound)
        } else {
            let c = v.payload.contacts[i as int];
            if c.bundle.nym_address.len() == 0 {
                Some(SendError::NoAddress)
            } else if !v.payload.has_kem() {
                Some(SendError::Keys)
            } else if v.has_session(c.id) {
                match v.session(c.id) {
                    None => Some(SendError::Session),
                    Some(s) => if s.ns == u64::MAX || s.cks is None || !sealable(len) {
                        Some(SendError::Encryption)
                    } else {
                        None
                    },
                }
            } else if !v.payload.has_signing() {
                Some(SendError::Keys)
            } else if c.bundle.mlkem_ek.len() != MLKEM_EK_LEN || !sealable(len) {
                Some(SendError::Handshake)
            } else {
                None
            }
        },
    }
}

/// What sending does to the vault, and what goes out: with a session, a data
/// message, after which the session is one step further; without one, a
/// handshake and a new session.
pub open spec fn composed(
    before: VaultView,
    after: VaultView,
    c: ContactView,
    plaintext: Seq<u8>,
    payload: Seq<u8>,
) -> bool {
    &&& only_talk_changed(before, after, c.id)
    &&& after.messages(c.id) == before.messages(c.id)
    &&& after.unread(c.id) == before.unread(c.id)
    &&& if before.has_session(c.id) {
        let s = before.session(c.id)->0;
        &&& is_data_message(payload, s, plaintext)
        &&& after.session(c.id) == Some(encrypt_spec(s, plaintext, seq![]).0)
    } else {
        exists|s: RatchetView|
            {
                &&& #[trigger] first_message(payload, before.payload, c.bundle, plaintext, s)
                &&& after.session(c.id) == Some(s)
            }
    }
}

/// The data message of a session that was loaded.
fn data_message(ratchet: &mut RatchetState, plaintext: &[u8]) -> (r: Result<Vec<u8>, SendError>)
    requires
        old(ratchet).wf(),
    ensures
        final(ratchet).wf(),
        match r {
            Ok(payload) => {
                &&& old(ratchet)@.ns < u64::MAX
                &&& old(ratchet)@.cks is Some
                &&& sealable(plaintext@.len())
                &&& is_data_message(payload@, old(ratchet)@, plaintext@)
                &&& final(ratchet)@ == encrypt_spec(old(ratchet)@, plaintext@, seq![]).0
            },
            Err(e) => e == SendError::Encryption && (old(ratchet)@.ns == u64::MAX || old(
                ratchet,
            )@.cks is None || !sealable(plaintext@.len())),
        },
{
    if ratchet.ns == u64::MAX {
        return Err(SendError::Encryption);
    }
    let ghost s = ratchet@;
    let (header, ct, mac_key) = match ratchet.ratchet_encrypt(plaintext) {
        Ok(x) => x,
        Err(_) => {
            return Err(SendError::Encryption);
        },
    };
    let mac = compute_message_mac(&MacKey(mac_key), &header.dh_pub, header.n, &ct);
    let ghost sealed = ct@;
    let ciphertext = put_length(ct);
    let wire = WireMessage { msg_type: WireMessageType::Data, header, ciphertext, mac };
    assert(capped(ciphertext@) == ciphertext@);
    let wire = wire.with_padding();
    let mut payload: Vec<u8> = Vec::new();
    wire.put(&mut payload);
    assert(payload@ =~= wire@.bytes());
    assert(data_wire(wire@, s, plaintext@, sealed));
    Ok(payload)
}

/// The handshake that opens a session with a contact, and the session.
fn handshake_message(
    vault: &VaultUnlocked,
    kem: &HybridKemKeypair,
    bundle: &PublicKeyBundle,
    plaintext: &[u8],
) -> (r: Result<(Vec<u8>, RatchetState), SendError>)
    requires
        kem.read_from(vault@.payload.identity_kem_secret),
    ensures
        match r {
            Ok((payload, s)) => {
                &&& s.wf()
                &&& vault@.payload.has_signing()
                &&& bundle@.mlkem_ek.len() == MLKEM_EK_LEN
                &&& sealable(plaintext@.len())
                &&& first_message(payload@, vault@.payload, bundle@, plaintext@, s@)
            },
            Err(e) => if !vault@.payload.has_signing() {
                e == SendError::Keys
            } else {
                e == SendError::Handshake && (bundle@.mlkem_ek.len() != MLKEM_EK_LEN || !sealable(
                    plaintext@.len(),
                ))
            },
        },
{
    let signing = match HybridSigningKeypair::from_bytes(&vault.payload.identity_signing_secret) {
        Ok(k) => k,
        Err(_) => {
            return Err(SendError::Keys);
        },
    };
    let ratchet_pub = own_ratchet_pub(vault, kem);
    let (msg, key) = match perform_handshake_alice(
        kem,
        &signing,
        ratchet_pub,
        vault.payload.nym_address.clone(),
        bundle,
        plaintext,
    ) {
        Ok(x) => x,
        Err(_) => {
            return Err(SendError::Handshake);
        },
    };
    let state = match RatchetState::init_alice(key.0, bundle_prekey(bundle)) {
        Ok(s) => s,
        Err(_) => {
            return Err(SendError::SessionStart);
        },
    };
    let payload = bare_message(WireMessageType::Handshake, msg.to_bytes());
    proof {
        assert(msg@.identity =~= vault@.payload.bundle_at(vault@.payload.nym_address));
        assert(opens_session(state@, key@, bundle@));
        assert(is_handshake_message(payload@, vault@.payload, plaintext@, msg@, key@));
        let (ephemeral, m) = choose|ephemeral: Seq<u8>, m: Seq<u8>|
            {
                &&& drawn_32(ephemeral)
                &&& msg@.ek == x25519_base(ephemeral)
                &&& msg@.mlkem_ct == mlkem_encap(bundle@.mlkem_ek, m).0
                &&& key@ == #[trigger] alice_session(
                    kem.x25519_secret@,
                    ephemeral,
                    bundle@,
                    (#[trigger] mlkem_encap(bundle@.mlkem_ek, m)).1,
                )
                &&& forall|b: Seq<u8>, q: Seq<u8>, dk: Seq<u8>, o: Option<Seq<u8>>|
                    owns(bundle@, b, q, o) && mlkem_shared(dk, msg@.mlkem_ct) == mlkem_encap(
                        bundle@.mlkem_ek,
                        m,
                    ).1 ==> #[trigger] bob_session(b, q, dk, msg@, o) == key@
            };
        assert(agreed_by(msg@, key@, vault@.payload, bundle@, ephemeral, m));
        assert(agreed_with(msg@, key@, bundle@, m));
        assert(first_message(payload@, vault@.payload, bundle@, plaintext@, state@));
    }
    Ok((payload, state))
}

/// Encrypts `plaintext` for a contact. The first message performs the
/// handshake and starts the session; the others go through its ratchet, with
/// the deniable tag attached. The session in the vault moves on, whether or
/// not the message is delivered.
pub fn compose_message(vault: &mut VaultUnlocked, contact: Option<usize>, plaintext: &[u8]) -> (r:
    Result<Outgoing, SendError>)
    ensures
        match r {
            Ok(out) => {
                let c = old(vault)@.payload.contacts[contact->0 as int];
                &&& send_error(old(vault)@, contact, plaintext@.len()) is None
                &&& out.to@ == c.bundle.nym_address
                &&& composed(old(vault)@, final(vault)@, c, plaintext@, out.payload@)
            },
            Err(e) => {
                &&& send_error(old(vault)@, contact, plaintext@.len()) == Some(e)
                &&& final(vault)@ == old(vault)@
            },
        },
        r matches Err(SendError::NoAddress) ==> contact is Some
            && old(vault)@.payload.contacts[contact->0 as int].bundle.nym_address.len() == 0,
        r matches Err(SendError::NoContact) ==> contact is None,
        r matches Err(SendError::ContactNotFound) ==> contact is Some && contact->0
            >= old(vault)@.payload.contacts.len(),
{
    let i = match contact {
        Some(i) => i,
        None => {
            return Err(SendError::NoContact);
        },
    };
    if i >= vault.payload.contacts.len() {
        return Err(SendError::ContactNotFound);
    }
    let contact_id = vault.payload.contacts[i].id;
    let bundle = vault.payload.contacts[i].bundle.copy();
    let ghost c = vault@.payload.contacts[i as int];
    assert(c == vault.payload.contacts@[i as int]@);
    if bundle.nym_address.as_str().is_empty() {
        return Err(SendError::NoAddress);
    }
    let kem = match HybridKemKeypair::from_bytes(&vault.payload.identity_kem_secret) {
        Ok(k) => k,
        Err(_) => {
            return Err(SendError::Keys);
        },
    };
    let stored = match vault.find_conversation_by_contact(&contact_id) {
        Some(k) => bytes::copied(&vault.payload.conversations[k].ratchet_state_ct),
        None => Vec::new(),
    };
    if stored.len() > 0 {
        let key = vault.derive_conversation_key(&contact_id);
        let mut ratchet = match RatchetState::from_encrypted_bytes(&key, &stored) {
            Ok(s) => s,
            Err(_) => {
                return Err(SendError::Session);
            },
        };
        let payload = match data_message(&mut ratchet, plaintext) {
            Ok(p) => p,
            Err(e) => {
                return Err(e);
            },
        };
        store_session(vault, &contact_id, &ratchet);
        Ok(Outgoing { to: bundle.nym_address, payload })
    } else {
        let (payload, state) = match handshake_message(vault, &kem, &bundle, plaintext) {
            Ok(x) => x,
            Err(e) => {
                return Err(e);
            },
        };
        store_session(vault, &contact_id, &state);
        Ok(Outgoing { to: bundle.nym_address, payload })
    }
}

} // verus!
