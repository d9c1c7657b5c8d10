//! What one side sends, the other receives.
use crate::codec::{models, put_list_spec, Record};
use crate::crypto::handshake::{
    bob_session, bob_spec, candidate, carries, handshake_completes, handshake_completes_with_opk,
    opk_id, owns, prekey, HandshakeInitMessage, InitView,
};
use crate::crypto::keys::BundleView;
use crate::crypto::primitives::{seals, AEAD_NONCE_LEN, AEAD_TAG_LEN};
use crate::crypto::ratchet::{
    aead_of, agrees, bob_start, bounded, chain_at, lemma_unflattened_is_bounded, mac_of, mk_of,
    skip_error, unflattened, FlatView, HeaderView, RatchetView, MAX_SKIP,
};
use crate::crypto::ratchet_laws::{
    any_order_delivery, awaits, changing_direction_stays_in_step, deliverable, follows,
    session_starts_in_step,
};
use crate::crypto::suite::{
    hmac_sha256, mlkem_encap, mlkem_shared, sealable, x25519_base, MLKEM_CT_LEN,
};
use crate::error::CryptoError;
use crate::messenger::incoming::{
    countable, data_received, handshake_opened, is_harmless, message_text,
    messages_are_kept_to_the_letter, opened_by, opener_from, plaintext_needs_no_fresh_secret, trial, DataOutcome, OpenedView,
};
use crate::messenger::outgoing::{
    agreed_with, bare_wire, data_wire, is_handshake_message, lemma_bare_wire_fits, next_header,
    opens_session,
};
use crate::messenger::sessions::logged;
use crate::network::message::{
    decoded, padded_messages_fit, padding_is_told_apart, wire_round_trip, WireMessageType,
    WireView, MAX_SEALED, MAX_WIRE_BYTES,
};
use crate::storage::payload::PayloadView;
use crate::storage::records::StoredMessage;
use crate::storage::vault::VaultView;
use vstd::prelude::*;
use vstd::utf8::encode_utf8;

verus! {

/// A first message is received: the owner of the bundle it was sent to reads
/// the plaintext, learns the sender's bundle and holds the same session key.
/// The message must be within the size that is read at all, and the owner's
/// ML-KEM key must recover what was encapsulated to it.
pub proof fn first_message_is_received(
    payload: Seq<u8>,
    sender: PayloadView,
    receiver: PayloadView,
    bob: BundleView,
    plaintext: Seq<u8>,
    msg: InitView,
    key: Seq<u8>,
    m: Seq<u8>,
)
    requires
        is_handshake_message(payload, sender, plaintext, msg, key),
        agreed_with(msg, key, bob, m),
        receiver.has_kem(),
        owns(bob, receiver.x25519_secret(), receiver.ratchet_secret()->0, None),
        mlkem_shared(receiver.mlkem_dk(), msg.mlkem_ct) == mlkem_encap(bob.mlkem_ek, m).1,
        HandshakeInitMessage::fits(msg),
        payload.len() <= MAX_WIRE_BYTES,
    ensures
        decoded(payload) matches Some(w) && w.msg_type == WireMessageType::Handshake
            && handshake_opened(receiver, w.ciphertext) == Some(
            OpenedView {
                bundle: sender.bundle_at(sender.nym_address),
                plaintext,
                session_key: key,
                used_opk: None,
            },
        ),
{
    lemma_handshake_is_read(payload, sender, plaintext, msg, key);
    let secret = receiver.x25519_secret();
    let ratchet = receiver.ratchet_secret()->0;
    let opks = receiver.opk_secrets;
    lemma_owner_agrees(msg, key, bob, m, secret, ratchet, receiver.mlkem_dk(), None);
    handshake_completes(secret, ratchet, receiver.mlkem_dk(), msg, opks, key, plaintext);
}

/// The same of a bundle with a one-time prekey: its owner finds the prekey
/// among its own, and knows its short name to spend it. No other one may have
/// the message's tag by accident.
pub proof fn first_message_with_prekey_is_received(
    payload: Seq<u8>,
    sender: PayloadView,
    receiver: PayloadView,
    bob: BundleView,
    plaintext: Seq<u8>,
    msg: InitView,
    key: Seq<u8>,
    m: Seq<u8>,
    i: nat,
)
    requires
        is_handshake_message(payload, sender, plaintext, msg, key),
        agreed_with(msg, key, bob, m),
        receiver.has_kem(),
        i < receiver.opk_secrets.len(),
        owns(
            bob,
            receiver.x25519_secret(),
            receiver.ratchet_secret()->0,
            Some(receiver.opk_secrets[i as int]),
        ),
        mlkem_shared(receiver.mlkem_dk(), msg.mlkem_ct) == mlkem_encap(bob.mlkem_ek, m).1,
        HandshakeInitMessage::fits(msg),
        payload.len() <= MAX_WIRE_BYTES,
        forall|j: nat|
            j <= i ==> hmac_sha256(
                bob_session(
                    receiver.x25519_secret(),
                    receiver.ratchet_secret()->0,
                    receiver.mlkem_dk(),
                    msg,
                    #[trigger] candidate(receiver.opk_secrets, j),
                ),
                msg.mac_input(),
            ) != msg.mac,
    ensures
        decoded(payload) matches Some(w) && w.msg_type == WireMessageType::Handshake
            && handshake_opened(receiver, w.ciphertext) == Some(
            OpenedView {
                bundle: sender.bundle_at(sender.nym_address),
                plaintext,
                session_key: key,
                used_opk: Some(opk_id(receiver.opk_secrets[i as int])),
            },
        ),
{
    lemma_handshake_is_read(payload, sender, plaintext, msg, key);
    let secret = receiver.x25519_secret();
    let ratchet = receiver.ratchet_secret()->0;
    let opks = receiver.opk_secrets;
    let dk = receiver.mlkem_dk();
    lemma_owner_agrees(msg, key, bob, m, secret, ratchet, dk, Some(opks[i as int]));
    lemma_prekey_is_found(receiver, plaintext, msg, key, i);
}

/// A handshake that used a one-time prekey opens under it.
proof fn lemma_prekey_is_found(
    receiver: PayloadView,
    plaintext: Seq<u8>,
    msg: InitView,
    key: Seq<u8>,
    i: nat,
)
    requires
        msg.mlkem_ct.len() == MLKEM_CT_LEN,
        carries(msg, key, plaintext),
        receiver.has_kem(),
        i < receiver.opk_secrets.len(),
        bob_session(
            receiver.x25519_secret(),
            receiver.ratchet_secret()->0,
            receiver.mlkem_dk(),
            msg,
            Some(receiver.opk_secrets[i as int]),
        ) == key,
        forall|j: nat|
            j <= i ==> hmac_sha256(
                bob_session(
                    receiver.x25519_secret(),
                    receiver.ratchet_secret()->0,
                    receiver.mlkem_dk(),
                    msg,
                    #[trigger] candidate(receiver.opk_secrets, j),
                ),
                msg.mac_input(),
            ) != msg.mac,
    ensures
        bob_spec(
            receiver.x25519_secret(),
            receiver.ratchet_secret()->0,
            receiver.mlkem_dk(),
            msg,
            receiver.opk_secrets,
        ) == Ok::<(Seq<u8>, Seq<u8>, nat), CryptoError>((plaintext, key, i + 1)),
        candidate(receiver.opk_secrets, i + 1) == Some(receiver.opk_secrets[i as int]),
{
    handshake_completes_with_opk(
        receiver.x25519_secret(),
        receiver.ratchet_secret()->0,
        receiver.mlkem_dk(),
        msg,
        receiver.opk_secrets,
        i,
        key,
        plaintext,
    );
}

/// The owner of a bundle agrees on the key of a handshake to it.
proof fn lemma_owner_agrees(
    msg: InitView,
    key: Seq<u8>,
    bob: BundleView,
    m: Seq<u8>,
    secret: Seq<u8>,
    ratchet: Seq<u8>,
    dk: Seq<u8>,
    opk: Option<Seq<u8>>,
)
    requires
        agreed_with(msg, key, bob, m),
        owns(bob, secret, ratchet, opk),
        mlkem_shared(dk, msg.mlkem_ct) == mlkem_encap(bob.mlkem_ek, m).1,
    ensures
        bob_session(secret, ratchet, dk, msg, opk) == key,
{
}

/// A handshake within the size that is read at all is read as it was written.
proof fn lemma_handshake_is_read(
    payload: Seq<u8>,
    sender: PayloadView,
    plaintext: Seq<u8>,
    msg: InitView,
    key: Seq<u8>,
)
    requires
        is_handshake_message(payload, sender, plaintext, msg, key),
        HandshakeInitMessage::fits(msg),
        payload.len() <= MAX_WIRE_BYTES,
    ensures
        decoded(payload) == Some(
            bare_wire(WireMessageType::Handshake, HandshakeInitMessage::put_spec(msg)),
        ),
        HandshakeInitMessage::take_spec(HandshakeInitMessage::put_spec(msg)) == Some(
            (msg, Seq::<u8>::empty()),
        ),
{
    let b = HandshakeInitMessage::put_spec(msg);
    let w = bare_wire(WireMessageType::Handshake, b);
    lemma_bare_wire_fits(WireMessageType::Handshake, b);
    wire_round_trip(w);
    HandshakeInitMessage::round_trip(msg, seq![]);
    assert(b + seq![] =~= b);
}

/// The receiving session `r` can open the next message of the sending session
/// `s`, which is on the chain `c`: it follows the chain and the message is in
/// its window, or it awaits the chain and the message is among the first.
pub open spec fn ready_for(r: RatchetView, s: RatchetView, c: Seq<u8>) -> bool {
    &&& s.cks == Some(chain_at(c, s.ns as nat))
    &&& {
        ||| follows(r, s.dhs_pub, c) && deliverable(r, s.dhs_pub, s.ns)
        ||| {
            &&& awaits(r, s, c)
            &&& r.dhr != Some(s.dhs_pub)
            &&& forall|i: u64| !#[trigger] r.skipped.dom().contains((s.dhs_pub, i))
            &&& skip_error(r, s.pn) is None
            &&& s.ns <= MAX_SKIP
        }
    }
}

/// Once a first message has been received, the receiver's session is ready for
/// what the sender's session says next.
pub proof fn sessions_start_ready(s: RatchetView, key: Seq<u8>, bob: BundleView, q: Seq<u8>)
    requires
        opens_session(s, key, bob),
        q.len() == 32,
        prekey(bob) == x25519_base(q),
    ensures
        ready_for(bob_start(key, q), s, s.cks->0),
        countable(bob_start(key, q)),
{
    assert(agrees(s.dhs, q));
    session_starts_in_step(key, s.dhs, q);
    assert(chain_at(s.cks->0, 0) == s.cks->0);
}

/// A session that was read from a vault has a bounded buffer.
proof fn lemma_session_is_bounded(v: VaultView, id: Seq<u8>)
    requires
        v.session(id) is Some,
    ensures
        bounded(v.session(id)->0),
{
    let f = choose|f: FlatView| v.session(id)->0 == #[trigger] unflattened(f);
    lemma_unflattened_is_bounded(f);
}

/// A session that is ready for a message opens it.
proof fn lemma_ready_session_opens(
    r: RatchetView,
    s: RatchetView,
    c: Seq<u8>,
    plaintext: Seq<u8>,
    ct: Seq<u8>,
)
    requires
        countable(r),
        bounded(r),
        ready_for(r, s, c),
        seals(aead_of(mk_of(s.cks->0)), plaintext, next_header(s).bytes(), ct),
    ensures
        opened_by(r, next_header(s), ct) == Some((plaintext, mac_of(mk_of(s.cks->0)))),
{
    let header = next_header(s);
    if follows(r, s.dhs_pub, c) && deliverable(r, s.dhs_pub, s.ns) {
        any_order_delivery(r, s.dhs_pub, c, header, ct, plaintext, seq![]);
    } else {
        changing_direction_stays_in_step(r, s, c, header, ct, plaintext, s.dhs);
        plaintext_needs_no_fresh_secret(r, header, ct, s.dhs, seq![]);
    }
}

/// The first contact whose session opens a message is found.
proof fn lemma_opener_is_found(v: VaultView, header: HeaderView, ct: Seq<u8>, from: int, i: int)
    requires
        0 <= from <= i < v.payload.contacts.len(),
        trial(v, v.payload.contacts[i].id, header, ct) is Some,
        forall|j: int|
            from <= j < i ==> trial(v, (#[trigger] v.payload.contacts[j]).id, header, ct) is None,
    ensures
        opener_from(v, header, ct, from) == Some(i),
    decreases i - from,
{
    if from < i {
        assert(trial(v, v.payload.contacts[from].id, header, ct) is None);
        lemma_opener_is_found(v, header, ct, from + 1, i);
    }
}

/// A data message is received: a vault whose session with the sender is ready
/// for it logs its text as received from that contact, to the letter and behind
/// what stands there, unless the session of an earlier contact opens it. With nonce and tag the plaintext must be within
/// the size that goes out whole.
pub proof fn data_message_is_received(
    w: WireView,
    s: RatchetView,
    c: Seq<u8>,
    plaintext: Seq<u8>,
    ct: Seq<u8>,
    receiver: VaultView,
    i: int,
)
    requires
        data_wire(w, s, plaintext, ct),
        AEAD_NONCE_LEN + plaintext.len() + AEAD_TAG_LEN <= MAX_SEALED,
        0 <= i < receiver.payload.contacts.len(),
        receiver.session(receiver.payload.contacts[i].id) matches Some(r) && countable(r)
            && ready_for(r, s, c),
        forall|j: int|
            0 <= j < i ==> trial(
                receiver,
                (#[trigger] receiver.payload.contacts[j]).id,
                w.header,
                ct,
            ) is None,
    ensures
        decoded(w.bytes()) == Some(w),
        forall|after: VaultView, on_screen: Option<Seq<u8>>, outcome: DataOutcome| #[trigger]
            data_received(receiver, after, w.header, w.ciphertext, w.mac, on_screen, outcome)
                ==> {
                &&& outcome matches DataOutcome::Received(who, messages)
                &&& who@ == receiver.payload.contacts[i].id
                &&& models(messages@) == logged(
                    receiver.messages(receiver.payload.contacts[i].id),
                    message_text(plaintext),
                    false,
                )
            },
        forall|
            after: VaultView,
            on_screen: Option<Seq<u8>>,
            outcome: DataOutcome,
            t: Seq<char>,
        |
            {
                &&& #[trigger] data_received(
                    receiver,
                    after,
                    w.header,
                    w.ciphertext,
                    w.mac,
                    on_screen,
                    outcome,
                )
                &&& plaintext == #[trigger] encode_utf8(t)
                &&& is_harmless(t)
            } ==> {
                let id = receiver.payload.contacts[i].id;
                let log = receiver.messages(id);
                &&& outcome matches DataOutcome::Received(who, messages)
                &&& models(messages@).len() == log.len() + 1
                &&& models(messages@).take(log.len() as int) == log
                &&& models(messages@).last().content == t
                &&& !models(messages@).last().from_us
                &&& models(messages@).last().counter == (log.len() + 1) as u64
                &&& sealable(put_list_spec::<StoredMessage>(models(messages@)).len())
                    ==> after.messages(id) == models(messages@)
                &&& after.unread(id) == receiver.unread(id) + (if on_screen == Some(id) {
                    0int
                } else {
                    1
                })
                &&& after.payload.contacts == receiver.payload.contacts
                &&& after.payload.sequence == receiver.payload.sequence
            },
{
    let id = receiver.payload.contacts[i].id;
    padding_is_told_apart(ct, w.ciphertext);
    padded_messages_fit(w);
    wire_round_trip(w);
    lemma_session_is_bounded(receiver, id);
    lemma_ready_session_opens(receiver.session(id)->0, s, c, plaintext, ct);
    lemma_opener_is_found(receiver, w.header, ct, 0, i);
    assert forall|t: Seq<char>| plaintext == #[trigger] encode_utf8(t) && is_harmless(t) implies
        message_text(plaintext) == t by {
        messages_are_kept_to_the_letter(t);
    }
    let log = receiver.messages(id);
    assert(logged(log, message_text(plaintext), false).take(log.len() as int) =~= log);
}

} // verus!
