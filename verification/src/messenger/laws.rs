//! What the messenger's operations are for: laws on what they do to the contact
//! list, the logs and the queues, whichever way they do it.
use crate::codec::models;
use crate::crypto::handshake::opk_id;
use crate::crypto::keys::{BundleView, KEM_BYTES, SIGNING_BYTES};
use crate::crypto::ratchet::{zeros, HeaderView};
use crate::crypto::hmac_auth::mac_input;
use crate::crypto::suite::{hmac_sha256, sealable, sha256, MLKEM_EK_LEN};
use crate::identity::profile::ContactView;
use crate::identity::revocation::RevocationView;
use crate::messenger::bundles::{answered_from, answers, BootstrapPendingView};
use crate::messenger::contacts::{contact_label, unread_counts, unread_total, verified_at};
use crate::messenger::incoming::{
    ciphertext_received, contacts_after, opener_from, owner_is_found, prekey_spent,
    received_from, revocation_reported, trial, DataOutcome, RevocationOutcome,
};
use crate::messenger::outgoing::{composed, send_error, SendError};
use crate::messenger::sessions::{
    logged, only_talk_changed, other_conversations_are_kept,
};
use crate::storage::payload::opk_position;
use crate::storage::records::StoredMessageView;
use crate::storage::vault::{conversation_position_is_first, VaultView};
use crate::text::{decimal_is_read_back, digits_value};
use vstd::prelude::*;

verus! {

/// Whether there is no session with a contact yet, or one that can be read and
/// can send.
pub open spec fn can_talk_to(v: VaultView, id: Seq<u8>) -> bool {
    ||| forall|k: int|
        0 <= k < v.payload.conversations.len() && (
        #[trigger] v.payload.conversations[k]).contact_id == id
            ==> v.payload.conversations[k].ratchet_state_ct.len() == 0
    ||| match v.session(id) {
        Some(s) => s.cks is Some && s.ns < u64::MAX,
        None => false,
    }
}

/// Sending succeeds whenever it can: to a contact in the list with an address
/// and a KEM key of the right length, with our key pairs in place and a
/// plaintext that can be encrypted, a first message goes out, and so does every
/// later one while the session can be read and can send.
pub proof fn sending_succeeds(v: VaultView, i: usize, len: nat)
    requires
        i < v.payload.contacts.len(),
        v.payload.contacts[i as int].bundle.nym_address.len() > 0,
        v.payload.contacts[i as int].bundle.mlkem_ek.len() == MLKEM_EK_LEN,
        v.payload.identity_kem_secret.len() == KEM_BYTES,
        v.payload.identity_signing_secret.len() == SIGNING_BYTES,
        sealable(len),
        can_talk_to(v, v.payload.contacts[i as int].id),
    ensures
        send_error(v, Some(i), len) is None,
{
    conversation_position_is_first(v.payload.conversations, v.payload.contacts[i as int].id);
}

/// Every refusal to send has its cause: no selection, a selection beyond the
/// list, an address that is empty, keys of ours that are missing, a session
/// that cannot be read or cannot send, a KEM key of the wrong length, or a
/// plaintext that cannot be encrypted.
pub proof fn refusals_to_send_have_their_cause(v: VaultView, contact: Option<usize>, len: nat)
    ensures
        send_error(v, contact, len) == Some(SendError::NoContact) <==> contact is None,
        send_error(v, contact, len) == Some(SendError::ContactNotFound) <==> contact is Some
            && contact->0 >= v.payload.contacts.len(),
        send_error(v, contact, len) == Some(SendError::NoAddress) <==> contact is Some && contact->0
            < v.payload.contacts.len()
            && v.payload.contacts[contact->0 as int].bundle.nym_address.len() == 0,
        send_error(v, contact, len) == Some(SendError::Keys) ==> v.payload.identity_kem_secret.len()
            != KEM_BYTES || v.payload.identity_signing_secret.len() != SIGNING_BYTES,
        send_error(v, contact, len) == Some(SendError::Session) ==> v.session(
            v.payload.contacts[contact->0 as int].id,
        ) is None,
        send_error(v, contact, len) == Some(SendError::Encryption) ==> {
            let s = v.session(v.payload.contacts[contact->0 as int].id)->0;
            s.ns == u64::MAX || s.cks is None || !sealable(len)
        },
        send_error(v, contact, len) == Some(SendError::Handshake)
            ==> v.payload.contacts[contact->0 as int].bundle.mlkem_ek.len() != MLKEM_EK_LEN
            || !sealable(len),
        send_error(v, contact, len) != Some(SendError::SessionStart),
{
}

/// Neither the name of a contact nor whether it was verified plays a part in
/// sending to it, nor do the other contacts.
pub proof fn sending_ignores_marks(v: VaultView, w: VaultView, i: usize, len: nat)
    requires
        i < v.payload.contacts.len(),
        i < w.payload.contacts.len(),
        v.master_key == w.master_key,
        v.payload.conversations == w.payload.conversations,
        v.payload.identity_kem_secret == w.payload.identity_kem_secret,
        v.payload.identity_signing_secret == w.payload.identity_signing_secret,
        v.payload.contacts[i as int].id == w.payload.contacts[i as int].id,
        v.payload.contacts[i as int].bundle == w.payload.contacts[i as int].bundle,
    ensures
        send_error(v, Some(i), len) == send_error(w, Some(i), len),
{
}

/// Sending to one contact leaves the contact list, our keys, the settings and
/// every other conversation as they were.
pub proof fn sending_touches_one_conversation(
    before: VaultView,
    after: VaultView,
    c: ContactView,
    plaintext: Seq<u8>,
    payload: Seq<u8>,
    other: Seq<u8>,
)
    requires
        composed(before, after, c, plaintext, payload),
        other != c.id,
    ensures
        after.payload.contacts == before.payload.contacts,
        after.payload.identity_kem_secret == before.payload.identity_kem_secret,
        after.payload.identity_signing_secret == before.payload.identity_signing_secret,
        after.payload.identity_ratchet_secret == before.payload.identity_ratchet_secret,
        after.payload.opk_secrets == before.payload.opk_secrets,
        after.payload.settings == before.payload.settings,
        after.payload.sequence == before.payload.sequence,
        after.session(c.id) is Some,
        after.messages(c.id) == before.messages(c.id),
        after.unread(c.id) == before.unread(c.id),
        after.session(other) == before.session(other),
        after.messages(other) == before.messages(other),
        after.unread(other) == before.unread(other),
{
    other_conversations_are_kept(before, after, c.id, other);
}

/// A message that comes in stands behind what was logged before, to the
/// letter; nothing logged before is lost or changed.
pub proof fn logging_keeps_what_was_there(
    log: Seq<StoredMessageView>,
    content: Seq<char>,
    from_us: bool,
)
    ensures
        logged(log, content, from_us).len() == log.len() + 1,
        forall|i: int|
            0 <= i < log.len() ==> #[trigger] logged(log, content, from_us)[i] == log[i],
        logged(log, content, from_us)[log.len() as int].content == content,
        logged(log, content, from_us)[log.len() as int].from_us == from_us,
        log.len() < u64::MAX ==> logged(log, content, from_us)[log.len() as int].counter
            == log.len() + 1,
{
}

/// What comes in from one contact leaves the contact list, our keys and every
/// other conversation as they were, and counts as unread unless it is on
/// screen.
pub proof fn receiving_touches_one_conversation(
    before: VaultView,
    after: VaultView,
    header: HeaderView,
    ct: Seq<u8>,
    tag: Seq<u8>,
    on_screen: Option<Seq<u8>>,
    outcome: DataOutcome,
    who: [u8; 32],
    messages: Vec<crate::storage::records::StoredMessage>,
    other: Seq<u8>,
)
    requires
        ciphertext_received(before, after, header, ct, tag, on_screen, outcome),
        outcome == DataOutcome::Received(who, messages),
        other != who@,
    ensures
        after.payload.contacts == before.payload.contacts,
        after.payload.opk_secrets == before.payload.opk_secrets,
        after.payload.sequence == before.payload.sequence,
        after.payload.settings == before.payload.settings,
        after.payload.identity_kem_secret == before.payload.identity_kem_secret,
        after.session(other) == before.session(other),
        after.messages(other) == before.messages(other),
        after.unread(other) == before.unread(other),
        after.unread(who@) == before.unread(who@) + (if on_screen == Some(who@) {
            0int
        } else {
            1
        }),
        models(messages@).len() == before.messages(who@).len() + 1,
        models(messages@).take(before.messages(who@).len() as int) == before.messages(who@),
        exists|i: int|
            0 <= i < before.payload.contacts.len() && (#[trigger] before.payload.contacts[i]).id
                == who@,
{
    lemma_opener_is_first(before, header, ct, 0);
    let i = opener_from(before, header, ct, 0)->0;
    let id = before.payload.contacts[i].id;
    assert(id == who@);
    let (plaintext, _) = trial(before, id, header, ct)->0;
    let fresh = choose|fresh: Seq<u8>|
        fresh.len() == 32 && crate::crypto::suite::drawn_32(fresh) && received_from(
            before,
            after,
            id,
            (#[trigger] crate::crypto::ratchet::decrypt_spec(
                before.session(id)->0,
                header,
                ct,
                fresh,
            )).0,
            crate::messenger::incoming::message_text(plaintext),
            on_screen == Some(id),
        );
    assert(only_talk_changed(before, after, id));
    other_conversations_are_kept(before, after, id, other);
    let log = before.messages(id);
    assert(models(messages@).take(log.len() as int) =~= log);
}

/// The session that takes a message in is the first of the list that opens it,
/// and a message is dropped only where none does.
pub proof fn first_session_that_opens_decides(v: VaultView, header: HeaderView, ct: Seq<u8>)
    ensures
        match opener_from(v, header, ct, 0) {
            Some(i) => {
                &&& 0 <= i < v.payload.contacts.len()
                &&& trial(v, v.payload.contacts[i].id, header, ct) is Some
                &&& forall|j: int|
                    0 <= j < i ==> trial(v, (#[trigger] v.payload.contacts[j]).id, header, ct)
                        is None
            },
            None => forall|j: int|
                0 <= j < v.payload.contacts.len() ==> trial(
                    v,
                    (#[trigger] v.payload.contacts[j]).id,
                    header,
                    ct,
                ) is None,
        },
{
    lemma_opener_is_first(v, header, ct, 0);
}

proof fn lemma_opener_is_first(v: VaultView, header: HeaderView, ct: Seq<u8>, from: int)
    requires
        0 <= from <= v.payload.contacts.len(),
    ensures
        match opener_from(v, header, ct, from) {
            Some(i) => {
                &&& from <= i < v.payload.contacts.len()
                &&& trial(v, v.payload.contacts[i].id, header, ct) is Some
                &&& forall|j: int|
                    from <= j < i ==> trial(v, (#[trigger] v.payload.contacts[j]).id, header, ct)
                        is None
            },
            None => forall|j: int|
                from <= j < v.payload.contacts.len() ==> trial(
                    v,
                    (#[trigger] v.payload.contacts[j]).id,
                    header,
                    ct,
                ) is None,
        },
    decreases v.payload.contacts.len() - from,
{
    if from < v.payload.contacts.len() && trial(
        v,
        v.payload.contacts[from].id,
        header,
        ct,
    ) is None {
        lemma_opener_is_first(v, header, ct, from + 1);
    }
}

/// The right tag is accepted, and no other but the zero-filled one. A message
/// with any other tag changes nothing.
pub proof fn wrong_tags_are_refused(
    before: VaultView,
    after: VaultView,
    header: HeaderView,
    ct: Seq<u8>,
    tag: Seq<u8>,
    on_screen: Option<Seq<u8>>,
    outcome: DataOutcome,
    i: int,
)
    requires
        ciphertext_received(before, after, header, ct, tag, on_screen, outcome),
        0 <= i < before.payload.contacts.len(),
        forall|j: int|
            0 <= j < i ==> trial(before, (#[trigger] before.payload.contacts[j]).id, header, ct)
                is None,
        trial(before, before.payload.contacts[i].id, header, ct) is Some,
    ensures
        ({
            let (_, mac_key) = trial(before, before.payload.contacts[i].id, header, ct)->0;
            let right = hmac_sha256(mac_key, mac_input(header.dh_pub, header.n, ct));
            &&& tag == right || tag == zeros() ==> (outcome matches DataOutcome::Received(who, _)
                && who@ == before.payload.contacts[i].id)
            &&& tag != right && tag != zeros() ==> outcome is Rejected && after == before
        }),
{
    lemma_opener_is_first(before, header, ct, 0);
}

/// A message that no session opens changes nothing.
pub proof fn foreign_messages_are_dropped(
    before: VaultView,
    after: VaultView,
    header: HeaderView,
    ct: Seq<u8>,
    tag: Seq<u8>,
    on_screen: Option<Seq<u8>>,
    outcome: DataOutcome,
)
    requires
        ciphertext_received(before, after, header, ct, tag, on_screen, outcome),
        forall|j: int|
            0 <= j < before.payload.contacts.len() ==> trial(
                before,
                (#[trigger] before.payload.contacts[j]).id,
                header,
                ct,
            ) is None,
    ensures
        outcome is Dropped,
        after == before,
{
    lemma_opener_is_first(before, header, ct, 0);
}

/// A certificate under the keys of a contact is acted on, wherever the contact
/// stands in the list. With a new bundle its entry gets that bundle, has to be
/// verified again and keeps its name and place; without one it leaves the
/// list. Every other entry stays as it was.
pub proof fn signed_revocation_is_acted_on(
    contacts: Seq<ContactView>,
    cert: RevocationView,
    outcome: RevocationOutcome,
    i: int,
)
    requires
        0 <= i < contacts.len(),
        contacts[i].bundle.x25519_pub == cert.x25519_pub,
        forall|j: int|
            0 <= j < i ==> (#[trigger] contacts[j]).bundle.x25519_pub != cert.x25519_pub,
        cert.signed_by(contacts[i].bundle),
        contacts[i].last_key_seq < u64::MAX,
        revocation_reported(contacts, cert, outcome),
    ensures
        match cert.new_bundle {
            Some(b) => {
                let after = contacts_after(contacts, cert);
                &&& after.len() == contacts.len()
                &&& after[i].bundle == b
                &&& !after[i].verified
                &&& after[i].id == contacts[i].id
                &&& after[i].display_name == contacts[i].display_name
                &&& after[i].last_key_seq == contacts[i].last_key_seq + 1
                &&& after[i].added_seq == contacts[i].added_seq
                &&& forall|j: int|
                    0 <= j < contacts.len() && j != i ==> #[trigger] after[j] == contacts[j]
                &&& outcome matches RevocationOutcome::Rotated(name, fingerprint)
                &&& name@ == contacts[i].display_name
                &&& fingerprint@ == b.fingerprint()
            },
            None => {
                let after = contacts_after(contacts, cert);
                &&& after.len() == contacts.len() - 1
                &&& forall|j: int| 0 <= j < i ==> #[trigger] after[j] == contacts[j]
                &&& forall|j: int| i <= j < after.len() ==> #[trigger] after[j] == contacts[j + 1]
                &&& outcome matches RevocationOutcome::Removed(name)
                &&& name@ == contacts[i].display_name
            },
        },
{
    owner_is_found(contacts, cert.x25519_pub);
}

/// A certificate about nobody in the list, or not under the keys of the contact
/// it is about, changes nothing.
pub proof fn unsigned_revocation_is_ignored(
    contacts: Seq<ContactView>,
    cert: RevocationView,
    outcome: RevocationOutcome,
)
    requires
        forall|i: int|
            0 <= i < contacts.len() && (#[trigger] contacts[i]).bundle.x25519_pub
                == cert.x25519_pub ==> !cert.signed_by(contacts[i].bundle),
        revocation_reported(contacts, cert, outcome),
    ensures
        contacts_after(contacts, cert) == contacts,
        outcome is Ignored,
{
    owner_is_found(contacts, cert.x25519_pub);
}

/// A new contact stands at the end of the list under its name, not verified,
/// with its bundle and the digest of its bundle as its id. Nobody else in the
/// list changes, and nothing else in the vault.
pub proof fn adding_a_contact_keeps_the_others(v: VaultView, bundle: BundleView, name: Seq<char>)
    ensures
        ({
            let w = v.with_pushed(bundle, name);
            let n = v.payload.contacts.len() as int;
            &&& w.payload.contacts.len() == n + 1
            &&& forall|i: int|
                0 <= i < n ==> #[trigger] w.payload.contacts[i] == v.payload.contacts[i]
            &&& w.payload.contacts[n].bundle == bundle
            &&& w.payload.contacts[n].display_name == name
            &&& !w.payload.contacts[n].verified
            &&& w.payload.contacts[n].id == sha256(bundle.bytes())
            &&& w.payload.contacts[n].added_seq == v.payload.sequence
            &&& w.payload.contacts[n].last_key_seq == 0
            &&& w.payload.conversations == v.payload.conversations
            &&& w.payload.settings == v.payload.settings
            &&& w.payload.sequence == v.payload.sequence
            &&& w.payload.identity_kem_secret == v.payload.identity_kem_secret
            &&& w.payload.opk_secrets == v.payload.opk_secrets
            &&& w.master_key == v.master_key
            &&& v.payload.sequence < u64::MAX ==> {
                let x = v.with_contact(bundle, name);
                &&& x.payload.contacts == w.payload.contacts
                &&& x.payload.conversations == v.payload.conversations
                &&& x.payload.sequence == v.payload.sequence + 1
            }
        }),
{
}

/// The default name of a contact tells its number, so that no two numbers have
/// the same name.
pub proof fn contact_labels_tell_numbers_apart(m: nat, n: nat)
    ensures
        contact_label(m) == contact_label(n) ==> m == n,
        "Contact "@.is_prefix_of(contact_label(n)),
        digits_value(contact_label(n).skip("Contact "@.len() as int)) == n,
{
    decimal_is_read_back(m);
    decimal_is_read_back(n);
    let p = "Contact "@;
    assert(contact_label(m).skip(p.len() as int) =~= crate::text::decimal(m));
    assert(contact_label(n).skip(p.len() as int) =~= crate::text::decimal(n));
    assert(p =~= contact_label(n).subrange(0, p.len() as int));
}

/// Verifying marks the one contact and changes nothing else about it or about
/// anybody else.
pub proof fn verifying_marks_one(contacts: Seq<ContactView>, i: int)
    requires
        0 <= i < contacts.len(),
    ensures
        verified_at(contacts, i).len() == contacts.len(),
        verified_at(contacts, i)[i].verified,
        verified_at(contacts, i)[i].bundle == contacts[i].bundle,
        verified_at(contacts, i)[i].id == contacts[i].id,
        verified_at(contacts, i)[i].display_name == contacts[i].display_name,
        forall|j: int|
            0 <= j < contacts.len() && j != i ==> #[trigger] verified_at(contacts, i)[j]
                == contacts[j],
{
}

/// The unread total adds up: over two lists it is the sum of the totals, over
/// one conversation its own count.
pub proof fn unread_counts_add_up(s: Seq<u32>, t: Seq<u32>, n: u32)
    ensures
        unread_total(s + t) == unread_total(s) + unread_total(t),
        unread_total(seq![n]) == n,
        unread_total(seq![]) == 0,
    decreases t.len(),
{
    if t.len() == 0 {
        assert(s + t =~= s);
    } else {
        unread_counts_add_up(s, t.drop_last(), n);
        assert((s + t).drop_last() =~= s + t.drop_last());
    }
    let one = seq![n];
    assert(one.drop_last() =~= seq![]);
    assert(unread_total(one.drop_last()) == 0);
    assert(unread_total(one) == unread_total(one.drop_last()) + one.last());
}

/// Every conversation's unread count goes into the total, in its place.
pub proof fn every_conversation_is_counted(v: VaultView)
    ensures
        unread_counts(v).len() == v.payload.conversations.len(),
        forall|i: int|
            0 <= i < v.payload.conversations.len() ==> #[trigger] unread_counts(v)[i]
                == v.payload.conversations[i].unread_count,
{
}

/// A prekey that was used is gone and no other is; where none was used, or none
/// has the name, all stay.
pub proof fn only_the_used_prekey_goes(v: VaultView, id: Seq<u8>)
    ensures
        prekey_spent(v, None) == v,
        prekey_spent(v, Some(id)).payload.contacts == v.payload.contacts,
        prekey_spent(v, Some(id)).payload.conversations == v.payload.conversations,
        prekey_spent(v, Some(id)).payload.sequence == v.payload.sequence,
        prekey_spent(v, Some(id)).payload.identity_kem_secret == v.payload.identity_kem_secret,
        (forall|j: int|
            0 <= j < v.payload.opk_secrets.len() ==> opk_id(#[trigger] v.payload.opk_secrets[j])
                != id) ==> prekey_spent(v, Some(id)) == v,
        forall|i: int|
            {
                &&& 0 <= i < v.payload.opk_secrets.len()
                &&& opk_id(#[trigger] v.payload.opk_secrets[i]) == id
                &&& forall|j: int|
                    0 <= j < i ==> opk_id(#[trigger] v.payload.opk_secrets[j]) != id
            } ==> prekey_spent(v, Some(id)).payload.opk_secrets == v.payload.opk_secrets.remove(i),
{
    let s = v.payload.opk_secrets;
    lemma_prekey_is_first(s, id);
    if opk_position(s, id) is None {
        assert(prekey_spent(v, Some(id)) == v);
    }
}

proof fn lemma_prekey_is_first(s: Seq<Seq<u8>>, id: Seq<u8>)
    ensures
        match opk_position(s, id) {
            Some(i) => {
                &&& 0 <= i < s.len()
                &&& opk_id(s[i]) == id
                &&& forall|j: int| 0 <= j < i ==> opk_id(#[trigger] s[j]) != id
            },
            None => forall|j: int| 0 <= j < s.len() ==> opk_id(#[trigger] s[j]) != id,
        },
    decreases s.len(),
{
    if s.len() > 0 {
        let t = s.drop_last();
        lemma_prekey_is_first(t, id);
        assert(forall|j: int| 0 <= j < t.len() ==> t[j] == #[trigger] s[j]);
        assert(s.last() == s[s.len() - 1]);
    }
}

/// The waiting request that an answer belongs to is found wherever it stands:
/// the first that it answers is, and none only where it answers none.
pub proof fn answered_request_is_found(requests: Seq<BootstrapPendingView>, bundle: BundleView)
    ensures
        match answered_from(requests, bundle, 0) {
            Some(i) => {
                &&& 0 <= i < requests.len()
                &&& requests[i].ed25519_vk == bundle.ed25519_vk
                &&& requests[i].fingerprint == sha256(bundle.fingerprint_input())
                &&& forall|j: int|
                    0 <= j < i ==> (#[trigger] requests[j]).ed25519_vk != bundle.ed25519_vk
                        || requests[j].fingerprint != sha256(bundle.fingerprint_input())
            },
            None => forall|j: int|
                0 <= j < requests.len() ==> (#[trigger] requests[j]).ed25519_vk
                    != bundle.ed25519_vk || requests[j].fingerprint != sha256(
                    bundle.fingerprint_input(),
                ),
        },
{
    lemma_answered_is_first(requests, bundle, 0);
}

proof fn lemma_answered_is_first(
    requests: Seq<BootstrapPendingView>,
    bundle: BundleView,
    from: int,
)
    requires
        0 <= from <= requests.len(),
    ensures
        match answered_from(requests, bundle, from) {
            Some(i) => {
                &&& from <= i < requests.len()
                &&& answers(bundle, requests[i])
                &&& forall|j: int| from <= j < i ==> !answers(bundle, #[trigger] requests[j])
            },
            None => forall|j: int|
                from <= j < requests.len() ==> !answers(bundle, #[trigger] requests[j]),
        },
    decreases requests.len() - from,
{
    if from < requests.len() && !answers(bundle, requests[from]) {
        lemma_answered_is_first(requests, bundle, from + 1);
    }
}

} // verus!
