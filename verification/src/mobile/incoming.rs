//! What a message that came in does on a phone.
use crate::codec::{models, Record};
use crate::crypto::hmac_auth::MessageMac;
use crate::crypto::ratchet::{decrypt_spec, result_is, HeaderView, MessageHeader};
use crate::crypto::suite::drawn_32;
use crate::identity::profile::{ContactView, StoredContact};
use crate::identity::revocation::{RevocationCertificate, RevocationReason, RevocationView};
use crate::messenger::incoming::{
    accept_tag, countable, handshake_opened, load_session, open_handshake,
    plaintext_needs_no_fresh_secret, prekey_spent, received_from, spend_prekey, tag_accepted,
    take_in, trial,
};
use crate::messenger::sessions::{lemma_same_sequence, logged};
use crate::mobile::state::{
    plain_message, text_of_plain, MobileState, MobileView, Screen,
};
use crate::network::message::{
    decoded, sized_part, take_length, WireMessage, WireMessageType, WireView,
};
use crate::storage::vault::{VaultUnlocked, VaultView};
use crate::text;
use crate::text::decimal;
use crate::ui::state::{opened_views, Effects, MAX_PENDING_HANDSHAKES};
use vstd::prelude::*;

verus! {

/// What a handshake makes of the interface: it waits for the user, unless as
/// many as may wait already do.
pub open spec fn mobile_handshake(a: MobileView, v: VaultView, b: Seq<u8>) -> MobileView {
    if a.pending.len() >= MAX_PENDING_HANDSHAKES {
        a
    } else {
        match handshake_opened(v.payload, b) {
            None => a,
            Some(h) => MobileView {
                pending: a.pending.push(h),
                status: decimal(a.pending.len() + 1) + " pending contact request(s)"@,
                ..a
            },
        }
    }
}

/// What a handshake makes of the vault: a one-time prekey of ours that it used
/// is spent.
pub open spec fn mobile_prekey(
    a: MobileView,
    v: VaultView,
    b: Seq<u8>,
    after: VaultView,
    e: Effects,
) -> bool {
    match handshake_opened(v.payload, b) {
        Some(h) if a.pending.len() < MAX_PENDING_HANDSHAKES && h.used_opk is Some => {
            after == prekey_spent(v, h.used_opk).next() && e.saves_only(after)
        },
        _ => after == v && e.none_spec(),
    }
}

/// A handshake that came in.
pub fn handle_inbound_handshake(
    app: &mut MobileState,
    vault: &mut VaultUnlocked,
    hs_bytes: &[u8],
) -> (r: Effects)
    requires
        old(app)@.wf(),
        old(vault)@.has_room(),
    ensures
        final(app)@.wf(),
        final(app)@ == mobile_handshake(old(app)@, old(vault)@, hs_bytes@),
        mobile_prekey(old(app)@, old(vault)@, hs_bytes@, final(vault)@, r),
{
    if app.pending_handshakes.len() >= MAX_PENDING_HANDSHAKES {
        return Effects::none();
    }
    let h = match open_handshake(vault, hs_bytes) {
        Some(h) => h,
        None => {
            return Effects::none();
        },
    };
    spend_prekey(vault, &h);
    let used = h.used_opk.is_some();
    let ghost all = app.pending_handshakes@;
    let ghost view = h@;
    app.pending_handshakes.push(h);
    assert(app@.pending =~= opened_views(all).push(view));
    app.status = text::joined(
        text::decimal_text(app.pending_handshakes.len() as u64).as_str(),
        " pending contact request(s)",
    );
    if used {
        Effects::save_of(vault)
    } else {
        Effects::none()
    }
}

/// Whether the session with a contact opens a message and its tag is accepted.
pub open spec fn authentic(
    v: VaultView,
    contact_id: Seq<u8>,
    header: HeaderView,
    ct: Seq<u8>,
    tag: Seq<u8>,
) -> bool {
    trial(v, contact_id, header, ct) matches Some((_, mac_key)) && tag_accepted(
        tag,
        mac_key,
        header,
        ct,
    )
}

/// The first contact from `from` on that a message is from.
pub open spec fn author_from(
    v: VaultView,
    header: HeaderView,
    ct: Seq<u8>,
    tag: Seq<u8>,
    from: int,
) -> Option<int>
    decreases v.payload.contacts.len() - from,
{
    if from < 0 || from >= v.payload.contacts.len() {
        None
    } else if authentic(v, v.payload.contacts[from].id, header, ct, tag) {
        Some(from)
    } else {
        author_from(v, header, ct, tag, from + 1)
    }
}

/// What the ciphertext of a data message makes of the interface and the vault:
/// it is logged and
/// counts as unread.
pub open spec fn mobile_ciphertext(
    a: MobileView,
    v: VaultView,
    header: HeaderView,
    ct: Seq<u8>,
    tag: Seq<u8>,
    after_app: MobileView,
    after: VaultView,
    e: Effects,
) -> bool {
    match author_from(v, header, ct, tag, 0) {
        None => after_app == a && after == v && e.none_spec(),
        Some(i) => {
            let id = v.payload.contacts[i].id;
            let plaintext = (trial(v, id, header, ct)->0).0;
            let talk = after.at(v.payload.sequence);
            &&& exists|fresh: Seq<u8>|
                fresh.len() == 32 && drawn_32(fresh) && received_from(
                    v,
                    talk,
                    id,
                    (#[trigger] decrypt_spec(v.session(id)->0, header, ct, fresh)).0,
                    plain_message(plaintext),
                    false,
                )
            &&& after == talk.next()
            &&& after_app == (if a.loaded_contact matches Some(k) && k == i {
                MobileView {
                    messages: logged(v.messages(id), plain_message(plaintext), false),
                    ..a
                }
            } else {
                a
            })
            &&& e.saves_only(after)
        },
    }
}

/// What a data message makes of the interface and the vault. Its ciphertext
/// stands behind its length and in front of the padding.
pub open spec fn mobile_data(
    a: MobileView,
    v: VaultView,
    w: WireView,
    after_app: MobileView,
    after: VaultView,
    e: Effects,
) -> bool {
    match sized_part(w.ciphertext) {
        None => after_app == a && after == v && e.none_spec(),
        Some(ct) => mobile_ciphertext(a, v, w.header, ct, w.mac, after_app, after, e),
    }
}

/// A data message that came in: the first contact whose session opens it and
/// whose tag is accepted wrote it.
pub fn handle_inbound_data(
    app: &mut MobileState,
    vault: &mut VaultUnlocked,
    header: &MessageHeader,
    padded: &[u8],
    mac: &MessageMac,
) -> (r: Effects)
    requires
        old(vault)@.has_room(),
    ensures
        final(app)@.pending == old(app)@.pending,
        mobile_data(
            old(app)@,
            old(vault)@,
            WireView {
                msg_type: WireMessageType::Data,
                header: header@,
                ciphertext: padded@,
                mac: mac.tag@,
            },
            final(app)@,
            final(vault)@,
            r,
        ),
{
    match take_length(padded) {
        Some(ciphertext) => take_ciphertext(app, vault, header, &ciphertext, mac),
        None => Effects::none(),
    }
}

/// Tries a ciphertext against the session of every contact.
fn take_ciphertext(
    app: &mut MobileState,
    vault: &mut VaultUnlocked,
    header: &MessageHeader,
    ciphertext: &[u8],
    mac: &MessageMac,
) -> (r: Effects)
    requires
        old(vault)@.has_room(),
    ensures
        final(app)@.pending == old(app)@.pending,
        mobile_ciphertext(
            old(app)@,
            old(vault)@,
            header@,
            ciphertext@,
            mac.tag@,
            final(app)@,
            final(vault)@,
            r,
        ),
{
    let ghost before = vault@;
    let mut i: usize = 0;
    while i < vault.payload.contacts.len()
        invariant
            i <= vault.payload.contacts@.len(),
            before == old(vault)@,
            vault@ == before,
            app@ == old(app)@,
            before.has_room(),
            author_from(before, header@, ciphertext@, mac.tag@, 0) == author_from(
                before,
                header@,
                ciphertext@,
                mac.tag@,
                i as int,
            ),
        decreases vault.payload.contacts@.len() - i,
    {
        let contact_id = vault.payload.contacts[i].id;
        assert(before.payload.contacts[i as int] == vault.payload.contacts@[i as int]@);
        if let Some(state) = load_session(vault, &contact_id) {
            let mut ratchet = state;
            let ghost s = ratchet@;
            assert(countable(s));
            let opened = ratchet.ratchet_decrypt(header, ciphertext);
            let ghost fresh = choose|fresh: Seq<u8>|
                {
                    &&& fresh.len() == 32
                    &&& drawn_32(fresh)
                    &&& ratchet@ == (#[trigger] decrypt_spec(s, header@, ciphertext@, fresh)).0
                    &&& result_is(opened, decrypt_spec(s, header@, ciphertext@, fresh).1)
                };
            proof {
                plaintext_needs_no_fresh_secret(s, header@, ciphertext@, fresh, seq![]);
            }
            if let Ok((plaintext, mac_key)) = opened {
                if accept_tag(mac, mac_key, header, ciphertext) {
                    let content = text_of_plain(&plaintext);
                    let messages = take_in(vault, &contact_id, &ratchet, content, false);
                    let ghost talk = vault@;
                    let shown = match app.loaded_contact {
                        Some(k) => k == i,
                        None => false,
                    };
                    if shown {
                        app.messages = messages;
                    }
                    proof {
                        lemma_same_sequence(before, talk, contact_id@);
                    }
                    let effects = Effects::save_of(vault);
                    assert(vault@.at(before.payload.sequence) =~= talk);
                    return effects;
                }
            }
        }
        i = i + 1;
    }
    Effects::none()
}

/// The first contact from `from` on that signed a revocation.
pub open spec fn signer_from(contacts: Seq<ContactView>, cert: RevocationView, from: int) -> Option<int>
    decreases contacts.len() - from,
{
    if from < 0 || from >= contacts.len() {
        None
    } else if cert.signed_by(contacts[from].bundle) {
        Some(from)
    } else {
        signer_from(contacts, cert, from + 1)
    }
}

/// The contact that signed a revocation.
fn find_signer(contacts: &Vec<StoredContact>, cert: &RevocationCertificate) -> (r: Option<usize>)
    ensures
        match r {
            Some(i) => signer_from(models(contacts@), cert@, 0) == Some(i as int) && i
                < contacts@.len(),
            None => signer_from(models(contacts@), cert@, 0) is None,
        },
{
    let ghost all = models(contacts@);
    let mut i: usize = 0;
    while i < contacts.len()
        invariant
            i <= contacts@.len(),
            all == models(contacts@),
            signer_from(all, cert@, 0) == signer_from(all, cert@, i as int),
        decreases contacts@.len() - i,
    {
        assert(all[i as int] == contacts@[i as int]@);
        if cert.verify(&contacts[i].bundle).is_ok() {
            return Some(i);
        }
        i = i + 1;
    }
    None
}

/// The contacts with one that has to be verified again.
pub open spec fn unverified_at(contacts: Seq<ContactView>, i: int) -> Seq<ContactView> {
    contacts.update(i, ContactView { verified: false, ..contacts[i] })
}

/// What a revocation makes of the interface and the vault: after a rotation
/// the contact has to be verified again.
pub open spec fn mobile_revocation(
    a: MobileView,
    v: VaultView,
    b: Seq<u8>,
    after_app: MobileView,
    after: VaultView,
    e: Effects,
) -> bool {
    let contacts = v.payload.contacts;
    match RevocationCertificate::take_spec(b) {
        None => after_app == a && after == v && e.none_spec(),
        Some((cert, _)) => match signer_from(contacts, cert, 0) {
            None => after_app == a && after == v && e.none_spec(),
            Some(i) => {
                let name = contacts[i].display_name;
                &&& e.saves_only(after)
                &&& if cert.reason == RevocationReason::Rotation {
                    &&& after_app == (MobileView {
                        status: "Key rotated for '"@ + name + "' — re-verify fingerprint."@,
                        screen: Screen::KeyAlert,
                        ..a
                    })
                    &&& after == v.with_contacts(unverified_at(contacts, i)).next()
                } else {
                    &&& after_app == (MobileView {
                        status: "'"@ + name + "' has retired their key."@,
                        ..a
                    })
                    &&& after == v.next()
                }
            },
        },
    }
}

/// A revocation that came in.
pub fn handle_inbound_revocation(
    app: &mut MobileState,
    vault: &mut VaultUnlocked,
    cert_bytes: &[u8],
) -> (r: Effects)
    requires
        old(vault)@.has_room(),
    ensures
        final(app)@.pending == old(app)@.pending,
        mobile_revocation(old(app)@, old(vault)@, cert_bytes@, final(app)@, final(vault)@, r),
{
    let cert = match RevocationCertificate::from_bytes(cert_bytes) {
        Some(c) => c,
        None => {
            return Effects::none();
        },
    };
    let i = match find_signer(&vault.payload.contacts, &cert) {
        Some(i) => i,
        None => {
            return Effects::none();
        },
    };
    let ghost all = vault@.payload.contacts;
    assert(all[i as int] == vault.payload.contacts@[i as int]@);
    let name = vault.payload.contacts[i].display_name.clone();
    match cert.reason {
        RevocationReason::Rotation => {
            vault.payload.contacts[i].verified = false;
            assert(vault@.payload.contacts =~= unverified_at(all, i as int));
            app.status = text::joined3(
                "Key rotated for '",
                name.as_str(),
                "' — re-verify fingerprint.",
            );
            app.screen = Screen::KeyAlert;
        },
        RevocationReason::Retirement | RevocationReason::Compromised => {
            app.status = text::joined3("'", name.as_str(), "' has retired their key.");
        },
    }
    Effects::save_of(vault)
}

/// What a message that came in makes of the interface and the vault.
pub open spec fn mobile_incoming(
    a: MobileView,
    v: VaultView,
    w: Option<WireView>,
    after_app: MobileView,
    after: VaultView,
    e: Effects,
) -> bool {
    match w {
        None => after_app == a && after == v && e.none_spec(),
        Some(w) => match w.msg_type {
            WireMessageType::Handshake => {
                &&& after_app == mobile_handshake(a, v, w.ciphertext)
                &&& mobile_prekey(a, v, w.ciphertext, after, e)
            },
            WireMessageType::Data => mobile_data(a, v, w, after_app, after, e),
            WireMessageType::Revocation => mobile_revocation(
                a,
                v,
                w.ciphertext,
                after_app,
                after,
                e,
            ),
            _ => after_app == a && after == v && e.none_spec(),
        },
    }
}

/// Dispatches bytes that came in from the transport.
pub fn handle_incoming_message(app: &mut MobileState, vault: &mut VaultUnlocked, payload: &[u8]) -> (r:
    Effects)
    requires
        old(app)@.wf(),
        old(vault)@.has_room(),
    ensures
        final(app)@.wf(),
        mobile_incoming(
            old(app)@,
            old(vault)@,
            decoded(payload@),
            final(app)@,
            final(vault)@,
            r,
        ),
{
    let wire = match WireMessage::from_bytes(payload) {
        Some(w) => w,
        None => {
            return Effects::none();
        },
    };
    match wire.msg_type {
        WireMessageType::Handshake => handle_inbound_handshake(app, vault, &wire.ciphertext),
        WireMessageType::Data => handle_inbound_data(
            app,
            vault,
            &wire.header,
            &wire.ciphertext,
            &wire.mac,
        ),
        WireMessageType::Revocation => handle_inbound_revocation(app, vault, &wire.ciphertext),
        _ => Effects::none(),
    }
}

} // verus!
