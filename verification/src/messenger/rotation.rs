//! Rotating and revoking our identity keys.
use crate::bytes;
use crate::codec::{models, Record};
use crate::crypto::keys::{BundleView, HybridKemKeypair, HybridSigningKeypair, PublicKeyBundle};
use crate::identity::profile::{ContactView, StoredContact};
use crate::identity::revocation::{RevocationCertificate, RevocationReason, RevocationView};
use crate::messenger::identity::{own_ratchet_pub, rekeyed, Identity};
use crate::crypto::suite::x25519_base;
use crate::messenger::incoming::{contacts_after, owner_is_found, rotated};
use crate::messenger::outgoing::{bare_message, bare_wire, lemma_bare_wire_fits, Outgoing};
use crate::network::message::{
    decoded, wire_round_trip, WireMessageType, WireView, MAX_WIRE_BYTES,
};
use crate::storage::payload::PayloadView;
use crate::storage::vault::{VaultUnlocked, VaultView};
use vstd::prelude::*;

verus! {

/// Why our keys cannot be rotated or revoked.
#[derive(Debug, Clone, Copy, PartialEq, Eq, Structural)]
pub enum KeyError {
    /// The signing key pair in the vault is malformed.
    Signing,
    /// The KEM key pair in the vault is malformed.
    Kem,
}

/// Why our keys cannot be loaded, if they cannot.
pub open spec fn key_error(p: PayloadView) -> Option<KeyError> {
    if !p.has_signing() {
        Some(KeyError::Signing)
    } else if !p.has_kem() {
        Some(KeyError::Kem)
    } else {
        None
    }
}

/// What an [`Outgoing`] means.
#[verifier::ext_equal]
pub struct OutgoingView {
    pub to: Seq<char>,
    pub payload: Seq<u8>,
}

impl View for Outgoing {
    type V = OutgoingView;

    open spec fn view(&self) -> OutgoingView {
        OutgoingView { to: self.to@, payload: self.payload@ }
    }
}

/// The views of what goes out.
pub open spec fn outgoing_views(s: Seq<Outgoing>) -> Seq<OutgoingView> {
    Seq::new(s.len(), |i: int| s[i]@)
}

/// The same payload for every contact with an address, in the order of the
/// list.
pub open spec fn broadcast(contacts: Seq<ContactView>, payload: Seq<u8>) -> Seq<OutgoingView>
    decreases contacts.len(),
{
    if contacts.len() == 0 {
        seq![]
    } else {
        let front = broadcast(contacts.drop_last(), payload);
        let address = contacts.last().bundle.nym_address;
        if address.len() == 0 {
            front
        } else {
            front.push(OutgoingView { to: address, payload })
        }
    }
}

/// Addresses a payload to every contact with an address.
pub fn broadcast_to(contacts: &Vec<StoredContact>, payload: &Vec<u8>) -> (r: Vec<Outgoing>)
    ensures
        outgoing_views(r@) == broadcast(models(contacts@), payload@),
        r@.len() == models(contacts@).filter(
            |c: ContactView| c.bundle.nym_address.len() > 0,
        ).len(),
        forall|i: int|
            0 <= i < contacts@.len() && (#[trigger] contacts@[i]).bundle.nym_address@.len() > 0
                ==> outgoing_views(r@).contains(
                OutgoingView { to: contacts@[i].bundle.nym_address@, payload: payload@ },
            ),
        forall|j: int|
            0 <= j < r@.len() ==> (#[trigger] r@[j]).payload@ == payload@ && r@[j].to@.len() > 0
                && exists|i: int|
                0 <= i < contacts@.len() && r@[j].to@ == (
                #[trigger] contacts@[i]).bundle.nym_address@,
{
    let ghost all = models(contacts@);
    let mut out: Vec<Outgoing> = Vec::new();
    let mut i: usize = 0;
    assert(outgoing_views(out@) =~= broadcast(all.take(0), payload@));
    while i < contacts.len()
        invariant
            i <= contacts@.len(),
            all == models(contacts@),
            outgoing_views(out@) == broadcast(all.take(i as int), payload@),
        decreases contacts@.len() - i,
    {
        let ghost before = out@;
        assert(all.take(i + 1).drop_last() =~= all.take(i as int));
        assert(all.take(i + 1).last() == contacts@[i as int]@);
        if !contacts[i].bundle.nym_address.as_str().is_empty() {
            let item = Outgoing {
                to: contacts[i].bundle.nym_address.clone(),
                payload: bytes::copied(payload),
            };
            let ghost view = item@;
            out.push(item);
            assert(outgoing_views(out@) =~= outgoing_views(before).push(view));
        }
        i = i + 1;
    }
    assert(all.take(i as int) =~= all);
    proof {
        everyone_is_told(all, payload@);
        assert forall|k: int|
            0 <= k < contacts@.len() && (
            #[trigger] contacts@[k]).bundle.nym_address@.len() > 0 implies outgoing_views(
            out@,
        ).contains(
            OutgoingView { to: contacts@[k].bundle.nym_address@, payload: payload@ },
        ) by {
            assert(all[k] == contacts@[k]@);
        }
        assert forall|j: int| 0 <= j < out@.len() implies (#[trigger] out@[j]).payload@ == payload@
            && out@[j].to@.len() > 0 && exists|i: int|
            0 <= i < contacts@.len() && out@[j].to@ == (
            #[trigger] contacts@[i]).bundle.nym_address@ by {
            assert(outgoing_views(out@)[j] == out@[j]@);
            let i = choose|i: int|
                0 <= i < all.len() && broadcast(all, payload@)[j].to == (
                #[trigger] all[i]).bundle.nym_address;
            assert(all[i] == contacts@[i]@);
            assert(out@[j].to@ == contacts@[i].bundle.nym_address@);
        }
    }
    out
}

/// Every contact with an address is told, and nobody else: each gets the
/// payload at its address, every message goes to such a contact, and there are
/// as many messages as contacts with an address.
pub proof fn everyone_is_told(contacts: Seq<ContactView>, payload: Seq<u8>)
    ensures
        forall|i: int|
            0 <= i < contacts.len() && (#[trigger] contacts[i]).bundle.nym_address.len() > 0
                ==> broadcast(contacts, payload).contains(
                OutgoingView { to: contacts[i].bundle.nym_address, payload },
            ),
        forall|j: int|
            0 <= j < broadcast(contacts, payload).len() ==> {
                let item = #[trigger] broadcast(contacts, payload)[j];
                &&& item.payload == payload
                &&& item.to.len() > 0
                &&& exists|i: int|
                    0 <= i < contacts.len() && item.to == (
                    #[trigger] contacts[i]).bundle.nym_address
            },
        broadcast(contacts, payload).len() == contacts.filter(
            |c: ContactView| c.bundle.nym_address.len() > 0,
        ).len(),
    decreases contacts.len(),
{
    reveal(Seq::filter);
    if contacts.len() > 0 {
        let front = contacts.drop_last();
        let told = broadcast(front, payload);
        everyone_is_told(front, payload);
        let all = broadcast(contacts, payload);
        assert forall|i: int|
            0 <= i < contacts.len() && (
            #[trigger] contacts[i]).bundle.nym_address.len() > 0 implies all.contains(
            OutgoingView { to: contacts[i].bundle.nym_address, payload },
        ) by {
            if i < front.len() {
                assert(front[i] == contacts[i]);
                let item = OutgoingView { to: contacts[i].bundle.nym_address, payload };
                assert(told.contains(item));
                let j = choose|j: int| 0 <= j < told.len() && told[j] == item;
                assert(all[j] == item);
            } else {
                assert(all[all.len() - 1] == (OutgoingView {
                    to: contacts[i].bundle.nym_address,
                    payload,
                }));
            }
        }
        assert forall|j: int| 0 <= j < all.len() implies {
            let item = #[trigger] all[j];
            &&& item.payload == payload
            &&& item.to.len() > 0
            &&& exists|i: int|
                0 <= i < contacts.len() && item.to == (#[trigger] contacts[i]).bundle.nym_address
        } by {
            if j < told.len() {
                assert(all[j] == told[j]);
                let i = choose|i: int|
                    0 <= i < front.len() && told[j].to == (#[trigger] front[i]).bundle.nym_address;
                assert(contacts[i] == front[i]);
            } else {
                assert(contacts[contacts.len() - 1] == contacts.last());
            }
        }
    }
}

/// The certificate that revokes our keys for a reason.
pub open spec fn revokes(
    cert: RevocationView,
    ours: PayloadView,
    reason: RevocationReason,
    new_bundle: Option<BundleView>,
) -> bool {
    let old_bundle = ours.bundle_at(seq![]);
    &&& RevocationCertificate::fits(cert)
    &&& cert == (RevocationView {
        version: 1,
        fingerprint: old_bundle.fingerprint(),
        x25519_pub: old_bundle.x25519_pub,
        reason,
        sequence: ours.sequence,
        new_bundle,
        ed25519: cert.ed25519,
        mldsa: cert.mldsa,
    })
    &&& forall|b: BundleView|
        b.ed25519_vk == old_bundle.ed25519_vk && b.mldsa_vk == old_bundle.mldsa_vk
            ==> #[trigger] cert.signed_by(b)
}

/// The wire message that carries a certificate.
pub open spec fn announcement(cert: RevocationView) -> WireView {
    bare_wire(WireMessageType::Revocation, RevocationCertificate::put_spec(cert))
}

/// Whether `out` announces, to every contact, that our keys are revoked.
pub open spec fn announces(
    out: Seq<OutgoingView>,
    before: VaultView,
    reason: RevocationReason,
    new_bundle: Option<BundleView>,
) -> bool {
    exists|cert: RevocationView|
        {
            &&& #[trigger] revokes(cert, before.payload, reason, new_bundle)
            &&& out == broadcast(before.payload.contacts, announcement(cert).bytes())
        }
}

/// Signs a revocation with the keys in the vault and addresses it to every
/// contact. It takes a step in the sequence.
fn announce(
    vault: &mut VaultUnlocked,
    reason: RevocationReason,
    new_bundle: Option<PublicKeyBundle>,
) -> (r: Result<Vec<Outgoing>, KeyError>)
    requires
        old(vault)@.payload.sequence < u64::MAX,
    ensures
        match r {
            Ok(out) => {
                &&& key_error(old(vault)@.payload) is None
                &&& announces(outgoing_views(out@), old(vault)@, reason, new_bundle.model())
                &&& final(vault)@ == old(vault)@.next()
            },
            Err(e) => key_error(old(vault)@.payload) == Some(e) && final(vault)@ == old(vault)@,
        },
{
    let signing = match HybridSigningKeypair::from_bytes(&vault.payload.identity_signing_secret) {
        Ok(k) => k,
        Err(_) => {
            return Err(KeyError::Signing);
        },
    };
    let kem = match HybridKemKeypair::from_bytes(&vault.payload.identity_kem_secret) {
        Ok(k) => k,
        Err(_) => {
            return Err(KeyError::Kem);
        },
    };
    let ratchet_pub = own_ratchet_pub(vault, &kem);
    let old_bundle = PublicKeyBundle::from_keypairs(&kem, &signing, ratchet_pub, String::new());
    assert(old_bundle@ =~= vault@.payload.bundle_at(seq![]));
    let sequence: u64 = vault.payload.sequence;
    vault.payload.sequence = sequence + 1;
    let cert = RevocationCertificate::create(
        &signing,
        old_bundle.fingerprint(),
        kem.x25519_public,
        reason,
        sequence,
        new_bundle,
    );
    let payload = bare_message(WireMessageType::Revocation, cert.to_bytes());
    let out = broadcast_to(&vault.payload.contacts, &payload);
    assert(revokes(cert@, old(vault)@.payload, reason, new_bundle.model()));
    Ok(out)
}

/// Announces the keys of a new identity to every contact under the old ones,
/// and puts them into the vault.
pub fn rotate_to(vault: &mut VaultUnlocked, identity: &Identity) -> (r: Result<
    Vec<Outgoing>,
    KeyError,
>)
    requires
        identity.wf(),
        old(vault)@.payload.sequence < u64::MAX,
    ensures
        match r {
            Ok(out) => {
                &&& key_error(old(vault)@.payload) is None
                &&& final(vault)@ == (VaultView {
                    payload: identity.installed(old(vault)@.next().payload),
                    ..old(vault)@
                })
                &&& identity.drawn() ==> rekeyed(
                    old(vault)@.next().payload,
                    final(vault)@.payload,
                )
                &&& final(vault)@.payload.our_bundle() == Some(
                    identity.bundle_spec(old(vault)@.payload.nym_address),
                )
                &&& announces(
                    outgoing_views(out@),
                    old(vault)@,
                    RevocationReason::Rotation,
                    final(vault)@.payload.our_bundle(),
                )
            },
            Err(e) => key_error(old(vault)@.payload) == Some(e) && final(vault)@ == old(vault)@,
        },
{
    let new_bundle = identity.bundle(vault.payload.nym_address.clone());
    let out = match announce(vault, RevocationReason::Rotation, Some(new_bundle)) {
        Ok(out) => out,
        Err(e) => {
            return Err(e);
        },
    };
    identity.install(vault);
    Ok(out)
}

/// Generates new identity keys, announces them to every contact under the old
/// ones, and puts them into the vault.
pub fn rotate_identity(vault: &mut VaultUnlocked) -> (r: Result<Vec<Outgoing>, KeyError>)
    requires
        old(vault)@.payload.sequence < u64::MAX,
    ensures
        match r {
            Ok(out) => {
                &&& key_error(old(vault)@.payload) is None
                &&& rekeyed(old(vault)@.next().payload, final(vault)@.payload)
                &&& final(vault)@ == (VaultView { payload: final(vault)@.payload, ..old(vault)@ })
                &&& announces(
                    outgoing_views(out@),
                    old(vault)@,
                    RevocationReason::Rotation,
                    final(vault)@.payload.our_bundle(),
                )
            },
            Err(e) => key_error(old(vault)@.payload) == Some(e) && final(vault)@ == old(vault)@,
        },
{
    rotate_to(vault, &Identity::generate())
}

/// Announces to every contact that our key is retired. The keys in the vault
/// stay.
pub fn retire_identity(vault: &mut VaultUnlocked) -> (r: Result<Vec<Outgoing>, KeyError>)
    requires
        old(vault)@.payload.sequence < u64::MAX,
    ensures
        match r {
            Ok(out) => {
                &&& key_error(old(vault)@.payload) is None
                &&& final(vault)@ == old(vault)@.next()
                &&& announces(
                    outgoing_views(out@),
                    old(vault)@,
                    RevocationReason::Retirement,
                    None,
                )
            },
            Err(e) => key_error(old(vault)@.payload) == Some(e) && final(vault)@ == old(vault)@,
        },
{
    announce(vault, RevocationReason::Retirement, None)
}

/// An announcement within the size that is read at all is read as it was
/// written.
proof fn lemma_announcement_is_read(cert: RevocationView)
    requires
        RevocationCertificate::fits(cert),
        announcement(cert).bytes().len() <= MAX_WIRE_BYTES,
    ensures
        decoded(announcement(cert).bytes()) == Some(announcement(cert)),
        RevocationCertificate::take_spec(announcement(cert).ciphertext) == Some(
            (cert, Seq::<u8>::empty()),
        ),
{
    let b = RevocationCertificate::put_spec(cert);
    lemma_bare_wire_fits(WireMessageType::Revocation, b);
    wire_round_trip(announcement(cert));
    RevocationCertificate::round_trip(cert, seq![]);
    assert(b + seq![] =~= b);
}

/// Whoever knows our old keys accepts our rotation: our entry in their list
/// gets the new bundle and has to be verified again. The announcement must be
/// within the size that is read at all. The record of a certificate with a
/// bundle of full size is larger than that, so the law then ends at the wire.
pub proof fn rotation_is_accepted(
    cert: RevocationView,
    ours: PayloadView,
    new_bundle: BundleView,
    theirs: Seq<ContactView>,
    i: int,
)
    requires
        revokes(cert, ours, RevocationReason::Rotation, Some(new_bundle)),
        announcement(cert).bytes().len() <= MAX_WIRE_BYTES,
        0 <= i < theirs.len(),
        theirs[i].bundle.x25519_pub == x25519_base(ours.x25519_secret()),
        forall|j: int|
            0 <= j < i ==> (#[trigger] theirs[j]).bundle.x25519_pub != x25519_base(
                ours.x25519_secret(),
            ),
        theirs[i].bundle.ed25519_vk == ours.bundle_at(seq![]).ed25519_vk,
        theirs[i].bundle.mldsa_vk == ours.bundle_at(seq![]).mldsa_vk,
    ensures
        decoded(announcement(cert).bytes()) == Some(announcement(cert)),
        announcement(cert).msg_type == WireMessageType::Revocation,
        RevocationCertificate::take_spec(announcement(cert).ciphertext) matches Some((c, _))
            && contacts_after(theirs, c) == theirs.update(i, rotated(theirs[i], new_bundle)),
        !rotated(theirs[i], new_bundle).verified,
{
    lemma_announcement_is_read(cert);
    certificate_is_accepted(cert, ours, theirs, i);
}

/// Whoever knows our keys accepts our retirement: our entry leaves their list.
/// The announcement must be within the size that is read at all.
pub proof fn retirement_is_accepted(
    cert: RevocationView,
    ours: PayloadView,
    theirs: Seq<ContactView>,
    i: int,
)
    requires
        revokes(cert, ours, RevocationReason::Retirement, None),
        announcement(cert).bytes().len() <= MAX_WIRE_BYTES,
        0 <= i < theirs.len(),
        theirs[i].bundle.x25519_pub == x25519_base(ours.x25519_secret()),
        forall|j: int|
            0 <= j < i ==> (#[trigger] theirs[j]).bundle.x25519_pub != x25519_base(
                ours.x25519_secret(),
            ),
        theirs[i].bundle.ed25519_vk == ours.bundle_at(seq![]).ed25519_vk,
        theirs[i].bundle.mldsa_vk == ours.bundle_at(seq![]).mldsa_vk,
    ensures
        decoded(announcement(cert).bytes()) == Some(announcement(cert)),
        announcement(cert).msg_type == WireMessageType::Revocation,
        RevocationCertificate::take_spec(announcement(cert).ciphertext) matches Some((c, _))
            && contacts_after(theirs, c) == theirs.remove(i),
{
    lemma_announcement_is_read(cert);
    certificate_is_accepted(cert, ours, theirs, i);
}

/// Whoever knows our old keys accepts a certificate under them, of whatever
/// size: a new bundle takes the place of the old one and has to be verified
/// again, and without one our entry leaves their list.
pub proof fn certificate_is_accepted(
    cert: RevocationView,
    ours: PayloadView,
    theirs: Seq<ContactView>,
    i: int,
)
    requires
        revokes(cert, ours, cert.reason, cert.new_bundle),
        0 <= i < theirs.len(),
        theirs[i].bundle.x25519_pub == x25519_base(ours.x25519_secret()),
        forall|j: int|
            0 <= j < i ==> (#[trigger] theirs[j]).bundle.x25519_pub != x25519_base(
                ours.x25519_secret(),
            ),
        theirs[i].bundle.ed25519_vk == ours.bundle_at(seq![]).ed25519_vk,
        theirs[i].bundle.mldsa_vk == ours.bundle_at(seq![]).mldsa_vk,
    ensures
        contacts_after(theirs, cert) == match cert.new_bundle {
            Some(b) => theirs.update(i, rotated(theirs[i], b)),
            None => theirs.remove(i),
        },
{
    assert(cert.signed_by(theirs[i].bundle));
    owner_is_found(theirs, cert.x25519_pub);
}

/// Word of new or retired keys reaches every contact with an address: one and
/// the same certificate under the old keys goes to each of them.
pub proof fn announcement_reaches_everyone(
    out: Seq<OutgoingView>,
    before: VaultView,
    reason: RevocationReason,
    new_bundle: Option<BundleView>,
)
    requires
        announces(out, before, reason, new_bundle),
    ensures
        out.len() == before.payload.contacts.filter(
            |c: ContactView| c.bundle.nym_address.len() > 0,
        ).len(),
        exists|cert: RevocationView|
            {
                &&& #[trigger] revokes(cert, before.payload, reason, new_bundle)
                &&& cert.reason == reason
                &&& cert.new_bundle == new_bundle
                &&& cert.sequence == before.payload.sequence
                &&& cert.x25519_pub == x25519_base(before.payload.x25519_secret())
                &&& forall|i: int|
                    0 <= i < before.payload.contacts.len() && (
                    #[trigger] before.payload.contacts[i]).bundle.nym_address.len() > 0
                        ==> out.contains(
                        OutgoingView {
                            to: before.payload.contacts[i].bundle.nym_address,
                            payload: announcement(cert).bytes(),
                        },
                    )
                &&& forall|j: int|
                    0 <= j < out.len() ==> (#[trigger] out[j]).payload == announcement(cert).bytes()
            },
{
    let cert = choose|cert: RevocationView|
        {
            &&& #[trigger] revokes(cert, before.payload, reason, new_bundle)
            &&& out == broadcast(before.payload.contacts, announcement(cert).bytes())
        };
    everyone_is_told(before.payload.contacts, announcement(cert).bytes());
    assert(revokes(cert, before.payload, reason, new_bundle));
}

} // verus!
