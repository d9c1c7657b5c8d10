//! The bootstrap exchange: whoever scans a bootstrap code asks its owner for
//! the whole bundle. Request and answer are sealed, so that nobody on the way
//! learns who asks whom.
use crate::bytes;
use crate::codec::Record;
use crate::crypto::keys::{BundleView, HybridKemKeypair, PublicKeyBundle};
use crate::crypto::primitives::{
    aead_decrypt, aead_encrypt, hkdf_32, opened, seals, SymKey, AEAD_NONCE_LEN,
};
use crate::crypto::suite;
use crate::crypto::suite::{
    drawn_32, drawn_nonce, hkdf_sha256, sealable, sha256, x25519, x25519_base,
};
use crate::identity::profile::{BootstrapCode, BootstrapView};
use crate::messenger::contacts::{add_numbered_contact, contact_label};
use crate::messenger::identity::build_our_bundle;
use crate::messenger::outgoing::{bare_message, bare_wire, Outgoing};
use crate::network::message::WireMessageType;
use crate::storage::payload::PayloadView;
use crate::storage::vault::VaultUnlocked;
use vstd::prelude::*;
use vstd::string::StringSliceAdditionalSpecFns;

verus! {

/// The fields of a sealed record: the ephemeral public key, then the
/// ciphertext.
pub type SealedRecord = ([u8; 32], Vec<u8>);

/// The fields of a request: where the answer goes, and the key to seal it to.
pub type RequestRecord = (String, [u8; 32]);

/// The key of a sealed record, from the Diffie-Hellman output behind it.
pub open spec fn box_key(shared: Seq<u8>, ephemeral_pub: Seq<u8>, label: Seq<u8>) -> Seq<u8> {
    hkdf_sha256(Some(ephemeral_pub), shared, label, 32)
}

/// Whether `b` is `plaintext` sealed to the key `to`, with the ephemeral
/// secret `ephemeral`.
pub open spec fn sealed_with(
    b: Seq<u8>,
    to: Seq<u8>,
    label: Seq<u8>,
    plaintext: Seq<u8>,
    ephemeral: Seq<u8>,
    ct: Seq<u8>,
) -> bool {
    let ephemeral_pub = x25519_base(ephemeral);
    &&& ephemeral.len() == 32
    &&& drawn_32(ephemeral)
    &&& drawn_nonce(ct.take(AEAD_NONCE_LEN as int))
    &&& b == SealedRecord::put_spec((ephemeral_pub, ct))
    &&& seals(
        box_key(x25519(ephemeral, to), ephemeral_pub, label),
        plaintext,
        ephemeral_pub,
        ct,
    )
}

/// What the owner of `secret` reads in a sealed record, if anything.
pub open spec fn unsealed(secret: Seq<u8>, b: Seq<u8>, label: Seq<u8>) -> Option<Seq<u8>> {
    match SealedRecord::take_spec(b) {
        None => None,
        Some(((ephemeral_pub, ct), _)) => opened(
            box_key(x25519(secret, ephemeral_pub), ephemeral_pub, label),
            ct,
            ephemeral_pub,
        ),
    }
}

/// Whether `b` is `plaintext` sealed to the key `to`: made with some ephemeral
/// secret, and read by whoever owns the key.
pub open spec fn sealed_to(b: Seq<u8>, to: Seq<u8>, label: Seq<u8>, plaintext: Seq<u8>) -> bool {
    &&& exists|ephemeral: Seq<u8>, ct: Seq<u8>|
        #[trigger] sealed_with(b, to, label, plaintext, ephemeral, ct)
    &&& forall|secret: Seq<u8>|
        secret.len() == 32 && to == x25519_base(secret) ==> #[trigger] unsealed(secret, b, label)
            == Some(plaintext)
}

/// Seals bytes to an X25519 key with a fresh ephemeral secret.
pub fn seal_to(to: &[u8; 32], label: &[u8], plaintext: &[u8]) -> (r: Option<Vec<u8>>)
    ensures
        match r {
            Some(b) => sealable(plaintext@.len()) && sealed_to(b@, to@, label@, plaintext@),
            None => !sealable(plaintext@.len()),
        },
{
    let ephemeral = suite::fresh_32();
    let ephemeral_pub = suite::x25519_public(&ephemeral);
    let shared = suite::x25519_shared(&ephemeral, to);
    let key = SymKey(hkdf_32(&shared, Some(&ephemeral_pub), label));
    let ct = match aead_encrypt(&key, plaintext, &ephemeral_pub) {
        Ok(ct) => ct,
        Err(_) => {
            return None;
        },
    };
    let mut out: Vec<u8> = Vec::new();
    ephemeral_pub.put(&mut out);
    ct.put(&mut out);
    proof {
        let m = (ephemeral_pub@, ct@);
        assert(out@ =~= SealedRecord::put_spec(m));
        assert(sealed_with(out@, to@, label@, plaintext@, ephemeral@, ct@));
        SealedRecord::round_trip(m, seq![]);
        assert(out@ + seq![] =~= out@);
        assert forall|secret: Seq<u8>| secret.len() == 32 && to@ == x25519_base(secret) implies
            #[trigger] unsealed(secret, out@, label@) == Some(plaintext@) by {
            assert(x25519(secret, ephemeral_pub@) == shared@);
        }
    }
    Some(out)
}

/// Opens a sealed record with our secret.
pub fn unseal(secret: &[u8; 32], b: &[u8], label: &[u8]) -> (r: Option<Vec<u8>>)
    ensures
        match r {
            Some(plain) => unsealed(secret@, b@, label@) == Some(plain@),
            None => unsealed(secret@, b@, label@) is None,
        },
{
    let (ephemeral_pub, ct) = match SealedRecord::take(b) {
        Some((f, _)) => f,
        None => {
            return None;
        },
    };
    let shared = suite::x25519_shared(secret, &ephemeral_pub);
    let key = SymKey(hkdf_32(&shared, Some(&ephemeral_pub), label));
    match aead_decrypt(&key, &ct, &ephemeral_pub) {
        Ok(plain) => Some(plain),
        Err(_) => None,
    }
}

/// The record of our request.
pub open spec fn request_bytes(p: PayloadView) -> Seq<u8> {
    RequestRecord::put_spec((p.nym_address, x25519_base(p.x25519_secret())))
}

/// Whether `payload` asks the owner of `to` for its bundle, on our behalf.
pub open spec fn is_request(payload: Seq<u8>, to: Seq<u8>, ours: PayloadView) -> bool {
    exists|b: Seq<u8>|
        {
            &&& payload == bare_wire(WireMessageType::BundleRequest, b).bytes()
            &&& #[trigger] sealed_to(
                b,
                to,
                "op4-bundle-req-v1".spec_bytes(),
                request_bytes(ours),
            )
        }
}

/// Asks the owner of a bootstrap code for its bundle.
pub fn bundle_request(vault: &VaultUnlocked, code: &BootstrapCode) -> (r: Option<Outgoing>)
    ensures
        match r {
            Some(out) => {
                &&& vault@.payload.has_kem()
                &&& sealable(request_bytes(vault@.payload).len())
                &&& out.to@ == code@.nym_address
                &&& is_request(out.payload@, code@.x25519_pub, vault@.payload)
            },
            None => !vault@.payload.has_kem() || !sealable(request_bytes(vault@.payload).len()),
        },
{
    let kem = match HybridKemKeypair::from_bytes(&vault.payload.identity_kem_secret) {
        Ok(k) => k,
        Err(_) => {
            return None;
        },
    };
    let mut inner: Vec<u8> = Vec::new();
    vault.payload.nym_address.put(&mut inner);
    kem.x25519_public.put(&mut inner);
    assert(inner@ =~= request_bytes(vault@.payload));
    let sealed = match seal_to(&code.x25519_pub, "op4-bundle-req-v1".as_bytes(), &inner) {
        Some(b) => b,
        None => {
            return None;
        },
    };
    let payload = bare_message(WireMessageType::BundleRequest, sealed);
    Some(Outgoing { to: code.nym_address.clone(), payload })
}

/// Who asks for our bundle in a request: where the answer goes and the key to
/// seal it to. A request without an address is none.
pub open spec fn requester(p: PayloadView, b: Seq<u8>) -> Option<(Seq<char>, Seq<u8>)> {
    if !p.has_kem() {
        None
    } else {
        match unsealed(p.x25519_secret(), b, "op4-bundle-req-v1".spec_bytes()) {
            None => None,
            Some(inner) => match RequestRecord::take_spec(inner) {
                None => None,
                Some((f, _)) => if f.0.len() == 0 {
                    None
                } else {
                    Some(f)
                },
            },
        }
    }
}

/// Whether `payload` is our bundle for the owner of the key `to`.
pub open spec fn is_answer(payload: Seq<u8>, to: Seq<u8>, bundle: BundleView) -> bool {
    exists|b: Seq<u8>|
        {
            &&& payload == bare_wire(WireMessageType::BundleResponse, b).bytes()
            &&& #[trigger] sealed_to(b, to, "op4-bundle-resp-v1".spec_bytes(), bundle.bytes())
        }
}

/// Answers a request for our bundle. What is not sealed to us gets no answer.
pub fn answer_bundle_request(vault: &VaultUnlocked, request: &[u8]) -> (r: Option<Outgoing>)
    ensures
        match r {
            Some(out) => {
                &&& requester(vault@.payload, request@) matches Some((address, key))
                &&& vault@.payload.our_bundle() matches Some(bundle)
                &&& sealable(bundle.bytes().len())
                &&& out.to@ == address
                &&& is_answer(out.payload@, key, bundle)
            },
            None => {
                ||| requester(vault@.payload, request@) is None
                ||| match vault@.payload.our_bundle() {
                    Some(bundle) => !sealable(bundle.bytes().len()),
                    None => true,
                }
            },
        },
{
    let kem = match HybridKemKeypair::from_bytes(&vault.payload.identity_kem_secret) {
        Ok(k) => k,
        Err(_) => {
            return None;
        },
    };
    let inner = match unseal(&kem.x25519_secret, request, "op4-bundle-req-v1".as_bytes()) {
        Some(b) => b,
        None => {
            return None;
        },
    };
    let (address, key) = match RequestRecord::take(&inner) {
        Some((f, _)) => f,
        None => {
            return None;
        },
    };
    if address.as_str().is_empty() {
        return None;
    }
    let bundle = match build_our_bundle(vault) {
        Some(b) => b,
        None => {
            return None;
        },
    };
    let sealed = match seal_to(&key, "op4-bundle-resp-v1".as_bytes(), &bundle.to_bytes()) {
        Some(b) => b,
        None => {
            return None;
        },
    };
    let payload = bare_message(WireMessageType::BundleResponse, sealed);
    Some(Outgoing { to: address, payload })
}

/// A request of ours that waits for its answer.
pub struct BootstrapPending {
    pub ed25519_vk: [u8; 32],
    /// SHA-256 that the key material of the answer must have.
    pub fingerprint_prefix: [u8; 32],
}

/// What a [`BootstrapPending`] means.
#[verifier::ext_equal]
pub struct BootstrapPendingView {
    pub ed25519_vk: Seq<u8>,
    pub fingerprint: Seq<u8>,
}

impl View for BootstrapPending {
    type V = BootstrapPendingView;

    open spec fn view(&self) -> BootstrapPendingView {
        BootstrapPendingView {
            ed25519_vk: self.ed25519_vk@,
            fingerprint: self.fingerprint_prefix@,
        }
    }
}

/// The views of the waiting requests.
pub open spec fn pending_views(s: Seq<BootstrapPending>) -> Seq<BootstrapPendingView> {
    Seq::new(s.len(), |i: int| s[i]@)
}

/// What is expected of the owner of a bootstrap code.
pub open spec fn expected_of(code: BootstrapView) -> BootstrapPendingView {
    BootstrapPendingView { ed25519_vk: code.ed25519_vk, fingerprint: code.fingerprint }
}

/// Whether a bundle is what a request asked for: the right signing key, and
/// the right digest over all key material.
pub open spec fn answers(bundle: BundleView, request: BootstrapPendingView) -> bool {
    request.ed25519_vk == bundle.ed25519_vk && request.fingerprint == sha256(
        bundle.fingerprint_input(),
    )
}

/// The first request from `from` on that a bundle answers.
pub open spec fn answered_from(
    requests: Seq<BootstrapPendingView>,
    bundle: BundleView,
    from: int,
) -> Option<int>
    decreases requests.len() - from,
{
    if from < 0 || from >= requests.len() {
        None
    } else if answers(bundle, requests[from]) {
        Some(from)
    } else {
        answered_from(requests, bundle, from + 1)
    }
}

/// The bundle in an answer to us, if there is one.
pub open spec fn answer_bundle(p: PayloadView, b: Seq<u8>) -> Option<BundleView> {
    if !p.has_kem() {
        None
    } else {
        match unsealed(p.x25519_secret(), b, "op4-bundle-resp-v1".spec_bytes()) {
            None => None,
            Some(inner) => match PublicKeyBundle::take_spec(inner) {
                None => None,
                Some((bundle, _)) => Some(bundle),
            },
        }
    }
}

/// Which request an answer belongs to, and the bundle in it. An answer that
/// nobody asked for, or whose digest is another, is none.
pub open spec fn accepted_answer(
    p: PayloadView,
    requests: Seq<BootstrapPendingView>,
    b: Seq<u8>,
) -> Option<(int, BundleView)> {
    match answer_bundle(p, b) {
        None => None,
        Some(bundle) => match answered_from(requests, bundle, 0) {
            None => None,
            Some(i) => Some((i, bundle)),
        },
    }
}

/// The waiting request that a bundle answers.
fn find_answered(requests: &Vec<BootstrapPending>, bundle: &PublicKeyBundle) -> (r: Option<usize>)
    ensures
        match r {
            Some(i) => answered_from(pending_views(requests@), bundle@, 0) == Some(i as int) && i
                < requests@.len(),
            None => answered_from(pending_views(requests@), bundle@, 0) is None,
        },
{
    let digest = bundle.digest();
    let ghost all = pending_views(requests@);
    let mut i: usize = 0;
    while i < requests.len()
        invariant
            i <= requests@.len(),
            all == pending_views(requests@),
            digest@ == sha256(bundle@.fingerprint_input()),
            answered_from(all, bundle@, 0) == answered_from(all, bundle@, i as int),
        decreases requests@.len() - i,
    {
        assert(all[i as int] == requests@[i as int]@);
        if bytes::same_bytes(&requests[i].ed25519_vk, &bundle.ed25519_vk) && bytes::same_bytes(
            &requests[i].fingerprint_prefix,
            &digest,
        ) {
            return Some(i);
        }
        i = i + 1;
    }
    None
}

/// Takes in the answer to a request of ours: the request is done, and the
/// contact stands at the end of the list, which is the place that is returned.
pub fn accept_bundle_response(
    vault: &mut VaultUnlocked,
    requests: &mut Vec<BootstrapPending>,
    response: &[u8],
) -> (r: Option<usize>)
    requires
        old(vault)@.payload.sequence < u64::MAX,
    ensures
        match accepted_answer(old(vault)@.payload, pending_views(old(requests)@), response@) {
            Some((i, bundle)) => {
                &&& r == Some(old(vault).payload.contacts@.len() as usize)
                &&& r->0 == old(vault).payload.contacts@.len()
                &&& pending_views(final(requests)@) == pending_views(old(requests)@).remove(i)
                &&& final(vault)@ == old(vault)@.with_contact(
                    bundle,
                    contact_label(old(vault)@.payload.contacts.len() + 1),
                )
            },
            None => {
                &&& r is None
                &&& final(vault)@ == old(vault)@
                &&& pending_views(final(requests)@) == pending_views(old(requests)@)
            },
        },
{
    let kem = match HybridKemKeypair::from_bytes(&vault.payload.identity_kem_secret) {
        Ok(k) => k,
        Err(_) => {
            return None;
        },
    };
    let inner = match unseal(&kem.x25519_secret, response, "op4-bundle-resp-v1".as_bytes()) {
        Some(b) => b,
        None => {
            return None;
        },
    };
    let bundle = match PublicKeyBundle::take(&inner) {
        Some((b, _)) => b,
        None => {
            return None;
        },
    };
    let i = match find_answered(requests, &bundle) {
        Some(i) => i,
        None => {
            return None;
        },
    };
    requests.remove(i);
    assert(pending_views(requests@) =~= pending_views(old(requests)@).remove(i as int));
    Some(add_numbered_contact(vault, bundle))
}

/// The exchange completes: whoever owns the key behind a bootstrap code sees
/// who asks, and answers to the key of the one who asked; the answer is the
/// bundle that the code promised, and is accepted.
pub proof fn bootstrap_exchange_completes(
    asker: PayloadView,
    owner: PayloadView,
    request: Seq<u8>,
    answer: Seq<u8>,
    requests: Seq<BootstrapPendingView>,
)
    requires
        asker.has_kem(),
        owner.has_kem(),
        asker.nym_address.len() > 0,
        owner.our_bundle() matches Some(bundle) && PublicKeyBundle::fits(bundle),
        RequestRecord::fits((asker.nym_address, x25519_base(asker.x25519_secret()))),
        sealed_to(
            request,
            x25519_base(owner.x25519_secret()),
            "op4-bundle-req-v1".spec_bytes(),
            request_bytes(asker),
        ),
        sealed_to(
            answer,
            x25519_base(asker.x25519_secret()),
            "op4-bundle-resp-v1".spec_bytes(),
            owner.our_bundle()->0.bytes(),
        ),
        requests.contains(
            BootstrapPendingView {
                ed25519_vk: owner.our_bundle()->0.ed25519_vk,
                fingerprint: sha256(owner.our_bundle()->0.fingerprint_input()),
            },
        ),
    ensures
        requester(owner, request) == Some(
            (asker.nym_address, x25519_base(asker.x25519_secret())),
        ),
        accepted_answer(asker, requests, answer) matches Some((_, bundle)) && bundle
            == owner.our_bundle()->0,
{
    let asked = (asker.nym_address, x25519_base(asker.x25519_secret()));
    RequestRecord::round_trip(asked, seq![]);
    assert(request_bytes(asker) + seq![] =~= request_bytes(asker));
    assert(unsealed(owner.x25519_secret(), request, "op4-bundle-req-v1".spec_bytes()) == Some(
        request_bytes(asker),
    ));
    let bundle = owner.our_bundle()->0;
    PublicKeyBundle::round_trip(bundle, seq![]);
    assert(bundle.bytes() + seq![] =~= bundle.bytes());
    assert(unsealed(asker.x25519_secret(), answer, "op4-bundle-resp-v1".spec_bytes()) == Some(
        bundle.bytes(),
    ));
    let k = choose|k: int|
        0 <= k < requests.len() && requests[k] == (BootstrapPendingView {
            ed25519_vk: bundle.ed25519_vk,
            fingerprint: sha256(bundle.fingerprint_input()),
        });
    lemma_answered(requests, bundle, 0, k);
}

/// A bundle that answers some request answers a first one.
proof fn lemma_answered(requests: Seq<BootstrapPendingView>, bundle: BundleView, from: int, k: int)
    requires
        0 <= from <= k < requests.len(),
        answers(bundle, requests[k]),
    ensures
        answered_from(requests, bundle, from) is Some,
    decreases k - from,
{
    if !answers(bundle, requests[from]) {
        lemma_answered(requests, bundle, from + 1, k);
    }
}

} // verus!
