//! Signed revocations of identity keys.
use crate::bytes;
use crate::bytes::{be64, be64_tells_numbers_apart};
use crate::codec::{take_u32_spec, varint, Record};
use crate::crypto::keys::{
    hybrid_sign, hybrid_valid, hybrid_verify, BundleView, HybridSignature, HybridSigningKeypair,
    PublicKeyBundle,
};
use crate::error::IdentityError;
use vstd::prelude::*;
use vstd::utf8::encode_utf8;

verus! {

/// Why a key is revoked.
#[derive(Debug, Clone, Copy, PartialEq, Eq, Structural)]
pub enum RevocationReason {
    Compromised,
    Rotation,
    Retirement,
}

impl RevocationReason {
    /// The number of the reason.
    pub open spec fn index_spec(self) -> u8 {
        match self {
            RevocationReason::Compromised => 0,
            RevocationReason::Rotation => 1,
            RevocationReason::Retirement => 2,
        }
    }

    /// The number of the reason.
    pub fn index(self) -> (r: u8)
        ensures
            r == self.index_spec(),
    {
        match self {
            RevocationReason::Compromised => 0,
            RevocationReason::Rotation => 1,
            RevocationReason::Retirement => 2,
        }
    }
}

impl Record for RevocationReason {
    type Model = RevocationReason;

    open spec fn model(&self) -> RevocationReason {
        *self
    }

    open spec fn put_spec(m: RevocationReason) -> Seq<u8> {
        varint(m.index_spec() as nat)
    }

    open spec fn take_spec(b: Seq<u8>) -> Option<(RevocationReason, Seq<u8>)> {
        match take_u32_spec(b) {
            Some((i, rest)) => if i == 0 {
                Some((RevocationReason::Compromised, rest))
            } else if i == 1 {
                Some((RevocationReason::Rotation, rest))
            } else if i == 2 {
                Some((RevocationReason::Retirement, rest))
            } else {
                None
            },
            None => None,
        }
    }

    open spec fn fits(m: RevocationReason) -> bool {
        true
    }

    fn put(&self, out: &mut Vec<u8>) {
        (self.index() as u32).put(out);
    }

    fn take(b: &[u8]) -> (r: Option<(Self, &[u8])>) {
        match u32::take(b) {
            Some((i, rest)) => match i {
                0 => Some((RevocationReason::Compromised, rest)),
                1 => Some((RevocationReason::Rotation, rest)),
                2 => Some((RevocationReason::Retirement, rest)),
                _ => None,
            },
            None => None,
        }
    }

    proof fn round_trip(m: RevocationReason, rest: Seq<u8>) {
        u32::round_trip(m.index_spec() as u32, rest);
    }
}

/// A signed revocation, sent to every contact.
#[derive(Debug, Clone)]
pub struct RevocationCertificate {
    pub version: u8,
    /// Fingerprint of the revoked bundle.
    pub revoked_fingerprint: String,
    pub revoked_x25519_pub: [u8; 32],
    pub reason: RevocationReason,
    /// Monotonic, not a time.
    pub sequence: u64,
    /// The new bundle of a rotation.
    pub new_bundle: Option<PublicKeyBundle>,
    /// Signature over all of the above.
    pub signature: HybridSignature,
}

/// What a [`RevocationCertificate`] means.
#[verifier::ext_equal]
pub struct RevocationView {
    pub version: u8,
    pub fingerprint: Seq<char>,
    pub x25519_pub: Seq<u8>,
    pub reason: RevocationReason,
    pub sequence: u64,
    pub new_bundle: Option<BundleView>,
    pub ed25519: Seq<u8>,
    pub mldsa: Seq<u8>,
}

/// The fields of a certificate, in the order of its record.
pub type RevocationRecord = (
    u8,
    (
        String,
        ([u8; 32], (RevocationReason, (u64, (Option<PublicKeyBundle>, (Vec<u8>, Vec<u8>))))),
    ),
);

impl View for RevocationCertificate {
    type V = RevocationView;

    open spec fn view(&self) -> RevocationView {
        RevocationView {
            version: self.version,
            fingerprint: self.revoked_fingerprint@,
            x25519_pub: self.revoked_x25519_pub@,
            reason: self.reason,
            sequence: self.sequence,
            new_bundle: self.new_bundle.model(),
            ed25519: self.signature.ed25519@,
            mldsa: self.signature.mldsa@,
        }
    }
}

/// What the signature of a revocation covers.
pub open spec fn signable(
    version: u8,
    fingerprint: Seq<char>,
    x25519_pub: Seq<u8>,
    reason: RevocationReason,
    sequence: u64,
    new_bundle: Option<BundleView>,
) -> Seq<u8> {
    seq![version] + encode_utf8(fingerprint) + x25519_pub + seq![reason.index_spec()] + be64(
        sequence,
    ) + bundle_part(new_bundle)
}

impl RevocationView {
    /// The fields in the order of the record.
    pub open spec fn fields(self) -> <RevocationRecord as Record>::Model {
        (
            self.version,
            (
                self.fingerprint,
                (
                    self.x25519_pub,
                    (
                        self.reason,
                        (self.sequence, (self.new_bundle, (self.ed25519, self.mldsa))),
                    ),
                ),
            ),
        )
    }

    /// What the signature covers.
    pub open spec fn signed_bytes(self) -> Seq<u8> {
        signable(
            self.version,
            self.fingerprint,
            self.x25519_pub,
            self.reason,
            self.sequence,
            self.new_bundle,
        )
    }

    /// Whether the signature is valid under the keys of `bundle`.
    pub open spec fn signed_by(self, bundle: BundleView) -> bool {
        hybrid_valid(
            bundle.ed25519_vk,
            bundle.mldsa_vk,
            self.signed_bytes(),
            self.ed25519,
            self.mldsa,
        )
    }
}

impl Record for RevocationCertificate {
    type Model = RevocationView;

    open spec fn model(&self) -> RevocationView {
        self@
    }

    open spec fn put_spec(m: RevocationView) -> Seq<u8> {
        RevocationRecord::put_spec(m.fields())
    }

    open spec fn take_spec(b: Seq<u8>) -> Option<(RevocationView, Seq<u8>)> {
        match RevocationRecord::take_spec(b) {
            Some((f, rest)) => Some(
                (
                    RevocationView {
                        version: f.0,
                        fingerprint: f.1.0,
                        x25519_pub: f.1.1.0,
                        reason: f.1.1.1.0,
                        sequence: f.1.1.1.1.0,
                        new_bundle: f.1.1.1.1.1.0,
                        ed25519: f.1.1.1.1.1.1.0,
                        mldsa: f.1.1.1.1.1.1.1,
                    },
                    rest,
                ),
            ),
            None => None,
        }
    }

    open spec fn fits(m: RevocationView) -> bool {
        RevocationRecord::fits(m.fields())
    }

    fn put(&self, out: &mut Vec<u8>) {
        self.version.put(out);
        self.revoked_fingerprint.put(out);
        self.revoked_x25519_pub.put(out);
        self.reason.put(out);
        self.sequence.put(out);
        self.new_bundle.put(out);
        self.signature.ed25519.put(out);
        self.signature.mldsa.put(out);
        assert(out@ =~= old(out)@ + Self::put_spec(self.model()));
    }

    fn take(b: &[u8]) -> (r: Option<(Self, &[u8])>) {
        match RevocationRecord::take(b) {
            Some((f, rest)) => {
                let (
                    version,
                    (
                        revoked_fingerprint,
                        (
                            revoked_x25519_pub,
                            (reason, (sequence, (new_bundle, (ed25519, mldsa)))),
                        ),
                    ),
                ) = f;
                Some(
                    (
                        RevocationCertificate {
                            version,
                            revoked_fingerprint,
                            revoked_x25519_pub,
                            reason,
                            sequence,
                            new_bundle,
                            signature: HybridSignature { ed25519, mldsa },
                        },
                        rest,
                    ),
                )
            },
            None => None,
        }
    }

    proof fn round_trip(m: RevocationView, rest: Seq<u8>) {
        RevocationRecord::round_trip(m.fields(), rest);
    }
}

impl RevocationCertificate {
    /// Makes and signs a revocation. It verifies under the signer's own keys.
    pub fn create(
        signing_keypair: &HybridSigningKeypair,
        revoked_fingerprint: String,
        revoked_x25519_pub: [u8; 32],
        reason: RevocationReason,
        sequence: u64,
        new_bundle: Option<PublicKeyBundle>,
    ) -> (r: Self)
        requires
            signing_keypair.wf(),
        ensures
            r@ == (RevocationView {
                version: 1,
                fingerprint: revoked_fingerprint@,
                x25519_pub: revoked_x25519_pub@,
                reason,
                sequence,
                new_bundle: new_bundle.model(),
                ed25519: r@.ed25519,
                mldsa: r@.mldsa,
            }),
            forall|b: BundleView|
                b.ed25519_vk == signing_keypair.ed25519_vk@ && b.mldsa_vk
                    == signing_keypair.mldsa_vk@ ==> #[trigger] r@.signed_by(b),
    {
        let to_sign = Self::signable_bytes(
            1,
            revoked_fingerprint.as_str(),
            &revoked_x25519_pub,
            reason,
            sequence,
            &new_bundle,
        );
        let signature = hybrid_sign(signing_keypair, &to_sign);
        RevocationCertificate {
            version: 1,
            revoked_fingerprint,
            revoked_x25519_pub,
            reason,
            sequence,
            new_bundle,
            signature,
        }
    }

    /// Checks the signature against the keys known of a contact.
    pub fn verify(&self, against_bundle: &PublicKeyBundle) -> (r: Result<(), IdentityError>)
        ensures
            match r {
                Ok(()) => self@.signed_by(against_bundle@),
                Err(e) => !self@.signed_by(against_bundle@) && e
                    == IdentityError::SignatureVerification,
            },
    {
        let to_verify = Self::signable_bytes(
            self.version,
            self.revoked_fingerprint.as_str(),
            &self.revoked_x25519_pub,
            self.reason,
            self.sequence,
            &self.new_bundle,
        );
        match hybrid_verify(against_bundle, &to_verify, &self.signature) {
            Ok(()) => Ok(()),
            Err(_) => Err(IdentityError::SignatureVerification),
        }
    }

    fn signable_bytes(
        version: u8,
        revoked_fingerprint: &str,
        revoked_x25519_pub: &[u8; 32],
        reason: RevocationReason,
        sequence: u64,
        new_bundle: &Option<PublicKeyBundle>,
    ) -> (r: Vec<u8>)
        ensures
            r@ == signable(
                version,
                revoked_fingerprint@,
                revoked_x25519_pub@,
                reason,
                sequence,
                new_bundle.model(),
            ),
    {
        let mut out: Vec<u8> = Vec::new();
        out.push(version);
        bytes::append(&mut out, revoked_fingerprint.as_bytes());
        bytes::append(&mut out, revoked_x25519_pub);
        out.push(reason.index());
        bytes::append(&mut out, &bytes::u64_to_be(sequence));
        if let Some(b) = new_bundle {
            b.put(&mut out);
        }
        assert(out@ =~= signable(
            version,
            revoked_fingerprint@,
            revoked_x25519_pub@,
            reason,
            sequence,
            new_bundle.model(),
        ));
        out
    }

    /// The record of the certificate.
    pub fn to_bytes(&self) -> (r: Vec<u8>)
        ensures
            r@ == RevocationCertificate::put_spec(self@),
            RevocationCertificate::fits(self@),
    {
        let mut out: Vec<u8> = Vec::new();
        self.put(&mut out);
        assert(out@ =~= RevocationCertificate::put_spec(self@));
        out
    }

    /// Reads a certificate; what follows its record is ignored.
    pub fn from_bytes(b: &[u8]) -> (r: Option<Self>)
        ensures
            match r {
                Some(c) => RevocationCertificate::take_spec(b@) matches Some((v, _)) && v == c@,
                None => RevocationCertificate::take_spec(b@) is None,
            },
    {
        match RevocationCertificate::take(b) {
            Some((c, _)) => Some(c),
            None => None,
        }
    }
}

/// Whether two certificates say the same, whatever their signatures.
pub open spec fn same_claims(a: RevocationView, b: RevocationView) -> bool {
    a == RevocationView { ed25519: a.ed25519, mldsa: a.mldsa, ..b }
}

/// What stands where in the signed bytes, `n` being the length of the
/// fingerprint.
proof fn lemma_signed_parts(
    version: u8,
    fingerprint: Seq<u8>,
    x25519_pub: Seq<u8>,
    reason: u8,
    sequence: Seq<u8>,
    rest: Seq<u8>,
)
    requires
        x25519_pub.len() == 32,
        sequence.len() == 8,
    ensures
        ({
            let b = seq![version] + fingerprint + x25519_pub + seq![reason] + sequence + rest;
            let n = fingerprint.len() as int;
            &&& b.len() == 42 + n + rest.len()
            &&& b[0] == version
            &&& b.subrange(1, 1 + n) == fingerprint
            &&& b.subrange(1 + n, 33 + n) == x25519_pub
            &&& b[33 + n] == reason
            &&& b.subrange(34 + n, 42 + n) == sequence
            &&& b.skip(42 + n) == rest
        }),
{
    let b = seq![version] + fingerprint + x25519_pub + seq![reason] + sequence + rest;
    let n = fingerprint.len() as int;
    assert(b.subrange(1, 1 + n) =~= fingerprint);
    assert(b.subrange(1 + n, 33 + n) =~= x25519_pub);
    assert(b.subrange(34 + n, 42 + n) =~= sequence);
    assert(b.skip(42 + n) =~= rest);
}

/// The bytes that stand for a new bundle, or for none.
pub open spec fn bundle_part(new_bundle: Option<BundleView>) -> Seq<u8> {
    match new_bundle {
        Some(b) => b.bytes(),
        None => seq![],
    }
}

/// Different bundles, or one and none, are signed as different bytes.
proof fn lemma_bundle_part(a: Option<BundleView>, b: Option<BundleView>)
    requires
        a matches Some(c) ==> PublicKeyBundle::fits(c),
        b matches Some(c) ==> PublicKeyBundle::fits(c),
        bundle_part(a) == bundle_part(b),
    ensures
        a == b,
{
    if let Some(c) = a {
        PublicKeyBundle::round_trip(c, seq![]);
        assert(c.bytes() + seq![] =~= c.bytes());
    }
    if let Some(c) = b {
        PublicKeyBundle::round_trip(c, seq![]);
        assert(c.bytes() + seq![] =~= c.bytes());
    }
    assert(u8::take_spec(seq![]) is None);
    assert(PublicKeyBundle::take_spec(seq![]) is None);
}

/// The signature covers every field: a certificate with any one field changed
/// needs a signature over other bytes. The same holds of any number of changed
/// fields as long as the fingerprint is among the unchanged.
pub proof fn every_field_is_signed(a: RevocationView, b: RevocationView)
    requires
        RevocationCertificate::fits(a),
        RevocationCertificate::fits(b),
        a.fingerprint == b.fingerprint || same_claims(
            a,
            RevocationView { fingerprint: a.fingerprint, ..b },
        ),
        !same_claims(a, b),
    ensures
        a.signed_bytes() != b.signed_bytes(),
{
    if a.signed_bytes() == b.signed_bytes() {
        let (f, g) = (encode_utf8(a.fingerprint), encode_utf8(b.fingerprint));
        let (p, q) = (bundle_part(a.new_bundle), bundle_part(b.new_bundle));
        lemma_signed_parts(
            a.version,
            f,
            a.x25519_pub,
            a.reason.index_spec(),
            be64(a.sequence),
            p,
        );
        lemma_signed_parts(
            b.version,
            g,
            b.x25519_pub,
            b.reason.index_spec(),
            be64(b.sequence),
            q,
        );
        assert(f.len() == g.len());
        vstd::utf8::encode_utf8_decode_utf8(a.fingerprint);
        vstd::utf8::encode_utf8_decode_utf8(b.fingerprint);
        be64_tells_numbers_apart(a.sequence, b.sequence);
        lemma_bundle_part(a.new_bundle, b.new_bundle);
    }
}

} // verus!
