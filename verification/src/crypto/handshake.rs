//! The first message between two parties: an X3DH-style agreement with a
//! post-quantum encapsulation, which carries the initiator's identity and the
//! first plaintext.
use crate::bytes;
use crate::codec::{put_bytes_spec, Record};
use crate::crypto::keys::{
    bundle_of, hybrid_kem_combine, hybrid_secret, BundleView, HybridKemCiphertext,
    HybridKemKeypair, HybridSigningKeypair, PublicKeyBundle,
};
use crate::crypto::keys::hybrid_kem_decapsulate;
use crate::crypto::primitives::{
    aead_decrypt, aead_encrypt_with_nonce, hkdf_32, hmac_sign_raw, hmac_verify_raw, opened, sealed,
    SymKey, AEAD_NONCE_LEN,
};
use crate::crypto::ratchet::zeros;
use crate::crypto::suite;
use crate::crypto::suite::{
    drawn_32, drawn_nonce, hkdf_sha256, hmac_sha256, mlkem_encap, mlkem_shared, sealable, sha256,
    x25519, x25519_base, MLKEM_CT_LEN, MLKEM_EK_LEN,
};
use crate::error::CryptoError;
use vstd::prelude::*;
use vstd::string::StringSliceAdditionalSpecFns;

verus! {

/// The initiator's first message. The routing layer sees none of it.
#[derive(Debug)]
pub struct HandshakeInitMessage {
    /// The initiator's public keys and address.
    pub alice_identity: PublicKeyBundle,
    /// The initiator's ephemeral key for this session.
    pub alice_ek_x25519: [u8; 32],
    /// The encapsulation to the responder's ML-KEM key.
    pub alice_mlkem_ct: HybridKemCiphertext,
    /// The first plaintext, encrypted.
    pub initial_ct: Vec<u8>,
    /// Tag over the identity, the ephemeral key and the encapsulation.
    pub mac: [u8; 32],
}

/// What a completed handshake leaves: the root key of the double ratchet and
/// the initiator's ephemeral key.
#[derive(Debug)]
pub struct HandshakeOutput {
    pub session_key: SymKey,
    pub alice_ek_pub: [u8; 32],
}

/// What a [`HandshakeInitMessage`] means.
#[verifier::ext_equal]
pub struct InitView {
    pub identity: BundleView,
    pub ek: Seq<u8>,
    pub mlkem_ct: Seq<u8>,
    pub initial_ct: Seq<u8>,
    pub mac: Seq<u8>,
}

/// The fields of a handshake message, in the order of its record.
pub type InitRecord = (PublicKeyBundle, ([u8; 32], (Vec<u8>, (Vec<u8>, [u8; 32]))));

impl View for HandshakeInitMessage {
    type V = InitView;

    open spec fn view(&self) -> InitView {
        InitView {
            identity: self.alice_identity@,
            ek: self.alice_ek_x25519@,
            mlkem_ct: self.alice_mlkem_ct.mlkem_ct@,
            initial_ct: self.initial_ct@,
            mac: self.mac@,
        }
    }
}

impl InitView {
    /// The fields in the order of the record.
    pub open spec fn fields(self) -> <InitRecord as Record>::Model {
        (self.identity, (self.ek, (self.mlkem_ct, (self.initial_ct, self.mac))))
    }

    /// What the tag covers.
    pub open spec fn mac_input(self) -> Seq<u8> {
        self.identity.bytes() + self.ek + put_bytes_spec(self.mlkem_ct)
    }
}

impl Record for HandshakeInitMessage {
    type Model = InitView;

    open spec fn model(&self) -> InitView {
        self@
    }

    open spec fn put_spec(m: InitView) -> Seq<u8> {
        InitRecord::put_spec(m.fields())
    }

    open spec fn take_spec(b: Seq<u8>) -> Option<(InitView, Seq<u8>)> {
        match InitRecord::take_spec(b) {
            Some((f, rest)) => Some(
                (
                    InitView {
                        identity: f.0,
                        ek: f.1.0,
                        mlkem_ct: f.1.1.0,
                        initial_ct: f.1.1.1.0,
                        mac: f.1.1.1.1,
                    },
                    rest,
                ),
            ),
            None => None,
        }
    }

    open spec fn fits(m: InitView) -> bool {
        InitRecord::fits(m.fields())
    }

    fn put(&self, out: &mut Vec<u8>) {
        self.alice_identity.put(out);
        self.alice_ek_x25519.put(out);
        self.alice_mlkem_ct.mlkem_ct.put(out);
        self.initial_ct.put(out);
        self.mac.put(out);
        assert(out@ =~= old(out)@ + Self::put_spec(self.model()));
    }

    fn take(b: &[u8]) -> (r: Option<(Self, &[u8])>) {
        match InitRecord::take(b) {
            Some(((alice_identity, (alice_ek_x25519, (mlkem_ct, (initial_ct, mac)))), rest)) =>
                Some(
                (
                    HandshakeInitMessage {
                        alice_identity,
                        alice_ek_x25519,
                        alice_mlkem_ct: HybridKemCiphertext { mlkem_ct },
                        initial_ct,
                        mac,
                    },
                    rest,
                ),
            ),
            None => None,
        }
    }

    proof fn round_trip(m: InitView, rest: Seq<u8>) {
        InitRecord::round_trip(m.fields(), rest);
    }
}

impl HandshakeInitMessage {
    /// The record of the message.
    pub fn to_bytes(&self) -> (r: Vec<u8>)
        ensures
            r@ == HandshakeInitMessage::put_spec(self@),
    {
        let mut out: Vec<u8> = Vec::new();
        self.put(&mut out);
        assert(out@ =~= HandshakeInitMessage::put_spec(self@));
        out
    }

    /// Reads a message; what follows its record is ignored.
    pub fn from_bytes(b: &[u8]) -> (r: Option<Self>)
        ensures
            match r {
                Some(m) => HandshakeInitMessage::take_spec(b@) matches Some((v, _)) && v == m@,
                None => HandshakeInitMessage::take_spec(b@) is None,
            },
    {
        match HandshakeInitMessage::take(b) {
            Some((m, _)) => Some(m),
            None => None,
        }
    }
}

/// The session key of the Diffie-Hellman outputs and the encapsulated secret,
/// with that of a one-time prekey behind them where there is one.
pub open spec fn session_of(
    dh1: Seq<u8>,
    dh2: Seq<u8>,
    dh3: Seq<u8>,
    dh4: Seq<u8>,
    dh5: Option<Seq<u8>>,
) -> Seq<u8> {
    let ikm = dh1 + dh2 + dh3 + dh4;
    hkdf_sha256(
        Some(zeros()),
        match dh5 {
            Some(d) => ikm + d,
            None => ikm,
        },
        "op4-x3dh-v1".spec_bytes(),
        32,
    )
}

/// Derives the session key.
pub fn combine_dh_outputs(
    dh1: &[u8; 32],
    dh2: &[u8; 32],
    dh3: &[u8; 32],
    dh4_ss: &SymKey,
    dh5: Option<[u8; 32]>,
) -> (r: SymKey)
    ensures
        r@ == session_of(
            dh1@,
            dh2@,
            dh3@,
            dh4_ss@,
            match dh5 {
                Some(d) => Some(d@),
                None => None,
            },
        ),
{
    let mut ikm: Vec<u8> = Vec::new();
    bytes::append(&mut ikm, dh1);
    bytes::append(&mut ikm, dh2);
    bytes::append(&mut ikm, dh3);
    bytes::append(&mut ikm, &dh4_ss.0);
    if let Some(d) = dh5 {
        bytes::append(&mut ikm, &d);
    }
    let zero = [0u8;32];
    assert(zero@ =~= zeros());
    SymKey(hkdf_32(&ikm, Some(&zero), "op4-x3dh-v1".as_bytes()))
}

/// The responder's prekey: the ratchet key, or the identity key for a bundle
/// without one.
pub open spec fn prekey(bundle: BundleView) -> Seq<u8> {
    if bundle.ratchet_pub != zeros() {
        bundle.ratchet_pub
    } else {
        bundle.x25519_pub
    }
}

/// The responder's prekey.
pub fn bundle_prekey(bundle: &PublicKeyBundle) -> (r: [u8; 32])
    ensures
        r@ == prekey(bundle@),
{
    let zero = [0u8;32];
    assert(zero@ =~= zeros());
    if !bytes::same_bytes(&bundle.ratchet_pub, &zero) {
        bundle.ratchet_pub
    } else {
        bundle.x25519_pub
    }
}

/// The session key as the initiator computes it.
pub open spec fn alice_session(
    identity: Seq<u8>,
    ephemeral: Seq<u8>,
    bob: BundleView,
    mlkem_ss: Seq<u8>,
) -> Seq<u8> {
    session_of(
        x25519(identity, bob.x25519_pub),
        x25519(ephemeral, bob.x25519_pub),
        x25519(ephemeral, prekey(bob)),
        hybrid_secret(x25519(ephemeral, bob.x25519_pub), mlkem_ss),
        if bob.opk_pubs.len() > 0 {
            Some(x25519(ephemeral, bob.opk_pubs[0]))
        } else {
            None
        },
    )
}

/// The session key as the responder computes it, with a one-time prekey or
/// without.
pub open spec fn bob_session(
    identity: Seq<u8>,
    ratchet: Seq<u8>,
    dk: Seq<u8>,
    msg: InitView,
    opk: Option<Seq<u8>>,
) -> Seq<u8> {
    session_of(
        x25519(identity, msg.identity.x25519_pub),
        x25519(identity, msg.ek),
        x25519(ratchet, msg.ek),
        hybrid_secret(x25519(identity, msg.ek), mlkem_shared(dk, msg.mlkem_ct)),
        match opk {
            Some(o) => Some(x25519(o, msg.ek)),
            None => None,
        },
    )
}

/// The secrets behind the keys of a bundle that a handshake uses.
pub open spec fn owns(
    bundle: BundleView,
    identity: Seq<u8>,
    ratchet: Seq<u8>,
    opk: Option<Seq<u8>>,
) -> bool {
    &&& identity.len() == 32 && bundle.x25519_pub == x25519_base(identity)
    &&& ratchet.len() == 32 && prekey(bundle) == x25519_base(ratchet)
    &&& match opk {
        Some(o) => bundle.opk_pubs.len() > 0 && o.len() == 32 && bundle.opk_pubs[0] == x25519_base(
            o,
        ),
        None => bundle.opk_pubs.len() == 0,
    }
}

/// The message that the initiator sends.
pub open spec fn init_message(
    identity: BundleView,
    ephemeral: Seq<u8>,
    mlkem_ct: Seq<u8>,
    session_key: Seq<u8>,
    nonce: Seq<u8>,
    plaintext: Seq<u8>,
) -> InitView {
    let ek = x25519_base(ephemeral);
    InitView {
        identity,
        ek,
        mlkem_ct,
        initial_ct: sealed(session_key, nonce, identity.bytes(), plaintext),
        mac: hmac_sha256(session_key, identity.bytes() + ek + put_bytes_spec(mlkem_ct)),
    }
}

/// Whether `msg` is a handshake under `session_key` that carries `plaintext`:
/// its tag is right and its payload opens.
pub open spec fn carries(msg: InitView, session_key: Seq<u8>, plaintext: Seq<u8>) -> bool {
    &&& msg.mac == hmac_sha256(session_key, msg.mac_input())
    &&& opened(session_key, msg.initial_ct, msg.identity.bytes()) == Some(plaintext)
}

/// The initiator's side, with everything random given: the ephemeral secret,
/// what ML-KEM encapsulated, and the nonce.
///
/// Whoever owns the keys of `bob_bundle` computes the same session key from
/// the message, provided that their ML-KEM key recovers `mlkem_ss`.
pub fn handshake_alice_with(
    alice_kem: &HybridKemKeypair,
    alice_identity: PublicKeyBundle,
    bob_bundle: &PublicKeyBundle,
    initial_plaintext: &[u8],
    alice_ek_secret: &[u8; 32],
    mlkem_ct: Vec<u8>,
    mlkem_ss: &[u8; 32],
    nonce: &[u8; 12],
) -> (r: Result<(HandshakeInitMessage, SymKey), CryptoError>)
    requires
        alice_kem.wf(),
        alice_identity.x25519_pub@ == alice_kem.x25519_public@,
    ensures
        match r {
            Ok((msg, key)) => {
                &&& sealable(initial_plaintext@.len())
                &&& key@ == alice_session(
                    alice_kem.x25519_secret@,
                    alice_ek_secret@,
                    bob_bundle@,
                    mlkem_ss@,
                )
                &&& msg@ == init_message(
                    alice_identity@,
                    alice_ek_secret@,
                    mlkem_ct@,
                    key@,
                    nonce@,
                    initial_plaintext@,
                )
                &&& carries(msg@, key@, initial_plaintext@)
                &&& forall|b: Seq<u8>, q: Seq<u8>, dk: Seq<u8>, o: Option<Seq<u8>>|
                    owns(bob_bundle@, b, q, o) && mlkem_shared(dk, mlkem_ct@) == mlkem_ss@
                        ==> #[trigger] bob_session(b, q, dk, msg@, o) == key@
            },
            Err(e) => !sealable(initial_plaintext@.len()) && e == CryptoError::AeadEncrypt,
        },
{
    let alice_ek_pub = suite::x25519_public(alice_ek_secret);
    let dh1 = suite::x25519_shared(&alice_kem.x25519_secret, &bob_bundle.x25519_pub);
    let dh2 = suite::x25519_shared(alice_ek_secret, &bob_bundle.x25519_pub);
    let bob_spk = bundle_prekey(bob_bundle);
    let dh3 = suite::x25519_shared(alice_ek_secret, &bob_spk);
    let dh4_ss = hybrid_kem_combine(bob_bundle, alice_ek_secret, mlkem_ss);
    let dh5 = if bob_bundle.opk_pubs.len() > 0 {
        Some(suite::x25519_shared(alice_ek_secret, &bob_bundle.opk_pubs[0]))
    } else {
        None
    };
    let session_key = combine_dh_outputs(&dh1, &dh2, &dh3, &dh4_ss, dh5);
    let id_bytes = alice_identity.to_bytes();
    let initial_ct = match aead_encrypt_with_nonce(
        &session_key,
        nonce,
        initial_plaintext,
        &id_bytes,
    ) {
        Ok(ct) => ct,
        Err(e) => {
            return Err(e);
        },
    };
    let mut mac_input: Vec<u8> = Vec::new();
    bytes::append(&mut mac_input, &id_bytes);
    bytes::append(&mut mac_input, &alice_ek_pub);
    mlkem_ct.put(&mut mac_input);
    assert(mac_input@ =~= alice_identity@.bytes() + alice_ek_pub@ + put_bytes_spec(mlkem_ct@));
    let mac = hmac_sign_raw(&session_key.0, &mac_input);
    let msg = HandshakeInitMessage {
        alice_identity,
        alice_ek_x25519: alice_ek_pub,
        alice_mlkem_ct: HybridKemCiphertext { mlkem_ct },
        initial_ct,
        mac,
    };
    proof {
        let bob = bob_bundle@;
        assert forall|b: Seq<u8>, q: Seq<u8>, dk: Seq<u8>, o: Option<Seq<u8>>|
            owns(bob, b, q, o) && mlkem_shared(dk, mlkem_ct@) == mlkem_ss@ implies #[trigger] bob_session(
            b,
            q,
            dk,
            msg@,
            o,
        ) == session_key@ by {
            assert(dh1@ == x25519(b, msg@.identity.x25519_pub));
            assert(dh2@ == x25519(b, msg@.ek));
            assert(dh3@ == x25519(q, msg@.ek));
        }
    }
    Ok((msg, session_key))
}

/// Starts a handshake as the initiator.
///
/// ```text
/// DH1 = X25519(Alice identity,  Bob identity)
/// DH2 = X25519(Alice ephemeral, Bob identity)
/// DH3 = X25519(Alice ephemeral, Bob prekey)
/// DH4 = hybrid encapsulation to Bob
/// DH5 = X25519(Alice ephemeral, Bob's first one-time prekey), if any
/// SK  = HKDF(DH1 || DH2 || DH3 || DH4 [|| DH5])
/// ```
pub fn perform_handshake_alice(
    alice_kem: &HybridKemKeypair,
    alice_signing: &HybridSigningKeypair,
    alice_ratchet_pub: [u8; 32],
    alice_nym_address: String,
    bob_bundle: &PublicKeyBundle,
    initial_plaintext: &[u8],
) -> (r: Result<(HandshakeInitMessage, SymKey), CryptoError>)
    requires
        alice_kem.wf(),
    ensures
        match r {
            Ok((msg, key)) => {
                &&& bob_bundle@.mlkem_ek.len() == MLKEM_EK_LEN
                &&& sealable(initial_plaintext@.len())
                &&& msg@.mlkem_ct.len() == MLKEM_CT_LEN
                &&& msg@.identity == bundle_of(
                    *alice_kem,
                    *alice_signing,
                    alice_ratchet_pub@,
                    alice_nym_address@,
                )
                &&& carries(msg@, key@, initial_plaintext@)
                &&& drawn_nonce(msg@.initial_ct.take(AEAD_NONCE_LEN as int))
                &&& exists|ephemeral: Seq<u8>, m: Seq<u8>|
                    {
                        &&& drawn_32(ephemeral)
                        &&& msg@.ek == x25519_base(ephemeral)
                        &&& msg@.mlkem_ct == mlkem_encap(bob_bundle@.mlkem_ek, m).0
                        &&& key@ == #[trigger] alice_session(
                            alice_kem.x25519_secret@,
                            ephemeral,
                            bob_bundle@,
                            (#[trigger] mlkem_encap(bob_bundle@.mlkem_ek, m)).1,
                        )
                        &&& forall|b: Seq<u8>, q: Seq<u8>, dk: Seq<u8>, o: Option<Seq<u8>>|
                            owns(bob_bundle@, b, q, o) && mlkem_shared(dk, msg@.mlkem_ct)
                                == mlkem_encap(bob_bundle@.mlkem_ek, m).1
                                ==> #[trigger] bob_session(b, q, dk, msg@, o) == key@
                    }
            },
            Err(e) => if bob_bundle@.mlkem_ek.len() != MLKEM_EK_LEN {
                e == CryptoError::KeyParse
            } else {
                !sealable(initial_plaintext@.len()) && e == CryptoError::AeadEncrypt
            },
        },
{
    let ephemeral = suite::fresh_32();
    let (mlkem_ct, mlkem_ss) = match suite::mlkem_encapsulate(&bob_bundle.mlkem_ek) {
        Some(x) => x,
        None => {
            return Err(CryptoError::KeyParse);
        },
    };
    let identity = PublicKeyBundle::from_keypairs(
        alice_kem,
        alice_signing,
        alice_ratchet_pub,
        alice_nym_address,
    );
    let nonce = suite::fresh_nonce();
    let ghost m = choose|m: Seq<u8>|
        m.len() == 32 && (mlkem_ct@, mlkem_ss@) == #[trigger] mlkem_encap(bob_bundle@.mlkem_ek, m);
    let r = handshake_alice_with(
        alice_kem,
        identity,
        bob_bundle,
        initial_plaintext,
        &ephemeral,
        mlkem_ct,
        &mlkem_ss,
        &nonce,
    );
    assert(mlkem_encap(bob_bundle@.mlkem_ek, m).1 == mlkem_ss@);
    if let Ok((msg, _)) = &r {
        assert(msg@.initial_ct.take(AEAD_NONCE_LEN as int) =~= nonce@);
    }
    r
}

/// The one-time prekey that a responder tries at step `i`: none at first, then
/// each in turn.
pub open spec fn candidate(opks: Seq<Seq<u8>>, i: nat) -> Option<Seq<u8>> {
    if i == 0 {
        None
    } else {
        Some(opks[i - 1])
    }
}

/// The first step from `i` on whose session key has the message's tag.
pub open spec fn first_match(
    identity: Seq<u8>,
    ratchet: Seq<u8>,
    dk: Seq<u8>,
    msg: InitView,
    opks: Seq<Seq<u8>>,
    i: nat,
) -> Option<nat>
    decreases opks.len() + 1 - i,
{
    if i > opks.len() {
        None
    } else if msg.mac == hmac_sha256(
        bob_session(identity, ratchet, dk, msg, candidate(opks, i)),
        msg.mac_input(),
    ) {
        Some(i)
    } else {
        first_match(identity, ratchet, dk, msg, opks, i + 1)
    }
}

/// What the responder makes of a message: the plaintext, the session key and
/// the step whose candidate matched.
pub open spec fn bob_spec(
    identity: Seq<u8>,
    ratchet: Seq<u8>,
    dk: Seq<u8>,
    msg: InitView,
    opks: Seq<Seq<u8>>,
) -> Result<(Seq<u8>, Seq<u8>, nat), CryptoError> {
    if msg.mlkem_ct.len() != MLKEM_CT_LEN {
        Err(CryptoError::KeyParse)
    } else {
        match first_match(identity, ratchet, dk, msg, opks, 0) {
            None => Err(CryptoError::AeadDecrypt),
            Some(i) => {
                let key = bob_session(identity, ratchet, dk, msg, candidate(opks, i));
                match opened(key, msg.initial_ct, msg.identity.bytes()) {
                    Some(pt) => Ok((pt, key, i)),
                    None => Err(CryptoError::AeadDecrypt),
                }
            },
        }
    }
}

/// The short name of the one-time prekey with the secret `secret`.
pub open spec fn opk_id(secret: Seq<u8>) -> Seq<u8> {
    sha256(x25519_base(secret)).take(4)
}

/// The short name of a one-time prekey: the first four bytes of the SHA-256 of
/// its public key.
pub fn opk_id_of(secret: &[u8; 32]) -> (r: [u8; 4])
    ensures
        r@ == opk_id(secret@),
{
    let hash = suite::sha256_digest(&suite::x25519_public(secret));
    let r = bytes::array_at::<4>(&hash, 0);
    assert(r@ =~= hash@.take(4));
    r
}

/// The views of a list of secrets.
pub open spec fn secret_views(s: Seq<[u8; 32]>) -> Seq<Seq<u8>> {
    Seq::new(s.len(), |i: int| s[i]@)
}

/// Answers a handshake as the responder, with our one-time prekeys. The
/// session key without one is tried first, then each in turn; the name of the
/// prekey that was used comes with the result.
///
/// `bob_ratchet_secret` must be the secret behind the ratchet key of our
/// bundle.
pub fn perform_handshake_bob_with_opks(
    bob_kem: &HybridKemKeypair,
    bob_ratchet_secret: &[u8; 32],
    opk_secrets: &Vec<[u8; 32]>,
    msg: &HandshakeInitMessage,
) -> (r: Result<(Vec<u8>, SymKey, Option<[u8; 4]>), CryptoError>)
    requires
        bob_kem.wf(),
    ensures
        match r {
            Ok((pt, key, used)) => bob_spec(
                bob_kem.x25519_secret@,
                bob_ratchet_secret@,
                bob_kem.mlkem_dk@,
                msg@,
                secret_views(opk_secrets@),
            ) matches Ok((p, k, i)) && p == pt@ && k == key@ && match used {
                None => i == 0,
                Some(id) => 0 < i <= opk_secrets@.len() && id@ == opk_id(opk_secrets@[i - 1]@),
            },
            Err(e) => bob_spec(
                bob_kem.x25519_secret@,
                bob_ratchet_secret@,
                bob_kem.mlkem_dk@,
                msg@,
                secret_views(opk_secrets@),
            ) == Err::<(Seq<u8>, Seq<u8>, nat), CryptoError>(e),
        },
{
    let ghost b = bob_kem.x25519_secret@;
    let ghost q = bob_ratchet_secret@;
    let ghost dk = bob_kem.mlkem_dk@;
    let ghost opks = secret_views(opk_secrets@);
    let dh1 = suite::x25519_shared(&bob_kem.x25519_secret, &msg.alice_identity.x25519_pub);
    let dh2 = suite::x25519_shared(&bob_kem.x25519_secret, &msg.alice_ek_x25519);
    let dh3 = suite::x25519_shared(bob_ratchet_secret, &msg.alice_ek_x25519);
    let dh4_ss = match hybrid_kem_decapsulate(bob_kem, &msg.alice_ek_x25519, &msg.alice_mlkem_ct) {
        Ok(k) => k,
        Err(e) => {
            return Err(e);
        },
    };
    let id_bytes = msg.alice_identity.to_bytes();
    let mut mac_input: Vec<u8> = Vec::new();
    bytes::append(&mut mac_input, &id_bytes);
    bytes::append(&mut mac_input, &msg.alice_ek_x25519);
    msg.alice_mlkem_ct.mlkem_ct.put(&mut mac_input);
    assert(mac_input@ =~= msg@.mac_input());
    let mut i: usize = 0;
    loop
        invariant
            i <= opk_secrets@.len(),
            msg@.mlkem_ct.len() == MLKEM_CT_LEN,
            opks == secret_views(opk_secrets@),
            b == bob_kem.x25519_secret@,
            q == bob_ratchet_secret@,
            dk == bob_kem.mlkem_dk@,
            dh1@ == x25519(b, msg@.identity.x25519_pub),
            dh2@ == x25519(b, msg@.ek),
            dh3@ == x25519(q, msg@.ek),
            dh4_ss@ == hybrid_secret(x25519(b, msg@.ek), mlkem_shared(dk, msg@.mlkem_ct)),
            mac_input@ == msg@.mac_input(),
            id_bytes@ == msg@.identity.bytes(),
            first_match(b, q, dk, msg@, opks, 0) == first_match(b, q, dk, msg@, opks, i as nat),
        decreases opk_secrets@.len() - i,
    {
        let dh5 = if i == 0 {
            None
        } else {
            Some(suite::x25519_shared(&opk_secrets[i - 1], &msg.alice_ek_x25519))
        };
        let key = combine_dh_outputs(&dh1, &dh2, &dh3, &dh4_ss, dh5);
        assert(key@ == bob_session(b, q, dk, msg@, candidate(opks, i as nat)));
        if hmac_verify_raw(&key.0, &mac_input, &msg.mac) {
            return match aead_decrypt(&key, &msg.initial_ct, &id_bytes) {
                Ok(pt) => {
                    let used = if i == 0 {
                        None
                    } else {
                        Some(opk_id_of(&opk_secrets[i - 1]))
                    };
                    Ok((pt, key, used))
                },
                Err(e) => Err(e),
            };
        }
        if i == opk_secrets.len() {
            assert(first_match(b, q, dk, msg@, opks, (i + 1) as nat) is None);
            return Err(CryptoError::AeadDecrypt);
        }
        i = i + 1;
    }
}

/// Answers a handshake as the responder, without one-time prekeys.
pub fn perform_handshake_bob(
    bob_kem: &HybridKemKeypair,
    bob_ratchet_secret: &[u8; 32],
    msg: &HandshakeInitMessage,
) -> (r: Result<(Vec<u8>, SymKey), CryptoError>)
    requires
        bob_kem.wf(),
    ensures
        match r {
            Ok((pt, key)) => bob_spec(
                bob_kem.x25519_secret@,
                bob_ratchet_secret@,
                bob_kem.mlkem_dk@,
                msg@,
                seq![],
            ) == Ok::<(Seq<u8>, Seq<u8>, nat), CryptoError>((pt@, key@, 0)),
            Err(e) => bob_spec(
                bob_kem.x25519_secret@,
                bob_ratchet_secret@,
                bob_kem.mlkem_dk@,
                msg@,
                seq![],
            ) == Err::<(Seq<u8>, Seq<u8>, nat), CryptoError>(e),
        },
{
    let none: Vec<[u8; 32]> = Vec::new();
    assert(secret_views(none@) =~= seq![]);
    match perform_handshake_bob_with_opks(bob_kem, bob_ratchet_secret, &none, msg) {
        Ok((pt, key, _)) => Ok((pt, key)),
        Err(e) => Err(e),
    }
}

/// A handshake completes: where the responder computes the initiator's session
/// key, it gets that key and the plaintext, whatever one-time prekeys it
/// holds besides.
pub proof fn handshake_completes(
    identity: Seq<u8>,
    ratchet: Seq<u8>,
    dk: Seq<u8>,
    msg: InitView,
    opks: Seq<Seq<u8>>,
    session_key: Seq<u8>,
    plaintext: Seq<u8>,
)
    requires
        msg.mlkem_ct.len() == MLKEM_CT_LEN,
        carries(msg, session_key, plaintext),
        bob_session(identity, ratchet, dk, msg, None) == session_key,
    ensures
        bob_spec(identity, ratchet, dk, msg, opks) == Ok::<(Seq<u8>, Seq<u8>, nat), CryptoError>(
            (plaintext, session_key, 0),
        ),
{
    assert(candidate(opks, 0) == None::<Seq<u8>>);
}

/// The same with the one-time prekey number `i`, where no candidate before it
/// has the message's tag by accident.
pub proof fn handshake_completes_with_opk(
    identity: Seq<u8>,
    ratchet: Seq<u8>,
    dk: Seq<u8>,
    msg: InitView,
    opks: Seq<Seq<u8>>,
    i: nat,
    session_key: Seq<u8>,
    plaintext: Seq<u8>,
)
    requires
        msg.mlkem_ct.len() == MLKEM_CT_LEN,
        carries(msg, session_key, plaintext),
        i < opks.len(),
        bob_session(identity, ratchet, dk, msg, Some(opks[i as int])) == session_key,
        forall|j: nat|
            j <= i ==> hmac_sha256(
                bob_session(identity, ratchet, dk, msg, #[trigger] candidate(opks, j)),
                msg.mac_input(),
            ) != msg.mac,
    ensures
        bob_spec(identity, ratchet, dk, msg, opks) == Ok::<(Seq<u8>, Seq<u8>, nat), CryptoError>(
            (plaintext, session_key, i + 1),
        ),
{
    lemma_first_match(identity, ratchet, dk, msg, opks, 0, i + 1);
    assert(candidate(opks, i + 1) == Some(opks[i as int]));
}

proof fn lemma_first_match(
    identity: Seq<u8>,
    ratchet: Seq<u8>,
    dk: Seq<u8>,
    msg: InitView,
    opks: Seq<Seq<u8>>,
    from: nat,
    at: nat,
)
    requires
        from <= at <= opks.len(),
        forall|j: nat|
            from <= j < at ==> hmac_sha256(
                bob_session(identity, ratchet, dk, msg, #[trigger] candidate(opks, j)),
                msg.mac_input(),
            ) != msg.mac,
        msg.mac == hmac_sha256(
            bob_session(identity, ratchet, dk, msg, candidate(opks, at)),
            msg.mac_input(),
        ),
    ensures
        first_match(identity, ratchet, dk, msg, opks, from) == Some(at),
    decreases at - from,
{
    if from < at {
        assert(hmac_sha256(
            bob_session(identity, ratchet, dk, msg, candidate(opks, from)),
            msg.mac_input(),
        ) != msg.mac);
        lemma_first_match(identity, ratchet, dk, msg, opks, from + 1, at);
    }
}

} // verus!
