//! The cipher suite: the outside algorithms that the library calls, and what
//! is believed of each.
use crate::bytes;
use chacha20poly1305::aead::{Aead, AeadCore, Payload};
use chacha20poly1305::{ChaCha20Poly1305, KeyInit};
use ed25519_dalek::{Signer, Verifier};
use hmac::Mac;
use ml_kem::kem::{Decapsulate, Encapsulate};
use ml_kem::{EncodedSizeUser, KemCore};
use rand::RngCore;
use sha2::Digest;
use vstd::prelude::*;

verus! {

// Hashing and key derivation

/// The SHA-256 digest of `data`.
pub uninterp spec fn sha256(data: Seq<u8>) -> Seq<u8>;

/// The SHA-512 digest of `data`.
pub uninterp spec fn sha512(data: Seq<u8>) -> Seq<u8>;

/// The HMAC-SHA256 tag of `data` under `key`.
pub uninterp spec fn hmac_sha256(key: Seq<u8>, data: Seq<u8>) -> Seq<u8>;

/// The first `len` bytes of HKDF-SHA256 output.
pub uninterp spec fn hkdf_sha256(
    salt: Option<Seq<u8>>,
    ikm: Seq<u8>,
    info: Seq<u8>,
    len: nat,
) -> Seq<u8>;

/// The 32-byte Argon2id (version 0x13) key of `passphrase` and `salt`.
pub uninterp spec fn argon2id(
    passphrase: Seq<u8>,
    salt: Seq<u8>,
    m_cost: u32,
    t_cost: u32,
    p_cost: u32,
) -> Seq<u8>;

/// `sha2::Sha256::digest`: the 32-byte digest of `data`.
#[verifier::external_body]
pub(crate) fn sha256_digest(data: &[u8]) -> (r: [u8; 32])
    ensures
        r@ == sha256(data@),
{
    sha2::Sha256::digest(data).into()
}

/// `sha2::Sha512::digest`: the 64-byte digest of `data`.
#[verifier::external_body]
pub(crate) fn sha512_digest(data: &[u8]) -> (r: [u8; 64])
    ensures
        r@ == sha512(data@),
{
    sha2::Sha512::digest(data).into()
}

/// `hmac::Hmac<Sha256>` over `data`: the tag under `key`, which may have any
/// length.
#[verifier::external_body]
pub(crate) fn hmac_tag(key: &[u8], data: &[u8]) -> (r: [u8; 32])
    ensures
        r@ == hmac_sha256(key@, data@),
{
    let mut mac = <hmac::Hmac<sha2::Sha256> as Mac>::new_from_slice(key).expect("any key length");
    mac.update(data);
    mac.finalize().into_bytes().into()
}

/// `hmac::Mac::verify_slice`: whether `tag` is the tag of `data` under `key`,
/// compared in constant time.
#[verifier::external_body]
pub(crate) fn hmac_matches(key: &[u8], data: &[u8], tag: &[u8]) -> (r: bool)
    ensures
        r == (tag@ == hmac_sha256(key@, data@)),
{
    let mut mac = <hmac::Hmac<sha2::Sha256> as Mac>::new_from_slice(key).expect("any key length");
    mac.update(data);
    mac.verify_slice(tag).is_ok()
}

/// `hkdf::Hkdf<Sha256>`, extract and expand, into all of `out`. Above 255 blocks
/// of 32 bytes it is refused, and `out` is left as it was.
#[verifier::external_body]
pub(crate) fn hkdf_fill(salt: Option<&[u8]>, ikm: &[u8], info: &[u8], out: &mut [u8]) -> (r: bool)
    ensures
        r == (old(out)@.len() <= 255 * 32),
        final(out)@.len() == old(out)@.len(),
        final(out)@ == (if r {
            hkdf_sha256(opt_view(salt), ikm@, info@, old(out)@.len())
        } else {
            old(out)@
        }),
{
    hkdf::Hkdf::<sha2::Sha256>::new(salt, ikm).expand(info, out).is_ok()
}

/// The view of an optional byte string.
pub open spec fn opt_view(s: Option<&[u8]>) -> Option<Seq<u8>> {
    match s {
        Some(b) => Some(b@),
        None => None,
    }
}

/// The Argon2 costs that the algorithm admits.
pub open spec fn argon2_costs_ok(m_cost: u32, t_cost: u32, p_cost: u32) -> bool {
    1 <= p_cost <= 0xff_ffff && m_cost >= 8 * p_cost && t_cost >= 1
}

/// The passphrases and salts that Argon2 takes.
pub open spec fn argon2_input_ok(passphrase: Seq<u8>, salt: Seq<u8>) -> bool {
    passphrase.len() <= 0xffff_ffff && 8 <= salt.len() <= 0xffff_ffff
}

/// `argon2::Params::new` for a 32-byte output: whether it takes the costs.
/// Above 2^29 lanes it computes with an overflow, so such a count is left out.
#[verifier::external_body]
pub(crate) fn argon2_takes(m_cost: u32, t_cost: u32, p_cost: u32) -> (r: bool)
    requires
        p_cost <= 0xff_ffff,
    ensures
        r == argon2_costs_ok(m_cost, t_cost, p_cost),
{
    argon2::Params::new(m_cost, t_cost, p_cost, Some(32)).is_ok()
}

/// `argon2::Argon2::hash_password_into` (Argon2id, version 0x13) into 32
/// bytes; refused for a salt below eight bytes and for a passphrase or a salt
/// of 2^32 bytes or more.
#[verifier::external_body]
pub(crate) fn argon2id_key(
    passphrase: &[u8],
    salt: &[u8],
    m_cost: u32,
    t_cost: u32,
    p_cost: u32,
) -> (r: Option<[u8; 32]>)
    requires
        argon2_costs_ok(m_cost, t_cost, p_cost),
    ensures
        r is Some <==> argon2_input_ok(passphrase@, salt@),
        r matches Some(k) ==> k@ == argon2id(passphrase@, salt@, m_cost, t_cost, p_cost),
{
    let params = argon2::Params::new(m_cost, t_cost, p_cost, Some(32)).ok()?;
    let mut key = [0u8; 32];
    argon2::Argon2::new(argon2::Algorithm::Argon2id, argon2::Version::V0x13, params)
        .hash_password_into(passphrase, salt, &mut key)
        .ok()?;
    Some(key)
}

// Authenticated encryption

/// ChaCha20-Poly1305 ciphertext with its 16-byte tag at the end.
pub uninterp spec fn chacha_seal(
    key: Seq<u8>,
    nonce: Seq<u8>,
    aad: Seq<u8>,
    msg: Seq<u8>,
) -> Seq<u8>;

/// The plaintext that ChaCha20-Poly1305 opens, if the tag is right.
pub uninterp spec fn chacha_open(
    key: Seq<u8>,
    nonce: Seq<u8>,
    aad: Seq<u8>,
    ct: Seq<u8>,
) -> Option<Seq<u8>>;

/// The longest plaintext that ChaCha20-Poly1305 takes: 2^32 - 2 blocks of 64
/// bytes.
pub const MAX_SEALABLE: u64 = 64 * 0xffff_fffe;

/// Whether a plaintext of this length can be encrypted.
pub open spec fn sealable(len: nat) -> bool {
    len <= MAX_SEALABLE
}

/// `chacha20poly1305` encryption: the ciphertext is 16 bytes longer than the
/// plaintext, and opening it gives the plaintext back. Every plaintext that the
/// stream cipher has blocks for is taken.
#[verifier::external_body]
pub(crate) fn chacha_encrypt(key: &[u8; 32], nonce: &[u8; 12], aad: &[u8], msg: &[u8]) -> (r:
    Option<Vec<u8>>)
    requires
        sealable(msg@.len()),
    ensures
        r is Some,
        r matches Some(c) ==> {
            &&& c@ == chacha_seal(key@, nonce@, aad@, msg@)
            &&& c@.len() == msg@.len() + 16
            &&& chacha_open(key@, nonce@, aad@, c@) == Some(msg@)
        },
{
    ChaCha20Poly1305::new(key.into()).encrypt(nonce.into(), Payload { msg, aad }).ok()
}

/// `chacha20poly1305` decryption: the plaintext, 16 bytes shorter than the
/// ciphertext, where the tag is right.
#[verifier::external_body]
pub(crate) fn chacha_decrypt(key: &[u8; 32], nonce: &[u8; 12], aad: &[u8], ct: &[u8]) -> (r: Option<
    Vec<u8>,
>)
    requires
        ct@.len() <= MAX_SEALABLE + 16,
    ensures
        match r {
            Some(m) => chacha_open(key@, nonce@, aad@, ct@) == Some(m@) && m@.len() + 16
                == ct@.len(),
            None => chacha_open(key@, nonce@, aad@, ct@) is None,
        },
{
    ChaCha20Poly1305::new(key.into()).decrypt(nonce.into(), Payload { msg: ct, aad }).ok()
}

// Randomness

/// `ChaCha20Poly1305::generate_nonce` from the operating system's generator.
/// Nothing is promised of the bytes.
#[verifier::external_body]
fn draw_nonce() -> (r: [u8; 12]) {
    ChaCha20Poly1305::generate_nonce(&mut rand::rngs::OsRng).into()
}

/// `rand::rngs::OsRng::fill_bytes` into `len` bytes. Only their number is
/// promised.
#[verifier::external_body]
fn draw_bytes(len: usize) -> (r: Vec<u8>)
    ensures
        r@.len() == len,
{
    let mut b = vec![0u8; len];
    rand::rngs::OsRng.fill_bytes(&mut b);
    b
}

/// Whether a nonce came from the generator.
pub closed spec fn drawn_nonce(b: Seq<u8>) -> bool {
    exists|a: [u8; 12]| #[trigger] call_ensures(draw_nonce, (), a) && a@ == b
}

/// Whether 32 bytes came from the generator.
pub closed spec fn drawn_32(b: Seq<u8>) -> bool {
    exists|v: Vec<u8>| #[trigger] call_ensures(draw_bytes, (32usize,), v) && v@ == b
}

/// Whether bytes came from the generator.
pub closed spec fn drawn_bytes(b: Seq<u8>) -> bool {
    exists|len: usize, v: Vec<u8>| #[trigger] call_ensures(draw_bytes, (len,), v) && v@ == b
}

/// A nonce from the generator.
pub(crate) fn fresh_nonce() -> (r: [u8; 12])
    ensures
        drawn_nonce(r@),
{
    draw_nonce()
}

/// 32 bytes from the generator.
pub(crate) fn fresh_32() -> (r: [u8; 32])
    ensures
        drawn_32(r@),
{
    let drawn = draw_bytes(32);
    let r = bytes::array_at::<32>(&drawn, 0);
    assert(r@ =~= drawn@);
    r
}

/// Bytes from the generator, `len` of them.
pub(crate) fn fresh_bytes(len: usize) -> (r: Vec<u8>)
    ensures
        r@.len() == len,
        drawn_bytes(r@),
{
    draw_bytes(len)
}

// Diffie-Hellman on Curve25519

/// The X25519 public key of `secret`.
pub uninterp spec fn x25519_base(secret: Seq<u8>) -> Seq<u8>;

/// The X25519 shared secret of `secret` and the public key `public`.
pub uninterp spec fn x25519(secret: Seq<u8>, public: Seq<u8>) -> Seq<u8>;

/// `x25519_dalek::PublicKey::from` a `StaticSecret`.
#[verifier::external_body]
pub(crate) fn x25519_public(secret: &[u8; 32]) -> (r: [u8; 32])
    ensures
        r@ == x25519_base(secret@),
{
    x25519_dalek::PublicKey::from(&x25519_dalek::StaticSecret::from(*secret)).to_bytes()
}

/// `x25519_dalek::StaticSecret::diffie_hellman`. Both ends compute the same
/// value: where `public` is the public key of some `peer`, that peer gets it
/// from the public key of `secret`.
#[verifier::external_body]
pub(crate) fn x25519_shared(secret: &[u8; 32], public: &[u8; 32]) -> (r: [u8; 32])
    ensures
        r@ == x25519(secret@, public@),
        forall|peer: Seq<u8>|
            peer.len() == 32 && public@ == #[trigger] x25519_base(peer) ==> r@ == x25519(
                peer,
                x25519_base(secret@),
            ),
{
    let public = x25519_dalek::PublicKey::from(*public);
    x25519_dalek::StaticSecret::from(*secret).diffie_hellman(&public).to_bytes()
}

// ML-KEM-768

/// Length of an encoded ML-KEM-768 decapsulation key.
pub const MLKEM_DK_LEN: usize = 2400;

/// Length of an encoded ML-KEM-768 encapsulation key.
pub const MLKEM_EK_LEN: usize = 1184;

/// Length of an ML-KEM-768 ciphertext.
pub const MLKEM_CT_LEN: usize = 1088;

/// The encoding of the decapsulation key that `dk` decodes to: coefficients
/// are reduced on the way in.
pub uninterp spec fn mlkem_reduced(dk: Seq<u8>) -> Seq<u8>;

/// The encapsulation key inside the decapsulation key `dk`.
pub uninterp spec fn mlkem_ek(dk: Seq<u8>) -> Seq<u8>;

/// The ciphertext and the shared secret of an encapsulation to `ek` that drew
/// the message `m`.
pub uninterp spec fn mlkem_encap(ek: Seq<u8>, m: Seq<u8>) -> (Seq<u8>, Seq<u8>);

/// The shared secret that `dk` recovers from the ciphertext `ct`.
pub uninterp spec fn mlkem_shared(dk: Seq<u8>, ct: Seq<u8>) -> Seq<u8>;

/// `ml_kem::MlKem768::generate`: an encoded decapsulation key, which decoding
/// and encoding again leaves as it is. Nothing more is promised of its bytes.
#[verifier::external_body]
fn draw_mlkem() -> (r: Vec<u8>)
    ensures
        r@.len() == MLKEM_DK_LEN,
        mlkem_reduced(r@) == r@,
{
    let (dk, _) = ml_kem::MlKem768::generate(&mut rand::rngs::OsRng);
    dk.as_bytes().to_vec()
}

/// Whether a decapsulation key was generated.
pub closed spec fn drawn_mlkem(dk: Seq<u8>) -> bool {
    exists|v: Vec<u8>| #[trigger] call_ensures(draw_mlkem, (), v) && v@ == dk
}

/// A fresh decapsulation key.
pub(crate) fn mlkem_generate() -> (r: Vec<u8>)
    ensures
        r@.len() == MLKEM_DK_LEN,
        mlkem_reduced(r@) == r@,
        drawn_mlkem(r@),
{
    draw_mlkem()
}

/// `ml_kem::kem::DecapsulationKey::from_bytes`, then `as_bytes` of it and of
/// its encapsulation key. Decoding the result gives the same key again.
#[verifier::external_body]
pub(crate) fn mlkem_decode(dk: &[u8; 2400]) -> (r: (Vec<u8>, Vec<u8>))
    ensures
        r.0@ == mlkem_reduced(dk@),
        r.1@ == mlkem_ek(dk@),
        r.0@.len() == MLKEM_DK_LEN,
        r.1@.len() == MLKEM_EK_LEN,
        mlkem_reduced(r.0@) == r.0@,
        mlkem_ek(r.0@) == r.1@,
{
    let key = ml_kem::kem::DecapsulationKey::<ml_kem::MlKem768Params>::from_bytes(dk.into());
    (key.as_bytes().to_vec(), key.encapsulation_key().as_bytes().to_vec())
}

/// `ml_kem::kem::EncapsulationKey::encapsulate` with a message drawn from the
/// operating system's generator; refused where `ek` has the wrong length.
/// That decapsulation recovers the secret is not promised: it fails with a
/// (negligible) probability over the draw.
#[verifier::external_body]
pub(crate) fn mlkem_encapsulate(ek: &[u8]) -> (r: Option<(Vec<u8>, [u8; 32])>)
    ensures
        r is Some <==> ek@.len() == MLKEM_EK_LEN,
        r matches Some((ct, ss)) ==> ct@.len() == MLKEM_CT_LEN && exists|m: Seq<u8>|
            m.len() == 32 && (ct@, ss@) == #[trigger] mlkem_encap(ek@, m),
{
    let ek = ml_kem::kem::EncapsulationKey::<ml_kem::MlKem768Params>::from_bytes(
        ek.try_into().ok()?,
    );
    let (ct, ss) = ek.encapsulate(&mut rand::rngs::OsRng).ok()?;
    Some((ct.to_vec(), ss.into()))
}

/// `ml_kem::kem::DecapsulationKey::decapsulate`, which refuses no ciphertext
/// of the right length.
#[verifier::external_body]
pub(crate) fn mlkem_decapsulate(dk: &[u8; 2400], ct: &[u8; 1088]) -> (r: [u8; 32])
    ensures
        r@ == mlkem_shared(dk@, ct@),
{
    let key = ml_kem::kem::DecapsulationKey::<ml_kem::MlKem768Params>::from_bytes(dk.into());
    key.decapsulate(ct.into()).expect("decapsulation is infallible").into()
}

// Signatures

/// The Ed25519 verifying key of the secret key `sk`.
pub uninterp spec fn ed25519_vk(sk: Seq<u8>) -> Seq<u8>;

/// The Ed25519 signature of `msg` under `sk`.
pub uninterp spec fn ed25519_signature(sk: Seq<u8>, msg: Seq<u8>) -> Seq<u8>;

/// Whether `sig` is an Ed25519 signature of `msg` that `vk` accepts.
pub uninterp spec fn ed25519_valid(vk: Seq<u8>, msg: Seq<u8>, sig: Seq<u8>) -> bool;

/// The ML-DSA-65 verifying key of the seed `seed`.
pub uninterp spec fn mldsa_vk(seed: Seq<u8>) -> Seq<u8>;

/// The deterministic ML-DSA-65 signature of `msg` under the key of `seed`.
pub uninterp spec fn mldsa_signature(seed: Seq<u8>, msg: Seq<u8>) -> Seq<u8>;

/// Whether `sig` is an ML-DSA-65 signature of `msg` that `vk` accepts.
pub uninterp spec fn mldsa_valid(vk: Seq<u8>, msg: Seq<u8>, sig: Seq<u8>) -> bool;

/// `ed25519_dalek::SigningKey::verifying_key`.
#[verifier::external_body]
pub(crate) fn ed25519_public(sk: &[u8; 32]) -> (r: [u8; 32])
    ensures
        r@ == ed25519_vk(sk@),
{
    ed25519_dalek::SigningKey::from_bytes(sk).verifying_key().to_bytes()
}

/// `ed25519_dalek::SigningKey::sign`: 64 bytes that the key's own verifying
/// key accepts.
#[verifier::external_body]
pub(crate) fn ed25519_sign(sk: &[u8; 32], msg: &[u8]) -> (r: Vec<u8>)
    ensures
        r@ == ed25519_signature(sk@, msg@),
        r@.len() == 64,
        ed25519_valid(ed25519_vk(sk@), msg@, r@),
{
    ed25519_dalek::SigningKey::from_bytes(sk).sign(msg).to_bytes().to_vec()
}

/// `ed25519_dalek::VerifyingKey::verify`, with the key and the signature
/// decoded first; what does not decode is not valid.
#[verifier::external_body]
pub(crate) fn ed25519_verify(vk: &[u8; 32], msg: &[u8], sig: &[u8]) -> (r: bool)
    ensures
        r == ed25519_valid(vk@, msg@, sig@),
{
    match (
        ed25519_dalek::VerifyingKey::from_bytes(vk),
        ed25519_dalek::Signature::from_slice(sig),
    ) {
        (Ok(vk), Ok(sig)) => vk.verify(msg, &sig).is_ok(),
        _ => false,
    }
}

/// `ml_dsa::SigningKey::from_seed` and the encoding of its verifying key.
#[verifier::external_body]
pub(crate) fn mldsa_public(seed: &[u8; 32]) -> (r: Vec<u8>)
    ensures
        r@ == mldsa_vk(seed@),
        r@.len() == 1952,
{
    let key = ml_dsa::SigningKey::<ml_dsa::MlDsa65>::from_seed(&(*seed).into());
    ml_dsa::Keypair::verifying_key(&key).encode().to_vec()
}

/// `ml_dsa::SigningKey::sign`, the deterministic variant: 3309 bytes that the
/// key's own verifying key accepts.
#[verifier::external_body]
pub(crate) fn mldsa_sign(seed: &[u8; 32], msg: &[u8]) -> (r: Vec<u8>)
    ensures
        r@ == mldsa_signature(seed@, msg@),
        r@.len() == 3309,
        mldsa_valid(mldsa_vk(seed@), msg@, r@),
{
    let key = ml_dsa::SigningKey::<ml_dsa::MlDsa65>::from_seed(&(*seed).into());
    ml_dsa::Signer::sign(&key, msg).encode().to_vec()
}

/// `ml_dsa::VerifyingKey::verify`, with the key and the signature decoded
/// first; what does not decode is not valid.
#[verifier::external_body]
pub(crate) fn mldsa_verify(vk: &[u8], msg: &[u8], sig: &[u8]) -> (r: bool)
    ensures
        r == mldsa_valid(vk@, msg@, sig@),
{
    match (vk.try_into(), ml_dsa::Signature::<ml_dsa::MlDsa65>::try_from(sig)) {
        (Ok(vk), Ok(sig)) => ml_dsa::Verifier::verify(
            &ml_dsa::VerifyingKey::<ml_dsa::MlDsa65>::decode(&vk),
            msg,
            &sig,
        ).is_ok(),
        _ => false,
    }
}

} // verus!
