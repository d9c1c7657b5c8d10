//! The symmetric building blocks: HKDF, authenticated encryption, Argon2id
//! and HMAC.
use crate::bytes;
use crate::crypto::suite;
use crate::crypto::suite::{
    argon2_costs_ok, argon2_input_ok, argon2id, chacha_open, chacha_seal, drawn_nonce, hkdf_sha256,
    hmac_sha256, opt_view, sealable, MAX_SEALABLE,
};
use crate::error::CryptoError;
use vstd::prelude::*;

verus! {

pub const AEAD_KEY_LEN: usize = 32;

pub const AEAD_NONCE_LEN: usize = 12;

/// Length of the tag at the end of a ciphertext.
pub const AEAD_TAG_LEN: usize = 16;

pub const MAC_LEN: usize = 32;

/// A 32-byte symmetric key.
#[derive(Clone, Debug)]
pub struct SymKey(pub [u8; 32]);

/// A 32-byte MAC key.
#[derive(Clone)]
pub struct MacKey(pub [u8; 32]);

/// Argon2id costs for key derivation.
pub struct Argon2Params {
    /// Memory in KiB.
    pub m_cost: u32,
    /// Iterations.
    pub t_cost: u32,
    /// Parallelism.
    pub p_cost: u32,
}

impl View for SymKey {
    type V = Seq<u8>;

    open spec fn view(&self) -> Seq<u8> {
        self.0@
    }
}

impl View for MacKey {
    type V = Seq<u8>;

    open spec fn view(&self) -> Seq<u8> {
        self.0@
    }
}

impl Default for Argon2Params {
    /// 64 MiB, three passes, one lane.
    fn default() -> (r: Self)
        ensures
            r.m_cost == 65536,
            r.t_cost == 3,
            r.p_cost == 1,
    {
        Argon2Params { m_cost: 65536, t_cost: 3, p_cost: 1 }
    }
}

/// HKDF-SHA256, extract and expand, into all of `out`. Without a salt the
/// all-zero salt is used. More than 255 blocks are refused and `out` is left
/// as it was.
pub fn hkdf_expand(ikm: &[u8], salt: Option<&[u8]>, info: &[u8], out: &mut [u8]) -> (r: Result<
    (),
    CryptoError,
>)
    ensures
        final(out)@.len() == old(out)@.len(),
        old(out)@.len() <= 255 * 32 ==> r is Ok && final(out)@ == hkdf_sha256(
            opt_view(salt),
            ikm@,
            info@,
            old(out)@.len(),
        ),
        old(out)@.len() > 255 * 32 ==> r == Err::<(), _>(CryptoError::HkdfExpand) && final(out)@
            == old(out)@,
{
    if suite::hkdf_fill(salt, ikm, info, out) {
        Ok(())
    } else {
        Err(CryptoError::HkdfExpand)
    }
}

/// 32 bytes of HKDF-SHA256.
pub fn hkdf_32(ikm: &[u8], salt: Option<&[u8]>, info: &[u8]) -> (r: [u8; 32])
    ensures
        r@ == hkdf_sha256(opt_view(salt), ikm@, info@, 32),
{
    let mut out = [0u8;32];
    let _ = hkdf_expand(ikm, salt, info, &mut out);
    out
}

/// 64 bytes of HKDF-SHA256, as two halves.
pub fn hkdf_pair(ikm: &[u8], salt: Option<&[u8]>, info: &[u8]) -> (r: ([u8; 32], [u8; 32]))
    ensures
        r.0@ == hkdf_sha256(opt_view(salt), ikm@, info@, 64).take(32),
        r.1@ == hkdf_sha256(opt_view(salt), ikm@, info@, 64).skip(32),
{
    let mut out = [0u8;64];
    let _ = hkdf_expand(ikm, salt, info, &mut out);
    let a = bytes::array_at::<32>(&out, 0);
    let b = bytes::array_at::<32>(&out, 32);
    assert(a@ =~= out@.take(32));
    assert(b@ =~= out@.skip(32));
    (a, b)
}

/// What encryption puts out: the nonce, then the ciphertext with its tag.
pub open spec fn sealed(key: Seq<u8>, nonce: Seq<u8>, aad: Seq<u8>, plaintext: Seq<u8>) -> Seq<u8> {
    nonce + chacha_seal(key, nonce, aad, plaintext)
}

/// What decryption makes of a nonce with a ciphertext behind it.
pub open spec fn opened(key: Seq<u8>, nonce_and_ct: Seq<u8>, aad: Seq<u8>) -> Option<Seq<u8>> {
    if nonce_and_ct.len() < AEAD_NONCE_LEN + AEAD_TAG_LEN || !sealable(
        (nonce_and_ct.len() - AEAD_NONCE_LEN - AEAD_TAG_LEN) as nat,
    ) {
        None
    } else {
        chacha_open(
            key,
            nonce_and_ct.take(AEAD_NONCE_LEN as int),
            aad,
            nonce_and_ct.skip(AEAD_NONCE_LEN as int),
        )
    }
}

/// Whether `out` is an encryption of `plaintext`, under some nonce: it has the
/// layout, and it opens to `plaintext`.
pub open spec fn seals(key: Seq<u8>, plaintext: Seq<u8>, aad: Seq<u8>, out: Seq<u8>) -> bool {
    &&& exists|nonce: Seq<u8>|
        nonce.len() == AEAD_NONCE_LEN && out == #[trigger] sealed(key, nonce, aad, plaintext)
    &&& out.len() == AEAD_NONCE_LEN + plaintext.len() + AEAD_TAG_LEN
    &&& opened(key, out, aad) == Some(plaintext)
}

/// Encrypts under a given nonce.
pub fn aead_encrypt_with_nonce(key: &SymKey, nonce: &[u8; 12], plaintext: &[u8], aad: &[u8]) -> (r:
    Result<Vec<u8>, CryptoError>)
    ensures
        match r {
            Ok(out) => {
                &&& sealable(plaintext@.len())
                &&& out@ == sealed(key@, nonce@, aad@, plaintext@)
                &&& seals(key@, plaintext@, aad@, out@)
            },
            Err(e) => !sealable(plaintext@.len()) && e == CryptoError::AeadEncrypt,
        },
{
    if plaintext.len() as u64 > MAX_SEALABLE {
        return Err(CryptoError::AeadEncrypt);
    }
    match suite::chacha_encrypt(&key.0, nonce, aad, plaintext) {
        None => Err(CryptoError::AeadEncrypt),
        Some(ct) => {
            let mut out: Vec<u8> = Vec::new();
            bytes::append(&mut out, nonce);
            bytes::append(&mut out, &ct);
            assert(out@ =~= sealed(key@, nonce@, aad@, plaintext@));
            assert(out@.take(12) =~= nonce@);
            assert(out@.skip(12) =~= ct@);
            Ok(out)
        },
    }
}

/// Encrypts under a fresh random nonce, which stands in front of the
/// ciphertext.
pub fn aead_encrypt(key: &SymKey, plaintext: &[u8], aad: &[u8]) -> (r: Result<
    Vec<u8>,
    CryptoError,
>)
    ensures
        match r {
            Ok(out) => {
                &&& sealable(plaintext@.len())
                &&& seals(key@, plaintext@, aad@, out@)
                &&& drawn_nonce(out@.take(AEAD_NONCE_LEN as int))
            },
            Err(e) => !sealable(plaintext@.len()) && e == CryptoError::AeadEncrypt,
        },
{
    let nonce = suite::fresh_nonce();
    let r = aead_encrypt_with_nonce(key, &nonce, plaintext, aad);
    if let Ok(out) = &r {
        assert(out@.take(AEAD_NONCE_LEN as int) =~= nonce@);
    }
    r
}

/// Decrypts a nonce with a ciphertext behind it.
pub fn aead_decrypt(key: &SymKey, nonce_and_ct: &[u8], aad: &[u8]) -> (r: Result<
    Vec<u8>,
    CryptoError,
>)
    ensures
        match r {
            Ok(pt) => opened(key@, nonce_and_ct@, aad@) == Some(pt@) && nonce_and_ct@.len()
                == AEAD_NONCE_LEN + pt@.len() + AEAD_TAG_LEN,
            Err(e) => opened(key@, nonce_and_ct@, aad@) is None && e == CryptoError::AeadDecrypt,
        },
{
    if nonce_and_ct.len() < AEAD_NONCE_LEN + AEAD_TAG_LEN {
        return Err(CryptoError::AeadDecrypt);
    }
    if (nonce_and_ct.len() - AEAD_NONCE_LEN - AEAD_TAG_LEN) as u64 > MAX_SEALABLE {
        return Err(CryptoError::AeadDecrypt);
    }
    let nonce = bytes::array_at::<12>(nonce_and_ct, 0);
    let ct = vstd::slice::slice_subrange(nonce_and_ct, 12, nonce_and_ct.len());
    assert(nonce@ =~= nonce_and_ct@.take(12));
    assert(ct@ =~= nonce_and_ct@.skip(12));
    match suite::chacha_decrypt(&key.0, &nonce, aad, ct) {
        Some(pt) => Ok(pt),
        None => Err(CryptoError::AeadDecrypt),
    }
}

/// Derives a 32-byte key from a passphrase and a salt with Argon2id.
pub fn argon2id_derive(passphrase: &[u8], salt: &[u8], params: &Argon2Params) -> (r: Result<
    SymKey,
    CryptoError,
>)
    ensures
        match r {
            Ok(k) => {
                &&& argon2_costs_ok(params.m_cost, params.t_cost, params.p_cost)
                &&& argon2_input_ok(passphrase@, salt@)
                &&& k@ == argon2id(
                    passphrase@,
                    salt@,
                    params.m_cost,
                    params.t_cost,
                    params.p_cost,
                )
            },
            Err(e) => if argon2_costs_ok(params.m_cost, params.t_cost, params.p_cost) {
                !argon2_input_ok(passphrase@, salt@) && e == CryptoError::Argon2Hash
            } else {
                e == CryptoError::Argon2Params
            },
        },
{
    if params.p_cost > 0xff_ffff || !suite::argon2_takes(
        params.m_cost,
        params.t_cost,
        params.p_cost,
    ) {
        return Err(CryptoError::Argon2Params);
    }
    match suite::argon2id_key(passphrase, salt, params.m_cost, params.t_cost, params.p_cost) {
        Some(k) => Ok(SymKey(k)),
        None => Err(CryptoError::Argon2Hash),
    }
}

/// The HMAC-SHA256 tag of `data`.
pub fn hmac_sign(key: &MacKey, data: &[u8]) -> (r: [u8; 32])
    ensures
        r@ == hmac_sha256(key@, data@),
{
    suite::hmac_tag(&key.0, data)
}

/// Whether `tag` is the HMAC-SHA256 tag of `data`, in constant time.
pub fn hmac_verify(key: &MacKey, data: &[u8], tag: &[u8; 32]) -> (r: bool)
    ensures
        r == (tag@ == hmac_sha256(key@, data@)),
{
    suite::hmac_matches(&key.0, data, tag)
}

/// The HMAC-SHA256 tag of `data` under raw key bytes.
pub fn hmac_sign_raw(key: &[u8; 32], data: &[u8]) -> (r: [u8; 32])
    ensures
        r@ == hmac_sha256(key@, data@),
{
    suite::hmac_tag(key, data)
}

/// Whether `tag` is the HMAC-SHA256 tag of `data` under raw key bytes, in
/// constant time.
pub fn hmac_verify_raw(key: &[u8; 32], data: &[u8], tag: &[u8; 32]) -> (r: bool)
    ensures
        r == (tag@ == hmac_sha256(key@, data@)),
{
    suite::hmac_matches(key, data, tag)
}

} // verus!
