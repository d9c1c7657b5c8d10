//! Hybrid key pairs, the public bundle that contacts exchange, hybrid
//! signatures and the hybrid key encapsulation. Every hybrid pairs a classical
//! algorithm with a post-quantum one, and breaking either alone is not enough.
use crate::bytes;
use crate::codec::{models, put_list, Record};
use crate::crypto::primitives::{hkdf_32, SymKey};
use crate::crypto::suite;
use crate::crypto::suite::{
    drawn_32, drawn_mlkem, ed25519_signature, ed25519_valid, ed25519_vk, hkdf_sha256,
    mldsa_signature, mldsa_valid, mldsa_vk, mlkem_ek, mlkem_encap, mlkem_reduced, mlkem_shared,
    sha256, x25519, x25519_base, MLKEM_CT_LEN, MLKEM_DK_LEN, MLKEM_EK_LEN,
};
use crate::error::CryptoError;
use crate::text;
use vstd::prelude::*;
use vstd::string::StringSliceAdditionalSpecFns;

verus! {

/// Length of a serialised KEM key pair.
pub const KEM_BYTES: usize = 2432;

/// Length of a serialised signing key pair.
pub const SIGNING_BYTES: usize = 64;

/// X25519 and ML-KEM-768 key pair for key exchange.
pub struct HybridKemKeypair {
    pub x25519_secret: [u8; 32],
    pub x25519_public: [u8; 32],
    /// Encoded decapsulation key.
    pub mlkem_dk: Vec<u8>,
    /// Encoded encapsulation key.
    pub mlkem_ek: Vec<u8>,
}

impl HybridKemKeypair {
    /// The public halves belong to the secret ones.
    pub open spec fn wf(&self) -> bool {
        &&& self.x25519_public@ == x25519_base(self.x25519_secret@)
        &&& self.mlkem_dk@.len() == MLKEM_DK_LEN
        &&& mlkem_reduced(self.mlkem_dk@) == self.mlkem_dk@
        &&& self.mlkem_ek@ == mlkem_ek(self.mlkem_dk@)
        &&& self.mlkem_ek@.len() == MLKEM_EK_LEN
    }

    /// The serialised form.
    pub open spec fn bytes(&self) -> Seq<u8> {
        self.x25519_secret@ + self.mlkem_dk@
    }

    /// Whether this is the key pair that the serialised form `b` stands for.
    pub open spec fn read_from(&self, b: Seq<u8>) -> bool {
        &&& b.len() == KEM_BYTES
        &&& self.wf()
        &&& self.x25519_secret@ == b.take(32)
        &&& self.mlkem_dk@ == mlkem_reduced(b.skip(32))
    }

    /// The key pair of two secrets.
    fn from_secrets(x25519_secret: [u8; 32], dk: &[u8; 2400]) -> (r: Self)
        ensures
            r.wf(),
            r.x25519_secret@ == x25519_secret@,
            r.mlkem_dk@ == mlkem_reduced(dk@),
            r.mlkem_ek@ == mlkem_ek(dk@),
    {
        let x25519_public = suite::x25519_public(&x25519_secret);
        let (mlkem_dk, mlkem_ek) = suite::mlkem_decode(dk);
        HybridKemKeypair { x25519_secret, x25519_public, mlkem_dk, mlkem_ek }
    }

    /// Whether both secrets came from the generator.
    pub open spec fn drawn(&self) -> bool {
        drawn_32(self.x25519_secret@) && drawn_mlkem(self.mlkem_dk@)
    }

    /// A fresh random key pair.
    pub fn generate() -> (r: Self)
        ensures
            r.wf(),
            r.drawn(),
    {
        let secret = suite::fresh_32();
        let generated = suite::mlkem_generate();
        let dk = bytes::array_at::<2400>(&generated, 0);
        assert(dk@ =~= generated@);
        Self::from_secrets(secret, &dk)
    }

    /// The encapsulation (public) key for contact codes.
    pub fn mlkem_ek_bytes(&self) -> (r: Vec<u8>)
        ensures
            r@ == self.mlkem_ek@,
    {
        bytes::copied(&self.mlkem_ek)
    }

    /// X25519 secret, then the ML-KEM decapsulation key.
    pub fn to_bytes(&self) -> (r: Vec<u8>)
        ensures
            r@ == self.bytes(),
    {
        let mut out: Vec<u8> = Vec::new();
        bytes::append(&mut out, &self.x25519_secret);
        bytes::append(&mut out, &self.mlkem_dk);
        assert(out@ =~= self.bytes());
        out
    }

    /// Rebuilds a key pair from what [`HybridKemKeypair::to_bytes`] wrote.
    pub fn from_bytes(b: &[u8]) -> (r: Result<Self, CryptoError>)
        ensures
            match r {
                Ok(k) => k.read_from(b@),
                Err(e) => b@.len() != KEM_BYTES && e == CryptoError::KeyParse,
            },
    {
        if b.len() != KEM_BYTES {
            return Err(CryptoError::KeyParse);
        }
        let secret = bytes::array_at::<32>(b, 0);
        let dk = bytes::array_at::<2400>(b, 32);
        assert(secret@ =~= b@.take(32));
        assert(dk@ =~= b@.skip(32));
        Ok(Self::from_secrets(secret, &dk))
    }
}

/// A key pair that is written and read back is the same key pair.
pub proof fn kem_bytes_round_trip(k: HybridKemKeypair, back: HybridKemKeypair)
    requires
        k.wf(),
        back.read_from(k.bytes()),
    ensures
        back.x25519_secret == k.x25519_secret,
        back.x25519_public == k.x25519_public,
        back.mlkem_dk@ == k.mlkem_dk@,
        back.mlkem_ek@ == k.mlkem_ek@,
{
    assert(k.bytes().take(32) =~= k.x25519_secret@);
    assert(k.bytes().skip(32) =~= k.mlkem_dk@);
    assert(back.x25519_secret =~= k.x25519_secret);
    assert(back.x25519_public =~= k.x25519_public);
}

/// Ed25519 and ML-DSA-65 signing key pair.
pub struct HybridSigningKeypair {
    pub ed25519_sk: [u8; 32],
    pub ed25519_vk: [u8; 32],
    /// The seed that the ML-DSA key pair is derived from.
    pub mldsa_seed: [u8; 32],
    /// Encoded ML-DSA verifying key.
    pub mldsa_vk: Vec<u8>,
}

impl HybridSigningKeypair {
    /// The public halves belong to the secret ones.
    pub open spec fn wf(&self) -> bool {
        &&& self.ed25519_vk@ == ed25519_vk(self.ed25519_sk@)
        &&& self.mldsa_vk@ == mldsa_vk(self.mldsa_seed@)
    }

    /// The serialised form.
    pub open spec fn bytes(&self) -> Seq<u8> {
        self.ed25519_sk@ + self.mldsa_seed@
    }

    /// Whether this is the key pair that the serialised form `b` stands for.
    pub open spec fn read_from(&self, b: Seq<u8>) -> bool {
        &&& b.len() == SIGNING_BYTES
        &&& self.wf()
        &&& self.ed25519_sk@ == b.take(32)
        &&& self.mldsa_seed@ == b.skip(32)
    }

    /// The key pair of two secrets.
    fn from_secrets(ed25519_sk: [u8; 32], mldsa_seed: [u8; 32]) -> (r: Self)
        ensures
            r.wf(),
            r.ed25519_sk == ed25519_sk,
            r.mldsa_seed == mldsa_seed,
    {
        let ed25519_vk = suite::ed25519_public(&ed25519_sk);
        let mldsa_vk = suite::mldsa_public(&mldsa_seed);
        HybridSigningKeypair { ed25519_sk, ed25519_vk, mldsa_seed, mldsa_vk }
    }

    /// Whether both secrets came from the generator.
    pub open spec fn drawn(&self) -> bool {
        drawn_32(self.ed25519_sk@) && drawn_32(self.mldsa_seed@)
    }

    /// A fresh random key pair.
    pub fn generate() -> (r: Self)
        ensures
            r.wf(),
            r.drawn(),
    {
        let ed25519_sk = suite::fresh_32();
        let mldsa_seed = suite::fresh_32();
        Self::from_secrets(ed25519_sk, mldsa_seed)
    }

    /// Ed25519 secret key, then the ML-DSA seed.
    pub fn to_bytes(&self) -> (r: Vec<u8>)
        ensures
            r@ == self.bytes(),
    {
        let mut out: Vec<u8> = Vec::new();
        bytes::append(&mut out, &self.ed25519_sk);
        bytes::append(&mut out, &self.mldsa_seed);
        assert(out@ =~= self.bytes());
        out
    }

    /// Rebuilds a key pair from what [`HybridSigningKeypair::to_bytes`] wrote.
    pub fn from_bytes(b: &[u8]) -> (r: Result<Self, CryptoError>)
        ensures
            match r {
                Ok(k) => k.read_from(b@),
                Err(e) => b@.len() != SIGNING_BYTES && e == CryptoError::KeyParse,
            },
    {
        if b.len() != SIGNING_BYTES {
            return Err(CryptoError::KeyParse);
        }
        let sk = bytes::array_at::<32>(b, 0);
        let seed = bytes::array_at::<32>(b, 32);
        assert(sk@ =~= b@.take(32));
        assert(seed@ =~= b@.skip(32));
        Ok(Self::from_secrets(sk, seed))
    }
}

/// A signing key pair that is written and read back is the same key pair.
pub proof fn signing_bytes_round_trip(k: HybridSigningKeypair, back: HybridSigningKeypair)
    requires
        k.wf(),
        back.read_from(k.bytes()),
    ensures
        back.ed25519_sk == k.ed25519_sk,
        back.ed25519_vk == k.ed25519_vk,
        back.mldsa_seed == k.mldsa_seed,
        back.mldsa_vk@ == k.mldsa_vk@,
{
    assert(k.bytes().take(32) =~= k.ed25519_sk@);
    assert(k.bytes().skip(32) =~= k.mldsa_seed@);
    assert(back.ed25519_sk =~= k.ed25519_sk);
    assert(back.mldsa_seed =~= k.mldsa_seed);
    assert(back.ed25519_vk =~= k.ed25519_vk);
}

/// Every public key of a party, with the address it is reached at. This is
/// what contact codes carry.
#[derive(Debug, Clone)]
pub struct PublicKeyBundle {
    pub version: u8,
    pub nym_address: String,
    pub x25519_pub: [u8; 32],
    /// ML-KEM-768 encapsulation key.
    pub mlkem_ek: Vec<u8>,
    pub ed25519_vk: [u8; 32],
    /// ML-DSA-65 verifying key.
    pub mldsa_vk: Vec<u8>,
    /// X25519 public key that starts the double ratchet, apart from the KEM
    /// key.
    pub ratchet_pub: [u8; 32],
    /// One-time prekeys.
    pub opk_pubs: Vec<[u8; 32]>,
    /// The short names of the one-time prekeys, in the same order.
    pub opk_ids: Vec<[u8; 4]>,
}

/// What a [`PublicKeyBundle`] means.
#[verifier::ext_equal]
pub struct BundleView {
    pub version: u8,
    pub nym_address: Seq<char>,
    pub x25519_pub: Seq<u8>,
    pub mlkem_ek: Seq<u8>,
    pub ed25519_vk: Seq<u8>,
    pub mldsa_vk: Seq<u8>,
    pub ratchet_pub: Seq<u8>,
    pub opk_pubs: Seq<Seq<u8>>,
    pub opk_ids: Seq<Seq<u8>>,
}

/// The fields of a bundle, in the order of its record.
pub type BundleRecord = (
    u8,
    (
        String,
        ([u8; 32], (Vec<u8>, ([u8; 32], (Vec<u8>, ([u8; 32], (Vec<[u8; 32]>, Vec<[u8; 4]>)))))),
    ),
);

impl View for PublicKeyBundle {
    type V = BundleView;

    open spec fn view(&self) -> BundleView {
        BundleView {
            version: self.version,
            nym_address: self.nym_address@,
            x25519_pub: self.x25519_pub@,
            mlkem_ek: self.mlkem_ek@,
            ed25519_vk: self.ed25519_vk@,
            mldsa_vk: self.mldsa_vk@,
            ratchet_pub: self.ratchet_pub@,
            opk_pubs: models(self.opk_pubs@),
            opk_ids: models(self.opk_ids@),
        }
    }
}

impl BundleView {
    /// The fields in the order of the record.
    pub open spec fn fields(self) -> <BundleRecord as Record>::Model {
        (
            self.version,
            (
                self.nym_address,
                (
                    self.x25519_pub,
                    (
                        self.mlkem_ek,
                        (
                            self.ed25519_vk,
                            (self.mldsa_vk, (self.ratchet_pub, (self.opk_pubs, self.opk_ids))),
                        ),
                    ),
                ),
            ),
        )
    }

    /// The bundle of the fields of a record.
    pub open spec fn of_fields(f: <BundleRecord as Record>::Model) -> BundleView {
        BundleView {
            version: f.0,
            nym_address: f.1.0,
            x25519_pub: f.1.1.0,
            mlkem_ek: f.1.1.1.0,
            ed25519_vk: f.1.1.1.1.0,
            mldsa_vk: f.1.1.1.1.1.0,
            ratchet_pub: f.1.1.1.1.1.1.0,
            opk_pubs: f.1.1.1.1.1.1.1.0,
            opk_ids: f.1.1.1.1.1.1.1.1,
        }
    }

    /// The record of the bundle.
    pub open spec fn bytes(self) -> Seq<u8> {
        BundleRecord::put_spec(self.fields())
    }

    /// The key material that the fingerprint covers.
    pub open spec fn fingerprint_input(self) -> Seq<u8> {
        self.x25519_pub + self.mlkem_ek + self.ed25519_vk + self.mldsa_vk + self.ratchet_pub
    }

    /// The fingerprint shown for out-of-band verification.
    pub open spec fn fingerprint(self) -> Seq<char> {
        grouped_hex(sha256(self.fingerprint_input()))
    }
}

impl Record for PublicKeyBundle {
    type Model = BundleView;

    open spec fn model(&self) -> BundleView {
        self@
    }

    open spec fn put_spec(m: BundleView) -> Seq<u8> {
        m.bytes()
    }

    open spec fn take_spec(b: Seq<u8>) -> Option<(BundleView, Seq<u8>)> {
        match BundleRecord::take_spec(b) {
            Some((f, rest)) => Some((BundleView::of_fields(f), rest)),
            None => None,
        }
    }

    open spec fn fits(m: BundleView) -> bool {
        BundleRecord::fits(m.fields())
    }

    fn put(&self, out: &mut Vec<u8>) {
        self.version.put(out);
        self.nym_address.put(out);
        self.x25519_pub.put(out);
        self.mlkem_ek.put(out);
        self.ed25519_vk.put(out);
        self.mldsa_vk.put(out);
        self.ratchet_pub.put(out);
        put_list(out, &self.opk_pubs);
        put_list(out, &self.opk_ids);
        assert(out@ =~= old(out)@ + self@.bytes());
    }

    fn take(b: &[u8]) -> (r: Option<(Self, &[u8])>) {
        match BundleRecord::take(b) {
            Some((f, rest)) => {
                let (
                    version,
                    (
                        nym_address,
                        (
                            x25519_pub,
                            (
                                mlkem_ek,
                                (ed25519_vk, (mldsa_vk, (ratchet_pub, (opk_pubs, opk_ids)))),
                            ),
                        ),
                    ),
                ) = f;
                Some(
                    (
                        PublicKeyBundle {
                            version,
                            nym_address,
                            x25519_pub,
                            mlkem_ek,
                            ed25519_vk,
                            mldsa_vk,
                            ratchet_pub,
                            opk_pubs,
                            opk_ids,
                        },
                        rest,
                    ),
                )
            },
            None => None,
        }
    }

    proof fn round_trip(m: BundleView, rest: Seq<u8>) {
        BundleRecord::round_trip(m.fields(), rest);
    }
}

/// Lower-case hexadecimal in groups of four digits with colons between them.
pub open spec fn grouped_hex(d: Seq<u8>) -> Seq<char> {
    Seq::new(
        if d.len() < 2 {
            0
        } else {
            (5 * (d.len() / 2) - 1) as nat
        },
        |k: int|
            if k % 5 == 4 {
                ':'
            } else {
                text::hex_text(d)[4 * (k / 5) + k % 5]
            },
    )
}

/// A fingerprint keeps every byte of its digest: each is read back from its two
/// digits, and every fifth character is a colon.
pub proof fn fingerprints_are_read_back(d: Seq<u8>)
    requires
        d.len() == 32,
    ensures
        grouped_hex(d).len() == 79,
        forall|k: int| 0 <= k < 79 && k % 5 == 4 ==> #[trigger] grouped_hex(d)[k] == ':',
        forall|i: int|
            0 <= i < 32 ==> text::hex_value(grouped_hex(d)[2 * i + i / 2]) * 16 + text::hex_value(
                grouped_hex(d)[2 * i + i / 2 + 1],
            ) == #[trigger] d[i],
{
    text::hex_is_read_back(d);
    let g = grouped_hex(d);
    assert forall|i: int| 0 <= i < 32 implies text::hex_value(g[2 * i + i / 2]) * 16
        + text::hex_value(g[2 * i + i / 2 + 1]) == #[trigger] d[i] by {
        let k = 2 * i + i / 2;
        assert(k / 5 == i / 2 && k % 5 == 2 * (i % 2));
        assert((k + 1) / 5 == i / 2 && (k + 1) % 5 == 2 * (i % 2) + 1);
        assert(4 * (k / 5) + k % 5 == 2 * i);
        assert(4 * ((k + 1) / 5) + (k + 1) % 5 == 2 * i + 1);
        assert(g[k] == text::hex_text(d)[2 * i]);
        assert(g[k + 1] == text::hex_text(d)[2 * i + 1]);
    }
}

/// The fingerprint covers every key: two bundles with keys of the same sizes
/// give the same input only where all their keys are the same.
pub proof fn fingerprint_covers_every_key(a: BundleView, b: BundleView)
    requires
        a.x25519_pub.len() == b.x25519_pub.len(),
        a.mlkem_ek.len() == b.mlkem_ek.len(),
        a.ed25519_vk.len() == b.ed25519_vk.len(),
        a.mldsa_vk.len() == b.mldsa_vk.len(),
        a.fingerprint_input() == b.fingerprint_input(),
    ensures
        a.x25519_pub == b.x25519_pub,
        a.mlkem_ek == b.mlkem_ek,
        a.ed25519_vk == b.ed25519_vk,
        a.mldsa_vk == b.mldsa_vk,
        a.ratchet_pub == b.ratchet_pub,
{
    let s = a.fingerprint_input();
    let t = b.fingerprint_input();
    let i = a.x25519_pub.len() as int;
    let j = i + a.mlkem_ek.len();
    let k = j + a.ed25519_vk.len();
    let l = k + a.mldsa_vk.len();
    assert(a.x25519_pub =~= s.subrange(0, i));
    assert(b.x25519_pub =~= t.subrange(0, i));
    assert(a.mlkem_ek =~= s.subrange(i, j));
    assert(b.mlkem_ek =~= t.subrange(i, j));
    assert(a.ed25519_vk =~= s.subrange(j, k));
    assert(b.ed25519_vk =~= t.subrange(j, k));
    assert(a.mldsa_vk =~= s.subrange(k, l));
    assert(b.mldsa_vk =~= t.subrange(k, l));
    assert(a.ratchet_pub =~= s.skip(l));
    assert(b.ratchet_pub =~= t.skip(l));
}

/// Writes a digest in groups of four hexadecimal digits.
fn write_grouped_hex(d: &[u8; 32]) -> (r: String)
    ensures
        r@ == grouped_hex(d@),
{
    let mut out = String::new();
    let mut i: usize = 0;
    while i < 16
        invariant
            i <= 16,
            out@.len() == (if i == 0 { 0 } else { 5 * i - 1 }),
            forall|k: int| 0 <= k < out@.len() ==> out@[k] == #[trigger] grouped_hex(d@)[k],
        decreases 16 - i,
    {
        if i > 0 {
            out.push(':');
        }
        let a: u8 = d[2 * i];
        let b: u8 = d[2 * i + 1];
        out.push(text::hex_digit(a / 16));
        out.push(text::hex_digit(a % 16));
        out.push(text::hex_digit(b / 16));
        out.push(text::hex_digit(b % 16));
        i = i + 1;
    }
    assert(out@ =~= grouped_hex(d@));
    out
}

impl PublicKeyBundle {
    /// The bundle of our key pairs, with one-time prekeys.
    pub fn from_keypairs_with_opks(
        kem: &HybridKemKeypair,
        signing: &HybridSigningKeypair,
        ratchet_pub: [u8; 32],
        nym_address: String,
        opk_pubs: Vec<[u8; 32]>,
        opk_ids: Vec<[u8; 4]>,
    ) -> (r: Self)
        ensures
            r@ == (BundleView {
                version: 1,
                nym_address: nym_address@,
                x25519_pub: kem.x25519_public@,
                mlkem_ek: kem.mlkem_ek@,
                ed25519_vk: signing.ed25519_vk@,
                mldsa_vk: signing.mldsa_vk@,
                ratchet_pub: ratchet_pub@,
                opk_pubs: models(opk_pubs@),
                opk_ids: models(opk_ids@),
            }),
    {
        PublicKeyBundle {
            version: 1,
            nym_address,
            x25519_pub: kem.x25519_public,
            mlkem_ek: kem.mlkem_ek_bytes(),
            ed25519_vk: signing.ed25519_vk,
            mldsa_vk: bytes::copied(&signing.mldsa_vk),
            ratchet_pub,
            opk_pubs,
            opk_ids,
        }
    }

    /// The bundle of our key pairs, without one-time prekeys.
    pub fn from_keypairs(
        kem: &HybridKemKeypair,
        signing: &HybridSigningKeypair,
        ratchet_pub: [u8; 32],
        nym_address: String,
    ) -> (r: Self)
        ensures
            r@ == bundle_of(*kem, *signing, ratchet_pub@, nym_address@),
    {
        let r = Self::from_keypairs_with_opks(
            kem,
            signing,
            ratchet_pub,
            nym_address,
            Vec::new(),
            Vec::new(),
        );
        assert(r@ =~= bundle_of(*kem, *signing, ratchet_pub@, nym_address@));
        r
    }

    /// SHA-256 over all key material, for out-of-band verification: groups of
    /// four hexadecimal digits with colons between them.
    pub fn fingerprint(&self) -> (r: String)
        ensures
            r@ == self@.fingerprint(),
    {
        write_grouped_hex(&self.digest())
    }

    /// SHA-256 over all key material.
    pub fn digest(&self) -> (r: [u8; 32])
        ensures
            r@ == sha256(self@.fingerprint_input()),
    {
        let mut input: Vec<u8> = Vec::new();
        bytes::append(&mut input, &self.x25519_pub);
        bytes::append(&mut input, &self.mlkem_ek);
        bytes::append(&mut input, &self.ed25519_vk);
        bytes::append(&mut input, &self.mldsa_vk);
        bytes::append(&mut input, &self.ratchet_pub);
        assert(input@ =~= self@.fingerprint_input());
        suite::sha256_digest(&input)
    }

    /// The record of the bundle.
    pub fn to_bytes(&self) -> (r: Vec<u8>)
        ensures
            r@ == self@.bytes(),
            PublicKeyBundle::fits(self@),
    {
        let mut out: Vec<u8> = Vec::new();
        self.put(&mut out);
        assert(out@ =~= self@.bytes());
        out
    }

    /// A copy with the same keys and address.
    pub fn copy(&self) -> (r: Self)
        ensures
            r@ == self@,
    {
        PublicKeyBundle {
            version: self.version,
            nym_address: self.nym_address.clone(),
            x25519_pub: self.x25519_pub,
            mlkem_ek: bytes::copied(&self.mlkem_ek),
            ed25519_vk: self.ed25519_vk,
            mldsa_vk: bytes::copied(&self.mldsa_vk),
            ratchet_pub: self.ratchet_pub,
            opk_pubs: vstd::slice::slice_to_vec(&self.opk_pubs),
            opk_ids: vstd::slice::slice_to_vec(&self.opk_ids),
        }
    }
}

/// The bundle of two key pairs without one-time prekeys.
pub open spec fn bundle_of(
    kem: HybridKemKeypair,
    signing: HybridSigningKeypair,
    ratchet_pub: Seq<u8>,
    nym_address: Seq<char>,
) -> BundleView {
    BundleView {
        version: 1,
        nym_address,
        x25519_pub: kem.x25519_public@,
        mlkem_ek: kem.mlkem_ek@,
        ed25519_vk: signing.ed25519_vk@,
        mldsa_vk: signing.mldsa_vk@,
        ratchet_pub,
        opk_pubs: seq![],
        opk_ids: seq![],
    }
}

/// An Ed25519 and an ML-DSA-65 signature. Both must be valid.
#[derive(Debug, Clone)]
pub struct HybridSignature {
    pub ed25519: Vec<u8>,
    pub mldsa: Vec<u8>,
}

/// Whether both halves of a signature are valid under a bundle's keys.
pub open spec fn hybrid_valid(
    ed_vk: Seq<u8>,
    dsa_vk: Seq<u8>,
    message: Seq<u8>,
    ed25519: Seq<u8>,
    mldsa: Seq<u8>,
) -> bool {
    ed25519_valid(ed_vk, message, ed25519) && mldsa_valid(dsa_vk, message, mldsa)
}

/// Signs with both keys. The result verifies under the keys' own bundle.
pub fn hybrid_sign(keypair: &HybridSigningKeypair, message: &[u8]) -> (r: HybridSignature)
    requires
        keypair.wf(),
    ensures
        r.ed25519@ == ed25519_signature(keypair.ed25519_sk@, message@),
        r.mldsa@ == mldsa_signature(keypair.mldsa_seed@, message@),
        hybrid_valid(keypair.ed25519_vk@, keypair.mldsa_vk@, message@, r.ed25519@, r.mldsa@),
{
    HybridSignature {
        ed25519: suite::ed25519_sign(&keypair.ed25519_sk, message),
        mldsa: suite::mldsa_sign(&keypair.mldsa_seed, message),
    }
}

/// Accepts a signature only where both halves are valid.
pub fn hybrid_verify(bundle: &PublicKeyBundle, message: &[u8], sig: &HybridSignature) -> (r: Result<
    (),
    CryptoError,
>)
    ensures
        match r {
            Ok(()) => hybrid_valid(
                bundle.ed25519_vk@,
                bundle.mldsa_vk@,
                message@,
                sig.ed25519@,
                sig.mldsa@,
            ),
            Err(e) => !hybrid_valid(
                bundle.ed25519_vk@,
                bundle.mldsa_vk@,
                message@,
                sig.ed25519@,
                sig.mldsa@,
            ) && e == CryptoError::SigVerify,
        },
{
    if !suite::ed25519_verify(&bundle.ed25519_vk, message, &sig.ed25519) {
        return Err(CryptoError::SigVerify);
    }
    if !suite::mldsa_verify(&bundle.mldsa_vk, message, &sig.mldsa) {
        return Err(CryptoError::SigVerify);
    }
    Ok(())
}

/// What encapsulation sends to the peer. The X25519 half needs no ciphertext.
#[derive(Debug, Clone)]
pub struct HybridKemCiphertext {
    pub mlkem_ct: Vec<u8>,
}

/// The hybrid shared secret: both shared secrets through HKDF.
pub open spec fn hybrid_secret(x25519_ss: Seq<u8>, mlkem_ss: Seq<u8>) -> Seq<u8> {
    hkdf_sha256(None, x25519_ss + mlkem_ss, "op4-hybrid-kem-v1".spec_bytes(), 32)
}

fn combine_secrets(x25519_ss: &[u8; 32], mlkem_ss: &[u8; 32]) -> (r: SymKey)
    ensures
        r@ == hybrid_secret(x25519_ss@, mlkem_ss@),
{
    let mut ikm: Vec<u8> = Vec::new();
    bytes::append(&mut ikm, x25519_ss);
    bytes::append(&mut ikm, mlkem_ss);
    assert(ikm@ =~= x25519_ss@ + mlkem_ss@);
    SymKey(hkdf_32(&ikm, None, "op4-hybrid-kem-v1".as_bytes()))
}

/// The hybrid secret toward a peer, once ML-KEM has encapsulated to `mlkem_ss`.
pub fn hybrid_kem_combine(
    peer_bundle: &PublicKeyBundle,
    our_x25519_secret: &[u8; 32],
    mlkem_ss: &[u8; 32],
) -> (r: SymKey)
    ensures
        r@ == hybrid_secret(x25519(our_x25519_secret@, peer_bundle.x25519_pub@), mlkem_ss@),
        forall|peer: Seq<u8>|
            peer.len() == 32 && peer_bundle.x25519_pub@ == #[trigger] x25519_base(peer) ==> r@
                == hybrid_secret(x25519(peer, x25519_base(our_x25519_secret@)), mlkem_ss@),
{
    let x25519_ss = suite::x25519_shared(our_x25519_secret, &peer_bundle.x25519_pub);
    combine_secrets(&x25519_ss, mlkem_ss)
}

/// Derives a shared secret toward `peer_bundle`: a Diffie-Hellman with our
/// secret, and an encapsulation to the peer's ML-KEM key.
pub fn hybrid_kem_encapsulate(peer_bundle: &PublicKeyBundle, our_x25519_secret: &[u8; 32]) -> (r:
    Result<(HybridKemCiphertext, SymKey), CryptoError>)
    ensures
        match r {
            Ok((ct, key)) => {
                &&& peer_bundle.mlkem_ek@.len() == MLKEM_EK_LEN
                &&& ct.mlkem_ct@.len() == MLKEM_CT_LEN
                &&& exists|m: Seq<u8>|
                    {
                        &&& m.len() == 32
                        &&& ct.mlkem_ct@ == (#[trigger] mlkem_encap(peer_bundle.mlkem_ek@, m)).0
                        &&& key@ == hybrid_secret(
                            x25519(our_x25519_secret@, peer_bundle.x25519_pub@),
                            mlkem_encap(peer_bundle.mlkem_ek@, m).1,
                        )
                    }
            },
            Err(e) => peer_bundle.mlkem_ek@.len() != MLKEM_EK_LEN && e == CryptoError::KeyParse,
        },
{
    match suite::mlkem_encapsulate(&peer_bundle.mlkem_ek) {
        None => Err(CryptoError::KeyParse),
        Some((mlkem_ct, mlkem_ss)) => {
            let key = hybrid_kem_combine(peer_bundle, our_x25519_secret, &mlkem_ss);
            Ok((HybridKemCiphertext { mlkem_ct }, key))
        },
    }
}

/// Recovers the shared secret from what the peer sent.
pub fn hybrid_kem_decapsulate(
    our_kem: &HybridKemKeypair,
    peer_x25519_pub: &[u8; 32],
    ct: &HybridKemCiphertext,
) -> (r: Result<SymKey, CryptoError>)
    requires
        our_kem.wf(),
    ensures
        match r {
            Ok(key) => ct.mlkem_ct@.len() == MLKEM_CT_LEN && key@ == hybrid_secret(
                x25519(our_kem.x25519_secret@, peer_x25519_pub@),
                mlkem_shared(our_kem.mlkem_dk@, ct.mlkem_ct@),
            ),
            Err(e) => ct.mlkem_ct@.len() != MLKEM_CT_LEN && e == CryptoError::KeyParse,
        },
{
    if ct.mlkem_ct.len() != MLKEM_CT_LEN {
        return Err(CryptoError::KeyParse);
    }
    let x25519_ss = suite::x25519_shared(&our_kem.x25519_secret, peer_x25519_pub);
    let dk = bytes::array_at::<2400>(&our_kem.mlkem_dk, 0);
    let ct_bytes = bytes::array_at::<1088>(&ct.mlkem_ct, 0);
    assert(dk@ =~= our_kem.mlkem_dk@);
    assert(ct_bytes@ =~= ct.mlkem_ct@);
    let mlkem_ss = suite::mlkem_decapsulate(&dk, &ct_bytes);
    Ok(combine_secrets(&x25519_ss, &mlkem_ss))
}

} // verus!
