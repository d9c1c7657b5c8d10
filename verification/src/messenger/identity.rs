//! Our own keys, as the vault holds them.
use crate::bytes;
use crate::codec::Record;
use crate::crypto::keys::{
    BundleView, HybridKemKeypair, HybridSigningKeypair, PublicKeyBundle, KEM_BYTES, SIGNING_BYTES,
};
use crate::crypto::suite;
use crate::crypto::suite::{
    drawn_32, drawn_mlkem, ed25519_vk, mldsa_vk, mlkem_ek, mlkem_reduced, sha256, x25519_base,
};
use crate::error::{IdentityError, VaultError};
use crate::identity::profile::{
    base58_text, bootstrap_read, contact_read, BootstrapCode, BootstrapView, ContactCode,
};
use crate::crypto::primitives::Argon2Params;
use crate::storage::payload::{PayloadView, VaultPayload};
use crate::storage::vault::{
    derive_error, lemma_label_len, opens_decoy, saved_vault_keeps_decoy, saved_vault_unlocks,
    unlock_spec, SavedVault, VaultUnlocked, VaultView,
};
use vstd::prelude::*;
use vstd::utf8::encode_utf8;

verus! {

impl PayloadView {
    /// Whether there is a KEM key pair.
    pub open spec fn has_kem(self) -> bool {
        self.identity_kem_secret.len() == KEM_BYTES
    }

    /// Whether there is a signing key pair.
    pub open spec fn has_signing(self) -> bool {
        self.identity_signing_secret.len() == SIGNING_BYTES
    }

    /// Our X25519 identity secret.
    pub open spec fn x25519_secret(self) -> Seq<u8> {
        self.identity_kem_secret.take(32)
    }

    /// Our ML-KEM decapsulation key.
    pub open spec fn mlkem_dk(self) -> Seq<u8> {
        mlkem_reduced(self.identity_kem_secret.skip(32))
    }

    /// The secret that sessions with us start from: the dedicated one, or the
    /// X25519 identity secret where there is none.
    pub open spec fn ratchet_secret(self) -> Option<Seq<u8>> {
        if self.identity_ratchet_secret.len() == 32 {
            Some(self.identity_ratchet_secret)
        } else if self.has_kem() {
            Some(self.x25519_secret())
        } else {
            None
        }
    }

    /// Our bundle at an address.
    pub open spec fn bundle_at(self, nym_address: Seq<char>) -> BundleView {
        BundleView {
            version: 1,
            nym_address,
            x25519_pub: x25519_base(self.x25519_secret()),
            mlkem_ek: mlkem_ek(self.mlkem_dk()),
            ed25519_vk: ed25519_vk(self.identity_signing_secret.take(32)),
            mldsa_vk: mldsa_vk(self.identity_signing_secret.skip(32)),
            ratchet_pub: x25519_base(self.ratchet_secret()->0),
            opk_pubs: seq![],
            opk_ids: seq![],
        }
    }

    /// Our bundle, once there are keys.
    pub open spec fn our_bundle(self) -> Option<BundleView> {
        if self.has_kem() && self.has_signing() {
            Some(self.bundle_at(self.nym_address))
        } else {
            None
        }
    }
}

/// A dedicated ratchet secret is the one that sessions start from, whatever the
/// other keys are; without one it is the X25519 identity secret.
pub proof fn dedicated_secret_is_used(p: PayloadView)
    ensures
        p.identity_ratchet_secret.len() == 32 ==> p.ratchet_secret() == Some(
            p.identity_ratchet_secret,
        ),
        p.identity_ratchet_secret.len() != 32 && p.has_kem() ==> p.ratchet_secret() == Some(
            p.identity_kem_secret.subrange(0, 32),
        ),
        p.identity_ratchet_secret.len() != 32 && !p.has_kem() ==> p.ratchet_secret() is None,
        p.our_bundle() is Some <==> p.has_kem() && p.has_signing(),
        p.our_bundle() matches Some(b) ==> b.nym_address == p.nym_address && b.ratchet_pub
            == x25519_base(p.ratchet_secret()->0),
{
    assert(p.identity_kem_secret.take(32) =~= p.identity_kem_secret.subrange(0, 32));
}

/// The secret that sessions with us start from. There is none only where the
/// key bytes in the vault are malformed.
pub fn load_ratchet_secret(vault: &VaultUnlocked) -> (r: Option<[u8; 32]>)
    ensures
        match r {
            Some(s) => vault@.payload.ratchet_secret() == Some(s@),
            None => vault@.payload.ratchet_secret() is None,
        },
{
    let own = &vault.payload.identity_ratchet_secret;
    if own.len() == 32 {
        let s = bytes::array_at::<32>(own, 0);
        assert(s@ =~= own@);
        Some(s)
    } else {
        match HybridKemKeypair::from_bytes(&vault.payload.identity_kem_secret) {
            Ok(kem) => Some(kem.x25519_secret),
            Err(_) => None,
        }
    }
}

/// The public key of our ratchet secret, for the KEM key pair in the vault.
pub fn own_ratchet_pub(vault: &VaultUnlocked, kem: &HybridKemKeypair) -> (r: [u8; 32])
    requires
        kem.read_from(vault@.payload.identity_kem_secret),
    ensures
        r@ == x25519_base(vault@.payload.ratchet_secret()->0),
{
    let own = &vault.payload.identity_ratchet_secret;
    if own.len() == 32 {
        let s = bytes::array_at::<32>(own, 0);
        assert(s@ =~= own@);
        suite::x25519_public(&s)
    } else {
        kem.x25519_public
    }
}

/// Our public key bundle, rebuilt from the keys in the vault. There is none
/// before the first run is complete.
pub fn build_our_bundle(vault: &VaultUnlocked) -> (r: Option<PublicKeyBundle>)
    ensures
        match r {
            Some(b) => vault@.payload.our_bundle() == Some(b@),
            None => vault@.payload.our_bundle() is None,
        },
{
    let kem = match HybridKemKeypair::from_bytes(&vault.payload.identity_kem_secret) {
        Ok(k) => k,
        Err(_) => {
            return None;
        },
    };
    let signing = match HybridSigningKeypair::from_bytes(&vault.payload.identity_signing_secret) {
        Ok(k) => k,
        Err(_) => {
            return None;
        },
    };
    let ratchet_pub = own_ratchet_pub(vault, &kem);
    let b = PublicKeyBundle::from_keypairs(
        &kem,
        &signing,
        ratchet_pub,
        vault.payload.nym_address.clone(),
    );
    assert(b@ =~= vault@.payload.bundle_at(vault@.payload.nym_address));
    Some(b)
}

/// The contact code of our bundle, or what is shown in its place.
pub open spec fn export_text(p: PayloadView) -> Seq<char> {
    match p.our_bundle() {
        Some(b) => base58_text(b.bytes()),
        None => "[No identity keys — restart op4 to complete first-run setup]"@,
    }
}

/// The bootstrap code of our bundle, or what is shown in its place.
pub open spec fn bootstrap_text(p: PayloadView) -> Seq<char> {
    match p.our_bundle() {
        Some(b) => (BootstrapView {
            nym_address: b.nym_address,
            ed25519_vk: b.ed25519_vk,
            x25519_pub: b.x25519_pub,
            fingerprint: sha256(b.fingerprint_input()),
        }).text(),
        None => "[No identity keys]"@,
    }
}

/// The contact code for sharing by hand.
pub fn build_export_code(vault: &VaultUnlocked) -> (r: String)
    ensures
        r@ == export_text(vault@.payload),
        vault@.payload.our_bundle() matches Some(b) ==> contact_read(r@) == Ok::<
            BundleView,
            IdentityError,
        >(b),
{
    match build_our_bundle(vault) {
        Some(bundle) => ContactCode(bundle).encode(),
        None => "[No identity keys — restart op4 to complete first-run setup]".to_owned(),
    }
}

/// The bootstrap code, which fits in a QR code.
pub fn build_bootstrap_code(vault: &VaultUnlocked) -> (r: String)
    ensures
        r@ == bootstrap_text(vault@.payload),
        vault@.payload.our_bundle() matches Some(b) ==> {
            &&& bootstrap_read(r@) matches Ok(c)
            &&& c.nym_address == b.nym_address
            &&& c.x25519_pub == b.x25519_pub
            &&& c.ed25519_vk == b.ed25519_vk
            &&& c.fingerprint == sha256(b.fingerprint_input())
        },
{
    match build_our_bundle(vault) {
        Some(bundle) => BootstrapCode::from_bundle(&bundle).encode(),
        None => "[No identity keys]".to_owned(),
    }
}

/// Whether two payloads differ in our keys at most, and those of the second
/// came from the generator throughout.
pub open spec fn rekeyed(before: PayloadView, after: PayloadView) -> bool {
    &&& after == (PayloadView {
        identity_kem_secret: after.identity_kem_secret,
        identity_signing_secret: after.identity_signing_secret,
        identity_ratchet_secret: after.identity_ratchet_secret,
        ..before
    })
    &&& after.has_kem()
    &&& after.has_signing()
    &&& after.identity_ratchet_secret.len() == 32
    &&& drawn_32(after.x25519_secret())
    &&& drawn_mlkem(after.identity_kem_secret.skip(32))
    &&& drawn_32(after.identity_signing_secret.take(32))
    &&& drawn_32(after.identity_signing_secret.skip(32))
    &&& drawn_32(after.identity_ratchet_secret)
}

/// Our key pairs.
pub struct Identity {
    pub kem: HybridKemKeypair,
    pub signing: HybridSigningKeypair,
    pub ratchet_secret: [u8; 32],
}

impl Identity {
    /// The public halves belong to the secret ones.
    pub open spec fn wf(&self) -> bool {
        self.kem.wf() && self.signing.wf()
    }

    /// Whether every secret came from the generator.
    pub open spec fn drawn(&self) -> bool {
        self.kem.drawn() && self.signing.drawn() && drawn_32(self.ratchet_secret@)
    }

    /// A fresh identity.
    pub fn generate() -> (r: Self)
        ensures
            r.wf(),
            r.drawn(),
    {
        Identity {
            kem: HybridKemKeypair::generate(),
            signing: HybridSigningKeypair::generate(),
            ratchet_secret: suite::fresh_32(),
        }
    }

    /// The public bundle of the identity at an address.
    pub fn bundle(&self, nym_address: String) -> (r: PublicKeyBundle)
        requires
            self.wf(),
        ensures
            r@ == self.bundle_spec(nym_address@),
    {
        let ratchet_pub = suite::x25519_public(&self.ratchet_secret);
        let b = PublicKeyBundle::from_keypairs(&self.kem, &self.signing, ratchet_pub, nym_address);
        assert(b@ =~= self.bundle_spec(nym_address@));
        b
    }

    /// The public bundle of the identity at an address.
    pub open spec fn bundle_spec(&self, nym_address: Seq<char>) -> BundleView {
        BundleView {
            version: 1,
            nym_address,
            x25519_pub: self.kem.x25519_public@,
            mlkem_ek: self.kem.mlkem_ek@,
            ed25519_vk: self.signing.ed25519_vk@,
            mldsa_vk: self.signing.mldsa_vk@,
            ratchet_pub: x25519_base(self.ratchet_secret@),
            opk_pubs: seq![],
            opk_ids: seq![],
        }
    }

    /// A payload with this identity in it.
    pub open spec fn installed(&self, p: PayloadView) -> PayloadView {
        PayloadView {
            identity_kem_secret: self.kem.bytes(),
            identity_signing_secret: self.signing.bytes(),
            identity_ratchet_secret: self.ratchet_secret@,
            ..p
        }
    }

    /// Puts the identity in the place of the one in the vault. Our bundle is
    /// then that of the new identity.
    pub fn install(&self, vault: &mut VaultUnlocked)
        requires
            self.wf(),
        ensures
            final(vault)@ == (VaultView {
                payload: self.installed(old(vault)@.payload),
                ..old(vault)@
            }),
            self.drawn() ==> rekeyed(old(vault)@.payload, final(vault)@.payload),
            final(vault)@.payload.our_bundle() == Some(
                self.bundle_spec(old(vault)@.payload.nym_address),
            ),
    {
        vault.payload.identity_kem_secret = self.kem.to_bytes();
        vault.payload.identity_signing_secret = self.signing.to_bytes();
        vault.payload.identity_ratchet_secret = bytes::copied(&self.ratchet_secret);
        proof {
            let p = vault@.payload;
            assert(p.x25519_secret() =~= self.kem.x25519_secret@);
            assert(p.identity_kem_secret.skip(32) =~= self.kem.mlkem_dk@);
            assert(p.identity_signing_secret.take(32) =~= self.signing.ed25519_sk@);
            assert(p.identity_signing_secret.skip(32) =~= self.signing.mldsa_seed@);
        }
    }
}

/// The first run: a vault for two passphrases with a fresh identity in it, and
/// what to write to disk. The normal passphrase opens it, the duress passphrase
/// the decoy beside it.
pub fn create_new_vault(normal_passphrase: &[u8], duress_passphrase: &[u8]) -> (r: Result<
    (VaultUnlocked, SavedVault),
    VaultError,
>)
    ensures
        match r {
            Ok((v, s)) => {
                &&& rekeyed(PayloadView::empty_at(seq![]), v@.at(0).payload)
                &&& v@.payload.sequence == 1
                &&& !v@.is_duress
                &&& drawn_32(v@.normal_salt)
                &&& drawn_32(v@.duress_salt)
                &&& v@.held_by(s)
                &&& v@.freshly_held_by(s)
                &&& unlock_spec(s.file@, normal_passphrase@, vault_costs()) == Ok::<
                    VaultView,
                    VaultError,
                >(v@)
                &&& derive_error(normal_passphrase@, vault_costs()) is None
                &&& derive_error(duress_passphrase@, vault_costs()) is None
                &&& opens_decoy(s.file@, duress_passphrase@, vault_costs(), v@)
            },
            Err(e) => match derive_error(normal_passphrase@, vault_costs()) {
                Some(c) => e == VaultError::Crypto(c),
                None => derive_error(duress_passphrase@, vault_costs()) matches Some(c) && e
                    == VaultError::Crypto(c),
            },
        },
{
    let (vault, file) = match VaultUnlocked::create(normal_passphrase, duress_passphrase) {
        Ok(x) => x,
        Err(e) => {
            return Err(e);
        },
    };
    let mut vault = vault;
    let ghost empty = vault@;
    Identity::generate().install(&mut vault);
    proof {
        lemma_label_len();
        lemma_first_payload_len(vault@.next().payload);
    }
    match vault.save() {
        Ok(s) => {
            proof {
                let ct = choose|ct: Seq<u8>| #[trigger] vault@.held_as(s, ct);
                assert(vault@.sections(ct).normal.len() <= u32::MAX);
                saved_vault_unlocks(
                    file@,
                    normal_passphrase@,
                    vault_costs(),
                    empty,
                    vault@,
                    s,
                );
                saved_vault_keeps_decoy(vault@, s, duress_passphrase@, vault_costs());
            }
            Ok((vault, s))
        },
        Err(e) => Err(e),
    }
}

/// The Argon2 costs of a vault.
pub open spec fn vault_costs() -> Argon2Params {
    Argon2Params { m_cost: 65536, t_cost: 3, p_cost: 1 }
}

/// The record of a payload with nothing but keys in it is short.
proof fn lemma_first_payload_len(p: PayloadView)
    requires
        rekeyed(PayloadView { sequence: p.sequence, ..PayloadView::empty_at(seq![]) }, p),
        encode_utf8(Seq::<char>::empty()).len() <= 32,
        encode_utf8("127.0.0.1:9050"@).len() <= 32,
    ensures
        VaultPayload::put_spec(p).len() <= 3000,
{
    crate::codec::varint_len(encode_utf8(Seq::<char>::empty()).len() as u64);
    crate::codec::varint_len(encode_utf8("127.0.0.1:9050"@).len() as u64);
    crate::codec::varint_len(KEM_BYTES as u64);
    crate::codec::varint_len(SIGNING_BYTES as u64);
    crate::codec::varint_len(32);
    crate::codec::varint_len(p.sequence);
    crate::codec::varint_len(0);
}

} // verus!
