//! The double ratchet: every message has a key of its own, and a new
//! Diffie-Hellman step starts new chains whenever the peer's ratchet key
//! changes.
use crate::bytes;
use crate::codec::{
    list_fits, list_round_trip, models, put_all, put_list, put_list_spec, take_list,
    take_list_spec, varint_len, Record,
};
use crate::crypto::primitives::{
    aead_decrypt, aead_encrypt, aead_encrypt_with_nonce, hkdf_pair, hmac_sign_raw, opened, sealed,
    seals, SymKey, AEAD_NONCE_LEN,
};
pub use crate::crypto::skipped::{ChainKey, MessageKey, SkippedKeyIndex};
use crate::crypto::skipped::{
    buffered, entries_map, kept, lemma_kept, lemma_last_entry, lemma_no_entries, lemma_trimmed,
    names_differ, trimmed, SkippedEntry, SkippedKeys, SkippedName,
};
use crate::crypto::suite;
use crate::crypto::suite::{
    drawn_32, drawn_nonce, hkdf_sha256, hmac_sha256, sealable, x25519, x25519_base,
};
use crate::error::CryptoError;
use vstd::prelude::*;
use vstd::string::StringSliceAdditionalSpecFns;

verus! {

/// How many messages may be skipped at once within a chain, and how many keys
/// of skipped messages are kept in all.
pub const MAX_SKIP: u64 = 100;

/// A skipped key is dropped once this many messages have come in after it was
/// stored; its message counts as lost.
pub const SKIPPED_KEY_MAX_AGE: u64 = 500;

/// 32 zero bytes.
pub open spec fn zeros() -> Seq<u8> {
    Seq::new(32, |i: int| 0u8)
}

/// The message key at the head of a chain.
pub open spec fn mk_of(ck: Seq<u8>) -> Seq<u8> {
    hmac_sha256(ck, seq![1u8])
}

/// The chain key behind another.
pub open spec fn next_ck(ck: Seq<u8>) -> Seq<u8> {
    hmac_sha256(ck, seq![2u8])
}

/// The chain key `k` steps behind `ck`.
pub open spec fn chain_at(ck: Seq<u8>, k: nat) -> Seq<u8>
    decreases k,
{
    if k == 0 {
        ck
    } else {
        next_ck(chain_at(ck, (k - 1) as nat))
    }
}

/// The encryption key within a message key.
pub open spec fn aead_of(mk: Seq<u8>) -> Seq<u8> {
    hkdf_sha256(Some(zeros()), mk, "op4-ratchet-mk-split-v1".spec_bytes(), 64).take(32)
}

/// The authentication key within a message key.
pub open spec fn mac_of(mk: Seq<u8>) -> Seq<u8> {
    hkdf_sha256(Some(zeros()), mk, "op4-ratchet-mk-split-v1".spec_bytes(), 64).skip(32)
}

/// The root key and the chain key behind a root key and a shared secret.
pub open spec fn rk_step(rk: Seq<u8>, dh: Seq<u8>) -> (Seq<u8>, Seq<u8>) {
    let out = hkdf_sha256(Some(rk), dh, "op4-ratchet-rk-v1".spec_bytes(), 64);
    (out.take(32), out.skip(32))
}

/// Splits a message key into an encryption key and a MAC key.
pub fn split_message_key(mk: &MessageKey) -> (r: Result<(SymKey, [u8; 32]), CryptoError>)
    ensures
        r matches Ok((aead, mac)) && aead@ == aead_of(mk.0@) && mac@ == mac_of(mk.0@),
{
    let zero = [0u8;32];
    assert(zero@ =~= zeros());
    let (aead, mac) = hkdf_pair(&mk.0, Some(&zero), "op4-ratchet-mk-split-v1".as_bytes());
    Ok((SymKey(aead), mac))
}

/// Derives a new root key and a chain key from a root key and a shared secret.
pub fn kdf_rk(rk: &[u8; 32], dh_out: &[u8; 32]) -> (r: Result<([u8; 32], ChainKey), CryptoError>)
    ensures
        r matches Ok((new_rk, ck)) && (new_rk@, ck.0@) == rk_step(rk@, dh_out@),
{
    let (new_rk, ck) = hkdf_pair(dh_out, Some(rk), "op4-ratchet-rk-v1".as_bytes());
    Ok((new_rk, ChainKey(ck)))
}

/// Advances a chain key: the message key at its head and the chain key behind
/// it.
pub fn kdf_ck(ck: &ChainKey) -> (r: (MessageKey, ChainKey))
    ensures
        r.0.0@ == mk_of(ck.0@),
        r.1.0@ == next_ck(ck.0@),
{
    let one = [1u8];
    let two = [2u8];
    assert(one@ =~= seq![1u8]);
    assert(two@ =~= seq![2u8]);
    (MessageKey(hmac_sign_raw(&ck.0, &one)), ChainKey(hmac_sign_raw(&ck.0, &two)))
}

/// What stands in front of every ciphertext, authenticated and not encrypted:
/// counters only, no wall-clock time.
#[derive(Debug, Clone)]
pub struct MessageHeader {
    /// The sender's current ratchet key.
    pub dh_pub: [u8; 32],
    /// Length of the sender's previous chain.
    pub pn: u64,
    /// Number of the message within its chain.
    pub n: u64,
}

/// What a [`MessageHeader`] means.
#[verifier::ext_equal]
pub struct HeaderView {
    pub dh_pub: Seq<u8>,
    pub pn: u64,
    pub n: u64,
}

/// The fields of a header, in the order of its record.
pub type HeaderRecord = ([u8; 32], (u64, u64));

impl View for MessageHeader {
    type V = HeaderView;

    open spec fn view(&self) -> HeaderView {
        HeaderView { dh_pub: self.dh_pub@, pn: self.pn, n: self.n }
    }
}

impl HeaderView {
    /// The record of the header.
    pub open spec fn bytes(self) -> Seq<u8> {
        HeaderRecord::put_spec((self.dh_pub, (self.pn, self.n)))
    }
}

impl Record for MessageHeader {
    type Model = HeaderView;

    open spec fn model(&self) -> HeaderView {
        self@
    }

    open spec fn put_spec(m: HeaderView) -> Seq<u8> {
        m.bytes()
    }

    open spec fn take_spec(b: Seq<u8>) -> Option<(HeaderView, Seq<u8>)> {
        match HeaderRecord::take_spec(b) {
            Some((f, rest)) => Some((HeaderView { dh_pub: f.0, pn: f.1.0, n: f.1.1 }, rest)),
            None => None,
        }
    }

    open spec fn fits(m: HeaderView) -> bool {
        m.dh_pub.len() == 32
    }

    fn put(&self, out: &mut Vec<u8>) {
        self.dh_pub.put(out);
        self.pn.put(out);
        self.n.put(out);
        assert(out@ =~= old(out)@ + self@.bytes());
    }

    fn take(b: &[u8]) -> (r: Option<(Self, &[u8])>) {
        match HeaderRecord::take(b) {
            Some(((dh_pub, (pn, n)), rest)) => Some((MessageHeader { dh_pub, pn, n }, rest)),
            None => None,
        }
    }

    proof fn round_trip(m: HeaderView, rest: Seq<u8>) {
        HeaderRecord::round_trip((m.dh_pub, (m.pn, m.n)), rest);
    }
}

impl MessageHeader {
    /// The record of the header.
    pub fn to_bytes(&self) -> (r: Vec<u8>)
        ensures
            r@ == self@.bytes(),
    {
        let mut out: Vec<u8> = Vec::new();
        self.put(&mut out);
        assert(out@ =~= self@.bytes());
        out
    }
}

/// The ratchet of one conversation.
pub struct RatchetState {
    /// Our current ratchet secret and its public key.
    pub dhs: [u8; 32],
    pub dhs_pub: [u8; 32],
    /// The peer's current ratchet key.
    pub dhr: Option<[u8; 32]>,
    /// Root key.
    pub rk: [u8; 32],
    /// Sending and receiving chain keys.
    pub cks: Option<ChainKey>,
    pub ckr: Option<ChainKey>,
    /// Messages sent and received in the current chains, and sent in the
    /// previous one.
    pub ns: u64,
    pub nr: u64,
    pub pn: u64,
    /// Messages received over all chains, for the expiry of skipped keys.
    pub total_recv: u64,
    /// Keys of messages that have not arrived yet.
    pub mkskipped: SkippedKeys,
}

/// What a [`RatchetState`] means.
#[verifier::ext_equal]
pub struct RatchetView {
    pub dhs: Seq<u8>,
    pub dhs_pub: Seq<u8>,
    pub dhr: Option<Seq<u8>>,
    pub rk: Seq<u8>,
    pub cks: Option<Seq<u8>>,
    pub ckr: Option<Seq<u8>>,
    pub ns: u64,
    pub nr: u64,
    pub pn: u64,
    pub total_recv: u64,
    pub skipped: Map<SkippedName, SkippedEntry>,
}

pub open spec fn opt_array(o: Option<[u8; 32]>) -> Option<Seq<u8>> {
    match o {
        Some(a) => Some(a@),
        None => None,
    }
}

pub open spec fn opt_chain(o: Option<ChainKey>) -> Option<Seq<u8>> {
    match o {
        Some(k) => Some(k.0@),
        None => None,
    }
}

impl View for RatchetState {
    type V = RatchetView;

    open spec fn view(&self) -> RatchetView {
        RatchetView {
            dhs: self.dhs@,
            dhs_pub: self.dhs_pub@,
            dhr: opt_array(self.dhr),
            rk: self.rk@,
            cks: opt_chain(self.cks),
            ckr: opt_chain(self.ckr),
            ns: self.ns,
            nr: self.nr,
            pn: self.pn,
            total_recv: self.total_recv,
            skipped: self.mkskipped@,
        }
    }
}

/// The two Diffie-Hellman secrets of a pair of keys are the same.
pub open spec fn agrees(a: Seq<u8>, b: Seq<u8>) -> bool {
    x25519(a, x25519_base(b)) == x25519(b, x25519_base(a))
}

/// `secret` agrees with the secret behind `public`, if there is one.
pub open spec fn agrees_with_owner(secret: Seq<u8>, public: Seq<u8>) -> bool {
    forall|peer: Seq<u8>|
        peer.len() == 32 && public == #[trigger] x25519_base(peer) ==> agrees(secret, peer)
}

/// The state of the side that starts a session.
pub open spec fn alice_start(root_key: Seq<u8>, bob_pub: Seq<u8>, dhs: Seq<u8>) -> RatchetView {
    let (rk, ck) = rk_step(root_key, x25519(dhs, bob_pub));
    RatchetView {
        dhs,
        dhs_pub: x25519_base(dhs),
        dhr: Some(bob_pub),
        rk,
        cks: Some(ck),
        ckr: None,
        ns: 0,
        nr: 0,
        pn: 0,
        total_recv: 0,
        skipped: Map::empty(),
    }
}

/// The state of the side that answers.
pub open spec fn bob_start(root_key: Seq<u8>, secret: Seq<u8>) -> RatchetView {
    RatchetView {
        dhs: secret,
        dhs_pub: x25519_base(secret),
        dhr: None,
        rk: root_key,
        cks: None,
        ckr: None,
        ns: 0,
        nr: 0,
        pn: 0,
        total_recv: 0,
        skipped: Map::empty(),
    }
}

/// What sending makes of the state and what goes out.
pub open spec fn encrypt_spec(v: RatchetView, plaintext: Seq<u8>, nonce: Seq<u8>) -> (
    RatchetView,
    Result<(HeaderView, Seq<u8>, Seq<u8>), CryptoError>,
) {
    match v.cks {
        None => (v, Err(CryptoError::NoChainKey)),
        Some(ck) => {
            let after = RatchetView { cks: Some(next_ck(ck)), ns: (v.ns + 1) as u64, ..v };
            let header = HeaderView { dh_pub: v.dhs_pub, pn: v.pn, n: v.ns };
            if sealable(plaintext.len()) {
                (
                    after,
                    Ok(
                        (
                            header,
                            sealed(aead_of(mk_of(ck)), nonce, header.bytes(), plaintext),
                            mac_of(mk_of(ck)),
                        ),
                    ),
                )
            } else {
                (after, Err(CryptoError::AeadEncrypt))
            }
        },
    }
}

/// The buffer once the keys of `count` messages from number `from` on are in
/// it, where `ck` is the chain key of number `from`.
pub open spec fn buffer_chain(
    m: Map<SkippedName, SkippedEntry>,
    dh_pub: Seq<u8>,
    from: nat,
    ck: Seq<u8>,
    count: nat,
    at: u64,
) -> Map<SkippedName, SkippedEntry>
    decreases count,
{
    if count == 0 {
        m
    } else {
        let k = (count - 1) as nat;
        buffered(
            buffer_chain(m, dh_pub, from, ck, k, at),
            (dh_pub, (from + k) as u64),
            mk_of(chain_at(ck, k)),
            at,
        )
    }
}

/// The buffer holds no more keys than may be skipped at once.
pub open spec fn bounded(v: RatchetView) -> bool {
    v.skipped.dom().finite() && v.skipped.dom().len() <= MAX_SKIP
}

/// Buffering a stretch of a chain adds no more keys than it has messages.
pub proof fn lemma_buffer_count(
    m: Map<SkippedName, SkippedEntry>,
    dh_pub: Seq<u8>,
    from: nat,
    ck: Seq<u8>,
    count: nat,
    at: u64,
)
    requires
        m.dom().finite(),
    ensures
        buffer_chain(m, dh_pub, from, ck, count, at).dom().finite(),
        buffer_chain(m, dh_pub, from, ck, count, at).dom().len() <= m.dom().len() + count,
    decreases count,
{
    if count > 0 {
        lemma_buffer_count(m, dh_pub, from, ck, (count - 1) as nat, at);
        let b = buffer_chain(m, dh_pub, from, ck, (count - 1) as nat, at);
        let name = (dh_pub, (from + count - 1) as u64);
        assert(buffer_chain(m, dh_pub, from, ck, count, at).dom() =~= b.dom().insert(name));
    }
}

/// Why the receiving chain cannot skip forward to message `until`, if it
/// cannot.
pub open spec fn skip_error(v: RatchetView, until: u64) -> Option<CryptoError> {
    if v.nr + MAX_SKIP < until {
        Some(CryptoError::TooManySkipped)
    } else if v.nr >= until {
        None
    } else if v.ckr is None {
        Some(CryptoError::NoChainKey)
    } else if v.dhr is None {
        Some(CryptoError::NoDhrKey)
    } else {
        None
    }
}

/// The state once the receiving chain has skipped forward to message `until`.
/// The oldest keys in the buffer give way where there are too many.
pub open spec fn skipped_to(v: RatchetView, until: u64) -> RatchetView {
    if v.nr >= until {
        v
    } else {
        let count = (until - v.nr) as nat;
        RatchetView {
            ckr: Some(chain_at(v.ckr->0, count)),
            nr: until,
            skipped: buffer_chain(
                trimmed(v.skipped, (MAX_SKIP - count) as nat),
                v.dhr->0,
                v.nr as nat,
                v.ckr->0,
                count,
                v.total_recv,
            ),
            ..v
        }
    }
}

/// The state once a new ratchet key of the peer has been taken up, with `fresh`
/// as our new secret.
pub open spec fn dh_stepped(v: RatchetView, peer_pub: Seq<u8>, fresh: Seq<u8>) -> RatchetView {
    let (rk1, ckr) = rk_step(v.rk, x25519(v.dhs, peer_pub));
    let (rk2, cks) = rk_step(rk1, x25519(fresh, peer_pub));
    RatchetView {
        dhs: fresh,
        dhs_pub: x25519_base(fresh),
        dhr: Some(peer_pub),
        rk: rk2,
        cks: Some(cks),
        ckr: Some(ckr),
        ns: 0,
        nr: 0,
        pn: v.ns,
        ..v
    }
}

/// The state once a message has been opened.
pub open spec fn received(v: RatchetView) -> RatchetView {
    let total = (v.total_recv + 1) as u64;
    let cutoff = if total >= SKIPPED_KEY_MAX_AGE {
        (total - SKIPPED_KEY_MAX_AGE) as u64
    } else {
        0
    };
    RatchetView { total_recv: total, skipped: kept(v.skipped, cutoff), ..v }
}

/// What opening a ciphertext under a message key makes of the state.
pub open spec fn open_with(v: RatchetView, mk: Seq<u8>, header: HeaderView, ct: Seq<u8>) -> (
    RatchetView,
    Result<(Seq<u8>, Seq<u8>), CryptoError>,
) {
    match opened(aead_of(mk), ct, header.bytes()) {
        Some(pt) => (received(v), Ok((pt, mac_of(mk)))),
        None => (v, Err(CryptoError::AeadDecrypt)),
    }
}

/// What a message of the current receiving chain makes of the state.
pub open spec fn decrypt_in_chain(v: RatchetView, header: HeaderView, ct: Seq<u8>) -> (
    RatchetView,
    Result<(Seq<u8>, Seq<u8>), CryptoError>,
) {
    match skip_error(v, header.n) {
        Some(e) => (v, Err(e)),
        None => {
            let w = skipped_to(v, header.n);
            match w.ckr {
                None => (w, Err(CryptoError::NoChainKey)),
                Some(ck) => open_with(
                    RatchetView { ckr: Some(next_ck(ck)), nr: (w.nr + 1) as u64, ..w },
                    mk_of(ck),
                    header,
                    ct,
                ),
            }
        },
    }
}

/// What receiving makes of the state and what comes out; `fresh` becomes our
/// new ratchet secret where the peer's key is new.
pub open spec fn decrypt_spec(
    v: RatchetView,
    header: HeaderView,
    ct: Seq<u8>,
    fresh: Seq<u8>,
) -> (RatchetView, Result<(Seq<u8>, Seq<u8>), CryptoError>) {
    let name = (header.dh_pub, header.n);
    if v.skipped.dom().contains(name) {
        open_with(
            RatchetView { skipped: v.skipped.remove(name), ..v },
            v.skipped[name].key,
            header,
            ct,
        )
    } else if v.dhr == Some(header.dh_pub) {
        decrypt_in_chain(v, header, ct)
    } else {
        match skip_error(v, header.pn) {
            Some(e) => (v, Err(e)),
            None => decrypt_in_chain(
                dh_stepped(skipped_to(v, header.pn), header.dh_pub, fresh),
                header,
                ct,
            ),
        }
    }
}

proof fn lemma_chain_next(ck: Seq<u8>, k: nat)
    ensures
        chain_at(ck, k + 1) == next_ck(chain_at(ck, k)),
{
}

impl RatchetState {
    /// The buffer of skipped keys is sound and bounded.
    pub open spec fn wf(&self) -> bool {
        self.mkskipped.wf() && bounded(self@)
    }

    /// The counters leave room for one more message in either direction.
    pub open spec fn has_room_spec(&self) -> bool {
        self.ns < u64::MAX && self.nr < u64::MAX - MAX_SKIP && self.total_recv < u64::MAX
    }

    /// Whether the counters leave room for one more message in either
    /// direction.
    pub fn has_room(&self) -> (r: bool)
        ensures
            r == self.has_room_spec(),
    {
        self.ns < u64::MAX && self.nr < u64::MAX - MAX_SKIP && self.total_recv < u64::MAX
    }

    /// Starts a session with a given ratchet secret.
    pub fn init_alice_with(root_key: [u8; 32], bob_ratchet_pub: [u8; 32], dhs: [u8; 32]) -> (r:
        Result<Self, CryptoError>)
        ensures
            r matches Ok(s) && s.wf() && s@ == alice_start(root_key@, bob_ratchet_pub@, dhs@),
            agrees_with_owner(dhs@, bob_ratchet_pub@),
    {
        let dhs_pub = suite::x25519_public(&dhs);
        let dh_out = suite::x25519_shared(&dhs, &bob_ratchet_pub);
        let (rk, cks) = match kdf_rk(&root_key, &dh_out) {
            Ok(x) => x,
            Err(e) => {
                return Err(e);
            },
        };
        Ok(
            RatchetState {
                dhs,
                dhs_pub,
                dhr: Some(bob_ratchet_pub),
                rk,
                cks: Some(cks),
                ckr: None,
                ns: 0,
                nr: 0,
                pn: 0,
                total_recv: 0,
                mkskipped: SkippedKeys::new(),
            },
        )
    }

    /// Starts a session as the initiator, with a fresh ratchet secret.
    pub fn init_alice(root_key: [u8; 32], bob_ratchet_pub: [u8; 32]) -> (r: Result<
        Self,
        CryptoError,
    >)
        ensures
            r matches Ok(s) && s.wf() && s@ == alice_start(root_key@, bob_ratchet_pub@, s.dhs@)
                && agrees_with_owner(s.dhs@, bob_ratchet_pub@) && drawn_32(s.dhs@),
    {
        let dhs = suite::fresh_32();
        Self::init_alice_with(root_key, bob_ratchet_pub, dhs)
    }

    /// Starts a session as the responder.
    pub fn init_bob(root_key: [u8; 32], bob_ratchet_secret: [u8; 32]) -> (r: Self)
        ensures
            r.wf(),
            r@ == bob_start(root_key@, bob_ratchet_secret@),
    {
        let dhs_pub = suite::x25519_public(&bob_ratchet_secret);
        RatchetState {
            dhs: bob_ratchet_secret,
            dhs_pub,
            dhr: None,
            rk: root_key,
            cks: None,
            ckr: None,
            ns: 0,
            nr: 0,
            pn: 0,
            total_recv: 0,
            mkskipped: SkippedKeys::new(),
        }
    }

    /// Our current ratchet key.
    pub fn our_ratchet_pub(&self) -> (r: [u8; 32])
        ensures
            r@ == self@.dhs_pub,
    {
        self.dhs_pub
    }

    /// Encrypts a message under a given nonce.
    pub fn ratchet_encrypt_with(&mut self, plaintext: &[u8], nonce: &[u8; 12]) -> (r: Result<
        (MessageHeader, Vec<u8>, [u8; 32]),
        CryptoError,
    >)
        requires
            old(self).wf(),
            old(self).ns < u64::MAX,
        ensures
            final(self).wf(),
            final(self)@ == encrypt_spec(old(self)@, plaintext@, nonce@).0,
            match r {
                Ok((header, ct, mac_key)) => {
                    &&& encrypt_spec(old(self)@, plaintext@, nonce@).1 == Ok::<
                        (HeaderView, Seq<u8>, Seq<u8>),
                        CryptoError,
                    >((header@, ct@, mac_key@))
                    &&& seals(
                        aead_of(mk_of(old(self)@.cks->0)),
                        plaintext@,
                        header@.bytes(),
                        ct@,
                    )
                },
                Err(e) => encrypt_spec(old(self)@, plaintext@, nonce@).1 == Err::<
                    (HeaderView, Seq<u8>, Seq<u8>),
                    CryptoError,
                >(e),
            },
    {
        let (mk, new_cks) = match &self.cks {
            None => {
                return Err(CryptoError::NoChainKey);
            },
            Some(ck) => kdf_ck(ck),
        };
        self.cks = Some(new_cks);
        let header = MessageHeader { dh_pub: self.dhs_pub, pn: self.pn, n: self.ns };
        self.ns = self.ns + 1;
        let (aead_key, mac_key) = match split_message_key(&mk) {
            Ok(x) => x,
            Err(e) => {
                return Err(e);
            },
        };
        let aad = header.to_bytes();
        match aead_encrypt_with_nonce(&aead_key, nonce, plaintext, &aad) {
            Ok(ct) => Ok((header, ct, mac_key)),
            Err(e) => Err(e),
        }
    }

    /// Encrypts a message under a fresh nonce. The MAC key that comes with it
    /// serves to authenticate the ciphertext deniably.
    pub fn ratchet_encrypt(&mut self, plaintext: &[u8]) -> (r: Result<
        (MessageHeader, Vec<u8>, [u8; 32]),
        CryptoError,
    >)
        requires
            old(self).wf(),
            old(self).ns < u64::MAX,
        ensures
            final(self).wf(),
            final(self)@ == encrypt_spec(old(self)@, plaintext@, seq![]).0,
            match r {
                Ok((header, ct, mac_key)) => {
                    &&& old(self)@.cks is Some
                    &&& sealable(plaintext@.len())
                    &&& header@ == (HeaderView {
                        dh_pub: old(self)@.dhs_pub,
                        pn: old(self)@.pn,
                        n: old(self)@.ns,
                    })
                    &&& seals(
                        aead_of(mk_of(old(self)@.cks->0)),
                        plaintext@,
                        header@.bytes(),
                        ct@,
                    )
                    &&& mac_key@ == mac_of(mk_of(old(self)@.cks->0))
                    &&& drawn_nonce(ct@.take(AEAD_NONCE_LEN as int))
                },
                Err(e) => e == (if old(self)@.cks is None {
                    CryptoError::NoChainKey
                } else {
                    CryptoError::AeadEncrypt
                }) && (old(self)@.cks is None || !sealable(plaintext@.len())),
            },
    {
        let nonce = suite::fresh_nonce();
        let r = self.ratchet_encrypt_with(plaintext, &nonce);
        if let Ok((_, ct, _)) = &r {
            assert(ct@.take(AEAD_NONCE_LEN as int) =~= nonce@);
        }
        r
    }

    /// Drops skipped keys that are too old.
    pub fn purge_expired_skipped_keys(&mut self)
        requires
            old(self).wf(),
        ensures
            final(self).wf(),
            final(self)@ == (RatchetView {
                skipped: kept(
                    old(self)@.skipped,
                    if old(self)@.total_recv >= SKIPPED_KEY_MAX_AGE {
                        (old(self)@.total_recv - SKIPPED_KEY_MAX_AGE) as u64
                    } else {
                        0
                    },
                ),
                ..old(self)@
            }),
    {
        let cutoff: u64 = if self.total_recv >= SKIPPED_KEY_MAX_AGE {
            self.total_recv - SKIPPED_KEY_MAX_AGE
        } else {
            0
        };
        self.mkskipped.retain_from(cutoff);
        proof {
            lemma_kept(old(self)@.skipped, cutoff);
        }
    }

    /// Opens a ciphertext under a message key.
    fn open_message(&mut self, mk: &MessageKey, header: &MessageHeader, ciphertext: &[u8]) -> (r:
        Result<(Vec<u8>, [u8; 32]), CryptoError>)
        requires
            old(self).wf(),
            old(self).total_recv < u64::MAX,
        ensures
            final(self).wf(),
            final(self)@ == open_with(old(self)@, mk.0@, header@, ciphertext@).0,
            result_is(r, open_with(old(self)@, mk.0@, header@, ciphertext@).1),
    {
        let aad = header.to_bytes();
        let (aead_key, mac_key) = match split_message_key(mk) {
            Ok(x) => x,
            Err(e) => {
                return Err(e);
            },
        };
        match aead_decrypt(&aead_key, ciphertext, &aad) {
            Err(e) => Err(e),
            Ok(pt) => {
                self.total_recv = self.total_recv + 1;
                self.purge_expired_skipped_keys();
                Ok((pt, mac_key))
            },
        }
    }

    /// Buffers the keys of the messages up to `until`.
    fn skip_message_keys(&mut self, until: u64) -> (r: Result<(), CryptoError>)
        requires
            old(self).wf(),
            old(self).nr <= u64::MAX - MAX_SKIP,
        ensures
            final(self).wf(),
            match r {
                Ok(()) => skip_error(old(self)@, until) is None && final(self)@ == skipped_to(
                    old(self)@,
                    until,
                ),
                Err(e) => skip_error(old(self)@, until) == Some(e) && final(self)@ == old(self)@,
            },
    {
        if self.nr + MAX_SKIP < until {
            return Err(CryptoError::TooManySkipped);
        }
        if self.nr >= until {
            return Ok(());
        }
        let mut ck = match &self.ckr {
            None => {
                return Err(CryptoError::NoChainKey);
            },
            Some(k) => ChainKey(k.0),
        };
        let dh_pub = match self.dhr {
            None => {
                return Err(CryptoError::NoDhrKey);
            },
            Some(k) => k,
        };
        let ghost start = self@;
        let ghost first = ck.0@;
        let count: u64 = until - self.nr;
        self.mkskipped.trim_to((MAX_SKIP - count) as usize);
        let ghost room = self@.skipped;
        proof {
            lemma_trimmed(start.skipped, (MAX_SKIP - count) as nat);
        }
        while self.nr < until
            invariant
                self.wf(),
                start.nr <= self.nr <= until,
                count == until - start.nr,
                count <= MAX_SKIP,
                room.dom().finite(),
                room.dom().len() + count <= MAX_SKIP,
                ck.0@ == chain_at(first, (self.nr - start.nr) as nat),
                dh_pub@ == start.dhr->0,
                self@ == (RatchetView {
                    nr: self.nr,
                    skipped: buffer_chain(
                        room,
                        dh_pub@,
                        start.nr as nat,
                        first,
                        (self.nr - start.nr) as nat,
                        start.total_recv,
                    ),
                    ..start
                }),
            decreases until - self.nr,
        {
            let (mk, next) = kdf_ck(&ck);
            let index = SkippedKeyIndex {
                dh_ratchet_pub: dh_pub,
                msg_num: self.nr,
                stored_at: self.total_recv,
            };
            self.mkskipped.insert(index, mk);
            ck = next;
            self.nr = self.nr + 1;
            proof {
                let done = (self.nr - start.nr) as nat;
                lemma_chain_next(first, (done - 1) as nat);
                lemma_buffer_count(
                    room,
                    dh_pub@,
                    start.nr as nat,
                    first,
                    done,
                    start.total_recv,
                );
            }
        }
        self.ckr = Some(ck);
        assert(self@ =~= skipped_to(start, until));
        Ok(())
    }

    /// Takes up a new ratchet key of the peer.
    fn dh_ratchet_step(&mut self, peer_pub: &[u8; 32], fresh: &[u8; 32]) -> (r: Result<
        (),
        CryptoError,
    >)
        requires
            old(self).wf(),
        ensures
            r is Ok,
            final(self).wf(),
            final(self)@ == dh_stepped(old(self)@, peer_pub@, fresh@),
            agrees_with_owner(old(self)@.dhs, peer_pub@),
            agrees_with_owner(fresh@, peer_pub@),
    {
        self.pn = self.ns;
        self.ns = 0;
        self.nr = 0;
        self.dhr = Some(*peer_pub);
        let dh_out = suite::x25519_shared(&self.dhs, peer_pub);
        let (rk1, ckr) = match kdf_rk(&self.rk, &dh_out) {
            Ok(x) => x,
            Err(e) => {
                return Err(e);
            },
        };
        self.rk = rk1;
        self.ckr = Some(ckr);
        let dh_out2 = suite::x25519_shared(fresh, peer_pub);
        let (rk2, cks) = match kdf_rk(&self.rk, &dh_out2) {
            Ok(x) => x,
            Err(e) => {
                return Err(e);
            },
        };
        self.rk = rk2;
        self.cks = Some(cks);
        self.dhs = *fresh;
        self.dhs_pub = suite::x25519_public(fresh);
        Ok(())
    }

    /// Decrypts a message; `fresh` becomes our new ratchet secret where the
    /// peer's key is new.
    pub fn ratchet_decrypt_with(
        &mut self,
        header: &MessageHeader,
        ciphertext: &[u8],
        fresh: &[u8; 32],
    ) -> (r: Result<(Vec<u8>, [u8; 32]), CryptoError>)
        requires
            old(self).wf(),
            old(self).has_room_spec(),
        ensures
            final(self).wf(),
            final(self)@ == decrypt_spec(old(self)@, header@, ciphertext@, fresh@).0,
            result_is(r, decrypt_spec(old(self)@, header@, ciphertext@, fresh@).1),
            final(self)@.dhs != old(self)@.dhs ==> agrees_with_owner(fresh@, header@.dh_pub),
    {
        if let Some(mk) = self.mkskipped.remove(&header.dh_pub, header.n) {
            assert(self@.skipped.dom() =~= old(self)@.skipped.dom().remove((header@.dh_pub, header.n)));
            return self.open_message(&mk, header, ciphertext);
        }
        assert(self@ =~= old(self)@);
        let same_key = match &self.dhr {
            None => false,
            Some(k) => bytes::same_bytes(k, &header.dh_pub),
        };
        if !same_key {
            if let Err(e) = self.skip_message_keys(header.pn) {
                return Err(e);
            }
            if let Err(e) = self.dh_ratchet_step(&header.dh_pub, fresh) {
                return Err(e);
            }
        }
        if let Err(e) = self.skip_message_keys(header.n) {
            return Err(e);
        }
        let (mk, next) = match &self.ckr {
            None => {
                return Err(CryptoError::NoChainKey);
            },
            Some(ck) => kdf_ck(ck),
        };
        self.ckr = Some(next);
        self.nr = self.nr + 1;
        self.open_message(&mk, header, ciphertext)
    }

    /// Decrypts a message, whether it comes in order, late from the buffer of
    /// skipped keys, or first under a new ratchet key of the peer. The MAC key
    /// that comes with the plaintext serves to check the deniable tag.
    pub fn ratchet_decrypt(&mut self, header: &MessageHeader, ciphertext: &[u8]) -> (r: Result<
        (Vec<u8>, [u8; 32]),
        CryptoError,
    >)
        requires
            old(self).wf(),
            old(self).has_room_spec(),
        ensures
            final(self).wf(),
            exists|fresh: Seq<u8>|
                {
                    &&& fresh.len() == 32
                    &&& drawn_32(fresh)
                    &&& final(self)@ == (#[trigger] decrypt_spec(
                        old(self)@,
                        header@,
                        ciphertext@,
                        fresh,
                    )).0
                    &&& result_is(r, decrypt_spec(old(self)@, header@, ciphertext@, fresh).1)
                    &&& final(self)@.dhs != old(self)@.dhs ==> agrees_with_owner(
                        fresh,
                        header@.dh_pub,
                    )
                },
    {
        let fresh = suite::fresh_32();
        self.ratchet_decrypt_with(header, ciphertext, &fresh)
    }
}

/// Whether a result holds what a specification says.
pub open spec fn result_is(
    r: Result<(Vec<u8>, [u8; 32]), CryptoError>,
    s: Result<(Seq<u8>, Seq<u8>), CryptoError>,
) -> bool {
    match r {
        Ok((pt, mac)) => s == Ok::<(Seq<u8>, Seq<u8>), CryptoError>((pt@, mac@)),
        Err(e) => s == Err::<(Seq<u8>, Seq<u8>), CryptoError>(e),
    }
}

/// What a [`SkippedKeyIndex`] means.
#[verifier::ext_equal]
pub struct IndexView {
    pub dh_ratchet_pub: Seq<u8>,
    pub msg_num: u64,
    pub stored_at: u64,
}

/// The fields of an index, in the order of its record.
pub type IndexRecord = ([u8; 32], (u64, u64));

impl Record for SkippedKeyIndex {
    type Model = IndexView;

    open spec fn model(&self) -> IndexView {
        IndexView {
            dh_ratchet_pub: self.dh_ratchet_pub@,
            msg_num: self.msg_num,
            stored_at: self.stored_at,
        }
    }

    open spec fn put_spec(m: IndexView) -> Seq<u8> {
        IndexRecord::put_spec((m.dh_ratchet_pub, (m.msg_num, m.stored_at)))
    }

    open spec fn take_spec(b: Seq<u8>) -> Option<(IndexView, Seq<u8>)> {
        match IndexRecord::take_spec(b) {
            Some((f, rest)) => Some(
                (IndexView { dh_ratchet_pub: f.0, msg_num: f.1.0, stored_at: f.1.1 }, rest),
            ),
            None => None,
        }
    }

    open spec fn fits(m: IndexView) -> bool {
        m.dh_ratchet_pub.len() == 32
    }

    fn put(&self, out: &mut Vec<u8>) {
        self.dh_ratchet_pub.put(out);
        self.msg_num.put(out);
        self.stored_at.put(out);
        assert(out@ =~= old(out)@ + Self::put_spec(self.model()));
    }

    fn take(b: &[u8]) -> (r: Option<(Self, &[u8])>) {
        match IndexRecord::take(b) {
            Some(((dh_ratchet_pub, (msg_num, stored_at)), rest)) => Some(
                (SkippedKeyIndex { dh_ratchet_pub, msg_num, stored_at }, rest),
            ),
            None => None,
        }
    }

    proof fn round_trip(m: IndexView, rest: Seq<u8>) {
        IndexRecord::round_trip((m.dh_ratchet_pub, (m.msg_num, m.stored_at)), rest);
    }
}

/// A skipped key as it stands in a record.
pub type SkippedRow = (SkippedKeyIndex, [u8; 32]);

impl Record for Vec<SkippedRow> {
    type Model = Seq<(IndexView, Seq<u8>)>;

    open spec fn model(&self) -> Seq<(IndexView, Seq<u8>)> {
        models(self@)
    }

    open spec fn put_spec(m: Seq<(IndexView, Seq<u8>)>) -> Seq<u8> {
        put_list_spec::<SkippedRow>(m)
    }

    open spec fn take_spec(b: Seq<u8>) -> Option<(Seq<(IndexView, Seq<u8>)>, Seq<u8>)> {
        take_list_spec::<SkippedRow>(b)
    }

    open spec fn fits(m: Seq<(IndexView, Seq<u8>)>) -> bool {
        list_fits::<SkippedRow>(m)
    }

    fn put(&self, out: &mut Vec<u8>) {
        put_list(out, self);
    }

    fn take(b: &[u8]) -> (r: Option<(Self, &[u8])>) {
        take_list::<SkippedRow>(b)
    }

    proof fn round_trip(m: Seq<(IndexView, Seq<u8>)>, rest: Seq<u8>) {
        list_round_trip::<SkippedRow>(m, rest);
    }
}

/// A flat form of a [`RatchetState`] for its record.
pub struct SerializableRatchetState {
    pub dhs: [u8; 32],
    pub dhs_pub: [u8; 32],
    pub dhr: Option<[u8; 32]>,
    pub rk: [u8; 32],
    pub cks: Option<[u8; 32]>,
    pub ckr: Option<[u8; 32]>,
    pub ns: u64,
    pub nr: u64,
    pub pn: u64,
    pub total_recv: u64,
    /// The skipped keys as a list.
    pub mkskipped: Vec<(SkippedKeyIndex, [u8; 32])>,
}

/// What a [`SerializableRatchetState`] means.
#[verifier::ext_equal]
pub struct FlatView {
    pub dhs: Seq<u8>,
    pub dhs_pub: Seq<u8>,
    pub dhr: Option<Seq<u8>>,
    pub rk: Seq<u8>,
    pub cks: Option<Seq<u8>>,
    pub ckr: Option<Seq<u8>>,
    pub ns: u64,
    pub nr: u64,
    pub pn: u64,
    pub total_recv: u64,
    pub rows: Seq<(IndexView, Seq<u8>)>,
}

/// The fields of a ratchet, in the order of its record.
pub type RatchetRecord = (
    [u8; 32],
    (
        [u8; 32],
        (
            Option<[u8; 32]>,
            (
                [u8; 32],
                (
                    Option<[u8; 32]>,
                    (Option<[u8; 32]>, (u64, (u64, (u64, (u64, Vec<SkippedRow>))))),
                ),
            ),
        ),
    ),
);

impl View for SerializableRatchetState {
    type V = FlatView;

    open spec fn view(&self) -> FlatView {
        FlatView {
            dhs: self.dhs@,
            dhs_pub: self.dhs_pub@,
            dhr: self.dhr.model(),
            rk: self.rk@,
            cks: self.cks.model(),
            ckr: self.ckr.model(),
            ns: self.ns,
            nr: self.nr,
            pn: self.pn,
            total_recv: self.total_recv,
            rows: models(self.mkskipped@),
        }
    }
}

impl FlatView {
    /// The fields in the order of the record.
    pub open spec fn fields(self) -> <RatchetRecord as Record>::Model {
        (
            self.dhs,
            (
                self.dhs_pub,
                (
                    self.dhr,
                    (
                        self.rk,
                        (
                            self.cks,
                            (
                                self.ckr,
                                (self.ns, (self.nr, (self.pn, (self.total_recv, self.rows)))),
                            ),
                        ),
                    ),
                ),
            ),
        )
    }

    /// The flat form of the fields of a record.
    pub open spec fn of_fields(f: <RatchetRecord as Record>::Model) -> FlatView {
        let g = f.1.1.1.1.1.1;
        FlatView {
            dhs: f.0,
            dhs_pub: f.1.0,
            dhr: f.1.1.0,
            rk: f.1.1.1.0,
            cks: f.1.1.1.1.0,
            ckr: f.1.1.1.1.1.0,
            ns: g.0,
            nr: g.1.0,
            pn: g.1.1.0,
            total_recv: g.1.1.1.0,
            rows: g.1.1.1.1,
        }
    }
}

/// The last fields of a ratchet's record.
pub type CountersRecord = (u64, (u64, (u64, (u64, Vec<SkippedRow>))));

impl SerializableRatchetState {
    /// Writes the counters and the skipped keys.
    fn put_counters(&self, out: &mut Vec<u8>)
        ensures
            final(out)@ == old(out)@ + CountersRecord::put_spec(
                (self.ns, (self.nr, (self.pn, (self.total_recv, models(self.mkskipped@))))),
            ),
            list_fits::<SkippedRow>(models(self.mkskipped@)),
    {
        self.ns.put(out);
        self.nr.put(out);
        self.pn.put(out);
        self.total_recv.put(out);
        put_list(out, &self.mkskipped);
        assert(out@ =~= old(out)@ + CountersRecord::put_spec(
            (self.ns, (self.nr, (self.pn, (self.total_recv, models(self.mkskipped@))))),
        ));
    }
}

impl Record for SerializableRatchetState {
    type Model = FlatView;

    open spec fn model(&self) -> FlatView {
        self@
    }

    open spec fn put_spec(m: FlatView) -> Seq<u8> {
        RatchetRecord::put_spec(m.fields())
    }

    open spec fn take_spec(b: Seq<u8>) -> Option<(FlatView, Seq<u8>)> {
        match RatchetRecord::take_spec(b) {
            Some((f, rest)) => Some((FlatView::of_fields(f), rest)),
            None => None,
        }
    }

    open spec fn fits(m: FlatView) -> bool {
        RatchetRecord::fits(m.fields())
    }

    fn put(&self, out: &mut Vec<u8>) {
        self.dhs.put(out);
        self.dhs_pub.put(out);
        self.dhr.put(out);
        self.rk.put(out);
        self.cks.put(out);
        self.ckr.put(out);
        self.put_counters(out);
        assert(out@ =~= old(out)@ + Self::put_spec(self.model()));
    }

    fn take(b: &[u8]) -> (r: Option<(Self, &[u8])>) {
        match RatchetRecord::take(b) {
            Some((f, rest)) => {
                let (
                    dhs,
                    (
                        dhs_pub,
                        (dhr, (rk, (cks, (ckr, (ns, (nr, (pn, (total_recv, mkskipped)))))))),
                    ),
                ) = f;
                Some(
                    (
                        SerializableRatchetState {
                            dhs,
                            dhs_pub,
                            dhr,
                            rk,
                            cks,
                            ckr,
                            ns,
                            nr,
                            pn,
                            total_recv,
                            mkskipped,
                        },
                        rest,
                    ),
                )
            },
            None => None,
        }
    }

    proof fn round_trip(m: FlatView, rest: Seq<u8>) {
        RatchetRecord::round_trip(m.fields(), rest);
    }
}

/// The buffer that a list of skipped keys makes, one after the other.
pub open spec fn collected(rows: Seq<(IndexView, Seq<u8>)>) -> Map<SkippedName, SkippedEntry>
    decreases rows.len(),
{
    if rows.len() == 0 {
        Map::empty()
    } else {
        let (index, key) = rows.last();
        buffered(
            collected(rows.drop_last()),
            (index.dh_ratchet_pub, index.msg_num),
            key,
            index.stored_at,
        )
    }
}

/// The state that a flat form stands for. The oldest keys give way where there
/// are too many.
pub open spec fn unflattened(f: FlatView) -> RatchetView {
    RatchetView {
        dhs: f.dhs,
        dhs_pub: f.dhs_pub,
        dhr: f.dhr,
        rk: f.rk,
        cks: f.cks,
        ckr: f.ckr,
        ns: f.ns,
        nr: f.nr,
        pn: f.pn,
        total_recv: f.total_recv,
        skipped: trimmed(collected(f.rows), MAX_SKIP as nat),
    }
}

/// A flat form stands for a state with a bounded buffer.
pub proof fn lemma_unflattened_is_bounded(f: FlatView)
    ensures
        bounded(unflattened(f)),
{
    lemma_collected_is_finite(f.rows);
    lemma_trimmed(collected(f.rows), MAX_SKIP as nat);
}

/// A list makes a finite buffer.
proof fn lemma_collected_is_finite(rows: Seq<(IndexView, Seq<u8>)>)
    ensures
        collected(rows).dom().finite(),
    decreases rows.len(),
{
    if rows.len() > 0 {
        lemma_collected_is_finite(rows.drop_last());
        let (index, _) = rows.last();
        let name = (index.dh_ratchet_pub, index.msg_num);
        assert(collected(rows).dom() =~= collected(rows.drop_last()).dom().insert(name));
    }
}

/// Whether a list of rows names nothing twice and makes the buffer `m`.
proof fn lemma_collected(s: Seq<(SkippedKeyIndex, MessageKey)>, rows: Seq<(IndexView, Seq<u8>)>)
    requires
        names_differ(s),
        rows.len() == s.len(),
        forall|i: int|
            0 <= i < s.len() ==> #[trigger] rows[i] == (s[i].0.model(), s[i].1.0@),
    ensures
        collected(rows) == entries_map(s),
    decreases s.len(),
{
    if s.len() == 0 {
        lemma_no_entries(s);
    } else {
        lemma_collected(s.drop_last(), rows.drop_last());
        lemma_last_entry(s);
        assert(rows.last() == rows[s.len() - 1]);
        assert(s.last() == s[s.len() - 1]);
    }
}

impl RatchetState {
    /// The flat form for the record.
    pub fn to_serializable(&self) -> (r: SerializableRatchetState)
        requires
            self.wf(),
        ensures
            unflattened(r@) == self@,
            r@.rows.len() <= MAX_SKIP,
    {
        let mkskipped = self.mkskipped.list();
        let cks = match &self.cks {
            Some(k) => Some(k.0),
            None => None,
        };
        let ckr = match &self.ckr {
            Some(k) => Some(k.0),
            None => None,
        };
        let r = SerializableRatchetState {
            dhs: self.dhs,
            dhs_pub: self.dhs_pub,
            dhr: self.dhr,
            rk: self.rk,
            cks,
            ckr,
            ns: self.ns,
            nr: self.nr,
            pn: self.pn,
            total_recv: self.total_recv,
            mkskipped,
        };
        proof {
            self.mkskipped.listing();
            lemma_collected(self.mkskipped.listed(), r@.rows);
            lemma_trimmed(self@.skipped, MAX_SKIP as nat);
            assert(unflattened(r@) =~= self@);
        }
        r
    }

    /// The state that a flat form stands for.
    pub fn from_serializable(s: SerializableRatchetState) -> (r: Self)
        ensures
            r.wf(),
            r@ == unflattened(s@),
    {
        let mut mkskipped = SkippedKeys::new();
        let mut i: usize = 0;
        let ghost rows = s@.rows;
        while i < s.mkskipped.len()
            invariant
                i <= s.mkskipped@.len(),
                mkskipped.wf(),
                rows == models(s.mkskipped@),
                mkskipped@ == collected(rows.take(i as int)),
            decreases s.mkskipped@.len() - i,
        {
            let e = &s.mkskipped[i];
            mkskipped.insert(
                SkippedKeyIndex {
                    dh_ratchet_pub: e.0.dh_ratchet_pub,
                    msg_num: e.0.msg_num,
                    stored_at: e.0.stored_at,
                },
                MessageKey(e.1),
            );
            proof {
                let t = rows.take(i + 1);
                assert(t.drop_last() =~= rows.take(i as int));
                assert(t.last() == rows[i as int]);
            }
            i = i + 1;
        }
        assert(rows.take(i as int) =~= rows);
        proof {
            mkskipped.listing();
            lemma_trimmed(mkskipped@, MAX_SKIP as nat);
        }
        mkskipped.trim_to(MAX_SKIP as usize);
        let cks = match s.cks {
            Some(k) => Some(ChainKey(k)),
            None => None,
        };
        let ckr = match s.ckr {
            Some(k) => Some(ChainKey(k)),
            None => None,
        };
        let r = RatchetState {
            dhs: s.dhs,
            dhs_pub: s.dhs_pub,
            dhr: s.dhr,
            rk: s.rk,
            cks,
            ckr,
            ns: s.ns,
            nr: s.nr,
            pn: s.pn,
            total_recv: s.total_recv,
            mkskipped,
        };
        assert(r@ =~= unflattened(s@));
        r
    }

    /// Encrypts the state under a key of its conversation.
    pub fn to_encrypted_bytes(&self, key: &SymKey) -> (r: Result<Vec<u8>, CryptoError>)
        requires
            self.wf(),
        ensures
            r matches Ok(ct) && reads_as(key@, ct@, self@) && drawn_nonce(
                ct@.take(AEAD_NONCE_LEN as int),
            ),
    {
        let s = self.to_serializable();
        let mut plain: Vec<u8> = Vec::new();
        s.put(&mut plain);
        proof {
            assert(plain@ =~= SerializableRatchetState::put_spec(s@));
            SerializableRatchetState::round_trip(s@, seq![]);
            assert(plain@ + seq![] =~= plain@);
            lemma_record_len(s@);
        }
        aead_encrypt(key, &plain, "op4-ratchet-v1".as_bytes())
    }

    /// Decrypts a state. What does not decrypt and what does not decode both
    /// fail as a decryption.
    pub fn from_encrypted_bytes(key: &SymKey, ct: &[u8]) -> (r: Result<Self, CryptoError>)
        ensures
            match r {
                Ok(s) => s.wf() && reads_as(key@, ct@, s@),
                Err(e) => e == CryptoError::AeadDecrypt && stored_state(key@, ct@) is None,
            },
    {
        let plain = match aead_decrypt(key, ct, "op4-ratchet-v1".as_bytes()) {
            Ok(p) => p,
            Err(e) => {
                return Err(e);
            },
        };
        match SerializableRatchetState::take(&plain) {
            Some((s, _)) => Ok(Self::from_serializable(s)),
            None => Err(CryptoError::AeadDecrypt),
        }
    }
}

/// The state that an encrypted state reads as under `key`, if it does.
pub open spec fn stored_state(key: Seq<u8>, ct: Seq<u8>) -> Option<RatchetView> {
    match opened(key, ct, "op4-ratchet-v1".spec_bytes()) {
        Some(plain) => match SerializableRatchetState::take_spec(plain) {
            Some((f, _)) => Some(unflattened(f)),
            None => None,
        },
        None => None,
    }
}

/// Whether an encrypted state `ct` reads as `v` under `key`.
pub open spec fn reads_as(key: Seq<u8>, ct: Seq<u8>, v: RatchetView) -> bool {
    stored_state(key, ct) == Some(v)
}

/// The record of a list of skipped keys takes up to 84 bytes for each.
proof fn lemma_rows_len(rows: Seq<(IndexView, Seq<u8>)>)
    requires
        list_fits::<SkippedRow>(rows),
    ensures
        put_all::<SkippedRow>(rows).len() <= 84 * rows.len(),
    decreases rows.len(),
{
    if rows.len() > 0 {
        let (index, key) = rows.last();
        assert(SkippedRow::fits(rows[rows.len() - 1]));
        assert(list_fits::<SkippedRow>(rows.drop_last())) by {
            assert forall|i: int| 0 <= i < rows.drop_last().len() implies SkippedRow::fits(
                #[trigger] rows.drop_last()[i],
            ) by {
                assert(SkippedRow::fits(rows[i]));
            }
        }
        lemma_rows_len(rows.drop_last());
        varint_len(index.msg_num);
        varint_len(index.stored_at);
    }
}

/// The record of a state with a bounded buffer is short enough to be
/// encrypted.
proof fn lemma_record_len(f: FlatView)
    requires
        SerializableRatchetState::fits(f),
        f.rows.len() <= MAX_SKIP,
    ensures
        sealable(SerializableRatchetState::put_spec(f).len()),
{
    lemma_rows_len(f.rows);
    varint_len(f.ns);
    varint_len(f.nr);
    varint_len(f.pn);
    varint_len(f.total_recv);
    varint_len(f.rows.len() as u64);
    let counters = CountersRecord::put_spec((f.ns, (f.nr, (f.pn, (f.total_recv, f.rows)))));
    assert(counters.len() <= 50 + 84 * MAX_SKIP);
}

/// An encrypted state reads as one state: what is read back is what was
/// written.
pub proof fn encrypted_state_round_trip(
    key: Seq<u8>,
    ct: Seq<u8>,
    written: RatchetView,
    read: RatchetView,
)
    requires
        reads_as(key, ct, written),
        reads_as(key, ct, read),
    ensures
        read == written,
{
}

} // verus!
