//! What the keys and tags of the protocol take in: laws that nothing which
//! should count is left out of them.
use crate::bytes;
use crate::bytes::be64;
use crate::codec::{bytes_round_trip, put_bytes_spec, Record};
use crate::crypto::handshake::{
    alice_session, bob_session, bob_spec, candidate, first_match, prekey, session_of, InitView,
};
use crate::crypto::hmac_auth::mac_input;
use crate::crypto::keys::{hybrid_secret, hybrid_valid, BundleView, PublicKeyBundle};
use crate::crypto::ratchet::{aead_of, chain_at, mac_of, mk_of, next_ck, rk_step, zeros};
use crate::crypto::suite::{
    ed25519_valid, hkdf_sha256, hmac_sha256, mldsa_valid, x25519, MLKEM_CT_LEN,
};
use vstd::prelude::*;
use vstd::string::StringSliceAdditionalSpecFns;

verus! {

/// A tag covers the conversation, the counter and the ciphertext: what it is
/// computed from is the same for two messages only where all three are.
pub proof fn tags_cover_the_message(
    a: Seq<u8>,
    b: Seq<u8>,
    m: u64,
    n: u64,
    x: Seq<u8>,
    y: Seq<u8>,
)
    requires
        a.len() == 32,
        b.len() == 32,
        mac_input(a, m, x) == mac_input(b, n, y),
    ensures
        a == b,
        m == n,
        x == y,
{
    let s = mac_input(a, m, x);
    let t = mac_input(b, n, y);
    assert(be64(m).len() == 8 && be64(n).len() == 8);
    assert(a =~= s.subrange(0, 32));
    assert(b =~= t.subrange(0, 32));
    assert(be64(m) =~= s.subrange(32, 40));
    assert(be64(n) =~= t.subrange(32, 40));
    bytes::be64_tells_numbers_apart(m, n);
    assert(x =~= s.skip(40));
    assert(y =~= t.skip(40));
}

/// A signature counts only where both of its halves are valid.
pub proof fn both_signatures_are_needed(
    ed_vk: Seq<u8>,
    dsa_vk: Seq<u8>,
    message: Seq<u8>,
    ed25519: Seq<u8>,
    mldsa: Seq<u8>,
)
    ensures
        !ed25519_valid(ed_vk, message, ed25519) ==> !hybrid_valid(
            ed_vk,
            dsa_vk,
            message,
            ed25519,
            mldsa,
        ),
        !mldsa_valid(dsa_vk, message, mldsa) ==> !hybrid_valid(
            ed_vk,
            dsa_vk,
            message,
            ed25519,
            mldsa,
        ),
        ed25519_valid(ed_vk, message, ed25519) && mldsa_valid(dsa_vk, message, mldsa)
            ==> hybrid_valid(ed_vk, dsa_vk, message, ed25519, mldsa),
{
}

/// The tag of a handshake covers the identity of the initiator, the ephemeral
/// key and the encapsulation: what it is computed from is the same for two
/// handshakes only where all three are.
#[verifier::rlimit(50)]
pub proof fn handshake_tag_covers_the_keys(a: InitView, b: InitView)
    requires
        PublicKeyBundle::fits(a.identity),
        PublicKeyBundle::fits(b.identity),
        a.ek.len() == 32,
        b.ek.len() == 32,
        a.mlkem_ct.len() <= usize::MAX,
        b.mlkem_ct.len() <= usize::MAX,
        a.mac_input() == b.mac_input(),
    ensures
        a.identity == b.identity,
        a.ek == b.ek,
        a.mlkem_ct == b.mlkem_ct,
{
    let x = a.ek + put_bytes_spec(a.mlkem_ct);
    let y = b.ek + put_bytes_spec(b.mlkem_ct);
    PublicKeyBundle::round_trip(a.identity, x);
    PublicKeyBundle::round_trip(b.identity, y);
    assert(a.mac_input() =~= a.identity.bytes() + x);
    assert(b.mac_input() =~= b.identity.bytes() + y);
    assert(x == y);
    assert(a.ek =~= x.subrange(0, 32));
    assert(b.ek =~= y.subrange(0, 32));
    let p = put_bytes_spec(a.mlkem_ct);
    let q = put_bytes_spec(b.mlkem_ct);
    assert(p =~= x.skip(32));
    assert(q =~= y.skip(32));
    bytes_round_trip(a.mlkem_ct, seq![]);
    bytes_round_trip(b.mlkem_ct, seq![]);
    assert(p + seq![] =~= p);
    assert(q + seq![] =~= q);
}

/// The session key takes in every agreement, each in its place, and the one with
/// a one-time prekey behind them where there is one.
pub proof fn session_keys_take_in_every_agreement(
    dh1: Seq<u8>,
    dh2: Seq<u8>,
    dh3: Seq<u8>,
    dh4: Seq<u8>,
    dh5: Option<Seq<u8>>,
)
    requires
        dh1.len() == 32,
        dh2.len() == 32,
        dh3.len() == 32,
        dh4.len() == 32,
    ensures
        exists|ikm: Seq<u8>|
            {
                &&& session_of(dh1, dh2, dh3, dh4, dh5) == #[trigger] hkdf_sha256(
                    Some(zeros()),
                    ikm,
                    "op4-x3dh-v1".spec_bytes(),
                    32,
                )
                &&& ikm.subrange(0, 32) == dh1
                &&& ikm.subrange(32, 64) == dh2
                &&& ikm.subrange(64, 96) == dh3
                &&& ikm.subrange(96, 128) == dh4
                &&& match dh5 {
                    Some(d) => ikm.skip(128) == d,
                    None => ikm.len() == 128,
                }
            },
{
    let front = dh1 + dh2 + dh3 + dh4;
    let ikm = match dh5 {
        Some(d) => front + d,
        None => front,
    };
    assert(ikm.subrange(0, 32) =~= dh1);
    assert(ikm.subrange(32, 64) =~= dh2);
    assert(ikm.subrange(64, 96) =~= dh3);
    assert(ikm.subrange(96, 128) =~= dh4);
    if let Some(d) = dh5 {
        assert(ikm.skip(128) =~= d);
    }
    assert(session_of(dh1, dh2, dh3, dh4, dh5) == hkdf_sha256(
        Some(zeros()),
        ikm,
        "op4-x3dh-v1".spec_bytes(),
        32,
    ));
}

/// The initiator agrees on both of its keys with the identity of the responder,
/// on the ephemeral one with the prekey, and on it with the one-time prekey
/// where the bundle has one.
pub proof fn initiator_uses_every_key(
    identity: Seq<u8>,
    ephemeral: Seq<u8>,
    bob: BundleView,
    mlkem_ss: Seq<u8>,
)
    ensures
        exists|dh5: Option<Seq<u8>>|
            {
                &&& alice_session(identity, ephemeral, bob, mlkem_ss) == #[trigger] session_of(
                    x25519(identity, bob.x25519_pub),
                    x25519(ephemeral, bob.x25519_pub),
                    x25519(ephemeral, prekey(bob)),
                    hybrid_secret(x25519(ephemeral, bob.x25519_pub), mlkem_ss),
                    dh5,
                )
                &&& bob.opk_pubs.len() > 0 <==> dh5 is Some
                &&& bob.opk_pubs.len() > 0 ==> dh5 == Some(x25519(ephemeral, bob.opk_pubs[0]))
            },
        bob.ratchet_pub != zeros() ==> prekey(bob) == bob.ratchet_pub,
        bob.ratchet_pub == zeros() ==> prekey(bob) == bob.x25519_pub,
{
    let dh5: Option<Seq<u8>> = if bob.opk_pubs.len() > 0 {
        Some(x25519(ephemeral, bob.opk_pubs[0]))
    } else {
        None
    };
    assert(alice_session(identity, ephemeral, bob, mlkem_ss) == session_of(
        x25519(identity, bob.x25519_pub),
        x25519(ephemeral, bob.x25519_pub),
        x25519(ephemeral, prekey(bob)),
        hybrid_secret(x25519(ephemeral, bob.x25519_pub), mlkem_ss),
        dh5,
    ));
}

/// The hybrid secret takes in both shared secrets, so that neither alone gives
/// it away.
pub proof fn hybrid_secrets_take_in_both(x25519_ss: Seq<u8>, mlkem_ss: Seq<u8>)
    requires
        x25519_ss.len() == 32,
    ensures
        exists|ikm: Seq<u8>|
            {
                &&& hybrid_secret(x25519_ss, mlkem_ss) == #[trigger] hkdf_sha256(
                    None,
                    ikm,
                    "op4-hybrid-kem-v1".spec_bytes(),
                    32,
                )
                &&& ikm.take(32) == x25519_ss
                &&& ikm.skip(32) == mlkem_ss
            },
{
    let ikm = x25519_ss + mlkem_ss;
    assert(ikm.take(32) =~= x25519_ss);
    assert(ikm.skip(32) =~= mlkem_ss);
    assert(hybrid_secret(x25519_ss, mlkem_ss) == hkdf_sha256(
        None,
        ikm,
        "op4-hybrid-kem-v1".spec_bytes(),
        32,
    ));
}

/// A responder reads a handshake under the first session key whose tag is right,
/// the one without a one-time prekey or that of any of its prekeys, wherever it
/// stands in the list; without one it is refused.
pub proof fn first_key_that_fits_is_used(
    identity: Seq<u8>,
    ratchet: Seq<u8>,
    dk: Seq<u8>,
    msg: InitView,
    opks: Seq<Seq<u8>>,
)
    requires
        msg.mlkem_ct.len() == MLKEM_CT_LEN,
    ensures
        match bob_spec(identity, ratchet, dk, msg, opks) {
            Ok((_, key, i)) => {
                &&& i <= opks.len()
                &&& i == 0 ==> key == bob_session(identity, ratchet, dk, msg, None)
                &&& i > 0 ==> key == bob_session(identity, ratchet, dk, msg, Some(opks[i - 1]))
                &&& msg.mac == hmac_sha256(key, msg.mac_input())
            },
            Err(_) => true,
        },
        match first_match(identity, ratchet, dk, msg, opks, 0) {
            Some(i) => i <= opks.len() && forall|j: nat|
                j < i ==> msg.mac != hmac_sha256(
                    bob_session(identity, ratchet, dk, msg, #[trigger] candidate(opks, j)),
                    msg.mac_input(),
                ),
            None => forall|j: nat|
                j <= opks.len() ==> msg.mac != hmac_sha256(
                    bob_session(identity, ratchet, dk, msg, #[trigger] candidate(opks, j)),
                    msg.mac_input(),
                ),
        },
{
    lemma_first_match(identity, ratchet, dk, msg, opks, 0);
}

proof fn lemma_first_match(
    identity: Seq<u8>,
    ratchet: Seq<u8>,
    dk: Seq<u8>,
    msg: InitView,
    opks: Seq<Seq<u8>>,
    from: nat,
)
    ensures
        match first_match(identity, ratchet, dk, msg, opks, from) {
            Some(i) => {
                &&& from <= i <= opks.len()
                &&& msg.mac == hmac_sha256(
                    bob_session(identity, ratchet, dk, msg, candidate(opks, i)),
                    msg.mac_input(),
                )
                &&& forall|j: nat|
                    from <= j < i ==> msg.mac != hmac_sha256(
                        bob_session(identity, ratchet, dk, msg, #[trigger] candidate(opks, j)),
                        msg.mac_input(),
                    )
            },
            None => forall|j: nat|
                from <= j <= opks.len() ==> msg.mac != hmac_sha256(
                    bob_session(identity, ratchet, dk, msg, #[trigger] candidate(opks, j)),
                    msg.mac_input(),
                ),
        },
    decreases opks.len() + 1 - from,
{
    if from <= opks.len() && msg.mac != hmac_sha256(
        bob_session(identity, ratchet, dk, msg, candidate(opks, from)),
        msg.mac_input(),
    ) {
        lemma_first_match(identity, ratchet, dk, msg, opks, from + 1);
    }
}

/// A chain moves on with every message, and what it moves on to is derived apart
/// from the message key: both come from the chain key, under different inputs.
pub proof fn chains_move_on(ck: Seq<u8>, a: nat, b: nat)
    ensures
        exists|x: Seq<u8>, y: Seq<u8>|
            {
                &&& x != y
                &&& mk_of(ck) == #[trigger] hmac_sha256(ck, x)
                &&& next_ck(ck) == #[trigger] hmac_sha256(ck, y)
            },
        chain_at(ck, 0) == ck,
        chain_at(ck, 1) == next_ck(ck),
        chain_at(chain_at(ck, a), b) == chain_at(ck, a + b),
{
    let x = seq![1u8];
    let y = seq![2u8];
    assert(x[0] != y[0]);
    assert(mk_of(ck) == hmac_sha256(ck, x));
    assert(next_ck(ck) == hmac_sha256(ck, y));
    reveal_with_fuel(chain_at, 2);
    lemma_chain_at(ck, a, b);
}

proof fn lemma_chain_at(ck: Seq<u8>, a: nat, b: nat)
    ensures
        chain_at(chain_at(ck, a), b) == chain_at(ck, a + b),
    decreases b,
{
    if b > 0 {
        lemma_chain_at(ck, a, (b - 1) as nat);
    }
}

/// A message key is split into two keys that share no byte, and a root key and a
/// shared secret into the next root key and a chain key likewise.
pub proof fn derived_keys_share_nothing(mk: Seq<u8>, rk: Seq<u8>, dh: Seq<u8>)
    requires
        hkdf_sha256(Some(zeros()), mk, "op4-ratchet-mk-split-v1".spec_bytes(), 64).len() == 64,
        hkdf_sha256(Some(rk), dh, "op4-ratchet-rk-v1".spec_bytes(), 64).len() == 64,
    ensures
        aead_of(mk).len() == 32,
        mac_of(mk).len() == 32,
        aead_of(mk) + mac_of(mk) == hkdf_sha256(
            Some(zeros()),
            mk,
            "op4-ratchet-mk-split-v1".spec_bytes(),
            64,
        ),
        ({
            let (next, ck) = rk_step(rk, dh);
            &&& next.len() == 32
            &&& ck.len() == 32
            &&& next + ck == hkdf_sha256(Some(rk), dh, "op4-ratchet-rk-v1".spec_bytes(), 64)
        }),
{
    let s = hkdf_sha256(Some(zeros()), mk, "op4-ratchet-mk-split-v1".spec_bytes(), 64);
    let t = hkdf_sha256(Some(rk), dh, "op4-ratchet-rk-v1".spec_bytes(), 64);
    assert(s.take(32) + s.skip(32) =~= s);
    assert(t.take(32) + t.skip(32) =~= t);
}

} // verus!
