//! What the double ratchet promises of a whole conversation: messages open in
//! any order within the window, and the two sides stay in step however often
//! the direction changes.
use crate::crypto::primitives::{opened, seals};
use crate::crypto::ratchet::{
    aead_of, agrees, alice_start, bob_start, bounded, buffer_chain, chain_at, decrypt_in_chain,
    decrypt_spec, dh_stepped, encrypt_spec, lemma_buffer_count, mac_of, mk_of, next_ck, open_with,
    received, rk_step, skip_error, skipped_to, HeaderView, RatchetView, MAX_SKIP,
    SKIPPED_KEY_MAX_AGE,
};
use crate::crypto::skipped::{
    buffered, lemma_kept, lemma_trimmed, trimmed, SkippedEntry, SkippedName,
};
use crate::crypto::suite::{x25519, x25519_base};
use crate::error::CryptoError;
use vstd::prelude::*;

verus! {

/// The receiver `v` follows the sending chain `c` of the ratchet key `p`: its
/// own chain key stands at its counter, and every buffered key of the chain is
/// the right one.
pub open spec fn follows(v: RatchetView, p: Seq<u8>, c: Seq<u8>) -> bool {
    &&& v.dhr == Some(p)
    &&& v.ckr == Some(chain_at(c, v.nr as nat))
    &&& forall|i: u64| #[trigger]
        v.skipped.dom().contains((p, i)) ==> i < v.nr && v.skipped[(p, i)].key == mk_of(
            chain_at(c, i as nat),
        )
}

/// Message `n` of a followed chain can still be opened: its key is buffered,
/// or it lies ahead by no more than the window.
pub open spec fn deliverable(v: RatchetView, p: Seq<u8>, n: u64) -> bool {
    v.skipped.dom().contains((p, n)) || v.nr <= n <= v.nr + MAX_SKIP
}

/// Two chain positions add up.
proof fn lemma_chain_add(c: Seq<u8>, i: nat, j: nat)
    ensures
        chain_at(chain_at(c, i), j) == chain_at(c, i + j),
    decreases j,
{
    if j > 0 {
        lemma_chain_add(c, i, (j - 1) as nat);
        assert(chain_at(c, i + j) == next_ck(chain_at(c, (i + j - 1) as nat)));
    }
}

/// What buffering a stretch of a chain leaves in the buffer.
pub proof fn lemma_buffer_chain(
    m: Map<SkippedName, SkippedEntry>,
    p: Seq<u8>,
    from: u64,
    ck: Seq<u8>,
    count: nat,
    at: u64,
)
    requires
        from + count <= u64::MAX,
        forall|i: u64| from <= i ==> !#[trigger] m.dom().contains((p, i)),
    ensures
        forall|k: SkippedName| #[trigger]
            buffer_chain(m, p, from as nat, ck, count, at).dom().contains(k) <==> m.dom().contains(
                k,
            ) || (k.0 == p && from <= k.1 < from + count),
        forall|k: SkippedName|
            m.dom().contains(k) ==> #[trigger] buffer_chain(m, p, from as nat, ck, count, at)[k]
                == m[k],
        forall|i: u64|
            from <= i < from + count ==> #[trigger] buffer_chain(
                m,
                p,
                from as nat,
                ck,
                count,
                at,
            )[(p, i)] == (SkippedEntry { key: mk_of(chain_at(ck, (i - from) as nat)), stored_at: at }),
    decreases count,
{
    if count > 0 {
        let k = (count - 1) as nat;
        lemma_buffer_chain(m, p, from, ck, k, at);
        let before = buffer_chain(m, p, from as nat, ck, k, at);
        let name = (p, (from + k) as u64);
        assert(!before.dom().contains(name)) by {
            assert(!m.dom().contains((p, (from + k) as u64)));
        }
        assert(buffer_chain(m, p, from as nat, ck, count, at) == buffered(
            before,
            name,
            mk_of(chain_at(ck, k)),
            at,
        ));
    }
}

/// The cutoff of the expiry lies at or before the count of messages received
/// so far.
proof fn lemma_received(v: RatchetView, k: SkippedName)
    requires
        v.total_recv < u64::MAX,
    ensures
        received(v).skipped.dom().contains(k) ==> v.skipped.dom().contains(k)
            && received(v).skipped[k] == v.skipped[k],
        v.skipped.dom().contains(k) && v.skipped[k].stored_at + SKIPPED_KEY_MAX_AGE > v.total_recv
            ==> received(v).skipped.dom().contains(k),
{
}

/// How many messages are passed over on the way to number `n`.
pub open spec fn passed_over(v: RatchetView, n: u64) -> nat {
    if n > v.nr {
        (n - v.nr) as nat
    } else {
        0
    }
}

/// Any message of a followed chain that is still deliverable opens to what
/// was sealed, in whatever order messages arrive. The receiver goes on
/// following the chain, and every message that was passed over on the way is
/// deliverable afterwards. So is every message whose key was buffered before,
/// as long as all the keys fit in the buffer and this one has not expired.
pub proof fn any_order_delivery(
    v: RatchetView,
    p: Seq<u8>,
    c: Seq<u8>,
    header: HeaderView,
    ct: Seq<u8>,
    plaintext: Seq<u8>,
    fresh: Seq<u8>,
)
    requires
        bounded(v),
        follows(v, p, c),
        header.dh_pub == p,
        deliverable(v, p, header.n),
        seals(aead_of(mk_of(chain_at(c, header.n as nat))), plaintext, header.bytes(), ct),
        v.nr < u64::MAX - MAX_SKIP,
        v.total_recv < u64::MAX,
    ensures
        decrypt_spec(v, header, ct, fresh).1 == Ok::<(Seq<u8>, Seq<u8>), CryptoError>(
            (plaintext, mac_of(mk_of(chain_at(c, header.n as nat)))),
        ),
        follows(decrypt_spec(v, header, ct, fresh).0, p, c),
        forall|i: u64|
            v.nr <= i < header.n ==> #[trigger] deliverable(
                decrypt_spec(v, header, ct, fresh).0,
                p,
                i,
            ),
        forall|k: SkippedName|
            {
                &&& v.skipped.dom().contains(k)
                &&& k != (p, header.n)
                &&& v.skipped[k].stored_at + SKIPPED_KEY_MAX_AGE > v.total_recv
                &&& v.skipped.dom().len() + passed_over(v, header.n) <= MAX_SKIP
            } ==> #[trigger] decrypt_spec(v, header, ct, fresh).0.skipped.dom().contains(k)
                && decrypt_spec(v, header, ct, fresh).0.skipped[k] == v.skipped[k],
{
    let name = (header.dh_pub, header.n);
    let after = decrypt_spec(v, header, ct, fresh).0;
    if v.skipped.dom().contains(name) {
        let w = RatchetView { skipped: v.skipped.remove(name), ..v };
        assert(after == received(w));
        assert forall|i: u64| #[trigger] after.skipped.dom().contains((p, i)) implies i < after.nr
            && after.skipped[(p, i)].key == mk_of(chain_at(c, i as nat)) by {
            lemma_received(w, (p, i));
            assert(v.skipped.dom().contains((p, i)));
        }
        assert forall|k: SkippedName|
            {
                &&& v.skipped.dom().contains(k)
                &&& k != name
                &&& v.skipped[k].stored_at + SKIPPED_KEY_MAX_AGE > v.total_recv
            } implies #[trigger] after.skipped.dom().contains(k) && after.skipped[k]
            == v.skipped[k] by {
            assert(w.skipped.dom().contains(k));
            lemma_received(w, k);
        }
    } else {
        let n = header.n;
        let s = skipped_to(v, n);
        let count = (n - v.nr) as nat;
        let ck = chain_at(c, v.nr as nat);
        lemma_chain_add(c, v.nr as nat, count);
        assert(s.ckr == Some(chain_at(c, n as nat)));
        let room = if count == 0 {
            v.skipped
        } else {
            trimmed(v.skipped, (MAX_SKIP - count) as nat)
        };
        lemma_trimmed(v.skipped, (MAX_SKIP - count) as nat);
        assert(forall|i: u64| v.nr <= i ==> !#[trigger] v.skipped.dom().contains((p, i)));
        assert(forall|i: u64| v.nr <= i ==> !#[trigger] room.dom().contains((p, i)));
        lemma_buffer_chain(room, p, v.nr, ck, count, v.total_recv);
        assert(s.skipped == buffer_chain(room, p, v.nr as nat, ck, count, v.total_recv)) by {
            assert(buffer_chain(room, p, v.nr as nat, ck, 0, v.total_recv) == room);
        }
        let w = RatchetView {
            ckr: Some(next_ck(chain_at(c, n as nat))),
            nr: (s.nr + 1) as u64,
            ..s
        };
        assert(after == received(w));
        assert(chain_at(c, (n + 1) as nat) == next_ck(chain_at(c, n as nat)));
        assert forall|i: u64| #[trigger] after.skipped.dom().contains((p, i)) implies i < after.nr
            && after.skipped[(p, i)].key == mk_of(chain_at(c, i as nat)) by {
            lemma_received(w, (p, i));
            assert(s.skipped.dom().contains((p, i)));
            if i >= v.nr {
                lemma_chain_add(c, v.nr as nat, (i - v.nr) as nat);
            } else {
                assert(room.dom().contains((p, i)));
                assert(v.skipped.dom().contains((p, i)));
            }
        }
        assert forall|k: SkippedName|
            {
                &&& v.skipped.dom().contains(k)
                &&& v.skipped[k].stored_at + SKIPPED_KEY_MAX_AGE > v.total_recv
                &&& v.skipped.dom().len() + count <= MAX_SKIP
            } implies #[trigger] after.skipped.dom().contains(k) && after.skipped[k]
            == v.skipped[k] by {
            assert(room == v.skipped);
            assert(s.skipped.dom().contains(k) && s.skipped[k] == v.skipped[k]);
            lemma_received(w, k);
        }
        assert forall|i: u64| v.nr <= i < n implies #[trigger] deliverable(after, p, i) by {
            assert(s.skipped.dom().contains((p, i)));
            assert(s.skipped[(p, i)].stored_at == v.total_recv);
            lemma_received(w, (p, i));
        }
    }
}

/// The receiver `r` will find the sending chain `c` of `s` as soon as it sees
/// the ratchet key of `s`: `s` started the chain toward the key that `r` still
/// holds, from the root key that `r` still holds.
pub open spec fn awaits(r: RatchetView, s: RatchetView, c: Seq<u8>) -> bool {
    &&& (s.rk, c) == rk_step(r.rk, x25519(r.dhs, s.dhs_pub))
    &&& s.cks == Some(chain_at(c, s.ns as nat))
    &&& s.dhr == Some(r.dhs_pub)
    &&& s.dhs_pub == x25519_base(s.dhs)
}

/// A session starts with the responder awaiting the initiator's chain.
pub proof fn session_starts_in_step(root_key: Seq<u8>, a: Seq<u8>, b: Seq<u8>)
    requires
        agrees(a, b),
    ensures
        awaits(
            bob_start(root_key, b),
            alice_start(root_key, x25519_base(b), a),
            alice_start(root_key, x25519_base(b), a).cks->0,
        ),
{
    let alice = alice_start(root_key, x25519_base(b), a);
    assert(chain_at(alice.cks->0, 0) == alice.cks->0);
}

/// Sending keeps the peer awaiting the same chain, and seals under the key of
/// the message's number in it.
pub proof fn sending_stays_in_step(
    r: RatchetView,
    s: RatchetView,
    c: Seq<u8>,
    plaintext: Seq<u8>,
    nonce: Seq<u8>,
)
    requires
        awaits(r, s, c),
        s.ns < u64::MAX,
    ensures
        awaits(r, encrypt_spec(s, plaintext, nonce).0, c),
        mk_of(s.cks->0) == mk_of(chain_at(c, s.ns as nat)),
        encrypt_spec(s, plaintext, nonce).0.ns == s.ns + 1,
{
    assert(chain_at(c, (s.ns + 1) as nat) == next_ck(chain_at(c, s.ns as nat)));
}

/// The first message that arrives of an awaited chain opens to what was
/// sealed, whichever of the first ones it is. Then the receiver follows the
/// chain, and the roles are swapped: the old sender awaits the receiver's new
/// chain.
pub proof fn changing_direction_stays_in_step(
    r: RatchetView,
    s: RatchetView,
    c: Seq<u8>,
    header: HeaderView,
    ct: Seq<u8>,
    plaintext: Seq<u8>,
    fresh: Seq<u8>,
)
    requires
        bounded(r),
        awaits(r, s, c),
        header.dh_pub == s.dhs_pub,
        r.dhr != Some(s.dhs_pub),
        forall|i: u64| !#[trigger] r.skipped.dom().contains((s.dhs_pub, i)),
        skip_error(r, header.pn) is None,
        header.n <= MAX_SKIP,
        seals(aead_of(mk_of(chain_at(c, header.n as nat))), plaintext, header.bytes(), ct),
        agrees(fresh, s.dhs),
        r.nr < u64::MAX - MAX_SKIP,
        r.total_recv < u64::MAX,
    ensures
        decrypt_spec(r, header, ct, fresh).1 == Ok::<(Seq<u8>, Seq<u8>), CryptoError>(
            (plaintext, mac_of(mk_of(chain_at(c, header.n as nat)))),
        ),
        follows(decrypt_spec(r, header, ct, fresh).0, s.dhs_pub, c),
        awaits(
            s,
            decrypt_spec(r, header, ct, fresh).0,
            decrypt_spec(r, header, ct, fresh).0.cks->0,
        ),
{
    let p = s.dhs_pub;
    let w = skipped_to(r, header.pn);
    let d = dh_stepped(w, p, fresh);
    assert(w.rk == r.rk && w.dhs == r.dhs && w.total_recv == r.total_recv);
    assert(d.ckr == Some(chain_at(c, 0)));
    lemma_skipping_stays_bounded(r, header.pn);
    assert forall|i: u64| !#[trigger] d.skipped.dom().contains((p, i)) by {
        if r.nr < header.pn {
            let room = trimmed(r.skipped, (MAX_SKIP - (header.pn - r.nr)) as nat);
            lemma_trimmed(r.skipped, (MAX_SKIP - (header.pn - r.nr)) as nat);
            assert(!room.dom().contains((p, i))) by {
                assert(!r.skipped.dom().contains((p, i)));
            }
            lemma_buffer_elsewhere(
                room,
                r.dhr->0,
                r.nr as nat,
                r.ckr->0,
                (header.pn - r.nr) as nat,
                r.total_recv,
                (p, i),
            );
        }
    }
    assert(follows(d, p, c));
    assert(decrypt_spec(d, header, ct, fresh) == decrypt_in_chain(d, header, ct));
    assert(decrypt_spec(r, header, ct, fresh) == decrypt_in_chain(d, header, ct));
    any_order_delivery(d, p, c, header, ct, plaintext, fresh);
    let after = decrypt_in_chain(d, header, ct).0;
    assert(after.rk == d.rk && after.cks == d.cks && after.ns == 0 && after.dhs == fresh);
    assert(chain_at(after.cks->0, 0) == after.cks->0);
}

/// Skipping keeps the buffer of skipped keys bounded.
proof fn lemma_skipping_stays_bounded(v: RatchetView, until: u64)
    requires
        bounded(v),
        skip_error(v, until) is None,
    ensures
        bounded(skipped_to(v, until)),
{
    if v.nr < until {
        let count = (until - v.nr) as nat;
        let room = trimmed(v.skipped, (MAX_SKIP - count) as nat);
        lemma_trimmed(v.skipped, (MAX_SKIP - count) as nat);
        lemma_buffer_count(room, v.dhr->0, v.nr as nat, v.ckr->0, count, v.total_recv);
    }
}

/// Opening a message keeps the buffer of skipped keys bounded.
proof fn lemma_opening_stays_bounded(v: RatchetView, mk: Seq<u8>, header: HeaderView, ct: Seq<u8>)
    requires
        bounded(v),
    ensures
        bounded(open_with(v, mk, header, ct).0),
{
    let total = (v.total_recv + 1) as u64;
    let cutoff = if total >= SKIPPED_KEY_MAX_AGE {
        (total - SKIPPED_KEY_MAX_AGE) as u64
    } else {
        0
    };
    lemma_kept(v.skipped, cutoff);
}

/// Whatever comes in, the buffer of skipped keys holds no more than
/// [`MAX_SKIP`] keys.
pub proof fn buffer_is_bounded(v: RatchetView, header: HeaderView, ct: Seq<u8>, fresh: Seq<u8>)
    requires
        bounded(v),
    ensures
        bounded(decrypt_spec(v, header, ct, fresh).0),
{
    let name = (header.dh_pub, header.n);
    if v.skipped.dom().contains(name) {
        let w = RatchetView { skipped: v.skipped.remove(name), ..v };
        assert(w.skipped.dom() =~= v.skipped.dom().remove(name));
        lemma_opening_stays_bounded(w, v.skipped[name].key, header, ct);
    } else {
        if v.dhr == Some(header.dh_pub) {
            lemma_chain_stays_bounded(v, header, ct);
        } else if skip_error(v, header.pn) is None {
            lemma_skipping_stays_bounded(v, header.pn);
            let d = dh_stepped(skipped_to(v, header.pn), header.dh_pub, fresh);
            lemma_chain_stays_bounded(d, header, ct);
        }
    }
}

/// A message of the current chain keeps the buffer bounded.
proof fn lemma_chain_stays_bounded(v: RatchetView, header: HeaderView, ct: Seq<u8>)
    requires
        bounded(v),
    ensures
        bounded(decrypt_in_chain(v, header, ct).0),
{
    if skip_error(v, header.n) is None {
        lemma_skipping_stays_bounded(v, header.n);
        let w = skipped_to(v, header.n);
        if let Some(ck) = w.ckr {
            let x = RatchetView { ckr: Some(next_ck(ck)), nr: (w.nr + 1) as u64, ..w };
            lemma_opening_stays_bounded(x, mk_of(ck), header, ct);
        }
    }
}

/// Buffering keys of one ratchet key leaves the names of others alone.
proof fn lemma_buffer_elsewhere(
    m: Map<SkippedName, SkippedEntry>,
    q: Seq<u8>,
    from: nat,
    ck: Seq<u8>,
    count: nat,
    at: u64,
    k: SkippedName,
)
    requires
        k.0 != q,
    ensures
        buffer_chain(m, q, from, ck, count, at).dom().contains(k) == m.dom().contains(k),
    decreases count,
{
    if count > 0 {
        lemma_buffer_elsewhere(m, q, from, ck, (count - 1) as nat, at, k);
    }
}

/// Each message carries the next number of its chain, and only a message that
/// opens counts as received.
pub proof fn counters_are_monotonic(
    v: RatchetView,
    plaintext: Seq<u8>,
    nonce: Seq<u8>,
    header: HeaderView,
    ct: Seq<u8>,
    fresh: Seq<u8>,
)
    requires
        v.ns < u64::MAX,
        v.total_recv < u64::MAX,
    ensures
        encrypt_spec(v, plaintext, nonce).1 matches Ok((h, _, _)) ==> h.n == v.ns && encrypt_spec(
            v,
            plaintext,
            nonce,
        ).0.ns == v.ns + 1,
        decrypt_spec(v, header, ct, fresh).0.total_recv == (if decrypt_spec(
            v,
            header,
            ct,
            fresh,
        ).1 is Ok {
            v.total_recv + 1
        } else {
            v.total_recv as int
        }),
{
}

/// After a message has opened, no buffered key is older than the limit.
pub proof fn old_keys_expire(v: RatchetView, header: HeaderView, ct: Seq<u8>, fresh: Seq<u8>)
    requires
        v.total_recv < u64::MAX,
        decrypt_spec(v, header, ct, fresh).1 is Ok,
    ensures
        forall|k: SkippedName| #[trigger]
            decrypt_spec(v, header, ct, fresh).0.skipped.dom().contains(k)
                ==> decrypt_spec(v, header, ct, fresh).0.skipped[k].stored_at + SKIPPED_KEY_MAX_AGE
                >= decrypt_spec(v, header, ct, fresh).0.total_recv,
{
}

/// A buffered key opens one message: it is gone once it has been used.
pub proof fn skipped_keys_are_used_once(
    v: RatchetView,
    header: HeaderView,
    ct: Seq<u8>,
    fresh: Seq<u8>,
)
    requires
        v.skipped.dom().contains((header.dh_pub, header.n)),
        v.total_recv < u64::MAX,
    ensures
        !decrypt_spec(v, header, ct, fresh).0.skipped.dom().contains((header.dh_pub, header.n)),
{
}

} // verus!
