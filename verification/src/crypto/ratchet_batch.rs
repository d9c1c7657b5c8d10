//! What the double ratchet promises of a batch of messages: sent one behind
//! the other, they may arrive in any order, and all of them open.
use crate::crypto::primitives::seals;
use crate::crypto::ratchet::{
    aead_of, agrees, alice_start, bob_start, buffer_chain, chain_at, decrypt_in_chain, decrypt_spec,
    dh_stepped, encrypt_spec, mac_of, mk_of, next_ck, received, skipped_to, HeaderView, RatchetView,
    MAX_SKIP,
};
use crate::crypto::ratchet_laws::{
    any_order_delivery, deliverable, follows, lemma_buffer_chain, session_starts_in_step,
};
use crate::crypto::skipped::{kept, lemma_trimmed, SkippedEntry, SkippedName};
use crate::crypto::suite::x25519_base;
use crate::error::CryptoError;
use vstd::prelude::*;

verus! {

/// The sender once it has sent the first `k` plaintexts.
pub open spec fn sent(v: RatchetView, plaintexts: Seq<Seq<u8>>, k: nat) -> RatchetView
    decreases k,
{
    if k == 0 {
        v
    } else {
        encrypt_spec(
            sent(v, plaintexts, (k - 1) as nat),
            plaintexts[k - 1],
            seq![],
        ).0
    }
}

/// Whether the messages, each a header and a ciphertext, are what sending the
/// plaintexts one behind the other gives.
pub open spec fn is_batch(
    v: RatchetView,
    plaintexts: Seq<Seq<u8>>,
    messages: Seq<(HeaderView, Seq<u8>)>,
) -> bool {
    &&& messages.len() == plaintexts.len()
    &&& forall|i: int|
        0 <= i < messages.len() ==> {
            let s = sent(v, plaintexts, i as nat);
            let (header, ct) = #[trigger] messages[i];
            &&& header == (HeaderView { dh_pub: s.dhs_pub, pn: s.pn, n: s.ns })
            &&& seals(aead_of(mk_of(s.cks->0)), plaintexts[i], header.bytes(), ct)
        }
}

/// What receiving one message makes of the state, and what comes out.
pub open spec fn receiving(v: RatchetView, message: (HeaderView, Seq<u8>), fresh: Seq<u8>) -> (
    RatchetView,
    Result<(Seq<u8>, Seq<u8>), CryptoError>,
) {
    decrypt_spec(v, message.0, message.1, fresh)
}

/// The receiver once the first `k` messages have come in, in the order in
/// which `order` has their numbers. Each call has a secret of its own at hand.
pub open spec fn taken_in(
    v: RatchetView,
    messages: Seq<(HeaderView, Seq<u8>)>,
    order: Seq<int>,
    fresh: Seq<Seq<u8>>,
    k: nat,
) -> RatchetView
    decreases k,
{
    if k == 0 {
        v
    } else {
        receiving(
            taken_in(v, messages, order, fresh, (k - 1) as nat),
            messages[order[k - 1]],
            fresh[k - 1],
        ).0
    }
}

/// What the receiver is to get of message `i`: its plaintext, and the key that
/// the sender got for its tag.
pub open spec fn what_was_sent(v: RatchetView, plaintexts: Seq<Seq<u8>>, i: int) -> (
    Seq<u8>,
    Seq<u8>,
) {
    (plaintexts[i], mac_of(mk_of(sent(v, plaintexts, i as nat).cks->0)))
}

/// Whether `order` has every number below its length.
pub open spec fn is_order(order: Seq<int>) -> bool {
    &&& order.no_duplicates()
    &&& forall|i: int| 0 <= i < order.len() ==> 0 <= #[trigger] order[i] < order.len()
}

/// The receiver of a batch once `k` messages have come in: what is buffered
/// are the messages before its counter that have not.
pub open spec fn midway(v: RatchetView, p: Seq<u8>, c: Seq<u8>, order: Seq<int>, k: nat) -> bool {
    &&& follows(v, p, c)
    &&& v.total_recv == k
    &&& v.nr <= order.len()
    &&& k == 0 ==> v.nr == 0
    &&& v.skipped.dom().finite()
    &&& v.skipped.dom().len() + k == v.nr
    &&& forall|name: SkippedName| #[trigger] v.skipped.dom().contains(name) ==> name.0 == p
    &&& forall|i: u64|
        i < v.nr && !order.take(k as int).contains(i as int) ==> #[trigger] v.skipped.dom().contains(
            (p, i),
        )
}

/// Sending moves the sender along its chain.
proof fn lemma_sent(v: RatchetView, plaintexts: Seq<Seq<u8>>, k: nat)
    requires
        v.cks is Some,
        v.ns == 0,
        k <= u64::MAX,
    ensures
        sent(v, plaintexts, k) == (RatchetView {
            cks: Some(chain_at(v.cks->0, k)),
            ns: k as u64,
            ..v
        }),
    decreases k,
{
    if k > 0 {
        lemma_sent(v, plaintexts, (k - 1) as nat);
        assert(chain_at(v.cks->0, k) == next_ck(chain_at(v.cks->0, (k - 1) as nat)));
    } else {
        assert(chain_at(v.cks->0, 0) == v.cks->0);
    }
}

/// Buffering a stretch that is not in the buffer yet adds one key for each of
/// its messages.
proof fn lemma_buffer_exact(
    m: Map<SkippedName, SkippedEntry>,
    p: Seq<u8>,
    from: u64,
    ck: Seq<u8>,
    count: nat,
    at: u64,
)
    requires
        m.dom().finite(),
        from + count <= u64::MAX,
        forall|i: u64| from <= i ==> !#[trigger] m.dom().contains((p, i)),
    ensures
        buffer_chain(m, p, from as nat, ck, count, at).dom().finite(),
        buffer_chain(m, p, from as nat, ck, count, at).dom().len() == m.dom().len() + count,
    decreases count,
{
    if count > 0 {
        let k = (count - 1) as nat;
        lemma_buffer_exact(m, p, from, ck, k, at);
        lemma_buffer_chain(m, p, from, ck, k, at);
        let before = buffer_chain(m, p, from as nat, ck, k, at);
        let name = (p, (from + k) as u64);
        assert(!m.dom().contains((p, (from + k) as u64)));
        assert(!before.dom().contains(name));
        assert(buffer_chain(m, p, from as nat, ck, count, at).dom() =~= before.dom().insert(name));
    }
}

/// No key expires while a batch comes in.
proof fn lemma_nothing_expires(v: RatchetView)
    requires
        v.total_recv <= MAX_SKIP,
    ensures
        received(v) == (RatchetView { total_recv: (v.total_recv + 1) as u64, ..v }),
{
    assert(kept(v.skipped, 0) =~= v.skipped);
}

/// Message `order[k]` of a batch opens, and leaves the receiver one further.
proof fn lemma_step(
    v: RatchetView,
    p: Seq<u8>,
    c: Seq<u8>,
    order: Seq<int>,
    k: nat,
    header: HeaderView,
    ct: Seq<u8>,
    plaintext: Seq<u8>,
    fresh: Seq<u8>,
)
    requires
        is_order(order),
        k < order.len() <= MAX_SKIP + 1,
        midway(v, p, c, order, k),
        header.dh_pub == p,
        header.n == order[k as int],
        seals(aead_of(mk_of(chain_at(c, header.n as nat))), plaintext, header.bytes(), ct),
    ensures
        decrypt_spec(v, header, ct, fresh).1 == Ok::<(Seq<u8>, Seq<u8>), CryptoError>(
            (plaintext, mac_of(mk_of(chain_at(c, header.n as nat)))),
        ),
        midway(decrypt_spec(v, header, ct, fresh).0, p, c, order, k + 1),
{
    let n = header.n;
    let name = (p, n);
    let earlier = order.take(k as int);
    let later = order.take((k + 1) as int);
    assert(!earlier.contains(n as int));
    assert(later =~= earlier.push(n as int));
    assert(forall|i: int| later.contains(i) <==> earlier.contains(i) || i == n) by {
        assert(later[k as int] == n);
        assert forall|i: int| earlier.contains(i) implies later.contains(i) by {
            let j = choose|j: int| 0 <= j < earlier.len() && earlier[j] == i;
            assert(later[j] == i);
        }
    }
    assert(deliverable(v, p, n));
    any_order_delivery(v, p, c, header, ct, plaintext, fresh);
    let after = decrypt_spec(v, header, ct, fresh).0;
    if n < v.nr {
        assert(v.skipped.dom().contains((p, n)));
        let w = RatchetView { skipped: v.skipped.remove(name), ..v };
        assert(after == received(w));
        lemma_nothing_expires(w);
        assert(after.skipped.dom() =~= v.skipped.dom().remove(name));
        assert forall|i: u64| i < after.nr && !later.contains(i as int) implies #[trigger] after.skipped.dom().contains(
            (p, i)) by {
            assert(v.skipped.dom().contains((p, i)));
        }
    } else {
        let count = (n - v.nr) as nat;
        let s = skipped_to(v, n);
        lemma_trimmed(v.skipped, (MAX_SKIP - count) as nat);
        assert(forall|i: u64| v.nr <= i ==> !#[trigger] v.skipped.dom().contains((p, i)));
        lemma_buffer_exact(v.skipped, p, v.nr, v.ckr->0, count, v.total_recv);
        lemma_buffer_chain(v.skipped, p, v.nr, v.ckr->0, count, v.total_recv);
        assert(s.skipped == buffer_chain(
            v.skipped,
            p,
            v.nr as nat,
            v.ckr->0,
            count,
            v.total_recv,
        )) by {
            assert(buffer_chain(v.skipped, p, v.nr as nat, v.ckr->0, 0, v.total_recv) == v.skipped);
        }
        let w = RatchetView { ckr: Some(next_ck(s.ckr->0)), nr: (s.nr + 1) as u64, ..s };
        assert(!v.skipped.dom().contains((p, n)));
        assert(after == received(w));
        lemma_nothing_expires(w);
        assert forall|i: u64| i < after.nr && !later.contains(i as int) implies #[trigger] after.skipped.dom().contains(
            (p, i)) by {
            if i < v.nr {
                assert(v.skipped.dom().contains((p, i)));
            }
        }
    }
}

/// The receiver of a batch, along the way.
proof fn lemma_along(
    root_key: Seq<u8>,
    a: Seq<u8>,
    b: Seq<u8>,
    plaintexts: Seq<Seq<u8>>,
    messages: Seq<(HeaderView, Seq<u8>)>,
    order: Seq<int>,
    fresh: Seq<Seq<u8>>,
    k: nat,
)
    requires
        agrees(a, b),
        is_batch(alice_start(root_key, x25519_base(b), a), plaintexts, messages),
        is_order(order),
        order.len() == messages.len(),
        order.len() <= MAX_SKIP + 1,
        k <= order.len(),
    ensures
        k > 0 ==> midway(
            taken_in(bob_start(root_key, b), messages, order, fresh, k),
            x25519_base(a),
            alice_start(root_key, x25519_base(b), a).cks->0,
            order,
            k,
        ),
        k < order.len() ==> (receiving(
            taken_in(bob_start(root_key, b), messages, order, fresh, k),
            messages[order[k as int]],
            fresh[k as int],
        ).1 == Ok::<(Seq<u8>, Seq<u8>), CryptoError>(
            what_was_sent(
                alice_start(root_key, x25519_base(b), a),
                plaintexts,
                order[k as int],
            ),
        )),
        k < order.len() ==> midway(
            taken_in(bob_start(root_key, b), messages, order, fresh, k + 1),
            x25519_base(a),
            alice_start(root_key, x25519_base(b), a).cks->0,
            order,
            k + 1,
        ),
    decreases k,
{
    let alice = alice_start(root_key, x25519_base(b), a);
    let bob = bob_start(root_key, b);
    let c = alice.cks->0;
    let p = x25519_base(a);
    if k > 0 {
        lemma_along(root_key, a, b, plaintexts, messages, order, fresh, (k - 1) as nat);
    }
    if k < order.len() {
        let v = taken_in(bob, messages, order, fresh, k);
        let i = order[k as int];
        let (header, ct) = messages[i];
        lemma_sent(alice, plaintexts, i as nat);
        assert(taken_in(bob, messages, order, fresh, k + 1) == receiving(
            v,
            messages[i],
            fresh[k as int],
        ).0);
        if k > 0 {
            lemma_step(v, p, c, order, k, header, ct, plaintexts[i], fresh[k as int]);
        } else {
            session_starts_in_step(root_key, a, b);
            let d = dh_stepped(bob, p, fresh[0]);
            assert(skipped_to(bob, header.pn) == bob);
            assert(d.ckr == Some(chain_at(c, 0)));
            assert(d.skipped.dom() =~= Set::empty());
            assert(midway(d, p, c, order, 0));
            assert(decrypt_spec(bob, header, ct, fresh[0]) == decrypt_in_chain(d, header, ct));
            assert(decrypt_spec(d, header, ct, fresh[0]) == decrypt_in_chain(d, header, ct));
            lemma_step(d, p, c, order, 0, header, ct, plaintexts[i], fresh[0]);
        }
    }
}

/// Up to 101 messages that one side sends from the start of a session reach
/// the other in whatever order they arrive: each opens to its plaintext, with
/// the key that its sender had for its tag. Once all of them are in, they have
/// all been counted, and no key is buffered.
pub proof fn batch_is_delivered(
    root_key: Seq<u8>,
    a: Seq<u8>,
    b: Seq<u8>,
    plaintexts: Seq<Seq<u8>>,
    messages: Seq<(HeaderView, Seq<u8>)>,
    order: Seq<int>,
    fresh: Seq<Seq<u8>>,
)
    requires
        agrees(a, b),
        is_batch(alice_start(root_key, x25519_base(b), a), plaintexts, messages),
        is_order(order),
        order.len() == messages.len(),
        order.len() <= MAX_SKIP + 1,
    ensures
        forall|k: int|
            0 <= k < order.len() ==> ((#[trigger] receiving(
                taken_in(bob_start(root_key, b), messages, order, fresh, k as nat),
                messages[order[k]],
                fresh[k],
            )).1 == Ok::<(Seq<u8>, Seq<u8>), CryptoError>(
                what_was_sent(
                    alice_start(root_key, x25519_base(b), a),
                    plaintexts,
                    order[k],
                ),
            )),
        taken_in(bob_start(root_key, b), messages, order, fresh, order.len()).total_recv
            == order.len(),
        taken_in(bob_start(root_key, b), messages, order, fresh, order.len()).skipped
            == Map::<SkippedName, SkippedEntry>::empty(),
{
    let bob = bob_start(root_key, b);
    assert forall|k: int| 0 <= k < order.len() implies ((#[trigger] receiving(
        taken_in(bob, messages, order, fresh, k as nat),
        messages[order[k]],
        fresh[k],
    )).1 == Ok::<(Seq<u8>, Seq<u8>), CryptoError>(
        what_was_sent(alice_start(root_key, x25519_base(b), a), plaintexts, order[k]),
    )) by {
        lemma_along(root_key, a, b, plaintexts, messages, order, fresh, k as nat);
    }
    lemma_along(root_key, a, b, plaintexts, messages, order, fresh, order.len());
    let last = taken_in(bob, messages, order, fresh, order.len());
    if order.len() > 0 {
        last.skipped.dom().lemma_len0_is_empty();
    }
    assert(last.skipped =~= Map::<SkippedName, SkippedEntry>::empty());
}

} // verus!
