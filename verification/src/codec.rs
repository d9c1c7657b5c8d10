//! The record encoding: integers and lengths as little-endian base-128
//! varints, byte strings and text behind their length, everything else as it
//! stands. A record is the concatenation of its fields.
use vstd::prelude::*;
use vstd::utf8::{decode_utf8, encode_utf8, valid_utf8};

verus! {

/// The base-128 varint of `n`, least significant group first.
pub open spec fn varint(n: nat) -> Seq<u8>
    decreases n,
{
    if n < 128 {
        seq![n as u8]
    } else {
        seq![(n % 128 + 128) as u8] + varint(n / 128)
    }
}

/// Reads a varint of at most `left` bytes off the front of `b`: its value and
/// the number of bytes it takes. A `left`-th byte above `last` is refused.
pub open spec fn varint_prefix(b: Seq<u8>, left: nat, last: u8) -> Option<(nat, nat)>
    decreases left,
{
    if left == 0 || b.len() == 0 {
        None
    } else if b[0] < 128 {
        if left == 1 && b[0] > last {
            None
        } else {
            Some((b[0] as nat, 1))
        }
    } else {
        match varint_prefix(b.skip(1), (left - 1) as nat, last) {
            Some((v, k)) => Some(((b[0] - 128 + 128 * v) as nat, k + 1)),
            None => None,
        }
    }
}

/// A 32-bit varint off the front of `b`, with what follows it.
pub open spec fn take_u32_spec(b: Seq<u8>) -> Option<(u32, Seq<u8>)> {
    match varint_prefix(b, 5, 15) {
        Some((v, k)) => Some((v as u32, b.skip(k as int))),
        None => None,
    }
}

/// A 64-bit varint off the front of `b`, with what follows it.
pub open spec fn take_u64_spec(b: Seq<u8>) -> Option<(u64, Seq<u8>)> {
    match varint_prefix(b, 10, 1) {
        Some((v, k)) => Some((v as u64, b.skip(k as int))),
        None => None,
    }
}

/// A byte string behind its length.
pub open spec fn put_bytes_spec(s: Seq<u8>) -> Seq<u8> {
    varint(s.len()) + s
}

/// The length varint at the front of `b`: as wide as the machine's `usize`.
pub open spec fn length_prefix(b: Seq<u8>) -> Option<(nat, nat)> {
    if usize::BITS == 64 {
        varint_prefix(b, 10, 1)
    } else {
        varint_prefix(b, 5, 15)
    }
}

/// A byte string off the front of `b`, with what follows it.
pub open spec fn take_bytes_spec(b: Seq<u8>) -> Option<(Seq<u8>, Seq<u8>)> {
    match length_prefix(b) {
        Some((n, k)) => if k + n <= b.len() {
            Some((b.subrange(k as int, (k + n) as int), b.skip((k + n) as int)))
        } else {
            None
        },
        None => None,
    }
}

/// Text behind the length of its UTF-8 form.
pub open spec fn put_text_spec(s: Seq<char>) -> Seq<u8> {
    put_bytes_spec(encode_utf8(s))
}

/// Text off the front of `b`, with what follows it.
pub open spec fn take_text_spec(b: Seq<u8>) -> Option<(Seq<char>, Seq<u8>)> {
    match take_bytes_spec(b) {
        Some((s, rest)) => if valid_utf8(s) {
            Some((decode_utf8(s), rest))
        } else {
            None
        },
        None => None,
    }
}

/// `postcard::to_allocvec` on a `u32`: the value's varint.
#[verifier::external_body]
pub(crate) fn put_u32(n: u32) -> (r: Vec<u8>)
    ensures
        r@ == varint(n as nat),
{
    postcard::to_allocvec(&n).expect("an integer always encodes")
}

/// `postcard::to_allocvec` on a `u64`: the value's varint.
#[verifier::external_body]
pub(crate) fn put_u64(n: u64) -> (r: Vec<u8>)
    ensures
        r@ == varint(n as nat),
{
    postcard::to_allocvec(&n).expect("an integer always encodes")
}

/// `postcard::to_allocvec` on a byte slice: the varint of its length, then
/// its bytes.
#[verifier::external_body]
pub(crate) fn put_bytes(b: &[u8]) -> (r: Vec<u8>)
    ensures
        r@ == put_bytes_spec(b@),
{
    postcard::to_allocvec(b).expect("a byte string always encodes")
}

/// `postcard::to_allocvec` on text: the varint of its UTF-8 length, then its
/// UTF-8 bytes.
#[verifier::external_body]
pub(crate) fn put_text(s: &str) -> (r: Vec<u8>)
    ensures
        r@ == put_text_spec(s@),
{
    postcard::to_allocvec(s).expect("text always encodes")
}

/// `postcard::take_from_bytes` for a `u32`: the varint at the front and what
/// follows it; nothing where the varint is cut off, longer than five bytes or
/// out of range.
#[verifier::external_body]
pub(crate) fn take_u32(b: &[u8]) -> (r: Option<(u32, &[u8])>)
    ensures
        match r {
            Some((n, rest)) => take_u32_spec(b@) == Some((n, rest@)),
            None => take_u32_spec(b@) is None,
        },
{
    postcard::take_from_bytes(b).ok()
}

/// `postcard::take_from_bytes` for a `u64`: the varint at the front and what
/// follows it; nothing where the varint is cut off, longer than ten bytes or
/// out of range.
#[verifier::external_body]
pub(crate) fn take_u64(b: &[u8]) -> (r: Option<(u64, &[u8])>)
    ensures
        match r {
            Some((n, rest)) => take_u64_spec(b@) == Some((n, rest@)),
            None => take_u64_spec(b@) is None,
        },
{
    postcard::take_from_bytes(b).ok()
}

/// `postcard::take_from_bytes` for a byte string: the bytes behind a varint
/// length and what follows them; nothing where the length does not decode or
/// exceeds what is left.
#[verifier::external_body]
pub(crate) fn take_bytes(b: &[u8]) -> (r: Option<(Vec<u8>, &[u8])>)
    ensures
        match r {
            Some((s, rest)) => take_bytes_spec(b@) == Some((s@, rest@)),
            None => take_bytes_spec(b@) is None,
        },
{
    postcard::take_from_bytes(b).ok()
}

/// `postcard::take_from_bytes` for text: as for a byte string, and the bytes
/// must be UTF-8.
#[verifier::external_body]
pub(crate) fn take_text(b: &[u8]) -> (r: Option<(String, &[u8])>)
    ensures
        match r {
            Some((s, rest)) => take_text_spec(b@) == Some((s@, rest@)),
            None => take_text_spec(b@) is None,
        },
{
    postcard::take_from_bytes(b).ok()
}

spec fn pow128(k: nat) -> nat
    decreases k,
{
    if k == 0 {
        1
    } else {
        128 * pow128((k - 1) as nat)
    }
}

/// Reading back the varint of a value that fits into `left` bytes.
proof fn lemma_varint_prefix(n: nat, rest: Seq<u8>, left: nat, last: u8)
    requires
        left >= 1,
        last < 128,
        n < (last + 1) * pow128((left - 1) as nat),
    ensures
        varint_prefix(varint(n) + rest, left, last) == Some((n, varint(n).len())),
        (varint(n) + rest).skip(varint(n).len() as int) == rest,
    decreases left,
{
    let b = varint(n) + rest;
    assert(b.skip(varint(n).len() as int) =~= rest);
    if n < 128 {
        assert(b[0] == n as u8);
        if left == 1 {
            assert(pow128(0) == 1);
            assert((last + 1) * 1 == last + 1) by (nonlinear_arith);
        }
    } else {
        let t = varint(n / 128);
        assert(b[0] == (n % 128 + 128) as u8);
        assert(b.skip(1) =~= t + rest);
        if left == 1 {
            assert(pow128(0) == 1);
            assert((last + 1) * 1 == last + 1) by (nonlinear_arith);
        } else {
            let p = pow128((left - 2) as nat);
            assert(pow128((left - 1) as nat) == 128 * p);
            assert((last + 1) * (128 * p) == 128 * ((last + 1) * p)) by (nonlinear_arith);
            assert(n / 128 < (last + 1) * p);
            lemma_varint_prefix(n / 128, rest, (left - 1) as nat, last);
            assert(128 * (n / 128) + n % 128 == n);
        }
    }
}

/// Reading a 32-bit integer gives back what was written, and what follows it.
pub proof fn u32_round_trip(n: u32, rest: Seq<u8>)
    ensures
        take_u32_spec(varint(n as nat) + rest) == Some((n, rest)),
{
    reveal_with_fuel(pow128, 6);
    lemma_varint_prefix(n as nat, rest, 5, 15);
}

/// Reading a 64-bit integer gives back what was written, and what follows it.
pub proof fn u64_round_trip(n: u64, rest: Seq<u8>)
    ensures
        take_u64_spec(varint(n as nat) + rest) == Some((n, rest)),
{
    reveal_with_fuel(pow128, 11);
    lemma_varint_prefix(n as nat, rest, 10, 1);
}

/// A 64-bit varint takes one to ten bytes.
pub proof fn varint_len(n: u64)
    ensures
        1 <= varint(n as nat).len() <= 10,
{
    reveal_with_fuel(pow128, 11);
    lemma_varint_len(n as nat, 10);
}

proof fn lemma_varint_len(n: nat, k: nat)
    requires
        k >= 1,
        n < pow128(k),
    ensures
        1 <= varint(n).len() <= k,
    decreases k,
{
    if n >= 128 {
        if k == 1 {
            assert(pow128(0) == 1);
        } else {
            lemma_varint_len(n / 128, (k - 1) as nat);
        }
    }
}

/// Reading a byte string gives back what was written, and what follows it.
pub proof fn bytes_round_trip(s: Seq<u8>, rest: Seq<u8>)
    requires
        s.len() <= usize::MAX,
    ensures
        take_bytes_spec(put_bytes_spec(s) + rest) == Some((s, rest)),
{
    reveal_with_fuel(pow128, 11);
    let b = put_bytes_spec(s) + rest;
    let k = varint(s.len()).len();
    assert(b =~= varint(s.len()) + (s + rest));
    if usize::BITS == 64 {
        lemma_varint_prefix(s.len(), s + rest, 10, 1);
    } else {
        lemma_varint_prefix(s.len(), s + rest, 5, 15);
    }
    assert(b.subrange(k as int, (k + s.len()) as int) =~= s);
    assert(b.skip((k + s.len()) as int) =~= rest);
}

/// Reading text gives back what was written, and what follows it.
pub proof fn text_round_trip(s: Seq<char>, rest: Seq<u8>)
    requires
        encode_utf8(s).len() <= usize::MAX,
    ensures
        take_text_spec(put_text_spec(s) + rest) == Some((s, rest)),
{
    bytes_round_trip(encode_utf8(s), rest);
    vstd::utf8::encode_utf8_valid_utf8(s);
    vstd::utf8::encode_utf8_decode_utf8(s);
}

/// A byte off the front of `b`.
pub open spec fn take_u8_spec(b: Seq<u8>) -> Option<(u8, Seq<u8>)> {
    if b.len() == 0 {
        None
    } else {
        Some((b[0], b.skip(1)))
    }
}

/// A flag as one byte, zero or one.
pub open spec fn put_bool_spec(v: bool) -> Seq<u8> {
    seq![if v { 1u8 } else { 0u8 }]
}

/// A flag off the front of `b`; any other byte is refused.
pub open spec fn take_bool_spec(b: Seq<u8>) -> Option<(bool, Seq<u8>)> {
    if b.len() == 0 || b[0] > 1 {
        None
    } else {
        Some((b[0] == 1, b.skip(1)))
    }
}

/// `n` bytes off the front of `b`.
pub open spec fn take_fixed_spec(b: Seq<u8>, n: nat) -> Option<(Seq<u8>, Seq<u8>)> {
    if b.len() < n {
        None
    } else {
        Some((b.take(n as int), b.skip(n as int)))
    }
}

/// Everything of `b` from `from` on.
fn tail(b: &[u8], from: usize) -> (r: &[u8])
    requires
        from <= b@.len(),
    ensures
        r@ == b@.skip(from as int),
{
    let r = vstd::slice::slice_subrange(b, from, b.len());
    assert(r@ =~= b@.skip(from as int));
    r
}

/// Reads a byte.
pub fn take_u8(b: &[u8]) -> (r: Option<(u8, &[u8])>)
    ensures
        match r {
            Some((v, rest)) => take_u8_spec(b@) == Some((v, rest@)),
            None => take_u8_spec(b@) is None,
        },
{
    if b.len() == 0 {
        return None;
    }
    Some((b[0], tail(b, 1)))
}

/// Reads a flag.
pub fn take_bool(b: &[u8]) -> (r: Option<(bool, &[u8])>)
    ensures
        match r {
            Some((v, rest)) => take_bool_spec(b@) == Some((v, rest@)),
            None => take_bool_spec(b@) is None,
        },
{
    if b.len() == 0 || b[0] > 1 {
        return None;
    }
    Some((b[0] == 1, tail(b, 1)))
}

/// Reads an array.
pub fn take_array<const N: usize>(b: &[u8]) -> (r: Option<([u8; N], &[u8])>)
    ensures
        match r {
            Some((v, rest)) => take_fixed_spec(b@, N as nat) == Some((v@, rest@)),
            None => take_fixed_spec(b@, N as nat) is None,
        },
{
    if b.len() < N {
        return None;
    }
    let v = crate::bytes::array_at::<N>(b, 0);
    assert(v@ =~= b@.take(N as int));
    Some((v, tail(b, N)))
}

/// Writes a flag.
pub fn put_bool(out: &mut Vec<u8>, v: bool)
    ensures
        final(out)@ == old(out)@ + put_bool_spec(v),
{
    out.push(if v { 1u8 } else { 0u8 });
    assert(out@ =~= old(out)@ + put_bool_spec(v));
}

/// A value with a record encoding.
pub trait Record: Sized {
    /// What a value means.
    type Model;

    spec fn model(&self) -> Self::Model;

    /// The encoding of a value.
    spec fn put_spec(m: Self::Model) -> Seq<u8>;

    /// A value off the front of `b`, with what follows it.
    spec fn take_spec(b: Seq<u8>) -> Option<(Self::Model, Seq<u8>)>;

    /// Whether a value is small enough to be held by a machine.
    spec fn fits(m: Self::Model) -> bool;

    /// Writes the value; what is in memory can be held by a machine.
    fn put(&self, out: &mut Vec<u8>)
        ensures
            final(out)@ == old(out)@ + Self::put_spec(self.model()),
            Self::fits(self.model()),
    ;

    fn take(b: &[u8]) -> (r: Option<(Self, &[u8])>)
        ensures
            match r {
                Some((v, rest)) => Self::take_spec(b@) == Some((v.model(), rest@)),
                None => Self::take_spec(b@) is None,
            },
    ;

    /// Reading gives back what was written, and what follows it.
    proof fn round_trip(m: Self::Model, rest: Seq<u8>)
        requires
            Self::fits(m),
        ensures
            Self::take_spec(Self::put_spec(m) + rest) == Some((m, rest)),
    ;
}

impl<const N: usize> Record for [u8; N] {
    type Model = Seq<u8>;

    open spec fn model(&self) -> Seq<u8> {
        self@
    }

    open spec fn put_spec(m: Seq<u8>) -> Seq<u8> {
        m
    }

    open spec fn take_spec(b: Seq<u8>) -> Option<(Seq<u8>, Seq<u8>)> {
        take_fixed_spec(b, N as nat)
    }

    open spec fn fits(m: Seq<u8>) -> bool {
        m.len() == N
    }

    fn put(&self, out: &mut Vec<u8>) {
        crate::bytes::append(out, self);
    }

    fn take(b: &[u8]) -> (r: Option<(Self, &[u8])>) {
        take_array::<N>(b)
    }

    proof fn round_trip(m: Seq<u8>, rest: Seq<u8>) {
        assert((m + rest).take(N as int) =~= m);
        assert((m + rest).skip(N as int) =~= rest);
    }
}

/// The models of the values of a list.
pub open spec fn models<T: Record>(s: Seq<T>) -> Seq<T::Model> {
    Seq::new(s.len(), |i: int| s[i].model())
}

/// The encodings of a list's values, one behind the other.
pub open spec fn put_all<T: Record>(s: Seq<T::Model>) -> Seq<u8>
    decreases s.len(),
{
    if s.len() == 0 {
        seq![]
    } else {
        put_all::<T>(s.drop_last()) + T::put_spec(s.last())
    }
}

/// `count` values off the front of `b`.
pub open spec fn take_all<T: Record>(b: Seq<u8>, count: nat) -> Option<(Seq<T::Model>, Seq<u8>)>
    decreases count,
{
    if count == 0 {
        Some((seq![], b))
    } else {
        match take_all::<T>(b, (count - 1) as nat) {
            Some((s, mid)) => match T::take_spec(mid) {
                Some((m, rest)) => Some((s.push(m), rest)),
                None => None,
            },
            None => None,
        }
    }
}

/// A list: the number of its values, then the values.
pub open spec fn put_list_spec<T: Record>(s: Seq<T::Model>) -> Seq<u8> {
    varint(s.len()) + put_all::<T>(s)
}

/// The number of a list's values off the front of `b`: a varint as wide as the
/// machine's `usize`.
pub open spec fn take_count_spec(b: Seq<u8>) -> Option<(u64, Seq<u8>)> {
    if usize::BITS == 64 {
        take_u64_spec(b)
    } else {
        match take_u32_spec(b) {
            Some((n, rest)) => Some((n as u64, rest)),
            None => None,
        }
    }
}

/// Reads the number of a list's values.
fn take_count(b: &[u8]) -> (r: Option<(u64, &[u8])>)
    ensures
        match r {
            Some((n, rest)) => take_count_spec(b@) == Some((n, rest@)),
            None => take_count_spec(b@) is None,
        },
{
    if usize::BITS == 64 {
        take_u64(b)
    } else {
        match take_u32(b) {
            Some((n, rest)) => Some((n as u64, rest)),
            None => None,
        }
    }
}

/// Reading a count gives back what was written, and what follows it.
proof fn count_round_trip(n: usize, rest: Seq<u8>)
    ensures
        take_count_spec(varint(n as nat) + rest) == Some((n as u64, rest)),
{
    if usize::BITS == 64 {
        u64_round_trip(n as u64, rest);
    } else {
        u32_round_trip(n as u32, rest);
    }
}

/// A list off the front of `b`.
pub open spec fn take_list_spec<T: Record>(b: Seq<u8>) -> Option<(Seq<T::Model>, Seq<u8>)> {
    match take_count_spec(b) {
        Some((n, rest)) => take_all::<T>(rest, n as nat),
        None => None,
    }
}

/// Whether a list is small enough to be held by a machine.
pub open spec fn list_fits<T: Record>(s: Seq<T::Model>) -> bool {
    s.len() <= usize::MAX && forall|i: int| 0 <= i < s.len() ==> T::fits(#[trigger] s[i])
}

/// Writes a list.
pub fn put_list<T: Record>(out: &mut Vec<u8>, v: &Vec<T>)
    ensures
        final(out)@ == old(out)@ + put_list_spec::<T>(models(v@)),
        list_fits::<T>(models(v@)),
{
    let ghost start = out@;
    let n = put_u64(v.len() as u64);
    crate::bytes::append(out, &n);
    assert(put_all::<T>(models(v@).take(0)) =~= seq![]);
    assert(out@ =~= start + varint(v@.len()) + put_all::<T>(models(v@).take(0)));
    let mut i: usize = 0;
    while i < v.len()
        invariant
            i <= v@.len(),
            out@ == start + varint(v@.len()) + put_all::<T>(models(v@).take(i as int)),
            forall|j: int| 0 <= j < i ==> T::fits(#[trigger] models(v@)[j]),
        decreases v@.len() - i,
    {
        v[i].put(out);
        proof {
            let t = models(v@).take(i + 1);
            assert(t.drop_last() =~= models(v@).take(i as int));
            assert(t.last() == v@[i as int].model());
            assert(out@ =~= start + varint(v@.len()) + put_all::<T>(t));
        }
        i = i + 1;
    }
    assert(models(v@).take(i as int) =~= models(v@));
    assert(out@ =~= start + put_list_spec::<T>(models(v@)));
}

/// Reads a list.
pub fn take_list<T: Record>(b: &[u8]) -> (r: Option<(Vec<T>, &[u8])>)
    ensures
        match r {
            Some((v, rest)) => take_list_spec::<T>(b@) == Some((models(v@), rest@)),
            None => take_list_spec::<T>(b@) is None,
        },
{
    let (n, body) = match take_count(b) {
        Some(x) => x,
        None => {
            return None;
        },
    };
    let mut v: Vec<T> = Vec::new();
    let mut cur = body;
    let mut i: u64 = 0;
    assert(models(v@) =~= seq![]);
    while i < n
        invariant
            i <= n,
            v@.len() == i,
            take_all::<T>(body@, i as nat) == Some((models(v@), cur@)),
            take_count_spec(b@) == Some((n, body@)),
        decreases n - i,
    {
        match T::take(cur) {
            None => {
                proof {
                    lemma_take_all_stops::<T>(body@, (i + 1) as nat, n as nat);
                }
                return None;
            },
            Some((x, rest)) => {
                let ghost before = models(v@);
                v.push(x);
                assert(models(v@) =~= before.push(x.model()));
                cur = rest;
            },
        }
        i = i + 1;
    }
    Some((v, cur))
}

/// Where a shorter list does not decode, a longer one does not either.
proof fn lemma_take_all_stops<T: Record>(b: Seq<u8>, i: nat, n: nat)
    requires
        i <= n,
        take_all::<T>(b, i) is None,
    ensures
        take_all::<T>(b, n) is None,
    decreases n - i,
{
    if i < n {
        lemma_take_all_stops::<T>(b, i, (n - 1) as nat);
    }
}

proof fn lemma_all_round_trip<T: Record>(s: Seq<T::Model>, rest: Seq<u8>)
    requires
        list_fits::<T>(s),
    ensures
        take_all::<T>(put_all::<T>(s) + rest, s.len()) == Some((s, rest)),
    decreases s.len(),
{
    if s.len() == 0 {
        assert(put_all::<T>(s) + rest =~= rest);
        assert(s =~= seq![]);
    } else {
        let last = T::put_spec(s.last());
        assert(T::fits(s[s.len() - 1]));
        assert(list_fits::<T>(s.drop_last())) by {
            assert forall|i: int| 0 <= i < s.drop_last().len() implies T::fits(
                #[trigger] s.drop_last()[i],
            ) by {
                assert(T::fits(s[i]));
            }
        }
        lemma_all_round_trip::<T>(s.drop_last(), last + rest);
        assert(put_all::<T>(s) + rest =~= put_all::<T>(s.drop_last()) + (last + rest));
        T::round_trip(s.last(), rest);
        assert(s.drop_last().push(s.last()) =~= s);
    }
}

/// Reading a list gives back what was written, and what follows it.
pub proof fn list_round_trip<T: Record>(s: Seq<T::Model>, rest: Seq<u8>)
    requires
        list_fits::<T>(s),
    ensures
        take_list_spec::<T>(put_list_spec::<T>(s) + rest) == Some((s, rest)),
{
    count_round_trip(s.len() as usize, put_all::<T>(s) + rest);
    assert(put_list_spec::<T>(s) + rest =~= varint(s.len()) + (put_all::<T>(s) + rest));
    lemma_all_round_trip::<T>(s, rest);
}

impl Record for u8 {
    type Model = u8;

    open spec fn model(&self) -> u8 {
        *self
    }

    open spec fn put_spec(m: u8) -> Seq<u8> {
        seq![m]
    }

    open spec fn take_spec(b: Seq<u8>) -> Option<(u8, Seq<u8>)> {
        take_u8_spec(b)
    }

    open spec fn fits(m: u8) -> bool {
        true
    }

    fn put(&self, out: &mut Vec<u8>) {
        out.push(*self);
        assert(out@ =~= old(out)@ + seq![*self]);
    }

    fn take(b: &[u8]) -> (r: Option<(Self, &[u8])>) {
        take_u8(b)
    }

    proof fn round_trip(m: u8, rest: Seq<u8>) {
        assert((seq![m] + rest).skip(1) =~= rest);
    }
}

impl Record for bool {
    type Model = bool;

    open spec fn model(&self) -> bool {
        *self
    }

    open spec fn put_spec(m: bool) -> Seq<u8> {
        put_bool_spec(m)
    }

    open spec fn take_spec(b: Seq<u8>) -> Option<(bool, Seq<u8>)> {
        take_bool_spec(b)
    }

    open spec fn fits(m: bool) -> bool {
        true
    }

    fn put(&self, out: &mut Vec<u8>) {
        put_bool(out, *self);
    }

    fn take(b: &[u8]) -> (r: Option<(Self, &[u8])>) {
        take_bool(b)
    }

    proof fn round_trip(m: bool, rest: Seq<u8>) {
        assert((put_bool_spec(m) + rest).skip(1) =~= rest);
    }
}

impl Record for u32 {
    type Model = u32;

    open spec fn model(&self) -> u32 {
        *self
    }

    open spec fn put_spec(m: u32) -> Seq<u8> {
        varint(m as nat)
    }

    open spec fn take_spec(b: Seq<u8>) -> Option<(u32, Seq<u8>)> {
        take_u32_spec(b)
    }

    open spec fn fits(m: u32) -> bool {
        true
    }

    fn put(&self, out: &mut Vec<u8>) {
        let n = put_u32(*self);
        crate::bytes::append(out, &n);
        assert(out@ == old(out)@ + Self::put_spec(self.model()));
        assert(Self::fits(self.model()));
    }

    fn take(b: &[u8]) -> (r: Option<(Self, &[u8])>) {
        take_u32(b)
    }

    proof fn round_trip(m: u32, rest: Seq<u8>) {
        u32_round_trip(m, rest);
    }
}

impl Record for u64 {
    type Model = u64;

    open spec fn model(&self) -> u64 {
        *self
    }

    open spec fn put_spec(m: u64) -> Seq<u8> {
        varint(m as nat)
    }

    open spec fn take_spec(b: Seq<u8>) -> Option<(u64, Seq<u8>)> {
        take_u64_spec(b)
    }

    open spec fn fits(m: u64) -> bool {
        true
    }

    fn put(&self, out: &mut Vec<u8>) {
        let n = put_u64(*self);
        crate::bytes::append(out, &n);
        assert(out@ == old(out)@ + Self::put_spec(self.model()));
    }

    fn take(b: &[u8]) -> (r: Option<(Self, &[u8])>) {
        take_u64(b)
    }

    proof fn round_trip(m: u64, rest: Seq<u8>) {
        u64_round_trip(m, rest);
    }
}

impl Record for String {
    type Model = Seq<char>;

    open spec fn model(&self) -> Seq<char> {
        self@
    }

    open spec fn put_spec(m: Seq<char>) -> Seq<u8> {
        put_text_spec(m)
    }

    open spec fn take_spec(b: Seq<u8>) -> Option<(Seq<char>, Seq<u8>)> {
        take_text_spec(b)
    }

    open spec fn fits(m: Seq<char>) -> bool {
        encode_utf8(m).len() <= usize::MAX
    }

    fn put(&self, out: &mut Vec<u8>) {
        let s = put_text(self.as_str());
        let _ = crate::text::byte_len(self.as_str());
        crate::bytes::append(out, &s);
        assert(out@ == old(out)@ + Self::put_spec(self.model()));
    }

    fn take(b: &[u8]) -> (r: Option<(Self, &[u8])>) {
        take_text(b)
    }

    proof fn round_trip(m: Seq<char>, rest: Seq<u8>) {
        text_round_trip(m, rest);
    }
}

impl Record for Vec<u8> {
    type Model = Seq<u8>;

    open spec fn model(&self) -> Seq<u8> {
        self@
    }

    open spec fn put_spec(m: Seq<u8>) -> Seq<u8> {
        put_bytes_spec(m)
    }

    open spec fn take_spec(b: Seq<u8>) -> Option<(Seq<u8>, Seq<u8>)> {
        take_bytes_spec(b)
    }

    open spec fn fits(m: Seq<u8>) -> bool {
        m.len() <= usize::MAX
    }

    fn put(&self, out: &mut Vec<u8>) {
        let s = put_bytes(self);
        assert(self@.len() == self.len());
        crate::bytes::append(out, &s);
        assert(out@ == old(out)@ + Self::put_spec(self.model()));
    }

    fn take(b: &[u8]) -> (r: Option<(Self, &[u8])>) {
        take_bytes(b)
    }

    proof fn round_trip(m: Seq<u8>, rest: Seq<u8>) {
        bytes_round_trip(m, rest);
    }
}

impl<const N: usize> Record for Vec<[u8; N]> {
    type Model = Seq<Seq<u8>>;

    open spec fn model(&self) -> Seq<Seq<u8>> {
        models(self@)
    }

    open spec fn put_spec(m: Seq<Seq<u8>>) -> Seq<u8> {
        put_list_spec::<[u8; N]>(m)
    }

    open spec fn take_spec(b: Seq<u8>) -> Option<(Seq<Seq<u8>>, Seq<u8>)> {
        take_list_spec::<[u8; N]>(b)
    }

    open spec fn fits(m: Seq<Seq<u8>>) -> bool {
        list_fits::<[u8; N]>(m)
    }

    fn put(&self, out: &mut Vec<u8>) {
        put_list(out, self);
    }

    fn take(b: &[u8]) -> (r: Option<(Self, &[u8])>) {
        take_list::<[u8; N]>(b)
    }

    proof fn round_trip(m: Seq<Seq<u8>>, rest: Seq<u8>) {
        list_round_trip::<[u8; N]>(m, rest);
    }
}

impl<T: Record> Record for Option<T> {
    type Model = Option<T::Model>;

    open spec fn model(&self) -> Option<T::Model> {
        match self {
            Some(v) => Some(v.model()),
            None => None,
        }
    }

    open spec fn put_spec(m: Option<T::Model>) -> Seq<u8> {
        match m {
            Some(v) => put_bool_spec(true) + T::put_spec(v),
            None => put_bool_spec(false),
        }
    }

    open spec fn take_spec(b: Seq<u8>) -> Option<(Option<T::Model>, Seq<u8>)> {
        match take_bool_spec(b) {
            Some((true, rest)) => match T::take_spec(rest) {
                Some((v, rest)) => Some((Some(v), rest)),
                None => None,
            },
            Some((false, rest)) => Some((None, rest)),
            None => None,
        }
    }

    open spec fn fits(m: Option<T::Model>) -> bool {
        match m {
            Some(v) => T::fits(v),
            None => true,
        }
    }

    fn put(&self, out: &mut Vec<u8>) {
        match self {
            Some(v) => {
                put_bool(out, true);
                v.put(out);
                assert(out@ =~= old(out)@ + (put_bool_spec(true) + T::put_spec(v.model())));
            },
            None => {
                put_bool(out, false);
            },
        }
    }

    fn take(b: &[u8]) -> (r: Option<(Self, &[u8])>) {
        match take_bool(b) {
            Some((true, rest)) => match T::take(rest) {
                Some((v, rest)) => Some((Some(v), rest)),
                None => None,
            },
            Some((false, rest)) => Some((None, rest)),
            None => None,
        }
    }

    proof fn round_trip(m: Option<T::Model>, rest: Seq<u8>) {
        match m {
            Some(v) => {
                T::round_trip(v, rest);
                let tail = T::put_spec(v) + rest;
                assert(Self::put_spec(m) + rest =~= put_bool_spec(true) + tail);
                assert((put_bool_spec(true) + tail).skip(1) =~= tail);
            },
            None => {
                assert((put_bool_spec(false) + rest).skip(1) =~= rest);
            },
        }
    }
}

/// A record is its first field and the rest.
impl<A: Record, B: Record> Record for (A, B) {
    type Model = (A::Model, B::Model);

    open spec fn model(&self) -> (A::Model, B::Model) {
        (self.0.model(), self.1.model())
    }

    open spec fn put_spec(m: (A::Model, B::Model)) -> Seq<u8> {
        A::put_spec(m.0) + B::put_spec(m.1)
    }

    open spec fn take_spec(b: Seq<u8>) -> Option<((A::Model, B::Model), Seq<u8>)> {
        match A::take_spec(b) {
            Some((x, rest)) => match B::take_spec(rest) {
                Some((y, rest)) => Some(((x, y), rest)),
                None => None,
            },
            None => None,
        }
    }

    open spec fn fits(m: (A::Model, B::Model)) -> bool {
        A::fits(m.0) && B::fits(m.1)
    }

    fn put(&self, out: &mut Vec<u8>) {
        self.0.put(out);
        self.1.put(out);
        assert(out@ =~= old(out)@ + Self::put_spec(self.model()));
    }

    fn take(b: &[u8]) -> (r: Option<(Self, &[u8])>) {
        match A::take(b) {
            Some((x, rest)) => match B::take(rest) {
                Some((y, rest)) => Some(((x, y), rest)),
                None => None,
            },
            None => None,
        }
    }

    proof fn round_trip(m: (A::Model, B::Model), rest: Seq<u8>) {
        A::round_trip(m.0, B::put_spec(m.1) + rest);
        B::round_trip(m.1, rest);
        assert(Self::put_spec(m) + rest =~= A::put_spec(m.0) + (B::put_spec(m.1) + rest));
    }
}

} // verus!
