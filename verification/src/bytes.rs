//! Byte-string helpers shared by the other modules.
use vstd::prelude::*;

verus! {

/// The `N` bytes of `b` that start at `from`.
pub fn array_at<const N: usize>(b: &[u8], from: usize) -> (r: [u8; N])
    requires
        from + N <= b@.len(),
    ensures
        r@ == b@.subrange(from as int, from + N),
{
    let s = vstd::slice::slice_subrange(b, from, b.len());
    let mut r: [u8; N] = vstd::array::array_fill_for_copy_types(0u8);
    let mut i: usize = 0;
    while i < N
        invariant
            i <= N,
            r@.len() == N,
            s@ == b@.skip(from as int),
            from + N <= b@.len(),
            forall|j: int| 0 <= j < i ==> r@[j] == s@[j],
        decreases N - i,
    {
        r[i] = s[i];
        i = i + 1;
    }
    assert(r@ =~= b@.subrange(from as int, from + N));
    r
}

/// Whether two byte strings hold the same bytes.
pub fn same_bytes(a: &[u8], b: &[u8]) -> (r: bool)
    ensures
        r == (a@ == b@),
{
    if a.len() != b.len() {
        return false;
    }
    let mut i: usize = 0;
    while i < a.len()
        invariant
            i <= a@.len(),
            a@.len() == b@.len(),
            forall|j: int| 0 <= j < i ==> a@[j] == b@[j],
        decreases a@.len() - i,
    {
        if a[i] != b[i] {
            return false;
        }
        i = i + 1;
    }
    assert(a@ =~= b@);
    true
}

/// Appends `b` to `v`.
pub fn append(v: &mut Vec<u8>, b: &[u8])
    ensures
        final(v)@ == old(v)@ + b@,
{
    v.extend_from_slice(b);
    assert(v@ =~= old(v)@ + b@);
}

/// A copy of `b`.
pub fn copied(b: &[u8]) -> (r: Vec<u8>)
    ensures
        r@ == b@,
{
    vstd::slice::slice_to_vec(b)
}

/// The big-endian bytes of `n`.
pub open spec fn be64(n: u64) -> Seq<u8> {
    seq![
        (n >> 56) as u8,
        (n >> 48) as u8,
        (n >> 40) as u8,
        (n >> 32) as u8,
        (n >> 24) as u8,
        (n >> 16) as u8,
        (n >> 8) as u8,
        n as u8,
    ]
}

/// Different numbers have different big-endian bytes.
pub proof fn be64_tells_numbers_apart(m: u64, n: u64)
    requires
        be64(m) == be64(n),
    ensures
        m == n,
{
    let (a, b) = (be64(m), be64(n));
    assert(a[0] == b[0] && a[1] == b[1] && a[2] == b[2] && a[3] == b[3]);
    assert(a[4] == b[4] && a[5] == b[5] && a[6] == b[6] && a[7] == b[7]);
    assert(m == n) by (bit_vector)
        requires
            (m >> 56) as u8 == (n >> 56) as u8,
            (m >> 48) as u8 == (n >> 48) as u8,
            (m >> 40) as u8 == (n >> 40) as u8,
            (m >> 32) as u8 == (n >> 32) as u8,
            (m >> 24) as u8 == (n >> 24) as u8,
            (m >> 16) as u8 == (n >> 16) as u8,
            (m >> 8) as u8 == (n >> 8) as u8,
            m as u8 == n as u8,
    ;
}

/// Writes `n` in big-endian order.
pub fn u64_to_be(n: u64) -> (r: [u8; 8])
    ensures
        r@ == be64(n),
{
    let r = [
        (n >> 56) as u8,
        (n >> 48) as u8,
        (n >> 40) as u8,
        (n >> 32) as u8,
        (n >> 24) as u8,
        (n >> 16) as u8,
        (n >> 8) as u8,
        n as u8,
    ];
    assert(r@ =~= be64(n));
    r
}

/// The little-endian bytes of `n`.
pub open spec fn le32(n: u32) -> Seq<u8> {
    seq![n as u8, (n >> 8) as u8, (n >> 16) as u8, (n >> 24) as u8]
}

/// The number with the little-endian bytes `b`.
pub open spec fn from_le32(b: Seq<u8>) -> u32 {
    (b[0] as u32) | ((b[1] as u32) << 8) | ((b[2] as u32) << 16) | ((b[3] as u32) << 24)
}

/// The little-endian bytes of `n`.
pub open spec fn le64(n: u64) -> Seq<u8> {
    le32(n as u32) + le32((n >> 32) as u32)
}

/// The number with the little-endian bytes `b`.
pub open spec fn from_le64(b: Seq<u8>) -> u64 {
    (from_le32(b.take(4)) as u64) | ((from_le32(b.skip(4)) as u64) << 32)
}

/// The big-endian bytes of `n`.
pub open spec fn be32(n: u32) -> Seq<u8> {
    seq![(n >> 24) as u8, (n >> 16) as u8, (n >> 8) as u8, n as u8]
}

/// The number with the big-endian bytes `b`.
pub open spec fn from_be32(b: Seq<u8>) -> u32 {
    ((b[0] as u32) << 24) | ((b[1] as u32) << 16) | ((b[2] as u32) << 8) | (b[3] as u32)
}

/// Writes `n` in little-endian order.
pub fn u32_to_le(n: u32) -> (r: [u8; 4])
    ensures
        r@ == le32(n),
{
    let r = [n as u8, (n >> 8) as u8, (n >> 16) as u8, (n >> 24) as u8];
    assert(r@ =~= le32(n));
    r
}

/// Reads a little-endian number.
pub fn u32_from_le(b: &[u8; 4]) -> (r: u32)
    ensures
        r == from_le32(b@),
{
    (b[0] as u32) | ((b[1] as u32) << 8) | ((b[2] as u32) << 16) | ((b[3] as u32) << 24)
}

/// Writes `n` in big-endian order.
pub fn u32_to_be(n: u32) -> (r: [u8; 4])
    ensures
        r@ == be32(n),
{
    let r = [(n >> 24) as u8, (n >> 16) as u8, (n >> 8) as u8, n as u8];
    assert(r@ =~= be32(n));
    r
}

/// Reads a big-endian number.
pub fn u32_from_be(b: &[u8; 4]) -> (r: u32)
    ensures
        r == from_be32(b@),
{
    ((b[0] as u32) << 24) | ((b[1] as u32) << 16) | ((b[2] as u32) << 8) | (b[3] as u32)
}

/// Writes `n` in little-endian order.
pub fn u64_to_le(n: u64) -> (r: Vec<u8>)
    ensures
        r@ == le64(n),
{
    let mut r: Vec<u8> = Vec::new();
    append(&mut r, &u32_to_le(n as u32));
    append(&mut r, &u32_to_le((n >> 32) as u32));
    assert(r@ =~= le64(n));
    r
}

/// Reads a little-endian number.
pub fn u64_from_le(b: &[u8; 8]) -> (r: u64)
    ensures
        r == from_le64(b@),
{
    let low = array_at::<4>(b, 0);
    let high = array_at::<4>(b, 4);
    assert(low@ =~= b@.take(4));
    assert(high@ =~= b@.skip(4));
    (u32_from_le(&low) as u64) | ((u32_from_le(&high) as u64) << 32)
}

/// Reading a little-endian number gives back what was written.
pub proof fn le32_round_trip(n: u32)
    ensures
        from_le32(le32(n)) == n,
        le32(n).len() == 4,
{
    assert(((n as u8) as u32) | ((((n >> 8) as u8) as u32) << 8) | ((((n >> 16) as u8) as u32)
        << 16) | ((((n >> 24) as u8) as u32) << 24) == n) by (bit_vector);
}

/// Reading a big-endian number gives back what was written.
pub proof fn be32_round_trip(n: u32)
    ensures
        from_be32(be32(n)) == n,
        be32(n).len() == 4,
{
    assert(((((n >> 24) as u8) as u32) << 24) | ((((n >> 16) as u8) as u32) << 16) | ((((n >> 8) as u8) as u32)
        << 8) | ((n as u8) as u32) == n) by (bit_vector);
}

/// Reading a little-endian number gives back what was written.
pub proof fn le64_round_trip(n: u64)
    ensures
        from_le64(le64(n)) == n,
        le64(n).len() == 8,
{
    le32_round_trip(n as u32);
    le32_round_trip((n >> 32) as u32);
    assert(le64(n).take(4) =~= le32(n as u32));
    assert(le64(n).skip(4) =~= le32((n >> 32) as u32));
    assert(((n as u32) as u64) | ((((n >> 32) as u32) as u64) << 32) == n) by (bit_vector);
}

} // verus!
