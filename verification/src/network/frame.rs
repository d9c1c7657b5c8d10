//! Frames: each connection carries one message behind its length.
use crate::bytes;
use crate::bytes::{be32, from_be32};
use vstd::prelude::*;

verus! {

/// Largest frame that is read.
pub const MAX_FRAME_BYTES: usize = 65536;

/// The frame of some bytes: their length in big-endian order, then the bytes.
pub open spec fn framed(data: Seq<u8>) -> Seq<u8> {
    be32(data.len() as u32) + data
}

/// The frame of some bytes.
pub fn write_frame(data: &[u8]) -> (r: Vec<u8>)
    requires
        data@.len() <= u32::MAX,
    ensures
        r@ == framed(data@),
{
    let mut out: Vec<u8> = Vec::new();
    bytes::append(&mut out, &bytes::u32_to_be(data.len() as u32));
    bytes::append(&mut out, data);
    assert(out@ =~= framed(data@));
    out
}

/// How many bytes follow the length of a frame; an oversized frame is not
/// read.
pub fn frame_len(header: &[u8; 4]) -> (r: Option<usize>)
    ensures
        r == (if from_be32(header@) > MAX_FRAME_BYTES {
            None
        } else {
            Some(from_be32(header@) as usize)
        }),
{
    let len: u32 = bytes::u32_from_be(header);
    if len > 65536 {
        None
    } else {
        Some(len as usize)
    }
}

/// What a stream of bytes holds at its front: a whole frame of a size that is
/// read, or nothing.
pub open spec fn unframed(stream: Seq<u8>) -> Option<Seq<u8>> {
    if stream.len() < 4 {
        None
    } else {
        let len = from_be32(stream.take(4));
        if len > MAX_FRAME_BYTES || stream.len() < 4 + len {
            None
        } else {
            Some(stream.subrange(4, 4 + len))
        }
    }
}

/// Reads the frame at the front of a stream.
pub fn read_frame(stream: &[u8]) -> (r: Option<Vec<u8>>)
    ensures
        match r {
            Some(data) => unframed(stream@) == Some(data@),
            None => unframed(stream@) is None,
        },
{
    if stream.len() < 4 {
        return None;
    }
    let header = bytes::array_at::<4>(stream, 0);
    assert(header@ =~= stream@.take(4));
    let len = match frame_len(&header) {
        Some(n) => n,
        None => {
            return None;
        },
    };
    assert(stream@.len() == stream.len());
    if stream.len() - 4 < len {
        return None;
    }
    Some(bytes::copied(vstd::slice::slice_subrange(stream, 4, 4 + len)))
}

/// A frame that is written is read back, whatever follows it on the stream.
pub proof fn frame_round_trip(data: Seq<u8>, rest: Seq<u8>)
    requires
        data.len() <= MAX_FRAME_BYTES,
    ensures
        unframed(framed(data) + rest) == Some(data),
{
    let n = data.len() as u32;
    bytes::be32_round_trip(n);
    let s = framed(data) + rest;
    assert(s.take(4) =~= be32(n));
    assert(s.subrange(4, 4 + n) =~= data);
}

/// Where a message of cover traffic goes: to a contact or to ourselves. `coin`
/// is an even chance, `pick` any place in the list.
pub fn cover_target(own: &String, contacts: &Vec<String>, coin: bool, pick: usize) -> (r: String)
    requires
        contacts@.len() > 0 ==> pick < contacts@.len(),
    ensures
        r@ == (if contacts@.len() > 0 && coin {
            contacts@[pick as int]@
        } else {
            own@
        }),
{
    if contacts.len() > 0 && coin {
        contacts[pick].clone()
    } else {
        own.clone()
    }
}

} // verus!
