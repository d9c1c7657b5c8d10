//! The wire message: its kind, the ratchet header, the padded ciphertext and
//! the deniable tag.
use crate::bytes;
use crate::bytes::{be32, from_be32};
use crate::codec::{take_u32_spec, varint, Record};
use crate::crypto::hmac_auth::MessageMac;
use crate::crypto::ratchet::{zeros, HeaderView, MessageHeader};
use crate::crypto::suite;
use crate::crypto::suite::drawn_bytes;
use vstd::prelude::*;

verus! {

/// Padding granularity; it hides the length of a message.
pub const BLOCK_SIZE: usize = 512;

/// Largest number of blocks.
pub const MAX_BLOCKS: usize = 8;

/// Largest ciphertext.
pub const MAX_PAYLOAD: usize = BLOCK_SIZE * MAX_BLOCKS;

/// Inbound bytes beyond this are dropped before anything is decoded: the
/// largest payload and 512 bytes for everything round it.
pub const MAX_WIRE_BYTES: usize = MAX_PAYLOAD + 512;

/// The kind of a wire message.
#[derive(Debug, Clone, Copy, PartialEq, Eq, Structural)]
pub enum WireMessageType {
    Handshake,
    Data,
    Revocation,
    Ack,
    /// Cover traffic to ourselves.
    Loop,
    /// Cover traffic filler.
    Dummy,
    /// Asks for our public key bundle.
    BundleRequest,
    /// Carries a public key bundle.
    BundleResponse,
}

impl WireMessageType {
    /// The number of the kind in a record.
    pub open spec fn index_spec(self) -> u32 {
        match self {
            WireMessageType::Handshake => 0,
            WireMessageType::Data => 1,
            WireMessageType::Revocation => 2,
            WireMessageType::Ack => 3,
            WireMessageType::Loop => 4,
            WireMessageType::Dummy => 5,
            WireMessageType::BundleRequest => 6,
            WireMessageType::BundleResponse => 7,
        }
    }

    /// The kind with a number.
    pub open spec fn of_index_spec(i: u32) -> Option<WireMessageType> {
        if i == 0 {
            Some(WireMessageType::Handshake)
        } else if i == 1 {
            Some(WireMessageType::Data)
        } else if i == 2 {
            Some(WireMessageType::Revocation)
        } else if i == 3 {
            Some(WireMessageType::Ack)
        } else if i == 4 {
            Some(WireMessageType::Loop)
        } else if i == 5 {
            Some(WireMessageType::Dummy)
        } else if i == 6 {
            Some(WireMessageType::BundleRequest)
        } else if i == 7 {
            Some(WireMessageType::BundleResponse)
        } else {
            None
        }
    }

    /// The number of the kind in a record.
    pub fn index(self) -> (r: u32)
        ensures
            r == self.index_spec(),
    {
        match self {
            WireMessageType::Handshake => 0,
            WireMessageType::Data => 1,
            WireMessageType::Revocation => 2,
            WireMessageType::Ack => 3,
            WireMessageType::Loop => 4,
            WireMessageType::Dummy => 5,
            WireMessageType::BundleRequest => 6,
            WireMessageType::BundleResponse => 7,
        }
    }

    /// The kind with a number.
    pub fn of_index(i: u32) -> (r: Option<WireMessageType>)
        ensures
            r == Self::of_index_spec(i),
    {
        match i {
            0 => Some(WireMessageType::Handshake),
            1 => Some(WireMessageType::Data),
            2 => Some(WireMessageType::Revocation),
            3 => Some(WireMessageType::Ack),
            4 => Some(WireMessageType::Loop),
            5 => Some(WireMessageType::Dummy),
            6 => Some(WireMessageType::BundleRequest),
            7 => Some(WireMessageType::BundleResponse),
            _ => None,
        }
    }
}

impl Record for WireMessageType {
    type Model = WireMessageType;

    open spec fn model(&self) -> WireMessageType {
        *self
    }

    open spec fn put_spec(m: WireMessageType) -> Seq<u8> {
        varint(m.index_spec() as nat)
    }

    open spec fn take_spec(b: Seq<u8>) -> Option<(WireMessageType, Seq<u8>)> {
        match take_u32_spec(b) {
            Some((i, rest)) => match Self::of_index_spec(i) {
                Some(t) => Some((t, rest)),
                None => None,
            },
            None => None,
        }
    }

    open spec fn fits(m: WireMessageType) -> bool {
        true
    }

    fn put(&self, out: &mut Vec<u8>) {
        self.index().put(out);
    }

    fn take(b: &[u8]) -> (r: Option<(Self, &[u8])>) {
        match u32::take(b) {
            Some((i, rest)) => match Self::of_index(i) {
                Some(t) => Some((t, rest)),
                None => None,
            },
            None => None,
        }
    }

    proof fn round_trip(m: WireMessageType, rest: Seq<u8>) {
        u32::round_trip(m.index_spec(), rest);
    }
}

/// What is sent to a peer. Nothing in it names the sender.
#[derive(Debug, Clone)]
pub struct WireMessage {
    pub msg_type: WireMessageType,
    /// The ratchet header, in the clear and authenticated.
    pub header: MessageHeader,
    /// The padded ciphertext. In a data message its length stands in front.
    pub ciphertext: Vec<u8>,
    /// The deniable tag.
    pub mac: MessageMac,
}

/// What a [`WireMessage`] means.
#[verifier::ext_equal]
pub struct WireView {
    pub msg_type: WireMessageType,
    pub header: HeaderView,
    pub ciphertext: Seq<u8>,
    pub mac: Seq<u8>,
}

/// The fields of a wire message, in the order of its record.
pub type WireRecord = (WireMessageType, (MessageHeader, (Vec<u8>, [u8; 32])));

impl View for WireMessage {
    type V = WireView;

    open spec fn view(&self) -> WireView {
        WireView {
            msg_type: self.msg_type,
            header: self.header@,
            ciphertext: self.ciphertext@,
            mac: self.mac.tag@,
        }
    }
}

impl WireView {
    /// The fields in the order of the record.
    pub open spec fn fields(self) -> <WireRecord as Record>::Model {
        (self.msg_type, (self.header, (self.ciphertext, self.mac)))
    }

    /// The record of the message.
    pub open spec fn bytes(self) -> Seq<u8> {
        WireRecord::put_spec(self.fields())
    }
}

impl Record for WireMessage {
    type Model = WireView;

    open spec fn model(&self) -> WireView {
        self@
    }

    open spec fn put_spec(m: WireView) -> Seq<u8> {
        m.bytes()
    }

    open spec fn take_spec(b: Seq<u8>) -> Option<(WireView, Seq<u8>)> {
        match WireRecord::take_spec(b) {
            Some((f, rest)) => Some(
                (
                    WireView {
                        msg_type: f.0,
                        header: f.1.0,
                        ciphertext: f.1.1.0,
                        mac: f.1.1.1,
                    },
                    rest,
                ),
            ),
            None => None,
        }
    }

    open spec fn fits(m: WireView) -> bool {
        WireRecord::fits(m.fields())
    }

    fn put(&self, out: &mut Vec<u8>) {
        self.msg_type.put(out);
        self.header.put(out);
        self.ciphertext.put(out);
        self.mac.tag.put(out);
        assert(out@ =~= old(out)@ + self@.bytes());
    }

    fn take(b: &[u8]) -> (r: Option<(Self, &[u8])>) {
        match WireRecord::take(b) {
            Some(((msg_type, (header, (ciphertext, tag))), rest)) => Some(
                (WireMessage { msg_type, header, ciphertext, mac: MessageMac { tag } }, rest),
            ),
            None => None,
        }
    }

    proof fn round_trip(m: WireView, rest: Seq<u8>) {
        WireRecord::round_trip(m.fields(), rest);
    }
}

/// What inbound bytes decode to, if anything: oversized bytes are refused
/// unread, and what follows the record is ignored.
pub open spec fn decoded(b: Seq<u8>) -> Option<WireView> {
    if b.len() > MAX_WIRE_BYTES {
        None
    } else {
        match WireMessage::take_spec(b) {
            Some((m, _)) => Some(m),
            None => None,
        }
    }
}

/// The smallest multiple of the block size that is not below `len`.
pub open spec fn padded_len(len: nat) -> nat {
    ((len + BLOCK_SIZE - 1) / (BLOCK_SIZE as int) * BLOCK_SIZE) as nat
}

/// A ciphertext cut to the largest payload.
pub open spec fn capped(ciphertext: Seq<u8>) -> Seq<u8> {
    if ciphertext.len() > MAX_PAYLOAD {
        ciphertext.take(MAX_PAYLOAD as int)
    } else {
        ciphertext
    }
}

/// Bytes in front of a ciphertext that say how long it is.
pub const LENGTH_BYTES: usize = 4;

/// Largest ciphertext that goes out whole.
pub const MAX_SEALED: usize = MAX_PAYLOAD - LENGTH_BYTES;

/// A ciphertext behind its length, so that it can be told from the padding
/// that follows. One that is too long is cut, and does not open any more.
pub open spec fn sized(ct: Seq<u8>) -> Seq<u8> {
    let body = if ct.len() > MAX_SEALED {
        ct.take(MAX_SEALED as int)
    } else {
        ct
    };
    be32(body.len() as u32) + body
}

/// The ciphertext in front of some padding, if it is there.
pub open spec fn sized_part(b: Seq<u8>) -> Option<Seq<u8>> {
    if b.len() < LENGTH_BYTES {
        None
    } else {
        let n = from_be32(b.take(LENGTH_BYTES as int));
        if n > b.len() - LENGTH_BYTES {
            None
        } else {
            Some(b.subrange(LENGTH_BYTES as int, LENGTH_BYTES + n))
        }
    }
}

/// Puts the length in front of a ciphertext.
pub fn put_length(mut ct: Vec<u8>) -> (r: Vec<u8>)
    ensures
        r@ == sized(ct@),
{
    let ghost whole = ct@;
    if ct.len() > MAX_SEALED {
        ct.truncate(MAX_SEALED);
    }
    let mut r: Vec<u8> = Vec::new();
    bytes::append(&mut r, &bytes::u32_to_be(ct.len() as u32));
    bytes::append(&mut r, &ct);
    assert(r@ =~= sized(whole));
    r
}

/// The ciphertext in front of some padding.
pub fn take_length(b: &[u8]) -> (r: Option<Vec<u8>>)
    ensures
        match r {
            Some(ct) => sized_part(b@) == Some(ct@),
            None => sized_part(b@) is None,
        },
{
    if b.len() < LENGTH_BYTES {
        return None;
    }
    let head = bytes::array_at::<4>(b, 0);
    assert(head@ =~= b@.take(LENGTH_BYTES as int));
    let n: u32 = bytes::u32_from_be(&head);
    if n as usize > b.len() - LENGTH_BYTES {
        return None;
    }
    let rest = vstd::slice::slice_subrange(b, LENGTH_BYTES, LENGTH_BYTES + n as usize);
    Some(bytes::copied(rest))
}

/// Padding is told from the ciphertext: whatever follows it, a ciphertext that
/// goes out whole is read back.
pub proof fn padding_is_told_apart(ct: Seq<u8>, b: Seq<u8>)
    requires
        ct.len() <= MAX_SEALED,
        sized(ct).is_prefix_of(b),
    ensures
        sized_part(b) == Some(ct),
{
    let n = ct.len() as int;
    let whole = sized(ct);
    bytes::be32_round_trip(ct.len() as u32);
    assert(whole.len() == LENGTH_BYTES + n);
    assert(whole.subrange(0, LENGTH_BYTES as int) =~= be32(ct.len() as u32));
    assert(whole.subrange(LENGTH_BYTES as int, LENGTH_BYTES + n) =~= ct);
    assert(whole =~= b.subrange(0, LENGTH_BYTES + n));
    assert(b.take(LENGTH_BYTES as int) =~= whole.subrange(0, LENGTH_BYTES as int));
    assert(b.subrange(LENGTH_BYTES as int, LENGTH_BYTES + n) =~= whole.subrange(
        LENGTH_BYTES as int,
        LENGTH_BYTES + n,
    ));
}

impl WireMessage {
    /// Cuts the ciphertext to the largest payload and fills it up to the next
    /// block with random bytes.
    pub fn with_padding(self) -> (r: Self)
        ensures
            r@.msg_type == self@.msg_type,
            r@.header == self@.header,
            r@.mac == self@.mac,
            capped(self@.ciphertext).is_prefix_of(r@.ciphertext),
            r@.ciphertext.len() == padded_len(capped(self@.ciphertext).len()),
            r@.ciphertext.len() > capped(self@.ciphertext).len() ==> drawn_bytes(
                r@.ciphertext.skip(capped(self@.ciphertext).len() as int),
            ),
    {
        let WireMessage { msg_type, header, mut ciphertext, mac } = self;
        if ciphertext.len() > MAX_PAYLOAD {
            ciphertext.truncate(MAX_PAYLOAD);
        }
        assert(ciphertext@ =~= capped(self@.ciphertext));
        let remainder: usize = ciphertext.len() % BLOCK_SIZE;
        if remainder != 0 {
            let padding = suite::fresh_bytes(BLOCK_SIZE - remainder);
            bytes::append(&mut ciphertext, &padding);
            assert(ciphertext@.skip(capped(self@.ciphertext).len() as int) =~= padding@);
        }
        WireMessage { msg_type, header, ciphertext, mac }
    }

    /// The record of the message.
    pub fn to_bytes(&self) -> (r: Option<Vec<u8>>)
        ensures
            r matches Some(b) && b@ == self@.bytes(),
    {
        let mut out: Vec<u8> = Vec::new();
        self.put(&mut out);
        assert(out@ =~= self@.bytes());
        Some(out)
    }

    /// Reads a message that came in.
    pub fn from_bytes(bytes: &[u8]) -> (r: Option<Self>)
        ensures
            match r {
                Some(m) => decoded(bytes@) == Some(m@),
                None => decoded(bytes@) is None,
            },
    {
        if bytes.len() > MAX_WIRE_BYTES {
            return None;
        }
        match WireMessage::take(bytes) {
            Some((m, _)) => Some(m),
            None => None,
        }
    }
}

/// A cover traffic message: one block of random bytes.
pub fn make_dummy_message() -> (r: Vec<u8>)
    ensures
        decoded(r@) matches Some(m) && m == (WireView {
            msg_type: WireMessageType::Dummy,
            header: HeaderView { dh_pub: zeros(), pn: 0, n: 0 },
            ciphertext: m.ciphertext,
            mac: zeros(),
        }) && m.ciphertext.len() == BLOCK_SIZE && drawn_bytes(m.ciphertext) && r@ == m.bytes(),
{
    let zero = [0u8;32];
    assert(zero@ =~= zeros());
    let dummy = WireMessage {
        msg_type: WireMessageType::Dummy,
        header: MessageHeader { dh_pub: zero, pn: 0, n: 0 },
        ciphertext: suite::fresh_bytes(BLOCK_SIZE),
        mac: MessageMac { tag: zero },
    };
    let mut out: Vec<u8> = Vec::new();
    dummy.put(&mut out);
    proof {
        assert(out@ =~= dummy@.bytes());
        padded_messages_fit(dummy@);
        wire_round_trip(dummy@);
    }
    out
}

/// A message whose record is within the cap is read back as it was written.
pub proof fn wire_round_trip(m: WireView)
    requires
        WireMessage::fits(m),
        m.bytes().len() <= MAX_WIRE_BYTES,
    ensures
        decoded(m.bytes()) == Some(m),
{
    WireMessage::round_trip(m, seq![]);
    assert(m.bytes() + seq![] =~= m.bytes());
}

/// The record of any message within the payload limit is within the cap.
pub proof fn padded_messages_fit(m: WireView)
    requires
        m.header.dh_pub.len() == 32,
        m.mac.len() == 32,
        m.ciphertext.len() <= MAX_PAYLOAD,
    ensures
        m.bytes().len() <= MAX_WIRE_BYTES,
        WireMessage::fits(m),
{
    crate::codec::varint_len(m.msg_type.index_spec() as u64);
    crate::codec::varint_len(m.header.pn);
    crate::codec::varint_len(m.header.n);
    crate::codec::varint_len(m.ciphertext.len() as u64);
}

/// Padding always ends on a block within the payload limit.
pub proof fn padding_is_block_aligned(ciphertext: Seq<u8>)
    ensures
        padded_len(capped(ciphertext).len()) % (BLOCK_SIZE as nat) == 0,
        padded_len(capped(ciphertext).len()) <= MAX_PAYLOAD,
        padded_len(capped(ciphertext).len()) >= capped(ciphertext).len(),
        padded_len(capped(ciphertext).len()) - capped(ciphertext).len() < BLOCK_SIZE,
{
}

} // verus!
