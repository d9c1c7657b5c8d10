use op4_core::crypto::hmac_auth::MessageMac;
use op4_core::crypto::ratchet::MessageHeader;
use op4_core::network::message::{
    make_dummy_message, WireMessage, WireMessageType, BLOCK_SIZE, MAX_BLOCKS, MAX_PAYLOAD,
    MAX_WIRE_BYTES,
};

fn make_wire(ciphertext: Vec<u8>) -> WireMessage {
    WireMessage {
        msg_type: WireMessageType::Data,
        header: MessageHeader { dh_pub: [0u8; 32], pn: 0, n: 0 },
        ciphertext,
        mac: MessageMac { tag: [0u8; 32] },
    }
}

#[test]
fn wire_message_roundtrip() {
    let msg = make_wire(vec![0xabu8; 64]);
    let bytes = msg.to_bytes().unwrap();
    let decoded = WireMessage::from_bytes(&bytes).unwrap();
    assert_eq!(decoded.ciphertext, vec![0xabu8; 64]);
    assert!(matches!(decoded.msg_type, WireMessageType::Data));
}

#[test]
fn from_bytes_rejects_oversized() {
    // One byte over the cap must be rejected before deserialisation.
    let oversized = vec![0u8; MAX_WIRE_BYTES + 1];
    assert!(WireMessage::from_bytes(&oversized).is_none());
}

#[test]
fn from_bytes_accepts_at_cap() {
    let at_cap = vec![0u8; MAX_WIRE_BYTES];
    let _ = WireMessage::from_bytes(&at_cap); // must not panic
}

#[test]
fn with_padding_aligns_to_block_size() {
    // 100 bytes → should round up to 512 (one block)
    let msg = make_wire(vec![0u8; 100]);
    let padded = msg.with_padding();
    assert_eq!(padded.ciphertext.len() % BLOCK_SIZE, 0);
    assert_eq!(padded.ciphertext.len(), BLOCK_SIZE);
}

#[test]
fn with_padding_already_aligned_no_extra() {
    // Exactly BLOCK_SIZE bytes → no additional padding added
    let msg = make_wire(vec![0u8; BLOCK_SIZE]);
    let padded = msg.with_padding();
    assert_eq!(padded.ciphertext.len(), BLOCK_SIZE);
}

#[test]
fn with_padding_two_blocks() {
    // BLOCK_SIZE + 1 bytes → padded to 2 × BLOCK_SIZE
    let msg = make_wire(vec![0u8; BLOCK_SIZE + 1]);
    let padded = msg.with_padding();
    assert_eq!(padded.ciphertext.len(), BLOCK_SIZE * 2);
}

#[test]
fn with_padding_truncates_over_max_payload() {
    // Oversized ciphertext is truncated to MAX_PAYLOAD, which is already
    // block-aligned, so no extra padding is added.
    let msg = make_wire(vec![0u8; MAX_PAYLOAD + 1]);
    let padded = msg.with_padding();
    assert_eq!(padded.ciphertext.len(), MAX_PAYLOAD);
    assert_eq!(padded.ciphertext.len() % BLOCK_SIZE, 0);
}

#[test]
fn make_dummy_message_decodes_as_dummy() {
    let bytes = make_dummy_message();
    let msg = WireMessage::from_bytes(&bytes).unwrap();
    assert!(matches!(msg.msg_type, WireMessageType::Dummy));
}

#[test]
fn max_wire_bytes_constant_value() {
    assert_eq!(MAX_WIRE_BYTES, MAX_PAYLOAD + 512);
    assert_eq!(MAX_PAYLOAD, BLOCK_SIZE * MAX_BLOCKS);
}

#[test]
fn messages_are_records_of_their_fields() {
    let mut msg = make_wire(vec![1, 2, 3]);
    msg.msg_type = WireMessageType::BundleResponse;
    msg.header = MessageHeader { dh_pub: [4u8; 32], pn: 300, n: 7 };
    msg.mac.tag = [5u8; 32];
    let expected =
        postcard::to_allocvec(&(7u32, ([4u8; 32], 300u64, 7u64), vec![1u8, 2, 3], ([5u8; 32],)))
            .unwrap();
    assert_eq!(msg.to_bytes().unwrap(), expected);
    let back = WireMessage::from_bytes(&expected).unwrap();
    assert_eq!(back.msg_type, WireMessageType::BundleResponse);
    assert_eq!((back.header.pn, back.header.n), (300, 7));
}

#[test]
fn padding_keeps_what_was_there() {
    let padded = make_wire(vec![9u8; 700]).with_padding();
    assert_eq!(&padded.ciphertext[..700], &[9u8; 700][..]);
    let bytes = padded.to_bytes().unwrap();
    assert!(bytes.len() <= MAX_WIRE_BYTES);
}

#[test]
fn unknown_types_are_not_read() {
    let mut bytes = make_wire(vec![]).to_bytes().unwrap();
    bytes[0] = 8;
    assert!(WireMessage::from_bytes(&bytes).is_none());
    for i in 0u32..8 {
        assert_eq!(WireMessageType::of_index(i).unwrap().index(), i);
    }
    assert!(WireMessageType::of_index(8).is_none());
}
