//! Deniable authentication: either party could have made the same tag, since
//! both hold the key.
use crate::bytes;
use crate::bytes::be64;
use crate::crypto::primitives::{hmac_sign, hmac_verify, MacKey};
use crate::crypto::suite::hmac_sha256;
use vstd::prelude::*;

verus! {

/// The deniable authentication tag of a message.
#[derive(Debug, Clone)]
pub struct MessageMac {
    pub tag: [u8; 32],
}

/// What the tag covers: the conversation, the counter in big-endian order,
/// and the ciphertext.
pub open spec fn mac_input(conversation_id: Seq<u8>, counter: u64, ciphertext: Seq<u8>) -> Seq<u8> {
    conversation_id + be64(counter) + ciphertext
}

fn write_mac_input(conversation_id: &[u8; 32], counter: u64, ciphertext: &[u8]) -> (r: Vec<u8>)
    ensures
        r@ == mac_input(conversation_id@, counter, ciphertext@),
{
    let mut data: Vec<u8> = Vec::new();
    bytes::append(&mut data, conversation_id);
    bytes::append(&mut data, &bytes::u64_to_be(counter));
    bytes::append(&mut data, ciphertext);
    assert(data@ =~= mac_input(conversation_id@, counter, ciphertext@));
    data
}

/// The tag of a ciphertext under the MAC key of its message.
pub fn compute_message_mac(
    mac_key: &MacKey,
    conversation_id: &[u8; 32],
    counter: u64,
    ciphertext: &[u8],
) -> (r: MessageMac)
    ensures
        r.tag@ == hmac_sha256(mac_key@, mac_input(conversation_id@, counter, ciphertext@)),
{
    let data = write_mac_input(conversation_id, counter, ciphertext);
    MessageMac { tag: hmac_sign(mac_key, &data) }
}

/// Whether a tag is the tag of the ciphertext, in constant time. The tag that
/// [`compute_message_mac`] makes of the same arguments is the only one
/// accepted.
pub fn verify_message_mac(
    mac_key: &MacKey,
    conversation_id: &[u8; 32],
    counter: u64,
    ciphertext: &[u8],
    mac: &MessageMac,
) -> (r: bool)
    ensures
        r == (mac.tag@ == hmac_sha256(
            mac_key@,
            mac_input(conversation_id@, counter, ciphertext@),
        )),
{
    let data = write_mac_input(conversation_id, counter, ciphertext);
    hmac_verify(mac_key, &data, &mac.tag)
}

} // verus!
