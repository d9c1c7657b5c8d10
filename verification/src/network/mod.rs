//! What goes over the network and how it is framed.
use vstd::prelude::*;

pub mod frame;
pub mod laws;
pub mod message;
pub mod socks;
pub mod tor;

verus! {

/// A message received from the transport.
#[derive(Debug)]
pub struct IncomingMessage {
    /// Sender tag of the transport; Tor has none.
    pub sender_tag: Option<Vec<u8>>,
    /// The record of a wire message.
    pub payload: Vec<u8>,
}

} // verus!
