//! The core of a messenger for terminals and phones: hybrid post-quantum key
//! exchange, a double ratchet, an encrypted vault with a duress section, and
//! the rules that tie them to contacts, conversations and a Tor transport.
//!
//! Every function here computes on plain values. Sockets, files, the screen
//! and the threads belong to the program around the library.

pub mod bytes;
pub mod codec;
pub mod crypto;
pub mod error;
pub mod hardening;
pub mod identity;
pub mod messenger;
pub mod mobile;
pub mod network;
pub mod storage;
pub mod text;
pub mod ui;
