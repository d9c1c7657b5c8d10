//! What the messenger does with a vault: contacts, sessions, and the messages
//! that go out and come in.
pub mod bundles;
pub mod contacts;
pub mod delivery;
pub mod identity;
pub mod incoming;
pub mod laws;
pub mod outgoing;
pub mod rotation;
pub mod sessions;
