//! The user interface without the terminal: its texts, its state and what
//! each key does.
pub mod app;
pub mod contact_keys;
pub mod contacts;
pub mod conversation;
pub mod conversation_keys;
pub mod input;
pub mod laws;
pub mod passphrase;
pub mod qr;
pub mod screen_laws;
pub mod settings;
pub mod settings_keys;
pub mod state;
