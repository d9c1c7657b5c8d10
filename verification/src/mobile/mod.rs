//! The phone's interface without its toolkit: its state, what each tap does,
//! and what a message that came in does.
pub mod incoming;
pub mod laws;
pub mod state;
pub mod taps;
