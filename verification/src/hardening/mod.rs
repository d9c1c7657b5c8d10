//! Hardening of the process: what is asked of the system, and what its answers
//! mean.
pub mod android;
pub mod entropy;
pub mod integrity;
pub mod laws;
pub mod memory;
pub mod root;
pub mod seccomp;
