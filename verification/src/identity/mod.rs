//! Contacts: the codes that introduce them, what is stored of them, and how
//! their keys change.
pub mod profile;
pub mod revocation;
