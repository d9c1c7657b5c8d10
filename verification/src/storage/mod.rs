//! The vault: what it stores and the file it is stored in.
pub mod records;
pub mod paths;
pub mod payload;
pub mod vault;
