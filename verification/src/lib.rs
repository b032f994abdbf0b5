//! Verified core of the onesync OneDrive sync client: domain types, Graph URL
//! encoding, response classification, hashing, the upload and throttle state
//! machines, the access-token cache, an in-memory fake drive and the
//! refresh-token vaults.

pub mod graph;
pub mod keychain;
pub mod protocol;
pub mod text;
pub mod urls;
