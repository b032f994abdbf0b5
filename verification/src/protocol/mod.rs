//! Canonical onesync domain types.

pub mod entities;
pub mod enums;
pub mod file_side;
pub mod id;
pub mod path;
pub mod primitives;
pub mod remote;
pub mod rpc;
