//! Refresh-token storage: the `TokenVault` port, an in-memory vault, the
//! stand-in for the macOS Keychain on other systems, the helper that fetches
//! a refresh token for the Graph adapter, and how the macOS Keychain vault
//! reads the Keychain's answers.

pub mod macos;
pub mod vault;
