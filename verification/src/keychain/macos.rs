//! How the macOS Keychain vault reads the Keychain's answers: the generic
//! password item it uses, and the mapping of each call's outcome to the
//! vault's result. "Item not found" on a load is `NotFound`, on a delete it
//! is success (deleting is idempotent); every other failure is a backend
//! error naming the call.

use vstd::prelude::*;

use crate::keychain::vault::{RefreshToken, VaultError, VaultErrorView};
use vstd::utf8::{decode_utf8, valid_utf8};

verus! {

/// Keychain service under which refresh tokens are stored (one item per account id).
pub const SERVICE_NAME: &'static str = "dev.onesync.refresh-token";

/// The Keychain's status code for "item not found" (`errSecItemNotFound`).
pub const ERR_SEC_ITEM_NOT_FOUND: i32 = -25300;

/// A failed Keychain call: its status code and its message.
#[derive(Debug, Clone)]
pub struct KeychainFailure {
    pub code: i32,
    pub message: String,
}

/// The message `std::string::FromUtf8Error` displays for `bytes`.
pub uninterp spec fn utf8_error_text_spec(bytes: Seq<u8>) -> Seq<char>;

/// `String::from_utf8`: the text when `bytes` are valid UTF-8, else the
/// error's `Display` text. The contract states what the standard library
/// documents (success exactly on valid UTF-8, and then the decoded text) and
/// names the error message.
#[verifier::external_body]
fn utf8_text(bytes: Vec<u8>) -> (r: Result<String, String>)
    ensures
        match r {
            Ok(s) => valid_utf8(bytes@) && s@ == decode_utf8(bytes@),
            Err(m) => !valid_utf8(bytes@) && m@ == utf8_error_text_spec(bytes@),
        },
{
    match String::from_utf8(bytes) {
        Ok(s) => Ok(s),
        Err(e) => Err(e.to_string()),
    }
}

/// The vault's result for a store: any failure is a backend error.
pub fn store_outcome(r: Result<(), KeychainFailure>) -> (o: Result<(), VaultError>)
    ensures
        match r {
            Ok(()) => o is Ok,
            Err(f) => o matches Err(e) && e@ == VaultErrorView::Backend("set_generic_password: "@ + f.message@),
        },
{
    match r {
        Ok(()) => Ok(()),
        Err(f) => Err(VaultError::Backend(String::from_str("set_generic_password: ").concat(f.message.as_str()))),
    }
}

/// The vault's result for a load: "item not found" is `NotFound`, other
/// failures and non-UTF-8 secrets are backend errors.
pub fn load_outcome(r: Result<Vec<u8>, KeychainFailure>) -> (o: Result<RefreshToken, VaultError>)
    ensures
        match r {
            Ok(b) => if valid_utf8(b@) {
                o matches Ok(t) && t.0@ == decode_utf8(b@)
            } else {
                o matches Err(e) && e@ == VaultErrorView::Backend("non-utf8 secret: "@ + utf8_error_text_spec(b@))
            },
            Err(f) => if f.code == ERR_SEC_ITEM_NOT_FOUND {
                o matches Err(e) && e@ == VaultErrorView::NotFound
            } else {
                o matches Err(e) && e@ == VaultErrorView::Backend("get_generic_password: "@ + f.message@)
            },
        },
{
    match r {
        Ok(bytes) => match utf8_text(bytes) {
            Ok(s) => Ok(RefreshToken(s)),
            Err(m) => Err(VaultError::Backend(String::from_str("non-utf8 secret: ").concat(m.as_str()))),
        },
        Err(f) => {
            if f.code == ERR_SEC_ITEM_NOT_FOUND {
                Err(VaultError::NotFound)
            } else {
                Err(VaultError::Backend(String::from_str("get_generic_password: ").concat(f.message.as_str())))
            }
        },
    }
}

/// The vault's result for a delete: "item not found" counts as deleted.
pub fn delete_outcome(r: Result<(), KeychainFailure>) -> (o: Result<(), VaultError>)
    ensures
        match r {
            Ok(()) => o is Ok,
            Err(f) => if f.code == ERR_SEC_ITEM_NOT_FOUND {
                o is Ok
            } else {
                o matches Err(e) && e@ == VaultErrorView::Backend("delete_generic_password: "@ + f.message@)
            },
        },
{
    match r {
        Ok(()) => Ok(()),
        Err(f) => {
            if f.code == ERR_SEC_ITEM_NOT_FOUND {
                Ok(())
            } else {
                Err(VaultError::Backend(String::from_str("delete_generic_password: ").concat(f.message.as_str())))
            }
        },
    }
}

/// The error when the blocking Keychain task could not be joined.
pub fn join_error(message: &str) -> (e: VaultError)
    ensures
        e@ == VaultErrorView::Backend("join: "@ + message@),
{
    VaultError::Backend(String::from_str("join: ").concat(message))
}

} // verus!
