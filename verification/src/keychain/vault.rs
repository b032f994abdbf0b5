//! The `TokenVault` port and its implementations.

use vstd::prelude::*;

use crate::protocol::id::{ulid_encode_spec, AccountId, AccountTag, IdPrefix};
use crate::protocol::primitives::KeychainRef;
use vstd::hash_map::HashMapWithView;

verus! {

broadcast use vstd::std_specs::hash::axiom_u128_obeys_hash_table_key_model;

/// An OAuth refresh token.
#[derive(Clone, Debug)]
pub struct RefreshToken(pub String);

/// Errors of a token vault.
#[derive(Debug)]
pub enum VaultError {
    /// No refresh token is stored for the account.
    NotFound,
    /// The storage backend failed or is unavailable.
    Backend(String),
}

/// The model of a [`VaultError`].
pub enum VaultErrorView {
    NotFound,
    Backend(Seq<char>),
}

impl View for VaultError {
    type V = VaultErrorView;

    open spec fn view(&self) -> VaultErrorView {
        match self {
            VaultError::NotFound => VaultErrorView::NotFound,
            VaultError::Backend(m) => VaultErrorView::Backend(m@),
        }
    }
}

/// The model of a load: the token text, or the error.
pub open spec fn load_view(r: Result<RefreshToken, VaultError>) -> Result<Seq<char>, VaultErrorView> {
    match r {
        Ok(t) => Ok(t.0@),
        Err(e) => Err(e@),
    }
}

/// The text of an account id, `acct_<ulid>`.
pub open spec fn account_text(account: u128) -> Seq<char> {
    AccountTag::prefix_spec() + seq!['_'] + ulid_encode_spec(account)
}

/// Storage of refresh tokens by account.
pub trait TokenVault {
    /// What [`TokenVault::load_refresh`] yields for the account with this ULID.
    spec fn load_result(&self, account: u128) -> Result<Seq<char>, VaultErrorView>;

    /// Stores `token` for `account`, returning a reference to the entry.
    fn store_refresh(&mut self, account: &AccountId, token: &RefreshToken) -> Result<KeychainRef, VaultError>;

    /// The refresh token stored for `account`.
    fn load_refresh(&self, account: &AccountId) -> (r: Result<RefreshToken, VaultError>)
        ensures
            load_view(r) == self.load_result(account.value()),
    ;

    /// Removes the token of `account`.
    fn delete(&mut self, account: &AccountId) -> Result<(), VaultError>;
}

/// A vault that keeps refresh tokens in memory.
pub struct InMemoryTokenVault {
    items: HashMapWithView<u128, String>,
}

impl View for InMemoryTokenVault {
    type V = Map<u128, Seq<char>>;

    closed spec fn view(&self) -> Map<u128, Seq<char>> {
        self.items@.map_values(|s: String| s@)
    }
}

impl InMemoryTokenVault {
    /// An empty vault.
    pub fn new() -> (v: Self)
        ensures
            v@ == Map::<u128, Seq<char>>::empty(),
    {
        let v = InMemoryTokenVault { items: HashMapWithView::new() };
        proof {
            assert(v@ =~= Map::<u128, Seq<char>>::empty());
        }
        v
    }
}

impl TokenVault for InMemoryTokenVault {
    open spec fn load_result(&self, account: u128) -> Result<Seq<char>, VaultErrorView> {
        if self@.contains_key(account) {
            Ok(self@[account])
        } else {
            Err(VaultErrorView::NotFound)
        }
    }

    /// Stores (or overwrites) the token; the reference is the account id text.
    fn store_refresh(&mut self, account: &AccountId, token: &RefreshToken) -> (r: Result<KeychainRef, VaultError>)
        ensures
            final(self)@ == old(self)@.insert(account.value(), token.0@),
            r matches Ok(k) && k.0@ == account_text(account.value()),
    {
        let ghost before = self@;
        self.items.insert(account.ulid(), token.0.clone());
        proof {
            assert(self@ =~= before.insert(account.value(), token.0@));
        }
        let text = account.to_string();
        Ok(KeychainRef::new(text.as_str()))
    }

    fn load_refresh(&self, account: &AccountId) -> (r: Result<RefreshToken, VaultError>) {
        match self.items.get(&account.ulid()) {
            Some(t) => Ok(RefreshToken(t.clone())),
            None => Err(VaultError::NotFound),
        }
    }

    /// Removes the token; removing an absent one succeeds too.
    fn delete(&mut self, account: &AccountId) -> (r: Result<(), VaultError>)
        ensures
            final(self)@ == old(self)@.remove(account.value()),
            r is Ok,
    {
        let ghost before = self@;
        self.items.remove(&account.ulid());
        proof {
            assert(self@ =~= before.remove(account.value()));
        }
        Ok(())
    }
}

/// The message of every operation of the Keychain vault on systems other than macOS.
pub open spec fn macos_only() -> Seq<char> {
    "KeychainTokenVault is macOS-only"@
}

/// The macOS Keychain vault as built on other systems: every operation fails
/// with a backend error.
#[derive(Debug, Default, Clone, Copy)]
pub struct KeychainTokenVault;

fn macos_only_error() -> (e: VaultError)
    ensures
        e@ == VaultErrorView::Backend(macos_only()),
{
    VaultError::Backend(String::from_str("KeychainTokenVault is macOS-only"))
}

impl TokenVault for KeychainTokenVault {
    open spec fn load_result(&self, account: u128) -> Result<Seq<char>, VaultErrorView> {
        Err(VaultErrorView::Backend(macos_only()))
    }

    fn store_refresh(&mut self, account: &AccountId, token: &RefreshToken) -> (r: Result<KeychainRef, VaultError>)
        ensures
            r matches Err(e) && e@ == VaultErrorView::Backend(macos_only()),
    {
        Err(macos_only_error())
    }

    fn load_refresh(&self, account: &AccountId) -> (r: Result<RefreshToken, VaultError>) {
        Err(macos_only_error())
    }

    fn delete(&mut self, account: &AccountId) -> (r: Result<(), VaultError>)
        ensures
            r matches Err(e) && e@ == VaultErrorView::Backend(macos_only()),
    {
        Err(macos_only_error())
    }
}

/// Fetches the refresh token of `account` from `vault`: exactly what the
/// vault's `load_refresh` yields.
pub fn fetch_refresh<V: TokenVault>(vault: &V, account: &AccountId) -> (r: Result<RefreshToken, VaultError>)
    ensures
        load_view(r) == vault.load_result(account.value()),
{
    vault.load_refresh(account)
}

/// A load after a store gives back the stored token, whatever was stored
/// for that account before (a second store overwrites the first).
pub proof fn law_store_then_load(before: InMemoryTokenVault, after: InMemoryTokenVault, account: u128, token: Seq<char>)
    requires
        after@ == before@.insert(account, token),
    ensures
        after.load_result(account) == Ok::<Seq<char>, VaultErrorView>(token),
{
}

/// After a delete the account's token is not found, and deleting again
/// changes nothing.
pub proof fn law_delete_then_not_found(before: InMemoryTokenVault, after: InMemoryTokenVault, account: u128)
    requires
        after@ == before@.remove(account),
    ensures
        after.load_result(account) == Err::<Seq<char>, VaultErrorView>(VaultErrorView::NotFound),
        after@.remove(account) == after@,
{
    assert(after@.remove(account) =~= after@);
}

} // verus!

verus! {

impl Default for InMemoryTokenVault {
    /// An empty vault.
    fn default() -> (v: Self)
        ensures
            v@ == Map::<u128, Seq<char>>::empty(),
    {
        InMemoryTokenVault::new()
    }
}

} // verus!
