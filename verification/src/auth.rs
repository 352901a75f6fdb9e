//! Authentication with atomic validate-and-touch.
//!
//! Authenticating a token both checks it and refreshes its last-active
//! time. Both happen in one atomic decision, so concurrent logins with the
//! same token can never fail each other by racing on the refresh.

use vstd::prelude::*;
use std::collections::HashMap;

verus! {

broadcast use vstd::std_specs::hash::group_hash_axioms;

/// A session token's record.
#[derive(Clone, Copy, Debug, PartialEq, Eq, Structural)]
pub struct AuthToken {
    /// The user the token belongs to.
    pub user_id: u64,
    /// When the token was last used.
    pub last_active: u64,
}

/// The outcome of an authentication attempt.
#[derive(Clone, Copy, Debug, PartialEq, Eq, Structural)]
pub enum AuthResult {
    /// The token is known; its last-active time was refreshed.
    Success,
    /// The token is unknown.
    AuthenticationFailed,
}

/// Token storage with a failure counter.
pub struct AuthStore {
    /// Known tokens by token key.
    pub tokens: HashMap<u64, AuthToken>,
    /// How many authentications failed because of racing refreshes.
    /// Atomic validate-and-touch keeps this at its initial value.
    pub failed_auth_count: u64,
}

impl AuthStore {
    /// The record of a token, if the token is known.
    pub open spec fn spec_token(self, token: u64) -> Option<AuthToken> {
        if self.tokens@.dom().contains(token) {
            Some(self.tokens@[token])
        } else {
            None
        }
    }

    /// Build an empty store.
    pub fn new() -> (s: Self)
        ensures
            forall|t: u64| s.spec_token(t) is None,
            s.failed_auth_count == 0,
    {
        let s = AuthStore { tokens: HashMap::new(), failed_auth_count: 0 };
        proof {
            assert(s.tokens@.dom() =~= Set::empty());
        }
        s
    }

    /// Issue a token for a user.
    pub fn add_token(&mut self, token: u64, user_id: u64, now: u64)
        ensures
            final(self).spec_token(token) == Some(AuthToken { user_id, last_active: now }),
            forall|t: u64|
                t != token ==> #[trigger] final(self).spec_token(t) == old(self).spec_token(t),
            final(self).failed_auth_count == old(self).failed_auth_count,
    {
        self.tokens.insert(token, AuthToken { user_id, last_active: now });
    }

    /// The number of authentications lost to refresh conflicts.
    pub fn get_failed_count(&self) -> (n: u64)
        ensures
            n == self.failed_auth_count,
    {
        self.failed_auth_count
    }
}

/// Authenticates tokens against a store.
pub struct AuthHandler {
    /// The token store this handler drives.
    pub store: AuthStore,
}

impl AuthHandler {
    /// Wrap a store.
    pub fn new(store: AuthStore) -> (h: Self)
        ensures
            h.store == store,
    {
        AuthHandler { store }
    }

    /// Validate the token and refresh its last-active time in one atomic
    /// decision. Succeeds exactly when the token is known — concurrent
    /// refreshes can never turn a valid token away — and never bumps the
    /// failure counter.
    pub fn authenticate(&mut self, token: u64, now: u64) -> (r: AuthResult)
        ensures
            final(self).store.failed_auth_count == old(self).store.failed_auth_count,
            match old(self).store.spec_token(token) {
                Some(t) => r == AuthResult::Success && final(self).store.spec_token(token) == Some(
                    AuthToken { user_id: t.user_id, last_active: now },
                ),
                None => r == AuthResult::AuthenticationFailed && *final(self) == *old(self),
            },
            forall|t: u64|
                t != token ==> #[trigger] final(self).store.spec_token(t) == old(self).store.spec_token(t),
    {
        let cur = match self.store.tokens.get(&token) {
            Some(t) => *t,
            None => {
                return AuthResult::AuthenticationFailed;
            },
        };
        self.store.tokens.insert(token, AuthToken { user_id: cur.user_id, last_active: now });
        AuthResult::Success
    }
}

} // verus!
