//! Opaque refresh tokens.
//!
//! A refresh token is random text that the store remembers with its owner
//! and its expiry. Resolving one reads the record and changes nothing: the
//! same token can be resolved again and again until it expires.

use crate::crypto::random_bytes;
use crate::error::AuthError;
use crate::hex::{encode_string, hex_text};
use crate::model::{NewRefreshToken, TokenView};
use crate::store::{lemma_with_token_row, CredentialStore, StoreView};
use crate::text::utf8;
use vstd::prelude::*;

verus! {

/// The number of random bytes in a refresh token.
pub const REFRESH_TOKEN_BYTES: usize = 32;

/// Issues and resolves refresh tokens with a fixed lifetime.
pub struct RefreshTokenManager {
    ttl: u64,
}

impl RefreshTokenManager {
    /// The lifetime of a refresh token, in seconds.
    pub closed spec fn ttl(&self) -> u64 {
        self.ttl
    }

    /// Whether a refresh token can be made at `now` from `entropy`: the
    /// lifetime is not zero, the expiry is a second that the store can
    /// hold, and there are `REFRESH_TOKEN_BYTES` bytes of entropy.
    pub open spec fn can_make(&self, now: u64, entropy: Seq<u8>) -> bool {
        &&& self.ttl() > 0
        &&& now + self.ttl() <= u64::MAX
        &&& entropy.len() == REFRESH_TOKEN_BYTES
    }

    /// Whether `after` is `before` after the token `text` has been issued
    /// to the user at `now`.
    pub open spec fn issued(
        &self,
        before: StoreView,
        after: StoreView,
        user_id: i32,
        now: u64,
        text: Seq<char>,
    ) -> bool {
        &&& before.takes_new_token(user_id as int, text)
        &&& after == before.with_token(user_id as int, text, now + self.ttl())
    }

    /// A manager whose tokens live for `ttl` seconds.
    pub fn new(ttl: u64) -> (manager: RefreshTokenManager)
        ensures
            manager.ttl() == ttl,
    {
        RefreshTokenManager { ttl }
    }

    /// Issues the refresh token whose text is the hexadecimal text of
    /// `entropy`. Fails with `SigningError` when no token can be made at
    /// `now` from `entropy`, and else with `StoreError` when the store does
    /// not take it.
    pub fn issue_with(
        &self,
        store: &mut CredentialStore,
        user_id: i32,
        now: u64,
        entropy: &[u8],
    ) -> (token: Result<String, AuthError>)
        requires
            old(store)@.wf(),
        ensures
            final(store)@.wf(),
            !self.can_make(now, entropy@) <==> token == Err::<String, AuthError>(
                AuthError::SigningError,
            ),
            token matches Err(e) ==> e == AuthError::SigningError || e == AuthError::StoreError,
            token matches Ok(t) ==> utf8(t@) == hex_text(entropy@) && self.issued(
                old(store)@,
                final(store)@,
                user_id,
                now,
                t@,
            ),
            token is Err ==> final(store)@ == old(store)@,
            forall|text: Seq<char>|
                self.can_make(now, entropy@) && utf8(text) == hex_text(entropy@) && old(
                    store,
                )@.takes_new_token(user_id as int, text) ==> token is Ok,
    {
        if self.ttl == 0 || entropy.len() != REFRESH_TOKEN_BYTES {
            return Err(AuthError::SigningError);
        }
        let expires_at: u64 = match now.checked_add(self.ttl) {
            Some(e) => e,
            None => {
                return Err(AuthError::SigningError);
            },
        };
        let text = encode_string(entropy);
        let kept = text.clone();
        proof {
            assert forall|other: Seq<char>| utf8(other) == hex_text(entropy@) implies other
                == text@ by {
                crate::text::lemma_utf8_injective(other, text@);
            }
        }
        match store.insert_refresh_token(NewRefreshToken { user_id, token: text }, expires_at) {
            Ok(_) => Ok(kept),
            Err(e) => Err(e),
        }
    }

    /// Issues a refresh token with random text. The text is handed out
    /// here and nowhere else. Fails with `SigningError` when no token can be
    /// made at `now` or the system gives no random bytes, and with
    /// `StoreError` when the store does not take the token.
    pub fn issue(
        &self,
        store: &mut CredentialStore,
        user_id: i32,
        now: u64,
    ) -> (token: Result<String, AuthError>)
        requires
            old(store)@.wf(),
        ensures
            final(store)@.wf(),
            self.ttl() == 0 || now + self.ttl() > u64::MAX ==> token == Err::<String, AuthError>(
                AuthError::SigningError,
            ),
            token matches Err(e) ==> e == AuthError::SigningError || e == AuthError::StoreError,
            token matches Ok(t) ==> self.issued(old(store)@, final(store)@, user_id, now, t@),
            token is Err ==> final(store)@ == old(store)@,
    {
        match random_bytes(REFRESH_TOKEN_BYTES) {
            Some(entropy) => self.issue_with(store, user_id, now, entropy.as_slice()),
            None => Err(AuthError::SigningError),
        }
    }

    /// The owner of the refresh token `token`. Fails with `InvalidToken`
    /// when the store has no such token, and with `ExpiredToken` when the
    /// token's expiry is not after `now`. The record stays as it is.
    pub fn resolve(
        &self,
        store: &CredentialStore,
        token: &str,
        now: u64,
    ) -> (owner: Result<i32, AuthError>)
        requires
            store@.wf(),
        ensures
            (match owner {
                Ok(id) => store@.find_token(token@) matches Some(row) && row.user_id == id && now
                    < row.expired_at,
                Err(e) => match store@.find_token(token@) {
                    None => e == AuthError::InvalidToken,
                    Some(row) => e == AuthError::ExpiredToken && row.expired_at <= now,
                },
            }),
    {
        match store.find_refresh_token(token) {
            None => Err(AuthError::InvalidToken),
            Some(row) => if row.expired_at <= now {
                Err(AuthError::ExpiredToken)
            } else {
                Ok(row.user_id)
            },
        }
    }
}

/// An issued refresh token is found in the store, with its owner and with
/// an expiry one lifetime after it was issued.
pub proof fn lemma_issued_token_found(
    manager: RefreshTokenManager,
    before: StoreView,
    after: StoreView,
    user_id: i32,
    issued_at: u64,
    text: Seq<char>,
)
    requires
        before.wf(),
        manager.issued(before, after, user_id, issued_at, text),
    ensures
        after.wf(),
        after.users == before.users,
        after.find_token(text) == Some(
            (TokenView {
                id: before.next_token_id(),
                user_id: user_id as int,
                token: text,
                expired_at: issued_at + manager.ttl(),
            }),
        ),
        forall|other: Seq<char>|
            other != text ==> #[trigger] after.find_token(other) == before.find_token(other),
{
    let row = TokenView {
        id: before.next_token_id(),
        user_id: user_id as int,
        token: text,
        expired_at: issued_at + manager.ttl(),
    };
    lemma_with_token_row(before, row);
}

} // verus!
