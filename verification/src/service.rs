//! The three operations of the service: register, login, refresh.
//!
//! The service keeps nothing itself. It holds the password hasher, the
//! token signer and the refresh token manager, and works on the store that
//! each call is given.

use crate::crypto::random_bytes;
use crate::error::AuthError;
use crate::hasher::{PasswordHasher, SALT_LEN};
use crate::hex::hex_text;
use crate::model::{
    AccessToken, ClaimsView, LoginUser, NewUser, RefreshToken, TokenType, User, UserView,
    UserWithTokens,
};
use crate::refresh::{lemma_issued_token_found, RefreshTokenManager, REFRESH_TOKEN_BYTES};
use crate::signer::{token_text, verdict, TokenError, TokenSigner};
use crate::store::{
    lemma_find_user_in_range, lemma_token_owner, lemma_with_row, CredentialStore, StoreView,
};
use crate::text::{decimal, lemma_decimal_injective, utf8};
use vstd::prelude::*;

verus! {

/// The role that a user's tokens carry: the user's role, or the empty role
/// where the user has none.
pub open spec fn role_text(user: UserView) -> Seq<char> {
    match user.role {
        Some(role) => role,
        None => Seq::empty(),
    }
}

/// The user that a registration with this name and email creates in
/// `store`.
pub open spec fn new_user_of(store: StoreView, name: Seq<char>, email: Seq<char>) -> UserView {
    UserView { id: store.next_user_id(), name, email, role: None }
}

/// Register, login and refresh over a store.
pub struct AuthService {
    hasher: PasswordHasher,
    signer: TokenSigner,
    refresh: RefreshTokenManager,
}

impl AuthService {
    /// The hasher that judges passwords.
    pub closed spec fn hasher(&self) -> PasswordHasher {
        self.hasher
    }

    /// The signer of access tokens.
    pub closed spec fn signer(&self) -> TokenSigner {
        self.signer
    }

    /// The manager of refresh tokens.
    pub closed spec fn manager(&self) -> RefreshTokenManager {
        self.refresh
    }

    /// The claims of the access token that `user` gets at `now`.
    pub open spec fn access_claims(&self, user: UserView, now: u64) -> ClaimsView {
        self.signer().claims_for(user.id as i32, role_text(user), TokenType::AccessToken, now)
    }

    /// Whether a login with these credentials at `now`, with `entropy` for
    /// the refresh token, goes through: the credentials are a user's, an
    /// access token can be signed, a refresh token can be made, and the
    /// store takes it.
    pub open spec fn login_goes_through(
        &self,
        store: StoreView,
        email: Seq<char>,
        password: Seq<char>,
        now: u64,
        entropy: Seq<u8>,
        refresh_text: Seq<char>,
    ) -> bool {
        &&& store.credentials_ok(self.hasher(), email, password)
        &&& self.signer().can_sign(TokenType::AccessToken, now)
        &&& self.manager().can_make(now, entropy)
        &&& utf8(refresh_text) == hex_text(entropy)
        &&& store.takes_new_token(store.find_user(email)->0.user.id, refresh_text)
    }

    /// Whether a refresh with this token at `now` goes through: the token
    /// is in the store, its expiry is after `now`, and an access token can
    /// be signed.
    pub open spec fn refresh_goes_through(&self, store: StoreView, token: Seq<char>, now: u64) -> bool {
        &&& store.find_token(token) matches Some(row)
        &&& now < row.expired_at
        &&& self.signer().can_sign(TokenType::AccessToken, now)
    }

    /// The user that owns the refresh token `token`.
    pub open spec fn owner_of(store: StoreView, token: Seq<char>) -> UserView {
        store.find_user_by_id(store.find_token(token)->0.user_id)->0.user
    }

    /// A service that hashes with `hasher` and signs with `signer`. Refresh
    /// tokens live as long as the signer says for their kind.
    pub fn new(hasher: PasswordHasher, signer: TokenSigner) -> (service: AuthService)
        ensures
            service.hasher() == hasher,
            service.signer() == signer,
            service.manager().ttl() == signer.ttl_of(TokenType::RefreshToken),
    {
        let refresh = RefreshTokenManager::new(signer.ttl(TokenType::RefreshToken));
        AuthService { hasher, signer, refresh }
    }

    fn created(store: &CredentialStore, email: &str) -> (user: Result<User, AuthError>)
        requires
            store@.wf(),
        ensures
            (match user {
                Ok(u) => store@.find_user(email@) matches Some(row) && row.user == u@,
                Err(e) => e == AuthError::StoreError && store@.find_user(email@) is None,
            }),
    {
        match store.fetch_user_by_email(email) {
            Ok(row) => Ok(row.user),
            Err(_) => Err(AuthError::StoreError),
        }
    }

    /// Registers a user under the given salt and hands out the user that
    /// was created. Fails with `DuplicateEmail` when the email is taken, and
    /// else with `StoreError` when the ids have run out or the salt does not
    /// have `SALT_LEN` bytes. A failed registration leaves the store as it
    /// was.
    pub fn register_with_salt(
        &self,
        store: &mut CredentialStore,
        new_user: &NewUser,
        salt: &[u8],
    ) -> (user: Result<User, AuthError>)
        requires
            old(store)@.wf(),
        ensures
            final(store)@.wf(),
            old(store)@.email_taken(new_user.email@) ==> user matches Err(
                AuthError::DuplicateEmail,
            ),
            !old(store)@.email_taken(new_user.email@) && (old(store)@.next_user_id() > i32::MAX
                || salt@.len() != SALT_LEN) ==> user matches Err(AuthError::StoreError),
            !old(store)@.email_taken(new_user.email@) && old(store)@.next_user_id() <= i32::MAX
                && salt@.len() == SALT_LEN ==> user is Ok,
            user matches Ok(u) ==> u@ == new_user_of(old(store)@, new_user.name@, new_user.email@),
            user is Ok ==> old(store)@.registered(
                final(store)@,
                self.hasher(),
                new_user.name@,
                new_user.email@,
                new_user.password@,
            ),
            user is Ok ==> utf8(final(store)@.users.last().password) == self.hasher().hash_of(
                new_user.password@,
                salt@,
            ),
            user is Err ==> final(store)@ == old(store)@,
    {
        match store.create_user_with_salt(new_user, &self.hasher, salt) {
            Ok(_) => {
                proof {
                    lemma_registered(
                        old(store)@,
                        store@,
                        self.hasher(),
                        new_user.name@,
                        new_user.email@,
                        new_user.password@,
                    );
                }
                Self::created(store, new_user.email)
            },
            Err(e) => Err(e),
        }
    }

    /// Registers a user and hands out the user that was created. The
    /// password is stored under a fresh random salt. Fails with
    /// `DuplicateEmail` exactly when the email is taken, and else with
    /// `StoreError` when the ids have run out or no salt could be drawn. A
    /// failed registration leaves the store as it was.
    pub fn register(
        &self,
        store: &mut CredentialStore,
        new_user: &NewUser,
    ) -> (user: Result<User, AuthError>)
        requires
            old(store)@.wf(),
        ensures
            final(store)@.wf(),
            old(store)@.email_taken(new_user.email@) <==> user matches Err(
                AuthError::DuplicateEmail,
            ),
            !old(store)@.email_taken(new_user.email@) && old(store)@.next_user_id() > i32::MAX
                ==> user matches Err(AuthError::StoreError),
            user matches Err(e) ==> e == AuthError::DuplicateEmail || e == AuthError::StoreError,
            user matches Ok(u) ==> u@ == new_user_of(old(store)@, new_user.name@, new_user.email@),
            user is Ok ==> old(store)@.registered(
                final(store)@,
                self.hasher(),
                new_user.name@,
                new_user.email@,
                new_user.password@,
            ),
            user is Err ==> final(store)@ == old(store)@,
    {
        match store.create_user(new_user, &self.hasher) {
            Ok(_) => {
                proof {
                    lemma_registered(
                        old(store)@,
                        store@,
                        self.hasher(),
                        new_user.name@,
                        new_user.email@,
                        new_user.password@,
                    );
                }
                Self::created(store, new_user.email)
            },
            Err(e) => Err(e),
        }
    }

    /// Logs a user in at `now`, with `entropy` for the refresh token, and
    /// hands out the user with a fresh access token and a fresh refresh
    /// token. Fails with `InvalidCredentials` when the email and password
    /// are not a user's, whichever of the two is wrong; else with
    /// `SigningError` when a token cannot be made; else with `StoreError`
    /// when the store does not take the refresh token. Either both tokens
    /// are issued or none: a failed login leaves the store as it was.
    pub fn login_with_entropy(
        &self,
        store: &mut CredentialStore,
        user: &LoginUser,
        now: u64,
        entropy: &[u8],
    ) -> (out: Result<UserWithTokens, AuthError>)
        requires
            old(store)@.wf(),
        ensures
            final(store)@.wf(),
            !old(store)@.credentials_ok(self.hasher(), user.email@, user.password@) <==> out matches Err(
                AuthError::InvalidCredentials,
            ),
            old(store)@.credentials_ok(self.hasher(), user.email@, user.password@) && !(
            self.signer().can_sign(TokenType::AccessToken, now) && self.manager().can_make(
                now,
                entropy@,
            )) <==> out matches Err(AuthError::SigningError),
            out matches Err(e) ==> e == AuthError::InvalidCredentials || e
                == AuthError::SigningError || e == AuthError::StoreError,
            forall|text: Seq<char>|
                self.login_goes_through(
                    old(store)@,
                    user.email@,
                    user.password@,
                    now,
                    entropy@,
                    text,
                ) ==> out is Ok,
            out matches Ok(o) ==> ({
                &&& old(store)@.find_user(user.email@) matches Some(row) && row.user == o.user@
                &&& self.login_goes_through(
                    old(store)@,
                    user.email@,
                    user.password@,
                    now,
                    entropy@,
                    o.refresh_token@,
                )
                &&& utf8(o.access_token@) == token_text(
                    self.signer().key(),
                    self.access_claims(o.user@, now),
                )
                &&& verdict(self.signer().key(), o.access_token@, now as int) == Ok::<
                    ClaimsView,
                    TokenError,
                >(self.access_claims(o.user@, now))
                &&& self.manager().issued(
                    old(store)@,
                    final(store)@,
                    o.user.id,
                    now,
                    o.refresh_token@,
                )
            }),
            out is Err ==> final(store)@ == old(store)@,
    {
        let row = match store.fetch_user_by_email_and_password(
            user.email,
            user.password,
            &self.hasher,
        ) {
            Ok(row) => row,
            Err(e) => {
                return Err(e);
            },
        };
        let access_token = match self.sign_for(&row.user, now) {
            Ok(t) => t,
            Err(e) => {
                return Err(e);
            },
        };
        let refresh_token = match self.refresh.issue_with(store, row.user.id, now, entropy) {
            Ok(t) => t,
            Err(e) => {
                return Err(e);
            },
        };
        Ok(UserWithTokens { user: row.user, access_token, refresh_token })
    }

    /// Logs a user in at `now` and hands out the user with a fresh access
    /// token and a fresh, random refresh token. Fails with
    /// `InvalidCredentials` exactly when the email and password are not a
    /// user's, whichever of the two is wrong; else with `SigningError` when
    /// a token cannot be made; else with `StoreError` when the store does
    /// not take the refresh token. Either both tokens are issued or none: a
    /// failed login leaves the store as it was.
    pub fn login(
        &self,
        store: &mut CredentialStore,
        user: &LoginUser,
        now: u64,
    ) -> (out: Result<UserWithTokens, AuthError>)
        requires
            old(store)@.wf(),
        ensures
            final(store)@.wf(),
            !old(store)@.credentials_ok(self.hasher(), user.email@, user.password@) <==> out matches Err(
                AuthError::InvalidCredentials,
            ),
            old(store)@.credentials_ok(self.hasher(), user.email@, user.password@)
                && !self.signer().can_sign(TokenType::AccessToken, now) ==> out matches Err(
                AuthError::SigningError,
            ),
            out matches Err(e) ==> e == AuthError::InvalidCredentials || e
                == AuthError::SigningError || e == AuthError::StoreError,
            out matches Ok(o) ==> ({
                &&& old(store)@.find_user(user.email@) matches Some(row) && row.user == o.user@
                &&& utf8(o.access_token@) == token_text(
                    self.signer().key(),
                    self.access_claims(o.user@, now),
                )
                &&& verdict(self.signer().key(), o.access_token@, now as int) == Ok::<
                    ClaimsView,
                    TokenError,
                >(self.access_claims(o.user@, now))
                &&& self.manager().issued(
                    old(store)@,
                    final(store)@,
                    o.user.id,
                    now,
                    o.refresh_token@,
                )
            }),
            out is Err ==> final(store)@ == old(store)@,
    {
        match random_bytes(REFRESH_TOKEN_BYTES) {
            Some(entropy) => self.login_with_entropy(store, user, now, entropy.as_slice()),
            None => {
                match store.fetch_user_by_email_and_password(
                    user.email,
                    user.password,
                    &self.hasher,
                ) {
                    Ok(_) => Err(AuthError::SigningError),
                    Err(e) => Err(e),
                }
            },
        }
    }

    fn sign_for(&self, user: &User, now: u64) -> (token: Result<String, AuthError>)
        ensures
            token is Ok <==> self.signer().can_sign(TokenType::AccessToken, now),
            token matches Err(e) ==> e == AuthError::SigningError,
            token matches Ok(t) ==> utf8(t@) == token_text(
                self.signer().key(),
                self.access_claims(user@, now),
            ),
            token matches Ok(t) ==> verdict(self.signer().key(), t@, now as int) == Ok::<
                ClaimsView,
                TokenError,
            >(self.access_claims(user@, now)),
    {
        match &user.role {
            Some(role) => self.signer.sign(user.id, role.as_str(), TokenType::AccessToken, now),
            None => {
                let no_role = String::new();
                self.signer.sign(user.id, no_role.as_str(), TokenType::AccessToken, now)
            },
        }
    }

    /// Issues a new access token to the owner of a refresh token. Fails
    /// with `InvalidToken` when the store has no such refresh token, with
    /// `ExpiredToken` when its expiry is not after `now`, and else with
    /// `SigningError` when no access token can be signed. The refresh token
    /// stays as it is and can be used again.
    pub fn refresh(
        &self,
        store: &CredentialStore,
        refresh_token: &RefreshToken,
        now: u64,
    ) -> (out: Result<AccessToken, AuthError>)
        requires
            store@.wf(),
        ensures
            out is Ok <==> self.refresh_goes_through(store@, refresh_token.refresh_token@, now),
            out matches Err(e) ==> (match store@.find_token(refresh_token.refresh_token@) {
                None => e == AuthError::InvalidToken,
                Some(row) => if row.expired_at <= now {
                    e == AuthError::ExpiredToken
                } else {
                    e == AuthError::SigningError
                },
            }),
            out matches Ok(t) ==> ({
                let owner = Self::owner_of(store@, refresh_token.refresh_token@);
                &&& owner.id == store@.find_token(refresh_token.refresh_token@)->0.user_id
                &&& utf8(t.access_token@) == token_text(
                    self.signer().key(),
                    self.access_claims(owner, now),
                )
                &&& verdict(self.signer().key(), t.access_token@, now as int) == Ok::<
                    ClaimsView,
                    TokenError,
                >(self.access_claims(owner, now))
            }),
    {
        let owner_id = match self.refresh.resolve(store, refresh_token.refresh_token.as_str(), now) {
            Ok(id) => id,
            Err(e) => {
                return Err(e);
            },
        };
        proof {
            lemma_token_owner(store@, refresh_token.refresh_token@);
        }
        let row = match store.fetch_user_by_id(owner_id) {
            Ok(row) => row,
            Err(_) => {
                return Err(AuthError::StoreError);
            },
        };
        match self.sign_for(&row.user, now) {
            Ok(access_token) => Ok(AccessToken { access_token }),
            Err(e) => Err(e),
        }
    }
}

/// After a registration the new user is found by their email, with the
/// user's data and a password hash that accepts the password.
pub proof fn lemma_registered(
    before: StoreView,
    after: StoreView,
    hasher: PasswordHasher,
    name: Seq<char>,
    email: Seq<char>,
    password: Seq<char>,
)
    requires
        before.wf(),
        !before.email_taken(email),
        before.next_user_id() <= i32::MAX,
        before.registered(after, hasher, name, email, password),
    ensures
        after.wf(),
        after.email_taken(email),
        after.find_user(email) matches Some(row) && row.user == new_user_of(before, name, email)
            && hasher.accepts(password, row.password),
        after.credentials_ok(hasher, email, password),
        after.users.len() == before.users.len() + 1,
        after.tokens == before.tokens,
{
    let hash = choose|hash: Seq<char>| #[trigger]
        hasher.accepts(password, hash) && after == before.with_user(name, email, hash);
    let row = after.users.last();
    lemma_with_row(before, row);
    assert(after.users[before.users.len() as int] == row);
}

/// A user who has just registered can log in with the same credentials:
/// the login goes through whenever tokens can be made at all and the store
/// takes the refresh token.
pub proof fn lemma_register_then_login(
    service: AuthService,
    before: StoreView,
    after: StoreView,
    name: Seq<char>,
    email: Seq<char>,
    password: Seq<char>,
    now: u64,
    entropy: Seq<u8>,
    refresh_text: Seq<char>,
)
    requires
        before.wf(),
        !before.email_taken(email),
        before.next_user_id() <= i32::MAX,
        before.registered(after, service.hasher(), name, email, password),
        service.signer().can_sign(TokenType::AccessToken, now),
        service.manager().can_make(now, entropy),
        utf8(refresh_text) == hex_text(entropy),
        !after.has_token(refresh_text),
        after.next_token_id() <= i32::MAX,
    ensures
        after.credentials_ok(service.hasher(), email, password),
        service.login_goes_through(after, email, password, now, entropy, refresh_text),
{
    lemma_registered(before, after, service.hasher(), name, email, password);
    assert(after.users[before.users.len() as int].user.id == before.next_user_id());
}

/// Registering an email a second time is refused: after a registration the
/// email is taken, and no two rows of the store share an email.
pub proof fn lemma_register_twice(
    hasher: PasswordHasher,
    before: StoreView,
    after: StoreView,
    name: Seq<char>,
    email: Seq<char>,
    password: Seq<char>,
)
    requires
        before.wf(),
        !before.email_taken(email),
        before.next_user_id() <= i32::MAX,
        before.registered(after, hasher, name, email, password),
    ensures
        after.email_taken(email),
        forall|i: int, j: int|
            0 <= i < j < after.users.len() ==> (#[trigger] after.users[i]).user.email != (
            #[trigger] after.users[j]).user.email,
{
    lemma_registered(before, after, hasher, name, email, password);
}

/// A refresh token that was good for a refresh is good for another one at
/// any later second before its expiry, for the same owner: using it does
/// not use it up.
pub proof fn lemma_refresh_again(
    service: AuthService,
    store: StoreView,
    token: Seq<char>,
    now: u64,
    later: u64,
)
    requires
        store.wf(),
        service.refresh_goes_through(store, token, now),
        now <= later < store.find_token(token)->0.expired_at,
        service.signer().can_sign(TokenType::AccessToken, later),
    ensures
        service.refresh_goes_through(store, token, later),
        service.access_claims(AuthService::owner_of(store, token), later).sub == decimal(
            store.find_token(token)->0.user_id,
        ),
{
    lemma_token_owner(store, token);
    lemma_find_user_in_range(store, store.find_token(token)->0.user_id);
}

/// The refresh token handed out by a login is good for a refresh, for the
/// user who logged in, at every second before its lifetime has run.
pub proof fn lemma_login_then_refresh(
    service: AuthService,
    before: StoreView,
    after: StoreView,
    user_id: i32,
    issued_at: u64,
    refresh_text: Seq<char>,
    now: u64,
)
    requires
        before.wf(),
        service.manager().issued(before, after, user_id, issued_at, refresh_text),
        now < issued_at + service.manager().ttl(),
        service.signer().can_sign(TokenType::AccessToken, now),
    ensures
        after.wf(),
        service.refresh_goes_through(after, refresh_text, now),
        AuthService::owner_of(after, refresh_text).id == user_id,
{
    lemma_issued_token_found(service.manager(), before, after, user_id, issued_at, refresh_text);
    lemma_token_owner(after, refresh_text);
}

/// The subject of an access token names one user: tokens issued to
/// different users carry different subjects.
pub proof fn lemma_subject_names_one_user(
    service: AuthService,
    one: UserView,
    other: UserView,
    now: u64,
    later: u64,
)
    requires
        i32::MIN <= one.id <= i32::MAX,
        i32::MIN <= other.id <= i32::MAX,
        service.access_claims(one, now).sub == service.access_claims(other, later).sub,
    ensures
        one.id == other.id,
{
    lemma_decimal_injective(one.id, other.id);
}

} // verus!
