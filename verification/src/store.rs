//! The users and refresh tokens that the service keeps.
//!
//! The store holds two tables in memory. Ids grow with every row; no two
//! users share an email, no two refresh tokens share their text, and every
//! refresh token belongs to a user of the store. Nothing is ever removed.

use crate::error::AuthError;
use crate::hasher::{PasswordHasher, SALT_LEN};
use crate::model::{
    NewRefreshToken, NewUser, Token, TokenView, User, UserView, UserWithPassword,
    UserWithPasswordView,
};
use crate::text::utf8;
use vstd::prelude::*;

verus! {

/// A stored hash that belongs to no user: an all-zero salt and an all-zero
/// key.
pub const NO_ONES_HASH: &'static str =
    "000000000000000000000000000000000000000000000000000000000000000000000000000000000000000000000000";

/// No row answers the question.
#[derive(Clone, Copy, Debug, PartialEq, Eq, Structural)]
pub struct NotFound;

/// The two tables of a store, as mathematical values, in the order in which
/// the rows were written.
pub ghost struct StoreView {
    pub users: Seq<UserWithPasswordView>,
    pub tokens: Seq<TokenView>,
}

impl StoreView {
    /// Whether the tables are ones that a store can hold.
    pub open spec fn wf(self) -> bool {
        &&& forall|i: int|
            0 <= i < self.users.len() ==> 1 <= (#[trigger] self.users[i]).user.id <= i32::MAX
        &&& forall|i: int, j: int|
            0 <= i < j < self.users.len() ==> (#[trigger] self.users[i]).user.id < (
            #[trigger] self.users[j]).user.id
        &&& forall|i: int, j: int|
            0 <= i < j < self.users.len() ==> (#[trigger] self.users[i]).user.email != (
            #[trigger] self.users[j]).user.email
        &&& forall|i: int|
            0 <= i < self.tokens.len() ==> 1 <= (#[trigger] self.tokens[i]).id <= i32::MAX
        &&& forall|i: int, j: int|
            0 <= i < j < self.tokens.len() ==> (#[trigger] self.tokens[i]).id < (
            #[trigger] self.tokens[j]).id
        &&& forall|i: int, j: int|
            0 <= i < j < self.tokens.len() ==> (#[trigger] self.tokens[i]).token != (
            #[trigger] self.tokens[j]).token
        &&& forall|i: int|
            0 <= i < self.tokens.len() ==> self.has_user((#[trigger] self.tokens[i]).user_id)
    }

    /// Whether a user has this email.
    pub open spec fn email_taken(self, email: Seq<char>) -> bool {
        exists|i: int| 0 <= i < self.users.len() && (#[trigger] self.users[i]).user.email == email
    }

    /// Whether a user has this id.
    pub open spec fn has_user(self, id: int) -> bool {
        exists|i: int| 0 <= i < self.users.len() && (#[trigger] self.users[i]).user.id == id
    }

    /// Whether a refresh token has this text.
    pub open spec fn has_token(self, token: Seq<char>) -> bool {
        exists|i: int| 0 <= i < self.tokens.len() && (#[trigger] self.tokens[i]).token == token
    }

    /// The user with this email.
    pub open spec fn find_user(self, email: Seq<char>) -> Option<UserWithPasswordView> {
        if self.email_taken(email) {
            Some(
                self.users[choose|i: int|
                    0 <= i < self.users.len() && (#[trigger] self.users[i]).user.email == email],
            )
        } else {
            None
        }
    }

    /// The user with this id.
    pub open spec fn find_user_by_id(self, id: int) -> Option<UserWithPasswordView> {
        if self.has_user(id) {
            Some(
                self.users[choose|i: int|
                    0 <= i < self.users.len() && (#[trigger] self.users[i]).user.id == id],
            )
        } else {
            None
        }
    }

    /// The refresh token with this text.
    pub open spec fn find_token(self, token: Seq<char>) -> Option<TokenView> {
        if self.has_token(token) {
            Some(
                self.tokens[choose|i: int|
                    0 <= i < self.tokens.len() && (#[trigger] self.tokens[i]).token == token],
            )
        } else {
            None
        }
    }

    /// The id that the next user gets.
    pub open spec fn next_user_id(self) -> int {
        if self.users.len() == 0 {
            1
        } else {
            self.users.last().user.id + 1
        }
    }

    /// The id that the next refresh token gets.
    pub open spec fn next_token_id(self) -> int {
        if self.tokens.len() == 0 {
            1
        } else {
            self.tokens.last().id + 1
        }
    }

    /// The store with one more user row.
    pub open spec fn with_row(self, row: UserWithPasswordView) -> StoreView {
        StoreView { users: self.users.push(row), tokens: self.tokens }
    }

    /// The store with one more refresh token row.
    pub open spec fn with_token_row(self, row: TokenView) -> StoreView {
        StoreView { users: self.users, tokens: self.tokens.push(row) }
    }

    /// The store after a user with the next id, the given name, email and
    /// password hash, and no role has been written.
    pub open spec fn with_user(
        self,
        name: Seq<char>,
        email: Seq<char>,
        password: Seq<char>,
    ) -> StoreView {
        self.with_row(
            UserWithPasswordView {
                user: UserView { id: self.next_user_id(), name, email, role: None },
                password,
            },
        )
    }

    /// The store after a refresh token with the next id has been written.
    pub open spec fn with_token(self, user_id: int, token: Seq<char>, expired_at: int) -> StoreView {
        self.with_token_row(TokenView { id: self.next_token_id(), user_id, token, expired_at })
    }

    /// Whether a user row can be written: its email is new and its id is one
    /// that the store has not reached yet.
    pub open spec fn takes_row(self, row: UserWithPasswordView) -> bool {
        &&& !self.email_taken(row.user.email)
        &&& self.next_user_id() <= row.user.id
    }

    /// Whether a refresh token row can be written: its text is new, its id
    /// is one that the store has not reached yet, and its owner is a user.
    pub open spec fn takes_token_row(self, row: TokenView) -> bool {
        &&& !self.has_token(row.token)
        &&& self.next_token_id() <= row.id
        &&& self.has_user(row.user_id)
    }

    /// Whether a new refresh token can be written: its text is new, its
    /// owner is a user, and an id is left for it.
    pub open spec fn takes_new_token(self, user_id: int, token: Seq<char>) -> bool {
        &&& !self.has_token(token)
        &&& self.has_user(user_id)
        &&& self.next_token_id() <= i32::MAX
    }

    /// Whether the email and password are those of a user, as `hasher`
    /// judges the password.
    pub open spec fn credentials_ok(
        self,
        hasher: PasswordHasher,
        email: Seq<char>,
        password: Seq<char>,
    ) -> bool {
        self.find_user(email) matches Some(row) && hasher.accepts(password, row.password)
    }

    /// Whether `after` is `self` after the registration of a user with the
    /// given name and email, under a hash of `password`.
    pub open spec fn registered(
        self,
        after: StoreView,
        hasher: PasswordHasher,
        name: Seq<char>,
        email: Seq<char>,
        password: Seq<char>,
    ) -> bool {
        exists|hash: Seq<char>| #[trigger]
            hasher.accepts(password, hash) && after == self.with_user(name, email, hash)
    }
}

/// A row found at an index is the row that a search by email finds.
pub proof fn lemma_find_user(store: StoreView, at: int)
    requires
        store.wf(),
        0 <= at < store.users.len(),
    ensures
        store.find_user(store.users[at].user.email) == Some(store.users[at]),
        store.find_user_by_id(store.users[at].user.id) == Some(store.users[at]),
{
    let email = store.users[at].user.email;
    let by_email = choose|i: int|
        0 <= i < store.users.len() && (#[trigger] store.users[i]).user.email == email;
    assert(by_email == at) by {
        if by_email < at {
            assert(store.users[by_email].user.email != store.users[at].user.email);
        } else if at < by_email {
            assert(store.users[at].user.email != store.users[by_email].user.email);
        }
    }
    let id = store.users[at].user.id;
    let by_id = choose|i: int| 0 <= i < store.users.len() && (#[trigger] store.users[i]).user.id == id;
    assert(by_id == at) by {
        if by_id < at {
            assert(store.users[by_id].user.id < store.users[at].user.id);
        } else if at < by_id {
            assert(store.users[at].user.id < store.users[by_id].user.id);
        }
    }
}

/// A row found at an index is the row that a search by token text finds.
pub proof fn lemma_find_token(store: StoreView, at: int)
    requires
        store.wf(),
        0 <= at < store.tokens.len(),
    ensures
        store.find_token(store.tokens[at].token) == Some(store.tokens[at]),
{
    let token = store.tokens[at].token;
    let found = choose|i: int|
        0 <= i < store.tokens.len() && (#[trigger] store.tokens[i]).token == token;
    assert(found == at) by {
        if found < at {
            assert(store.tokens[found].token != store.tokens[at].token);
        } else if at < found {
            assert(store.tokens[at].token != store.tokens[found].token);
        }
    }
}

/// A user found by id has that id, and an id that a store holds.
pub proof fn lemma_find_user_in_range(store: StoreView, id: int)
    requires
        store.wf(),
        store.find_user_by_id(id) is Some,
    ensures
        store.find_user_by_id(id)->0.user.id == id,
        1 <= id <= i32::MAX,
{
    let u = choose|i: int| 0 <= i < store.users.len() && (#[trigger] store.users[i]).user.id == id;
    assert(1 <= store.users[u].user.id <= i32::MAX);
}

/// The owner of a refresh token of the store is a user of the store.
pub proof fn lemma_token_owner(store: StoreView, token: Seq<char>)
    requires
        store.wf(),
        store.find_token(token) is Some,
    ensures
        store.find_token(token)->0.token == token,
        store.find_user_by_id(store.find_token(token)->0.user_id) is Some,
        store.find_user_by_id(store.find_token(token)->0.user_id)->0.user.id == store.find_token(
            token,
        )->0.user_id,
{
    let k = choose|i: int|
        0 <= i < store.tokens.len() && (#[trigger] store.tokens[i]).token == token;
    let id = store.tokens[k].user_id;
    assert(store.has_user(id));
    let u = choose|i: int| 0 <= i < store.users.len() && (#[trigger] store.users[i]).user.id == id;
    lemma_find_user(store, u);
}

/// Writing a user row that the store takes keeps the tables sound, keeps
/// every row that was there findable, and makes the new row findable.
pub proof fn lemma_with_row(store: StoreView, row: UserWithPasswordView)
    requires
        store.wf(),
        store.takes_row(row),
        row.user.id <= i32::MAX,
    ensures
        store.with_row(row).wf(),
        store.with_row(row).find_user(row.user.email) == Some(row),
        store.with_row(row).find_user_by_id(row.user.id) == Some(row),
        forall|email: Seq<char>|
            email != row.user.email ==> #[trigger] store.with_row(row).find_user(email)
                == store.find_user(email),
        forall|id: int|
            store.has_user(id) ==> #[trigger] store.with_row(row).find_user_by_id(id)
                == store.find_user_by_id(id),
{
    let new = store.with_row(row);
    let n = store.users.len() as int;
    assert(new.users[n] == row);
    assert forall|i: int| 0 <= i < n implies #[trigger] new.users[i] == store.users[i] by {}
    assert forall|i: int| 0 <= i < n implies (#[trigger] new.users[i]).user.id < row.user.id by {
        assert(store.users[i].user.id <= store.users[n - 1].user.id);
    }
    assert forall|i: int| 0 <= i < n implies (#[trigger] new.users[i]).user.email
        != row.user.email by {
        assert(store.users[i].user.email != row.user.email);
    }
    assert forall|i: int| 0 <= i < new.tokens.len() implies new.has_user(
        (#[trigger] new.tokens[i]).user_id,
    ) by {
        let id = store.tokens[i].user_id;
        assert(store.has_user(id));
        let u = choose|u: int| 0 <= u < store.users.len() && (#[trigger] store.users[u]).user.id == id;
        assert(new.users[u].user.id == id);
    }
    assert(new.wf());
    lemma_find_user(new, n);
    assert forall|email: Seq<char>| email != row.user.email implies #[trigger] new.find_user(email)
        == store.find_user(email) by {
        if store.email_taken(email) {
            let k = choose|i: int|
                0 <= i < store.users.len() && (#[trigger] store.users[i]).user.email == email;
            lemma_find_user(store, k);
            assert(new.users[k] == store.users[k]);
            lemma_find_user(new, k);
        } else if new.email_taken(email) {
            let k = choose|i: int|
                0 <= i < new.users.len() && (#[trigger] new.users[i]).user.email == email;
            assert(k < n);
            assert(store.users[k].user.email == email);
        }
    }
    assert forall|id: int| store.has_user(id) implies #[trigger] new.find_user_by_id(id)
        == store.find_user_by_id(id) by {
        let k = choose|i: int| 0 <= i < store.users.len() && (#[trigger] store.users[i]).user.id == id;
        lemma_find_user(store, k);
        assert(new.users[k] == store.users[k]);
        lemma_find_user(new, k);
    }
}

/// Writing a refresh token row that the store takes keeps the tables
/// sound, keeps every row that was there findable, and makes the new row
/// findable.
pub proof fn lemma_with_token_row(store: StoreView, row: TokenView)
    requires
        store.wf(),
        store.takes_token_row(row),
        row.id <= i32::MAX,
    ensures
        store.with_token_row(row).wf(),
        store.with_token_row(row).find_token(row.token) == Some(row),
        forall|token: Seq<char>|
            token != row.token ==> #[trigger] store.with_token_row(row).find_token(token)
                == store.find_token(token),
{
    let new = store.with_token_row(row);
    let n = store.tokens.len() as int;
    assert(new.tokens[n] == row);
    assert forall|i: int| 0 <= i < n implies #[trigger] new.tokens[i] == store.tokens[i] by {}
    assert forall|i: int| 0 <= i < n implies (#[trigger] new.tokens[i]).id < row.id by {
        assert(store.tokens[i].id <= store.tokens[n - 1].id);
    }
    assert forall|i: int| 0 <= i < n implies (#[trigger] new.tokens[i]).token != row.token by {
        assert(store.tokens[i].token != row.token);
    }
    assert forall|i: int| 0 <= i < new.tokens.len() implies new.has_user(
        (#[trigger] new.tokens[i]).user_id,
    ) by {
        if i < n {
            assert(store.has_user(store.tokens[i].user_id));
        }
    }
    assert(new.wf());
    lemma_find_token(new, n);
    assert forall|token: Seq<char>| token != row.token implies #[trigger] new.find_token(token)
        == store.find_token(token) by {
        if store.has_token(token) {
            let k = choose|i: int|
                0 <= i < store.tokens.len() && (#[trigger] store.tokens[i]).token == token;
            lemma_find_token(store, k);
            assert(new.tokens[k] == store.tokens[k]);
            lemma_find_token(new, k);
        } else if new.has_token(token) {
            let k = choose|i: int|
                0 <= i < new.tokens.len() && (#[trigger] new.tokens[i]).token == token;
            assert(k < n);
            assert(store.tokens[k].token == token);
        }
    }
}

/// The users and refresh tokens of the service.
pub struct CredentialStore {
    users: Vec<UserWithPassword>,
    tokens: Vec<Token>,
}

impl View for CredentialStore {
    type V = StoreView;

    closed spec fn view(&self) -> StoreView {
        StoreView {
            users: Seq::new(self.users@.len(), |i: int| self.users@[i]@),
            tokens: Seq::new(self.tokens@.len(), |i: int| self.tokens@[i]@),
        }
    }
}

impl CredentialStore {
    /// A store without rows.
    pub fn new() -> (store: CredentialStore)
        ensures
            store@.wf(),
            store@.users.len() == 0,
            store@.tokens.len() == 0,
    {
        CredentialStore { users: Vec::new(), tokens: Vec::new() }
    }

    fn user_index(&self, email: &str) -> (found: Option<usize>)
        ensures
            (match found {
                Some(i) => i < self@.users.len() && self@.users[i as int].user.email == email@,
                None => !self@.email_taken(email@),
            }),
    {
        let wanted: String = email.to_owned();
        let mut i: usize = 0;
        while i < self.users.len()
            invariant
                i <= self.users@.len(),
                wanted@ == email@,
                forall|j: int| 0 <= j < i ==> (#[trigger] self@.users[j]).user.email != email@,
            decreases self.users.len() - i,
        {
            if self.users[i].user.email == wanted {
                return Some(i);
            }
            i += 1;
        }
        None
    }

    fn next_user_id(&self) -> (next: i64)
        ensures
            next == self@.next_user_id(),
    {
        if self.users.len() == 0 {
            1
        } else {
            self.users[self.users.len() - 1].user.id as i64 + 1
        }
    }

    /// Writes a user row as it is, id included. The row is refused with
    /// `DuplicateEmail` when its email is taken, and else with `StoreError`
    /// when its id is not above every id of the store.
    pub fn restore_user(&mut self, row: UserWithPassword) -> (done: Result<(), AuthError>)
        requires
            old(self)@.wf(),
        ensures
            final(self)@.wf(),
            old(self)@.email_taken(row@.user.email) ==> done == Err::<(), AuthError>(
                AuthError::DuplicateEmail,
            ),
            !old(self)@.email_taken(row@.user.email) && row@.user.id < old(self)@.next_user_id()
                ==> done == Err::<(), AuthError>(AuthError::StoreError),
            old(self)@.takes_row(row@) ==> done is Ok,
            done is Ok ==> final(self)@ == old(self)@.with_row(row@),
            done is Err ==> final(self)@ == old(self)@,
    {
        if self.user_index(row.user.email.as_str()).is_some() {
            return Err(AuthError::DuplicateEmail);
        }
        if (row.user.id as i64) < self.next_user_id() {
            return Err(AuthError::StoreError);
        }
        proof {
            lemma_with_row(self@, row@);
        }
        self.users.push(row);
        assert(self@.users =~= old(self)@.users.push(row@));
        assert(self@.tokens =~= old(self)@.tokens);
        Ok(())
    }
    fn id_index(&self, id: i32) -> (found: Option<usize>)
        ensures
            (match found {
                Some(i) => i < self@.users.len() && self@.users[i as int].user.id == id,
                None => !self@.has_user(id as int),
            }),
    {
        let mut i: usize = 0;
        while i < self.users.len()
            invariant
                i <= self.users@.len(),
                forall|j: int| 0 <= j < i ==> (#[trigger] self@.users[j]).user.id != id,
            decreases self.users.len() - i,
        {
            if self.users[i].user.id == id {
                return Some(i);
            }
            i += 1;
        }
        None
    }

    fn token_index(&self, token: &str) -> (found: Option<usize>)
        ensures
            (match found {
                Some(i) => i < self@.tokens.len() && self@.tokens[i as int].token == token@,
                None => !self@.has_token(token@),
            }),
    {
        let wanted: String = token.to_owned();
        let mut i: usize = 0;
        while i < self.tokens.len()
            invariant
                i <= self.tokens@.len(),
                wanted@ == token@,
                forall|j: int| 0 <= j < i ==> (#[trigger] self@.tokens[j]).token != token@,
            decreases self.tokens.len() - i,
        {
            if self.tokens[i].token == wanted {
                return Some(i);
            }
            i += 1;
        }
        None
    }

    fn next_token_id(&self) -> (next: i64)
        ensures
            next == self@.next_token_id(),
    {
        if self.tokens.len() == 0 {
            1
        } else {
            self.tokens[self.tokens.len() - 1].id as i64 + 1
        }
    }

    /// Writes a refresh token row as it is, id included. The row is refused
    /// with `StoreError` unless the store takes it.
    pub fn restore_token(&mut self, row: Token) -> (done: Result<(), AuthError>)
        requires
            old(self)@.wf(),
        ensures
            final(self)@.wf(),
            done is Ok <==> old(self)@.takes_token_row(row@),
            done matches Err(e) ==> e == AuthError::StoreError,
            done is Ok ==> final(self)@ == old(self)@.with_token_row(row@),
            done is Err ==> final(self)@ == old(self)@,
    {
        if self.token_index(row.token.as_str()).is_some() {
            return Err(AuthError::StoreError);
        }
        if self.id_index(row.user_id).is_none() {
            return Err(AuthError::StoreError);
        }
        if (row.id as i64) < self.next_token_id() {
            return Err(AuthError::StoreError);
        }
        proof {
            lemma_with_token_row(self@, row@);
        }
        self.tokens.push(row);
        assert(self@.tokens =~= old(self)@.tokens.push(row@));
        assert(self@.users =~= old(self)@.users);
        Ok(())
    }

    /// Writes a user with the next id, no role, and the password hash as
    /// given. Fails with `DuplicateEmail` when the email is taken, and else
    /// with `StoreError` when the ids have run out.
    pub fn create_user_with_hash(
        &mut self,
        name: &str,
        email: &str,
        password_hash: String,
    ) -> (done: Result<i32, AuthError>)
        requires
            old(self)@.wf(),
        ensures
            final(self)@.wf(),
            old(self)@.email_taken(email@) ==> done == Err::<i32, AuthError>(
                AuthError::DuplicateEmail,
            ),
            !old(self)@.email_taken(email@) && old(self)@.next_user_id() > i32::MAX ==> done
                == Err::<i32, AuthError>(AuthError::StoreError),
            !old(self)@.email_taken(email@) && old(self)@.next_user_id() <= i32::MAX ==> done
                == Ok::<i32, AuthError>(old(self)@.next_user_id() as i32),
            done is Ok ==> final(self)@ == old(self)@.with_user(name@, email@, password_hash@),
            done is Err ==> final(self)@ == old(self)@,
    {
        if self.user_index(email).is_some() {
            return Err(AuthError::DuplicateEmail);
        }
        let next = self.next_user_id();
        if next > i32::MAX as i64 {
            return Err(AuthError::StoreError);
        }
        let id: i32 = next as i32;
        let row = UserWithPassword {
            user: User { id, name: name.to_owned(), email: email.to_owned(), role: None },
            password: password_hash,
        };
        match self.restore_user(row) {
            Ok(()) => Ok(id),
            Err(e) => Err(e),
        }
    }

    /// Registers a user under the given salt. The password is hashed before
    /// the row is written. Fails with `DuplicateEmail` when the email is
    /// taken, and else with `StoreError` when the ids have run out or the
    /// salt does not have `SALT_LEN` bytes.
    pub fn create_user_with_salt(
        &mut self,
        new_user: &NewUser,
        hasher: &PasswordHasher,
        salt: &[u8],
    ) -> (done: Result<i32, AuthError>)
        requires
            old(self)@.wf(),
        ensures
            final(self)@.wf(),
            old(self)@.email_taken(new_user.email@) ==> done == Err::<i32, AuthError>(
                AuthError::DuplicateEmail,
            ),
            !old(self)@.email_taken(new_user.email@) && (old(self)@.next_user_id() > i32::MAX
                || salt@.len() != SALT_LEN) ==> done == Err::<i32, AuthError>(
                AuthError::StoreError,
            ),
            !old(self)@.email_taken(new_user.email@) && old(self)@.next_user_id() <= i32::MAX
                && salt@.len() == SALT_LEN ==> done == Ok::<i32, AuthError>(
                old(self)@.next_user_id() as i32,
            ),
            done is Ok ==> old(self)@.registered(
                final(self)@,
                *hasher,
                new_user.name@,
                new_user.email@,
                new_user.password@,
            ),
            done is Ok ==> utf8(final(self)@.users.last().password) == hasher.hash_of(
                new_user.password@,
                salt@,
            ),
            done is Err ==> final(self)@ == old(self)@,
    {
        if self.user_index(new_user.email).is_some() {
            return Err(AuthError::DuplicateEmail);
        }
        if self.next_user_id() > i32::MAX as i64 {
            return Err(AuthError::StoreError);
        }
        let hash = match hasher.hash_with_salt(new_user.password, salt) {
            Ok(h) => h,
            Err(_) => {
                return Err(AuthError::StoreError);
            },
        };
        self.create_user_with_hash(new_user.name, new_user.email, hash)
    }

    /// Registers a user. The password is hashed under a fresh random salt
    /// before the row is written. Fails with `DuplicateEmail` exactly when
    /// the email is taken, and else with `StoreError` when the ids have run
    /// out or no salt could be drawn.
    pub fn create_user(
        &mut self,
        new_user: &NewUser,
        hasher: &PasswordHasher,
    ) -> (done: Result<i32, AuthError>)
        requires
            old(self)@.wf(),
        ensures
            final(self)@.wf(),
            old(self)@.email_taken(new_user.email@) <==> done == Err::<i32, AuthError>(
                AuthError::DuplicateEmail,
            ),
            !old(self)@.email_taken(new_user.email@) && old(self)@.next_user_id() > i32::MAX
                ==> done == Err::<i32, AuthError>(AuthError::StoreError),
            done matches Err(e) ==> e == AuthError::DuplicateEmail || e == AuthError::StoreError,
            done matches Ok(id) ==> id == old(self)@.next_user_id(),
            done is Ok ==> old(self)@.registered(
                final(self)@,
                *hasher,
                new_user.name@,
                new_user.email@,
                new_user.password@,
            ),
            done is Err ==> final(self)@ == old(self)@,
    {
        if self.user_index(new_user.email).is_some() {
            return Err(AuthError::DuplicateEmail);
        }
        if self.next_user_id() > i32::MAX as i64 {
            return Err(AuthError::StoreError);
        }
        let hash = match hasher.hash(new_user.password) {
            Ok(h) => h,
            Err(_) => {
                return Err(AuthError::StoreError);
            },
        };
        self.create_user_with_hash(new_user.name, new_user.email, hash)
    }

    /// The user with this email.
    pub fn fetch_user_by_email(&self, email: &str) -> (found: Result<UserWithPassword, NotFound>)
        requires
            self@.wf(),
        ensures
            (match found {
                Ok(row) => self@.find_user(email@) == Some(row@),
                Err(_) => self@.find_user(email@) is None,
            }),
    {
        match self.user_index(email) {
            Some(i) => {
                proof {
                    lemma_find_user(self@, i as int);
                }
                Ok(self.users[i].duplicate())
            },
            None => Err(NotFound),
        }
    }

    /// The user with this id.
    pub fn fetch_user_by_id(&self, id: i32) -> (found: Result<UserWithPassword, NotFound>)
        requires
            self@.wf(),
        ensures
            (match found {
                Ok(row) => self@.find_user_by_id(id as int) == Some(row@),
                Err(_) => self@.find_user_by_id(id as int) is None,
            }),
    {
        match self.id_index(id) {
            Some(i) => {
                proof {
                    lemma_find_user(self@, i as int);
                }
                Ok(self.users[i].duplicate())
            },
            None => Err(NotFound),
        }
    }

    /// The user with this email, if the password is theirs. An unknown
    /// email and a wrong password give the same failure. Where no user has
    /// the email, the password is still checked, against a hash that belongs
    /// to no user, so that both failures take as long.
    pub fn fetch_user_by_email_and_password(
        &self,
        email: &str,
        plaintext: &str,
        hasher: &PasswordHasher,
    ) -> (found: Result<UserWithPassword, AuthError>)
        requires
            self@.wf(),
        ensures
            (match found {
                Ok(row) => self@.credentials_ok(*hasher, email@, plaintext@) && self@.find_user(
                    email@,
                ) == Some(row@),
                Err(e) => e == AuthError::InvalidCredentials && !self@.credentials_ok(
                    *hasher,
                    email@,
                    plaintext@,
                ),
            }),
    {
        match self.user_index(email) {
            Some(i) => {
                proof {
                    lemma_find_user(self@, i as int);
                }
                if hasher.verify(plaintext, self.users[i].password.as_str()) {
                    Ok(self.users[i].duplicate())
                } else {
                    Err(AuthError::InvalidCredentials)
                }
            },
            None => {
                let _ = hasher.verify(plaintext, NO_ONES_HASH);
                Err(AuthError::InvalidCredentials)
            },
        }
    }

    /// Writes a refresh token with the next id. Fails with `StoreError`
    /// when the text is already there, the owner is no user of the store,
    /// or the ids have run out.
    pub fn insert_refresh_token(
        &mut self,
        new_token: NewRefreshToken,
        expires_at: u64,
    ) -> (done: Result<i32, AuthError>)
        requires
            old(self)@.wf(),
        ensures
            final(self)@.wf(),
            old(self)@.takes_new_token(new_token.user_id as int, new_token.token@) ==> done
                == Ok::<i32, AuthError>(old(self)@.next_token_id() as i32),
            !old(self)@.takes_new_token(new_token.user_id as int, new_token.token@) ==> done
                == Err::<i32, AuthError>(AuthError::StoreError),
            done is Ok ==> final(self)@ == old(self)@.with_token(
                new_token.user_id as int,
                new_token.token@,
                expires_at as int,
            ),
            done is Err ==> final(self)@ == old(self)@,
    {
        let next = self.next_token_id();
        if next > i32::MAX as i64 {
            return Err(AuthError::StoreError);
        }
        let id: i32 = next as i32;
        let row = Token {
            id,
            user_id: new_token.user_id,
            token: new_token.token,
            expired_at: expires_at,
        };
        match self.restore_token(row) {
            Ok(()) => Ok(id),
            Err(e) => Err(e),
        }
    }

    /// The refresh token with this text, expired or not.
    pub fn find_refresh_token(&self, token: &str) -> (found: Option<Token>)
        requires
            self@.wf(),
        ensures
            (match found {
                Some(row) => self@.find_token(token@) == Some(row@),
                None => self@.find_token(token@) is None,
            }),
    {
        match self.token_index(token) {
            Some(i) => {
                proof {
                    lemma_find_token(self@, i as int);
                }
                Some(self.tokens[i].duplicate())
            },
            None => None,
        }
    }

    /// The refresh token with this text, if it is still honoured at `now`.
    /// A missing token and an expired one give the same failure.
    pub fn fetch_refresh_token(&self, token: &str, now: u64) -> (found: Result<Token, AuthError>)
        requires
            self@.wf(),
        ensures
            (match found {
                Ok(row) => self@.find_token(token@) == Some(row@) && now < row@.expired_at,
                Err(e) => e == AuthError::InvalidToken && !(self@.find_token(token@) matches Some(
                    row,
                ) && now < row.expired_at),
            }),
    {
        match self.find_refresh_token(token) {
            Some(row) => if row.expired_at <= now {
                Err(AuthError::InvalidToken)
            } else {
                Ok(row)
            },
            None => Err(AuthError::InvalidToken),
        }
    }
}

} // verus!
