//! The records that the service stores, takes and hands out.

use vstd::prelude::*;

verus! {

/// An identity record.
#[derive(Clone, Debug, PartialEq, Eq)]
pub struct User {
    pub id: i32,
    pub name: String,
    pub email: String,
    pub role: Option<String>,
}

/// What a [`User`] holds, as mathematical values.
pub ghost struct UserView {
    pub id: int,
    pub name: Seq<char>,
    pub email: Seq<char>,
    pub role: Option<Seq<char>>,
}

impl View for User {
    type V = UserView;

    open spec fn view(&self) -> UserView {
        UserView {
            id: self.id as int,
            name: self.name@,
            email: self.email@,
            role: match self.role {
                Some(r) => Some(r@),
                None => None,
            },
        }
    }
}

impl User {
    /// A copy with the same contents.
    pub fn duplicate(&self) -> (copy: User)
        ensures
            copy@ == self@,
    {
        let role = match &self.role {
            Some(r) => Some(r.clone()),
            None => None,
        };
        User { id: self.id, name: self.name.clone(), email: self.email.clone(), role }
    }
}

/// A user row as stored: the identity record and the password hash.
#[derive(Clone, Debug, PartialEq, Eq)]
pub struct UserWithPassword {
    pub user: User,
    pub password: String,
}

/// What a [`UserWithPassword`] holds, as mathematical values.
pub ghost struct UserWithPasswordView {
    pub user: UserView,
    pub password: Seq<char>,
}

impl View for UserWithPassword {
    type V = UserWithPasswordView;

    open spec fn view(&self) -> UserWithPasswordView {
        UserWithPasswordView { user: self.user@, password: self.password@ }
    }
}

impl UserWithPassword {
    /// A copy with the same contents.
    pub fn duplicate(&self) -> (copy: UserWithPassword)
        ensures
            copy@ == self@,
    {
        UserWithPassword { user: self.user.duplicate(), password: self.password.clone() }
    }
}

/// The input of a registration.
#[derive(Clone, Copy, Debug)]
pub struct NewUser<'a> {
    pub name: &'a str,
    pub email: &'a str,
    pub password: &'a str,
}

/// The input of a login.
#[derive(Clone, Copy, Debug)]
pub struct LoginUser<'a> {
    pub email: &'a str,
    pub password: &'a str,
}

/// The two kinds of token, which differ in their lifetime.
#[derive(Clone, Copy, Debug, PartialEq, Eq, Structural)]
pub enum TokenType {
    AccessToken,
    RefreshToken,
}

/// What an access token asserts: who it was issued to, in which role, and
/// the second, counted from the epoch, at which it stops being valid.
#[derive(Clone, Debug, PartialEq, Eq)]
pub struct Claims {
    pub sub: String,
    pub role: String,
    pub exp: usize,
}

/// What a [`Claims`] holds, as mathematical values.
pub ghost struct ClaimsView {
    pub sub: Seq<char>,
    pub role: Seq<char>,
    pub exp: int,
}

impl View for Claims {
    type V = ClaimsView;

    open spec fn view(&self) -> ClaimsView {
        ClaimsView { sub: self.sub@, role: self.role@, exp: self.exp as int }
    }
}

/// A refresh token about to be stored.
#[derive(Clone, Debug, PartialEq, Eq)]
pub struct NewRefreshToken {
    pub user_id: i32,
    pub token: String,
}

/// The answer to a login: the user and a fresh pair of tokens.
#[derive(Clone, Debug, PartialEq, Eq)]
pub struct UserWithTokens {
    pub user: User,
    pub access_token: String,
    pub refresh_token: String,
}

/// A stored refresh token. `expired_at` is the second, counted from the
/// epoch, from which the token is no longer honoured.
#[derive(Clone, Debug, PartialEq, Eq)]
pub struct Token {
    pub id: i32,
    pub user_id: i32,
    pub token: String,
    pub expired_at: u64,
}

/// What a [`Token`] holds, as mathematical values.
pub ghost struct TokenView {
    pub id: int,
    pub user_id: int,
    pub token: Seq<char>,
    pub expired_at: int,
}

impl View for Token {
    type V = TokenView;

    open spec fn view(&self) -> TokenView {
        TokenView {
            id: self.id as int,
            user_id: self.user_id as int,
            token: self.token@,
            expired_at: self.expired_at as int,
        }
    }
}

impl Token {
    /// A copy with the same contents.
    pub fn duplicate(&self) -> (copy: Token)
        ensures
            copy@ == self@,
    {
        Token {
            id: self.id,
            user_id: self.user_id,
            token: self.token.clone(),
            expired_at: self.expired_at,
        }
    }
}

/// The input of a refresh.
#[derive(Clone, Debug, PartialEq, Eq)]
pub struct RefreshToken {
    pub refresh_token: String,
}

/// The answer to a refresh.
#[derive(Clone, Debug, PartialEq, Eq)]
pub struct AccessToken {
    pub access_token: String,
}

} // verus!
