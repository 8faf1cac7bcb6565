//! The failures of the service, and what a caller outside may see of them.

use vstd::prelude::*;

verus! {

/// Why an operation of the service failed.
#[derive(Clone, Copy, Debug, PartialEq, Eq, Structural)]
pub enum AuthError {
    /// The email is already registered.
    DuplicateEmail,
    /// No user has this email, or the password is wrong.
    InvalidCredentials,
    /// No such refresh token.
    InvalidToken,
    /// The refresh token is past its expiry.
    ExpiredToken,
    /// The signing key or the lifetimes are unusable, or no token could be
    /// made.
    SigningError,
    /// The store could not take or give the record.
    StoreError,
}

/// The three ways a failure shows outside.
#[derive(Clone, Copy, Debug, PartialEq, Eq, Structural)]
pub enum Status {
    Conflict,
    Unauthorized,
    Internal,
}

/// What is shown of a failure: its status, a message, and the offending
/// field where naming it gives nothing away.
#[derive(Clone, Debug, PartialEq, Eq)]
pub struct ErrorBody {
    pub status: Status,
    pub message: String,
    pub field: Option<String>,
}

/// What an [`ErrorBody`] holds, as mathematical values.
pub ghost struct ErrorBodyView {
    pub status: Status,
    pub message: Seq<char>,
    pub field: Option<Seq<char>>,
}

impl View for ErrorBody {
    type V = ErrorBodyView;

    open spec fn view(&self) -> ErrorBodyView {
        ErrorBodyView {
            status: self.status,
            message: self.message@,
            field: match self.field {
                Some(f) => Some(f@),
                None => None,
            },
        }
    }
}

/// The body shown for a status. Nothing but the status enters it.
pub open spec fn body_of(status: Status) -> ErrorBodyView {
    match status {
        Status::Conflict => ErrorBodyView {
            status,
            message: "email already registered"@,
            field: Some("email"@),
        },
        Status::Unauthorized => ErrorBodyView { status, message: "unauthorized"@, field: None },
        Status::Internal => ErrorBodyView { status, message: "internal error"@, field: None },
    }
}

impl AuthError {
    /// How the failure shows outside: a taken email is a conflict; wrong
    /// credentials and unusable tokens are all plainly unauthorized;
    /// everything else is internal.
    pub open spec fn status_of(self) -> Status {
        match self {
            AuthError::DuplicateEmail => Status::Conflict,
            AuthError::InvalidCredentials => Status::Unauthorized,
            AuthError::InvalidToken => Status::Unauthorized,
            AuthError::ExpiredToken => Status::Unauthorized,
            AuthError::SigningError => Status::Internal,
            AuthError::StoreError => Status::Internal,
        }
    }

    /// What is shown of this failure.
    pub open spec fn rendered(self) -> ErrorBodyView {
        body_of(self.status_of())
    }

    /// How the failure shows outside.
    pub fn status(&self) -> (status: Status)
        ensures
            status == self.status_of(),
    {
        match self {
            AuthError::DuplicateEmail => Status::Conflict,
            AuthError::InvalidCredentials => Status::Unauthorized,
            AuthError::InvalidToken => Status::Unauthorized,
            AuthError::ExpiredToken => Status::Unauthorized,
            AuthError::SigningError => Status::Internal,
            AuthError::StoreError => Status::Internal,
        }
    }

    /// What is shown of this failure.
    pub fn render(&self) -> (body: ErrorBody)
        ensures
            body@ == self.rendered(),
    {
        let status = self.status();
        match status {
            Status::Conflict => ErrorBody {
                status,
                message: "email already registered".to_owned(),
                field: Some("email".to_owned()),
            },
            Status::Unauthorized => ErrorBody {
                status,
                message: "unauthorized".to_owned(),
                field: None,
            },
            Status::Internal => ErrorBody {
                status,
                message: "internal error".to_owned(),
                field: None,
            },
        }
    }
}

/// Two failures with the same status show the same body: from what is
/// shown, a wrong password cannot be told from an unknown email, nor a
/// missing token from an expired one.
pub proof fn lemma_same_status_same_body(a: AuthError, b: AuthError)
    requires
        a.status_of() == b.status_of(),
    ensures
        a.rendered() == b.rendered(),
{
}

/// Failed credentials and unusable tokens all show as unauthorized.
pub proof fn lemma_auth_failures_are_unauthorized()
    ensures
        AuthError::InvalidCredentials.rendered() == body_of(Status::Unauthorized),
        AuthError::InvalidToken.rendered() == body_of(Status::Unauthorized),
        AuthError::ExpiredToken.rendered() == body_of(Status::Unauthorized),
{
}

} // verus!
