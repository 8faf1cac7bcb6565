use auth_core::error::{AuthError, Status};

#[test]
fn duplicate_email_is_a_conflict_that_names_the_field() {
    let body = AuthError::DuplicateEmail.render();
    assert_eq!(AuthError::DuplicateEmail.status(), Status::Conflict);
    assert_eq!(body.status, Status::Conflict);
    assert_eq!(body.message, "email already registered");
    assert_eq!(body.field, Some("email".to_string()));
}

#[test]
fn credential_and_token_failures_render_the_same() {
    let wrong = AuthError::InvalidCredentials.render();
    let missing = AuthError::InvalidToken.render();
    let expired = AuthError::ExpiredToken.render();
    assert_eq!(wrong.status, Status::Unauthorized);
    assert_eq!(wrong.message, "unauthorized");
    assert_eq!(wrong.field, None);
    assert_eq!(wrong, missing);
    assert_eq!(wrong, expired);
}

#[test]
fn store_and_signing_failures_are_opaque() {
    let store = AuthError::StoreError.render();
    let signing = AuthError::SigningError.render();
    assert_eq!(AuthError::StoreError.status(), Status::Internal);
    assert_eq!(AuthError::SigningError.status(), Status::Internal);
    assert_eq!(store.message, "internal error");
    assert_eq!(store.field, None);
    assert_eq!(store, signing);
}
