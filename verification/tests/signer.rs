use auth_core::error::AuthError;
use auth_core::model::{Claims, TokenType};
use auth_core::signer::{TokenError, TokenSigner};

fn signer() -> TokenSigner {
    TokenSigner::new(b"top-secret-key".to_vec(), 900, 86_400)
}

#[test]
fn ttl_is_picked_by_kind() {
    assert_eq!(signer().ttl(TokenType::AccessToken), 900);
    assert_eq!(signer().ttl(TokenType::RefreshToken), 86_400);
}

#[test]
fn sign_gives_the_claims_and_their_tag_in_hex() {
    assert_eq!(
        signer().sign(1, "", TokenType::AccessToken, 1000),
        Ok("01000000000000003100000000000000006c070000000000004c8bb9eda6517a2e971c4b7c61ae24618843a3bb2a9d178d5bb9864eaa532427".to_string())
    );
    assert_eq!(
        signer().sign(42, "admin", TokenType::AccessToken, 1_700_000_000),
        Ok("02000000000000003432050000000000000061646d696e84f453650000000091685b18606d355e231e30411cd8ee155028a22dd247d4720b3b00bfff2317c9".to_string())
    );
}

#[test]
fn sign_with_a_negative_id_and_a_role_beyond_ascii() {
    let signer = TokenSigner::new(b"k".to_vec(), 5, 5);
    assert_eq!(
        signer.sign(-7, "rôle", TokenType::AccessToken, 0),
        Ok("02000000000000002d37050000000000000072c3b46c650500000000000000d9e55c0a8cbfe9a68b96a4768f12cb1de2fd00847af1b1e51a92fe64a1c57718".to_string())
    );
}

#[test]
fn a_fresh_token_verifies_at_once_and_until_its_lifetime_has_run() {
    let token = signer().sign(42, "admin", TokenType::AccessToken, 1_700_000_000).unwrap();
    let claims = Claims { sub: "42".to_string(), role: "admin".to_string(), exp: 1_700_000_900 };
    assert_eq!(signer().verify(&token, 1_700_000_000), Ok(claims.clone()));
    assert_eq!(signer().verify(&token, 1_700_000_899), Ok(claims));
}

#[test]
fn a_token_expires_when_its_lifetime_has_run() {
    let token = signer().sign(42, "admin", TokenType::AccessToken, 1_700_000_000).unwrap();
    assert_eq!(signer().verify(&token, 1_700_000_900), Err(TokenError::ExpiredToken));
    assert_eq!(signer().verify(&token, u64::MAX), Err(TokenError::ExpiredToken));
}

#[test]
fn the_refresh_kind_lives_longer() {
    let token = signer().sign(3, "user", TokenType::RefreshToken, 100).unwrap();
    assert_eq!(signer().verify(&token, 1000).map(|c| c.exp), Ok(86_500));
    assert_eq!(signer().verify(&token, 86_500), Err(TokenError::ExpiredToken));
}

#[test]
fn a_tampered_token_has_an_invalid_signature() {
    let token = signer().sign(42, "admin", TokenType::AccessToken, 1_700_000_000).unwrap();
    let mut forged = token.clone().into_bytes();
    forged[17] = b'3';
    let forged = String::from_utf8(forged).unwrap();
    assert_ne!(forged, token);
    assert_eq!(signer().verify(&forged, 1_700_000_000), Err(TokenError::InvalidSignature));
    let mut cut = token.clone();
    cut.pop();
    cut.pop();
    assert_eq!(signer().verify(&cut, 1_700_000_000), Err(TokenError::InvalidSignature));
    assert_eq!(signer().verify(&token.to_uppercase(), 1_700_000_000), Err(TokenError::InvalidSignature));
}

#[test]
fn a_tampered_token_is_invalid_even_when_expired() {
    let token = signer().sign(42, "admin", TokenType::AccessToken, 10).unwrap();
    let mut forged = token.into_bytes();
    let last = forged.len() - 1;
    forged[last] = if forged[last] == b'0' { b'1' } else { b'0' };
    let forged = String::from_utf8(forged).unwrap();
    assert_eq!(signer().verify(&forged, 5000), Err(TokenError::InvalidSignature));
}

#[test]
fn what_is_no_token_has_an_invalid_signature() {
    assert_eq!(signer().verify("", 0), Err(TokenError::InvalidSignature));
    assert_eq!(signer().verify("zz", 0), Err(TokenError::InvalidSignature));
    assert_eq!(signer().verify("abc", 0), Err(TokenError::InvalidSignature));
    assert_eq!(signer().verify("00", 0), Err(TokenError::InvalidSignature));
    assert_eq!(signer().verify("tökén", 0), Err(TokenError::InvalidSignature));
}

#[test]
fn a_token_of_another_key_has_an_invalid_signature() {
    let other = TokenSigner::new(b"top-secret-kez".to_vec(), 900, 86_400);
    let token = other.sign(42, "admin", TokenType::AccessToken, 1_700_000_000).unwrap();
    assert_eq!(signer().verify(&token, 1_700_000_000), Err(TokenError::InvalidSignature));
}

#[test]
fn an_empty_key_signs_nothing_and_honours_nothing() {
    let keyless = TokenSigner::new(Vec::new(), 900, 86_400);
    assert_eq!(keyless.sign(1, "", TokenType::AccessToken, 1000), Err(AuthError::SigningError));
    let token = signer().sign(1, "", TokenType::AccessToken, 1000).unwrap();
    assert_eq!(keyless.verify(&token, 1000), Err(TokenError::InvalidSignature));
}

#[test]
fn a_zero_lifetime_is_a_signing_error() {
    let signer = TokenSigner::new(b"k".to_vec(), 0, 10);
    assert_eq!(signer.sign(1, "", TokenType::AccessToken, 1000), Err(AuthError::SigningError));
    assert!(signer.sign(1, "", TokenType::RefreshToken, 1000).is_ok());
}

#[test]
fn an_expiry_past_the_last_second_is_a_signing_error() {
    assert_eq!(
        signer().sign(1, "", TokenType::AccessToken, u64::MAX - 899),
        Err(AuthError::SigningError)
    );
    assert_eq!(signer().sign(1, "", TokenType::AccessToken, u64::MAX), Err(AuthError::SigningError));
}
