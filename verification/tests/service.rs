use auth_core::error::AuthError;
use auth_core::hasher::PasswordHasher;
use auth_core::model::{Claims, LoginUser, NewUser, RefreshToken, User, UserWithPassword};
use auth_core::service::AuthService;
use auth_core::signer::{TokenError, TokenSigner};
use auth_core::store::CredentialStore;

fn signer() -> TokenSigner {
    TokenSigner::new(b"top-secret-key".to_vec(), 900, 86_400)
}

fn service() -> AuthService {
    AuthService::new(PasswordHasher::new(1000), signer())
}

fn a() -> NewUser<'static> {
    NewUser { name: "A", email: "a@x.com", password: "secret123" }
}

fn a_login() -> LoginUser<'static> {
    LoginUser { email: "a@x.com", password: "secret123" }
}

#[test]
fn register_login_refresh() {
    let mut store = CredentialStore::new();
    let user = service().register(&mut store, &a()).unwrap();
    assert_eq!(user, User { id: 1, name: "A".to_string(), email: "a@x.com".to_string(), role: None });

    let out = service().login(&mut store, &a_login(), 1000).unwrap();
    assert_eq!(out.user, user);
    let first = signer().verify(&out.access_token, 1000).unwrap();
    assert_eq!(first, Claims { sub: "1".to_string(), role: "".to_string(), exp: 1900 });

    let refresh = RefreshToken { refresh_token: out.refresh_token.clone() };
    let renewed = service().refresh(&store, &refresh, 1500).unwrap();
    let second = signer().verify(&renewed.access_token, 1500).unwrap();
    assert_eq!(second.sub, first.sub);
    assert_eq!(second.exp, 2400);
    assert_ne!(second.exp, first.exp);
    assert_ne!(renewed.access_token, out.access_token);
}

#[test]
fn register_with_salt_is_exact() {
    let mut store = CredentialStore::new();
    let salt: Vec<u8> = (0u8..16).collect();
    let user = service().register_with_salt(&mut store, &a(), &salt).unwrap();
    assert_eq!(user.id, 1);
    assert_eq!(
        store.fetch_user_by_email("a@x.com").unwrap().password,
        "000102030405060708090a0b0c0d0e0fcda071ec6134135940c5be8c41b557d5263e9abe027fa971e64c6ff45f66296b"
    );
    assert_eq!(service().register_with_salt(&mut store, &a(), &salt), Err(AuthError::DuplicateEmail));
    let b = NewUser { name: "B", email: "b@x.com", password: "pw" };
    assert_eq!(service().register_with_salt(&mut store, &b, &[1, 2]), Err(AuthError::StoreError));
    assert_eq!(service().register_with_salt(&mut store, &b, &salt).map(|u| u.id), Ok(2));
}

#[test]
fn login_with_entropy_is_exact() {
    let mut store = CredentialStore::new();
    service().register(&mut store, &a()).unwrap();
    let entropy: Vec<u8> = (0u8..32).collect();
    let out = service().login_with_entropy(&mut store, &a_login(), 1000, &entropy).unwrap();
    assert_eq!(
        out.access_token,
        "01000000000000003100000000000000006c070000000000004c8bb9eda6517a2e971c4b7c61ae24618843a3bb2a9d178d5bb9864eaa532427"
    );
    assert_eq!(out.refresh_token, "000102030405060708090a0b0c0d0e0f101112131415161718191a1b1c1d1e1f");
    assert_eq!(store.find_refresh_token(&out.refresh_token).map(|t| (t.user_id, t.expired_at)), Some((1, 87_400)));
}

#[test]
fn registering_an_email_twice_is_a_duplicate_and_adds_no_row() {
    let mut store = CredentialStore::new();
    service().register(&mut store, &a()).unwrap();
    let again = NewUser { name: "Someone else", email: "a@x.com", password: "other-password" };
    assert_eq!(service().register(&mut store, &again), Err(AuthError::DuplicateEmail));
    assert_eq!(store.fetch_user_by_email("a@x.com").unwrap().user.name, "A");
    assert!(store.fetch_user_by_id(2).is_err());
    assert!(service().login(&mut store, &a_login(), 1000).is_ok());
    let other = LoginUser { email: "a@x.com", password: "other-password" };
    assert_eq!(service().login(&mut store, &other, 1000), Err(AuthError::InvalidCredentials));
}

#[test]
fn a_wrong_password_and_an_unknown_email_fail_alike() {
    let mut store = CredentialStore::new();
    service().register(&mut store, &a()).unwrap();
    let wrong = service().login(&mut store, &LoginUser { email: "a@x.com", password: "secret124" }, 1000);
    let unknown = service().login(&mut store, &LoginUser { email: "b@x.com", password: "secret123" }, 1000);
    assert_eq!(wrong, Err(AuthError::InvalidCredentials));
    assert_eq!(unknown, Err(AuthError::InvalidCredentials));
    assert_eq!(wrong, unknown);
    assert_eq!(wrong.unwrap_err().render(), unknown.unwrap_err().render());
}

#[test]
fn a_failed_login_issues_no_token() {
    let mut store = CredentialStore::new();
    service().register(&mut store, &a()).unwrap();
    let entropy = [9u8; 32];
    let text = "0909090909090909090909090909090909090909090909090909090909090909";
    let wrong = LoginUser { email: "a@x.com", password: "nope" };
    assert_eq!(service().login_with_entropy(&mut store, &wrong, 1000, &entropy), Err(AuthError::InvalidCredentials));
    assert_eq!(store.find_refresh_token(text), None);
    let keyless = AuthService::new(PasswordHasher::new(1000), TokenSigner::new(Vec::new(), 900, 86_400));
    assert_eq!(keyless.login_with_entropy(&mut store, &a_login(), 1000, &entropy), Err(AuthError::SigningError));
    assert_eq!(keyless.login(&mut store, &a_login(), 1000), Err(AuthError::SigningError));
    assert_eq!(store.find_refresh_token(text), None);
    assert_eq!(service().login_with_entropy(&mut store, &a_login(), 1000, &[9u8; 3]), Err(AuthError::SigningError));
    assert!(service().login_with_entropy(&mut store, &a_login(), 1000, &entropy).is_ok());
    assert_eq!(service().login_with_entropy(&mut store, &a_login(), 1000, &entropy), Err(AuthError::StoreError));
    assert_eq!(store.find_refresh_token(text).map(|t| t.id), Some(1));
}

#[test]
fn a_refresh_token_can_be_used_again_until_it_expires() {
    let mut store = CredentialStore::new();
    service().register(&mut store, &a()).unwrap();
    let out = service().login(&mut store, &a_login(), 1000).unwrap();
    let refresh = RefreshToken { refresh_token: out.refresh_token };
    for now in [1000u64, 1001, 50_000, 87_399] {
        let renewed = service().refresh(&store, &refresh, now).unwrap();
        let claims = signer().verify(&renewed.access_token, now).unwrap();
        assert_eq!(claims.sub, "1");
        assert_eq!(claims.exp as u64, now + 900);
    }
    assert_eq!(service().refresh(&store, &refresh, 87_400), Err(AuthError::ExpiredToken));
    assert_eq!(service().refresh(&store, &refresh, 87_401), Err(AuthError::ExpiredToken));
}

#[test]
fn refresh_with_an_unknown_token_is_invalid() {
    let mut store = CredentialStore::new();
    service().register(&mut store, &a()).unwrap();
    let out = service().login(&mut store, &a_login(), 1000).unwrap();
    let unknown = RefreshToken { refresh_token: "ffff".to_string() };
    assert_eq!(service().refresh(&store, &unknown, 1000), Err(AuthError::InvalidToken));
    let access = RefreshToken { refresh_token: out.access_token };
    assert_eq!(service().refresh(&store, &access, 1000), Err(AuthError::InvalidToken));
    let empty = RefreshToken { refresh_token: String::new() };
    assert_eq!(service().refresh(&store, &empty, 1000), Err(AuthError::InvalidToken));
}

#[test]
fn refresh_gives_a_token_for_the_owner_and_nobody_else() {
    let mut store = CredentialStore::new();
    service().register(&mut store, &a()).unwrap();
    let admin = UserWithPassword {
        user: User {
            id: 2,
            name: "Root".to_string(),
            email: "root@x.com".to_string(),
            role: Some("admin".to_string()),
        },
        password: PasswordHasher::new(1000).hash("toor").unwrap(),
    };
    store.restore_user(admin).unwrap();
    let plain = service().login(&mut store, &a_login(), 1000).unwrap();
    let root = service().login(&mut store, &LoginUser { email: "root@x.com", password: "toor" }, 1000).unwrap();
    assert_eq!(
        signer().verify(&root.access_token, 1000),
        Ok(Claims { sub: "2".to_string(), role: "admin".to_string(), exp: 1900 })
    );
    let for_plain = service().refresh(&store, &RefreshToken { refresh_token: plain.refresh_token }, 2000).unwrap();
    let for_root = service().refresh(&store, &RefreshToken { refresh_token: root.refresh_token }, 2000).unwrap();
    assert_eq!(
        signer().verify(&for_plain.access_token, 2000),
        Ok(Claims { sub: "1".to_string(), role: "".to_string(), exp: 2900 })
    );
    assert_eq!(
        signer().verify(&for_root.access_token, 2000),
        Ok(Claims { sub: "2".to_string(), role: "admin".to_string(), exp: 2900 })
    );
}

#[test]
fn an_access_token_expires_after_its_lifetime() {
    let mut store = CredentialStore::new();
    service().register(&mut store, &a()).unwrap();
    let out = service().login(&mut store, &a_login(), 1000).unwrap();
    assert!(signer().verify(&out.access_token, 1000).is_ok());
    assert!(signer().verify(&out.access_token, 1899).is_ok());
    assert_eq!(signer().verify(&out.access_token, 1900), Err(TokenError::ExpiredToken));
}

#[test]
fn refresh_fails_when_no_token_can_be_signed() {
    let mut store = CredentialStore::new();
    service().register(&mut store, &a()).unwrap();
    let out = service().login(&mut store, &a_login(), 1000).unwrap();
    let refresh = RefreshToken { refresh_token: out.refresh_token };
    let keyless = AuthService::new(PasswordHasher::new(1000), TokenSigner::new(Vec::new(), 900, 86_400));
    assert_eq!(keyless.refresh(&store, &refresh, 1500), Err(AuthError::SigningError));
    assert_eq!(keyless.refresh(&store, &refresh, 90_000), Err(AuthError::ExpiredToken));
}
