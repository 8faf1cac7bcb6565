use auth_core::hasher::{HashError, PasswordHasher, KEY_LEN, SALT_LEN};

fn salt() -> Vec<u8> {
    (0u8..16).collect()
}

#[test]
fn hash_with_salt_gives_the_pbkdf2_key_behind_the_salt() {
    let hasher = PasswordHasher::new(1000);
    let stored = hasher.hash_with_salt("secret123", &salt()).unwrap();
    assert_eq!(
        stored,
        "000102030405060708090a0b0c0d0e0fcda071ec6134135940c5be8c41b557d5263e9abe027fa971e64c6ff45f66296b"
    );
}

#[test]
fn hash_with_salt_hashes_the_utf8_bytes_of_the_password() {
    let hasher = PasswordHasher::new(2);
    let stored = hasher.hash_with_salt("pässwörd", &[0xab; 16]).unwrap();
    assert_eq!(
        stored,
        "abababababababababababababababab59205bbc1d7dc6801513e8cacfc4bc9739b44a6dd9595541dec4509eac06e791"
    );
}

#[test]
fn hash_with_salt_refuses_a_salt_of_the_wrong_length() {
    let hasher = PasswordHasher::new(10);
    assert_eq!(hasher.hash_with_salt("secret123", &[1, 2, 3]), Err(HashError));
    assert_eq!(hasher.hash_with_salt("secret123", &[0; 17]), Err(HashError));
    assert_eq!(hasher.hash_with_salt("secret123", &[]), Err(HashError));
}

#[test]
fn a_password_verifies_against_its_own_hash() {
    let hasher = PasswordHasher::new(50);
    let stored = hasher.hash("correct horse").unwrap();
    assert_eq!(stored.len(), 2 * (SALT_LEN + KEY_LEN));
    assert!(hasher.verify("correct horse", &stored));
    let empty = hasher.hash("").unwrap();
    assert!(hasher.verify("", &empty));
}

#[test]
fn another_password_does_not_verify() {
    let hasher = PasswordHasher::new(50);
    let stored = hasher.hash("correct horse").unwrap();
    assert!(!hasher.verify("correct horsf", &stored));
    assert!(!hasher.verify("", &stored));
    assert!(!hasher.verify("Correct horse", &stored));
}

#[test]
fn two_hashes_of_one_password_differ_by_their_salt() {
    let hasher = PasswordHasher::new(5);
    let first = hasher.hash("same").unwrap();
    let second = hasher.hash("same").unwrap();
    assert_ne!(first, second);
    assert!(hasher.verify("same", &first));
    assert!(hasher.verify("same", &second));
}

#[test]
fn verify_depends_on_the_rounds() {
    let stored = PasswordHasher::new(1000).hash_with_salt("secret123", &salt()).unwrap();
    assert!(PasswordHasher::new(1000).verify("secret123", &stored));
    assert!(!PasswordHasher::new(999).verify("secret123", &stored));
}

#[test]
fn verify_takes_a_malformed_hash_for_a_mismatch() {
    let hasher = PasswordHasher::new(5);
    assert!(!hasher.verify("secret123", ""));
    assert!(!hasher.verify("secret123", "not hex at all"));
    assert!(!hasher.verify("secret123", "0001"));
    assert!(!hasher.verify("secret123", "000102030405060708090a0b0c0d0e0f"));
    assert!(!hasher.verify(
        "secret123",
        "000102030405060708090A0B0C0D0E0FCDA071EC6134135940C5BE8C41B557D5263E9ABE027FA971E64C6FF45F66296B"
    ));
}

#[test]
fn trailing_nul_characters_do_not_change_the_derived_key() {
    let hasher = PasswordHasher::new(10);
    let stored = hasher.hash_with_salt("a", &salt()).unwrap();
    assert_eq!(stored, hasher.hash_with_salt("a\0", &salt()).unwrap());
    assert!(hasher.verify("a\0", &stored));
    assert!(!hasher.verify("a0", &stored));
}
