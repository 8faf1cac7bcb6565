//! One-way storage of passwords.
//!
//! A password is stored as the hexadecimal text of a random salt followed by
//! the key that PBKDF2 derives from the password and that salt. Checking a
//! password derives the key again with the stored salt and compares.

use crate::crypto::{derived_key, equal_in_constant_time, pbkdf2_sha256, random_bytes};
use crate::hex::{decode, encode_string, hex_data, hex_text, is_hex_text, lemma_hex_text_decodes};
use crate::text::utf8;
use vstd::prelude::*;
use vstd::slice::slice_subrange;

verus! {

/// The number of salt bytes in a stored hash.
pub const SALT_LEN: usize = 16;

/// The number of derived key bytes in a stored hash.
pub const KEY_LEN: usize = 32;

/// The password could not be hashed: the system gave no random salt, or the
/// salt handed in has the wrong length.
#[derive(Clone, Copy, Debug, PartialEq, Eq, Structural)]
pub struct HashError;

/// The UTF-8 bytes of the stored hash made of `salt` and `key`.
pub open spec fn stored_form(salt: Seq<u8>, key: Seq<u8>) -> Seq<u8> {
    hex_text(salt + key)
}

/// Hashes and checks passwords with a fixed number of PBKDF2 iterations.
pub struct PasswordHasher {
    rounds: u32,
}

impl PasswordHasher {
    /// The number of PBKDF2 iterations.
    pub closed spec fn rounds(&self) -> u32 {
        self.rounds
    }

    /// The key that this hasher derives from `password` and `salt`.
    pub open spec fn key_for(&self, password: Seq<char>, salt: Seq<u8>) -> Seq<u8> {
        derived_key(utf8(password), salt, self.rounds(), KEY_LEN as nat)
    }

    /// The stored hash of `password` under `salt`, as UTF-8 bytes.
    pub open spec fn hash_of(&self, password: Seq<char>, salt: Seq<u8>) -> Seq<u8> {
        stored_form(salt, self.key_for(password, salt))
    }

    /// Whether `stored` is a hash of `password`: it is the hexadecimal text
    /// of `SALT_LEN` bytes of salt followed by the key derived from
    /// `password` with that salt.
    pub open spec fn accepts(&self, password: Seq<char>, stored: Seq<char>) -> bool {
        let text = utf8(stored);
        let data = hex_data(text);
        &&& is_hex_text(text)
        &&& data.len() >= SALT_LEN
        &&& data.subrange(SALT_LEN as int, data.len() as int) == self.key_for(
            password,
            data.subrange(0, SALT_LEN as int),
        )
    }

    /// A hasher that runs `rounds` iterations.
    pub fn new(rounds: u32) -> (hasher: PasswordHasher)
        ensures
            hasher.rounds() == rounds,
    {
        PasswordHasher { rounds }
    }

    /// Hashes `plaintext` under the given salt. Fails exactly when the salt
    /// does not have `SALT_LEN` bytes.
    pub fn hash_with_salt(
        &self,
        plaintext: &str,
        salt: &[u8],
    ) -> (stored: Result<String, HashError>)
        ensures
            stored is Ok <==> salt@.len() == SALT_LEN,
            stored matches Ok(s) ==> utf8(s@) == self.hash_of(plaintext@, salt@),
            stored matches Ok(s) ==> self.accepts(plaintext@, s@),
    {
        if salt.len() != SALT_LEN {
            return Err(HashError);
        }
        let key = pbkdf2_sha256(plaintext.as_bytes(), salt, self.rounds, KEY_LEN);
        let mut data: Vec<u8> = Vec::new();
        data.extend_from_slice(salt);
        data.extend_from_slice(key.as_slice());
        assert(data@ =~= salt@ + key@);
        let stored = encode_string(data.as_slice());
        proof {
            lemma_own_hash_accepted(*self, plaintext@, salt@, stored@);
        }
        Ok(stored)
    }

    /// Hashes `plaintext` under a fresh random salt. Fails only when the
    /// system's random source does.
    pub fn hash(&self, plaintext: &str) -> (stored: Result<String, HashError>)
        ensures
            stored matches Ok(s) ==> self.accepts(plaintext@, s@),
            stored matches Ok(s) ==> exists|salt: Seq<u8>|
                salt.len() == SALT_LEN && utf8(s@) == #[trigger] self.hash_of(plaintext@, salt),
    {
        match random_bytes(SALT_LEN) {
            Some(salt) => self.hash_with_salt(plaintext, salt.as_slice()),
            None => Err(HashError),
        }
    }

    /// Whether `stored` is a hash of `plaintext`. A stored value that is not
    /// in the stored form is a mismatch, not an error.
    pub fn verify(&self, plaintext: &str, stored: &str) -> (ok: bool)
        ensures
            ok == self.accepts(plaintext@, stored@),
    {
        let data = match decode(stored.as_bytes()) {
            Some(d) => d,
            None => {
                return false;
            },
        };
        if data.len() < SALT_LEN {
            return false;
        }
        let salt = slice_subrange(data.as_slice(), 0, SALT_LEN);
        let expected = slice_subrange(data.as_slice(), SALT_LEN, data.len());
        let key = pbkdf2_sha256(plaintext.as_bytes(), salt, self.rounds, KEY_LEN);
        equal_in_constant_time(key.as_slice(), expected)
    }
}

/// A password is accepted against its own hash, whatever the salt.
pub proof fn lemma_own_hash_accepted(
    hasher: PasswordHasher,
    password: Seq<char>,
    salt: Seq<u8>,
    stored: Seq<char>,
)
    requires
        salt.len() == SALT_LEN,
        utf8(stored) == hasher.hash_of(password, salt),
    ensures
        hasher.accepts(password, stored),
{
    let key = hasher.key_for(password, salt);
    lemma_hex_text_decodes(salt + key);
    assert((salt + key).subrange(0, SALT_LEN as int) =~= salt);
    assert((salt + key).subrange(SALT_LEN as int, (salt + key).len() as int) =~= key);
}

/// Another password is accepted against a hash exactly when PBKDF2 derives
/// the same key from both. HMAC pads a short key with zero bytes, so a
/// password and the same password followed by NUL characters are such a
/// pair.
pub proof fn lemma_other_password_decided_by_key(
    hasher: PasswordHasher,
    password: Seq<char>,
    other: Seq<char>,
    salt: Seq<u8>,
    stored: Seq<char>,
)
    requires
        salt.len() == SALT_LEN,
        utf8(stored) == hasher.hash_of(password, salt),
    ensures
        hasher.accepts(other, stored) <==> hasher.key_for(other, salt) == hasher.key_for(
            password,
            salt,
        ),
{
    let key = hasher.key_for(password, salt);
    lemma_hex_text_decodes(salt + key);
    assert((salt + key).subrange(0, SALT_LEN as int) =~= salt);
    assert((salt + key).subrange(SALT_LEN as int, (salt + key).len() as int) =~= key);
}

} // verus!
