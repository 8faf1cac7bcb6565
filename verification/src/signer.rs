//! Signed, expiring access tokens.
//!
//! A token is the hexadecimal text of the claims' byte form followed by the
//! HMAC-SHA256 tag of that byte form under the signer's key. Whoever holds
//! the key can check a token without looking anything up.

use crate::claims::{
    claims_bytes, decode_claims, encode_claims, lemma_parse_written, lemma_parsed_is_written,
    parse_claims, writable, Parsed,
};
use crate::crypto::{equal_in_constant_time, hmac_sha256, mac_of};
use crate::error::AuthError;
use crate::hex::{
    decode, encode_string, hex_data, hex_text, is_hex_text, lemma_hex_data_encodes,
    lemma_hex_text_decodes,
};
use crate::model::{Claims, ClaimsView, TokenType};
use crate::text::{decimal, decimal_string, lemma_decimal, utf8};
use vstd::prelude::*;
use vstd::slice::slice_subrange;

verus! {

/// Why a token was not honoured.
#[derive(Clone, Copy, Debug, PartialEq, Eq, Structural)]
pub enum TokenError {
    /// The token is genuine and past its expiry.
    ExpiredToken,
    /// The token is not one that this signer issued.
    InvalidSignature,
}

/// The UTF-8 bytes of the token that carries `claims` under `key`.
pub open spec fn token_text(key: Seq<u8>, claims: ClaimsView) -> Seq<u8> {
    hex_text(claims_bytes(claims) + mac_of(key, claims_bytes(claims)))
}

/// What checking `token` at the second `now` under `key` gives. A token is
/// genuine when it is hexadecimal text that starts with claims in their
/// byte form, and all that follows them is the tag of that byte form under
/// `key`. A genuine token is honoured before the expiry in its claims, and
/// not from it on. An empty key honours nothing.
pub open spec fn verdict(key: Seq<u8>, token: Seq<char>, now: int) -> Result<
    ClaimsView,
    TokenError,
> {
    let text = utf8(token);
    let bytes = hex_data(text);
    if key.len() == 0 || !is_hex_text(text) {
        Err(TokenError::InvalidSignature)
    } else {
        match parse_claims(bytes) {
            None => Err(TokenError::InvalidSignature),
            Some(parsed) => if bytes.subrange(parsed.len, bytes.len() as int) != mac_of(
                key,
                bytes.subrange(0, parsed.len),
            ) {
                Err(TokenError::InvalidSignature)
            } else if parsed.claims.exp <= now {
                Err(TokenError::ExpiredToken)
            } else {
                Ok(parsed.claims)
            },
        }
    }
}

/// The signing key and the lifetimes of the two kinds of token. It is made
/// once and never changes.
pub struct TokenSigner {
    key: Vec<u8>,
    access_ttl: u64,
    refresh_ttl: u64,
}

impl TokenSigner {
    /// The signing key.
    pub closed spec fn key(&self) -> Seq<u8> {
        self.key@
    }

    /// The lifetime, in seconds, of tokens of the given kind.
    pub closed spec fn ttl_of(&self, kind: TokenType) -> u64 {
        match kind {
            TokenType::AccessToken => self.access_ttl,
            TokenType::RefreshToken => self.refresh_ttl,
        }
    }

    /// Whether a token of the given kind can be issued at `now`: the key is
    /// not empty, the lifetime is not zero, and the expiry is a second that
    /// claims can hold.
    pub open spec fn can_sign(&self, kind: TokenType, now: u64) -> bool {
        &&& self.key().len() > 0
        &&& self.ttl_of(kind) > 0
        &&& now + self.ttl_of(kind) <= usize::MAX
        &&& now + self.ttl_of(kind) <= u64::MAX
    }

    /// The claims of a token issued at `now`: the user's id in decimal, the
    /// role, and an expiry one lifetime after `now`.
    pub open spec fn claims_for(
        &self,
        user_id: i32,
        role: Seq<char>,
        kind: TokenType,
        now: u64,
    ) -> ClaimsView {
        ClaimsView { sub: decimal(user_id as int), role, exp: now + self.ttl_of(kind) }
    }

    /// A signer with the given key and lifetimes in seconds.
    pub fn new(key: Vec<u8>, access_ttl: u64, refresh_ttl: u64) -> (signer: TokenSigner)
        ensures
            signer.key() == key@,
            signer.ttl_of(TokenType::AccessToken) == access_ttl,
            signer.ttl_of(TokenType::RefreshToken) == refresh_ttl,
    {
        TokenSigner { key, access_ttl, refresh_ttl }
    }

    /// The lifetime, in seconds, of tokens of the given kind.
    pub fn ttl(&self, kind: TokenType) -> (ttl: u64)
        ensures
            ttl == self.ttl_of(kind),
    {
        match kind {
            TokenType::AccessToken => self.access_ttl,
            TokenType::RefreshToken => self.refresh_ttl,
        }
    }

    fn seal(&self, claims: &Claims) -> (token: String)
        ensures
            utf8(token@) == token_text(self.key(), claims@),
            writable(claims@),
    {
        let mut body = encode_claims(claims);
        let tag = hmac_sha256(self.key.as_slice(), body.as_slice());
        body.extend_from_slice(tag.as_slice());
        assert(body@ =~= claims_bytes(claims@) + mac_of(self.key(), claims_bytes(claims@)));
        encode_string(body.as_slice())
    }

    /// Issues a token for the user at `now`. Fails with `SigningError`
    /// exactly when the signer cannot sign this kind at `now`.
    pub fn sign(
        &self,
        user_id: i32,
        role: &str,
        kind: TokenType,
        now: u64,
    ) -> (token: Result<String, AuthError>)
        ensures
            token is Ok <==> self.can_sign(kind, now),
            token matches Err(e) ==> e == AuthError::SigningError,
            token matches Ok(t) ==> utf8(t@) == token_text(
                self.key(),
                self.claims_for(user_id, role@, kind, now),
            ),
            token matches Ok(t) ==> verdict(self.key(), t@, now as int) == Ok::<
                ClaimsView,
                TokenError,
            >(self.claims_for(user_id, role@, kind, now)),
    {
        let ttl = self.ttl(kind);
        if self.key.len() == 0 || ttl == 0 {
            return Err(AuthError::SigningError);
        }
        let exp: u64 = match now.checked_add(ttl) {
            Some(e) => e,
            None => {
                return Err(AuthError::SigningError);
            },
        };
        if exp > usize::MAX as u64 {
            return Err(AuthError::SigningError);
        }
        let claims = Claims { sub: decimal_string(user_id), role: role.to_owned(), exp: exp as usize };
        let token = self.seal(&claims);
        proof {
            lemma_token_text_verdict(self.key(), claims@, token@, now as int);
        }
        Ok(token)
    }

    /// Checks `token` at the second `now` and hands out its claims.
    pub fn verify(&self, token: &str, now: u64) -> (outcome: Result<Claims, TokenError>)
        ensures
            (match outcome {
                Ok(claims) => verdict(self.key(), token@, now as int) == Ok::<
                    ClaimsView,
                    TokenError,
                >(claims@),
                Err(e) => verdict(self.key(), token@, now as int) == Err::<ClaimsView, TokenError>(
                    e,
                ),
            }),
    {
        if self.key.len() == 0 {
            return Err(TokenError::InvalidSignature);
        }
        let bytes = match decode(token.as_bytes()) {
            Some(b) => b,
            None => {
                return Err(TokenError::InvalidSignature);
            },
        };
        let (claims, len) = match decode_claims(bytes.as_slice()) {
            Some(p) => p,
            None => {
                return Err(TokenError::InvalidSignature);
            },
        };
        let body = slice_subrange(bytes.as_slice(), 0, len);
        let tag = slice_subrange(bytes.as_slice(), len, bytes.len());
        let expected = hmac_sha256(self.key.as_slice(), body);
        if !equal_in_constant_time(tag, expected.as_slice()) {
            return Err(TokenError::InvalidSignature);
        }
        if claims.exp as u64 <= now {
            return Err(TokenError::ExpiredToken);
        }
        Ok(claims)
    }
}

/// A token is honoured, with the claims it was issued for, from the second
/// it is issued until its lifetime has run, and is reported as expired from
/// then on.
pub proof fn lemma_issued_token_verdict(
    signer: TokenSigner,
    user_id: i32,
    role: Seq<char>,
    kind: TokenType,
    issued_at: u64,
    token: Seq<char>,
    now: u64,
)
    requires
        signer.can_sign(kind, issued_at),
        utf8(role).len() <= u64::MAX,
        utf8(token) == token_text(
            signer.key(),
            signer.claims_for(user_id, role, kind, issued_at),
        ),
    ensures
        issued_at <= now < issued_at + signer.ttl_of(kind) ==> verdict(
            signer.key(),
            token,
            now as int,
        ) == Ok::<ClaimsView, TokenError>(signer.claims_for(user_id, role, kind, issued_at)),
        now >= issued_at + signer.ttl_of(kind) ==> verdict(signer.key(), token, now as int) == Err::<
            ClaimsView,
            TokenError,
        >(TokenError::ExpiredToken),
        verdict(signer.key(), token, issued_at as int) is Ok,
{
    let claims = signer.claims_for(user_id, role, kind, issued_at);
    lemma_decimal(user_id as int);
    lemma_token_text_verdict(signer.key(), claims, token, now as int);
    lemma_token_text_verdict(signer.key(), claims, token, issued_at as int);
}

/// The verdict on a token made from `claims` under `key` depends on the
/// expiry alone.
pub proof fn lemma_token_text_verdict(
    key: Seq<u8>,
    claims: ClaimsView,
    token: Seq<char>,
    now: int,
)
    requires
        key.len() > 0,
        writable(claims),
        utf8(token) == token_text(key, claims),
    ensures
        now < claims.exp ==> verdict(key, token, now) == Ok::<ClaimsView, TokenError>(claims),
        now >= claims.exp ==> verdict(key, token, now) == Err::<ClaimsView, TokenError>(
            TokenError::ExpiredToken,
        ),
{
    let body = claims_bytes(claims);
    let tag = mac_of(key, body);
    let bytes = body + tag;
    let text = utf8(token);
    assert(is_hex_text(text) && hex_data(text) == bytes) by {
        lemma_hex_text_decodes(bytes);
    }
    let parsed = Parsed { claims, len: body.len() as int };
    assert(parse_claims(bytes) == Some(parsed)) by {
        lemma_parse_written(claims, tag);
    }
    assert(bytes.subrange(0, parsed.len) =~= body);
    assert(bytes.subrange(parsed.len, bytes.len() as int) =~= tag);
}

/// A token that is honoured is the very token that the signer issues for
/// its claims: no other text passes for them.
pub proof fn lemma_honoured_token_is_issued(key: Seq<u8>, token: Seq<char>, now: int)
    requires
        verdict(key, token, now) is Ok,
    ensures
        utf8(token) == token_text(key, verdict(key, token, now)->Ok_0),
        verdict(key, token, now)->Ok_0.exp > now,
{
    let text = utf8(token);
    let bytes = hex_data(text);
    let parsed = parse_claims(bytes)->0;
    lemma_hex_data_encodes(text);
    lemma_parsed_is_written(bytes);
    let body = bytes.subrange(0, parsed.len);
    let tag = bytes.subrange(parsed.len, bytes.len() as int);
    assert(bytes =~= body + tag);
}

} // verus!
