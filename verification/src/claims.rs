//! The byte form of claims.
//!
//! Claims are written as the subject, then the role, each as its UTF-8
//! bytes behind their count, then the expiry. Counts and expiry take eight
//! bytes, least significant first. The form delimits itself: a reader
//! knows where it ends.

use crate::model::{Claims, ClaimsView};
use crate::text::{string_from_utf8, utf8};
use vstd::bytes::*;
use vstd::prelude::*;
use vstd::slice::slice_subrange;
use vstd::utf8::*;

verus! {

/// `content` behind its length.
pub open spec fn field(content: Seq<u8>) -> Seq<u8> {
    spec_u64_to_le_bytes(content.len() as u64) + content
}

/// The byte form of `claims`.
pub open spec fn claims_bytes(claims: ClaimsView) -> Seq<u8> {
    field(utf8(claims.sub)) + field(utf8(claims.role)) + spec_u64_to_le_bytes(claims.exp as u64)
}

/// Whether `claims` can be written: both strings have lengths that fit
/// eight bytes, and the expiry is one that [`Claims`] can hold.
pub open spec fn writable(claims: ClaimsView) -> bool {
    &&& utf8(claims.sub).len() <= u64::MAX
    &&& utf8(claims.role).len() <= u64::MAX
    &&& 0 <= claims.exp <= usize::MAX
}

/// The number in the eight bytes of `bytes` from `at`.
pub open spec fn number_at(bytes: Seq<u8>, at: int) -> Option<u64> {
    if 0 <= at && at + 8 <= bytes.len() {
        Some(spec_u64_from_le_bytes(bytes.subrange(at, at + 8)))
    } else {
        None
    }
}

/// The content of the field of `bytes` that starts at `at`.
pub open spec fn field_at(bytes: Seq<u8>, at: int) -> Option<Seq<u8>> {
    match number_at(bytes, at) {
        Some(n) => if at + 8 + n <= bytes.len() {
            Some(bytes.subrange(at + 8, at + 8 + n))
        } else {
            None
        },
        None => None,
    }
}

/// Claims read from the front of a byte string, and the number of bytes
/// that they took.
pub ghost struct Parsed {
    pub claims: ClaimsView,
    pub len: int,
}

/// The claims that `bytes` starts with, and how many bytes they take.
pub open spec fn parse_claims(bytes: Seq<u8>) -> Option<Parsed> {
    match field_at(bytes, 0) {
        Some(sub) => match field_at(bytes, 8 + sub.len() as int) {
            Some(role) => match number_at(bytes, 16 + sub.len() as int + role.len() as int) {
                Some(exp) => if valid_utf8(sub) && valid_utf8(role) && exp <= usize::MAX {
                    Some(
                        Parsed {
                            claims: ClaimsView {
                                sub: decode_utf8(sub),
                                role: decode_utf8(role),
                                exp: exp as int,
                            },
                            len: 24 + sub.len() as int + role.len() as int,
                        },
                    )
                } else {
                    None
                },
                None => None,
            },
            None => None,
        },
        None => None,
    }
}

/// Reading finds what was written, whatever follows it.
pub proof fn lemma_parse_written(claims: ClaimsView, rest: Seq<u8>)
    requires
        writable(claims),
    ensures
        parse_claims(claims_bytes(claims) + rest) == Some(
            (Parsed { claims, len: claims_bytes(claims).len() as int }),
        ),
{
    lemma_auto_spec_u64_to_from_le_bytes();
    let sub = utf8(claims.sub);
    let role = utf8(claims.role);
    let sub_len = spec_u64_to_le_bytes(sub.len() as u64);
    let role_len = spec_u64_to_le_bytes(role.len() as u64);
    let exp = spec_u64_to_le_bytes(claims.exp as u64);
    let bytes = claims_bytes(claims) + rest;
    let s: int = sub.len() as int;
    let r: int = role.len() as int;
    assert(bytes.subrange(0, 8) =~= sub_len);
    assert(bytes.subrange(8, 8 + s) =~= sub);
    assert(field_at(bytes, 0) == Some(sub));
    assert(bytes.subrange(8 + s, 16 + s) =~= role_len);
    assert(bytes.subrange(16 + s, 16 + s + r) =~= role);
    assert(field_at(bytes, 8 + s) == Some(role));
    assert(bytes.subrange(16 + s + r, 24 + s + r) =~= exp);
    encode_utf8_valid_utf8(claims.sub);
    encode_utf8_valid_utf8(claims.role);
    encode_utf8_decode_utf8(claims.sub);
    encode_utf8_decode_utf8(claims.role);
}

/// What is read is what was written: the bytes that claims are read from
/// are their byte form.
pub proof fn lemma_parsed_is_written(bytes: Seq<u8>)
    requires
        parse_claims(bytes) is Some,
    ensures
        writable(parse_claims(bytes)->0.claims),
        0 <= parse_claims(bytes)->0.len <= bytes.len(),
        bytes.subrange(0, parse_claims(bytes)->0.len) == claims_bytes(parse_claims(bytes)->0.claims),
{
    lemma_auto_spec_u64_to_from_le_bytes();
    let sub = field_at(bytes, 0)->0;
    let s: int = sub.len() as int;
    let role = field_at(bytes, 8 + s)->0;
    let r: int = role.len() as int;
    let claims = parse_claims(bytes)->0.claims;
    decode_utf8_encode_utf8(sub);
    decode_utf8_encode_utf8(role);
    let n = number_at(bytes, 0)->0;
    let m = number_at(bytes, 8 + s)->0;
    let e = number_at(bytes, 16 + s + r)->0;
    assert(spec_u64_to_le_bytes(n) == bytes.subrange(0, 8));
    assert(spec_u64_to_le_bytes(m) == bytes.subrange(8 + s, 16 + s));
    assert(spec_u64_to_le_bytes(e) == bytes.subrange(16 + s + r, 24 + s + r));
    assert(bytes.subrange(0, 24 + s + r) =~= claims_bytes(claims));
}

fn push_field(out: &mut Vec<u8>, content: &[u8])
    ensures
        final(out)@ == old(out)@ + field(content@),
        content@.len() <= usize::MAX,
{
    let count = u64_to_le_bytes(content.len() as u64);
    out.extend_from_slice(count.as_slice());
    out.extend_from_slice(content);
    assert(out@ =~= old(out)@ + field(content@));
}

/// Writes `claims` in their byte form.
pub fn encode_claims(claims: &Claims) -> (bytes: Vec<u8>)
    ensures
        bytes@ == claims_bytes(claims@),
        writable(claims@),
{
    let mut bytes: Vec<u8> = Vec::new();
    push_field(&mut bytes, claims.sub.as_str().as_bytes());
    push_field(&mut bytes, claims.role.as_str().as_bytes());
    let exp = u64_to_le_bytes(claims.exp as u64);
    bytes.extend_from_slice(exp.as_slice());
    assert(bytes@ =~= claims_bytes(claims@));
    bytes
}

fn read_number(bytes: &[u8], at: usize) -> (number: Option<u64>)
    ensures
        number == number_at(bytes@, at as int),
{
    if bytes.len() < 8 || at > bytes.len() - 8 {
        return None;
    }
    Some(u64_from_le_bytes(slice_subrange(bytes, at, at + 8)))
}

fn read_field(bytes: &[u8], at: usize) -> (content: Option<&[u8]>)
    ensures
        content is Some <==> field_at(bytes@, at as int) is Some,
        content matches Some(c) ==> c@ == field_at(bytes@, at as int)->0,
        content matches Some(c) ==> at + 8 + c@.len() <= bytes@.len() <= usize::MAX,
{
    let n = match read_number(bytes, at) {
        Some(n) => n,
        None => {
            return None;
        },
    };
    let room: usize = bytes.len() - at - 8;
    if n > room as u64 {
        return None;
    }
    Some(slice_subrange(bytes, at + 8, at + 8 + n as usize))
}

fn read_string(bytes: &[u8]) -> (text: Option<String>)
    ensures
        text is Some <==> valid_utf8(bytes@),
        text matches Some(s) ==> s@ == decode_utf8(bytes@),
{
    let mut owned: Vec<u8> = Vec::new();
    owned.extend_from_slice(bytes);
    assert(owned@ =~= bytes@);
    string_from_utf8(owned)
}

/// Reads the claims that `bytes` starts with, and says how many bytes they
/// take. `None` when `bytes` does not start with claims.
pub fn decode_claims(bytes: &[u8]) -> (parsed: Option<(Claims, usize)>)
    ensures
        parsed is Some <==> parse_claims(bytes@) is Some,
        parsed matches Some((claims, len)) ==> parse_claims(bytes@) == Some(
            (Parsed { claims: claims@, len: len as int }),
        ),
{
    let sub = match read_field(bytes, 0) {
        Some(s) => s,
        None => {
            return None;
        },
    };
    let role = match read_field(bytes, 8 + sub.len()) {
        Some(r) => r,
        None => {
            return None;
        },
    };
    let exp = match read_number(bytes, 16 + sub.len() + role.len()) {
        Some(e) => e,
        None => {
            return None;
        },
    };
    let sub_text = match read_string(sub) {
        Some(s) => s,
        None => {
            return None;
        },
    };
    let role_text = match read_string(role) {
        Some(r) => r,
        None => {
            return None;
        },
    };
    if exp > usize::MAX as u64 {
        return None;
    }
    Some(
        (
            Claims { sub: sub_text, role: role_text, exp: exp as usize },
            24 + sub.len() + role.len(),
        ),
    )
}

} // verus!
