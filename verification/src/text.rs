//! Strings and their UTF-8 bytes.

use vstd::prelude::*;
use vstd::utf8::*;

verus! {

/// The UTF-8 bytes of a string, given by its characters.
pub open spec fn utf8(chars: Seq<char>) -> Seq<u8> {
    encode_utf8(chars)
}

/// Whether every byte is an ASCII code.
pub open spec fn is_ascii(bytes: Seq<u8>) -> bool {
    forall|i: int| 0 <= i < bytes.len() ==> #[trigger] bytes[i] < 128
}

/// Calls `String::from_utf8`: it answers with a string exactly when the
/// bytes are valid UTF-8, and the string then holds the characters that the
/// bytes encode.
#[verifier::external_body]
pub(crate) fn string_from_utf8(bytes: Vec<u8>) -> (text: Option<String>)
    ensures
        text is Some <==> valid_utf8(bytes@),
        text matches Some(s) ==> s@ == decode_utf8(bytes@),
{
    match String::from_utf8(bytes) {
        Ok(s) => Some(s),
        Err(_) => None,
    }
}

/// The text of the ASCII bytes `bytes`, one character per byte.
pub open spec fn ascii_text(bytes: Seq<u8>) -> Seq<char> {
    decode_utf8(bytes)
}

/// Two strings with the same UTF-8 bytes are the same string.
pub proof fn lemma_utf8_injective(a: Seq<char>, b: Seq<char>)
    requires
        utf8(a) == utf8(b),
    ensures
        a == b,
{
    encode_utf8_decode_utf8(a);
    encode_utf8_decode_utf8(b);
}

/// ASCII bytes are the UTF-8 form of exactly one string.
pub proof fn lemma_ascii_is_utf8(bytes: Seq<u8>)
    requires
        is_ascii(bytes),
    ensures
        valid_utf8(bytes),
        utf8(decode_utf8(bytes)) == bytes,
        decode_utf8(bytes).len() == bytes.len(),
{
    let chars = Seq::new(bytes.len(), |i: int| bytes[i] as char);
    assert(is_ascii_chars(chars)) by {
        assert forall|i: int| 0 <= i < chars.len() implies '\0' <= #[trigger] chars[i]
            <= '\u{7f}' by {
            assert(bytes[i] < 128);
        }
    }
    is_ascii_chars_encode_utf8(chars);
    assert(encode_utf8(chars) =~= bytes) by {
        assert forall|i: int| 0 <= i < bytes.len() implies encode_utf8(chars)[i] == bytes[i] by {
            assert(chars[i] as u8 == bytes[i]);
        }
    }
    encode_utf8_valid_utf8(chars);
    encode_utf8_decode_utf8(chars);
    decode_utf8_encode_utf8(bytes);
}

/// The string whose UTF-8 bytes are the given ASCII bytes.
pub fn ascii_string(bytes: Vec<u8>) -> (text: String)
    requires
        is_ascii(bytes@),
    ensures
        utf8(text@) == bytes@,
        text@ == decode_utf8(bytes@),
{
    proof {
        lemma_ascii_is_utf8(bytes@);
    }
    match string_from_utf8(bytes) {
        Some(s) => s,
        None => String::new(),
    }
}

/// The decimal digits of `n`, as ASCII codes, most significant first.
pub open spec fn digits(n: nat) -> Seq<u8>
    decreases n,
{
    if n < 10 {
        seq![(48 + n) as u8]
    } else {
        digits(n / 10).push((48 + n % 10) as u8)
    }
}

/// The decimal text of `n`, as ASCII codes: a minus sign if `n` is
/// negative, then the digits of its magnitude.
pub open spec fn decimal_text(n: int) -> Seq<u8> {
    if n < 0 {
        seq![45u8] + digits((-n) as nat)
    } else {
        digits(n as nat)
    }
}

/// The decimal text of `n`, as characters.
pub open spec fn decimal(n: int) -> Seq<char> {
    ascii_text(decimal_text(n))
}

/// Decimal text is ASCII and no longer than the number is large.
pub proof fn lemma_digits(n: nat)
    ensures
        is_ascii(digits(n)),
        1 <= digits(n).len() <= n + 1,
    decreases n,
{
    if n >= 10 {
        lemma_digits(n / 10);
    }
}

/// The characters of a decimal text encode to its ASCII codes.
pub proof fn lemma_decimal(n: int)
    ensures
        is_ascii(decimal_text(n)),
        utf8(decimal(n)) == decimal_text(n),
        n >= 0 ==> decimal_text(n).len() <= n + 1,
        n < 0 ==> decimal_text(n).len() <= 2 - n,
{
    if n < 0 {
        lemma_digits((-n) as nat);
    } else {
        lemma_digits(n as nat);
    }
    lemma_ascii_is_utf8(decimal_text(n));
}

/// Two numbers with the same digits are the same number.
pub proof fn lemma_digits_injective(a: nat, b: nat)
    requires
        digits(a) == digits(b),
    ensures
        a == b,
    decreases a,
{
    lemma_digits(a);
    lemma_digits(b);
    if a < 10 && b < 10 {
        assert(digits(a)[0] == 48 + a);
        assert(digits(b)[0] == 48 + b);
    } else if a < 10 {
        lemma_digits(b / 10);
        assert(digits(a).len() == 1);
        assert(digits(b).len() == digits(b / 10).len() + 1);
    } else if b < 10 {
        lemma_digits(a / 10);
        assert(digits(b).len() == 1);
        assert(digits(a).len() == digits(a / 10).len() + 1);
    } else {
        assert(digits(a).last() == 48 + a % 10);
        assert(digits(b).last() == 48 + b % 10);
        assert(digits(a).drop_last() =~= digits(a / 10));
        assert(digits(b).drop_last() =~= digits(b / 10));
        lemma_digits_injective(a / 10, b / 10);
        assert(a == 10 * (a / 10) + a % 10);
        assert(b == 10 * (b / 10) + b % 10);
    }
}

/// Two numbers with the same decimal text are the same number.
pub proof fn lemma_decimal_injective(a: int, b: int)
    requires
        decimal(a) == decimal(b),
    ensures
        a == b,
{
    lemma_decimal(a);
    lemma_decimal(b);
    assert(decimal_text(a) == decimal_text(b));
    if a < 0 {
        lemma_first_digit((-a) as nat);
    } else {
        lemma_first_digit(a as nat);
    }
    if b < 0 {
        lemma_first_digit((-b) as nat);
    } else {
        lemma_first_digit(b as nat);
    }
    assert(decimal_text(a)[0] == decimal_text(b)[0]);
    if a < 0 {
        assert(decimal_text(a).drop_first() =~= digits((-a) as nat));
        assert(decimal_text(b).drop_first() =~= digits((-b) as nat));
        lemma_digits_injective((-a) as nat, (-b) as nat);
    } else {
        lemma_digits_injective(a as nat, b as nat);
    }
}

proof fn lemma_first_digit(n: nat)
    ensures
        48 <= digits(n)[0] <= 57,
    decreases n,
{
    if n >= 10 {
        lemma_first_digit(n / 10);
        lemma_digits(n / 10);
    }
}

fn push_digits(n: u64, out: &mut Vec<u8>)
    ensures
        final(out)@ == old(out)@ + digits(n as nat),
    decreases n,
{
    if n >= 10 {
        push_digits(n / 10, out);
    }
    let last: u8 = 48 + (n % 10) as u8;
    out.push(last);
    assert(out@ =~= old(out)@ + digits(n as nat));
}

/// Writes `n` in decimal.
pub fn decimal_string(n: i32) -> (text: String)
    ensures
        text@ == decimal(n as int),
{
    let mut bytes: Vec<u8> = Vec::new();
    if n < 0 {
        bytes.push(45u8);
        let magnitude: u64 = (-(n as i64)) as u64;
        push_digits(magnitude, &mut bytes);
    } else {
        push_digits(n as u64, &mut bytes);
    }
    assert(bytes@ =~= decimal_text(n as int));
    proof {
        lemma_decimal(n as int);
    }
    ascii_string(bytes)
}

} // verus!
