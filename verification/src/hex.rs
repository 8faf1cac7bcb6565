//! Lowercase hexadecimal text, as ASCII bytes.

use crate::text::{ascii_string, is_ascii, utf8};
use vstd::prelude::*;

verus! {

/// The ASCII code of the lowercase hexadecimal digit that stands for `value`.
pub open spec fn digit_of(value: u8) -> u8
    recommends
        value < 16,
{
    if value < 10 {
        (value + 48) as u8
    } else {
        (value + 87) as u8
    }
}

/// The value of the digit with ASCII code `digit`, if it is one of `0-9a-f`.
pub open spec fn value_of(digit: u8) -> Option<u8> {
    if 48 <= digit <= 57 {
        Some((digit - 48) as u8)
    } else if 97 <= digit <= 102 {
        Some((digit - 87) as u8)
    } else {
        None
    }
}

/// The hexadecimal text of `data`: two digits per byte, high nibble first.
#[verifier::opaque]
pub open spec fn hex_text(data: Seq<u8>) -> Seq<u8> {
    Seq::new(
        (2 * data.len()) as nat,
        |i: int|
            if i % 2 == 0 {
                digit_of(data[i / 2] / 16)
            } else {
                digit_of(data[i / 2] % 16)
            },
    )
}

/// Whether `text` is an even number of lowercase hexadecimal digits.
#[verifier::opaque]
pub open spec fn is_hex_text(text: Seq<u8>) -> bool {
    &&& text.len() % 2 == 0
    &&& forall|i: int| 0 <= i < text.len() ==> value_of(#[trigger] text[i]) is Some
}

/// The bytes that the hexadecimal text `text` stands for.
#[verifier::opaque]
pub open spec fn hex_data(text: Seq<u8>) -> Seq<u8> {
    Seq::new(
        (text.len() / 2) as nat,
        |i: int| (value_of(text[2 * i])->0 * 16 + value_of(text[2 * i + 1])->0) as u8,
    )
}

/// Decoding undoes encoding.
pub proof fn lemma_hex_text_decodes(data: Seq<u8>)
    ensures
        is_hex_text(hex_text(data)),
        hex_data(hex_text(data)) == data,
{
    reveal(hex_text);
    reveal(is_hex_text);
    reveal(hex_data);
    let text = hex_text(data);
    assert forall|i: int| 0 <= i < text.len() implies value_of(#[trigger] text[i]) is Some by {
        let b = data[i / 2];
        assert(b / 16 < 16 && b % 16 < 16);
    }
    assert forall|i: int| 0 <= i < data.len() implies hex_data(text)[i] == data[i] by {
        let b = data[i];
        assert(text[2 * i] == digit_of(b / 16));
        assert(text[2 * i + 1] == digit_of(b % 16));
        assert(b / 16 < 16 && b % 16 < 16);
        assert((b / 16) * 16 + b % 16 == b);
    }
    assert(hex_data(text) =~= data);
}

/// Encoding undoes decoding: a byte string has one hexadecimal text only.
pub proof fn lemma_hex_data_encodes(text: Seq<u8>)
    requires
        is_hex_text(text),
    ensures
        hex_text(hex_data(text)) == text,
{
    reveal(hex_text);
    reveal(is_hex_text);
    reveal(hex_data);
    let data = hex_data(text);
    assert forall|i: int| 0 <= i < text.len() implies hex_text(data)[i] == text[i] by {
        let k = i / 2;
        let hi = value_of(text[2 * k])->0;
        let lo = value_of(text[2 * k + 1])->0;
        assert(value_of(text[2 * k]) is Some);
        assert(value_of(text[2 * k + 1]) is Some);
        assert(hi < 16 && lo < 16);
        assert(data[k] == hi * 16 + lo);
        assert(data[k] / 16 == hi && data[k] % 16 == lo);
    }
    assert(hex_text(data) =~= text);
}

/// Hexadecimal text is ASCII.
pub proof fn lemma_hex_text_is_ascii(data: Seq<u8>)
    ensures
        is_ascii(hex_text(data)),
{
    reveal(hex_text);
    assert forall|i: int| 0 <= i < hex_text(data).len() implies #[trigger] hex_text(data)[i]
        < 128 by {
        let b = data[i / 2];
        assert(b / 16 < 16 && b % 16 < 16);
    }
}

fn digit(value: u8) -> (d: u8)
    requires
        value < 16,
    ensures
        d == digit_of(value),
{
    if value < 10 {
        value + 48
    } else {
        value + 87
    }
}

fn value(digit: u8) -> (v: Option<u8>)
    ensures
        v == value_of(digit),
{
    if 48 <= digit && digit <= 57 {
        Some(digit - 48)
    } else if 97 <= digit && digit <= 102 {
        Some(digit - 87)
    } else {
        None
    }
}

/// Writes `data` as hexadecimal text.
pub fn encode(data: &[u8]) -> (text: Vec<u8>)
    ensures
        text@ == hex_text(data@),
{
    proof {
        reveal(hex_text);
    }
    let mut text: Vec<u8> = Vec::new();
    let mut i: usize = 0;
    while i < data.len()
        invariant
            i <= data.len(),
            text@.len() == 2 * i,
            forall|j: int| 0 <= j < 2 * i ==> text@[j] == hex_text(data@)[j],
        decreases data.len() - i,
    {
        proof {
            reveal(hex_text);
        }
        let b: u8 = data[i];
        text.push(digit(b / 16));
        text.push(digit(b % 16));
        i += 1;
    }
    assert(text@ =~= hex_text(data@));
    text
}

/// Writes `data` as a string of hexadecimal digits.
pub fn encode_string(data: &[u8]) -> (text: String)
    ensures
        utf8(text@) == hex_text(data@),
{
    let bytes = encode(data);
    proof {
        lemma_hex_text_is_ascii(data@);
    }
    ascii_string(bytes)
}

/// Reads hexadecimal text back into bytes; `None` when `text` is not
/// hexadecimal text.
pub fn decode(text: &[u8]) -> (data: Option<Vec<u8>>)
    ensures
        data is Some <==> is_hex_text(text@),
        data matches Some(d) ==> d@ == hex_data(text@),
{
    proof {
        reveal(is_hex_text);
        reveal(hex_data);
    }
    if text.len() % 2 != 0 {
        return None;
    }
    let pairs: usize = text.len() / 2;
    let mut data: Vec<u8> = Vec::new();
    let mut i: usize = 0;
    while i < pairs
        invariant
            text@.len() == 2 * pairs,
            text@.len() <= usize::MAX,
            i <= pairs,
            data@.len() == i,
            forall|j: int| 0 <= j < 2 * i ==> value_of(#[trigger] text@[j]) is Some,
            forall|j: int| 0 <= j < i ==> data@[j] == hex_data(text@)[j],
        decreases pairs - i,
    {
        proof {
            reveal(is_hex_text);
            reveal(hex_data);
        }
        let hi: u8 = match value(text[2 * i]) {
            Some(v) => v,
            None => {
                return None;
            },
        };
        let lo: u8 = match value(text[2 * i + 1]) {
            Some(v) => v,
            None => {
                return None;
            },
        };
        data.push(hi * 16 + lo);
        i += 1;
    }
    assert(data@ =~= hex_data(text@));
    Some(data)
}

} // verus!
