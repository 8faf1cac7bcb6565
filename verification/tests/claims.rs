use auth_core::claims::{decode_claims, encode_claims};
use auth_core::hex::{decode, encode_string};
use auth_core::model::Claims;

fn sample() -> Claims {
    Claims { sub: "1".to_string(), role: "admin".to_string(), exp: 1060 }
}

#[test]
fn encode_claims_writes_counted_strings_and_the_expiry() {
    assert_eq!(
        encode_string(&encode_claims(&sample())),
        "010000000000000031050000000000000061646d696e2404000000000000"
    );
}

#[test]
fn decode_claims_reads_back_what_was_written() {
    let bytes = encode_claims(&sample());
    assert_eq!(decode_claims(&bytes), Some((sample(), bytes.len())));
    let odd = Claims { sub: "".to_string(), role: "rôle ✓".to_string(), exp: 0 };
    let bytes = encode_claims(&odd);
    assert_eq!(decode_claims(&bytes), Some((odd, bytes.len())));
}

#[test]
fn decode_claims_leaves_what_follows() {
    let mut bytes = encode_claims(&sample());
    let len = bytes.len();
    bytes.extend_from_slice(&[9, 9, 9]);
    assert_eq!(decode_claims(&bytes), Some((sample(), len)));
}

#[test]
fn decode_claims_refuses_truncated_bytes() {
    let bytes = encode_claims(&sample());
    for cut in 0..bytes.len() {
        assert_eq!(decode_claims(&bytes[..cut]), None);
    }
}

#[test]
fn decode_claims_refuses_a_count_past_the_end() {
    let bytes = decode(b"ffffffffffffffff31050000000000000061646d696e2404000000000000").unwrap();
    assert_eq!(decode_claims(&bytes), None);
}

#[test]
fn decode_claims_refuses_text_that_is_not_utf8() {
    let bytes = decode(b"0100000000000000ff050000000000000061646d696e2404000000000000").unwrap();
    assert_eq!(decode_claims(&bytes), None);
}
