use shuntlited::codec::counter_from_read;
use shuntlited::codec::{add_wrapping, decode_u64_be, encode_u64_be, stored_u64};
use shuntlited::text::{join_str, decimal, parse_u64, str_eq};

#[test]
fn encode_matches_to_be_bytes() {
    for x in [0u64, 1, 255, 256, 1_700_000_000, u64::MAX, 0x0102_0304_0506_0708] {
        assert_eq!(encode_u64_be(x), x.to_be_bytes().to_vec());
        assert_eq!(decode_u64_be(&x.to_be_bytes()), x);
    }
}

#[test]
fn decode_encode_round_trip() {
    let bytes = [9u8, 8, 7, 6, 5, 4, 3, 2];
    assert_eq!(encode_u64_be(decode_u64_be(&bytes)), bytes.to_vec());
    assert_eq!(decode_u64_be(&encode_u64_be(123_456_789)), 123_456_789);
}

#[test]
fn stored_counter_needs_eight_bytes() {
    assert_eq!(stored_u64(&Some(42u64.to_be_bytes().to_vec())), Some(42));
    assert_eq!(stored_u64(&Some(vec![1, 2, 3])), None);
    assert_eq!(stored_u64(&None), None);
}

#[test]
fn wrapping_addition() {
    assert_eq!(add_wrapping(2, 3), 5);
    assert_eq!(add_wrapping(u64::MAX, 2), 1);
    assert_eq!(add_wrapping(u64::MAX - 5, 5), u64::MAX);
}

#[test]
fn decimal_rendering() {
    assert_eq!(decimal(0), "0");
    assert_eq!(decimal(7), "7");
    assert_eq!(decimal(305), "305");
    assert_eq!(decimal(u64::MAX), u64::MAX.to_string());
}

#[test]
fn parse_like_from_str() {
    for s in ["", "+", "-5", "12a", " 5", "007", "+42", "18446744073709551615", "18446744073709551616", "300"] {
        assert_eq!(parse_u64(s.as_bytes()), s.parse::<u64>().ok(), "input {s:?}");
    }
}

#[test]
fn text_helpers() {
    assert!(str_eq("groq", "groq"));
    assert!(!str_eq("groq", "groq "));
    assert_eq!(join_str("cooldown:", "groq"), "cooldown:groq");
}

#[test]
fn counter_from_store_reads() {
    let ok: Result<Option<Vec<u8>>, sled::Error> = Ok(Some(42u64.to_be_bytes().to_vec()));
    assert_eq!(counter_from_read(&ok), Some(42));
    let short: Result<Option<Vec<u8>>, sled::Error> = Ok(Some(vec![1]));
    assert_eq!(counter_from_read(&short), None);
    let failed: Result<Option<Vec<u8>>, sled::Error> = Err(sled::Error::Unsupported("x".to_string()));
    assert_eq!(counter_from_read(&failed), None);
}
