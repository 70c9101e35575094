use integrity::{
    candidate_name, decimal_text, decode_name, digest, encode_base, encode_name, generate,
    parse_decimal, verify_exit_code, VerifyError,
};

#[test]
fn digest_known_values() {
    assert_eq!(digest(""), "d41d8cd98f00b204e9800998ecf8427e");
    assert_eq!(digest("abc"), "900150983cd24fb0d6963f7d28e17f72");
}

#[test]
fn generate_is_deterministic() {
    let a = generate(42, 1024);
    let b = generate(42, 1024);
    assert_eq!(a, b);
    assert_eq!(a.len(), 1024);
    assert!(a.chars().all(|c| c.is_ascii_alphanumeric()));
    assert_ne!(generate(43, 1024), a);
    assert_eq!(generate(7, 0), "");
}

#[test]
fn decimal_text_values() {
    assert_eq!(decimal_text(0), "0");
    assert_eq!(decimal_text(9), "9");
    assert_eq!(decimal_text(10), "10");
    assert_eq!(decimal_text(1234567890), "1234567890");
    assert_eq!(decimal_text(u64::MAX), "18446744073709551615");
}

#[test]
fn parse_decimal_values() {
    assert_eq!(parse_decimal("42"), Some(42));
    assert_eq!(parse_decimal("0"), Some(0));
    assert_eq!(parse_decimal("007"), Some(7));
    assert_eq!(parse_decimal("18446744073709551615"), Some(u64::MAX));
    assert_eq!(parse_decimal("18446744073709551616"), None);
    assert_eq!(parse_decimal(""), None);
    assert_eq!(parse_decimal("12a"), None);
    assert_eq!(parse_decimal("-1"), None);
}

#[test]
fn encode_base_layout() {
    assert_eq!(encode_base("abc", 42, 1024), "abc-42-1024");
}

#[test]
fn encode_name_layout() {
    let name = encode_name("abc", 42, 1024);
    let expected = format!("abc-42-1024:{}:integrity", digest("abc-42-1024"));
    assert_eq!(name, expected);
}

#[test]
fn decode_round_trip() {
    let h = digest("some content");
    let name = encode_name(&h, 1234, 99);
    let d = decode_name(&name).unwrap();
    assert_eq!(d.content_hash, h);
    assert_eq!(d.seed, "1234");
    assert_eq!(d.declared_size, 99);
    let suffixed = candidate_name(&name, 7);
    let d2 = decode_name(&suffixed).unwrap();
    assert_eq!(d2.content_hash, h);
    assert_eq!(d2.seed, "1234");
    assert_eq!(d2.declared_size, 99);
}

#[test]
fn decode_two_segments_is_malformed() {
    let r = decode_name("abc-1-2:ffff");
    assert!(matches!(r, Err(VerifyError::MalformedName)));
    assert_eq!(verify_exit_code(&r), 2);
}

#[test]
fn decode_four_segments_is_malformed() {
    let name = format!("{}:extra", encode_name("abc", 1, 2));
    assert!(matches!(decode_name(&name), Err(VerifyError::MalformedName)));
}

#[test]
fn decode_bad_marker() {
    let base = "abc-1-2";
    let name = format!("{}:{}:other", base, digest(base));
    assert!(matches!(decode_name(&name), Err(VerifyError::BadMarker)));
    let short = format!("{}:{}:integ", base, digest(base));
    assert!(matches!(decode_name(&short), Err(VerifyError::BadMarker)));
}

#[test]
fn decode_metadata_corrupt() {
    let name = "abc-1-2:00000000000000000000000000000000:integrity";
    assert!(matches!(decode_name(name), Err(VerifyError::MetadataCorrupt)));
    let good = encode_name("abc", 1, 2);
    let tampered = good.replacen("abc-1-2", "abc-1-3", 1);
    assert!(matches!(decode_name(&tampered), Err(VerifyError::MetadataCorrupt)));
}

#[test]
fn decode_record_with_two_fields_is_malformed() {
    let base = "abc-12";
    let name = format!("{}:{}:integrity", base, digest(base));
    assert!(matches!(decode_name(&name), Err(VerifyError::MalformedName)));
}

#[test]
fn decode_size_not_a_number_is_malformed() {
    let base = "abc-12-x9";
    let name = format!("{}:{}:integrity", base, digest(base));
    assert!(matches!(decode_name(&name), Err(VerifyError::MalformedName)));
}

#[test]
fn decode_marker_with_suffix() {
    let base = "abc-12-9";
    let name = format!("{}:{}:integrity.3", base, digest(base));
    let d = decode_name(&name).unwrap();
    assert_eq!(d.declared_size, 9);
    assert_eq!(d.seed, "12");
    assert_eq!(d.content_hash, "abc");
}

#[test]
fn candidate_names() {
    assert_eq!(candidate_name("n", 0), "n");
    assert_eq!(candidate_name("n", 1), "n.0");
    assert_eq!(candidate_name("n", 50), "n.49");
}
