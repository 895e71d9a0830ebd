use anime_tui::provider::nakanime::{
    dynamic_decrypt, percent_decode, site_url, urlencode, validate_numeric_id,
};

#[test]
fn base_url_is_normalized() {
    assert_eq!(
        site_url("https://nakanime.tv/", "/api/catalog/search"),
        "https://nakanime.tv/api/catalog/search"
    );
}

#[test]
fn numeric_ids_only() {
    assert!(validate_numeric_id("279").is_ok());
    assert!(validate_numeric_id("../secrets").is_err());
    assert!(validate_numeric_id("").is_err());
    assert!(validate_numeric_id("279/watch").is_err());
}

#[test]
fn urlencode_escapes_safely() {
    assert_eq!(urlencode("naruto shippuden"), "naruto+shippuden");
    assert_eq!(urlencode("a/b?c"), "a%2Fb%3Fc");
}

fn arith_encrypt(plain: &[u8], start: u8, step: u8) -> Vec<u8> {
    plain.iter().enumerate()
        .map(|(i, &b)| b ^ start.wrapping_add(((i % 32) as u8).wrapping_mul(step)))
        .collect()
}

#[test]
fn dynamic_decrypt_passes_through_plain_json() {
    let plain = r#"{"data":[]}"#;
    let result = dynamic_decrypt("test", plain.as_bytes(), b"{\"data\":").unwrap();
    assert_eq!(result, plain);
}

#[test]
fn dynamic_decrypt_recovers_arithmetic_key() {
    let plain = r#"{"data":[],"meta":{}}"#;
    // use start=0xa3, step=0xa0 (matches old hardcoded catalog key)
    let enc = arith_encrypt(plain.as_bytes(), 0xa3, 0xa0);
    let result = dynamic_decrypt("test", &enc, b"{\"data\":").unwrap();
    assert_eq!(result, plain);
}

#[test]
fn dynamic_decrypt_handles_step_zero() {
    // step=0 means single-byte repeating XOR
    let plain = r#"{"data":[]}"#;
    let enc = arith_encrypt(plain.as_bytes(), 0x42, 0x00);
    let result = dynamic_decrypt("test", &enc, b"{\"data\":").unwrap();
    assert_eq!(result, plain);
}

#[test]
fn dynamic_decrypt_sources_prefix() {
    let plain = r#"[{"id":1,"url":"https://example.com"}]"#;
    let enc = arith_encrypt(plain.as_bytes(), 0x51, 0x81);
    let result = dynamic_decrypt("test", &enc, b"[{").unwrap();
    assert_eq!(result, plain);
}

#[test]
fn dynamic_decrypt_key_resets_at_32() {
    // Verify that the 32-byte period is respected.
    // With step=0x81 (odd), i*step mod 256 would NOT be periodic-32 without i%32.
    // This test uses a plaintext longer than 32 bytes to exercise the wrap.
    let plain = r#"[{"id":9999,"url":"https://vidmoly.biz/embed-abcdefghijk.html"}]"#;
    assert!(plain.len() > 32, "test requires >32 bytes");
    let enc = arith_encrypt(plain.as_bytes(), 0x51, 0x81);
    let result = dynamic_decrypt("test", &enc, b"[{").unwrap();
    assert_eq!(result, plain);
}

#[test]
fn percent_decode_handles_cookie_values() {
    assert_eq!(percent_decode("e%3Afoo"), "e:foo");
    assert_eq!(percent_decode("hello%20world"), "hello world");
    assert_eq!(percent_decode("plain"), "plain");
}

#[test]
fn percent_decode_keeps_what_is_no_sequence() {
    assert_eq!(percent_decode("a%4"), "a%4");
    assert_eq!(percent_decode("a%"), "a%");
    assert_eq!(percent_decode("%zz%41"), "%zzA");
    assert_eq!(percent_decode("%+4"), "%+4");
    assert_eq!(percent_decode("%c3%A9\u{65e5}"), "\u{e9}\u{65e5}");
}

#[test]
fn an_encoded_query_decodes_to_the_text() {
    for s in ["", "one piece +2", "100% caf\u{e9}", "\u{65e5}\u{672c}/?&=#~-_.", "\u{1f600}"] {
        assert_eq!(percent_decode(&urlencode(s).replace('+', " ")), s);
    }
}
