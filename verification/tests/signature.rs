use hmac::{Hmac, Mac};
use sha2::Sha256;
use webhook_operator::signature::{
    constant_time_eq, hex_encode, sign, verify_signature, verify_signature_at, SignatureError,
    MAX_SKEW_SECONDS,
};

type HmacSha256 = Hmac<Sha256>;

fn reference_signature(secret: &str, timestamp: &str, body: &str) -> String {
    let message = format!("{}.{}", timestamp, body);
    let mut mac = HmacSha256::new_from_slice(secret.as_bytes()).unwrap();
    mac.update(message.as_bytes());
    hex::encode(mac.finalize().into_bytes())
}

#[test]
fn test_verify_signature() {
    let secret = "test_secret";
    let timestamp = chrono::Utc::now().timestamp().to_string();
    let body = r#"{"test":"data"}"#;

    // Generate signature
    let signature = format!("sha256={}", reference_signature(secret, &timestamp, body));

    // Verify
    assert!(verify_signature(secret, &timestamp, body, &signature).unwrap());
}

#[test]
fn test_verify_signature_fails_wrong_secret() {
    let timestamp = chrono::Utc::now().timestamp().to_string();
    let body = r#"{"test":"data"}"#;

    let signature = format!("sha256={}", reference_signature("secret1", &timestamp, body));

    assert!(!verify_signature("secret2", &timestamp, body, &signature).unwrap());
}

#[test]
fn test_verify_signature_fails_old_timestamp() {
    let secret = "test_secret";
    let timestamp = (chrono::Utc::now().timestamp() - 400).to_string(); // 400 seconds ago
    let body = r#"{"test":"data"}"#;

    let signature = format!("sha256={}", reference_signature(secret, &timestamp, body));

    assert!(!verify_signature(secret, &timestamp, body, &signature).unwrap());
}

#[test]
fn sign_is_hmac_sha256_in_lowercase_hex() {
    for (secret, timestamp, body) in [
        ("Jefe", "1700000000", "what do ya want for nothing?"),
        ("k", "0", ""),
        ("cl\u{e9}", "-5", "corps \u{e9}t\u{e9}"),
    ] {
        let signature = sign(secret, timestamp, body).unwrap();
        assert_eq!(signature, reference_signature(secret, timestamp, body));
        assert_eq!(signature.len(), 64);
        assert!(signature.chars().all(|c| c.is_ascii_digit() || ('a'..='f').contains(&c)));
    }
}

#[test]
fn sign_matches_known_vectors() {
    assert_eq!(
        sign("test_secret", "1700000000", r#"{"test":"data"}"#).unwrap(),
        "6dd2b71d5018eca3530da1d84b5f89b5db321c7f26f08544342be6d3e0cbfe51"
    );
    assert_eq!(
        sign("Jefe", "1", "what do ya want for nothing?").unwrap(),
        "a9049465ce89cfb8e9aac62333abda66f80e3403f51f57f6bae3c3a4485eca38"
    );
    assert_eq!(
        sign("k", "0", "").unwrap(),
        "6b4a4b8b3c40f1e8f53a3d36682e5f99f7ad2ac1df1c93dfe336f329167641e7"
    );
}

#[test]
fn sign_refuses_an_empty_key() {
    assert_eq!(sign("", "1", "b"), Err(SignatureError::EmptyKey));
}

#[test]
fn signing_round_trip_within_skew() {
    let now = 1_700_000_000i64;
    for offset in [-300i64, -299, -1, 0, 1, 299, 300] {
        let timestamp = (now + offset).to_string();
        let signature = sign("secret", &timestamp, "body").unwrap();
        assert_eq!(verify_signature_at("secret", &timestamp, "body", &signature, now), Ok(true));
        let prefixed = format!("sha256={}", signature);
        assert_eq!(verify_signature_at("secret", &timestamp, "body", &prefixed, now), Ok(true));
    }
}

#[test]
fn skew_of_300_is_accepted_and_301_rejected() {
    let now = 1_700_000_000i64;
    assert_eq!(MAX_SKEW_SECONDS, 300);
    for (offset, expected) in [(300i64, true), (301, false), (-300, true), (-301, false)] {
        let timestamp = (now + offset).to_string();
        let signature = sign("secret", &timestamp, "body").unwrap();
        assert_eq!(
            verify_signature_at("secret", &timestamp, "body", &signature, now),
            Ok(expected),
            "offset {}",
            offset
        );
    }
}

#[test]
fn valid_signature_is_accepted_iff_fresh() {
    let timestamp = "1000";
    let signature = sign("secret", timestamp, "body").unwrap();
    for now in [0i64, 699, 700, 1000, 1300, 1301, i64::MAX, i64::MIN] {
        let fresh = (now as i128 - 1000).abs() <= 300;
        assert_eq!(
            verify_signature_at("secret", timestamp, "body", &signature, now),
            Ok(fresh),
            "now {}",
            now
        );
    }
}

#[test]
fn extreme_timestamps_do_not_overflow() {
    let signature = sign("secret", "-9223372036854775808", "b").unwrap();
    assert_eq!(
        verify_signature_at("secret", "-9223372036854775808", "b", &signature, i64::MAX),
        Ok(false)
    );
    assert_eq!(
        verify_signature_at("secret", "-9223372036854775808", "b", &signature, i64::MIN + 300),
        Ok(true)
    );
}

#[test]
fn wrong_signature_is_rejected() {
    let now = 1_700_000_000i64;
    let timestamp = now.to_string();
    let good = sign("secret", &timestamp, "body").unwrap();
    let at = |body: &str, signature: &str| {
        verify_signature_at("secret", &timestamp, body, signature, now)
    };
    assert_eq!(at("body", &good), Ok(true));
    assert_eq!(at("body2", &good), Ok(false));
    assert_eq!(at("body", &good.to_uppercase()), Ok(false));
    assert_eq!(at("body", &good[..63]), Ok(false));
    assert_eq!(at("body", &format!("{}0", good)), Ok(false));
    assert_eq!(at("body", ""), Ok(false));
    assert_eq!(at("body", "sha256="), Ok(false));
    assert_eq!(at("body", &format!("sha1={}", good)), Ok(false));
    assert_eq!(at("body", &format!("sha256=sha256={}", good)), Ok(false));
    assert_eq!(at("body", &format!("SHA256={}", good)), Ok(false));
    assert_eq!(at("body", &format!(" {}", good)), Ok(false));
}

#[test]
fn the_timestamp_is_signed_as_it_was_sent() {
    let now = 1000i64;
    let signed_plain = sign("secret", "1000", "body").unwrap();
    let signed_plus = sign("secret", "+1000", "body").unwrap();
    assert_ne!(signed_plain, signed_plus);
    assert_eq!(verify_signature_at("secret", "+1000", "body", &signed_plus, now), Ok(true));
    assert_eq!(verify_signature_at("secret", "+1000", "body", &signed_plain, now), Ok(false));
}

#[test]
fn unparseable_timestamp_is_an_error() {
    for timestamp in ["", "abc", "12.5", "1e9", " 1", "9223372036854775808"] {
        assert_eq!(
            verify_signature_at("secret", timestamp, "body", "sig", 0),
            Err(SignatureError::InvalidTimestamp)
        );
        assert_eq!(
            verify_signature("secret", timestamp, "body", "sig"),
            Err(SignatureError::InvalidTimestamp)
        );
    }
    assert_eq!(SignatureError::InvalidTimestamp.message(), "Invalid timestamp");
}

#[test]
fn empty_key_is_an_error_for_a_fresh_timestamp() {
    assert_eq!(verify_signature_at("", "1000", "body", "sig", 1000), Err(SignatureError::EmptyKey));
    // a stale timestamp is rejected before the key is looked at
    assert_eq!(verify_signature_at("", "1000", "body", "sig", 5000), Ok(false));
    // a bad timestamp is reported before the key
    assert_eq!(
        verify_signature_at("", "x", "body", "sig", 5000),
        Err(SignatureError::InvalidTimestamp)
    );
    assert_eq!(SignatureError::EmptyKey.message(), "Invalid key: empty");
}

#[test]
fn verify_signature_uses_the_current_time() {
    let now = chrono::Utc::now().timestamp();
    let body = "{}";
    for (offset, expected) in [(0i64, true), (-250, true), (250, true), (-400, false), (400, false)]
    {
        let timestamp = (now + offset).to_string();
        let signature = sign("secret", &timestamp, body).unwrap();
        assert_eq!(verify_signature("secret", &timestamp, body, &signature), Ok(expected));
    }
}

#[test]
fn constant_time_eq_is_equality() {
    assert!(constant_time_eq(b"", b""));
    assert!(constant_time_eq(b"abc", b"abc"));
    assert!(!constant_time_eq(b"abc", b"abd"));
    assert!(!constant_time_eq(b"abc", b"xbc"));
    assert!(!constant_time_eq(b"abc", b"ab"));
    assert!(!constant_time_eq(b"\x00", b"\x80"));
    assert!(!constant_time_eq(b"\x01\x02", b"\x02\x01"));
}

#[test]
fn hex_encode_is_lowercase_two_digits_per_byte() {
    assert_eq!(hex_encode(&[]), "");
    assert_eq!(hex_encode(&[0x00]), "00");
    assert_eq!(hex_encode(&[0x0f, 0xf0, 0xa5]), "0ff0a5");
    assert_eq!(hex_encode(&[0x5b, 0xdc, 0xc1, 0x46]), "5bdcc146");
    assert_eq!(hex_encode(b"Hello world!"), "48656c6c6f20776f726c6421");
    let all: Vec<u8> = (0..=255u8).collect();
    assert_eq!(hex_encode(&all), hex::encode(&all));
}
