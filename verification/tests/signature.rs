use hmac::{Hmac, KeyInit, Mac};
use mail_laser::webhook::{compute_signature, SIGNATURE_HEADER, TIMESTAMP_HEADER};
use sha2::Sha256;

#[test]
fn test_compute_signature_is_hex_sha256_of_timestamp_dot_body() {
    let secret = b"test-secret";
    let timestamp: u64 = 1_700_000_000;
    let body = br#"{"hello":"world"}"#;

    let got = compute_signature(secret, timestamp, body);

    let mut mac = Hmac::<Sha256>::new_from_slice(secret).unwrap();
    mac.update(timestamp.to_string().as_bytes());
    mac.update(b".");
    mac.update(body);
    let expected = hex::encode(mac.finalize().into_bytes());

    assert_eq!(got, expected);
    assert_eq!(got.len(), 64, "SHA-256 hex digest is 64 chars");
}

#[test]
fn test_compute_signature_changes_when_any_input_changes() {
    let base = compute_signature(b"secret", 100, b"body");
    assert_ne!(base, compute_signature(b"secret2", 100, b"body"));
    assert_ne!(base, compute_signature(b"secret", 101, b"body"));
    assert_ne!(base, compute_signature(b"secret", 100, b"body2"));
}

#[test]
fn test_signature_prefix_envelope_uses_sha256_scheme() {
    let hex_sig = compute_signature(b"k", 1, b"b");
    let header_value = format!("sha256={hex_sig}");
    assert!(header_value.starts_with("sha256="));
    assert_eq!(header_value.len(), "sha256=".len() + 64);
}

#[test]
fn signatures_have_known_values() {
    assert_eq!(
        compute_signature(b"test-secret", 1_700_000_000, br#"{"hello":"world"}"#),
        "f85455a1b55ea86f7a15f5f9923d0abc4b888da84ec485f2ff358f427776beca"
    );
    assert_eq!(compute_signature(b"shared-test-secret", 0, b""), "f4446d361be03f051be592f0367269f2a562efdb309d08ccd8796d25d819a5e0");
    assert_eq!(
        compute_signature("schlüssel".as_bytes(), u64::MAX, &[0xff, 0x00]),
        "7cbec96ca5da011be89b3d2b194ca4b29bf1f381bdf5e8979e41473234fcdeaa"
    );
    assert_eq!(compute_signature(&[b'x'; 100], 7, b"body"), "f26e0ec48c92e452482a33c3ed296122a7fc31b1c23a30028331c8afe0ab9afd");
}

#[test]
fn an_empty_key_is_accepted() {
    assert_eq!(compute_signature(b"", 1, b"b").len(), 64);
}

#[test]
fn signatures_are_lower_case_hexadecimal() {
    for timestamp in 0..50 {
        let signature = compute_signature(b"key", timestamp, b"body");
        assert!(signature.chars().all(|c| c.is_ascii_digit() || ('a'..='f').contains(&c)));
    }
}

#[test]
fn the_dot_keeps_time_and_body_apart() {
    assert_ne!(compute_signature(b"k", 1, b"2.x"), compute_signature(b"k", 12, b".x"));
    assert_ne!(compute_signature(b"k", 1, b"2.x"), compute_signature(b"k", 12, b"x"));
}

#[test]
fn header_names() {
    assert_eq!(SIGNATURE_HEADER, "x-maillaser-signature-256");
    assert_eq!(TIMESTAMP_HEADER, "x-maillaser-timestamp");
}
