use auth_core::b64::{base64url_decode, base64url_encode};
use auth_core::token::{decode_preauth_token, decode_session_token, mint_preauth_token, mint_session_token};

#[test]
fn base64url_known_vectors() {
    assert_eq!(base64url_encode(b"Man"), b"TWFu".to_vec());
    assert_eq!(base64url_encode(b"Ma"), b"TWE".to_vec());
    assert_eq!(base64url_encode(b"M"), b"TQ".to_vec());
    assert_eq!(base64url_encode(b""), b"".to_vec());
    assert_eq!(base64url_encode(&[0xfb, 0xff, 0xfe]), b"-__-".to_vec());
}

#[test]
fn base64url_round_trip_bytes() {
    let data: Vec<u8> = (0u8..=255).collect();
    let encoded = base64url_encode(&data);
    assert_eq!(base64url_decode(&encoded), Some(data));
}

#[test]
fn base64url_rejects_padding_and_stray_bytes() {
    assert_eq!(base64url_decode(b"TWE="), None);
    assert_eq!(base64url_decode(b"TW!u"), None);
    assert_eq!(base64url_decode(b"T"), None);
}

#[test]
fn session_token_round_trip() {
    let token = mint_session_token("user-1", 1_000, 2_000, "session-secret");
    let claims = decode_session_token(&token, "session-secret", 1_500).expect("valid token");
    assert_eq!(claims.sub, "user-1");
    assert_eq!(claims.iat, 1_000);
    assert_eq!(claims.exp, 2_000);
}

#[test]
fn session_token_rejected_under_other_secret() {
    let token = mint_session_token("user-1", 1_000, 2_000, "session-secret");
    assert!(decode_session_token(&token, "another-secret", 1_500).is_none());
}

#[test]
fn expiry_boundary_is_strict() {
    let now: i64 = 50_000;
    let just_expired = mint_session_token("u", now - 600, now - 1, "s");
    assert!(decode_session_token(&just_expired, "s", now).is_none());
    let still_alive = mint_session_token("u", now - 600, now + 1, "s");
    assert!(decode_session_token(&still_alive, "s", now).is_some());
    let dies_now = mint_session_token("u", now - 600, now, "s");
    assert!(decode_session_token(&dies_now, "s", now).is_none());
}

#[test]
fn tampered_token_rejected() {
    let token = mint_session_token("user-1", 1_000, 2_000, "secret");
    let mut tampered = token.clone();
    tampered.pop();
    tampered.push('A');
    assert!(decode_session_token(&tampered, "secret", 1_500).is_none());
    assert!(decode_session_token("not-a-token", "secret", 1_500).is_none());
    assert!(decode_session_token("", "secret", 1_500).is_none());
}

#[test]
fn cross_namespace_tokens_rejected() {
    let session = mint_session_token("user-1", 1_000, 2_000, "session-secret");
    let preauth = mint_preauth_token("a@example.com", 1_000, 2_000, "hash", "preauth-secret");
    // A token from one namespace never verifies in the other, under either secret.
    assert!(decode_session_token(&preauth, "session-secret", 1_500).is_none());
    assert!(decode_session_token(&preauth, "preauth-secret", 1_500).is_none());
    assert!(decode_preauth_token(&session, "preauth-secret", 1_500).is_none());
    assert!(decode_preauth_token(&session, "session-secret", 1_500).is_none());
}

#[test]
fn preauth_token_round_trip() {
    let token = mint_preauth_token("a@example.com", 1_000, 1_300, "the-hash", "preauth-secret");
    let claims = decode_preauth_token(&token, "preauth-secret", 1_200).expect("valid token");
    assert_eq!(claims.sub, "a@example.com");
    assert_eq!(claims.iat, 1_000);
    assert_eq!(claims.exp, 1_300);
    assert_eq!(claims.hash, "the-hash");
    assert!(decode_preauth_token(&token, "preauth-secret", 1_300).is_none());
}

#[test]
fn subject_with_quotes_and_backslashes_survives() {
    let sub = "we\"ird\\sub\u{00e9}";
    let token = mint_session_token(sub, 10, 20, "secret");
    let claims = decode_session_token(&token, "secret", 15).expect("valid token");
    assert_eq!(claims.sub, sub);
}

#[test]
fn minted_token_is_a_real_jwt() {
    let token = mint_session_token("user-77", 1_000, 99_999_999_999, "interop-secret");
    let mut validation = jsonwebtoken::Validation::new(jsonwebtoken::Algorithm::HS256);
    validation.required_spec_claims.clear();
    let data = jsonwebtoken::decode::<serde_json::Value>(
        &token,
        &jsonwebtoken::DecodingKey::from_secret(b"interop-secret"),
        &validation,
    )
    .expect("the reference implementation accepts the token");
    assert_eq!(data.claims.get("sub").unwrap().as_str().unwrap(), "user-77");
    assert_eq!(data.claims.get("iat").unwrap().as_i64().unwrap(), 1_000);
    assert_eq!(data.claims.get("exp").unwrap().as_i64().unwrap(), 99_999_999_999);
    let wrong = jsonwebtoken::decode::<serde_json::Value>(
        &token,
        &jsonwebtoken::DecodingKey::from_secret(b"other-secret"),
        &validation,
    );
    assert!(wrong.is_err());
}
