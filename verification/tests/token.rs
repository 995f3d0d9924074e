use base64::Engine;
use cellardoor::AuthError;
use cellardoor::store::CodeItem;
use cellardoor::token::{
    Claims, mint_token, create_token, parse_auth, verify, verify_token, TOKEN_LIFETIME_SECS,
};

const SECRET: &str = "secret";

fn sample_claims(exp: i64) -> Claims {
    Claims {
        aud: "app1".to_string(),
        exp,
        scope: "profile".to_string(),
        sub: "https://user.example/".to_string(),
    }
}

fn split3(token: &str) -> (String, String, String) {
    let parts: Vec<&str> = token.split('.').collect();
    assert_eq!(parts.len(), 3, "token must have three segments");
    (parts[0].to_string(), parts[1].to_string(), parts[2].to_string())
}

#[test]
fn round_trip_before_expiry() {
    let now: i64 = 1_700_000_000;
    let claims = sample_claims(now + 500);
    let token = mint_token(&claims, SECRET);
    let got = verify_token(&token, SECRET, now).expect("fresh token must verify");
    assert_eq!(got.aud, "app1");
    assert_eq!(got.exp, now + 500);
    assert_eq!(got.scope, "profile");
    assert_eq!(got.sub, "https://user.example/");
}

#[test]
fn round_trip_fails_after_expiry() {
    let now: i64 = 1_700_000_000;
    let claims = sample_claims(now - 1);
    let token = mint_token(&claims, SECRET);
    assert_eq!(verify_token(&token, SECRET, now), Err(AuthError::InvalidToken));
}

#[test]
fn round_trip_empty_scope_and_odd_strings() {
    let now: i64 = 1_700_000_000;
    let claims = Claims {
        aud: "a \"quoted\" client \\ with backslash".to_string(),
        exp: now + 10,
        scope: String::new(),
        sub: "https://user.example/?q=1&x=\u{00e9}".to_string(),
    };
    let token = mint_token(&claims, SECRET);
    let got = verify_token(&token, SECRET, now).expect("token must verify");
    assert_eq!(got.aud, claims.aud);
    assert_eq!(got.scope, "");
    assert_eq!(got.sub, claims.sub);
}

#[test]
fn signature_tamper_is_rejected() {
    let now: i64 = 1_700_000_000;
    let token = mint_token(&sample_claims(now + 500), SECRET);
    let (h, p, s) = split3(&token);
    // Replace each signature character in turn by a different one.
    for i in 0..s.len() {
        let mut chars: Vec<char> = s.chars().collect();
        chars[i] = if chars[i] == 'A' { 'B' } else { 'A' };
        let tampered_sig: String = chars.into_iter().collect();
        let tampered = format!("{}.{}.{}", h, p, tampered_sig);
        assert_eq!(
            verify_token(&tampered, SECRET, now),
            Err(AuthError::InvalidToken),
            "tampered signature (position {}) must be rejected",
            i
        );
    }
}

#[test]
fn payload_tamper_is_rejected() {
    let now: i64 = 1_700_000_000;
    let token = mint_token(&sample_claims(now + 500), SECRET);
    let (h, p, s) = split3(&token);
    let mut chars: Vec<char> = p.chars().collect();
    chars[0] = if chars[0] == 'A' { 'B' } else { 'A' };
    let tampered_payload: String = chars.into_iter().collect();
    let tampered = format!("{}.{}.{}", h, tampered_payload, s);
    assert_eq!(verify_token(&tampered, SECRET, now), Err(AuthError::InvalidToken));
}

#[test]
fn wrong_secret_is_rejected() {
    let now: i64 = 1_700_000_000;
    let token = mint_token(&sample_claims(now + 500), SECRET);
    assert_eq!(verify_token(&token, "other", now), Err(AuthError::InvalidToken));
}

#[test]
fn garbage_tokens_are_rejected() {
    let now: i64 = 1_700_000_000;
    assert_eq!(verify_token("", SECRET, now), Err(AuthError::InvalidToken));
    assert_eq!(verify_token("abc", SECRET, now), Err(AuthError::InvalidToken));
    assert_eq!(verify_token("a.b", SECRET, now), Err(AuthError::InvalidToken));
    assert_eq!(verify_token("a.b.c", SECRET, now), Err(AuthError::InvalidToken));
}

#[test]
fn token_segments_hold_standard_header_and_claims() {
    // The minted token must be readable with the ordinary base64url and JSON
    // tools, not merely by this crate's own verifier.
    let now: i64 = 1_700_000_000;
    let claims = sample_claims(now + 500);
    let token = mint_token(&claims, SECRET);
    let (h, p, _s) = split3(&token);
    let engine = &base64::engine::general_purpose::URL_SAFE_NO_PAD;
    let header_bytes = engine.decode(h.as_bytes()).expect("header must be base64url");
    assert_eq!(header_bytes, b"{\"alg\":\"HS256\",\"typ\":\"JWT\"}");
    let payload_bytes = engine.decode(p.as_bytes()).expect("payload must be base64url");
    let payload_json = String::from_utf8(payload_bytes).expect("payload must be UTF-8");
    let expected = format!(
        "{{\"aud\":\"app1\",\"exp\":{},\"scope\":\"profile\",\"sub\":\"https://user.example/\"}}",
        now + 500
    );
    assert_eq!(payload_json, expected);
    let v: serde_json::Value = serde_json::from_str(&payload_json).expect("payload must be JSON");
    assert_eq!(v.get("aud").and_then(|x| x.as_str()), Some("app1"));
    assert_eq!(v.get("exp").and_then(|x| x.as_i64()), Some(now + 500));
    assert_eq!(v.get("scope").and_then(|x| x.as_str()), Some("profile"));
    assert_eq!(v.get("sub").and_then(|x| x.as_str()), Some("https://user.example/"));
}

#[test]
fn standard_jwt_consumer_can_decode() {
    // A stock jsonwebtoken consumer, knowing only the secret, can decode and
    // validate the minted token.
    let now: i64 = chrono::Utc::now().timestamp();
    let token = mint_token(&sample_claims(now + 500), SECRET);
    let key = jsonwebtoken::DecodingKey::from_secret(SECRET.as_bytes());
    let mut validation = jsonwebtoken::Validation::default();
    validation.set_audience(&["app1"]);
    let data = jsonwebtoken::decode::<serde_json::Value>(&token, &key, &validation)
        .expect("a standard consumer must accept the token");
    assert_eq!(data.claims.get("aud").and_then(|x| x.as_str()), Some("app1"));
    assert_eq!(data.claims.get("sub").and_then(|x| x.as_str()), Some("https://user.example/"));
}

#[test]
fn signature_char_to_dot_tamper_is_rejected() {
    // A flip that turns a signature character into a dot changes the token's
    // apparent segmentation; it must still be rejected.
    let now: i64 = 1_700_000_000;
    let token = mint_token(&sample_claims(now + 500), SECRET);
    let (h, p, s) = split3(&token);
    for i in 0..s.len() {
        let mut chars: Vec<char> = s.chars().collect();
        chars[i] = '.';
        let tampered_sig: String = chars.into_iter().collect();
        let tampered = format!("{}.{}.{}", h, p, tampered_sig);
        assert_eq!(
            verify_token(&tampered, SECRET, now),
            Err(AuthError::InvalidToken),
            "signature with a dot at position {} must be rejected",
            i
        );
    }
}

#[test]
fn signature_checks_out_with_jsonwebtoken() {
    let now: i64 = 1_700_000_000;
    let token = mint_token(&sample_claims(now + 500), SECRET);
    let (h, p, s) = split3(&token);
    let message = format!("{}.{}", h, p);
    let key = jsonwebtoken::DecodingKey::from_secret(SECRET.as_bytes());
    let ok = jsonwebtoken::crypto::verify(
        &s,
        message.as_bytes(),
        &key,
        jsonwebtoken::Algorithm::HS256,
    )
    .expect("verification must run");
    assert!(ok, "jsonwebtoken must accept the minted signature");
}

#[test]
fn create_token_sets_lifetime_from_now() {
    let now: i64 = 1_700_000_000;
    let item = CodeItem {
        redirect_uri: "https://app1/cb".to_string(),
        client_id: "app1".to_string(),
        me: "https://user.example/".to_string(),
        scope: None,
    };
    let token = create_token(&item, now, SECRET);
    let got = verify_token(&token, SECRET, now).expect("fresh token must verify");
    assert_eq!(got.exp, now + TOKEN_LIFETIME_SECS);
    assert_eq!(got.aud, "app1");
    assert_eq!(got.scope, "");
    assert_eq!(got.sub, "https://user.example/");
}

#[test]
fn parse_auth_accepts_bearer_only() {
    assert_eq!(parse_auth("Bearer abc"), Ok("abc".to_string()));
    assert_eq!(parse_auth("Bearer a b"), Ok("a b".to_string()));
    assert_eq!(parse_auth("Basic xyz"), Err(AuthError::MalformedRequest));
    assert_eq!(parse_auth("Bearer"), Err(AuthError::MalformedRequest));
    assert_eq!(parse_auth("Bearer "), Err(AuthError::MalformedRequest));
    assert_eq!(parse_auth(""), Err(AuthError::MalformedRequest));
    assert_eq!(parse_auth("bearer abc"), Err(AuthError::MalformedRequest));
}

#[test]
fn verify_rejects_basic_scheme() {
    let now: i64 = 1_700_000_000;
    assert_eq!(verify(Some("Basic xyz"), SECRET, now), Err(AuthError::MalformedRequest));
    assert_eq!(verify(None, SECRET, now), Err(AuthError::MalformedRequest));
}

#[test]
fn verify_accepts_fresh_bearer_and_rejects_expired() {
    let now: i64 = 1_700_000_000;
    let fresh = mint_token(&sample_claims(now + 500), SECRET);
    let header = format!("Bearer {}", fresh);
    let got = verify(Some(&header), SECRET, now).expect("fresh bearer must verify");
    assert_eq!(got.aud, "app1");

    let expired = mint_token(&sample_claims(now - 5000), SECRET);
    let header = format!("Bearer {}", expired);
    assert_eq!(verify(Some(&header), SECRET, now), Err(AuthError::InvalidToken));
}
