use hmac::{Hmac, Mac};
use mugunghwa::auth::logout;
use mugunghwa::base64url::{b64, b64_decode_chars};
use mugunghwa::commons::ApiError;
use mugunghwa::jwt::{sign, verify_token, TOKEN_LIFETIME_SECS};
use sha2::Sha256;

const IAT: u64 = 1_700_000_000;

fn parts(token: &str) -> Vec<String> {
    token.split('.').map(|p| p.to_string()).collect()
}

fn decode(part: &str) -> Vec<u8> {
    b64_decode_chars(&part.chars().collect()).unwrap()
}

#[test]
fn token_has_header_claims_and_hmac_signature() {
    let token = sign("123", IAT);
    let p = parts(&token);
    assert_eq!(p.len(), 3);
    assert_eq!(p[0], "eyJhbGciOiJIUzI1NiIsInR5cCI6IkpXVCJ9");
    assert_eq!(
        String::from_utf8(decode(&p[1])).unwrap(),
        r#"{"sub":"123","iat":1700000000,"exp":1700000900}"#
    );
    let mut mac = Hmac::<Sha256>::new_from_slice(b"USE_ENV_ON_LIVE_PLS").unwrap();
    mac.update(format!("{}.{}", p[0], p[1]).as_bytes());
    let expected = mac.finalize().into_bytes().to_vec();
    assert_eq!(decode(&p[2]), expected);
    assert_eq!(p[2], b64(&expected));
}

#[test]
fn claims_escape_the_subject_as_serde_json_does() {
    let sub = "a\"b\\c\n\u{1}ü";
    let token = sign(sub, 5);
    let p = parts(&token);
    let claims = String::from_utf8(decode(&p[1])).unwrap();
    assert_eq!(claims, format!("{{\"sub\":{},\"iat\":5,\"exp\":905}}", serde_json::to_string(sub).unwrap()));
}

#[test]
fn issued_token_names_its_user_until_it_expires() {
    let token = sign("4196392960", IAT);
    assert_eq!(verify_token(&token, IAT), Some("4196392960".to_string()));
    assert_eq!(verify_token(&token, IAT + TOKEN_LIFETIME_SECS - 1), Some("4196392960".to_string()));
    assert_eq!(verify_token(&token, IAT + TOKEN_LIFETIME_SECS), None);
    assert_eq!(verify_token(&token, IAT + 10_000), None);
}

#[test]
fn odd_subjects_survive_the_round_trip() {
    for sub in ["", "a\"b\\c\n\u{1}ü", "tab\there", "✓✓✓"] {
        let token = sign(sub, IAT);
        assert_eq!(verify_token(&token, IAT + 1), Some(sub.to_string()));
    }
}

#[test]
fn tampered_tokens_are_refused() {
    let token = sign("123", IAT);
    let p = parts(&token);
    // claims of another user, old signature
    let forged_claims = b64(br#"{"sub":"1","iat":1700000000,"exp":1700000900}"#);
    assert_eq!(verify_token(&format!("{}.{}.{}", p[0], forged_claims, p[2]), IAT), None);
    // a changed signature
    let mut sig = p[2].clone();
    let last = if sig.ends_with('A') { 'B' } else { 'A' };
    sig.pop();
    sig.push(last);
    assert_eq!(verify_token(&format!("{}.{}.{}", p[0], p[1], sig), IAT), None);
    // another header
    let none_header = b64(br#"{"alg":"none","typ":"JWT"}"#);
    assert_eq!(verify_token(&format!("{}.{}.{}", none_header, p[1], p[2]), IAT), None);
    // wrong shapes
    assert_eq!(verify_token("", IAT), None);
    assert_eq!(verify_token("abc", IAT), None);
    assert_eq!(verify_token(&format!("{}.{}", p[0], p[1]), IAT), None);
    assert_eq!(verify_token(&format!("{}.x", token), IAT), None);
}

#[test]
fn token_signed_with_another_key_is_refused() {
    let token = sign("123", IAT);
    let p = parts(&token);
    let mut mac = Hmac::<Sha256>::new_from_slice(b"another secret").unwrap();
    mac.update(format!("{}.{}", p[0], p[1]).as_bytes());
    let sig = b64(&mac.finalize().into_bytes());
    assert_eq!(verify_token(&format!("{}.{}.{}", p[0], p[1], sig), IAT), None);
}

#[test]
fn logout_reads_the_bearer_token() {
    let token = sign("42", IAT);
    let header = format!("Bearer {}", token);
    assert_eq!(logout(Some(&header), IAT + 100), Ok("42".to_string()));
    assert_eq!(logout(Some(&header), IAT + TOKEN_LIFETIME_SECS), Err(ApiError::InvalidToken));
    assert_eq!(logout(None, IAT), Err(ApiError::InvalidToken));
    assert_eq!(logout(Some(&token), IAT), Err(ApiError::InvalidToken));
    assert_eq!(logout(Some(&format!("Basic {}", token)), IAT), Err(ApiError::InvalidToken));
    assert_eq!(logout(Some("Bearer "), IAT), Err(ApiError::InvalidToken));
    assert_eq!(ApiError::InvalidToken.status(), 401);
}
