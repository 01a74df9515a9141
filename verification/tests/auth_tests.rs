use base64::Engine;
use ed25519_dalek::{Signer, SigningKey};
use fplx::auth::{
    auth_mode, authenticate, bearer_token, issue_token, issue_nonce, public_key_bytes, signature_bytes, token_claims, verify_wallet_signature,
    AuthError, AuthMode, VerifyRequest,
};

fn signed_request(nonce: &str) -> VerifyRequest {
    let key = SigningKey::from_bytes(&[7u8; 32]);
    let wallet = bs58::encode(key.verifying_key().to_bytes()).into_string();
    let signature = base64::engine::general_purpose::STANDARD.encode(key.sign(nonce.as_bytes()).to_bytes());
    VerifyRequest { wallet, signature }
}

#[test]
fn nonces_are_32_alphanumerics() {
    let n = issue_nonce().nonce;
    assert_eq!(n.len(), 32);
    assert!(n.chars().all(|c| c.is_ascii_alphanumeric()));
}

#[test]
fn genuine_signature_is_accepted() {
    let req = signed_request("abc123");
    assert!(verify_wallet_signature(&req, "abc123") == Ok(()));
}

#[test]
fn signature_of_other_nonce_is_refused() {
    let req = signed_request("abc123");
    assert!(verify_wallet_signature(&req, "abc124") == Err(AuthError::VerificationFailed));
}

#[test]
fn malformed_wallet_and_signature() {
    let good = signed_request("n");
    let bad_address = VerifyRequest { wallet: "0OIl".to_string(), signature: good.signature.clone() };
    assert!(verify_wallet_signature(&bad_address, "n") == Err(AuthError::InvalidAddress));
    let short_key = VerifyRequest { wallet: bs58::encode([1u8; 31]).into_string(), signature: good.signature.clone() };
    assert!(verify_wallet_signature(&short_key, "n") == Err(AuthError::InvalidPublicKeyLength));
    let bad_sig = VerifyRequest { wallet: good.wallet.clone(), signature: "***".to_string() };
    assert!(verify_wallet_signature(&bad_sig, "n") == Err(AuthError::InvalidSignatureEncoding));
    let short_sig = VerifyRequest {
        wallet: good.wallet.clone(),
        signature: base64::engine::general_purpose::STANDARD.encode([0u8; 63]),
    };
    assert!(verify_wallet_signature(&short_sig, "n") == Err(AuthError::InvalidSignatureLength));
}

#[test]
fn invalid_curve_point_is_refused() {
    // y = 2 is not the y-coordinate of any point on edwards25519.
    let mut bytes = [0u8; 32];
    bytes[0] = 2;
    let good = signed_request("n");
    let req = VerifyRequest { wallet: bs58::encode(bytes).into_string(), signature: good.signature };
    assert!(verify_wallet_signature(&req, "n") == Err(AuthError::InvalidPublicKey));
}

#[test]
fn decoded_lengths_are_checked() {
    assert!(public_key_bytes(None) == Err(AuthError::InvalidAddress));
    assert!(public_key_bytes(Some(vec![0; 33])) == Err(AuthError::InvalidPublicKeyLength));
    assert!(public_key_bytes(Some(vec![9; 32])) == Ok(vec![9; 32]));
    assert!(signature_bytes(None) == Err(AuthError::InvalidSignatureEncoding));
    assert!(signature_bytes(Some(vec![0; 65])) == Err(AuthError::InvalidSignatureLength));
    assert!(signature_bytes(Some(vec![1; 64])) == Ok(vec![1; 64]));
}

#[test]
fn claims_expire_after_a_day() {
    let c = token_claims("wallet1".to_string(), 1_700_000_000);
    assert_eq!(c.sub, "wallet1");
    assert_eq!(c.exp, 1_700_086_400);
}

#[test]
fn bearer_header_is_parsed() {
    assert!(bearer_token(None) == Err(AuthError::NoToken));
    assert!(bearer_token(Some("Token abc".to_string())) == Err(AuthError::InvalidTokenFormat));
    assert!(bearer_token(Some("bearer abc".to_string())) == Err(AuthError::InvalidTokenFormat));
    assert!(bearer_token(Some("Bearer abc.def".to_string())) == Ok("abc.def".to_string()));
    assert!(bearer_token(Some("Bearer ".to_string())) == Ok(String::new()));
}

#[test]
fn dev_mode_only_when_exactly_true() {
    assert!(matches!(auth_mode(None, None), AuthMode::Token));
    assert!(matches!(auth_mode(Some("TRUE".to_string()), None), AuthMode::Token));
    match auth_mode(Some("true".to_string()), None) {
        AuthMode::Dev { wallet } => assert_eq!(wallet, "dev_wallet"),
        AuthMode::Token => panic!("expected dev mode"),
    }
    match auth_mode(Some("true".to_string()), Some("w9".to_string())) {
        AuthMode::Dev { wallet } => assert_eq!(wallet, "w9"),
        AuthMode::Token => panic!("expected dev mode"),
    }
}

fn token(claims: &[(&str, serde_json::Value)], key: &[u8]) -> Option<String> {
    let mut m = serde_json::Map::new();
    for (k, v) in claims {
        m.insert(k.to_string(), v.clone());
    }
    let header = jsonwebtoken::Header::default();
    let claims = serde_json::Value::Object(m);
    Some(format!(
        "Bearer {}",
        jsonwebtoken::encode(&header, &claims, &jsonwebtoken::EncodingKey::from_secret(key)).unwrap()
    ))
}

fn wallet_token(exp: u64, key: &[u8]) -> Option<String> {
    token(
        &[("sub", serde_json::Value::String("wallet-1".to_string())), ("exp", serde_json::Value::from(exp))],
        key,
    )
}

#[test]
fn token_names_its_wallet_until_a_minute_after_expiry() {
    let key = b"test-key";
    assert_eq!(authenticate(wallet_token(1000, key), key, 500).ok().unwrap(), "wallet-1");
    assert_eq!(authenticate(wallet_token(1000, key), key, 1060).ok().unwrap(), "wallet-1");
    assert!(authenticate(wallet_token(1000, key), key, 1061) == Err(AuthError::TokenExpired));
}

#[test]
fn token_refusals() {
    let key = b"test-key";
    assert!(authenticate(None, key, 0) == Err(AuthError::NoToken));
    assert!(authenticate(Some("Token abc".to_string()), key, 0) == Err(AuthError::InvalidTokenFormat));
    assert!(authenticate(Some("Bearer abc".to_string()), key, 0) == Err(AuthError::InvalidToken));
    assert!(authenticate(wallet_token(1000, b"other-key"), key, 0) == Err(AuthError::InvalidTokenSignature));
    let no_sub = token(&[("exp", serde_json::Value::from(1000u64))], key);
    assert!(authenticate(no_sub, key, 0) == Err(AuthError::Unauthorized));
    let no_exp = token(&[("sub", serde_json::Value::String("w".to_string()))], key);
    assert!(authenticate(no_exp, key, 0) == Err(AuthError::Unauthorized));
}

#[test]
fn expiry_is_checked_before_the_audience() {
    let key = b"test-key";
    let claims = [
        ("sub", serde_json::Value::String("wallet-1".to_string())),
        ("exp", serde_json::Value::from(1000u64)),
        ("aud", serde_json::Value::String("someone".to_string())),
    ];
    assert!(authenticate(token(&claims, key), key, 2000) == Err(AuthError::TokenExpired));
    assert!(authenticate(token(&claims, key), key, 500) == Err(AuthError::Unauthorized));
}

#[test]
fn issued_tokens_authenticate() {
    let key = b"login-key";
    let t = issue_token("wallet-9".to_string(), 1_000, key);
    let header = Some(format!("Bearer {}", t));
    assert_eq!(authenticate(header.clone(), key, 1_000).ok().unwrap(), "wallet-9");
    assert_eq!(authenticate(header.clone(), key, 1_000 + 86_400 + 60).ok().unwrap(), "wallet-9");
    assert!(authenticate(header.clone(), key, 1_000 + 86_400 + 61) == Err(AuthError::TokenExpired));
    assert!(authenticate(header, b"other", 1_000) == Err(AuthError::InvalidTokenSignature));
}
