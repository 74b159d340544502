use base64::Engine;
use ed25519_dalek::Signer;
use mochios_developer_ca::token::{
    accept_claims, issue, signing_message, validate_claims, verify, Claims, TokenError,
    TOKEN_PREFIX,
};
use serde_json::Value;

fn url_base64(data: &[u8]) -> String {
    base64::engine::general_purpose::URL_SAFE_NO_PAD.encode(data)
}

fn public_key(seed: &[u8; 32]) -> [u8; 32] {
    ed25519_dalek::SigningKey::from_bytes(seed).verifying_key().to_bytes()
}


const SEED: [u8; 32] = [7; 32];

fn claims() -> Claims {
    Claims {
        iss: "console.mochios.org".into(),
        sub: "018f0000-0000-7000-8000-000000000001".into(),
        aud: "developer-ca-admin".into(),
        iat: 100,
        exp: 160,
        jti: "test-jti-1".into(),
        role: "developer_ca_reviewer".into(),
        act: Some("mochios-console".into()),
        client_id: None,
        scope: None,
        session_id: None,
    }
}

fn payload_of(claims: &Claims) -> Vec<u8> {
    let mut object = serde_json::Map::new();
    object.insert("iss".into(), Value::from(claims.iss.clone()));
    object.insert("sub".into(), Value::from(claims.sub.clone()));
    object.insert("aud".into(), Value::from(claims.aud.clone()));
    object.insert("iat".into(), Value::from(claims.iat));
    object.insert("exp".into(), Value::from(claims.exp));
    object.insert("jti".into(), Value::from(claims.jti.clone()));
    object.insert("role".into(), Value::from(claims.role.clone()));
    for (name, value) in [
        ("act", &claims.act),
        ("client_id", &claims.client_id),
        ("scope", &claims.scope),
        ("session_id", &claims.session_id),
    ] {
        if let Some(value) = value {
            object.insert(name.into(), Value::from(value.clone()));
        }
    }
    serde_json::to_vec(&Value::Object(object)).expect("serialize claims")
}

fn claims_of(payload: &[u8]) -> Option<Claims> {
    let value: Value = serde_json::from_slice(payload).ok()?;
    let object = value.as_object()?;
    let known = ["iss", "sub", "aud", "iat", "exp", "jti", "role", "act", "client_id", "scope", "session_id"];
    if object.keys().any(|key| !known.contains(&key.as_str())) {
        return None;
    }
    let text = |name: &str| object.get(name).and_then(Value::as_str).map(str::to_owned);
    let optional = |name: &str| match object.get(name) {
        None | Some(Value::Null) => Some(None),
        Some(Value::String(value)) => Some(Some(value.clone())),
        Some(_) => None,
    };
    Some(Claims {
        iss: text("iss")?,
        sub: text("sub")?,
        aud: text("aud")?,
        iat: object.get("iat")?.as_u64()?,
        exp: object.get("exp")?.as_u64()?,
        jti: text("jti")?,
        role: text("role")?,
        act: optional("act")?,
        client_id: optional("client_id")?,
        scope: optional("scope")?,
        session_id: optional("session_id")?,
    })
}

fn issue_claims(claims: &Claims) -> Result<String, TokenError> {
    issue(claims, &payload_of(claims), &SEED)
}

fn verify_at(token: &str, public_key: &[u8; 32], now: u64) -> Result<Claims, TokenError> {
    let payload = verify(token, public_key)?;
    accept_claims(claims_of(&payload), now)
}

#[test]
fn signed_token_round_trips_and_rejects_tampering() {
    let public_key = public_key(&SEED);
    let token = issue_claims(&claims()).expect("issue fixture token");
    assert_eq!(verify_at(&token, &public_key, 120).expect("verify fixture token"), claims());
    let mut tampered = token.into_bytes();
    let last = tampered.len() - 1;
    tampered[last] = if tampered[last] == b'A' { b'B' } else { b'A' };
    let tampered = String::from_utf8(tampered).expect("ASCII token");
    assert_eq!(verify_at(&tampered, &public_key, 120), Err(TokenError::InvalidSignature));
}

#[test]
fn token_rejects_expiration_and_oversized_lifetime() {
    let public_key = public_key(&SEED);
    let token = issue_claims(&claims()).expect("issue fixture token");
    assert_eq!(verify_at(&token, &public_key, 160), Err(TokenError::Expired));
    let mut invalid = claims();
    invalid.exp = 1000;
    assert_eq!(issue_claims(&invalid), Err(TokenError::LifetimeTooLong));
}

#[test]
fn token_rejects_future_time_invalid_subject_and_unknown_claims() {
    let public_key = public_key(&SEED);
    let token = issue_claims(&claims()).expect("issue fixture token");
    assert_eq!(verify_at(&token, &public_key, 60), Err(TokenError::NotYetValid));
    let mut invalid = claims();
    invalid.sub = "client-supplied-actor".into();
    assert_eq!(issue_claims(&invalid), Err(TokenError::InvalidClaims));

    let mut object = serde_json::Map::new();
    object.insert("iss".into(), Value::from("console.mochios.org"));
    object.insert("sub".into(), Value::from("018f0000-0000-7000-8000-000000000001"));
    object.insert("aud".into(), Value::from("developer-ca-admin"));
    object.insert("iat".into(), Value::from(100));
    object.insert("exp".into(), Value::from(160));
    object.insert("jti".into(), Value::from("fixture"));
    object.insert("role".into(), Value::from("developer_ca_reviewer"));
    object.insert("act".into(), Value::from("mochios-console"));
    object.insert("unknown".into(), Value::from(true));
    let payload = serde_json::to_vec(&Value::Object(object)).expect("serialize fixture");
    let signature = ed25519_dalek::SigningKey::from_bytes(&SEED)
        .sign(&signing_message(&payload).expect("message"))
        .to_bytes();
    let token = format!(
        "{TOKEN_PREFIX}.{}.{}",
        url_base64(&payload),
        url_base64(&signature)
    );
    assert_eq!(verify_at(&token, &public_key, 120), Err(TokenError::InvalidClaims));
}

#[test]
fn tokens_have_three_parts_with_the_prefix() {
    let public_key = public_key(&SEED);
    let token = issue_claims(&claims()).expect("issue fixture token");
    assert!(token.starts_with("mca1."));
    assert_eq!(token.split('.').count(), 3);
    let renamed = token.replacen("mca1", "mca2", 1);
    assert_eq!(verify(&renamed, &public_key), Err(TokenError::Format));
    assert_eq!(verify(&format!("{token}.extra"), &public_key), Err(TokenError::Format));
    assert_eq!(verify("", &public_key), Err(TokenError::TooLarge));
    assert_eq!(verify(&"a".repeat(4097), &public_key), Err(TokenError::TooLarge));
}

#[test]
fn tokens_verify_only_against_the_signing_key() {
    let token = issue_claims(&claims()).expect("issue fixture token");
    let other = public_key(&[8; 32]);
    assert_eq!(verify(&token, &other), Err(TokenError::InvalidSignature));
    assert_eq!(verify(&token, &public_key(&SEED)), Ok(payload_of(&claims())));
}

#[test]
fn signing_message_frames_the_payload_after_the_domain() {
    let message = signing_message(b"abc").expect("message");
    let mut expected = b"mochios-developer-ca-delegation-v1\0".to_vec();
    expected.extend_from_slice(&3u32.to_le_bytes());
    expected.extend_from_slice(b"abc");
    assert_eq!(message, expected);
}

#[test]
fn claims_rules_cover_every_field() {
    assert_eq!(validate_claims(&claims(), 120), Ok(()));
    let mut claims_with_bad_text = claims();
    claims_with_bad_text.jti = "has space".into();
    assert_eq!(validate_claims(&claims_with_bad_text, 120), Err(TokenError::InvalidClaims));
    let mut reversed = claims();
    reversed.exp = reversed.iat;
    assert_eq!(validate_claims(&reversed, 120), Err(TokenError::InvalidClaims));
    assert_eq!(validate_claims(&claims(), 70), Ok(()));
    assert_eq!(validate_claims(&claims(), 69), Err(TokenError::NotYetValid));
    assert_eq!(accept_claims(None, 120), Err(TokenError::InvalidClaims));
    let mut long_scope = claims();
    long_scope.scope = Some("s".repeat(513));
    assert_eq!(validate_claims(&long_scope, 120), Err(TokenError::InvalidClaims));
}

#[test]
fn oversized_payloads_are_not_issued() {
    let payload = vec![b'x'; 2049];
    assert_eq!(issue(&claims(), &payload, &SEED), Err(TokenError::TooLarge));
}

#[test]
fn token_errors_describe_themselves() {
    assert_eq!(TokenError::Expired.message(), "invalid delegation token: Expired");
    assert_eq!(TokenError::InvalidClaims.message(), "invalid delegation token: InvalidClaims");
}

#[test]
fn issued_tokens_are_accepted_from_thirty_seconds_early_until_expiry() {
    let public_key = public_key(&SEED);
    let token = issue_claims(&claims()).expect("issue fixture token");
    assert_eq!(verify_at(&token, &public_key, 70), Ok(claims()));
    assert_eq!(verify_at(&token, &public_key, 159), Ok(claims()));
    assert_eq!(verify_at(&token, &public_key, 69), Err(TokenError::NotYetValid));
}
