use account_auth::token::create_jwt_at;
use account_auth::create_jwt;

fn decode_claims(token: &str, secret: &[u8]) -> serde_json::Value {
    let mut validation = jsonwebtoken::Validation::new(jsonwebtoken::Algorithm::HS256);
    validation.validate_exp = false;
    validation.required_spec_claims.clear();
    jsonwebtoken::decode::<serde_json::Value>(
        token,
        &jsonwebtoken::DecodingKey::from_secret(secret),
        &validation,
    )
    .expect("token must verify")
    .claims
}

#[test]
fn token_at_fixed_time_has_exact_claims() {
    let token = create_jwt_at("dave", "topsecret", 1700000000).unwrap();
    let claims = decode_claims(&token, b"topsecret");
    assert_eq!(claims.get("username").unwrap().as_str().unwrap(), "dave");
    assert_eq!(claims.get("sub").unwrap().as_str().unwrap(), "IoTNet");
    assert_eq!(claims.get("iat").unwrap().as_u64().unwrap(), 1700000000);
    assert_eq!(claims.get("exp").unwrap().as_u64().unwrap(), 1700003600);
}

#[test]
fn token_is_deterministic_in_claims_and_secret() {
    let t1 = create_jwt_at("dave", "topsecret", 1700000000).unwrap();
    let t2 = create_jwt_at("dave", "topsecret", 1700000000).unwrap();
    assert_eq!(t1, t2);
    let t3 = create_jwt_at("dave", "othersecret", 1700000000).unwrap();
    assert_ne!(t1, t3);
}

#[test]
fn token_rejects_wrong_secret() {
    let token = create_jwt_at("dave", "topsecret", 1700000000).unwrap();
    let mut validation = jsonwebtoken::Validation::new(jsonwebtoken::Algorithm::HS256);
    validation.validate_exp = false;
    validation.required_spec_claims.clear();
    let res = jsonwebtoken::decode::<serde_json::Value>(
        &token,
        &jsonwebtoken::DecodingKey::from_secret(b"wrong"),
        &validation,
    );
    assert!(res.is_err());
}

#[test]
fn empty_secret_is_a_signing_error() {
    let err = create_jwt_at("dave", "", 1700000000).unwrap_err();
    assert_eq!(err.message, "Signing secret is empty");
    let err = create_jwt("dave", "").unwrap_err();
    assert_eq!(err.message, "Signing secret is empty");
}

#[test]
fn any_nonempty_secret_signs() {
    for secret in ["x", "s3cret", "a-much-longer-secret-with-plenty-of-bytes"] {
        let token = create_jwt_at("dave", secret, 1700000000).expect("signing must succeed");
        assert!(!token.is_empty());
    }
}

#[test]
fn token_for_current_time_expires_one_hour_later() {
    let token = create_jwt("erin", "s").unwrap();
    let claims = decode_claims(&token, b"s");
    let iat = claims.get("iat").unwrap().as_u64().unwrap();
    let exp = claims.get("exp").unwrap().as_u64().unwrap();
    assert_eq!(exp - iat, 3600);
    assert!(iat > 1500000000, "issue time must come from the clock");
}
