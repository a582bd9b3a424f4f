//! Session token issuer.
//!
//! A token carries `{username, exp, iat, sub}` where `sub` is the fixed
//! constant identifying this system and `exp = iat + 3600`. The claims
//! are signed with a symmetric secret supplied by the surrounding
//! process; the secret is never generated or stored here. Issuance
//! fails only on key material — an empty secret is rejected before
//! signing — and never on claims content.

use vstd::prelude::*;

verus! {

use vstd::string::StringExecFns;

/// The structured payload of a session token.
pub struct Claims {
    pub username: String,
    pub exp: usize,
    pub iat: usize,
    pub sub: String,
}

/// A token could not be issued.
#[derive(Debug)]
pub struct SigningError {
    pub message: String,
}

/// Lifetime of a session token, in seconds.
pub const TOKEN_TTL_SECONDS: usize = 3600;

/// The fixed subject naming the issuing system.
pub open spec fn token_subject_spec() -> Seq<char> {
    "IoTNet"@
}

/// The fixed subject naming the issuing system.
pub fn token_subject() -> (r: &'static str)
    ensures
        r@ == token_subject_spec(),
{
    "IoTNet"
}

/// The token that signing the given claims with the given secret
/// produces; a function of its arguments alone.
pub uninterp spec fn jwt_of(
    username: Seq<char>,
    iat: u64,
    exp: u64,
    sub: Seq<char>,
    secret: Seq<char>,
) -> Seq<char>;

/// A token as this issuer produces it for `username` under `secret`:
/// signed claims whose expiry lies one TTL after the issue time.
pub open spec fn issued_token(t: Seq<char>, username: Seq<char>, secret: Seq<char>) -> bool {
    exists|iat: u64, exp: u64|
        exp == iat + TOKEN_TTL_SECONDS && t == #[trigger] jwt_of(
            username,
            iat,
            exp,
            token_subject_spec(),
            secret,
        )
}

#[verifier::external_type_specification]
#[verifier::external_body]
pub struct ExJwtError(jsonwebtoken::errors::Error);

/// Relies on `jsonwebtoken::encode` with the default header (HS256) and
/// a key built by `EncodingKey::from_secret`: the token is a
/// deterministic function of the claim fields and the secret, and this
/// call cannot fail — the key family always matches the default
/// header\'s, the HMAC signer accepts a secret of any length (the empty
/// one included), serialising the header and a string-keyed JSON object
/// cannot fail, and HMAC signing is infallible. The produced token is
/// never empty (it joins three parts with dots). The claim names are
/// the standard registered names plus `username`.
#[verifier::external_body]
fn sign_claims(username: &str, iat: u64, exp: u64, sub: &str, secret: &str) -> (r: Result<
    String,
    jsonwebtoken::errors::Error,
>)
    ensures
        r is Ok,
        r matches Ok(t) ==> t@ == jwt_of(username@, iat, exp, sub@, secret@) && t@.len() > 0,
{
    let mut claims = serde_json::Map::new();
    claims.insert("username".to_string(), serde_json::Value::String(username.to_string()));
    claims.insert("exp".to_string(), serde_json::Value::from(exp));
    claims.insert("iat".to_string(), serde_json::Value::from(iat));
    claims.insert("sub".to_string(), serde_json::Value::String(sub.to_string()));
    jsonwebtoken::encode(
        &jsonwebtoken::Header::default(),
        &serde_json::Value::Object(claims),
        &jsonwebtoken::EncodingKey::from_secret(secret.as_bytes()),
    )
}

/// Relies on the `Display` of `jsonwebtoken::errors::Error` for the
/// failure text; nothing is assumed of it.
#[verifier::external_body]
fn jwt_error_message(e: &jsonwebtoken::errors::Error) -> String {
    e.to_string()
}

/// Relies on `chrono::Utc::now`: seconds since the Unix epoch as the
/// clock reports them; nothing is assumed of the value.
#[verifier::external_body]
fn current_epoch_seconds() -> i64 {
    chrono::Utc::now().timestamp()
}

/// Build the claims for a token issued to `username` at time `now`:
/// the expiry lies exactly one TTL later, and the subject is the fixed
/// constant.
pub fn build_claims(username: &str, now: usize) -> (c: Claims)
    requires
        now + TOKEN_TTL_SECONDS <= usize::MAX,
    ensures
        c.username@ == username@,
        c.iat == now,
        c.exp == now + TOKEN_TTL_SECONDS,
        c.sub@ == token_subject_spec(),
{
    Claims {
        username: username.to_owned(),
        exp: now + TOKEN_TTL_SECONDS,
        iat: now,
        sub: token_subject().to_owned(),
    }
}

/// Issue a token to `username` as of time `now`, signed with `secret`.
/// Succeeds exactly when the secret is non-empty; an empty secret is a
/// key-material failure, and claims content never fails.
pub fn create_jwt_at(username: &str, secret: &str, now: usize) -> (r: Result<String, SigningError>)
    requires
        now + TOKEN_TTL_SECONDS <= usize::MAX,
    ensures
        r is Ok <==> secret@.len() > 0,
        r matches Ok(t) ==> t@ == jwt_of(
            username@,
            now as u64,
            (now + TOKEN_TTL_SECONDS) as u64,
            token_subject_spec(),
            secret@,
        ) && t@.len() > 0,
        r matches Err(e) ==> e.message@ == "Signing secret is empty"@,
{
    if secret.is_empty() {
        return Err(SigningError { message: String::from_str("Signing secret is empty") });
    }
    let c = build_claims(username, now);
    match sign_claims(c.username.as_str(), c.iat as u64, c.exp as u64, c.sub.as_str(), secret) {
        Ok(t) => Ok(t),
        Err(e) => Err(SigningError { message: jwt_error_message(&e) }),
    }
}

/// Issue a token to `username` for the current time, signed with
/// `secret`. Succeeds exactly when the secret is non-empty. Clock
/// readings outside the representable window are clamped before use.
pub fn create_jwt(username: &str, secret: &str) -> (r: Result<String, SigningError>)
    ensures
        r is Ok <==> secret@.len() > 0,
        r matches Ok(t) ==> issued_token(t@, username@, secret@) && t@.len() > 0,
        r matches Err(e) ==> e.message@ == "Signing secret is empty"@,
{
    let now = current_epoch_seconds();
    let now_s: usize = if now <= 0 {
        0
    } else if now >= 4000000000i64 {
        4000000000usize
    } else {
        now as usize
    };
    let r = create_jwt_at(username, secret, now_s);
    proof {
        match &r {
            Ok(t) => {
                assert(t@ == jwt_of(
                    username@,
                    now_s as u64,
                    (now_s + TOKEN_TTL_SECONDS) as u64,
                    token_subject_spec(),
                    secret@,
                ));
            },
            Err(_) => {},
        }
    }
    r
}

} // verus!
