//! Bearer tokens: signed, self-contained assertions of user identity.
//!
//! A token carries the user id (rendered in decimal) as its subject and an
//! absolute Unix-seconds expiry 24 hours after issuance. Signing and
//! signature checking are done by the `jsonwebtoken` crate (HS256 over a
//! server-held secret); the expiry comparison is done here, against a caller
//! supplied clock reading, so that it is verified.

use vstd::prelude::*;

use crate::digits::dec_str;
use crate::errors::AppError;

verus! {

/// The claim set carried by a token: subject (a user id in decimal) and
/// absolute expiry in Unix seconds.
#[derive(Debug)]
pub struct Claims {
    pub sub: String,
    pub exp: u64,
}

/// Seconds a token stays valid after issuance.
pub const TOKEN_LIFETIME: u64 = 86400;

/// The claim set that a token decodes to under a given secret: `None` when
/// the token is malformed or its signature does not check out, otherwise the
/// subject and expiry. What this is on given values only the signing scheme
/// determines; the trusted items below state the two facts relied on.
pub uninterp spec fn jwt_claims_of(token: Seq<char>, secret: Seq<u8>) -> Option<(Seq<char>, u64)>;

/// The expiry stamped on a token issued at `now`: 24 hours later, saturating
/// at the top of the range.
pub open spec fn token_expiry(now: u64) -> u64 {
    if now <= u64::MAX - TOKEN_LIFETIME {
        (now + TOKEN_LIFETIME) as u64
    } else {
        u64::MAX
    }
}

/// A decoded claim set is accepted at instant `now` exactly when it exists
/// and `now` is strictly before its expiry.
pub open spec fn token_accepted(claims: Option<(Seq<char>, u64)>, now: u64) -> bool {
    claims matches Some(c) && now < c.1
}

/// Relies on jsonwebtoken::encode with the default header (HS256) and an
/// HMAC key built by EncodingKey::from_secret: the result is a non-empty
/// compact JWT that, decoded under the same secret, yields exactly the
/// subject and expiry given (the crate's documented encode/decode round
/// trip). The call cannot fail for this fixed shape: the key family matches
/// the header's algorithm, an HMAC key of any length is accepted, JSON
/// serialization of a string-and-integer claim object is infallible, and
/// HMAC signing never errors. Assumes the process leaves the crate's
/// feature-selected crypto provider in place; nothing here installs another.
#[verifier::external_body]
fn jwt_encode(sub: &str, exp: u64, secret: &[u8]) -> (r: Option<String>)
    ensures
        r is Some,
        r matches Some(t) ==> jwt_claims_of(t@, secret@) == Some((sub@, exp)) && t@.len() > 0,
{
    let mut claims = serde_json::Map::new();
    claims.insert("sub".to_string(), serde_json::Value::String(sub.to_string()));
    claims.insert("exp".to_string(), serde_json::Value::from(exp));
    let key = jsonwebtoken::EncodingKey::from_secret(secret);
    jsonwebtoken::encode(&jsonwebtoken::Header::default(), &serde_json::Value::Object(claims), &key)
        .ok()
}

/// Relies on jsonwebtoken::decode::<serde_json::Value> with HS256 and a key
/// built by DecodingKey::from_secret: the signature is checked, expiry
/// checking is switched off (the caller compares against its own clock), and
/// the result is a function of token and secret alone. `None` is a token
/// that is malformed, carries another algorithm, fails the signature check,
/// or lacks a string `sub` or integer `exp` claim. Assumes the process
/// leaves the crate's feature-selected crypto provider in place; nothing
/// here installs another.
#[verifier::external_body]
fn jwt_decode(token: &str, secret: &[u8]) -> (r: Option<(String, u64)>)
    ensures
        r matches Some(p) ==> jwt_claims_of(token@, secret@) == Some((p.0@, p.1)),
        r is None ==> jwt_claims_of(token@, secret@) is None,
{
    let key = jsonwebtoken::DecodingKey::from_secret(secret);
    let mut validation = jsonwebtoken::Validation::new(jsonwebtoken::Algorithm::HS256);
    validation.validate_exp = false;
    validation.required_spec_claims = std::collections::HashSet::new();
    let data = match jsonwebtoken::decode::<serde_json::Value>(token, &key, &validation) {
        Ok(d) => d,
        Err(_) => return None,
    };
    let sub = data.claims.get("sub").and_then(|v| v.as_str());
    let exp = data.claims.get("exp").and_then(|v| v.as_u64());
    match (sub, exp) {
        (Some(s), Some(e)) => Some((s.to_string(), e)),
        _ => None,
    }
}

/// Issues a token for `user_id` at instant `now`: subject is the id in
/// decimal, expiry 24 hours later. Signing an HS256 token cannot fail, so
/// the call always succeeds; the `Result` shape is kept for the service
/// interface.
pub fn encode_token(user_id: i32, now: u64, secret: &[u8]) -> (r: Result<String, AppError>)
    requires
        0 <= user_id,
    ensures
        r is Ok,
        r matches Ok(t) ==> jwt_claims_of(t@, secret@) == Some(
            (dec_str(user_id as nat), token_expiry(now)),
        ) && t@.len() > 0,
{
    let sub = crate::digits::u64_to_dec(user_id as u64);
    let exp: u64 = if now <= u64::MAX - TOKEN_LIFETIME {
        now + TOKEN_LIFETIME
    } else {
        u64::MAX
    };
    match jwt_encode(sub.as_str(), exp, secret) {
        Some(t) => Ok(t),
        None => Err(AppError::HashingFailure),
    }
}

/// Checks a presented token at instant `now`: rejects one that does not
/// decode under `secret` as `InvalidToken`, one whose expiry has been
/// reached as `TokenExpired`, and otherwise returns the claims it carries.
pub fn verify_token(token: &str, now: u64, secret: &[u8]) -> (r: Result<Claims, AppError>)
    ensures
        r is Ok <==> token_accepted(jwt_claims_of(token@, secret@), now),
        r matches Ok(c) ==> jwt_claims_of(token@, secret@) == Some((c.sub@, c.exp)) && now
            < c.exp,
        jwt_claims_of(token@, secret@) is None ==> (r matches Err(e) && e is InvalidToken),
        (jwt_claims_of(token@, secret@) matches Some(c) && c.1 <= now) ==> (r matches Err(e)
            && e is TokenExpired),
{
    match jwt_decode(token, secret) {
        None => Err(AppError::InvalidToken),
        Some((sub, exp)) => {
            if now < exp {
                Ok(Claims { sub, exp })
            } else {
                Err(AppError::TokenExpired)
            }
        },
    }
}

/// The 24-hour expiry window: a token issued at instant `issued` (so carrying
/// expiry `token_expiry(issued)`, as `encode_token` ensures) is still
/// accepted one hour after issuance and no longer accepted 25 hours after
/// issuance. By `verify_token`'s contract, acceptance is exactly a result of
/// `Ok`.
pub proof fn lemma_token_expiry_window(token: Seq<char>, secret: Seq<u8>, sub: Seq<char>, issued: u64)
    requires
        jwt_claims_of(token, secret) == Some((sub, token_expiry(issued))),
        issued + 25 * 3600 <= u64::MAX,
    ensures
        token_accepted(jwt_claims_of(token, secret), (issued + 3600) as u64),
        !token_accepted(jwt_claims_of(token, secret), (issued + 25 * 3600) as u64),
{
}

} // verus!
