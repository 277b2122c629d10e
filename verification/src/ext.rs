//! The boundary to the outside crates: broadcast channels, password hashing,
//! token minting and checking, identifier generation, the clock, and email
//! syntax. Each item here is trusted; everything that interprets the values
//! these calls return is verified elsewhere.

use vstd::prelude::*;

use crate::wire::WebSocketMessage;

verus! {

#[verifier::external_type_specification]
#[verifier::external_body]
#[verifier::reject_recursive_types(T)]
pub struct ExBroadcastSender<T>(tokio::sync::broadcast::Sender<T>);

#[verifier::external_type_specification]
#[verifier::external_body]
#[verifier::reject_recursive_types(T)]
pub struct ExBroadcastReceiver<T>(tokio::sync::broadcast::Receiver<T>);

/// Relies on tokio::sync::broadcast::channel, which panics when the capacity
/// is 0 or exceeds half the usize range.
#[verifier::external_body]
pub(crate) fn frame_channel(capacity: usize) -> (r: (
    tokio::sync::broadcast::Sender<WebSocketMessage>,
    tokio::sync::broadcast::Receiver<WebSocketMessage>,
))
    requires
        1 <= capacity <= usize::MAX / 2,
{
    tokio::sync::broadcast::channel(capacity)
}

/// Relies on tokio::sync::broadcast::Sender::send: publishes once to every
/// current subscriber; whether anyone was listening is runtime state, so
/// nothing is promised of the result.
#[verifier::external_body]
pub(crate) fn frame_send(
    sender: &tokio::sync::broadcast::Sender<WebSocketMessage>,
    message: WebSocketMessage,
) -> (r: bool) {
    sender.send(message).is_ok()
}

/// Relies on tokio::sync::broadcast::Sender::subscribe: the receiver observes
/// messages sent after this call, which is runtime state.
#[verifier::external_body]
pub(crate) fn frame_subscribe(
    sender: &tokio::sync::broadcast::Sender<WebSocketMessage>,
) -> (r: tokio::sync::broadcast::Receiver<WebSocketMessage>) {
    sender.subscribe()
}

/// Relies on tokio::sync::broadcast::Sender::clone: the clone is another
/// handle to the same channel, so it stands for the same value.
#[verifier::external_body]
pub(crate) fn clone_sender(
    sender: &tokio::sync::broadcast::Sender<WebSocketMessage>,
) -> (r: tokio::sync::broadcast::Sender<WebSocketMessage>)
    ensures
        r == *sender,
{
    sender.clone()
}

/// Whether bcrypt::verify(password, hash) returns Ok(true); a function of the
/// two arguments alone.
pub uninterp spec fn bcrypt_matches(password: Seq<char>, hash: Seq<char>) -> bool;

/// Relies on bcrypt::hash with the default cost: every hash it produces
/// verifies against the password it was derived from.
#[verifier::external_body]
pub(crate) fn bcrypt_hash_password(password: &str) -> (r: Option<String>)
    ensures
        r matches Some(h) ==> bcrypt_matches(password@, h@),
{
    bcrypt::hash(password, bcrypt::DEFAULT_COST).ok()
}

/// Relies on bcrypt::verify, deterministic in password and hash; a malformed
/// hash verifies as false.
#[verifier::external_body]
pub(crate) fn bcrypt_verify_password(password: &str, hash: &str) -> (r: bool)
    ensures
        r == bcrypt_matches(password@, hash@),
{
    bcrypt::verify(password, hash).unwrap_or(false)
}

/// The HS256 token jsonwebtoken::encode mints for claims {sub, exp} under the
/// given secret; a function of the three arguments alone.
pub uninterp spec fn jwt_token_of(sub: Seq<char>, exp: u64, secret: Seq<u8>) -> Seq<char>;

/// Relies on jsonwebtoken::encode with a default (HS256) header: HMAC
/// signing of a {sub, exp} object cannot fail, so a token always comes
/// back, and decoding it under the same secret recovers the two claims.
#[verifier::external_body]
pub(crate) fn jwt_encode(sub: &String, exp: u64, secret: &[u8]) -> (r: Option<String>)
    ensures
        r is Some,
        r matches Some(t) ==> t@ == jwt_token_of(sub@, exp, secret@) && jwt_claims_of(
            t@,
            secret@,
        ) == Some((sub@, exp)),
{
    let mut claims = serde_json::Map::new();
    claims.insert("sub".to_string(), serde_json::Value::String(sub.clone()));
    claims.insert("exp".to_string(), serde_json::Value::from(exp));
    jsonwebtoken::encode(
        &jsonwebtoken::Header::default(),
        &serde_json::Value::Object(claims),
        &jsonwebtoken::EncodingKey::from_secret(secret),
    ).ok()
}

/// The {sub, exp} claims jsonwebtoken::decode recovers from a token under the
/// given secret with signature checking alone (no expiry check, which would
/// depend on the clock); None when the token or its signature is invalid or
/// the two claims are absent. A function of the two arguments alone.
pub uninterp spec fn jwt_claims_of(token: Seq<char>, secret: Seq<u8>) -> Option<(Seq<char>, u64)>;

/// Relies on jsonwebtoken::decode with HS256 and expiry validation turned
/// off; the expiry is checked against an explicit clock by verified code.
/// Besides the signature, decode also rejects a token that carries an
/// audience claim, since none is expected here.
#[verifier::external_body]
pub(crate) fn jwt_decode(token: &str, secret: &[u8]) -> (r: Option<(String, u64)>)
    ensures
        r is Some == jwt_claims_of(token@, secret@) is Some,
        r matches Some(c) ==> jwt_claims_of(token@, secret@) == Some((c.0@, c.1)),
{
    let mut validation = jsonwebtoken::Validation::new(jsonwebtoken::Algorithm::HS256);
    validation.validate_exp = false;
    validation.required_spec_claims.clear();
    let data = jsonwebtoken::decode::<serde_json::Value>(
        token,
        &jsonwebtoken::DecodingKey::from_secret(secret),
        &validation,
    ).ok()?;
    let sub = data.claims.get("sub")?.as_str()?.to_string();
    let exp = data.claims.get("exp")?.as_u64()?;
    Some((sub, exp))
}

/// The lowercase hyphenated rendering of a 128-bit identifier; a function of
/// the identifier alone.
pub uninterp spec fn uuid_str_of(id: u128) -> Seq<char>;

/// Relies on uuid::Uuid::hyphenated: renders the identifier as lowercase hex
/// with dashes, and uuid::Uuid::parse_str recovers the identifier from that
/// rendering.
#[verifier::external_body]
pub(crate) fn uuid_hyphenated(id: u128) -> (r: String)
    ensures
        r@ == uuid_str_of(id),
        uuid_parse_of(r@) == Some(id),
{
    uuid::Uuid::from_u128(id).hyphenated().to_string()
}

/// The identifier uuid::Uuid::parse_str recovers from a string, if any; a
/// function of the string alone.
pub uninterp spec fn uuid_parse_of(s: Seq<char>) -> Option<u128>;

/// Relies on uuid::Uuid::parse_str.
#[verifier::external_body]
pub(crate) fn uuid_parse(s: &str) -> (r: Option<u128>)
    ensures
        r == uuid_parse_of(s@),
{
    match uuid::Uuid::parse_str(s) {
        Ok(u) => Some(u.as_u128()),
        Err(_) => None,
    }
}

/// Relies on uuid::Uuid::new_v4: the value is random, so nothing is promised
/// of it.
#[verifier::external_body]
pub(crate) fn random_uuid() -> (r: u128) {
    uuid::Uuid::new_v4().as_u128()
}

/// Whether validator::validate_email accepts the string; a function of the
/// string alone.
pub uninterp spec fn email_ok(s: Seq<char>) -> bool;

/// Relies on validator::validate_email.
#[verifier::external_body]
pub(crate) fn is_valid_email(s: &str) -> (r: bool)
    ensures
        r == email_ok(s@),
{
    validator::validate_email(s)
}

} // verus!
