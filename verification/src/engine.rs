use vstd::prelude::*;

use crate::value::{entries_view, ClaimData, ClaimValue};

verus! {

// The outside types that cross this library's trusted boundary.
#[verifier::external_type_specification]
#[verifier::external_body]
pub struct ExValue(serde_json::Value);

/// The token engine's builder for tokens of the version and purpose this
/// library issues, carried opaquely: its contents are the engine's affair.
#[verifier::external_body]
pub struct Builder<'a> {
    inner: rusty_paseto::prelude::PasetoBuilder<
        'a,
        rusty_paseto::core::V4,
        rusty_paseto::core::Public,
    >,
}

/// Relies on serde_json's Value::clone: a clone is the same value.
pub assume_specification[ <serde_json::Value as Clone>::clone ](
    v: &serde_json::Value,
) -> (r: serde_json::Value)
    ensures
        r == *v,
;

/// What ed25519 makes of 64 keypair bytes: the verifying-key bytes they
/// determine, or nothing when the second half does not match the key derived
/// from the first.
pub uninterp spec fn kp_public(bytes: Seq<u8>) -> Option<Seq<u8>>;

/// Relies on ed25519_dalek's SigningKey::from_keypair_bytes, which accepts
/// exactly the arrays whose second half is the verifying key derived from the
/// first half, and on verifying_key().to_bytes(), which returns that key.
#[verifier::external_body]
pub(crate) fn keypair_public(bytes: &[u8; 64]) -> (r: Result<[u8; 32], String>)
    ensures
        r is Ok <==> kp_public(bytes@) is Some,
        r is Ok ==> r.unwrap()@ == kp_public(bytes@).unwrap(),
{
    match ed25519_dalek::SigningKey::from_keypair_bytes(bytes) {
        Ok(sk) => Ok(sk.verifying_key().to_bytes()),
        Err(e) => Err(e.to_string()),
    }
}

/// Relies on rand's OsRng for the secret bytes and on ed25519_dalek's
/// SigningKey::from_bytes and to_keypair_bytes: the keypair bytes embed the
/// derived verifying key, so from_keypair_bytes accepts them and reports that
/// key.
#[verifier::external_body]
pub(crate) fn generate_keypair_bytes() -> (r: ([u8; 64], [u8; 32]))
    ensures
        kp_public(r.0@) == Some(r.1@),
{
    let mut secret = [0u8; 32];
    rand::RngCore::fill_bytes(&mut rand::rngs::OsRng, &mut secret);
    let sk = ed25519_dalek::SigningKey::from_bytes(&secret);
    let vk = sk.verifying_key();
    (sk.to_keypair_bytes(), vk.to_bytes())
}

/// Whether a string is a date in the eyes of the token engine's shared date
/// validator: an ISO 8601 parse, which the engine applies as its RFC 3339
/// shape check.
pub uninterp spec fn iso8601_valid(s: Seq<char>) -> bool;

/// Whether a carried JSON value is the JSON null value.
pub uninterp spec fn json_is_null(v: serde_json::Value) -> bool;

/// Relies on serde_json's Value::is_null: whether the value is JSON null.
#[verifier::external_body]
pub(crate) fn value_is_null(v: &serde_json::Value) -> (r: bool)
    ensures
        r == json_is_null(*v),
{
    v.is_null()
}

/// The names the token format reserves; the engine refuses them as custom
/// claim names.
pub open spec fn is_reserved_name(k: Seq<char>) -> bool {
    ||| k == "iss"@
    ||| k == "sub"@
    ||| k == "aud"@
    ||| k == "exp"@
    ||| k == "nbf"@
    ||| k == "iat"@
    ||| k == "jti"@
}

/// Relies on PasetoBuilder::default: a fresh builder (it carries the engine's
/// default time claims until ours overwrite them).
#[verifier::external_body]
pub(crate) fn engine_new_builder<'a>() -> Builder<'a> {
    Builder { inner: rusty_paseto::prelude::PasetoBuilder::default() }
}

/// Relies on IssuerClaim::from and PasetoBuilder::set_claim: records the
/// issuer claim; neither fails.
#[verifier::external_body]
pub(crate) fn engine_set_issuer<'a>(b: &mut Builder<'a>, s: &'a str) {
    b.inner.set_claim(rusty_paseto::prelude::IssuerClaim::from(s));
}

/// Relies on AudienceClaim::from and PasetoBuilder::set_claim: records the
/// audience claim; neither fails.
#[verifier::external_body]
pub(crate) fn engine_set_audience<'a>(b: &mut Builder<'a>, s: &'a str) {
    b.inner.set_claim(rusty_paseto::prelude::AudienceClaim::from(s));
}

/// Relies on SubjectClaim::from and PasetoBuilder::set_claim: records the
/// subject claim; neither fails.
#[verifier::external_body]
pub(crate) fn engine_set_subject<'a>(b: &mut Builder<'a>, s: &'a str) {
    b.inner.set_claim(rusty_paseto::prelude::SubjectClaim::from(s));
}

/// Relies on TokenIdentifierClaim::from and PasetoBuilder::set_claim: records
/// the token identifier claim; neither fails.
#[verifier::external_body]
pub(crate) fn engine_set_token_identifier<'a>(b: &mut Builder<'a>, s: &'a str) {
    b.inner.set_claim(rusty_paseto::prelude::TokenIdentifierClaim::from(s));
}

/// Relies on IssuedAtClaim::try_from, which accepts exactly the strings that
/// the engine's date validator accepts, and PasetoBuilder::set_claim.
#[verifier::external_body]
pub(crate) fn engine_set_issued_at<'a>(b: &mut Builder<'a>, s: &str) -> (r: Result<(), String>)
    ensures
        r is Ok <==> iso8601_valid(s@),
{
    match rusty_paseto::prelude::IssuedAtClaim::try_from(s) {
        Ok(c) => {
            b.inner.set_claim(c);
            Ok(())
        },
        Err(e) => Err(e.to_string()),
    }
}

/// Relies on NotBeforeClaim::try_from, which accepts exactly the strings that
/// the engine's date validator accepts, and PasetoBuilder::set_claim.
#[verifier::external_body]
pub(crate) fn engine_set_not_before<'a>(b: &mut Builder<'a>, s: &str) -> (r: Result<(), String>)
    ensures
        r is Ok <==> iso8601_valid(s@),
{
    match rusty_paseto::prelude::NotBeforeClaim::try_from(s) {
        Ok(c) => {
            b.inner.set_claim(c);
            Ok(())
        },
        Err(e) => Err(e.to_string()),
    }
}

/// Relies on ExpirationClaim::try_from, which accepts exactly the strings
/// that the engine's date validator accepts, and PasetoBuilder::set_claim.
#[verifier::external_body]
pub(crate) fn engine_set_expiration<'a>(b: &mut Builder<'a>, s: &str) -> (r: Result<(), String>)
    ensures
        r is Ok <==> iso8601_valid(s@),
{
    match rusty_paseto::prelude::ExpirationClaim::try_from(s) {
        Ok(c) => {
            b.inner.set_claim(c);
            Ok(())
        },
        Err(e) => Err(e.to_string()),
    }
}

/// Relies on CustomClaim::try_from, which fails exactly on the reserved
/// names, and PasetoBuilder::set_claim.
#[verifier::external_body]
pub(crate) fn engine_set_custom<'a>(
    b: &mut Builder<'a>,
    key: &str,
    value: &ClaimValue,
) -> (r: Result<(), String>)
    ensures
        r is Ok <==> !is_reserved_name(key@),
{
    let jv = match value {
        ClaimValue::Null => serde_json::Value::Null,
        ClaimValue::Bool(x) => serde_json::Value::Bool(*x),
        ClaimValue::Int(x) => serde_json::Value::from(*x),
        ClaimValue::Str(x) => serde_json::Value::String(x.clone()),
        ClaimValue::Composite(x) => x.clone(),
    };
    match rusty_paseto::prelude::CustomClaim::try_from((key, jv)) {
        Ok(c) => {
            b.inner.set_claim(c);
            Ok(())
        },
        Err(e) => Err(e.to_string()),
    }
}

/// Relies on PasetoBuilder::build with an asymmetric private key built from
/// the 64 key bytes: it signs the accumulated payload, stamped with the
/// current time where no explicit time claims were set, so of the returned
/// string only its fixed version-and-purpose header is promised.
#[verifier::external_body]
pub(crate) fn engine_sign<'a>(b: &mut Builder<'a>, private_key: &[u8; 64]) -> (r: Result<
    String,
    String,
>)
    ensures
        r is Ok ==> r.unwrap()@.len() >= "v4.public."@.len() && r.unwrap()@.take(
            "v4.public."@.len() as int,
        ) == "v4.public."@,
{
    let key = rusty_paseto::core::Key::<64>::from(private_key);
    let pk = rusty_paseto::core::PasetoAsymmetricPrivateKey::<
        rusty_paseto::core::V4,
        rusty_paseto::core::Public,
    >::from(&key);
    match b.inner.build(&pk) {
        Ok(t) => Ok(t),
        Err(e) => Err(e.to_string()),
    }
}

/// Relies on PasetoParser::parse with a public key built from the 32 key
/// bytes: it checks the signature and the time-bound claims against the
/// current clock, so nothing is promised of the returned payload.
#[verifier::external_body]
pub(crate) fn engine_parse(token: &str, public_key: &[u8; 32]) -> (r: Result<
    serde_json::Value,
    String,
>) {
    let key = rusty_paseto::core::Key::<32>::from(public_key);
    let pk = rusty_paseto::core::PasetoAsymmetricPublicKey::<
        rusty_paseto::core::V4,
        rusty_paseto::core::Public,
    >::from(&key);
    let mut parser = rusty_paseto::prelude::PasetoParser::<
        rusty_paseto::core::V4,
        rusty_paseto::core::Public,
    >::default();
    match parser.parse(token, &pk) {
        Ok(v) => Ok(v),
        Err(e) => Err(e.to_string()),
    }
}

/// Relies on serde_json's Value: scalar shapes move over one for one, and any
/// other value is carried through whole.
#[verifier::external_body]
pub(crate) fn claim_from_json(v: &serde_json::Value) -> ClaimValue {
    match v {
        serde_json::Value::Null => ClaimValue::Null,
        serde_json::Value::Bool(b) => ClaimValue::Bool(*b),
        serde_json::Value::Number(n) => match n.as_i64() {
            Some(i) => ClaimValue::Int(i),
            None => ClaimValue::Composite(v.clone()),
        },
        serde_json::Value::String(s) => ClaimValue::Str(s.clone()),
        _ => ClaimValue::Composite(v.clone()),
    }
}

/// What a decoded payload holds: the (name, value) pairs of an object, or
/// nothing for a payload of any other shape.
pub uninterp spec fn payload_claims(v: serde_json::Value) -> Option<Seq<(Seq<char>, ClaimData)>>;

/// Relies on serde_json's Value: an object hands out its entries one for one;
/// any other value has none to hand out.
#[verifier::external_body]
pub(crate) fn payload_entries(v: &serde_json::Value) -> (r: Option<Vec<(String, ClaimValue)>>)
    ensures
        r is Some <==> payload_claims(*v) is Some,
        r is Some ==> entries_view(r.unwrap()@) == payload_claims(*v).unwrap(),
{
    match v {
        serde_json::Value::Object(map) => Some(
            map.iter().map(|(k, val)| (k.clone(), claim_from_json(val))).collect(),
        ),
        _ => None,
    }
}

} // verus!
