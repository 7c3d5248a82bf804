use paseto_maker::claims::Claims;
use paseto_maker::errors::{ClaimError, MakerError, TokenError};
use paseto_maker::maker::Maker;
use paseto_maker::value::ClaimValue;

#[test]
fn test_invalid_claims() {
    let (priv_key, _) = Maker::new_keypair();
    let maker = Maker::new(&priv_key).expect("failed to create maker");

    let claims = Claims::new().with_issued_at("invalid RF3339 date");
    let token = maker.create_token(&claims);
    assert!(token.is_err());
}

#[test]
fn test_create_token() {
    let (priv_key, _) = Maker::new_keypair();
    let maker = Maker::new(&priv_key).expect("failed to create maker");

    let mut claims = Claims::new().with_issued_at("2027-09-18T03:42:15+02:00");
    claims
        .set_claim("sub", ClaimValue::Str("this is the subject".to_string()))
        .unwrap();
    claims
        .set_claim("data", ClaimValue::Str("test".to_string()))
        .unwrap();
    claims.set_claim("number", ClaimValue::Int(2)).unwrap();

    let token = maker
        .create_token(&claims)
        .expect("failed to generate token");

    let got = maker.verify_token(&token).expect("failed to verify token");

    assert_eq!(got.get_subject().unwrap().as_str(), "this is the subject");

    let key = rusty_paseto::core::Key::<32>::from(maker.public_key_as_bytes());
    let public_key = rusty_paseto::core::PasetoAsymmetricPublicKey::<
        rusty_paseto::core::V4,
        rusty_paseto::core::Public,
    >::from(&key);
    let mut parser = rusty_paseto::prelude::PasetoParser::<
        rusty_paseto::core::V4,
        rusty_paseto::core::Public,
    >::default();
    let token = parser
        .parse(&token, &public_key)
        .expect("failed to parse token");

    assert!(token.get("sub").is_some());
    assert_eq!(
        token.get("sub").unwrap().as_str().unwrap(),
        "this is the subject"
    );
    assert!(token.get("number").is_some());
    assert_eq!(token.get("number").unwrap(), 2);
    assert!(token.get("data").is_some());
    assert_eq!(token.get("data").unwrap(), "test");
}

#[test]
fn test_key_round_trip() {
    let (priv_key, pub_key) = Maker::new_keypair();
    let maker = Maker::new(&priv_key).expect("generated keypair must be accepted");
    assert_eq!(maker.public_key_as_bytes(), &pub_key);
}

#[test]
fn test_invalid_key_rejected() {
    let result = Maker::new(&[0u8; 64]);
    assert!(matches!(result, Err(MakerError::InvalidKey(_))));
}

#[test]
fn test_reserved_claims_round_trip() {
    let (priv_key, _) = Maker::new_keypair();
    let maker = Maker::new(&priv_key).expect("failed to create maker");
    let claims = Claims::new()
        .with_subject("1234567890")
        .with_issuer("the issuer")
        .with_audience("the audience")
        .with_expiration("2031-01-01T00:00:00+00:00")
        .with_issued_at("2020-01-01T00:00:00+00:00")
        .with_token_identifier("token-1");
    let token = maker.create_token(&claims).expect("valid claims must sign");
    let got = maker.verify_token(&token).expect("token must verify");
    assert_eq!(got.get_subject(), Some("1234567890".to_string()));
    assert_eq!(got.get_issuer(), Some("the issuer".to_string()));
    assert_eq!(got.get_audience(), Some("the audience".to_string()));
    assert_eq!(got.get_token_identifier(), Some("token-1".to_string()));
    let exp = chrono::DateTime::parse_from_rfc3339("2031-01-01T00:00:00+00:00")
        .unwrap()
        .timestamp_micros();
    assert_eq!(got.get_expiration().unwrap().micros, exp);
}

#[test]
fn test_custom_claims_round_trip() {
    let (priv_key, _) = Maker::new_keypair();
    let maker = Maker::new(&priv_key).expect("failed to create maker");
    let mut claims = Claims::new();
    claims
        .set_claim("sub", ClaimValue::Str("X".to_string()))
        .unwrap();
    claims
        .set_claim("name", ClaimValue::Str("John Doe".to_string()))
        .unwrap();
    claims.set_claim("admin", ClaimValue::Bool(true)).unwrap();
    let token = maker.create_token(&claims).expect("claims must sign");
    let got = maker.verify_token(&token).expect("token must verify");
    assert_eq!(got.get_claim("sub"), Some(&ClaimValue::Str("X".to_string())));
    assert_eq!(
        got.get_claim("name"),
        Some(&ClaimValue::Str("John Doe".to_string()))
    );
    assert_eq!(got.get_claim("admin"), Some(&ClaimValue::Bool(true)));
}

#[test]
fn test_invalid_timestamp_error_kind() {
    let (priv_key, _) = Maker::new_keypair();
    let maker = Maker::new(&priv_key).expect("failed to create maker");
    let claims = Claims::new().with_issued_at("not a date");
    let result = maker.create_token(&claims);
    assert!(matches!(
        result,
        Err(TokenError::ClaimError(ClaimError::InvalidClaim(_)))
    ));
}

#[test]
fn test_invalid_reserved_shape_error() {
    let (priv_key, _) = Maker::new_keypair();
    let maker = Maker::new(&priv_key).expect("failed to create maker");
    let mut claims = Claims::new();
    claims.set_claim("iss", ClaimValue::Bool(true)).unwrap();
    let result = maker.create_token(&claims);
    match result {
        Err(TokenError::InvalidClaim(m)) => assert_eq!(m, "Invalid issuer claim"),
        other => panic!("unexpected result: {:?}", other),
    }
}

#[test]
fn test_tampered_token_rejected() {
    let (priv_key, _) = Maker::new_keypair();
    let maker = Maker::new(&priv_key).expect("failed to create maker");
    let mut claims = Claims::new().with_expiration("2031-01-01T00:00:00+00:00");
    claims
        .set_claim("data", ClaimValue::Str("payload".to_string()))
        .unwrap();
    let token = maker.create_token(&claims).expect("claims must sign");
    assert!(maker.verify_token(&token).is_ok());

    let bytes = token.as_bytes();
    for i in 0..bytes.len() {
        let mut flipped = bytes.to_vec();
        flipped[i] ^= 1;
        if let Ok(mutated) = String::from_utf8(flipped) {
            assert!(
                maker.verify_token(&mutated).is_err(),
                "byte {} flipped yet the token verified",
                i
            );
        }
    }
}

#[test]
fn test_token_has_version_purpose_header() {
    let (priv_key, _) = Maker::new_keypair();
    let maker = Maker::new(&priv_key).expect("failed to create maker");
    let token = maker
        .create_token(&Claims::new())
        .expect("empty claims must sign");
    assert!(token.starts_with("v4.public."));
}

#[test]
fn test_verify_garbage_fails() {
    let (priv_key, _) = Maker::new_keypair();
    let maker = Maker::new(&priv_key).expect("failed to create maker");
    let result = maker.verify_token("v4.public.not-a-real-token");
    assert!(matches!(result, Err(TokenError::TokenCreationFailed(_))));
}
