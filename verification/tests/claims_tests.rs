use paseto_maker::claims::Claims;
use paseto_maker::errors::ClaimError;
use paseto_maker::value::ClaimValue;

#[test]
fn test_set_and_get_claim() {
    let mut claims = Claims::new();
    claims
        .set_claim("sub", ClaimValue::Str("1234567890".to_string()))
        .unwrap();
    claims
        .set_claim("name", ClaimValue::Str("John Doe".to_string()))
        .unwrap();
    claims.set_claim("admin", ClaimValue::Bool(true)).unwrap();

    let sub = claims.get_claim("sub");
    assert_eq!(sub, Some(&ClaimValue::Str("1234567890".to_string())));

    let name = claims.get_claim("name");
    assert_eq!(name, Some(&ClaimValue::Str("John Doe".to_string())));

    let admin = claims.get_claim("admin");
    assert_eq!(admin, Some(&ClaimValue::Bool(true)));
}

#[test]
fn test_builder() {
    let claims = Claims::new()
        .with_subject("1234567890")
        .with_audience("test audience")
        .with_issued_at("2019-01-01T00:00:00+00:00");

    let sub = claims.get_claim("sub");
    assert_eq!(sub, Some(&ClaimValue::Str("1234567890".to_string())));
    let aud = claims.get_claim("aud");
    assert_eq!(aud, Some(&ClaimValue::Str("test audience".to_string())));

    let iat = claims.get_claim("iat");
    assert_eq!(
        iat,
        Some(&ClaimValue::Str("2019-01-01T00:00:00+00:00".to_string()))
    );
}

#[test]
fn test_iter() {
    let mut claims = Claims::new();
    claims
        .set_claim("sub", ClaimValue::Str("1234567890".to_string()))
        .unwrap();
    claims
        .set_claim("name", ClaimValue::Str("John Doe".to_string()))
        .unwrap();
    claims.set_claim("admin", ClaimValue::Bool(true)).unwrap();

    let entries = claims.iter();
    assert_eq!(entries.len(), 3);
    assert_eq!(entries[0], ("admin".to_string(), ClaimValue::Bool(true)));
    assert_eq!(
        entries[1],
        ("name".to_string(), ClaimValue::Str("John Doe".to_string()))
    );
    assert_eq!(
        entries[2],
        ("sub".to_string(), ClaimValue::Str("1234567890".to_string()))
    );
}

#[test]
fn test_get_claim_nonexistent() {
    let claims = Claims::new();
    let value = claims.get_claim("nonexistent");
    assert_eq!(value, None);
}

#[test]
fn test_set_claim_error() {
    let mut claims = Claims::new();
    // a NaN float is the classic null-producing value: it serializes to null
    let serialized = serde_json::to_value(f64::NAN).unwrap();
    assert!(serialized.is_null());
    let result = claims.set_claim("invalid", ClaimValue::Null);
    assert!(result.is_err());
}

#[test]
fn test_null_rejection_leaves_set_unchanged() {
    let mut claims = Claims::new();
    claims.set_claim("kept", ClaimValue::Int(7)).unwrap();
    let result = claims.set_claim("k", ClaimValue::Null);
    assert_eq!(result, Err(ClaimError::InvalidValue));
    assert_eq!(claims.get_claim("k"), None);
    assert_eq!(claims.get_claim("kept"), Some(&ClaimValue::Int(7)));
    assert_eq!(claims.iter().len(), 1);
}

#[test]
fn test_composite_null_rejected() {
    let mut claims = Claims::new();
    let result = claims.set_claim("k", ClaimValue::Composite(serde_json::Value::Null));
    assert_eq!(result, Err(ClaimError::InvalidValue));
    assert_eq!(claims.get_claim("k"), None);
    assert_eq!(claims.iter().len(), 0);

    let mut arr = Vec::new();
    arr.push(serde_json::Value::Bool(true));
    let composite = ClaimValue::Composite(serde_json::Value::Array(arr));
    assert!(claims.set_claim("k", composite).is_ok());
    assert_eq!(claims.iter().len(), 1);
}

#[test]
fn test_iteration_order_is_insertion_independent() {
    let mut a = Claims::new();
    a.set_claim("zeta", ClaimValue::Int(1)).unwrap();
    a.set_claim("alpha", ClaimValue::Bool(false)).unwrap();
    a.set_claim("mid", ClaimValue::Str("x".to_string())).unwrap();

    let mut b = Claims::new();
    b.set_claim("mid", ClaimValue::Str("x".to_string())).unwrap();
    b.set_claim("zeta", ClaimValue::Int(1)).unwrap();
    b.set_claim("alpha", ClaimValue::Bool(false)).unwrap();

    assert_eq!(a.iter(), b.iter());
    assert_eq!(a.iter()[0].0.as_str(), "alpha");
    assert_eq!(a.iter()[1].0.as_str(), "mid");
    assert_eq!(a.iter()[2].0.as_str(), "zeta");
}

#[test]
fn test_overwrite_same_name() {
    let mut claims = Claims::new();
    claims.set_claim("n", ClaimValue::Int(1)).unwrap();
    claims.set_claim("n", ClaimValue::Int(2)).unwrap();
    assert_eq!(claims.iter().len(), 1);
    assert_eq!(claims.get_claim("n"), Some(&ClaimValue::Int(2)));
}

#[test]
fn test_typed_getters() {
    let claims = Claims::new()
        .with_subject("1234567890")
        .with_issuer("issuer")
        .with_audience("audience")
        .with_expiration("2023-10-01T00:00:00+00:00")
        .with_not_before("2023-09-01T00:00:00+00:00")
        .with_issued_at("2023-09-01T00:00:00+00:00")
        .with_token_identifier("token_id");

    assert_eq!(claims.get_subject(), Some("1234567890".to_string()));
    assert_eq!(claims.get_issuer(), Some("issuer".to_string()));
    assert_eq!(claims.get_audience(), Some("audience".to_string()));
    assert_eq!(claims.get_token_identifier(), Some("token_id".to_string()));

    let expected_exp = chrono::DateTime::parse_from_rfc3339("2023-10-01T00:00:00+00:00")
        .unwrap()
        .timestamp_micros();
    assert_eq!(claims.get_expiration().unwrap().micros, expected_exp);
    let expected_nbf = chrono::DateTime::parse_from_rfc3339("2023-09-01T00:00:00+00:00")
        .unwrap()
        .timestamp_micros();
    assert_eq!(claims.get_not_before().unwrap().micros, expected_nbf);
    assert_eq!(claims.get_issued_at().unwrap().micros, expected_nbf);
}

#[test]
fn test_typed_getter_wrong_shape_is_absent() {
    let mut claims = Claims::new();
    claims.set_claim("sub", ClaimValue::Int(5)).unwrap();
    assert_eq!(claims.get_subject(), None);
    claims
        .set_claim("exp", ClaimValue::Str("not a date".to_string()))
        .unwrap();
    assert_eq!(claims.get_expiration(), None);
}

#[test]
fn test_duplicate_is_deep_equal() {
    let mut claims = Claims::new();
    claims
        .set_claim("name", ClaimValue::Str("John Doe".to_string()))
        .unwrap();
    claims.set_claim("admin", ClaimValue::Bool(true)).unwrap();
    let copy = claims.duplicate();
    assert_eq!(copy.iter(), claims.iter());
}

#[test]
fn test_from_payload_object() {
    let mut map = serde_json::Map::new();
    map.insert("b".to_string(), serde_json::Value::Bool(true));
    map.insert(
        "s".to_string(),
        serde_json::Value::String("hello".to_string()),
    );
    map.insert("n".to_string(), serde_json::Value::from(42i64));
    let claims = Claims::from_payload(&serde_json::Value::Object(map));
    assert_eq!(claims.get_claim("b"), Some(&ClaimValue::Bool(true)));
    assert_eq!(
        claims.get_claim("s"),
        Some(&ClaimValue::Str("hello".to_string()))
    );
    assert_eq!(claims.get_claim("n"), Some(&ClaimValue::Int(42)));
}

#[test]
fn test_from_payload_non_object_is_empty() {
    let claims = Claims::from_payload(&serde_json::Value::Bool(true));
    assert_eq!(claims.iter().len(), 0);
}
