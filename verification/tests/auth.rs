use jsonwebtoken::{encode, EncodingKey, Header};
use semantic_gateway::auth::{authenticate, extract_bearer_token, resolve, AuthError, Claims};
use semantic_gateway::schema::Block;
use serde_json::{Number, Value};

const SECRET: &[u8] = b"a-test-secret-of-some-length";

fn block(auth_filter_field: Option<&str>) -> Block {
    Block {
        name: "orders".to_string(),
        dimensions: vec![],
        measures: vec![],
        auth_filter_field: auth_filter_field.map(|f| f.to_string()),
    }
}

fn claims(members: Vec<(&str, Value)>) -> Claims {
    let mut map = serde_json::Map::new();
    for (key, value) in members {
        map.insert(key.to_string(), value);
    }
    Claims(map)
}

fn token(members: Vec<(&str, Value)>, secret: &[u8]) -> String {
    encode(&Header::default(), &claims(members).0, &EncodingKey::from_secret(secret)).unwrap()
}

fn far_future() -> Value {
    Value::Number(Number::from(32503680000u64))
}

#[test]
fn block_without_filter_field_resolves_nothing() {
    let claims = claims(vec![("tenant_id", Value::String("acme".to_string()))]);
    assert_eq!(resolve(&block(None), &claims), None);
}

#[test]
fn string_claim_is_resolved() {
    let claims = claims(vec![
        ("sub", Value::String("u-1".to_string())),
        ("tenant_id", Value::String("acme".to_string())),
    ]);
    assert_eq!(resolve(&block(Some("tenant_id")), &claims), Some("acme".to_string()));
    assert_eq!(resolve(&block(Some("sub")), &claims), Some("u-1".to_string()));
}

#[test]
fn missing_claim_resolves_nothing() {
    let claims = claims(vec![("sub", Value::String("u-1".to_string()))]);
    assert_eq!(resolve(&block(Some("tenant_id")), &claims), None);
    assert_eq!(resolve(&block(Some("tenant_id")), &Claims(serde_json::Map::new())), None);
}

#[test]
fn claim_names_are_matched_exactly() {
    let claims = claims(vec![("Tenant_id", Value::String("acme".to_string()))]);
    assert_eq!(resolve(&block(Some("tenant_id")), &claims), None);
}

#[test]
fn claims_that_are_no_strings_resolve_nothing() {
    for value in [
        Value::Null,
        Value::Bool(true),
        Value::Number(Number::from(7)),
        Value::Array(vec![Value::String("acme".to_string())]),
        Value::Object(serde_json::Map::new()),
    ] {
        let claims = claims(vec![("tenant_id", value)]);
        assert_eq!(resolve(&block(Some("tenant_id")), &claims), None);
    }
}

#[test]
fn empty_string_claim_is_resolved() {
    let claims = claims(vec![("tenant_id", Value::String(String::new()))]);
    assert_eq!(resolve(&block(Some("tenant_id")), &claims), Some(String::new()));
}

#[test]
fn claim_text_reads_one_claim() {
    let claims = claims(vec![
        ("tenant_id", Value::String("acme".to_string())),
        ("level", Value::Number(Number::from(3))),
    ]);
    assert_eq!(claims.text("tenant_id"), Some("acme".to_string()));
    assert_eq!(claims.text("level"), None);
    assert_eq!(claims.text("absent"), None);
}

#[test]
fn bearer_token_follows_the_scheme() {
    assert_eq!(extract_bearer_token("Bearer abc.def.ghi"), Some("abc.def.ghi".to_string()));
}

#[test]
fn repeated_scheme_is_stripped_whole() {
    assert_eq!(extract_bearer_token("Bearer Bearer abc"), Some("abc".to_string()));
    assert_eq!(extract_bearer_token("Bearer Bearer Bearer "), Some(String::new()));
}

#[test]
fn scheme_alone_carries_an_empty_token() {
    assert_eq!(extract_bearer_token("Bearer "), Some(String::new()));
}

#[test]
fn other_schemes_carry_no_token() {
    assert_eq!(extract_bearer_token("Basic dXNlcjpwdw=="), None);
    assert_eq!(extract_bearer_token("bearer abc"), None);
    assert_eq!(extract_bearer_token("Bearer"), None);
    assert_eq!(extract_bearer_token(" Bearer abc"), None);
    assert_eq!(extract_bearer_token(""), None);
}

#[test]
fn token_keeps_what_follows_the_scheme() {
    assert_eq!(extract_bearer_token("Bearer  abc "), Some(" abc ".to_string()));
    assert_eq!(extract_bearer_token("Bearer abc Bearer "), Some("abc Bearer ".to_string()));
    assert_eq!(extract_bearer_token("Bearer Bearerabc"), Some("Bearerabc".to_string()));
    assert_eq!(extract_bearer_token("Bearer \u{e9}t\u{e9}"), Some("\u{e9}t\u{e9}".to_string()));
}

#[test]
fn missing_header_is_a_missing_token() {
    assert_eq!(authenticate(None, SECRET).unwrap_err(), AuthError::TokenMissing);
}

#[test]
fn header_without_bearer_scheme_is_a_missing_token() {
    let token = token(vec![("exp", far_future())], SECRET);
    assert_eq!(authenticate(Some(token.as_str()), SECRET).unwrap_err(), AuthError::TokenMissing);
    assert_eq!(
        authenticate(Some("Basic dXNlcjpwdw=="), SECRET).unwrap_err(),
        AuthError::TokenMissing
    );
}

#[test]
fn malformed_token_is_invalid() {
    assert_eq!(
        authenticate(Some("Bearer not-a-token"), SECRET).unwrap_err(),
        AuthError::InvalidToken
    );
    assert_eq!(authenticate(Some("Bearer "), SECRET).unwrap_err(), AuthError::InvalidToken);
}

#[test]
fn signed_token_gives_its_claims() {
    let token = token(
        vec![("exp", far_future()), ("tenant_id", Value::String("acme".to_string()))],
        SECRET,
    );
    let header = format!("Bearer {}", token);
    let context = authenticate(Some(header.as_str()), SECRET).unwrap();
    assert_eq!(context.claims.0.len(), 2);
    assert_eq!(context.claims.0.get("tenant_id"), Some(&Value::String("acme".to_string())));
    assert_eq!(context.claims.0.get("exp"), Some(&far_future()));
    assert_eq!(resolve(&block(Some("tenant_id")), &context.claims), Some("acme".to_string()));
}

#[test]
fn token_signed_with_another_secret_is_invalid() {
    let token = token(vec![("exp", far_future())], b"another-secret");
    let header = format!("Bearer {}", token);
    assert_eq!(authenticate(Some(header.as_str()), SECRET).unwrap_err(), AuthError::InvalidToken);
}

#[test]
fn expired_token_is_invalid() {
    let token = token(vec![("exp", Value::Number(Number::from(1000000000u64)))], SECRET);
    let header = format!("Bearer {}", token);
    assert_eq!(authenticate(Some(header.as_str()), SECRET).unwrap_err(), AuthError::InvalidToken);
}

#[test]
fn token_without_expiry_is_invalid() {
    let token = token(vec![("tenant_id", Value::String("acme".to_string()))], SECRET);
    let header = format!("Bearer {}", token);
    assert_eq!(authenticate(Some(header.as_str()), SECRET).unwrap_err(), AuthError::InvalidToken);
}
