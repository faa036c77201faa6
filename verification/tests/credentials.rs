use serde_json::Value;

use yac::credential_service::{jwt_secret, user_from_claims, CredentialService, CredentialServiceError};
use yac::models::UserId;
use yac::handlers::resolve_jwt::resolve_jwt;
use yac::web_service::resolve_jwt::{find_bearer, resolve_jwt as resolve_jwt_lenient};

/// A token with the given claims, signed with HS256 under `secret`.
fn token(sub: &str, exp: u64, secret: &str) -> String {
    let mut claims = serde_json::Map::new();
    claims.insert("sub".to_string(), Value::from(sub));
    claims.insert("exp".to_string(), Value::from(exp));
    jsonwebtoken::encode(
        &jsonwebtoken::Header::new(jsonwebtoken::Algorithm::HS256),
        &claims,
        &jsonwebtoken::EncodingKey::from_secret(secret.as_bytes()),
    )
    .unwrap()
}

fn login(cs: &CredentialService, name: &str) -> String {
    cs.login(name.to_string(), name.to_string()).unwrap().1
}

#[test]
fn secret_is_the_fixed_one() {
    assert_eq!(jwt_secret(), "secret");
}

#[test]
fn known_users_log_in_with_their_name() {
    let cs = CredentialService::new();
    for name in ["foo", "bar", "pippo", "pluto"] {
        let (user_id, jwt) = cs.login(name.to_string(), name.to_string()).unwrap();
        assert_eq!(user_id.0, name);
        // a JSON web token: header, claims and signature
        assert_eq!(jwt.split('.').count(), 3);
        assert_eq!(jwt, token(name, 10000000000, "secret"));
    }
}

#[test]
fn login_is_deterministic() {
    let cs = CredentialService::new();
    assert_eq!(login(&cs, "pippo"), login(&cs, "pippo"));
    assert_ne!(login(&cs, "pippo"), login(&cs, "pluto"));
}

#[test]
fn wrong_credentials_are_refused() {
    let cs = CredentialService::new();
    assert!(matches!(
        cs.login("pippo".to_string(), "pluto".to_string()),
        Err(CredentialServiceError::NoCredentialFound)
    ));
    assert!(matches!(
        cs.login("nobody".to_string(), "nobody".to_string()),
        Err(CredentialServiceError::NoCredentialFound)
    ));
}

#[test]
fn token_round_trip() {
    let cs = CredentialService::new();
    let jwt = login(&cs, "bar");
    assert_eq!(cs.try_decode(&jwt).unwrap().0, "bar");
}

#[test]
fn bad_tokens_are_refused() {
    let cs = CredentialService::new();
    assert!(matches!(cs.try_decode("garbage"), Err(CredentialServiceError::InvalidJWT)));
    assert!(matches!(cs.try_decode(""), Err(CredentialServiceError::InvalidJWT)));
    assert!(matches!(cs.try_decode("a.b.c"), Err(CredentialServiceError::InvalidJWT)));
    assert!(matches!(cs.try_decode(&token("foo", 10000000000, "other")), Err(CredentialServiceError::InvalidJWT)));
    assert!(matches!(cs.try_decode(&token("foo", 1, "secret")), Err(CredentialServiceError::InvalidJWT)));
    assert_eq!(cs.try_decode(&token("someone", 10000000000, "secret")).unwrap().0, "someone");
}

#[test]
fn find_bearer_positions() {
    assert_eq!(find_bearer("Bearer abc"), Some(0));
    assert_eq!(find_bearer("xxBearer abc"), Some(2));
    assert_eq!(find_bearer("Bearer"), None);
    assert_eq!(find_bearer(""), None);
    assert_eq!(find_bearer("Basic Bearer Bearer x"), Some(6));
    assert_eq!(find_bearer("àBearer z"), Some(1));
}

#[test]
fn strict_header_reading() {
    let cs = CredentialService::new();
    let jwt = login(&cs, "foo");
    assert_eq!(resolve_jwt(&cs, Some(&format!("Bearer {}", jwt))).unwrap().0, "foo");
    assert!(matches!(resolve_jwt(&cs, None), Err(CredentialServiceError::NoCredentialFound)));
    assert!(matches!(
        resolve_jwt(&cs, Some("Basic abc")),
        Err(CredentialServiceError::NoCredentialFound)
    ));
    assert!(matches!(
        resolve_jwt(&cs, Some(&format!("xBearer {}", jwt))),
        Err(CredentialServiceError::NoCredentialFound)
    ));
    assert!(matches!(
        resolve_jwt(&cs, Some("Bearer not-a-token")),
        Err(CredentialServiceError::InvalidJWT)
    ));
}

#[test]
fn lenient_header_reading() {
    let cs = CredentialService::new();
    let jwt = login(&cs, "foo");
    assert_eq!(resolve_jwt_lenient(&cs, Some(&format!("xBearer {}", jwt))).unwrap().0, "foo");
    assert_eq!(resolve_jwt_lenient(&cs, Some(&format!("Bearer {}", jwt))).unwrap().0, "foo");
    assert!(matches!(
        resolve_jwt_lenient(&cs, Some("Basic abc")),
        Err(CredentialServiceError::NoCredentialFound)
    ));
    assert!(matches!(
        resolve_jwt_lenient(&cs, None),
        Err(CredentialServiceError::NoCredentialFound)
    ));
}

#[test]
fn answers_for_decoded_claims() {
    let refused = Err(CredentialServiceError::InvalidJWT);
    assert_eq!(user_from_claims(Ok((Some("pippo".to_string()), Some(7)))), Ok(UserId("pippo".to_string())));
    assert_eq!(user_from_claims(Ok((None, Some(7)))), refused);
    assert_eq!(user_from_claims(Ok((Some("pippo".to_string()), None))), refused);
    assert_eq!(user_from_claims(Ok((None, None))), refused);
    let error = jsonwebtoken::errors::Error::from(jsonwebtoken::errors::ErrorKind::InvalidSignature);
    assert_eq!(user_from_claims(Err(error)), refused);
}

#[test]
fn garbage_bearer_is_refused() {
    let cs = CredentialService::new();
    assert!(matches!(resolve_jwt(&cs, Some("Bearer garbage")), Err(CredentialServiceError::InvalidJWT)));
    assert!(matches!(resolve_jwt_lenient(&cs, Some("Bearer garbage")), Err(CredentialServiceError::InvalidJWT)));
}

#[test]
fn issued_token_carries_sub_then_exp() {
    let cs = CredentialService::new();
    let jwt = login(&cs, "pippo");
    let claims: Value = serde_json::from_str(r#"{"sub":"pippo","exp":10000000000}"#).unwrap();
    let expected = jsonwebtoken::encode(
        &jsonwebtoken::Header::new(jsonwebtoken::Algorithm::HS256),
        &claims,
        &jsonwebtoken::EncodingKey::from_secret(b"secret"),
    )
    .unwrap();
    assert_eq!(jwt, expected);
    assert_eq!(jwt.matches('.').count(), 2);
}
