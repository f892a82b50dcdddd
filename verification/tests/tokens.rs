use noteflow_backend::errors::AppError;
use noteflow_backend::jwt::{JwtManager, TokenType};

fn manager() -> JwtManager {
    JwtManager::new(String::from("unit-test-secret"), 3600, 604800)
}

#[test]
fn access_token_round_trip() {
    let jwt = manager();
    let token = jwt.generate_access_token("u1", "a@b.com", 1000).unwrap();
    let claims = jwt.verify_access_token(&token, 1500).unwrap();
    assert_eq!(claims.sub, "u1");
    assert_eq!(claims.email, "a@b.com");
    assert_eq!(claims.iat, 1000);
    assert_eq!(claims.exp, 4600);
    assert_eq!(claims.token_type, TokenType::Access);
}

#[test]
fn refresh_token_round_trip() {
    let jwt = manager();
    let token = jwt.generate_refresh_token("u2", "c@d.org", 2000).unwrap();
    let claims = jwt.verify_refresh_token(&token, 2000 + 604799).unwrap();
    assert_eq!(claims.sub, "u2");
    assert_eq!(claims.email, "c@d.org");
    assert_eq!(claims.exp, 2000 + 604800);
    assert_eq!(claims.token_type, TokenType::Refresh);
}

#[test]
fn refresh_token_is_rejected_as_access() {
    let jwt = manager();
    let token = jwt.generate_refresh_token("u1", "a@b.com", 1000).unwrap();
    let err = jwt.verify_access_token(&token, 1001).unwrap_err();
    assert!(matches!(err, AppError::AuthenticationError(_)));
}

#[test]
fn access_token_is_rejected_as_refresh() {
    let jwt = manager();
    let token = jwt.generate_access_token("u1", "a@b.com", 1000).unwrap();
    let err = jwt.verify_refresh_token(&token, 1001).unwrap_err();
    assert!(matches!(err, AppError::AuthenticationError(_)));
}

#[test]
fn generic_verification_accepts_both_kinds() {
    let jwt = manager();
    let access = jwt.generate_access_token("u1", "a@b.com", 1000).unwrap();
    let refresh = jwt.generate_refresh_token("u1", "a@b.com", 1000).unwrap();
    assert_eq!(jwt.verify_token(&access, 1001).unwrap().token_type, TokenType::Access);
    assert_eq!(jwt.verify_token(&refresh, 1001).unwrap().token_type, TokenType::Refresh);
}

#[test]
fn expired_token_is_rejected() {
    // A lifetime of -1 issues a token that is already expired.
    let jwt = JwtManager::new(String::from("unit-test-secret"), -1, 604800);
    let token = jwt.generate_access_token("u1", "a@b.com", 1000).unwrap();
    let err = jwt.verify_access_token(&token, 1000).unwrap_err();
    assert!(matches!(err, AppError::AuthenticationError(_)));
}

#[test]
fn expiry_boundary_is_strict() {
    let jwt = manager();
    let token = jwt.generate_access_token("u1", "a@b.com", 1000).unwrap();
    // exp == 4600; verification at that very second fails, one
    // second earlier succeeds.
    assert!(jwt.verify_access_token(&token, 4600).is_err());
    assert!(jwt.verify_access_token(&token, 4599).is_ok());
}

#[test]
fn wrong_secret_is_rejected() {
    let jwt = manager();
    let other = JwtManager::new(String::from("another-secret"), 3600, 604800);
    let token = jwt.generate_access_token("u1", "a@b.com", 1000).unwrap();
    assert!(other.verify_access_token(&token, 1001).is_err());
}

#[test]
fn tampered_token_is_rejected() {
    let jwt = manager();
    let token = jwt.generate_access_token("u1", "a@b.com", 1000).unwrap();
    let mut tampered = token.clone();
    tampered.push('x');
    assert!(jwt.verify_access_token(&tampered, 1001).is_err());
    assert!(jwt.verify_access_token("not-a-token", 1001).is_err());
    assert!(jwt.verify_access_token("", 1001).is_err());
}

#[test]
fn rejection_reasons_are_opaque() {
    // A bad signature, a garbled token, expiry and a wrong kind all
    // surface the same message: callers probing the verifier learn
    // nothing about which check failed.
    let jwt = manager();
    let other = JwtManager::new(String::from("another-secret"), 3600, 604800);
    let access = jwt.generate_access_token("u1", "a@b.com", 1000).unwrap();
    let failures = vec![
        other.verify_access_token(&access, 1001).unwrap_err(),
        jwt.verify_access_token("garbage", 1001).unwrap_err(),
        jwt.verify_access_token(&access, 1000 + 3600).unwrap_err(),
        jwt.verify_refresh_token(&access, 1001).unwrap_err(),
    ];
    for failure in failures {
        match failure {
            AppError::AuthenticationError(m) => assert_eq!(m, "Invalid token"),
            other => panic!("expected an authentication error, got {:?}", other),
        }
    }
}

#[test]
fn issued_tokens_differ_from_their_inputs() {
    // The encoder really signs: the token is not the subject, the
    // email, or the secret handed in.
    let jwt = manager();
    let token = jwt.generate_access_token("u1", "a@b.com", 1000).unwrap();
    assert_ne!(token, "u1");
    assert_ne!(token, "a@b.com");
    assert_ne!(token, "unit-test-secret");
    assert_eq!(token.split('.').count(), 3);
}
