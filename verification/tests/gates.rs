use noteflow_backend::errors::AppError;
use noteflow_backend::gate::{
    authenticate_optional, authenticate_request, bearer_token, default_public_paths,
    gate_request, is_public_path, rate_limit_gate, resolve_principal, AuthOutcome, RouteClass,
};
use noteflow_backend::jwt::JwtManager;
use noteflow_backend::limiter::RateLimiter;
use noteflow_backend::models::User;

fn manager() -> JwtManager {
    JwtManager::new(String::from("gate-test-secret"), 3600, 604800)
}

#[test]
fn public_paths_match_exactly_and_by_prefix() {
    let publics = default_public_paths();
    assert!(is_public_path("/health", &publics));
    assert!(is_public_path("/api/v1/auth/login", &publics));
    // Prefix matching is the configured behavior.
    assert!(is_public_path("/healthz", &publics));
    assert!(!is_public_path("/api/v1/notes", &publics));
    assert!(!is_public_path("/", &publics));
}

#[test]
fn bearer_extraction() {
    assert_eq!(bearer_token("Bearer abc.def.ghi"), Some("abc.def.ghi"));
    assert_eq!(bearer_token("Bearer "), Some(""));
    assert_eq!(bearer_token("bearer abc"), None);
    assert_eq!(bearer_token("Basic abc"), None);
    assert_eq!(bearer_token(""), None);
}

#[test]
fn auth_gate_passes_public_routes_and_preflights() {
    let jwt = manager();
    let publics = default_public_paths();
    assert!(matches!(
        authenticate_request(&jwt, &publics, "/health", "GET", None, 1000),
        AuthOutcome::Public
    ));
    assert!(matches!(
        authenticate_request(&jwt, &publics, "/api/v1/notes", "OPTIONS", None, 1000),
        AuthOutcome::Public
    ));
}

#[test]
fn auth_gate_demands_a_well_formed_bearer_token() {
    let jwt = manager();
    let publics = default_public_paths();
    let denied = |header: Option<&str>| {
        matches!(
            authenticate_request(&jwt, &publics, "/api/v1/notes", "GET", header, 1000),
            AuthOutcome::Denied(AppError::AuthenticationError(_))
        )
    };
    assert!(denied(None));
    assert!(denied(Some("Basic dXNlcg==")));
    assert!(denied(Some("Bearer not-a-token")));
}

#[test]
fn auth_gate_accepts_a_valid_access_token() {
    let jwt = manager();
    let publics = default_public_paths();
    let token = jwt.generate_access_token("u1", "a@b.com", 1000).unwrap();
    let header = format!("Bearer {}", token);
    match authenticate_request(&jwt, &publics, "/api/v1/notes", "GET", Some(&header), 1500) {
        AuthOutcome::Authenticated(claims) => assert_eq!(claims.sub, "u1"),
        other => panic!("expected authentication, got {:?}", status_of(other)),
    }
}

fn status_of(outcome: AuthOutcome) -> Option<u16> {
    match outcome {
        AuthOutcome::Denied(e) => Some(e.status_code()),
        _ => None,
    }
}

#[test]
fn optional_auth_never_rejects() {
    let jwt = manager();
    let token = jwt.generate_access_token("u1", "a@b.com", 1000).unwrap();
    let header = format!("Bearer {}", token);
    assert_eq!(authenticate_optional(&jwt, Some(&header), 1500).unwrap().sub, "u1");
    assert!(authenticate_optional(&jwt, None, 1500).is_none());
    assert!(authenticate_optional(&jwt, Some("Bearer junk"), 1500).is_none());
    // Expired: silently anonymous instead of denied.
    assert!(authenticate_optional(&jwt, Some(&header), 1000 + 3600).is_none());
}

#[test]
fn rate_limit_gate_counts_down_and_rejects_over_budget() {
    let mut limiter = RateLimiter::new(2, 60);
    assert_eq!(rate_limit_gate(&mut limiter, "1.2.3.4", 100).unwrap(), 1);
    assert_eq!(rate_limit_gate(&mut limiter, "1.2.3.4", 101).unwrap(), 0);
    let err = rate_limit_gate(&mut limiter, "1.2.3.4", 102).unwrap_err();
    assert!(matches!(err, AppError::RateLimitExceeded));
    assert_eq!(err.status_code(), 429);
}

#[test]
fn anonymous_burst_hits_the_limit_on_the_twenty_first_request() {
    // Anonymous limiter: 20 requests per 60 seconds.  Twenty login
    // calls inside five seconds all pass the rate-limit gate; the
    // twenty-first in the same window is answered with 429.
    let jwt = manager();
    let publics = default_public_paths();
    let mut limiter = RateLimiter::new(20, 60);
    for i in 0..20u64 {
        let r = gate_request(
            RouteClass::Public,
            &mut limiter,
            "9.9.9.9",
            1000 + i / 4,
            &jwt,
            &publics,
            "/api/v1/auth/login",
            "POST",
            None,
            1000,
        );
        assert!(matches!(r, Ok(None)));
    }
    let r = gate_request(
        RouteClass::Public,
        &mut limiter,
        "9.9.9.9",
        1005,
        &jwt,
        &publics,
        "/api/v1/auth/login",
        "POST",
        None,
        1000,
    );
    match r {
        Err(e) => {
            assert!(matches!(e, AppError::RateLimitExceeded));
            assert_eq!(e.status_code(), 429);
        },
        Ok(_) => panic!("twenty-first request was admitted"),
    }
}

#[test]
fn expired_token_inside_budget_gets_401_not_429() {
    // Protected route, syntactically valid but expired access token,
    // caller well inside its rate budget: the answer is the
    // authentication failure, not a rate-limit rejection.
    let jwt = manager();
    let publics = default_public_paths();
    let mut limiter = RateLimiter::new(100, 60);
    let token = jwt.generate_access_token("u1", "a@b.com", 1000).unwrap();
    let header = format!("Bearer {}", token);
    let r = gate_request(
        RouteClass::Protected,
        &mut limiter,
        "8.8.8.8",
        5000,
        &jwt,
        &publics,
        "/api/v1/notes",
        "GET",
        Some(&header),
        1000 + 3600,
    );
    match r {
        Err(e) => {
            assert!(matches!(e, AppError::AuthenticationError(_)));
            assert_eq!(e.status_code(), 401);
        },
        Ok(_) => panic!("expired token was accepted"),
    }
}

#[test]
fn protected_route_with_fresh_token_passes_both_gates() {
    let jwt = manager();
    let publics = default_public_paths();
    let mut limiter = RateLimiter::new(100, 60);
    let token = jwt.generate_access_token("u1", "a@b.com", 1000).unwrap();
    let header = format!("Bearer {}", token);
    let r = gate_request(
        RouteClass::Protected,
        &mut limiter,
        "8.8.8.8",
        5000,
        &jwt,
        &publics,
        "/api/v1/notes",
        "GET",
        Some(&header),
        1500,
    );
    assert_eq!(r.unwrap().unwrap().sub, "u1");
}

#[test]
fn rate_limit_runs_before_authentication() {
    // Over budget, the caller sees 429 even with no token at all:
    // the authentication gate never ran.
    let jwt = manager();
    let publics = default_public_paths();
    let mut limiter = RateLimiter::new(1, 60);
    assert!(rate_limit_gate(&mut limiter, "7.7.7.7", 100).is_ok());
    let r = gate_request(
        RouteClass::Protected,
        &mut limiter,
        "7.7.7.7",
        101,
        &jwt,
        &publics,
        "/api/v1/notes",
        "GET",
        None,
        1000,
    );
    match r {
        Err(e) => assert_eq!(e.status_code(), 429),
        Ok(_) => panic!("over-budget request was admitted"),
    }
}

#[test]
fn directory_miss_is_an_opaque_401() {
    let user = User {
        id: String::from("u1"),
        email: String::from("a@b.com"),
        password_hash: String::from("$2b$12$abcdefghijklmnopqrstuv"),
        display_name: String::from("Ada"),
        created_at: 1000,
        updated_at: 1000,
    };
    let resolved = resolve_principal(Some(user)).unwrap();
    assert_eq!(resolved.id, "u1");
    match resolve_principal(None).unwrap_err() {
        AppError::AuthenticationError(m) => {
            assert_eq!(m, "User not found");
            assert_eq!(AppError::AuthenticationError(m).status_code(), 401);
        },
        other => panic!("expected an authentication error, got {:?}", other),
    }
}
