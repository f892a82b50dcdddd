//! Request gates and their composition.
//!
//! Two route classes exist.  Public routes pass only the rate-limit
//! gate; protected routes pass the rate-limit gate first and the
//! authentication gate second, so that a flood of invalid-token
//! requests is throttled before any signature verification runs.
//! Authentication failures are therefore only ever seen by callers
//! inside their rate budget.

use vstd::prelude::*;

use crate::errors::AppError;
use crate::jwt::{
    Claims, ClaimsView, JwtManager, TokenType, spec_kind_label, spec_verified_claims, token_of,
};
use crate::limiter::{RateLimiter, admits, after_admit, live_stamps};
use crate::models::User;
use crate::text::{str_eq, str_starts_with};

verus! {

/// Whether `p` is a prefix of `s`.
pub open spec fn spec_is_prefix(p: Seq<char>, s: Seq<char>) -> bool {
    p.len() <= s.len() && s.subrange(0, p.len() as int) == p
}

/// Whether some configured public pattern matches `path`, by exact
/// match or by prefix (an exact match is a prefix of itself).
pub open spec fn spec_public_match(publics: Seq<String>, path: Seq<char>) -> bool {
    exists|i: int| 0 <= i < publics.len() && spec_is_prefix(#[trigger] publics[i]@, path)
}

/// Whether `path` matches the configured public patterns.
pub fn is_public_path(path: &str, publics: &Vec<String>) -> (r: bool)
    ensures
        r == spec_public_match(publics@, path@),
{
    let n = publics.len();
    for i in 0..n
        invariant
            n == publics@.len(),
            forall|j: int| 0 <= j < i ==> !spec_is_prefix(#[trigger] publics@[j]@, path@),
    {
        if str_eq(path, publics[i].as_str()) || str_starts_with(path, publics[i].as_str()) {
            proof {
                if path@ == publics@[i as int]@ {
                    assert(path@.subrange(0, publics@[i as int]@.len() as int)
                        =~= publics@[i as int]@);
                }
                assert(spec_is_prefix(publics@[i as int]@, path@));
            }
            return true;
        }
    }
    false
}

/// The paths that bypass authentication: the health check and the
/// credential endpoints, with and without the API prefix.
pub fn default_public_paths() -> (r: Vec<String>)
    ensures
        r@.len() == 7,
        r@[0]@ == "/health"@,
        r@[1]@ == "/auth/register"@,
        r@[2]@ == "/auth/login"@,
        r@[3]@ == "/auth/refresh"@,
        r@[4]@ == "/api/v1/auth/register"@,
        r@[5]@ == "/api/v1/auth/login"@,
        r@[6]@ == "/api/v1/auth/refresh"@,
{
    let mut r: Vec<String> = Vec::new();
    r.push(String::from_str("/health"));
    r.push(String::from_str("/auth/register"));
    r.push(String::from_str("/auth/login"));
    r.push(String::from_str("/auth/refresh"));
    r.push(String::from_str("/api/v1/auth/register"));
    r.push(String::from_str("/api/v1/auth/login"));
    r.push(String::from_str("/api/v1/auth/refresh"));
    r
}

/// The token carried by an `Authorization` header, when the header
/// has the `Bearer ` shape; the scheme prefix is seven characters.
pub fn bearer_token<'a>(header: &'a str) -> (r: Option<&'a str>)
    ensures
        match r {
            Some(t) => spec_is_prefix("Bearer "@, header@) && t@ == header@.skip(7),
            None => !spec_is_prefix("Bearer "@, header@),
        },
{
    proof {
        reveal_strlit("Bearer ");
    }
    if str_starts_with(header, "Bearer ") {
        let n = header.unicode_len();
        let t = header.substring_char(7, n);
        proof {
            assert(t@ =~= header@.skip(7));
        }
        Some(t)
    } else {
        None
    }
}

/// What the authentication gate decided for one request.
pub enum AuthOutcome {
    /// The route is public (or the request a CORS preflight): no
    /// token required, no identity attached.
    Public,
    /// A valid access token was presented; its claims identify the
    /// caller, whose subject id the directory lookup then resolves.
    Authenticated(Claims),
    /// The request is terminated with an authentication error.
    Denied(AppError),
}

/// The authentication gate.  Public paths and CORS preflights pass
/// untouched; otherwise a bearer access token is demanded and
/// verified against `now`.  Every failure mode -- missing header,
/// malformed header, bad signature, expiry, wrong kind -- is the
/// same opaque authentication error.
pub fn authenticate_request(
    jwt: &JwtManager,
    publics: &Vec<String>,
    path: &str,
    method: &str,
    auth_header: Option<&str>,
    now: i64,
) -> (r: AuthOutcome)
    ensures
        r is Public <==> (spec_public_match(publics@, path@) || method@ == "OPTIONS"@),
        r matches AuthOutcome::Authenticated(c) ==> c@.exp > now && c@.token_type
            == TokenType::Access,
        r matches AuthOutcome::Authenticated(c) ==> (auth_header matches Some(h) && spec_is_prefix(
            "Bearer "@,
            h@,
        ) && spec_verified_claims(jwt.spec_secret(), h@.skip(7), now as int) == Some(c@)),
        r matches AuthOutcome::Denied(e) ==> e matches AppError::AuthenticationError(_),
        !(r is Public) ==> match auth_header {
            None => r is Denied,
            Some(h) => {
                &&& !spec_is_prefix("Bearer "@, h@) ==> r is Denied
                &&& forall|sub: Seq<char>, email: Seq<char>, exp: int, iat: int, kind: TokenType|
                    i64::MIN <= exp <= i64::MAX && i64::MIN <= iat <= i64::MAX
                        && spec_is_prefix("Bearer "@, h@) && h@.skip(7)
                        == #[trigger] token_of(
                        jwt.spec_secret(),
                        sub,
                        email,
                        exp,
                        iat,
                        spec_kind_label(kind),
                    ) ==> if exp > now && kind == TokenType::Access {
                        r matches AuthOutcome::Authenticated(c) && c@ == (ClaimsView {
                            sub,
                            email,
                            exp,
                            iat,
                            token_type: kind,
                        })
                    } else {
                        r is Denied
                    }
            },
        },
{
    if is_public_path(path, publics) || str_eq(method, "OPTIONS") {
        return AuthOutcome::Public;
    }
    let header = match auth_header {
        Some(h) => h,
        None => {
            return AuthOutcome::Denied(
                AppError::AuthenticationError(String::from_str("Missing authorization token")),
            );
        },
    };
    let token = match bearer_token(header) {
        Some(t) => t,
        None => {
            return AuthOutcome::Denied(
                AppError::AuthenticationError(String::from_str("Missing authorization token")),
            );
        },
    };
    match jwt.verify_access_token(token, now) {
        Ok(claims) => AuthOutcome::Authenticated(claims),
        Err(e) => AuthOutcome::Denied(e),
    }
}

/// Best-effort variant for routes that serve both authenticated and
/// anonymous callers: any failure yields no identity instead of a
/// rejection.
pub fn authenticate_optional(jwt: &JwtManager, auth_header: Option<&str>, now: i64) -> (r: Option<
    Claims,
>)
    ensures
        r matches Some(c) ==> c@.exp > now && c@.token_type == TokenType::Access,
        r matches Some(c) ==> (auth_header matches Some(h) && spec_is_prefix("Bearer "@, h@)
            && spec_verified_claims(jwt.spec_secret(), h@.skip(7), now as int) == Some(c@)),
        match auth_header {
            None => r is None,
            Some(h) => {
                &&& !spec_is_prefix("Bearer "@, h@) ==> r is None
                &&& forall|sub: Seq<char>, email: Seq<char>, exp: int, iat: int, kind: TokenType|
                    i64::MIN <= exp <= i64::MAX && i64::MIN <= iat <= i64::MAX
                        && spec_is_prefix("Bearer "@, h@) && h@.skip(7)
                        == #[trigger] token_of(
                        jwt.spec_secret(),
                        sub,
                        email,
                        exp,
                        iat,
                        spec_kind_label(kind),
                    ) ==> if exp > now && kind == TokenType::Access {
                        r matches Some(c) && c@ == (ClaimsView {
                            sub,
                            email,
                            exp,
                            iat,
                            token_type: kind,
                        })
                    } else {
                        r is None
                    }
            },
        },
{
    let header = match auth_header {
        Some(h) => h,
        None => {
            return None;
        },
    };
    let token = match bearer_token(header) {
        Some(t) => t,
        None => {
            return None;
        },
    };
    match jwt.verify_access_token(token, now) {
        Ok(claims) => Some(claims),
        Err(_) => None,
    }
}

/// The rate-limit gate: consult the limiter bound to this route
/// class under the caller's key and terminate the request when the
/// budget is exhausted; on admission report the remaining budget.
pub fn rate_limit_gate(limiter: &mut RateLimiter, key: &str, now: u64) -> (r: Result<
    u32,
    AppError,
>)
    requires
        old(limiter).wf(),
    ensures
        final(limiter).wf(),
        final(limiter).spec_limit() == old(limiter).spec_limit(),
        final(limiter).spec_window() == old(limiter).spec_window(),
        final(limiter).stamps(key@) == after_admit(
            old(limiter).stamps(key@),
            now,
            old(limiter).spec_window(),
            old(limiter).spec_limit(),
        ),
        forall|k: Seq<char>|
            k != key@ ==> final(limiter).has_key(k) == old(limiter).has_key(k)
                && final(limiter).stamps(k) == old(limiter).stamps(k),
        r is Ok <==> admits(
            old(limiter).stamps(key@),
            now,
            old(limiter).spec_window(),
            old(limiter).spec_limit(),
        ),
        r matches Err(e) ==> e matches AppError::RateLimitExceeded,
        r matches Ok(remaining) ==> remaining == if live_stamps(
            final(limiter).stamps(key@),
            now,
            final(limiter).spec_window(),
        ).len() <= final(limiter).spec_limit() {
            final(limiter).spec_limit() - live_stamps(
                final(limiter).stamps(key@),
                now,
                final(limiter).spec_window(),
            ).len()
        } else {
            0int
        },
{
    if !limiter.check_rate_limit(key, now) {
        return Err(AppError::RateLimitExceeded);
    }
    let remaining = limiter.get_remaining(key, now);
    Ok(remaining)
}

/// Resolve the directory's answer for a verified subject: a found
/// account passes through, a miss is rejected with the same opaque
/// category as an invalid token, so callers cannot tell a bad token
/// from a token for a deleted account.
pub fn resolve_principal(user: Option<User>) -> (r: Result<User, AppError>)
    ensures
        r is Ok <==> user is Some,
        r matches Ok(u) ==> user == Some(u),
        r matches Err(e) ==> (e matches AppError::AuthenticationError(m) && m@
            == "User not found"@),
{
    match user {
        Some(u) => Ok(u),
        None => Err(AppError::AuthenticationError(String::from_str("User not found"))),
    }
}

/// The two interceptor chains of the pipeline.
#[derive(Debug, Clone, Copy, PartialEq, Eq, Structural)]
pub enum RouteClass {
    Public,
    Protected,
}

/// Run the gates for one request in the mandated order: the
/// rate-limit gate always runs first; the authentication gate runs
/// only for protected routes and only for requests inside their
/// budget.  `Ok(None)` passes the request through anonymously,
/// `Ok(Some(c))` passes it through with the verified claims.
pub fn gate_request(
    class: RouteClass,
    limiter: &mut RateLimiter,
    key: &str,
    now_secs: u64,
    jwt: &JwtManager,
    publics: &Vec<String>,
    path: &str,
    method: &str,
    auth_header: Option<&str>,
    token_now: i64,
) -> (r: Result<Option<Claims>, AppError>)
    requires
        old(limiter).wf(),
    ensures
        final(limiter).wf(),
        final(limiter).spec_limit() == old(limiter).spec_limit(),
        final(limiter).spec_window() == old(limiter).spec_window(),
        final(limiter).stamps(key@) == after_admit(
            old(limiter).stamps(key@),
            now_secs,
            old(limiter).spec_window(),
            old(limiter).spec_limit(),
        ),
        forall|k: Seq<char>|
            k != key@ ==> final(limiter).has_key(k) == old(limiter).has_key(k)
                && final(limiter).stamps(k) == old(limiter).stamps(k),
        (r matches Err(e) && e matches AppError::RateLimitExceeded) <==> !admits(
            old(limiter).stamps(key@),
            now_secs,
            old(limiter).spec_window(),
            old(limiter).spec_limit(),
        ),
        class == RouteClass::Public && admits(
            old(limiter).stamps(key@),
            now_secs,
            old(limiter).spec_window(),
            old(limiter).spec_limit(),
        ) ==> r matches Ok(None),
        r matches Ok(Some(c)) ==> class == RouteClass::Protected && c@.exp > token_now
            && c@.token_type == TokenType::Access,
        r matches Ok(Some(c)) ==> (auth_header matches Some(h) && spec_is_prefix("Bearer "@, h@)
            && spec_verified_claims(jwt.spec_secret(), h@.skip(7), token_now as int) == Some(c@)),
        r matches Err(e) ==> (e matches AppError::RateLimitExceeded || e
            matches AppError::AuthenticationError(_)),
        class == RouteClass::Protected && admits(
            old(limiter).stamps(key@),
            now_secs,
            old(limiter).spec_window(),
            old(limiter).spec_limit(),
        ) ==> {
            &&& (r matches Ok(None) <==> (spec_public_match(publics@, path@) || method@
                == "OPTIONS"@))
            &&& !(spec_public_match(publics@, path@) || method@ == "OPTIONS"@)
                ==> match auth_header {
                None => r is Err,
                Some(h) => {
                    &&& !spec_is_prefix("Bearer "@, h@) ==> r is Err
                    &&& forall|
                        sub: Seq<char>,
                        email: Seq<char>,
                        exp: int,
                        iat: int,
                        kind: TokenType,
                    |
                        i64::MIN <= exp <= i64::MAX && i64::MIN <= iat <= i64::MAX
                            && spec_is_prefix("Bearer "@, h@) && h@.skip(7)
                            == #[trigger] token_of(
                            jwt.spec_secret(),
                            sub,
                            email,
                            exp,
                            iat,
                            spec_kind_label(kind),
                        ) ==> if exp > token_now && kind == TokenType::Access {
                            r matches Ok(Some(c)) && c@ == (ClaimsView {
                                sub,
                                email,
                                exp,
                                iat,
                                token_type: kind,
                            })
                        } else {
                            r matches Err(e) && e matches AppError::AuthenticationError(_)
                        }
                },
            }
        },
{
    match rate_limit_gate(limiter, key, now_secs) {
        Err(e) => {
            return Err(e);
        },
        Ok(_remaining) => {},
    }
    match class {
        RouteClass::Public => Ok(None),
        RouteClass::Protected => {
            match authenticate_request(jwt, publics, path, method, auth_header, token_now) {
                AuthOutcome::Public => Ok(None),
                AuthOutcome::Authenticated(claims) => Ok(Some(claims)),
                AuthOutcome::Denied(e) => Err(e),
            }
        },
    }
}

} // verus!
