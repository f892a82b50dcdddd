//! Token service: issues and verifies signed, time-bounded tokens
//! carrying a subject identity, an email attribute and a token kind.
//!
//! A single signing secret covers both kinds; the kind tag is what
//! prevents a refresh token from being replayed as an access token
//! and vice versa.  The clock is injected: issuance and verification
//! take `now` as an argument.
//!
//! The cryptographic work is delegated to `jsonwebtoken`; its encode
//! and decode calls sit behind two trusted wrappers whose contracts
//! speak of two uninterpreted names: `token_of`, the token issued
//! for given claims, and `decode_of`, the clock-independent outcome
//! of decoding a token under a secret.

use jsonwebtoken::{Algorithm, DecodingKey, EncodingKey, Header, Validation};
use serde_json::Value;
use vstd::prelude::*;

use crate::errors::AppError;
use crate::text::str_eq;

verus! {

/// Distinguishes short-lived access credentials from long-lived
/// refresh credentials.
#[derive(Debug, Clone, Copy, PartialEq, Eq, Structural)]
pub enum TokenType {
    Access,
    Refresh,
}

/// The decoded payload of a verified token.  Claims are created at
/// issuance, are immutable, and exist only inside the signed string.
#[derive(Debug, Clone)]
pub struct Claims {
    /// Subject identifier (a user id).
    pub sub: String,
    pub email: String,
    /// Expiry timestamp, seconds since epoch.
    pub exp: i64,
    /// Issued-at timestamp, seconds since epoch.
    pub iat: i64,
    pub token_type: TokenType,
}

pub ghost struct ClaimsView {
    pub sub: Seq<char>,
    pub email: Seq<char>,
    pub exp: int,
    pub iat: int,
    pub token_type: TokenType,
}

impl View for Claims {
    type V = ClaimsView;

    open spec fn view(&self) -> ClaimsView {
        ClaimsView {
            sub: self.sub@,
            email: self.email@,
            exp: self.exp as int,
            iat: self.iat as int,
            token_type: self.token_type,
        }
    }
}

/// The string under which a token kind is stored inside the payload.
pub open spec fn spec_kind_label(t: TokenType) -> Seq<char> {
    match t {
        TokenType::Access => "Access"@,
        TokenType::Refresh => "Refresh"@,
    }
}

/// The signed token string produced for a secret and a set of claim
/// fields.  Spelling it out would mean writing down base64url, JSON
/// serialization and HMAC-SHA256, so it stays a name; the trusted
/// wrappers below state how `jsonwebtoken` relates to it.
pub uninterp spec fn token_of(
    secret: Seq<char>,
    sub: Seq<char>,
    email: Seq<char>,
    exp: int,
    iat: int,
    kind: Seq<char>,
) -> Seq<char>;

/// `token_of` applied to a whole claims record.
pub open spec fn spec_token(secret: Seq<char>, c: ClaimsView) -> Seq<char> {
    token_of(secret, c.sub, c.email, c.exp, c.iat, spec_kind_label(c.token_type))
}

/// The claims a call at time `now` with time-to-live `ttl` issues.
pub open spec fn spec_issued_claims(
    sub: Seq<char>,
    email: Seq<char>,
    now: int,
    ttl: int,
    kind: TokenType,
) -> ClaimsView {
    ClaimsView { sub, email, exp: now + ttl, iat: now, token_type: kind }
}

/// What decoding a token under a secret yields: `Some` of the five
/// claim fields (subject, email, expiry, issued-at, kind label)
/// embedded in the payload when the token is well formed and its
/// signature verifies under the secret, `None` otherwise.  The
/// trusted decoder turns expiry validation off, so this outcome
/// never depends on the clock: it is a function of the two strings
/// alone, which is what lets it carry a name.
pub uninterp spec fn decode_of(secret: Seq<char>, token: Seq<char>) -> Option<
    (Seq<char>, Seq<char>, int, int, Seq<char>),
>;

/// The claims verification at time `now` accepts for `token` under
/// `secret`, if any: the token must decode under the secret -- in
/// particular its signature must verify -- carry a recognized kind
/// label, and be unexpired.
pub open spec fn spec_verified_claims(secret: Seq<char>, token: Seq<char>, now: int) -> Option<
    ClaimsView,
> {
    match decode_of(secret, token) {
        Some(f) => {
            if f.2 <= now {
                None
            } else if f.4 == spec_kind_label(TokenType::Access) {
                Some(
                    ClaimsView {
                        sub: f.0,
                        email: f.1,
                        exp: f.2,
                        iat: f.3,
                        token_type: TokenType::Access,
                    },
                )
            } else if f.4 == spec_kind_label(TokenType::Refresh) {
                Some(
                    ClaimsView {
                        sub: f.0,
                        email: f.1,
                        exp: f.2,
                        iat: f.3,
                        token_type: TokenType::Refresh,
                    },
                )
            } else {
                None
            }
        },
        None => None,
    }
}

/// Claim fields decoded from a token payload, before the kind label
/// has been interpreted.
struct RawClaims {
    sub: String,
    email: String,
    exp: i64,
    iat: i64,
    token_type: String,
}

/// Relies on jsonwebtoken::encode with HS256: given the secret and a
/// fixed header, the returned token is a function of the claim fields
/// alone (payload serialization is deterministic), here `token_of`.
/// The call cannot fail: the default header's algorithm family
/// matches an HMAC secret key, HMAC accepts keys of any length and
/// signing is infallible, and serializing a string-keyed JSON object
/// of strings and integers cannot fail.  (The crate enables exactly
/// one crypto provider, so the default provider is installed.)
#[verifier::external_body]
fn encode_token(secret: &str, claims: &Claims) -> (r: Result<String, ()>)
    ensures
        r is Ok,
        r matches Ok(t) ==> t@ == spec_token(secret@, claims@),
{
    let kind = match claims.token_type {
        TokenType::Access => "Access",
        TokenType::Refresh => "Refresh",
    };
    let mut payload = serde_json::Map::new();
    payload.insert("sub".to_string(), Value::String(claims.sub.clone()));
    payload.insert("email".to_string(), Value::String(claims.email.clone()));
    payload.insert("exp".to_string(), Value::from(claims.exp));
    payload.insert("iat".to_string(), Value::from(claims.iat));
    payload.insert("token_type".to_string(), Value::String(kind.to_string()));
    let key = EncodingKey::from_secret(secret.as_bytes());
    jsonwebtoken::encode(&Header::default(), &Value::Object(payload), &key).map_err(|_| ())
}

/// Relies on jsonwebtoken::decode with HS256 (signature check only;
/// expiry is checked by the verified caller).  Its outcome is the
/// named `decode_of`: it succeeds exactly on the tokens whose
/// signature verifies under the secret and whose payload carries the
/// five fields, and returns exactly those fields.  In particular,
/// decoding a token that `encode_token` built from given fields
/// under the same secret succeeds and returns them, since the
/// payload is embedded in the token and deserialization inverts
/// serialization.
#[verifier::external_body]
fn decode_token(secret: &str, token: &str) -> (r: Result<RawClaims, ()>)
    ensures
        r is Ok <==> decode_of(secret@, token@) is Some,
        r matches Ok(c) ==> (decode_of(secret@, token@) matches Some(f) && c.sub@ == f.0
            && c.email@ == f.1 && c.exp == f.2 && c.iat == f.3 && c.token_type@ == f.4),
        r is Err ==> forall|sub: Seq<char>, email: Seq<char>, exp: int, iat: int, kind: Seq<char>|
            i64::MIN <= exp <= i64::MAX && i64::MIN <= iat <= i64::MAX ==> token@
                != #[trigger] token_of(secret@, sub, email, exp, iat, kind),
        r matches Ok(c) ==> forall|
            sub: Seq<char>,
            email: Seq<char>,
            exp: int,
            iat: int,
            kind: Seq<char>,
        |
            i64::MIN <= exp <= i64::MAX && i64::MIN <= iat <= i64::MAX && token@
                == #[trigger] token_of(secret@, sub, email, exp, iat, kind) ==> (c.sub@ == sub
                && c.email@ == email && c.exp == exp && c.iat == iat && c.token_type@ == kind),
{
    let mut validation = Validation::new(Algorithm::HS256);
    validation.validate_exp = false;
    validation.required_spec_claims.clear();
    let key = DecodingKey::from_secret(secret.as_bytes());
    let c = jsonwebtoken::decode::<Value>(token, &key, &validation).map_err(|_| ())?.claims;
    let text = |k: &str| c.get(k).and_then(Value::as_str).map(String::from).ok_or(());
    let num = |k: &str| c.get(k).and_then(Value::as_i64).ok_or(());
    Ok(RawClaims {
        sub: text("sub")?,
        email: text("email")?,
        exp: num("exp")?,
        iat: num("iat")?,
        token_type: text("token_type")?,
    })
}

pub struct JwtManager {
    secret: String,
    access_expiration: i64,
    refresh_expiration: i64,
}

impl JwtManager {
    /// The configured signing secret.
    pub closed spec fn spec_secret(self) -> Seq<char> {
        self.secret@
    }

    /// Lifetime of issued access tokens, in seconds.
    pub closed spec fn spec_access_expiration(self) -> i64 {
        self.access_expiration
    }

    /// Lifetime of issued refresh tokens, in seconds.
    pub closed spec fn spec_refresh_expiration(self) -> i64 {
        self.refresh_expiration
    }

    /// The configured access-token lifetime, in seconds.
    pub fn access_expiration(&self) -> (r: i64)
        ensures
            r == self.spec_access_expiration(),
    {
        self.access_expiration
    }

    /// The configured refresh-token lifetime, in seconds.
    pub fn refresh_expiration(&self) -> (r: i64)
        ensures
            r == self.spec_refresh_expiration(),
    {
        self.refresh_expiration
    }

    pub fn new(secret: String, access_exp: i64, refresh_exp: i64) -> (r: JwtManager)
        ensures
            r.spec_secret() == secret@,
            r.spec_access_expiration() == access_exp,
            r.spec_refresh_expiration() == refresh_exp,
    {
        JwtManager { secret, access_expiration: access_exp, refresh_expiration: refresh_exp }
    }

    /// Issue a token of the given kind at time `now`: the claims get
    /// `iat = now` and `exp = now + expiration`, and the result is
    /// the signed encoding of exactly those claims.  Issuance always
    /// succeeds; the error arm only maps a signing fault the trusted
    /// encoder rules out.
    fn generate_token(
        &self,
        user_id: &str,
        email: &str,
        token_type: TokenType,
        expiration: i64,
        now: i64,
    ) -> (r: Result<String, AppError>)
        requires
            i64::MIN <= now + expiration <= i64::MAX,
        ensures
            r is Ok,
            r matches Ok(t) ==> t@ == spec_token(
                self.spec_secret(),
                spec_issued_claims(user_id@, email@, now as int, expiration as int, token_type),
            ),
    {
        let exp = now + expiration;
        let claims = Claims {
            sub: user_id.to_owned(),
            email: email.to_owned(),
            exp,
            iat: now,
            token_type,
        };
        match encode_token(self.secret.as_str(), &claims) {
            Ok(t) => Ok(t),
            Err(_) => Err(
                AppError::InternalError(String::from_str("Token generation failed")),
            ),
        }
    }

    /// Issue an access token for the subject at time `now`.
    pub fn generate_access_token(&self, user_id: &str, email: &str, now: i64) -> (r: Result<
        String,
        AppError,
    >)
        requires
            i64::MIN <= now + self.spec_access_expiration() <= i64::MAX,
        ensures
            r is Ok,
            r matches Ok(t) ==> t@ == spec_token(
                self.spec_secret(),
                spec_issued_claims(
                    user_id@,
                    email@,
                    now as int,
                    self.spec_access_expiration() as int,
                    TokenType::Access,
                ),
            ),
    {
        self.generate_token(user_id, email, TokenType::Access, self.access_expiration, now)
    }

    /// Issue a refresh token for the subject at time `now`.
    pub fn generate_refresh_token(&self, user_id: &str, email: &str, now: i64) -> (r: Result<
        String,
        AppError,
    >)
        requires
            i64::MIN <= now + self.spec_refresh_expiration() <= i64::MAX,
        ensures
            r is Ok,
            r matches Ok(t) ==> t@ == spec_token(
                self.spec_secret(),
                spec_issued_claims(
                    user_id@,
                    email@,
                    now as int,
                    self.spec_refresh_expiration() as int,
                    TokenType::Refresh,
                ),
            ),
    {
        self.generate_token(user_id, email, TokenType::Refresh, self.refresh_expiration, now)
    }

    /// Decode a token and check its signature and expiry against
    /// `now`: a token is accepted exactly when it decodes under the
    /// configured secret -- so its signature verifies -- carries a
    /// recognized kind, and is unexpired, and it yields exactly the
    /// decoded claims.  Every rejection carries one fixed opaque
    /// message, so callers cannot tell a bad signature from expiry
    /// or a wrong kind.
    pub fn verify_token(&self, token: &str, now: i64) -> (r: Result<Claims, AppError>)
        ensures
            r is Ok <==> spec_verified_claims(self.spec_secret(), token@, now as int) is Some,
            r matches Ok(c) ==> spec_verified_claims(self.spec_secret(), token@, now as int)
                == Some(c@),
            r matches Ok(c) ==> c@.exp > now,
            forall|sub: Seq<char>, email: Seq<char>, exp: int, iat: int, kind: TokenType|
                i64::MIN <= exp <= i64::MAX && i64::MIN <= iat <= i64::MAX && token@
                    == #[trigger] token_of(
                    self.spec_secret(),
                    sub,
                    email,
                    exp,
                    iat,
                    spec_kind_label(kind),
                ) ==> if exp > now {
                    r matches Ok(c) && c@ == (ClaimsView { sub, email, exp, iat, token_type: kind })
                } else {
                    r is Err
                },
            r matches Err(e) ==> (e matches AppError::AuthenticationError(m) && m@
                == "Invalid token"@),
    {
        proof {
            reveal_strlit("Access");
            reveal_strlit("Refresh");
            assert("Access"@ != "Refresh"@) by {
                assert("Access"@.len() != "Refresh"@.len());
            }
        }
        let raw = match decode_token(self.secret.as_str(), token) {
            Ok(raw) => raw,
            Err(_) => {
                return Err(AppError::AuthenticationError(String::from_str("Invalid token")));
            },
        };
        let token_type = if str_eq(raw.token_type.as_str(), "Access") {
            TokenType::Access
        } else if str_eq(raw.token_type.as_str(), "Refresh") {
            TokenType::Refresh
        } else {
            return Err(AppError::AuthenticationError(String::from_str("Invalid token")));
        };
        if raw.exp <= now {
            return Err(AppError::AuthenticationError(String::from_str("Invalid token")));
        }
        Ok(Claims { sub: raw.sub, email: raw.email, exp: raw.exp, iat: raw.iat, token_type })
    }

    /// Verify a token and additionally require the access kind: a
    /// token is accepted exactly when it decodes under the secret,
    /// is unexpired and carries the access kind; one issued as
    /// refresh is rejected even when its signature and expiry are
    /// good.
    pub fn verify_access_token(&self, token: &str, now: i64) -> (r: Result<Claims, AppError>)
        ensures
            r is Ok <==> (match spec_verified_claims(self.spec_secret(), token@, now as int) {
                Some(c) => c.token_type == TokenType::Access,
                None => false,
            }),
            r matches Ok(c) ==> spec_verified_claims(self.spec_secret(), token@, now as int)
                == Some(c@),
            r matches Ok(c) ==> c@.exp > now && c@.token_type == TokenType::Access,
            forall|sub: Seq<char>, email: Seq<char>, exp: int, iat: int, kind: TokenType|
                i64::MIN <= exp <= i64::MAX && i64::MIN <= iat <= i64::MAX && token@
                    == #[trigger] token_of(
                    self.spec_secret(),
                    sub,
                    email,
                    exp,
                    iat,
                    spec_kind_label(kind),
                ) ==> if exp > now && kind == TokenType::Access {
                    r matches Ok(c) && c@ == (ClaimsView { sub, email, exp, iat, token_type: kind })
                } else {
                    r is Err
                },
            r matches Err(e) ==> (e matches AppError::AuthenticationError(m) && m@
                == "Invalid token"@),
    {
        match self.verify_token(token, now) {
            Ok(claims) => {
                if claims.token_type == TokenType::Access {
                    Ok(claims)
                } else {
                    Err(AppError::AuthenticationError(String::from_str("Invalid token")))
                }
            },
            Err(e) => Err(e),
        }
    }

    /// Verify a token and additionally require the refresh kind: a
    /// token is accepted exactly when it decodes under the secret,
    /// is unexpired and carries the refresh kind; one issued as
    /// access is rejected even when its signature and expiry are
    /// good.
    pub fn verify_refresh_token(&self, token: &str, now: i64) -> (r: Result<Claims, AppError>)
        ensures
            r is Ok <==> (match spec_verified_claims(self.spec_secret(), token@, now as int) {
                Some(c) => c.token_type == TokenType::Refresh,
                None => false,
            }),
            r matches Ok(c) ==> spec_verified_claims(self.spec_secret(), token@, now as int)
                == Some(c@),
            r matches Ok(c) ==> c@.exp > now && c@.token_type == TokenType::Refresh,
            forall|sub: Seq<char>, email: Seq<char>, exp: int, iat: int, kind: TokenType|
                i64::MIN <= exp <= i64::MAX && i64::MIN <= iat <= i64::MAX && token@
                    == #[trigger] token_of(
                    self.spec_secret(),
                    sub,
                    email,
                    exp,
                    iat,
                    spec_kind_label(kind),
                ) ==> if exp > now && kind == TokenType::Refresh {
                    r matches Ok(c) && c@ == (ClaimsView { sub, email, exp, iat, token_type: kind })
                } else {
                    r is Err
                },
            r matches Err(e) ==> (e matches AppError::AuthenticationError(m) && m@
                == "Invalid token"@),
    {
        match self.verify_token(token, now) {
            Ok(claims) => {
                if claims.token_type == TokenType::Refresh {
                    Ok(claims)
                } else {
                    Err(AppError::AuthenticationError(String::from_str("Invalid token")))
                }
            },
            Err(e) => Err(e),
        }
    }
}

} // verus!

