//! Decision logic of the account flows: registration input shaping,
//! credential checks, and issuance of session token pairs.  The
//! store queries around these decisions belong to the surrounding
//! service; password hashing is delegated to `bcrypt` behind trusted
//! wrappers.

use vstd::prelude::*;

use crate::errors::AppError;
use crate::jwt::{JwtManager, TokenType, spec_issued_claims, spec_token};
use crate::models::{RegisterRequest, User};
use crate::validation::{
    sanitize_string, spec_email_accepted, spec_password_accepted, spec_trim, validate_email,
    validate_password,
};
use vstd::utf8::encode_utf8;

verus! {

/// The outcome of a bcrypt check: `Some(b)` when the stored hash
/// parses, with `b` telling whether the password matches it, `None`
/// when the hash is malformed.  A function of the two strings alone
/// (the salt and cost are embedded in the hash, and no error depends
/// on anything else).
pub uninterp spec fn bcrypt_outcome(password: Seq<char>, hash: Seq<char>) -> Option<bool>;

/// Whether a password matches a bcrypt hash.
pub open spec fn bcrypt_matches(password: Seq<char>, hash: Seq<char>) -> bool {
    bcrypt_outcome(password, hash) == Some(true)
}

/// Relies on bcrypt::verify: it parses the salt and cost out of
/// `hash`, recomputes the hash of the password under them and
/// compares, so the whole result -- the match as well as the
/// malformed-hash error -- depends only on the two strings.
#[verifier::external_body]
fn bcrypt_verify(password: &str, hash: &str) -> (r: Result<bool, ()>)
    ensures
        r matches Ok(b) ==> bcrypt_outcome(password@, hash@) == Some(b),
        r is Err ==> bcrypt_outcome(password@, hash@) is None,
{
    bcrypt::verify(password, hash).map_err(|_| ())
}

/// Relies on bcrypt::hash: a fresh hash of a password is well formed
/// and verifies against that password.  (Hashing itself may fail:
/// the salt comes from the operating system's randomness.)
#[verifier::external_body]
fn bcrypt_hash(password: &str) -> (r: Result<String, ()>)
    ensures
        r matches Ok(h) ==> bcrypt_outcome(password@, h@) == Some(true),
{
    bcrypt::hash(password, bcrypt::DEFAULT_COST).map_err(|_| ())
}

/// The Unicode lowercasing of a string, as a function of its
/// characters alone.
pub uninterp spec fn lower_of(s: Seq<char>) -> Seq<char>;

/// Relies on str::to_lowercase: the result depends on the characters
/// alone.
#[verifier::external_body]
fn lowercase(s: &str) -> (r: String)
    ensures
        r@ == lower_of(s@),
{
    s.to_lowercase()
}

/// An email as the store keys it: trimmed, then lowercased.
pub fn normalize_email(email: &str) -> (r: String)
    ensures
        r@ == lower_of(spec_trim(email@)),
{
    let trimmed = sanitize_string(email);
    lowercase(trimmed.as_str())
}

/// The account row a registration inserts.
#[derive(Debug)]
pub struct NewUser {
    pub email: String,
    pub display_name: String,
    pub password_hash: String,
}

/// Decide a registration request: validate the raw email and the
/// password, then normalize the email, trim the display name and
/// hash the password.  Exactly the invalid inputs are rejected with
/// the validator's error; a valid request fails only on a hashing
/// fault, reported as an internal error.
pub fn prepare_registration(req: &RegisterRequest) -> (r: Result<NewUser, AppError>)
    ensures
        r matches Ok(u) ==> {
            &&& u.email@ == lower_of(spec_trim(req.email@))
            &&& u.display_name@ == spec_trim(req.display_name@)
            &&& bcrypt_matches(req.password@, u.password_hash@)
        },
        r is Ok ==> spec_email_accepted(req.email@) && spec_password_accepted(req.password@),
        !spec_email_accepted(req.email@) ==> (r matches Err(e) && e
            matches AppError::ValidationError(m) && m@ == "Invalid email format"@),
        spec_email_accepted(req.email@) && encode_utf8(req.password@).len() < 8 ==> (r
            matches Err(e) && e matches AppError::ValidationError(m) && m@
            == "Password must be at least 8 characters"@),
        spec_email_accepted(req.email@) && encode_utf8(req.password@).len() > 128 ==> (r
            matches Err(e) && e matches AppError::ValidationError(m) && m@
            == "Password must be less than 128 characters"@),
        spec_email_accepted(req.email@) && spec_password_accepted(req.password@) ==> (r is Ok || (
        r matches Err(e) && e matches AppError::InternalError(_))),
        r matches Err(e) ==> (e matches AppError::ValidationError(_) || e
            matches AppError::InternalError(_)),
{
    match validate_email(req.email.as_str()) {
        Ok(_) => {},
        Err(e) => {
            return Err(e);
        },
    }
    match validate_password(req.password.as_str()) {
        Ok(_) => {},
        Err(e) => {
            return Err(e);
        },
    }
    let email = normalize_email(req.email.as_str());
    let display_name = sanitize_string(req.display_name.as_str());
    let password_hash = match bcrypt_hash(req.password.as_str()) {
        Ok(h) => h,
        Err(_) => {
            return Err(AppError::InternalError(String::from_str("Password hashing failed")));
        },
    };
    Ok(NewUser { email, display_name, password_hash })
}

/// The conflict rule of registration: an address that is already
/// registered is rejected, any other is accepted.
pub fn registration_conflict(email_taken: bool) -> (r: Result<(), AppError>)
    ensures
        r is Ok <==> !email_taken,
        r matches Err(e) ==> (e matches AppError::Conflict(m) && m@ == "Email already registered"@),
{
    if email_taken {
        return Err(AppError::Conflict(String::from_str("Email already registered")));
    }
    Ok(())
}

/// Decide a login attempt against the looked-up account.  A missing
/// account and a non-matching password fail with the identical
/// opaque message, so callers learn nothing about which accounts
/// exist; a matching password is accepted; only a stored hash that
/// bcrypt cannot parse is an internal error.
pub fn verify_credentials(user: Option<&User>, password: &str) -> (r: Result<(), AppError>)
    ensures
        r is Ok <==> (user matches Some(u) && bcrypt_matches(password@, u.password_hash@)),
        user is None ==> (r matches Err(e) && e matches AppError::AuthenticationError(m) && m@
            == "Invalid credentials"@),
        user matches Some(u) && bcrypt_outcome(password@, u.password_hash@) == Some(false) ==> (r
            matches Err(e) && e matches AppError::AuthenticationError(m) && m@
            == "Invalid credentials"@),
        user matches Some(u) && bcrypt_outcome(password@, u.password_hash@) is None ==> (r
            matches Err(e) && e matches AppError::InternalError(_)),
        r matches Err(e) ==> ((e matches AppError::AuthenticationError(m) && m@
            == "Invalid credentials"@) || (e matches AppError::InternalError(_))),
{
    let u = match user {
        Some(u) => u,
        None => {
            return Err(AppError::AuthenticationError(String::from_str("Invalid credentials")));
        },
    };
    match bcrypt_verify(password, u.password_hash.as_str()) {
        Ok(true) => Ok(()),
        Ok(false) => Err(AppError::AuthenticationError(String::from_str("Invalid credentials"))),
        Err(_) => Err(
            AppError::InternalError(String::from_str("Password verification failed")),
        ),
    }
}

/// Issue the access and refresh pair a successful registration,
/// login or refresh hands back.  Issuance always succeeds.
pub fn issue_token_pair(jwt: &JwtManager, user_id: &str, email: &str, now: i64) -> (r: Result<
    (String, String),
    AppError,
>)
    requires
        i64::MIN <= now + jwt.spec_access_expiration() <= i64::MAX,
        i64::MIN <= now + jwt.spec_refresh_expiration() <= i64::MAX,
    ensures
        r is Ok,
        r matches Ok(pair) ==> {
            &&& pair.0@ == spec_token(
                jwt.spec_secret(),
                spec_issued_claims(
                    user_id@,
                    email@,
                    now as int,
                    jwt.spec_access_expiration() as int,
                    TokenType::Access,
                ),
            )
            &&& pair.1@ == spec_token(
                jwt.spec_secret(),
                spec_issued_claims(
                    user_id@,
                    email@,
                    now as int,
                    jwt.spec_refresh_expiration() as int,
                    TokenType::Refresh,
                ),
            )
        },
{
    let access = match jwt.generate_access_token(user_id, email, now) {
        Ok(t) => t,
        Err(e) => {
            return Err(e);
        },
    };
    let refresh = match jwt.generate_refresh_token(user_id, email, now) {
        Ok(t) => t,
        Err(e) => {
            return Err(e);
        },
    };
    Ok((access, refresh))
}

} // verus!
