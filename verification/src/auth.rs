//! Password hashing and session tokens.
//!
//! Hashing is Argon2 and tokens are HS256 JSON Web Tokens; both are computed
//! by the crates that implement them.  What this module decides itself, and
//! proves, is what surrounds those calls: when a token expires, which claims
//! are well formed, and which failure a caller gets to see.

use vstd::prelude::*;
use argon2::password_hash::rand_core::OsRng;
use argon2::password_hash::{PasswordHash, SaltString};
use argon2::{Argon2, PasswordHasher, PasswordVerifier};
use jsonwebtoken::errors::ErrorKind;
use jsonwebtoken::{Algorithm, DecodingKey, EncodingKey, Header, Validation};
use time::OffsetDateTime;

verus! {

/// How long a token is valid, in hours.
pub const TOKEN_EXP_HOURS: i64 = 12;

/// The failures that callers get to see.
#[derive(Clone, Copy, Debug, PartialEq, Eq, Structural)]
pub enum AuthError {
    /// The user name is taken.
    Conflict,
    /// Bad credentials, or a token that is missing, invalid or expired.
    Unauthorized,
    /// A valid identity without the role or the CSRF token that is asked for.
    Forbidden,
    /// A request that names a role that does not exist.
    BadRequest,
    /// Hashing, signing or the store failed.
    Internal,
}

impl AuthError {
    /// The HTTP status that stands for the failure.
    pub open spec fn status_code(self) -> int {
        match self {
            AuthError::Conflict => 409,
            AuthError::Unauthorized => 401,
            AuthError::Forbidden => 403,
            AuthError::BadRequest => 400,
            AuthError::Internal => 500,
        }
    }

    /// The HTTP status that stands for the failure.
    pub fn status(&self) -> (r: u16)
        ensures
            r == self.status_code(),
    {
        match self {
            AuthError::Conflict => 409,
            AuthError::Unauthorized => 401,
            AuthError::Forbidden => 403,
            AuthError::BadRequest => 400,
            AuthError::Internal => 500,
        }
    }
}

/// Why a token was not issued or not accepted.
#[derive(Clone, Copy, Debug, PartialEq, Eq, Structural)]
pub enum TokenError {
    /// The signature does not belong to the token under this secret.
    BadSignature,
    /// The token is past its expiry.
    Expired,
    /// The token is no token, or its claims are not those of a session.
    Malformed,
    /// No expiry fits, or signing failed.
    Internal,
}

impl TokenError {
    /// What the caller gets to see: a token that cannot be issued is an
    /// internal error, every token that is not accepted is `Unauthorized`.
    pub fn to_auth_error(&self) -> (r: AuthError)
        ensures
            r == (if *self == TokenError::Internal {
                AuthError::Internal
            } else {
                AuthError::Unauthorized
            }),
    {
        match self {
            TokenError::Internal => AuthError::Internal,
            _ => AuthError::Unauthorized,
        }
    }
}

/// The payload of a session token.
#[derive(Debug, Clone)]
pub struct Claims {
    /// The account id.
    pub sub: i32,
    /// The expiry, in seconds since the epoch.
    pub exp: usize,
    /// The role at the time of issue.
    pub role: String,
}

/// The claims of a token whose signature holds, as far as each is present
/// with the type that a session token gives it.
#[derive(Debug, Clone)]
pub struct RawClaims {
    pub sub: Option<i64>,
    pub exp: Option<u64>,
    pub role: Option<String>,
}

/// An account as the store holds it.
#[derive(Debug, Clone)]
pub struct User {
    pub id: Option<i32>,
    pub username: String,
    pub password_hash: String,
    pub role: String,
}

/// What a registration sends.
#[derive(Debug)]
pub struct RegisterUser {
    pub username: String,
    pub password: String,
}

/// What a login sends.
#[derive(Debug)]
pub struct LoginUser {
    pub username: String,
    pub password: String,
}

/// `jsonwebtoken::errors::Error`, the failure of `encode` and `decode`.
/// Nothing is known of what is inside.
#[verifier::external_type_specification]
#[verifier::external_body]
pub struct ExTokenFault(jsonwebtoken::errors::Error);

/// `argon2::password_hash::Error`, the failure of `hash_password`.  Nothing
/// is known of what is inside.
#[verifier::external_type_specification]
#[verifier::external_body]
pub struct ExHashFault(argon2::password_hash::Error);

/// Whether Argon2 accepts `password` for the encoded hash `hash`: the hash
/// parses and the password, hashed with the parameters and the salt that the
/// hash names, gives the same output.
pub uninterp spec fn argon2_verifies(hash: Seq<char>, password: Seq<char>) -> bool;

/// The HS256 token that carries the claims `sub`, `exp` and `role` under
/// `secret`, or `None` where signing fails.
pub uninterp spec fn hs256_token(sub: int, exp: int, role: Seq<char>, secret: Seq<char>) -> Option<
    Seq<char>,
>;

/// The claims `sub`, `exp` and `role` of `token`, each where it is present as
/// an integer, a non-negative integer and a string, if `token` is an HS256
/// token that `secret` signed and that names an expiry; `None` otherwise.
/// The expiry itself is not looked at.
pub uninterp spec fn hs256_payload(token: Seq<char>, secret: Seq<char>) -> Option<
    (Option<int>, Option<int>, Option<Seq<char>>),
>;

impl RawClaims {
    /// The claims `(sub, exp, role)`, each as far as it is there.
    pub open spec fn view(&self) -> (Option<int>, Option<int>, Option<Seq<char>>) {
        (
            match self.sub {
                Some(v) => Some(v as int),
                None => None,
            },
            match self.exp {
                Some(v) => Some(v as int),
                None => None,
            },
            match self.role {
                Some(v) => Some(v@),
                None => None,
            },
        )
    }
}

/// Calls `Argon2::default().hash_password` with a salt from
/// `SaltString::generate`.  Trusted: a hash that comes back is one that
/// Argon2 accepts for the same password.  Nothing is said of which hash it
/// is: the salt is random.
#[verifier::external_body]
fn argon2_hash(password: &str) -> (r: Result<String, argon2::password_hash::Error>)
    ensures
        r matches Ok(h) ==> argon2_verifies(h@, password@),
{
    let salt = SaltString::generate(&mut OsRng);
    Ok(Argon2::default().hash_password(password.as_bytes(), &salt)?.to_string())
}

/// Calls `PasswordHash::new` and `Argon2::default().verify_password`.
/// Trusted: the result is the named outcome of that check, `false` where the
/// hash does not parse.
#[verifier::external_body]
fn argon2_check(hash: &str, password: &str) -> (r: bool)
    ensures
        r == argon2_verifies(hash@, password@),
{
    match PasswordHash::new(hash) {
        Ok(parsed) => Argon2::default().verify_password(password.as_bytes(), &parsed).is_ok(),
        Err(_) => false,
    }
}

/// Calls `jsonwebtoken::encode` with an HS256 header on the three claims, in
/// the order `sub`, `exp`, `role`.  Trusted: the result is the named token,
/// and a token that comes back decodes under the same secret to the claims
/// that went in.
#[verifier::external_body]
fn sign_hs256(sub: i32, exp: usize, role: &str, secret: &str) -> (r: Result<
    String,
    jsonwebtoken::errors::Error,
>)
    ensures
        r matches Ok(t) ==> hs256_token(sub as int, exp as int, role@, secret@) == Some(t@)
            && hs256_payload(t@, secret@) == Some(
            (Some(sub as int), Some(exp as int), Some(role@)),
        ),
        r is Err ==> hs256_token(sub as int, exp as int, role@, secret@) is None,
{
    let mut claims = serde_json::Map::new();
    claims.insert("sub".to_string(), serde_json::Value::from(sub));
    claims.insert("exp".to_string(), serde_json::Value::from(exp));
    claims.insert("role".to_string(), serde_json::Value::from(role));
    jsonwebtoken::encode(
        &Header::new(Algorithm::HS256),
        &claims,
        &EncodingKey::from_secret(secret.as_bytes()),
    )
}

/// Calls `jsonwebtoken::decode` with the algorithm pinned to HS256 and the
/// expiry check switched off, and reads the three claims from the payload.
/// Trusted: the result is the named payload.
#[verifier::external_body]
fn decode_hs256(token: &str, secret: &str) -> (r: Result<RawClaims, jsonwebtoken::errors::Error>)
    ensures
        r matches Ok(raw) ==> hs256_payload(token@, secret@) == Some(raw@),
        r is Err ==> hs256_payload(token@, secret@) is None,
{
    let mut rules = Validation::new(Algorithm::HS256);
    rules.validate_exp = false;
    let key = DecodingKey::from_secret(secret.as_bytes());
    let data = jsonwebtoken::decode::<serde_json::Value>(token, &key, &rules)?;
    Ok(
        RawClaims {
            sub: data.claims["sub"].as_i64(),
            exp: data.claims["exp"].as_u64(),
            role: data.claims["role"].as_str().map(str::to_string),
        },
    )
}

/// Reads `kind` of `jsonwebtoken::errors::Error`.  Trusted: a rejection by
/// the decoder is reported as a bad signature or as a malformed token.
#[verifier::external_body]
fn rejection(fault: &jsonwebtoken::errors::Error) -> (r: TokenError)
    ensures
        r == TokenError::BadSignature || r == TokenError::Malformed,
{
    match fault.kind() {
        ErrorKind::InvalidSignature => TokenError::BadSignature,
        _ => TokenError::Malformed,
    }
}

/// Calls `OffsetDateTime::now_utc` and `unix_timestamp`: the clock's time in
/// seconds since the epoch.  Nothing is known of it.
#[verifier::external_body]
pub(crate) fn unix_now() -> i64 {
    OffsetDateTime::now_utc().unix_timestamp()
}

/// Hashes a password with a fresh salt.  A hash that comes back verifies
/// against the same password; a failure of the hasher is an internal error.
pub fn hash_password(password: &str) -> (r: Result<String, AuthError>)
    ensures
        r matches Ok(h) ==> argon2_verifies(h@, password@),
        r matches Err(e) ==> e == AuthError::Internal,
{
    match argon2_hash(password) {
        Ok(h) => Ok(h),
        Err(_) => Err(AuthError::Internal),
    }
}

/// Whether `password` is the one that `hash` was made from; `false` where
/// `hash` is no hash at all.
pub fn verify_password(hash: &str, password: &str) -> (r: bool)
    ensures
        r == argon2_verifies(hash@, password@),
{
    argon2_check(hash, password)
}

/// The expiry of a token issued at `now` that lives `lifetime` seconds, where
/// that is a time at or after the epoch that the clock and the claim can
/// hold.
pub open spec fn expiry(now: int, lifetime: int) -> Option<int> {
    if 0 <= now + lifetime <= usize::MAX && now + lifetime <= i64::MAX {
        Some(now + lifetime)
    } else {
        None
    }
}

/// What becomes of decoded claims at the time `now`: malformed unless all
/// three are present and the account id fits; expired once `now` is past
/// the expiry; else the session's claims `(sub, exp, role)`.
pub open spec fn accepted(
    raw: (Option<int>, Option<int>, Option<Seq<char>>),
    now: int,
) -> Result<(int, int, Seq<char>), TokenError> {
    match raw {
        (Some(sub), Some(exp), Some(role)) => {
            if sub < i32::MIN || sub > i32::MAX || exp > usize::MAX {
                Err(TokenError::Malformed)
            } else if exp < now {
                Err(TokenError::Expired)
            } else {
                Ok((sub, exp, role))
            }
        },
        _ => Err(TokenError::Malformed),
    }
}

impl Claims {
    /// The claims `(sub, exp, role)`.
    pub open spec fn view(&self) -> (int, int, Seq<char>) {
        (self.sub as int, self.exp as int, self.role@)
    }
}

/// Whether `r` is the result that the outcome `want` calls for.
pub open spec fn gives(r: Result<Claims, TokenError>, want: Result<(int, int, Seq<char>), TokenError>) -> bool {
    match want {
        Ok(c) => r matches Ok(got) && got@ == c,
        Err(e) => r matches Err(got) && got == e,
    }
}

/// Judges decoded claims at the time `now`.
pub fn accept_claims(raw: RawClaims, now: i64) -> (r: Result<Claims, TokenError>)
    ensures
        gives(r, accepted(raw@, now as int)),
{
    let sub = match raw.sub {
        Some(v) => v,
        None => { return Err(TokenError::Malformed); },
    };
    let exp = match raw.exp {
        Some(v) => v,
        None => { return Err(TokenError::Malformed); },
    };
    let role = match raw.role {
        Some(v) => v,
        None => { return Err(TokenError::Malformed); },
    };
    if sub < -2147483648 || sub > 2147483647 || exp > usize::MAX as u64 {
        return Err(TokenError::Malformed);
    }
    if now > 0 && exp < now as u64 {
        return Err(TokenError::Expired);
    }
    Ok(Claims { sub: sub as i32, exp: exp as usize, role })
}

/// Issues a token for the account `user_id` with the role `role`, as if the
/// clock stood at `now`, valid for `lifetime` seconds.
///
/// The token is accepted under the same secret at every time up to its
/// expiry, with the identity and role that went in.
pub fn issue_at(user_id: i32, role: &str, secret: &str, now: i64, lifetime: i64) -> (r: Result<
    String,
    TokenError,
>)
    ensures
        match expiry(now as int, lifetime as int) {
            None => r == Err::<String, TokenError>(TokenError::Internal),
            Some(exp) => match hs256_token(user_id as int, exp, role@, secret@) {
                Some(t) => r matches Ok(got) && got@ == t,
                None => r == Err::<String, TokenError>(TokenError::Internal),
            },
        },
        r matches Ok(t) ==> hs256_payload(t@, secret@) == Some(
            (Some(user_id as int), Some(now + lifetime), Some(role@)),
        ),
        r matches Ok(t) ==> forall|when: int|
            when <= now + lifetime ==> #[trigger] accepted(hs256_payload(t@, secret@)->0, when)
                == Ok::<(int, int, Seq<char>), TokenError>(
                (user_id as int, now + lifetime, role@),
            ),
{
    let exp: usize = match now.checked_add(lifetime) {
        Some(at) => {
            if at < 0 || at as u64 > usize::MAX as u64 {
                return Err(TokenError::Internal);
            }
            at as usize
        },
        None => { return Err(TokenError::Internal); },
    };
    match sign_hs256(user_id, exp, role, secret) {
        Ok(t) => Ok(t),
        Err(_) => Err(TokenError::Internal),
    }
}

/// Issues a token that expires twelve hours from now.
pub fn generate_token(user_id: i32, role: &str, secret: &str) -> (r: Result<String, TokenError>)
    ensures
        r matches Err(e) ==> e == TokenError::Internal,
        r matches Ok(t) ==> exists|exp: int|
            #![trigger hs256_token(user_id as int, exp, role@, secret@)]
            hs256_token(user_id as int, exp, role@, secret@) == Some(t@) && hs256_payload(
                t@,
                secret@,
            ) == Some((Some(user_id as int), Some(exp), Some(role@))),
{
    let now = unix_now();
    let r = issue_at(user_id, role, secret, now, TOKEN_EXP_HOURS * 3600);
    proof {
        if r is Ok {
            let exp = now + TOKEN_EXP_HOURS * 3600;
            assert(hs256_token(user_id as int, exp, role@, secret@) == Some(r->Ok_0@));
        }
    }
    r
}

/// Whether `r` is a right answer on a token with the decoded `payload` at
/// the time `now`: the judgement of its claims where the decoder let it
/// pass, and a bad signature or a malformed token where it did not.
pub open spec fn judged(
    r: Result<Claims, TokenError>,
    payload: Option<(Option<int>, Option<int>, Option<Seq<char>>)>,
    now: int,
) -> bool {
    match payload {
        Some(raw) => gives(r, accepted(raw, now)),
        None => r matches Err(e) && (e == TokenError::BadSignature || e == TokenError::Malformed),
    }
}

/// Validates `token` under `secret` as if the clock stood at `now`.
pub fn validate_token_at(token: &str, secret: &str, now: i64) -> (r: Result<Claims, TokenError>)
    ensures
        judged(r, hs256_payload(token@, secret@), now as int),
{
    match decode_hs256(token, secret) {
        Ok(raw) => accept_claims(raw, now),
        Err(fault) => Err(rejection(&fault)),
    }
}

/// Validates `token` under `secret` against the clock.
pub fn validate_token(token: &str, secret: &str) -> (r: Result<Claims, TokenError>)
    ensures
        exists|now: int| judged(r, hs256_payload(token@, secret@), now),
{
    let now = unix_now();
    let r = validate_token_at(token, secret, now);
    proof {
        assert(judged(r, hs256_payload(token@, secret@), now as int));
    }
    r
}

/// Well-formed claims are accepted one second before their expiry and at it,
/// and rejected as expired from one second after it.
pub proof fn expiry_boundary(sub: int, exp: int, role: Seq<char>)
    requires
        i32::MIN <= sub <= i32::MAX,
        0 <= exp <= usize::MAX,
    ensures
        accepted((Some(sub), Some(exp), Some(role)), exp - 1) == Ok::<
            (int, int, Seq<char>),
            TokenError,
        >((sub, exp, role)),
        accepted((Some(sub), Some(exp), Some(role)), exp) == Ok::<
            (int, int, Seq<char>),
            TokenError,
        >((sub, exp, role)),
        forall|now: int|
            now > exp ==> #[trigger] accepted((Some(sub), Some(exp), Some(role)), now) == Err::<
                (int, int, Seq<char>),
                TokenError,
            >(TokenError::Expired),
{
}

} // verus!
