//! Authorization of a request: from the `Authorization` header of a request to
//! the identity that the handlers may rely on, or to the refusal.
//!
//! A request starts without a credential.  A header that is missing or is
//! not of the form `Bearer <token>`, and a token that does not validate,
//! end in `Err(Unauthorized)`: the token is rejected.  A token that
//! validates gives `Ok` with the identity it carries: the identity is
//! attached, and the handlers read it from there, never from the token.  On
//! routes for administrators an attached identity with another role ends in
//! `Err(Forbidden)`: the role is denied; with the role `admin` it stays `Ok`:
//! the request is authorized.

use vstd::prelude::*;
use crate::auth::{
    accepted, hs256_payload, unix_now, validate_token_at, AuthError, Claims, TokenError,
};
use crate::text::{equal, starts_with, strip_prefix};

verus! {

/// The identity that a validated token attaches to a request.
#[derive(Debug, Clone)]
pub struct AuthUser {
    pub user_id: i32,
    pub role: String,
}

impl AuthUser {
    /// The account id and the role.
    pub open spec fn view(&self) -> (int, Seq<char>) {
        (self.user_id as int, self.role@)
    }
}

/// The token of an `Authorization` header of the form `Bearer <token>`.
pub open spec fn bearer(header: Option<Seq<char>>) -> Option<Seq<char>> {
    match header {
        Some(h) => if starts_with(h, "Bearer "@) {
            Some(h.subrange("Bearer "@.len() as int, h.len() as int))
        } else {
            None
        },
        None => None,
    }
}

/// The identity that validated claims attach; every failure of validation
/// is `Unauthorized`.
pub open spec fn identity(validated: Result<(int, int, Seq<char>), TokenError>) -> Result<
    (int, Seq<char>),
    AuthError,
> {
    match validated {
        Ok(c) => Ok((c.0, c.2)),
        Err(_) => Err(AuthError::Unauthorized),
    }
}

/// What is decided on a request with the given header at the time `now`.
pub open spec fn auth_outcome(header: Option<Seq<char>>, secret: Seq<char>, now: int) -> Result<
    (int, Seq<char>),
    AuthError,
> {
    match bearer(header) {
        None => Err(AuthError::Unauthorized),
        Some(token) => match hs256_payload(token, secret) {
            None => Err(AuthError::Unauthorized),
            Some(raw) => identity(accepted(raw, now)),
        },
    }
}

/// What is decided on a route for administrators.
pub open spec fn admin_outcome(header: Option<Seq<char>>, secret: Seq<char>, now: int) -> Result<
    (int, Seq<char>),
    AuthError,
> {
    match auth_outcome(header, secret, now) {
        Ok(who) => if who.1 == "admin"@ {
            Ok(who)
        } else {
            Err(AuthError::Forbidden)
        },
        Err(e) => Err(e),
    }
}

/// Whether `r` is the result that `want` calls for.
pub open spec fn attaches(r: Result<AuthUser, AuthError>, want: Result<(int, Seq<char>), AuthError>) -> bool {
    match want {
        Ok(who) => r matches Ok(u) && u@ == who,
        Err(e) => r matches Err(got) && got == e,
    }
}

/// The character sequence of an optional header.
pub open spec fn header_view(header: Option<&str>) -> Option<Seq<char>> {
    match header {
        Some(h) => Some(h@),
        None => None,
    }
}

/// Extracts the token from an `Authorization` header.
pub fn bearer_token(header: Option<&str>) -> (r: Option<String>)
    ensures
        match bearer(header_view(header)) {
            Some(t) => r matches Some(got) && got@ == t,
            None => r is None,
        },
{
    match header {
        Some(h) => strip_prefix(h, "Bearer "),
        None => None,
    }
}

/// The identity that the outcome of a validation attaches.
pub fn identify(validated: Result<Claims, TokenError>) -> (r: Result<AuthUser, AuthError>)
    ensures
        validated matches Ok(c) ==> (r matches Ok(u) && u@ == (c.sub as int, c.role@)),
        validated is Err ==> r == Err::<AuthUser, AuthError>(AuthError::Unauthorized),
{
    match validated {
        Ok(claims) => Ok(AuthUser { user_id: claims.sub, role: claims.role }),
        Err(_) => Err(AuthError::Unauthorized),
    }
}

/// Authorizes a request on a route that any account may use, as if the
/// clock stood at `now`.
pub fn require_auth_at(header: Option<&str>, secret: &str, now: i64) -> (r: Result<
    AuthUser,
    AuthError,
>)
    ensures
        attaches(r, auth_outcome(header_view(header), secret@, now as int)),
{
    match bearer_token(header) {
        Some(token) => identify(validate_token_at(token.as_str(), secret, now)),
        None => Err(AuthError::Unauthorized),
    }
}

/// Authorizes a request on a route that any account may use, by the clock.
pub fn require_auth(header: Option<&str>, secret: &str) -> (r: Result<AuthUser, AuthError>)
    ensures
        exists|now: int| attaches(r, auth_outcome(header_view(header), secret@, now)),
        bearer(header_view(header)) is None ==> r == Err::<AuthUser, AuthError>(
            AuthError::Unauthorized,
        ),
{
    let now = unix_now();
    let r = require_auth_at(header, secret, now);
    proof {
        assert(attaches(r, auth_outcome(header_view(header), secret@, now as int)));
    }
    r
}

/// Whether the identity is an administrator's.
pub fn require_admin(user: AuthUser) -> (r: Result<AuthUser, AuthError>)
    ensures
        user.role@ == "admin"@ ==> (r matches Ok(u) && u@ == user@),
        user.role@ != "admin"@ ==> r == Err::<AuthUser, AuthError>(AuthError::Forbidden),
{
    if equal(user.role.as_str(), "admin") {
        Ok(user)
    } else {
        Err(AuthError::Forbidden)
    }
}

/// Authorizes a request on a route for administrators, as if the clock
/// stood at `now`.
pub fn require_admin_at(header: Option<&str>, secret: &str, now: i64) -> (r: Result<
    AuthUser,
    AuthError,
>)
    ensures
        attaches(r, admin_outcome(header_view(header), secret@, now as int)),
{
    match require_auth_at(header, secret, now) {
        Ok(user) => require_admin(user),
        Err(e) => Err(e),
    }
}

/// A request without an `Authorization` header, or with one that is no
/// bearer credential, is refused as `Unauthorized` on every route, whatever
/// the secret and the time.
pub proof fn no_credential_is_rejected(header: Option<Seq<char>>, secret: Seq<char>, now: int)
    requires
        bearer(header) is None,
    ensures
        auth_outcome(header, secret, now) == Err::<(int, Seq<char>), AuthError>(
            AuthError::Unauthorized,
        ),
        admin_outcome(header, secret, now) == Err::<(int, Seq<char>), AuthError>(
            AuthError::Unauthorized,
        ),
{
}

/// A route for administrators lets through exactly the identities that any
/// other route attaches with the role `admin`, and never answers
/// `Forbidden` where another route answers `Unauthorized`.
pub proof fn admin_routes_refine_auth(header: Option<Seq<char>>, secret: Seq<char>, now: int)
    ensures
        admin_outcome(header, secret, now) is Ok <==> (auth_outcome(header, secret, now) matches Ok(
            who,
        ) && who.1 == "admin"@),
        admin_outcome(header, secret, now) is Ok ==> admin_outcome(header, secret, now)
            == auth_outcome(header, secret, now),
        auth_outcome(header, secret, now) is Err ==> admin_outcome(header, secret, now)
            == auth_outcome(header, secret, now),
{
}

} // verus!
