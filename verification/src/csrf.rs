//! The double-submit CSRF guard of the form routes.

use vstd::prelude::*;
use rand::distributions::{Alphanumeric, DistString};
use crate::auth::AuthError;
use crate::text::{joined, equal, split, split_on, starts_with, strip_prefix, trim, trimmed, views};

verus! {

/// The number of characters of a CSRF token.
pub const CSRF_TOKEN_LEN: usize = 32;

/// What a form that changes a role submits.
#[derive(Debug)]
pub struct PromoteForm {
    pub role: String,
    pub csrf_token: String,
}

/// An ASCII letter or digit.
pub open spec fn is_alphanumeric(c: char) -> bool {
    ('a' <= c <= 'z') || ('A' <= c <= 'Z') || ('0' <= c <= '9')
}

/// The rest of the first trimmed piece that begins with `prefix`.
pub open spec fn first_value(pieces: Seq<Seq<char>>, prefix: Seq<char>) -> Option<Seq<char>>
    decreases pieces.len(),
{
    if pieces.len() == 0 {
        None
    } else {
        let t = trimmed(pieces[0]);
        if starts_with(t, prefix) {
            Some(t.subrange(prefix.len() as int, t.len() as int))
        } else {
            first_value(pieces.drop_first(), prefix)
        }
    }
}

/// The value of the first cookie called `name` in a `Cookie` header.
pub open spec fn cookie_value(cookies: Seq<char>, name: Seq<char>) -> Option<Seq<char>> {
    first_value(split_on(cookies, ';'), name + seq!['='])
}

/// The `Set-Cookie` text that binds `token` to the browser: not readable by
/// scripts, and sent only with requests from the same site.
pub open spec fn cookie_text(token: Seq<char>) -> Seq<char> {
    "csrf_token="@ + token + "; Path=/; HttpOnly; SameSite=Strict"@
}

/// What the guard decides on a form post.
pub open spec fn csrf_outcome(cookies: Seq<char>, submitted: Seq<char>) -> Result<(), AuthError> {
    match cookie_value(cookies, "csrf_token"@) {
        Some(v) => if v == submitted {
            Ok(())
        } else {
            Err(AuthError::Forbidden)
        },
        None => Err(AuthError::Forbidden),
    }
}

/// Calls `Alphanumeric.sample_string` on `rand::thread_rng()`.  Trusted:
/// the string has `len` characters, each an ASCII letter or digit.  Which
/// ones is left to chance.
#[verifier::external_body]
fn random_alphanumeric(len: usize) -> (r: String)
    ensures
        r@.len() == len,
        forall|i: int| 0 <= i < r@.len() ==> is_alphanumeric(#[trigger] r@[i]),
{
    Alphanumeric.sample_string(&mut rand::thread_rng(), len)
}

/// Finds a cookie in a `Cookie` header.
pub fn find_cookie(cookies: &str, name: &str) -> (r: Option<String>)
    ensures
        match cookie_value(cookies@, name@) {
            Some(v) => r matches Some(got) && got@ == v,
            None => r is None,
        },
{
    let prefix = joined(name, "=");
    proof {
        reveal_strlit("=");
        assert("="@ =~= seq!['=']);
    }
    let pieces = split(cookies, ';');
    let mut i: usize = 0;
    proof {
        assert(views(pieces@).skip(0) =~= views(pieces@));
    }
    while i < pieces.len()
        invariant
            i <= pieces.len(),
            prefix@ == name@ + seq!['='],
            views(pieces@) == split_on(cookies@, ';'),
            cookie_value(cookies@, name@) == first_value(views(pieces@).skip(i as int), prefix@),
        decreases pieces.len() - i,
    {
        let t = trim(pieces[i].as_str());
        proof {
            assert(views(pieces@).skip(i as int)[0] == pieces@[i as int]@);
            assert(views(pieces@).skip(i as int).drop_first() =~= views(pieces@).skip(i + 1));
        }
        match strip_prefix(t.as_str(), prefix.as_str()) {
            Some(v) => { return Some(v); },
            None => {},
        }
        i += 1;
    }
    None
}

/// A fresh CSRF token.
pub fn new_csrf_token() -> (r: String)
    ensures
        r@.len() == CSRF_TOKEN_LEN,
        forall|i: int| 0 <= i < r@.len() ==> is_alphanumeric(#[trigger] r@[i]),
{
    random_alphanumeric(CSRF_TOKEN_LEN)
}

/// The `Set-Cookie` header that carries `token`.
pub fn csrf_cookie(token: &str) -> (r: String)
    ensures
        r@ == cookie_text(token@),
{
    let head = joined("csrf_token=", token);
    joined(head.as_str(), "; Path=/; HttpOnly; SameSite=Strict")
}

/// The token to embed in a form: the one of the request's cookie, or a fresh
/// one together with the `Set-Cookie` header that hands it to the browser.
pub fn ensure_csrf_token(cookies: &str) -> (r: (String, Option<String>))
    ensures
        match cookie_value(cookies@, "csrf_token"@) {
            Some(v) => r.0@ == v && r.1 is None,
            None => {
                &&& r.0@.len() == CSRF_TOKEN_LEN
                &&& forall|i: int| 0 <= i < r.0@.len() ==> is_alphanumeric(#[trigger] r.0@[i])
                &&& r.1 matches Some(c) && c@ == cookie_text(r.0@)
            },
        },
{
    match find_cookie(cookies, "csrf_token") {
        Some(token) => (token, None),
        None => {
            let token = new_csrf_token();
            let header = csrf_cookie(token.as_str());
            (token, Some(header))
        },
    }
}

/// The guard: the submitted field must equal the cookie.
pub fn csrf_check(cookies: &str, submitted: &str) -> (r: Result<(), AuthError>)
    ensures
        r == csrf_outcome(cookies@, submitted@),
{
    match find_cookie(cookies, "csrf_token") {
        Some(v) => {
            if equal(v.as_str(), submitted) {
                Ok(())
            } else {
                Err(AuthError::Forbidden)
            }
        },
        None => Err(AuthError::Forbidden),
    }
}

/// Whether `role` is one of the roles there are.
pub open spec fn is_role(role: Seq<char>) -> bool {
    role == "admin"@ || role == "user"@
}

/// What becomes of a posted role change: a role that does not exist is a
/// bad request; then the guard decides.
pub open spec fn promotion_outcome(role: Seq<char>, cookies: Seq<char>, submitted: Seq<char>) -> Result<
    (),
    AuthError,
> {
    if !is_role(role) {
        Err(AuthError::BadRequest)
    } else {
        csrf_outcome(cookies, submitted)
    }
}

/// Decides on a posted role change.
pub fn check_promotion(form: &PromoteForm, cookies: &str) -> (r: Result<(), AuthError>)
    ensures
        r == promotion_outcome(form.role@, cookies@, form.csrf_token@),
{
    if !equal(form.role.as_str(), "admin") && !equal(form.role.as_str(), "user") {
        return Err(AuthError::BadRequest);
    }
    csrf_check(cookies, form.csrf_token.as_str())
}

/// Without a CSRF cookie the guard refuses the post, whatever is submitted.
pub proof fn missing_cookie_is_forbidden(cookies: Seq<char>, submitted: Seq<char>)
    requires
        cookie_value(cookies, "csrf_token"@) is None,
    ensures
        csrf_outcome(cookies, submitted) == Err::<(), AuthError>(AuthError::Forbidden),
{
}

} // verus!
