//! What each endpoint decides: registration, login, token refresh, the list
//! of users, the creation of administrators and role changes.
//!
//! The handlers work on a [`CredentialStore`] and take the time as a value,
//! so that each answer is a function of the request and the state.

use vstd::prelude::*;
use crate::accounts::{
    admin_rows, lemma_lookup_member, login_outcome, lookup, promoted, registered, Account,
    CredentialStore,
};
use crate::auth::{
    expiry, hs256_token, issue_at, AuthError, LoginUser, RegisterUser, User, TOKEN_EXP_HOURS,
};
use crate::csrf::{check_promotion, promotion_outcome, PromoteForm};
use crate::middleware::{admin_outcome, header_view, require_admin_at, AuthUser};
use crate::text::equal;

verus! {

/// The secret that signs tokens where none is configured.  For development
/// only.
pub const DEFAULT_SECRET: &'static str = "CHANGE_ME_DEV_SECRET";

/// What a successful login, registration or refresh answers.
#[derive(Debug, Clone)]
pub struct AuthResponse {
    pub token: String,
    pub role: String,
}

/// What the list of users shows of an account: never its password hash.
#[derive(Debug, Clone)]
pub struct UserSummary {
    pub id: i32,
    pub username: String,
    pub role: String,
}

/// The token that a session of `user_id` with `role` gets at the time
/// `now`: one that expires twelve hours later.
pub open spec fn session_token(user_id: int, role: Seq<char>, secret: Seq<char>, now: int) -> Option<
    Seq<char>,
> {
    match expiry(now, TOKEN_EXP_HOURS * 3600) {
        Some(exp) => hs256_token(user_id, exp, role, secret),
        None => None,
    }
}

/// Whether `r` answers with the session token of `user_id` and `role`, or
/// with an internal error where there is none.
pub open spec fn answers(
    r: Result<AuthResponse, AuthError>,
    user_id: int,
    role: Seq<char>,
    secret: Seq<char>,
    now: int,
) -> bool {
    match session_token(user_id, role, secret, now) {
        Some(t) => r matches Ok(resp) && resp.token@ == t && resp.role@ == role,
        None => r matches Err(e) && e == AuthError::Internal,
    }
}

/// Whether an administrator may be created: by anyone while there is none,
/// and only by an administrator afterwards.
pub open spec fn creation_allowed(
    admins: nat,
    header: Option<Seq<char>>,
    secret: Seq<char>,
    now: int,
) -> Result<(), AuthError> {
    if admins == 0 {
        Ok(())
    } else {
        match admin_outcome(header, secret, now) {
            Ok(_) => Ok(()),
            Err(e) => Err(e),
        }
    }
}

/// The configured secret, or the development default.
pub fn secret_or_default(configured: Option<String>) -> (r: String)
    ensures
        r@ == (match configured {
            Some(s) => s@,
            None => DEFAULT_SECRET@,
        }),
{
    match configured {
        Some(s) => s,
        None => DEFAULT_SECRET.to_owned(),
    }
}

/// Issues the session token of an identity and answers with it.
pub fn refresh_token(user: &AuthUser, secret: &str, now: i64) -> (r: Result<AuthResponse, AuthError>)
    ensures
        answers(r, user.user_id as int, user.role@, secret@, now as int),
{
    match issue_at(user.user_id, user.role.as_str(), secret, now, TOKEN_EXP_HOURS * 3600) {
        Ok(token) => Ok(AuthResponse { token, role: user.role.clone() }),
        Err(_) => Err(AuthError::Internal),
    }
}

/// Answers for a stored account.
fn respond(user: User, secret: &str, now: i64) -> (r: Result<AuthResponse, AuthError>)
    requires
        user@.id is Some,
    ensures
        answers(r, user@.id->0, user@.role, secret@, now as int),
{
    match user.id {
        Some(user_id) => refresh_token(&AuthUser { user_id, role: user.role }, secret, now),
        None => Err(AuthError::Internal),
    }
}

/// Registers an account with the role `user` and logs it in.  A user name
/// that is taken is a conflict and changes nothing.  Where the account was
/// stored and no token could be issued, the account stays.
pub fn register(store: &mut CredentialStore, payload: &RegisterUser, secret: &str, now: i64) -> (r:
    Result<AuthResponse, AuthError>)
    requires
        old(store).wf(),
    ensures
        final(store).wf(),
        lookup(old(store)@, payload.username@) is Some ==> r == Err::<AuthResponse, AuthError>(
            AuthError::Conflict,
        ) && final(store)@ == old(store)@,
        lookup(old(store)@, payload.username@) is None ==> !(r matches Err(AuthError::Conflict))
            && (final(store)@ == old(store)@ || registered(
            old(store)@,
            final(store)@,
            payload.username@,
            payload.password@,
            "user"@,
        )),
        r matches Err(e) ==> e == AuthError::Conflict || e == AuthError::Internal,
        r is Ok ==> registered(
            old(store)@,
            final(store)@,
            payload.username@,
            payload.password@,
            "user"@,
        ) && answers(r, old(store)@.len() as int + 1, "user"@, secret@, now as int),
{
    let ghost before = store@;
    match store.register(payload.username.as_str(), payload.password.as_str()) {
        Ok(user) => {
            proof {
                assert(store@.drop_last() =~= before);
            }
            respond(user, secret, now)
        },
        Err(e) => Err(e),
    }
}

/// Logs an account in.  An unknown user name and a wrong password both
/// answer `Unauthorized`.
pub fn login(store: &CredentialStore, payload: &LoginUser, secret: &str, now: i64) -> (r: Result<
    AuthResponse,
    AuthError,
>)
    requires
        store.wf(),
    ensures
        match login_outcome(lookup(store@, payload.username@), payload.password@) {
            Ok(a) => a.id is Some && answers(r, a.id->0, a.role, secret@, now as int),
            Err(_) => r matches Err(e) && e == AuthError::Unauthorized,
        },
{
    proof {
        if lookup(store@, payload.username@) is Some {
            lemma_lookup_member(store@, payload.username@);
        }
    }
    match store.authenticate(payload.username.as_str(), payload.password.as_str()) {
        Ok(user) => respond(user, secret, now),
        Err(e) => Err(e),
    }
}

/// Lists the accounts for an administrator; `Forbidden` for anyone else.
pub fn list_users(store: &CredentialStore, user: &AuthUser) -> (r: Result<
    Vec<UserSummary>,
    AuthError,
>)
    requires
        store.wf(),
    ensures
        user.role@ != "admin"@ ==> (r matches Err(e) && e == AuthError::Forbidden),
        user.role@ == "admin"@ ==> (r matches Ok(list) && list@.len() == store@.len() && forall|
            i: int,
        |
            0 <= i < list@.len() ==> {
                &&& store@[i].id == Some((#[trigger] list@[i]).id as int)
                &&& list@[i].username@ == store@[i].username
                &&& list@[i].role@ == store@[i].role
            }),
{
    if !equal(user.role.as_str(), "admin") {
        return Err(AuthError::Forbidden);
    }
    let users = store.list();
    let mut out: Vec<UserSummary> = Vec::new();
    let mut i: usize = 0;
    while i < users.len()
        invariant
            i <= users.len(),
            out@.len() == i,
            users@.len() == store@.len(),
            store.wf(),
            forall|j: int| 0 <= j < users@.len() ==> (#[trigger] users@[j])@ == store@[j],
            forall|j: int|
                0 <= j < i ==> {
                    &&& store@[j].id == Some((#[trigger] out@[j]).id as int)
                    &&& out@[j].username@ == store@[j].username
                    &&& out@[j].role@ == store@[j].role
                },
        decreases users.len() - i,
    {
        proof {
            assert(users@[i as int]@ == store@[i as int]);
            assert(store@[i as int].id == Some(i as int + 1));
        }
        let id = match users[i].id {
            Some(id) => id,
            None => 0,
        };
        out.push(
            UserSummary { id, username: users[i].username.clone(), role: users[i].role.clone() },
        );
        i += 1;
    }
    Ok(out)
}

/// Decides whether the request may create an administrator, given the
/// number of administrators there are.
pub fn authorize_admin_creation(admins: usize, auth_header: Option<&str>, secret: &str, now: i64) -> (r:
    Result<(), AuthError>)
    ensures
        r == creation_allowed(admins as nat, header_view(auth_header), secret@, now as int),
{
    if admins == 0 {
        return Ok(());
    }
    match require_admin_at(auth_header, secret, now) {
        Ok(_) => Ok(()),
        Err(e) => Err(e),
    }
}

/// Creates an administrator and logs it in.  While there is no
/// administrator anyone may; afterwards the request must carry the bearer
/// token of an administrator.  A refused request changes nothing.
pub fn create_admin(
    store: &mut CredentialStore,
    auth_header: Option<&str>,
    payload: &RegisterUser,
    secret: &str,
    now: i64,
) -> (r: Result<AuthResponse, AuthError>)
    requires
        old(store).wf(),
    ensures
        final(store).wf(),
        creation_allowed(
            admin_rows(old(store)@),
            header_view(auth_header),
            secret@,
            now as int,
        ) matches Err(e) ==> r == Err::<AuthResponse, AuthError>(e) && final(store)@ == old(
            store,
        )@,
        creation_allowed(admin_rows(old(store)@), header_view(auth_header), secret@, now as int)
            is Ok ==> {
            &&& lookup(old(store)@, payload.username@) is Some ==> r == Err::<
                AuthResponse,
                AuthError,
            >(AuthError::Conflict) && final(store)@ == old(store)@
            &&& lookup(old(store)@, payload.username@) is None ==> !(r matches Err(
                AuthError::Conflict,
            )) && (final(store)@ == old(store)@ || registered(
                old(store)@,
                final(store)@,
                payload.username@,
                payload.password@,
                "admin"@,
            ))
            &&& r matches Err(e) ==> e == AuthError::Conflict || e == AuthError::Internal
        },
        r is Ok ==> registered(
            old(store)@,
            final(store)@,
            payload.username@,
            payload.password@,
            "admin"@,
        ) && answers(r, old(store)@.len() as int + 1, "admin"@, secret@, now as int),
{
    let admins = store.admin_count();
    match authorize_admin_creation(admins, auth_header, secret, now) {
        Ok(()) => {},
        Err(e) => { return Err(e); },
    }
    let ghost before = store@;
    match store.register_as(payload.username.as_str(), payload.password.as_str(), "admin") {
        Ok(user) => {
            proof {
                assert(store@.drop_last() =~= before);
            }
            respond(user, secret, now)
        },
        Err(e) => Err(e),
    }
}

/// Changes the role of an account on a form post.  A role that does not
/// exist is a bad request; a post without the CSRF token of its cookie is
/// forbidden; both change nothing.
pub fn promote_user(store: &mut CredentialStore, id: i32, form: &PromoteForm, cookies: &str) -> (r:
    Result<(), AuthError>)
    requires
        old(store).wf(),
    ensures
        final(store).wf(),
        r == promotion_outcome(form.role@, cookies@, form.csrf_token@),
        r is Err ==> final(store)@ == old(store)@,
        r is Ok ==> promoted(old(store)@, final(store)@, id as int, form.role@),
{
    match check_promotion(form, cookies) {
        Ok(()) => {},
        Err(e) => { return Err(e); },
    }
    store.promote(id, form.role.as_str());
    Ok(())
}

/// The bootstrap window.  While there is no administrator, a request without
/// any credential may create one.  Once an account with the role `admin` is
/// stored, a request without a credential is answered `Unauthorized`.
pub proof fn bootstrap_closes(
    rows: Seq<Account>,
    admin: Account,
    secret: Seq<char>,
    now: int,
)
    requires
        admin.role == "admin"@,
    ensures
        creation_allowed(0, None, secret, now) == Ok::<(), AuthError>(()),
        forall|admins: nat|
            admins > 0 ==> #[trigger] creation_allowed(admins, None, secret, now) == Err::<
                (),
                AuthError,
            >(AuthError::Unauthorized),
        admin_rows(rows.push(admin)) > 0,
        creation_allowed(admin_rows(rows.push(admin)), None, secret, now) == Err::<(), AuthError>(
            AuthError::Unauthorized,
        ),
{
    assert(rows.push(admin).drop_last() =~= rows);
}

} // verus!
