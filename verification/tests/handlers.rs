use zourit::accounts::CredentialStore;
use zourit::auth::{validate_token_at, AuthError, LoginUser, RegisterUser};
use zourit::csrf::PromoteForm;
use zourit::handlers::{
    authorize_admin_creation, create_admin, list_users, login, promote_user, refresh_token, register,
    secret_or_default, DEFAULT_SECRET,
};
use zourit::middleware::{require_admin_at, require_auth_at, AuthUser};

const SECRET: &str = "s3cret";

fn signup(name: &str, password: &str) -> RegisterUser {
    RegisterUser { username: name.to_string(), password: password.to_string() }
}

fn bearer(token: &str) -> String {
    format!("Bearer {}", token)
}

#[test]
fn end_to_end_register_login_and_list() {
    let mut store = CredentialStore::new();
    let made = register(&mut store, &signup("alice", "secret123"), SECRET, 1_000).unwrap();
    assert_eq!(made.role, "user");
    let claims = validate_token_at(&made.token, SECRET, 1_000).unwrap();
    assert_eq!((claims.sub, claims.exp, claims.role.as_str()), (1, 44_200, "user"));

    let wrong = LoginUser { username: "alice".to_string(), password: "wrongpass".to_string() };
    assert_eq!(login(&store, &wrong, SECRET, 1_000).unwrap_err().status(), 401);

    let header = bearer(&made.token);
    assert_eq!(require_admin_at(Some(&header), SECRET, 1_000).unwrap_err().status(), 403);
    let who = require_auth_at(Some(&header), SECRET, 1_000).unwrap();
    assert_eq!(list_users(&store, &who).unwrap_err(), AuthError::Forbidden);
}

#[test]
fn login_answers_with_a_token_for_the_account() {
    let mut store = CredentialStore::new();
    register(&mut store, &signup("alice", "secret123"), SECRET, 1_000).unwrap();
    let right = LoginUser { username: "alice".to_string(), password: "secret123".to_string() };
    let session = login(&store, &right, SECRET, 5_000).unwrap();
    assert_eq!(session.role, "user");
    let claims = validate_token_at(&session.token, SECRET, 5_000).unwrap();
    assert_eq!((claims.sub, claims.exp), (1, 48_200));
    let unknown = LoginUser { username: "bob".to_string(), password: "secret123".to_string() };
    assert_eq!(login(&store, &unknown, SECRET, 5_000).unwrap_err(), AuthError::Unauthorized);
}

#[test]
fn duplicate_registration_is_a_conflict() {
    let mut store = CredentialStore::new();
    register(&mut store, &signup("alice", "secret123"), SECRET, 1_000).unwrap();
    let again = register(&mut store, &signup("alice", "other"), SECRET, 1_000).unwrap_err();
    assert_eq!(again, AuthError::Conflict);
    assert_eq!(again.status(), 409);
    assert_eq!(store.len(), 1);
}

#[test]
fn admin_bootstrap_closes_after_the_first_admin() {
    let mut store = CredentialStore::new();
    let first = create_admin(&mut store, None, &signup("root", "pw1"), SECRET, 1_000).unwrap();
    assert_eq!(first.role, "admin");
    assert_eq!(store.admin_count(), 1);
    let claims = validate_token_at(&first.token, SECRET, 1_000).unwrap();
    assert_eq!((claims.sub, claims.role.as_str()), (1, "admin"));

    let refused = create_admin(&mut store, None, &signup("eve", "pw2"), SECRET, 1_000).unwrap_err();
    assert_eq!(refused, AuthError::Unauthorized);
    assert_eq!(store.len(), 1);

    let header = bearer(&first.token);
    let second = create_admin(&mut store, Some(&header), &signup("ops", "pw3"), SECRET, 1_000).unwrap();
    assert_eq!(second.role, "admin");
    assert_eq!(store.admin_count(), 2);
}

#[test]
fn admin_creation_needs_an_admin_token() {
    let mut store = CredentialStore::new();
    create_admin(&mut store, None, &signup("root", "pw1"), SECRET, 1_000).unwrap();
    let user = register(&mut store, &signup("alice", "pw2"), SECRET, 1_000).unwrap();
    let header = bearer(&user.token);
    assert_eq!(
        create_admin(&mut store, Some(&header), &signup("eve", "pw"), SECRET, 1_000).unwrap_err(),
        AuthError::Forbidden
    );
    assert_eq!(
        create_admin(&mut store, Some("Bearer junk"), &signup("eve", "pw"), SECRET, 1_000).unwrap_err(),
        AuthError::Unauthorized
    );
    assert_eq!(store.len(), 2);
}

#[test]
fn admin_creation_decision() {
    assert_eq!(authorize_admin_creation(0, None, SECRET, 0), Ok(()));
    assert_eq!(authorize_admin_creation(0, Some("nonsense"), SECRET, 0), Ok(()));
    assert_eq!(authorize_admin_creation(1, None, SECRET, 0), Err(AuthError::Unauthorized));
    assert_eq!(authorize_admin_creation(3, Some("Basic abc"), SECRET, 0), Err(AuthError::Unauthorized));
}

#[test]
fn admin_creation_with_a_taken_name_is_a_conflict() {
    let mut store = CredentialStore::new();
    store.enroll("root", "h".to_string(), "user").unwrap();
    assert_eq!(
        create_admin(&mut store, None, &signup("root", "pw"), SECRET, 1_000).unwrap_err(),
        AuthError::Conflict
    );
}

#[test]
fn refresh_keeps_identity_and_role() {
    let user = AuthUser { user_id: 5, role: "admin".to_string() };
    let fresh = refresh_token(&user, SECRET, 10_000).unwrap();
    assert_eq!(fresh.role, "admin");
    let claims = validate_token_at(&fresh.token, SECRET, 10_000).unwrap();
    assert_eq!((claims.sub, claims.exp, claims.role.as_str()), (5, 53_200, "admin"));
    assert_eq!(refresh_token(&user, SECRET, i64::MAX).unwrap_err(), AuthError::Internal);
}

#[test]
fn admins_see_every_account_without_hashes() {
    let mut store = CredentialStore::new();
    store.enroll("root", "h1".to_string(), "admin").unwrap();
    store.enroll("alice", "h2".to_string(), "user").unwrap();
    let admin = AuthUser { user_id: 1, role: "admin".to_string() };
    let list = list_users(&store, &admin).unwrap();
    assert_eq!(list.len(), 2);
    assert_eq!((list[0].id, list[0].username.as_str(), list[0].role.as_str()), (1, "root", "admin"));
    assert_eq!((list[1].id, list[1].username.as_str(), list[1].role.as_str()), (2, "alice", "user"));
}

#[test]
fn role_change_needs_role_and_csrf_token() {
    let mut store = CredentialStore::new();
    store.enroll("alice", "h".to_string(), "user").unwrap();
    let form = PromoteForm { role: "admin".to_string(), csrf_token: "abc".to_string() };
    assert_eq!(promote_user(&mut store, 1, &form, "csrf_token=xyz"), Err(AuthError::Forbidden));
    assert_eq!(promote_user(&mut store, 1, &form, ""), Err(AuthError::Forbidden));
    assert_eq!(store.admin_count(), 0);
    let bad = PromoteForm { role: "owner".to_string(), csrf_token: "abc".to_string() };
    assert_eq!(promote_user(&mut store, 1, &bad, "csrf_token=abc"), Err(AuthError::BadRequest));
    assert_eq!(promote_user(&mut store, 1, &form, "csrf_token=abc"), Ok(()));
    assert_eq!(store.admin_count(), 1);
    assert_eq!(promote_user(&mut store, 9, &form, "csrf_token=abc"), Ok(()));
    assert_eq!(store.admin_count(), 1);
}

#[test]
fn secret_falls_back_to_the_default() {
    assert_eq!(secret_or_default(Some("k".to_string())), "k");
    assert_eq!(secret_or_default(None), "CHANGE_ME_DEV_SECRET");
    assert_eq!(DEFAULT_SECRET, "CHANGE_ME_DEV_SECRET");
}

#[test]
fn old_tokens_keep_the_role_they_were_issued_with() {
    let mut store = CredentialStore::new();
    let root = create_admin(&mut store, None, &signup("root", "pw1"), SECRET, 1_000).unwrap();
    let alice = register(&mut store, &signup("alice", "pw2"), SECRET, 1_000).unwrap();
    store.promote(2, "admin");
    store.promote(1, "user");
    let alice_header = bearer(&alice.token);
    let root_header = bearer(&root.token);
    assert_eq!(require_auth_at(Some(&alice_header), SECRET, 2_000).unwrap().role, "user");
    assert_eq!(require_admin_at(Some(&alice_header), SECRET, 2_000).unwrap_err(), AuthError::Forbidden);
    assert_eq!(require_admin_at(Some(&root_header), SECRET, 2_000).unwrap().role, "admin");
    let again = LoginUser { username: "alice".to_string(), password: "pw2".to_string() };
    let fresh = login(&store, &again, SECRET, 2_000).unwrap();
    assert_eq!(fresh.role, "admin");
    assert!(require_admin_at(Some(&bearer(&fresh.token)), SECRET, 2_000).is_ok());
}
