use zourit::accounts::{check_available, check_login, new_account, CredentialStore};
use zourit::auth::{verify_password, AuthError, User};

#[test]
fn register_then_authenticate_yields_the_same_account() {
    let mut store = CredentialStore::new();
    let made = store.register("alice", "secret123").unwrap();
    assert_eq!(made.id, Some(1));
    assert_eq!(made.username, "alice");
    assert_eq!(made.role, "user");
    assert_ne!(made.password_hash, "secret123");
    let found = store.authenticate("alice", "secret123").unwrap();
    assert_eq!(found.id, made.id);
    assert_eq!(found.username, "alice");
    assert_eq!(found.password_hash, made.password_hash);
}

#[test]
fn wrong_password_and_unknown_name_fail_alike() {
    let mut store = CredentialStore::new();
    store.register("alice", "secret123").unwrap();
    let wrong = store.authenticate("alice", "wrongpass").unwrap_err();
    let unknown = store.authenticate("nobody", "secret123").unwrap_err();
    assert_eq!(wrong, AuthError::Unauthorized);
    assert_eq!(unknown, AuthError::Unauthorized);
    assert_eq!(wrong, unknown);
    assert_eq!(wrong.status(), 401);
}

#[test]
fn user_names_are_unique_and_case_sensitive() {
    let mut store = CredentialStore::new();
    store.enroll("alice", "h1".to_string(), "user").unwrap();
    assert_eq!(store.register("alice", "x").unwrap_err(), AuthError::Conflict);
    assert_eq!(store.enroll("alice", "h2".to_string(), "user").unwrap_err(), AuthError::Conflict);
    assert_eq!(store.len(), 1);
    let other = store.enroll("Alice", "h3".to_string(), "user").unwrap();
    assert_eq!(other.id, Some(2));
    assert_eq!(store.len(), 2);
}

#[test]
fn ids_count_up_from_one() {
    let mut store = CredentialStore::new();
    assert_eq!(store.enroll("a", "h".to_string(), "user").unwrap().id, Some(1));
    assert_eq!(store.enroll("b", "h".to_string(), "admin").unwrap().id, Some(2));
    assert_eq!(store.enroll("c", "h".to_string(), "user").unwrap().id, Some(3));
    let list = store.list();
    assert_eq!(list.len(), 3);
    assert_eq!(list[1].username, "b");
    assert_eq!(list[1].role, "admin");
}

#[test]
fn insert_sets_the_id() {
    let mut store = CredentialStore::new();
    let mut user = User { id: None, username: "a".to_string(), password_hash: "h".to_string(), role: "user".to_string() };
    assert_eq!(user.insert(&mut store), Ok(()));
    assert_eq!(user.id, Some(1));
    let mut again = User { id: None, username: "a".to_string(), password_hash: "h".to_string(), role: "user".to_string() };
    assert_eq!(again.insert(&mut store), Err(AuthError::Conflict));
    assert_eq!(again.id, None);
    let found = User::find_by_username(&store, "a").unwrap();
    assert_eq!(found.id, Some(1));
    assert_eq!(found.password_hash, "h");
    assert!(User::find_by_username(&store, "b").is_none());
}

#[test]
fn promote_changes_one_role() {
    let mut store = CredentialStore::new();
    store.enroll("a", "h".to_string(), "user").unwrap();
    store.enroll("b", "h".to_string(), "user").unwrap();
    assert_eq!(store.admin_count(), 0);
    store.promote(2, "admin");
    assert_eq!(store.admin_count(), 1);
    let list = store.list();
    assert_eq!(list[0].role, "user");
    assert_eq!(list[1].role, "admin");
    assert_eq!(list[1].username, "b");
    store.promote(7, "admin");
    store.promote(0, "admin");
    store.promote(-1, "admin");
    assert_eq!(store.admin_count(), 1);
    store.promote(2, "user");
    assert_eq!(store.admin_count(), 0);
}

#[test]
fn login_decision_on_what_the_store_found() {
    let account = new_account("alice", "secret123", "user").unwrap();
    assert_eq!(account.id, None);
    assert_eq!(account.username, "alice");
    assert_eq!(account.role, "user");
    assert!(verify_password(&account.password_hash, "secret123"));
    assert_eq!(check_login(None, "secret123").unwrap_err(), AuthError::Unauthorized);
    assert_eq!(check_login(Some(account.clone()), "nope").unwrap_err(), AuthError::Unauthorized);
    assert_eq!(check_login(Some(account), "secret123").unwrap().username, "alice");
}

#[test]
fn availability_decision() {
    assert_eq!(check_available(&None), Ok(()));
    let user = User { id: Some(1), username: "a".to_string(), password_hash: "h".to_string(), role: "user".to_string() };
    assert_eq!(check_available(&Some(user)), Err(AuthError::Conflict));
}
