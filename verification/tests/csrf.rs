use zourit::auth::AuthError;
use zourit::csrf::{check_promotion, csrf_check, csrf_cookie, ensure_csrf_token, find_cookie, new_csrf_token, PromoteForm};

#[test]
fn matching_cookie_and_field_are_accepted() {
    assert_eq!(csrf_check("csrf_token=abc", "abc"), Ok(()));
    assert_eq!(csrf_check("theme=dark; csrf_token=abc; other=1", "abc"), Ok(()));
}

#[test]
fn mismatch_or_missing_cookie_is_forbidden() {
    assert_eq!(csrf_check("csrf_token=abc", "xyz"), Err(AuthError::Forbidden));
    assert_eq!(csrf_check("", "abc"), Err(AuthError::Forbidden));
    assert_eq!(csrf_check("theme=dark", "abc"), Err(AuthError::Forbidden));
    assert_eq!(csrf_check("csrf_token=abc", ""), Err(AuthError::Forbidden));
    assert_eq!(csrf_check("csrf_token=abc", "ABC"), Err(AuthError::Forbidden));
    assert_eq!(AuthError::Forbidden.status(), 403);
}

#[test]
fn find_cookie_takes_the_first_match() {
    assert_eq!(find_cookie("a=1; b=2", "b"), Some("2".to_string()));
    assert_eq!(find_cookie("a=1;b=2", "a"), Some("1".to_string()));
    assert_eq!(find_cookie("a=1; a=2", "a"), Some("1".to_string()));
    assert_eq!(find_cookie("  a=1  ", "a"), Some("1".to_string()));
    assert_eq!(find_cookie("a=", "a"), Some("".to_string()));
    assert_eq!(find_cookie("a=x=y", "a"), Some("x=y".to_string()));
    assert_eq!(find_cookie("ab=1", "a"), None);
    assert_eq!(find_cookie("a", "a"), None);
    assert_eq!(find_cookie("", "a"), None);
    assert_eq!(find_cookie("A=1", "a"), None);
}

#[test]
fn fresh_tokens_are_alphanumeric_and_differ() {
    let a = new_csrf_token();
    let b = new_csrf_token();
    assert_eq!(a.len(), 32);
    assert_eq!(a.chars().count(), 32);
    assert!(a.chars().all(|c| c.is_ascii_alphanumeric()));
    assert!(b.chars().all(|c| c.is_ascii_alphanumeric()));
    assert_ne!(a, b);
}

#[test]
fn cookie_is_http_only_and_same_site() {
    assert_eq!(csrf_cookie("abc"), "csrf_token=abc; Path=/; HttpOnly; SameSite=Strict");
}

#[test]
fn token_is_kept_or_made() {
    let (token, header) = ensure_csrf_token("x=1; csrf_token=abc");
    assert_eq!(token, "abc");
    assert_eq!(header, None);
    let (token, header) = ensure_csrf_token("x=1");
    assert_eq!(token.len(), 32);
    assert_eq!(header, Some(format!("csrf_token={}; Path=/; HttpOnly; SameSite=Strict", token)));
    assert_eq!(csrf_check(&format!("csrf_token={}", token), &token), Ok(()));
}

#[test]
fn role_is_judged_before_the_token() {
    let form = PromoteForm { role: "root".to_string(), csrf_token: "abc".to_string() };
    assert_eq!(check_promotion(&form, "csrf_token=abc"), Err(AuthError::BadRequest));
    assert_eq!(check_promotion(&form, ""), Err(AuthError::BadRequest));
    let form = PromoteForm { role: "admin".to_string(), csrf_token: "abc".to_string() };
    assert_eq!(check_promotion(&form, "csrf_token=abc"), Ok(()));
    assert_eq!(check_promotion(&form, "csrf_token=abd"), Err(AuthError::Forbidden));
    let form = PromoteForm { role: "user".to_string(), csrf_token: "abc".to_string() };
    assert_eq!(check_promotion(&form, "csrf_token=abc"), Ok(()));
}
