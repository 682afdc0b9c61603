use roast::auth::{apply_logout, logged_in, Auth, AuthenticatedUsers, PermissionType};
use roast::token::format_token;

#[test]
fn login_user_then_logged_in_as_user() {
    let mut users = AuthenticatedUsers::new();
    let auth = Auth::login_user(&mut users);
    let cookie = auth.cookie_value();
    assert_eq!(cookie, format_token(auth.0));
    assert_eq!(logged_in(&users, Some(&cookie)), Some(PermissionType::User));
    assert_eq!(users.permission(auth.0), Some(PermissionType::User));
}

#[test]
fn login_admin_then_logged_in_as_admin() {
    let mut users = AuthenticatedUsers::new();
    let auth = Auth::login_admin(&mut users);
    assert_eq!(logged_in(&users, Some(&auth.cookie_value())), Some(PermissionType::Admin));
}

#[test]
fn quoted_cookie_value_is_trimmed() {
    let mut users = AuthenticatedUsers::new();
    let auth = Auth::login_admin(&mut users);
    let quoted = format!("\"{}\"", auth.0);
    assert_eq!(logged_in(&users, Some(&quoted)), Some(PermissionType::Admin));
    // only one pair of surrounding quotes is removed
    let twice = format!("\"\"{}\"\"", auth.0);
    assert_eq!(logged_in(&users, Some(&twice)), None);
}

#[test]
fn no_cookie_or_bad_cookie_is_not_logged_in() {
    let mut users = AuthenticatedUsers::new();
    let _ = Auth::login_user(&mut users);
    assert_eq!(logged_in(&users, None), None);
    assert_eq!(logged_in(&users, Some("not a number")), None);
    assert_eq!(logged_in(&users, Some("")), None);
}

#[test]
fn unknown_token_is_not_logged_in() {
    let users = AuthenticatedUsers::new();
    assert_eq!(logged_in(&users, Some("12345")), None);
}

#[test]
fn logout_forgets_only_that_session() {
    let mut users = AuthenticatedUsers::new();
    let first = Auth::login_user(&mut users);
    let second = Auth::login_admin(&mut users);
    if first.0 == second.0 {
        return;
    }
    let first_cookie = first.cookie_value();
    apply_logout(&mut users, Some(&first_cookie));
    assert_eq!(logged_in(&users, Some(&first_cookie)), None);
    assert_eq!(logged_in(&users, Some(&second.cookie_value())), Some(PermissionType::Admin));
}

#[test]
fn logout_without_valid_cookie_changes_nothing() {
    let mut users = AuthenticatedUsers::new();
    let auth = Auth::login_user(&mut users);
    apply_logout(&mut users, None);
    apply_logout(&mut users, Some("oops"));
    assert_eq!(users.permission(auth.0), Some(PermissionType::User));
}
