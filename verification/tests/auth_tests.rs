use coordinator_server::auth::session_cookie_header;
use coordinator_server::auth::{check_login_password, hash_password, password_matches};
use coordinator_server::auth::{valid_id, valid_secret, validate_name};
use coordinator_server::state::LoginLimits;

#[test]
fn login_budget_bounds_different_names_and_repeated_attempts() {
    let mut limits = LoginLimits::default();
    for _ in 0..5 {
        assert!(limits.try_admit("admin"));
    }
    assert!(!limits.try_admit("admin"));
    for i in 0..24 {
        assert!(limits.try_admit(&format!("name-{i}")));
    }
    assert!(!limits.try_admit("new-name"));
}

#[test]
fn refused_attempt_inside_the_window_changes_nothing() {
    let mut limits = LoginLimits::new();
    for _ in 0..5 {
        assert!(limits.admit_at("admin", 1_000));
    }
    assert!(!limits.admit_at("admin", 2_000));
    assert!(!limits.admit_at("admin", 3_000));
}

#[test]
fn identifiers_use_a_safe_alphabet() {
    assert!(valid_id("session-1_a.b"));
    assert!(!valid_id(""));
    assert!(!valid_id("has space"));
    assert!(!valid_id(&"x".repeat(129)));
    assert!(valid_id(&"x".repeat(128)));
}

#[test]
fn names_are_bounded_plain_text() {
    assert!(validate_name("Release bot").is_ok());
    let err = validate_name("").unwrap_err();
    assert_eq!(err.status, 400);
    assert!(validate_name("bad\u{7}name").is_err());
    assert!(!valid_secret("short"));
}

#[test]
fn salted_argon2id_passwords() {
    let password = "a test password with enough entropy";
    let first = hash_password(password).unwrap();
    let second = hash_password(password).unwrap();
    assert_ne!(first, second);
    assert!(first.starts_with("$argon2id$v=19$m=19456,t=2,p=1$"));
    assert!(password_matches(password, &first));
    assert!(!password_matches("incorrect", &first));
    assert!(check_login_password(password, Some(&first), &second).is_ok());
    assert_eq!(check_login_password("incorrect", Some(&first), &second).unwrap_err().status, 401);
    assert!(check_login_password(password, None, &first).is_err());
    assert!(!password_matches(password, "not a verifier"));
}

#[test]
fn session_cookies_follow_the_origin() {
    assert_eq!(
        session_cookie_header(true, "t", false),
        "__Host-coordinator=t; Path=/; HttpOnly; SameSite=Strict; Max-Age=43200; Secure"
    );
    assert_eq!(
        session_cookie_header(false, "t", true),
        "coordinator_local=t; Path=/; HttpOnly; SameSite=Strict; Max-Age=0"
    );
}
