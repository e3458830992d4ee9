use lunaris::admin::AdminError;
use lunaris::passwords::{check_login, hash_password, verify_password, LoginRejection, UserRow};

fn row(hash: &str) -> UserRow {
    UserRow { id: "u-1".to_string(), password_hash: hash.to_string(), role: "admin".to_string() }
}

#[test]
fn login_checks_the_stored_hash() {
    let stored = "$2a$04$UuTkLRZZ6QofpDOlMz32MuuxEHA43WOemOYHPz6.SjsVsyO1tDU96";
    assert_eq!(check_login(Some(row(stored)), "password"), Ok(row(stored)));
    assert_eq!(
        check_login(Some(row(stored)), "Password"),
        Err(LoginRejection::InvalidCredentials)
    );
    assert_eq!(check_login(None, "password"), Err(LoginRejection::InvalidCredentials));
    assert_eq!(
        check_login(Some(row("not a bcrypt hash")), "password"),
        Err(LoginRejection::InvalidCredentials)
    );
    let e = LoginRejection::InvalidCredentials;
    assert_eq!((e.status(), e.message()), (401, "Invalid username or password"));
}

#[test]
fn hashed_password_verifies() {
    let h = hash_password("secret1").unwrap();
    assert_eq!(h.len(), 60);
    assert!(h.starts_with("$2b$12$"));
    assert!(verify_password("secret1", &h));
    assert!(!verify_password("secret2", "$2b$04$EGdrhbKUv8Oc9vGiXX0HQOxSg445d458Muh7DAHskb6QbtCvdxcie"));
    assert!(verify_password(
        "correctbatteryhorsestapler",
        "$2b$04$EGdrhbKUv8Oc9vGiXX0HQOxSg445d458Muh7DAHskb6QbtCvdxcie"
    ));
    let e = AdminError::HashingFailed;
    assert_eq!((e.status(), e.message()), (500, "Internal Hashing Error"));
}

#[test]
fn malformed_hashes_are_refused() {
    assert!(!verify_password("password", "$3a$04$UuTkLRZZ6QofpDOlMz32MuuxEHA43WOemOYHPz6.SjsVsyO1tDU96"));
    assert!(!verify_password("password", "$2a$04$UuTk"));
    assert!(!verify_password("", ""));
}
