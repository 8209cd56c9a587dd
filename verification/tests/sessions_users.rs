use insignolib::login::is_cookie_readable;
use insignolib::error::InsignoError;
use insignolib::login::{auth_cookie_value, parse_auth_cookie};
use insignolib::pending::{check_token, generate_token, verify_link, PendingAction};
use insignolib::change_password::complete_change_password;
use insignolib::signup::{check_email_free, complete_registration};
use insignolib::scrypt::{scrypt_simple, ScryptParams};
use insignolib::user::{AnyReview, Authenticated, Unauthenticated, User, UserRecord, UserReview, YesReview};

#[test]
fn cookie_roundtrip() {
    let tok = generate_token();
    let v = auth_cookie_value(17, &tok);
    assert_eq!(v, format!("17 {tok}"));
    let (id, t) = parse_auth_cookie(&v).unwrap();
    assert_eq!(id, 17);
    assert_eq!(t, tok);
    let (id, _) = parse_auth_cookie(&auth_cookie_value(-3, "abc")).unwrap();
    assert_eq!(id, -3);
}

#[test]
fn cookie_with_bad_token() {
    let e = parse_auth_cookie("1 a'b").unwrap_err();
    assert_eq!(e.code, 401);
    assert_eq!(e.client.as_deref(), Some("sql injection?"));
    let (id, t) = parse_auth_cookie("5 tok extra").unwrap();
    assert_eq!((id, t.as_str()), (5, "tok"));
}

#[test]
fn tokens() {
    let t = generate_token();
    assert_eq!(t.len(), 20);
    assert!(t.chars().all(|c| c.is_ascii_alphanumeric()));
    assert!(check_token(&t).is_ok());
    let e = check_token("abc;drop").unwrap_err();
    assert_eq!(e.code, 422);
    assert_eq!(e.client.as_deref(), Some("token invalido"));
    assert_ne!(generate_token(), generate_token());
    assert_eq!(verify_link("abc"), "https://insigno.mindshub.it/verify/abc");
}

fn record(accepted: Option<bool>, admin: bool, hash: String) -> UserRecord {
    UserRecord {
        id: Some(1),
        name: "IlMagicoTester".to_string(),
        email: "test@test.com".to_string(),
        password: hash,
        is_admin: admin,
        accepted_to_review: accepted,
    }
}

#[test]
fn review_gate() {
    assert!(YesReview::requires_accepted_to_review());
    assert!(!AnyReview::requires_accepted_to_review());
    let e = User::<Authenticated, YesReview>::from_record(record(None, false, String::new())).unwrap_err();
    assert_eq!(e.code, 403);
    assert_eq!(e.client.as_deref(), Some("you did not accept to review"));
    assert!(User::<Authenticated, YesReview>::from_record(record(Some(false), false, String::new())).is_err());
    assert!(User::<Authenticated, YesReview>::from_record(record(Some(true), false, String::new())).is_ok());
    let u = User::<Authenticated, AnyReview>::from_record(record(None, false, String::new())).unwrap();
    assert_eq!(u.get_id(), 1);
}

#[test]
fn login_and_admin() {
    let params = ScryptParams::new(4, 8, 1, 32).unwrap();
    let hash = scrypt_simple("Testtes1!", &params).unwrap();
    let u = User::<Unauthenticated>::from_record(record(None, true, hash.clone())).unwrap();
    assert!(u.check_hash("Testtes1!"));
    let logged = u.login("Testtes1!").unwrap();
    assert_eq!(logged.email, "test@test.com");
    let admin = logged.into_admin().unwrap();
    assert!(admin.is_admin);

    let u = User::<Unauthenticated>::from_record(record(None, false, hash)).unwrap();
    let e = u.login("wrong").unwrap_err();
    assert_eq!(e.code, 403);
    assert_eq!(e.client.as_deref(), Some("email o password errati"));
    assert!(e.debug.is_none());
}

#[test]
fn non_admin_refused() {
    let u = User::<Authenticated>::from_record(record(None, false, String::new())).unwrap();
    let e = u.into_admin().unwrap_err();
    assert_eq!(e.code, 401);
    assert_eq!(e.client.as_deref(), Some("Unauthorized"));
}

#[test]
fn pending_actions() {
    let r = complete_registration(PendingAction::RegisterUser("n".into(), "e@x.it".into(), "h".into())).unwrap();
    assert_eq!((r.id, r.name.as_str(), r.email.as_str(), r.password.as_str(), r.is_admin, r.accepted_to_review), (None, "n", "e@x.it", "h", false, None));
    let e: InsignoError = complete_registration(PendingAction::ChangePassword(1, "h".into())).unwrap_err();
    assert_eq!(e.code, 500);
    assert_eq!(e.debug.as_deref(), Some("wrong call"));
    assert!(e.client.is_none());
    assert_eq!(complete_change_password(PendingAction::ChangePassword(3, "h".into())).unwrap(), (3, "h".to_string()));
    assert!(matches!(complete_change_password(PendingAction::DeleteUser(3)), Err(PendingAction::DeleteUser(3))));
    assert!(check_email_free(false).is_ok());
    let e = check_email_free(true).unwrap_err();
    assert_eq!((e.code, e.client.as_deref()), (400, Some("this email is already associated with an account")));
}

#[test]
fn cookie_readability() {
    assert!(is_cookie_readable("12 abc"));
    assert!(is_cookie_readable("-1 "));
    assert!(!is_cookie_readable("12"));
    assert!(!is_cookie_readable("x abc"));
    assert!(!is_cookie_readable(""));
}

#[test]
fn try_login_with_unreadable_hash() {
    let u = User::<Unauthenticated>::from_record(record(None, false, "not a hash".to_string())).unwrap();
    assert!(u.try_login("pw").is_none());
    let params = ScryptParams::new(4, 8, 1, 32).unwrap();
    let hash = scrypt_simple("pw", &params).unwrap();
    let u = User::<Unauthenticated>::from_record(record(None, false, hash)).unwrap();
    assert!(matches!(u.try_login("pw"), Some(Ok(_))));
}

#[test]
fn new_pending_request() {
    let p = insignolib::pending::Pending::new(PendingAction::DeleteUser(4));
    assert!(p.id.is_none());
    assert!(matches!(p.action, PendingAction::DeleteUser(4)));
    assert_eq!(p.token.len(), 20);
    assert!(check_token(&p.token).is_ok());
}
