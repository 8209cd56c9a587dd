use insignolib::config::{InsignoConfig, SmtpConfig, TrashTypeMap};
use insignolib::cors::{all_options, index, Cors};
use insignolib::delete_account::{anonymize, delete_account_web_form, delete_target, DELETE_ACCOUNT_FORM};
use insignolib::error::InsignoError;
use insignolib::files::{check_intro_image, get_intro_image_links};
use insignolib::image_verification::{session_error, verdict_error};
use insignolib::mail::{fill_mail_template, MailKind};
use insignolib::pbkdf2_auth::{hash_password, password_matches};
use insignolib::pending::PendingAction;
use insignolib::review::{parse_verdict, resolve_error_status, Verdict};
use insignolib::scrypt::{scrypt_check, InsignoScryptParams, ScryptParams};

#[test]
fn error_constructors() {
    let e = InsignoError::new_code(404);
    assert_eq!((e.code, e.client.is_none(), e.debug.is_none()), (404, true, true));
    let e = InsignoError::new_debug(500, "boom");
    assert_eq!((e.code, e.debug.as_deref(), e.client.is_none()), (500, Some("boom"), true));
    let e = InsignoError::new(422, "client", "debug");
    assert_eq!((e.code, e.client.as_deref(), e.debug.as_deref()), (422, Some("client"), Some("debug")));
    assert_eq!(e.log_text(), "debug");
    let e = InsignoError { debug: None, client: Some("c".into()), code: 401 };
    assert_eq!(e.log_text(), "c");
    assert_eq!(InsignoError::new_code(200).log_text(), "no string provided");
    // the code is truncated to 16 bits, as the status code is
    assert_eq!(InsignoError::new_debug(65536 + 404, "x").code, 404);
}

#[test]
fn cors() {
    assert_eq!(index(), "Hello CORS");
    all_options();
    let h = Cors.headers();
    assert_eq!(h, vec![
        ("Access-Control-Allow-Origin", "*"),
        ("Access-Control-Allow-Methods", "POST, PATCH, PUT, DELETE, HEAD, OPTIONS, GET"),
        ("Access-Control-Allow-Headers", "*"),
        ("Access-Control-Allow-Credentials", "true"),
    ]);
    assert_eq!(Cors.name(), "Cross-Origin-Resource-Sharing Fairing");
}

fn config() -> InsignoConfig {
    InsignoConfig {
        media_folder: "media".into(),
        template_folder: "templates".into(),
        oldest_supported_version: "1.0.0".into(),
        smtp: SmtpConfig { server: "s".into(), user: "u".into(), password: "p".into() },
        scrypt: InsignoScryptParams::default(),
        intro_images: vec!["a.png".into(), "b.png".into()],
    }
}

#[test]
fn intro_images() {
    let c = config();
    assert_eq!(get_intro_image_links(&c), vec!["/resource/intro/a.png", "/resource/intro/b.png"]);
    assert!(check_intro_image("b.png", &c).is_ok());
    let e = check_intro_image("../secret", &c).unwrap_err();
    assert_eq!((e.code, e.client.as_deref()), (400, Some("not an intro image")));
}

#[test]
fn trash_types() {
    let rows = vec![(2, "plastic".to_string()), (1, "unknown".to_string()), (3, "paper".to_string())];
    let m = TrashTypeMap::from_rows(&rows);
    assert_eq!(m.to_string.keys().copied().collect::<Vec<_>>(), vec![1, 2, 3]);
    assert_eq!(m.to_string[&2], "plastic");
    assert_eq!(m.to_i64.get("paper"), Some(3));
    assert_eq!(m.to_i64.get("glass"), None);
    assert_eq!(m.type_or_default(3), 3);
    assert_eq!(m.type_or_default(99), 1);
}

#[test]
fn trash_type_names_take_the_largest_id() {
    let rows = vec![
        (5, "plastic".to_string()),
        (2, "plastic".to_string()),
        (3, "paper".to_string()),
        (3, "glass".to_string()),
    ];
    let m = TrashTypeMap::from_rows(&rows);
    assert_eq!(m.to_i64.get("plastic"), Some(5));
    // id 3 was renamed by the later row: "paper" has no id left
    assert_eq!(m.to_i64.get("paper"), None);
    assert_eq!(m.to_i64.get("glass"), Some(3));
    assert_eq!(m.to_string[&3], "glass");
}

#[test]
fn deletion() {
    assert_eq!(delete_account_web_form(), DELETE_ACCOUNT_FORM);
    assert!(DELETE_ACCOUNT_FORM.contains("action=\"/delete_account_web\""));
    assert_eq!(delete_target(&PendingAction::DeleteUser(9)).unwrap(), 9);
    let e = delete_target(&PendingAction::ChangePassword(9, "h".into())).unwrap_err();
    assert_eq!((e.code, e.debug.as_deref()), (500, Some("wrong call")));
    let params = ScryptParams::new(4, 8, 1, 32).unwrap();
    let a = anonymize("test@test.com", &params);
    assert_eq!(a.password, "");
    assert!(a.name.starts_with("ANON_"));
    assert_eq!(a.name.len(), 25);
    assert_eq!(scrypt_check("test@test.com", &a.email), Ok(true));
}

#[test]
fn review_decisions() {
    assert_eq!(parse_verdict(" OK ").unwrap(), Verdict::Approve);
    assert_eq!(parse_verdict("delete").unwrap(), Verdict::Delete);
    assert_eq!(parse_verdict("Delete_Report").unwrap(), Verdict::DeleteReport);
    assert_eq!(parse_verdict("skip\n").unwrap(), Verdict::Skip);
    let e = parse_verdict("maybe").unwrap_err();
    assert_eq!((e.code, e.client.as_deref()), (422, Some("opzione non riconosciuta")));
    assert_eq!(resolve_error_status("marker_non_trovato"), 404);
    assert_eq!(resolve_error_status("marker_risolto"), 400);
    assert_eq!(resolve_error_status("other"), 500);
}

#[test]
fn verification_errors() {
    let e = session_error("cant_verify_now");
    assert_eq!((e.code, e.client.as_deref()), (403, Some("You can't verify right now")));
    let e = session_error("db down");
    assert_eq!((e.code, e.client.is_none(), e.debug.as_deref()), (500, true, Some("db down")));
    let e = verdict_error("session_not_found");
    assert_eq!((e.code, e.client.as_deref()), (404, Some("No active session with the image and the user provided")));
    assert_eq!(verdict_error("cant_verify_now").code, 403);
    assert_eq!(verdict_error("x").code, 500);
}

#[test]
fn mail_templates() {
    let t = "Ciao {user} ({email}), clicca {link}. {other}";
    assert_eq!(
        fill_mail_template(t, "Ada", "ada@x.it", "https://l"),
        "Ciao Ada (ada@x.it), clicca https://l. {other}"
    );
    // a name that holds a placeholder is filled in as well, as replacing in turn does
    assert_eq!(fill_mail_template("{user}", "{email}", "e", "l"), "e");
    assert_eq!(MailKind::Registration.subject(), "Registrazione account Insigno");
    assert_eq!(MailKind::ChangePassword.subject(), "Cambio password account Insigno");
    assert_eq!(MailKind::Registration.sender(), "Insigno <insigno@mindshub.it>");
}

#[test]
fn pbkdf2_digests() {
    let d = hash_password(&"Testtes1".to_string());
    assert_eq!(d, "23364eba3f79ac1fb2089f401c6c6d68233425b8");
    assert_eq!(d.len(), 40);
    assert!(d.chars().all(|c| c.is_ascii_digit() || ('a'..='f').contains(&c)));
    assert_eq!(d, hash_password(&"Testtes1".to_string()));
    assert_ne!(d, hash_password(&"Testtes2".to_string()));
    assert!(password_matches(&d, &"Testtes1".to_string()));
    assert!(!password_matches(&d, &"testtes1".to_string()));
}

#[test]
fn trash_type_names_distinct_inverse() {
    let rows = vec![(1, "unknown".to_string()), (2, "plastic".to_string()), (3, "paper".to_string())];
    let m = TrashTypeMap::from_rows(&rows);
    for (k, v) in m.to_string.iter() {
        assert_eq!(m.to_i64.get(v), Some(*k));
    }
}
