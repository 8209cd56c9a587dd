use insignolib::change_password::ChangePasswordRequest;
use insignolib::login::LoginInfo;
use insignolib::scrypt::scrypt_check;
use insignolib::signup::SignupInfo;
use insignolib::validation::{
    check_name, check_password, format_email, is_valid_email, SanitizeEmail, SanitizeName,
    SanitizePassword,
};

#[test]
fn email_addresses() {
    assert!(is_valid_email("test@test.com"));
    assert!(is_valid_email("a.b+c!#$%&'*/=?^_`{|}~-@mindshub.it"));
    assert!(is_valid_email("x@a-b.c-d.e"));
    assert!(is_valid_email("x@1.2"));
    assert!(!is_valid_email(""));
    assert!(!is_valid_email("@test.com"));
    assert!(!is_valid_email("test@"));
    assert!(!is_valid_email("test@com"));
    assert!(!is_valid_email("test@test..com"));
    assert!(!is_valid_email("test@-test.com"));
    assert!(!is_valid_email("test@test-.com"));
    assert!(!is_valid_email("test@test.com."));
    assert!(!is_valid_email("te@st@test.com"));
    assert!(!is_valid_email("tést@test.com"));
    assert!(!is_valid_email("test@te_st.com"));
    assert!(!is_valid_email(" test@test.com"));
    assert!(!is_valid_email("a b@test.com"));
}

#[test]
fn email_label_lengths() {
    let ok = format!("x@{}.com", "a".repeat(255));
    let too_long = format!("x@{}.com", "a".repeat(256));
    assert!(is_valid_email(&ok));
    assert!(!is_valid_email(&too_long));
}

#[test]
fn email_normal_form() {
    assert_eq!(format_email("  Test@Test.COM \n"), "test@test.com");
    assert_eq!(format_email("ÀB@X.IT"), "Àb@x.it");
    assert_eq!(format_email("\u{3000}a@b.c\u{a0}"), "a@b.c");
    let once = format_email(" MiXeD@Case.Org ");
    assert_eq!(format_email(&once), once);
}

#[test]
fn password_rules_in_order() {
    assert_eq!(check_password("Aa1!"), Err("Password troppo breve, deve essere lunga almeno 8 caratteri"));
    assert_eq!(check_password("testtes1!"), Err("La password deve contenere almeno una maiuscola"));
    assert_eq!(check_password("TESTTES1!"), Err("La password deve contenere almeno una minuscola"));
    assert_eq!(check_password("Testtest!"), Err("La password deve contenere almeno un numero"));
    assert_eq!(check_password("Testtes1"), Err("La password deve contenere almeno un carattere speciale"));
    assert_eq!(check_password("Testtes1!"), Ok(()));
    // a non-ASCII digit counts as a number and as a special character
    assert_eq!(check_password("Testtest\u{663}"), Ok(()));
    // length is counted in bytes: four two-byte letters are long enough
    assert_eq!(check_password("ééééAa1"), Ok(()));
}

#[test]
fn name_rules() {
    assert_eq!(check_name("IlMagicoTester"), Ok(()));
    assert_eq!(check_name("Il Mago_2"), Ok(()));
    assert_eq!(check_name("Niccolò"), Ok(()));
    let short = Err("Nome utente invalido. Deve essere lungo tra 3 e 20 caratteri (e possibilmente simile al nome)");
    assert_eq!(check_name("x"), short);
    assert_eq!(check_name("ab"), short);
    assert_eq!(check_name("abc"), Ok(()));
    assert_eq!(check_name("abcdefghijklmnopqrst"), Ok(()));
    assert_eq!(check_name("abcdefghijklmnopqrstu"), short);
    // the length is counted in bytes, and comes before the characters
    assert_eq!(check_name("àà"), Ok(()));
    assert_eq!(check_name("a-"), short);
    assert_eq!(
        check_name("bad-name"),
        Err("Nome utente invalido. Un nome corretto può contenere lettere, numeri, spazi e _")
    );
}

#[test]
fn signup_sanitize_ok() {
    let mut s = SignupInfo {
        name: "  IlMagicoTester ".to_string(),
        email: " Test@Test.com".to_string(),
        password: " Testtes1! ".to_string(),
    };
    assert!(s.sanitize().is_ok());
    assert_eq!(s.name, "IlMagicoTester");
    assert_eq!(s.email, "test@test.com");
    assert!(s.password.starts_with("$rscrypt$0$CwgB$"));
    assert_eq!(scrypt_check("Testtes1!", &s.password), Ok(true));
    assert_eq!(scrypt_check(" Testtes1! ", &s.password), Ok(false));
}

#[test]
fn signup_sanitize_bad_email_leaves_the_rest() {
    let mut s = SignupInfo {
        name: " n ".to_string(),
        email: "not an email".to_string(),
        password: " p ".to_string(),
    };
    let e = s.sanitize().unwrap_err();
    assert_eq!(e.code, 401);
    assert_eq!(e.client.as_deref(), Some("Mail invalida"));
    assert_eq!(e.debug.as_deref(), Some("Mail invalida"));
    assert_eq!(s.name, " n ");
    assert_eq!(s.password, " p ");
}

#[test]
fn signup_sanitize_bad_name_then_bad_password() {
    let mut s = SignupInfo {
        name: "a-b".to_string(),
        email: "a@b.it".to_string(),
        password: "x".to_string(),
    };
    let e = s.sanitize().unwrap_err();
    assert_eq!(e.code, 401);
    assert_eq!(
        e.client.as_deref(),
        Some("Nome utente invalido. Un nome corretto può contenere lettere, numeri, spazi e _")
    );
    let mut s = SignupInfo {
        name: "abc".to_string(),
        email: "a@b.it".to_string(),
        password: " short ".to_string(),
    };
    let e = s.sanitize().unwrap_err();
    assert_eq!(e.client.as_deref(), Some("Password troppo breve, deve essere lunga almeno 8 caratteri"));
    assert_eq!(s.password, "short");
}

#[test]
fn change_password_sanitize() {
    let mut r = ChangePasswordRequest { email: "A@B.IT ".to_string(), password: "Testtes1".to_string() };
    let e = r.sanitize().unwrap_err();
    assert_eq!(e.code, 401);
    assert_eq!(e.client.as_deref(), Some("La password deve contenere almeno un carattere speciale"));
    assert_eq!(r.email, "a@b.it");
    let mut r = ChangePasswordRequest { email: "a@b.it".to_string(), password: "Testtes1!".to_string() };
    assert!(r.sanitize().is_ok());
    assert_eq!(scrypt_check("Testtes1!", &r.password), Ok(true));
}

#[test]
fn login_sanitize() {
    let mut l = LoginInfo { email: " TEST@test.com ".to_string(), password: "  pw  ".to_string() };
    assert!(l.sanitize().is_ok());
    assert_eq!(l.email, "test@test.com");
    assert_eq!(l.password, "pw");
    let mut l = LoginInfo { email: "nope".to_string(), password: "  pw  ".to_string() };
    assert_eq!(l.sanitize().unwrap_err().code, 401);
    assert_eq!(l.password, "  pw  ");
}

#[test]
fn trait_methods_directly() {
    let mut s = SignupInfo { name: " abc ".to_string(), email: " B@C.D ".to_string(), password: " p ".to_string() };
    s.fmt_email();
    assert_eq!(s.email, "b@c.d");
    assert_eq!(s.sanitize_email(), Ok(()));
    s.fmt_name();
    assert_eq!(s.name, "abc");
    assert_eq!(s.sanitize_name(), Ok(()));
    s.fmt_password();
    assert_eq!(s.password, "p");
    assert!(s.sanitize_password().is_err());
    assert_eq!(s.password, "p");
    s.hash_password();
    assert_eq!(scrypt_check("p", &s.password), Ok(true));
}

#[test]
fn signup_then_login_password() {
    let mut s = SignupInfo {
        name: "IlMagicoTester".to_string(),
        email: "test@test.com".to_string(),
        password: " Testtes1! ".to_string(),
    };
    s.sanitize().unwrap();
    assert!(s.password.starts_with("$rscrypt$0$"));
    let mut l = LoginInfo { email: "test@test.com".to_string(), password: "Testtes1!  ".to_string() };
    l.sanitize().unwrap();
    assert_eq!(scrypt_check(&l.password, &s.password), Ok(true));
    assert_eq!(scrypt_check("Testtes1", &s.password), Ok(false));
}
