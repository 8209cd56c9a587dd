use insignolib::scrypt::{scrypt_check, scrypt_simple, scrypt_simple_with_salt, InsignoScryptParams, ScryptError, ScryptParams};

fn small_params() -> ScryptParams {
    ScryptParams::new(4, 8, 1, 32).unwrap()
}

#[test]
fn hash_then_check_same_password() {
    let params = small_params();
    let h = scrypt_simple("Testtes1!", &params).unwrap();
    assert_eq!(scrypt_check("Testtes1!", &h), Ok(true));
}

#[test]
fn hash_then_check_other_password() {
    let params = small_params();
    let h = scrypt_simple("Testtes1!", &params).unwrap();
    assert_eq!(scrypt_check("Testtes2!", &h), Ok(false));
}

#[test]
fn compact_format_text() {
    let params = ScryptParams::new(10, 8, 1, 32).unwrap();
    let h = scrypt_simple_with_salt("pw", &params, &[0u8; 16]);
    assert!(h.starts_with("$rscrypt$0$CggB$AAAAAAAAAAAAAAAAAAAAAA==$"));
    assert!(h.ends_with('$'));
    assert_eq!(h.split('$').count(), 7);
    assert_eq!(scrypt_check("pw", &h), Ok(true));
}

#[test]
fn expanded_format_for_large_r() {
    let params = ScryptParams::new(1, 256, 1, 32).unwrap();
    let h = scrypt_simple_with_salt("pw", &params, &[1u8; 16]);
    // log_n = 1, r = 256 = [0, 1, 0, 0], p = 1 = [1, 0, 0, 0]
    assert!(h.starts_with("$rscrypt$1$AQABAAABAAAA$"));
    assert_eq!(scrypt_check("pw", &h), Ok(true));
    assert_eq!(scrypt_check("px", &h), Ok(false));
}

#[test]
fn random_salts_differ() {
    let params = small_params();
    let a = scrypt_simple("same", &params).unwrap();
    let b = scrypt_simple("same", &params).unwrap();
    assert_ne!(a, b);
}

#[test]
fn malformed_hashes_are_errors() {
    assert_eq!(scrypt_check("pw", ""), Err(ScryptError {}));
    assert_eq!(scrypt_check("pw", "rscrypt$0$CggB$AAAA$AAAA$"), Err(ScryptError {}));
    assert_eq!(scrypt_check("pw", "$scrypt$0$CggB$AAAA$AAAA$"), Err(ScryptError {}));
    assert_eq!(scrypt_check("pw", "$rscrypt$2$CggB$AAAA$AAAA$"), Err(ScryptError {}));
    assert_eq!(scrypt_check("pw", "$rscrypt$0$CggBAA==$AAAA$AAAA$"), Err(ScryptError {}));
    assert_eq!(scrypt_check("pw", "$rscrypt$0$CggB$AAAA$AAAA"), Err(ScryptError {}));
    assert_eq!(scrypt_check("pw", "$rscrypt$0$CggB$AAAA$AAAA$x"), Err(ScryptError {}));
    assert_eq!(scrypt_check("pw", "$rscrypt$0$CggB$AAAA$AAAA$$"), Err(ScryptError {}));
    assert_eq!(scrypt_check("pw", "$rscrypt$0$Cg!B$AAAA$AAAA$"), Err(ScryptError {}));
    // empty stored key: the scrypt function refuses an empty output
    assert_eq!(scrypt_check("pw", "$rscrypt$0$CggB$AAAA$$"), Err(ScryptError {}));
    // r = 0 is refused by the parameters check
    assert_eq!(scrypt_check("pw", "$rscrypt$0$CgAB$AAAA$AAAA$"), Err(ScryptError {}));
}

#[test]
fn params_validity() {
    assert!(ScryptParams::new(15, 8, 1, 30).is_ok());
    assert!(ScryptParams::new(15, 0, 1, 30).is_err());
    assert!(ScryptParams::new(15, 8, 0, 30).is_err());
    assert!(ScryptParams::new(15, 8, 1, 9).is_err());
    assert!(ScryptParams::new(15, 8, 1, 65).is_err());
    assert!(ScryptParams::new(64, 8, 1, 32).is_err());
    // log_n must be below 16 * r
    assert!(ScryptParams::new(16, 1, 1, 32).is_err());
    assert!(ScryptParams::new(15, 1, 1, 32).is_ok());
}

#[test]
fn default_params() {
    let d = InsignoScryptParams::default();
    assert_eq!((d.log_n, d.r, d.p, d.len), (15, 8, 1, 30));
    let p = d.get_params();
    assert_eq!((p.log_n(), p.r(), p.p(), p.len()), (15, 8, 1, 30));
}

#[test]
fn error_message() {
    assert_eq!(ScryptError {}.message(), "Hash is not in Rust Scrypt format.");
}
