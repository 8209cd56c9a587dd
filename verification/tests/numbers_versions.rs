use insignolib::version::versions_readable;
use insignolib::number::{i64_to_string, parse_i64};
use insignolib::version::compatibile;

#[test]
fn parse_like_std() {
    for s in ["0", "42", "-42", "+7", "007", "9223372036854775807", "-9223372036854775808"] {
        assert_eq!(parse_i64(s), s.parse::<i64>().ok(), "{s}");
    }
    for s in ["", "-", "+", "1a", " 1", "1 ", "9223372036854775808", "-9223372036854775809", "--1", "+-1", "99999999999999999999999"] {
        assert_eq!(parse_i64(s), None, "{s}");
        assert!(s.parse::<i64>().is_err());
    }
}

#[test]
fn decimal_text() {
    for x in [0i64, 5, 10, 123, -1, -10, i64::MAX, i64::MIN] {
        assert_eq!(i64_to_string(x), x.to_string());
        assert_eq!(parse_i64(&i64_to_string(x)), Some(x));
    }
}

#[test]
fn versions() {
    assert_eq!(compatibile("1.2.3", "1.2.3"), "true");
    assert_eq!(compatibile("1.2.3", "1.2.4"), "true");
    assert_eq!(compatibile("1.2.3", "1.3.0"), "true");
    assert_eq!(compatibile("1.2.3", "1.2.2"), "false");
    assert_eq!(compatibile("1.2.3", "0.9.9"), "false");
    assert_eq!(compatibile(" 1.2.3 ", "2"), "true");
    assert_eq!(compatibile("1.2.3", "1.2"), "true");
    assert_eq!(compatibile("1.2", "1.2.0"), "true");
    assert_eq!(compatibile("1.10", "1.9"), "false");
}

#[test]
fn version_antisymmetry_example() {
    assert_ne!(compatibile("1.2.3", "1.4.0"), compatibile("1.4.0", "1.2.3"));
}

#[test]
fn version_readability() {
    assert!(versions_readable("1.2.3", "1.2.3"));
    assert!(versions_readable("1.2.3", "2"));
    // the comparison reads one part of the older version past the end of the newer one
    assert!(!versions_readable("1.x", "1"));
    assert!(versions_readable("1.2.x", "1"));
    assert!(!versions_readable("1.2", "1.y"));
    assert!(versions_readable("1", "1.y"));
    assert!(!versions_readable("", "1"));
}
