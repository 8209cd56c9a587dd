use insignolib::text::{all_ascii_alphanumeric, replace, split_char, str_eq, to_ascii_lowercase, trim};

#[test]
fn split_pieces() {
    assert_eq!(split_char("a$b$$c", '$'), vec!["a", "b", "", "c"]);
    assert_eq!(split_char("", '$'), vec![""]);
    assert_eq!(split_char("$", '$'), vec!["", ""]);
    assert_eq!(split_char("1.2.3", '.'), vec!["1", "2", "3"]);
}

#[test]
fn trimming() {
    assert_eq!(trim("  ab c \t\n"), "ab c");
    assert_eq!(trim("\u{2003}x\u{205f}"), "x");
    assert_eq!(trim("   "), "");
    assert_eq!(trim(""), "");
    assert_eq!(trim("\u{200b}x"), "\u{200b}x");
}

#[test]
fn lowercase_ascii_only() {
    assert_eq!(to_ascii_lowercase("AbC-ÉÀ1"), "abc-ÉÀ1");
}

#[test]
fn replacing() {
    assert_eq!(replace("Ciao {user}, {user}!", "{user}", "Ada"), "Ciao Ada, Ada!");
    assert_eq!(replace("aaa", "aa", "b"), "ba");
    assert_eq!(replace("none", "{x}", "y"), "none");
}

#[test]
fn alphanumeric_and_equality() {
    assert!(all_ascii_alphanumeric("abcXYZ019"));
    assert!(all_ascii_alphanumeric(""));
    assert!(!all_ascii_alphanumeric("ab c"));
    assert!(!all_ascii_alphanumeric("àb"));
    assert!(str_eq("x", "x"));
    assert!(!str_eq("x", "y"));
}
