use runlike::util::{empty_string_is_none, i64_dec, str_starts_with, strip_slashes, u64_dec};

#[test]
fn empty_string_becomes_none() {
    assert_eq!(empty_string_is_none("".to_string()), None);
    assert_eq!(empty_string_is_none("x".to_string()), Some("x".to_string()));
}

#[test]
fn leading_slashes_are_stripped() {
    assert_eq!(strip_slashes("/mycontainer"), "mycontainer");
    assert_eq!(strip_slashes("//a/b"), "a/b");
    assert_eq!(strip_slashes("plain"), "plain");
    assert_eq!(strip_slashes(""), "");
    assert_eq!(strip_slashes("///"), "");
}

#[test]
fn decimal_rendering_matches_std() {
    assert_eq!(u64_dec(0), "0");
    assert_eq!(u64_dec(7), "7");
    assert_eq!(u64_dec(1048576), "1048576");
    assert_eq!(u64_dec(u64::MAX), u64::MAX.to_string());
    assert_eq!(i64_dec(3), "3");
    assert_eq!(i64_dec(-5), "-5");
    assert_eq!(i64_dec(i64::MIN), i64::MIN.to_string());
}

#[test]
fn prefix_test_matches_std() {
    assert!(str_starts_with("abc123", "abc"));
    assert!(str_starts_with("abc", ""));
    assert!(!str_starts_with("ab", "abc"));
    assert!(!str_starts_with("abd", "abc"));
}
