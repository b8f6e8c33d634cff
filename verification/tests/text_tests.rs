use polymix_update::text::{split_str, str_eq_ignore_case};

#[test]
fn split_on_semicolons() {
    assert_eq!(split_str("*.txt;*.csv", ';'), ["*.txt", "*.csv"]);
    assert_eq!(split_str("one", ';'), ["one"]);
}

#[test]
fn split_keeps_empty_pieces() {
    assert_eq!(split_str("", ';'), [""]);
    assert_eq!(split_str("a;;b", ';'), ["a", "", "b"]);
    assert_eq!(split_str("a;b;", ';'), ["a", "b", ""]);
    assert_eq!(split_str(";a", ';'), ["", "a"]);
}

#[test]
fn case_insensitive_equality() {
    assert!(str_eq_ignore_case("Release", "rELEASE"));
    assert!(str_eq_ignore_case("", ""));
    assert!(!str_eq_ignore_case("release", "releases"));
    assert!(!str_eq_ignore_case("release", "relaese"));
    // Case folding is ASCII-only: punctuation and digits compare exactly.
    assert!(str_eq_ignore_case("a-1.TXT", "A-1.txt"));
    assert!(!str_eq_ignore_case("a_1", "a-1"));
}
