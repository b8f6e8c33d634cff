use polymix_update::errors::SyncError;
use polymix_update::pattern::PatternSet;

#[test]
fn or_semantics_across_segments() {
    // A name matches the set iff it matches at least one segment.
    let ps = PatternSet::new("*.txt;*.csv").unwrap();
    assert!(ps.matches("notes.txt"));
    assert!(ps.matches("data.csv"));
    assert!(ps.matches("report.CSV"));
    assert!(!ps.matches("report.doc"));
    assert!(!ps.matches("csv"));
}

#[test]
fn matching_ignores_ascii_case() {
    let ps = PatternSet::new("*.TXT").unwrap();
    assert!(ps.matches("notes.txt"));
    assert!(ps.matches("NOTES.TXT"));
    let ps2 = PatternSet::new("readme*").unwrap();
    assert!(ps2.matches("README.md"));
}

#[test]
fn glob_wildcards() {
    let ps = PatternSet::new("c?t").unwrap();
    assert!(ps.matches("cat"));
    assert!(ps.matches("cut"));
    assert!(!ps.matches("cart"));
    let ranges = PatternSet::new("report[0-9].txt").unwrap();
    assert!(ranges.matches("report7.txt"));
    assert!(!ranges.matches("reportx.txt"));
}

#[test]
fn single_segment_mask() {
    let ps = PatternSet::new("*.bin").unwrap();
    assert_eq!(ps.len(), 1);
    assert_eq!(ps.segments()[0], "*.bin");
    assert!(ps.matches("image.bin"));
}

#[test]
fn segment_order_is_kept() {
    let ps = PatternSet::new("a*;b*;c*").unwrap();
    assert_eq!(ps.segments().as_slice(), ["a*", "b*", "c*"]);
}

#[test]
fn empty_mask_is_invalid() {
    assert_eq!(PatternSet::new("").unwrap_err(), SyncError::InvalidPattern);
}

#[test]
fn trailing_separator_is_invalid() {
    assert_eq!(PatternSet::new("*.txt;").unwrap_err(), SyncError::InvalidPattern);
}

#[test]
fn doubled_separator_is_invalid() {
    assert_eq!(PatternSet::new("*.txt;;*.csv").unwrap_err(), SyncError::InvalidPattern);
}

#[test]
fn malformed_glob_is_invalid() {
    // An unclosed character class is refused by the glob compiler.
    assert_eq!(PatternSet::new("[abc").unwrap_err(), SyncError::InvalidPattern);
}
