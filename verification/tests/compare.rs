use grab::compare_release_version::Compare;
use grab::error::GrabError;

#[test]
fn compare_equal_tokens_is_latest() {
    let c = Compare::new("v2.3.1", "v2.3.1").unwrap();
    assert!(c.is_latest);
}

#[test]
fn compare_ignores_surrounding_text() {
    let c = Compare::new("v2.3.1", "2.3.1-local-build").unwrap();
    assert!(c.is_latest);
}

#[test]
fn compare_detects_differing_patch() {
    let c = Compare::new("v2.3.1", "2.3.2").unwrap();
    assert!(!c.is_latest);
}

#[test]
fn compare_rejects_release_without_triplet() {
    let e = Compare::new("nightly", "2.3.1").unwrap_err();
    match e {
        GrabError::InvalidRegexInput(m) => assert_eq!(m, "Invalid release version"),
        other => panic!("unexpected error: {:?}", other),
    }
}

#[test]
fn compare_rejects_local_without_triplet() {
    let e = Compare::new("v2.3.1", "unknown").unwrap_err();
    match e {
        GrabError::InvalidRegexInput(m) => assert_eq!(m, "Invalid current version"),
        other => panic!("unexpected error: {:?}", other),
    }
}

#[test]
fn compare_takes_first_triplet_only() {
    // The token of "x1.2.3.4" is "1.2.3": the third digit group ends at the
    // next dot.
    let c = Compare::new("x1.2.3.4", "1.2.3").unwrap();
    assert!(c.is_latest);
}

#[test]
fn compare_is_textual_not_numeric() {
    // "2.01.0" and "2.1.0" are numerically equal but textually different.
    let c = Compare::new("2.01.0", "2.1.0").unwrap();
    assert!(!c.is_latest);
}

#[test]
fn compare_regression_reports_not_latest() {
    // A remote older than local is still a plain mismatch.
    let c = Compare::new("v1.9.0", "2.0.0").unwrap();
    assert!(!c.is_latest);
}
