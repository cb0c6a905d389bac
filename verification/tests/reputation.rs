use contributor_registry::errors::ContributorError;
use contributor_registry::reputation::apply_delta;

#[test]
fn positive_delta_adds_exactly() {
    assert_eq!(apply_delta(0, 50), Ok(50));
    assert_eq!(apply_delta(7, 1), Ok(8));
    assert_eq!(apply_delta(u64::MAX - 5, 5), Ok(u64::MAX));
}

#[test]
fn positive_delta_overflow_is_an_error() {
    assert_eq!(
        apply_delta(u64::MAX, 1),
        Err(ContributorError::ReputationOverflow)
    );
    assert_eq!(
        apply_delta(u64::MAX - 4, 5),
        Err(ContributorError::ReputationOverflow)
    );
}

#[test]
fn non_positive_delta_never_fails_and_clamps() {
    assert_eq!(apply_delta(50, 0), Ok(50));
    assert_eq!(apply_delta(50, -20), Ok(30));
    assert_eq!(apply_delta(50, -50), Ok(0));
    assert_eq!(apply_delta(50, -51), Ok(0));
    assert_eq!(apply_delta(0, -1000), Ok(0));
    assert_eq!(apply_delta(u64::MAX, i64::MIN + 1), Ok(u64::MAX - (i64::MAX as u64)));
}

#[test]
fn minimum_delta_counts_as_magnitude_zero() {
    assert_eq!(apply_delta(123, i64::MIN), Ok(123));
    assert_eq!(apply_delta(0, i64::MIN), Ok(0));
}
