use vstd::prelude::*;
use crate::errors::ContributorError;

verus! {

/// The exact arithmetic rule for adjusting a reputation score by a signed
/// delta.  The asymmetry is deliberate and must stay: an increase that would
/// overflow fails the whole call, while a decrease that would go below zero
/// silently clamps to zero.  A delta of `i64::MIN`, whose absolute value has
/// no representable positive counterpart, counts as a decrease of zero.
pub open spec fn spec_apply_delta(score: u64, delta: i64) -> Result<u64, ContributorError> {
    if delta > 0 {
        if score + delta <= u64::MAX {
            Ok((score + delta) as u64)
        } else {
            Err(ContributorError::ReputationOverflow)
        }
    } else if delta == i64::MIN {
        Ok(score)
    } else if score + delta >= 0 {
        Ok((score + delta) as u64)
    } else {
        Ok(0u64)
    }
}

/// Applies a signed delta to a score, independent of storage, so the rule
/// can be exercised in isolation across the full integer range.
pub fn apply_delta(score: u64, delta: i64) -> (r: Result<u64, ContributorError>)
    ensures
        r == spec_apply_delta(score, delta),
{
    if delta > 0 {
        match score.checked_add(delta as u64) {
            Some(new_score) => Ok(new_score),
            None => Err(ContributorError::ReputationOverflow),
        }
    } else {
        let magnitude: u64 = if delta == i64::MIN {
            0
        } else {
            (-delta) as u64
        };
        Ok(score.saturating_sub(magnitude))
    }
}

/// Reputation arithmetic law: for every starting score and positive delta the
/// result is exactly their sum unless that sum exceeds `u64::MAX`, in which
/// case the adjustment fails with `ReputationOverflow`; for every non-positive
/// delta the adjustment never fails and yields the score minus the delta's
/// magnitude, clamped at zero, with `i64::MIN` counting as magnitude zero.
pub proof fn lemma_reputation_arithmetic(score: u64, delta: i64)
    ensures
        delta > 0 && score + delta <= u64::MAX ==> spec_apply_delta(score, delta) == Ok::<
            u64,
            ContributorError,
        >((score + delta) as u64),
        delta > 0 && score + delta > u64::MAX ==> spec_apply_delta(score, delta) == Err::<
            u64,
            ContributorError,
        >(ContributorError::ReputationOverflow),
        delta <= 0 ==> spec_apply_delta(score, delta) is Ok,
        i64::MIN < delta <= 0 && score + delta >= 0 ==> spec_apply_delta(score, delta) == Ok::<
            u64,
            ContributorError,
        >((score + delta) as u64),
        i64::MIN < delta <= 0 && score + delta < 0 ==> spec_apply_delta(score, delta) == Ok::<
            u64,
            ContributorError,
        >(0u64),
        delta == i64::MIN ==> spec_apply_delta(score, delta) == Ok::<u64, ContributorError>(score),
{
}

} // verus!
