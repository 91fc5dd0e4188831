//! The deletion rule: an entry is due for deletion exactly when its age in
//! whole days is strictly positive and at least the configured threshold.

use vstd::prelude::*;

verus! {

/// An entry of age `age_days` (whole days; negative for future-dated
/// timestamps) is due for deletion under threshold `threshold` exactly when
/// the age is strictly positive and at least the threshold.
pub open spec fn spec_due(age_days: int, threshold: int) -> bool {
    age_days > 0 && age_days >= threshold
}

/// Decides whether an entry of the given age is due for deletion.
pub fn is_due_for_deletion(age_days: i64, threshold: u16) -> (due: bool)
    ensures
        due == spec_due(age_days as int, threshold as int),
{
    age_days > 0 && age_days >= threshold as i64
}

/// Law: the threshold is an inclusive boundary. An entry exactly
/// `threshold` days old is due for deletion, and one a day younger is
/// retained. A threshold of zero is left out: an entry of age zero falls
/// under the rule for entries not strictly in the past and is retained.
pub proof fn lemma_threshold_boundary(threshold: int)
    requires
        threshold >= 1,
    ensures
        spec_due(threshold, threshold),
        !spec_due(threshold - 1, threshold),
{
}

/// Law: an entry whose timestamp is not strictly in the past — its age in
/// whole days is zero or negative — is never due for deletion, whatever
/// the threshold, a threshold of zero included.
pub proof fn lemma_future_never_due(age_days: int, threshold: int)
    requires
        age_days <= 0,
    ensures
        !spec_due(age_days, threshold),
{
}

} // verus!
