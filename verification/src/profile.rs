use vstd::prelude::*;

verus! {

/// A participant identity: the on-chain address that keys a profile.
/// The registry only ever compares identities for equality, so one plain
/// number stands for the opaque host address.
#[derive(Clone, Copy, Debug, PartialEq, Eq, Structural)]
pub struct AccountId {
    pub id: u64,
}

/// One registered contributor.
///
/// `identity` is the immutable primary key; `github_handle` is the mutable
/// secondary key, unique across all profiles; `reputation_score` is adjusted
/// by signed deltas under the arithmetic rule of [`crate::reputation`];
/// `registered_at` is the clock reading captured at creation and never
/// changes afterwards.
#[derive(Debug)]
pub struct ContributorProfile {
    pub identity: AccountId,
    pub github_handle: String,
    pub reputation_score: u64,
    pub registered_at: u64,
}

impl Clone for ContributorProfile {
    fn clone(&self) -> (res: Self)
        ensures
            res == *self,
    {
        ContributorProfile {
            identity: self.identity,
            github_handle: self.github_handle.clone(),
            reputation_score: self.reputation_score,
            registered_at: self.registered_at,
        }
    }
}

/// One entry of the GitHub index: the derived reverse mapping from a handle
/// to the identity that currently claims it.  The index exists strictly to
/// enforce handle uniqueness and to serve reverse lookups; it is kept in
/// lockstep with the directory by every create and update.
#[derive(Debug)]
pub struct IndexEntry {
    pub github_handle: String,
    pub owner: AccountId,
}

} // verus!
