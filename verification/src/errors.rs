use vstd::prelude::*;

verus! {

/// The error taxonomy of the registry.  Every error is terminal for the call
/// that raised it: each operation checks its preconditions in a fixed order,
/// returns the first failure, and leaves the stored state unchanged.
#[derive(Clone, Copy, Debug, PartialEq, Eq, Structural)]
pub enum ContributorError {
    /// An administrator is already stored; `initialize` may run only once.
    AlreadyInitialized,
    /// No administrator is stored yet; every other operation needs one.
    NotInitialized,
    /// The caller does not match the stored administrator.
    Unauthorized,
    /// The supplied GitHub handle is empty.
    InvalidGitHubHandle,
    /// The identity already has a profile; profiles are created once.
    ContributorAlreadyExists,
    /// No profile exists for the identity (or handle) that was looked up.
    ContributorNotFound,
    /// Another identity already claims the requested GitHub handle.
    GitHubHandleTaken,
    /// A reputation increase would exceed the representable range.
    ReputationOverflow,
}

} // verus!
