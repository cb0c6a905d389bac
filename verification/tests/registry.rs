use contributor_registry::errors::ContributorError;
use contributor_registry::profile::{AccountId, IndexEntry};
use contributor_registry::registry::ContributorRegistryContract;

fn acct(id: u64) -> AccountId {
    AccountId { id }
}

fn initialized(admin: u64) -> ContributorRegistryContract {
    let mut r = ContributorRegistryContract::new();
    assert!(r.initialize(acct(admin)).is_ok());
    r
}

#[test]
fn initialize_sets_admin() {
    let mut r = ContributorRegistryContract::new();
    assert_eq!(r.get_admin(), Err(ContributorError::NotInitialized));
    assert_eq!(r.initialize(acct(7)), Ok(()));
    assert_eq!(r.get_admin(), Ok(acct(7)));
}

#[test]
fn initialize_runs_only_once() {
    let mut r = initialized(7);
    assert_eq!(r.initialize(acct(8)), Err(ContributorError::AlreadyInitialized));
    assert_eq!(r.get_admin(), Ok(acct(7)));
}

#[test]
fn register_requires_initialization() {
    let mut r = ContributorRegistryContract::new();
    assert_eq!(
        r.register_contributor(acct(1), "alice".to_string(), 5),
        Err(ContributorError::NotInitialized)
    );
}

#[test]
fn register_creates_profile_with_zero_score() {
    let mut r = initialized(7);
    assert_eq!(r.register_contributor(acct(1), "alice".to_string(), 42), Ok(()));
    let p = r.get_contributor(acct(1)).unwrap();
    assert_eq!(p.identity, acct(1));
    assert_eq!(p.github_handle, "alice".to_string());
    assert_eq!(p.reputation_score, 0);
    assert_eq!(p.registered_at, 42);
}

#[test]
fn register_rejects_empty_handle() {
    let mut r = initialized(7);
    assert_eq!(
        r.register_contributor(acct(1), String::new(), 5),
        Err(ContributorError::InvalidGitHubHandle)
    );
}

#[test]
fn register_rejects_second_profile_for_identity() {
    let mut r = initialized(7);
    assert_eq!(r.register_contributor(acct(1), "alice".to_string(), 5), Ok(()));
    assert_eq!(
        r.register_contributor(acct(1), "other".to_string(), 6),
        Err(ContributorError::ContributorAlreadyExists)
    );
    let p = r.get_contributor(acct(1)).unwrap();
    assert_eq!(p.github_handle, "alice".to_string());
}

#[test]
fn register_rejects_taken_handle() {
    let mut r = initialized(7);
    assert_eq!(r.register_contributor(acct(1), "alice".to_string(), 5), Ok(()));
    assert_eq!(
        r.register_contributor(acct(2), "alice".to_string(), 6),
        Err(ContributorError::GitHubHandleTaken)
    );
    assert!(r.get_contributor(acct(2)).is_err());
}

#[test]
fn lookup_by_handle_resolves_through_index() {
    let mut r = initialized(7);
    assert_eq!(r.register_contributor(acct(1), "alice".to_string(), 5), Ok(()));
    assert_eq!(r.register_contributor(acct(2), "bob".to_string(), 6), Ok(()));
    let p = r.get_contributor_by_github(&"bob".to_string()).unwrap();
    assert_eq!(p.identity, acct(2));
    assert_eq!(
        r.get_contributor_by_github(&"carol".to_string()).unwrap_err(),
        ContributorError::ContributorNotFound
    );
}

#[test]
fn update_moves_index_entry() {
    let mut r = initialized(7);
    assert_eq!(r.register_contributor(acct(1), "alice".to_string(), 5), Ok(()));
    assert_eq!(r.update_contributor(acct(1), "alice2".to_string()), Ok(()));
    assert_eq!(
        r.get_contributor_by_github(&"alice".to_string()).unwrap_err(),
        ContributorError::ContributorNotFound
    );
    let p = r.get_contributor_by_github(&"alice2".to_string()).unwrap();
    assert_eq!(p.identity, acct(1));
    assert_eq!(p.github_handle, "alice2".to_string());
    assert_eq!(p.registered_at, 5);
}

#[test]
fn update_with_same_handle_is_a_no_op() {
    let mut r = initialized(7);
    assert_eq!(r.register_contributor(acct(1), "alice".to_string(), 5), Ok(()));
    assert_eq!(r.update_contributor(acct(1), "alice".to_string()), Ok(()));
    let p = r.get_contributor_by_github(&"alice".to_string()).unwrap();
    assert_eq!(p.identity, acct(1));
    assert_eq!(p.github_handle, "alice".to_string());
    assert_eq!(p.reputation_score, 0);
    assert_eq!(p.registered_at, 5);
}

#[test]
fn update_rejects_missing_profile() {
    let mut r = initialized(7);
    assert_eq!(
        r.update_contributor(acct(1), "alice".to_string()),
        Err(ContributorError::ContributorNotFound)
    );
}

#[test]
fn update_rejects_empty_handle() {
    let mut r = initialized(7);
    assert_eq!(r.register_contributor(acct(1), "alice".to_string(), 5), Ok(()));
    assert_eq!(r.update_contributor(acct(1), String::new()), Err(ContributorError::InvalidGitHubHandle));
}

#[test]
fn update_rejects_handle_of_another_identity() {
    let mut r = initialized(7);
    assert_eq!(r.register_contributor(acct(1), "alice".to_string(), 5), Ok(()));
    assert_eq!(r.register_contributor(acct(2), "bob".to_string(), 6), Ok(()));
    assert_eq!(
        r.update_contributor(acct(2), "alice".to_string()),
        Err(ContributorError::GitHubHandleTaken)
    );
    let p = r.get_contributor(acct(2)).unwrap();
    assert_eq!(p.github_handle, "bob".to_string());
}

#[test]
fn reputation_increase_adds_exactly() {
    let mut r = initialized(7);
    assert_eq!(r.register_contributor(acct(1), "alice".to_string(), 5), Ok(()));
    assert_eq!(r.update_reputation(acct(7), acct(1), 50), Ok(()));
    assert_eq!(r.get_reputation(acct(1)), Ok(50));
    assert_eq!(r.update_reputation(acct(7), acct(1), 8), Ok(()));
    assert_eq!(r.get_reputation(acct(1)), Ok(58));
}

#[test]
fn reputation_decrease_clamps_at_zero() {
    let mut r = initialized(7);
    assert_eq!(r.register_contributor(acct(1), "alice".to_string(), 5), Ok(()));
    assert_eq!(r.update_reputation(acct(7), acct(1), 50), Ok(()));
    assert_eq!(r.update_reputation(acct(7), acct(1), -1000), Ok(()));
    assert_eq!(r.get_reputation(acct(1)), Ok(0));
}

#[test]
fn reputation_overflow_fails_and_keeps_score() {
    let mut r = initialized(7);
    assert_eq!(r.register_contributor(acct(1), "alice".to_string(), 5), Ok(()));
    assert_eq!(r.update_reputation(acct(7), acct(1), i64::MAX), Ok(()));
    assert_eq!(r.update_reputation(acct(7), acct(1), i64::MAX), Ok(()));
    assert_eq!(r.get_reputation(acct(1)), Ok(2 * (i64::MAX as u64)));
    assert_eq!(
        r.update_reputation(acct(7), acct(1), i64::MAX),
        Err(ContributorError::ReputationOverflow)
    );
    assert_eq!(r.get_reputation(acct(1)), Ok(2 * (i64::MAX as u64)));
}

#[test]
fn reputation_rejects_missing_profile() {
    let mut r = initialized(7);
    assert_eq!(
        r.update_reputation(acct(7), acct(1), 5),
        Err(ContributorError::ContributorNotFound)
    );
}

#[test]
fn unauthorized_callers_cannot_mutate() {
    let mut r = initialized(7);
    assert_eq!(r.register_contributor(acct(1), "alice".to_string(), 5), Ok(()));
    assert_eq!(
        r.update_reputation(acct(8), acct(1), 50),
        Err(ContributorError::Unauthorized)
    );
    assert_eq!(r.get_reputation(acct(1)), Ok(0));
    assert_eq!(r.set_admin(acct(8), acct(9)), Err(ContributorError::Unauthorized));
    assert_eq!(r.get_admin(), Ok(acct(7)));
    assert_eq!(r.upgrade(acct(8), vec![1u8; 32]).unwrap_err(), ContributorError::Unauthorized);
}

#[test]
fn set_admin_transfers_the_role() {
    let mut r = initialized(7);
    let event = r.set_admin(acct(7), acct(9)).unwrap();
    assert_eq!(event.old_admin, acct(7));
    assert_eq!(event.new_admin, acct(9));
    assert_eq!(r.get_admin(), Ok(acct(9)));
    assert_eq!(r.set_admin(acct(7), acct(7)), Err(ContributorError::Unauthorized));
    assert_eq!(r.set_admin(acct(9), acct(7)).is_ok(), true);
    assert_eq!(r.get_admin(), Ok(acct(7)));
}

#[test]
fn upgrade_returns_the_requested_hash() {
    let r = initialized(7);
    let event = r.upgrade(acct(7), vec![0xAB; 32]).unwrap();
    assert_eq!(event.admin, acct(7));
    assert_eq!(event.new_wasm_hash, vec![0xAB; 32]);
}

#[test]
fn upgrade_and_set_admin_require_initialization() {
    let mut r = ContributorRegistryContract::new();
    assert_eq!(r.upgrade(acct(7), vec![0u8; 32]).unwrap_err(), ContributorError::NotInitialized);
    assert_eq!(r.set_admin(acct(7), acct(8)), Err(ContributorError::NotInitialized));
    assert_eq!(r.update_reputation(acct(7), acct(1), 1), Err(ContributorError::NotInitialized));
    assert_eq!(r.update_contributor(acct(1), "alice".to_string()), Err(ContributorError::NotInitialized));
}

#[test]
fn dangling_index_entry_surfaces_as_not_found() {
    // An index entry pointing at an identity with no profile is an
    // index-integrity violation: the lookup must report the miss, not panic.
    let mut r = initialized(7);
    r.github_index.push(IndexEntry {
        github_handle: "ghost".to_string(),
        owner: acct(99),
    });
    assert_eq!(
        r.get_contributor_by_github(&"ghost".to_string()).unwrap_err(),
        ContributorError::ContributorNotFound
    );
}

#[test]
fn full_example_scenario() {
    let mut r = ContributorRegistryContract::new();
    assert_eq!(r.initialize(acct(100)), Ok(()));
    assert_eq!(r.register_contributor(acct(1), "alice".to_string(), 5), Ok(()));
    assert_eq!(r.get_reputation(acct(1)), Ok(0));
    assert_eq!(
        r.register_contributor(acct(2), "alice".to_string(), 6),
        Err(ContributorError::GitHubHandleTaken)
    );
    assert_eq!(r.update_reputation(acct(100), acct(1), 50), Ok(()));
    assert_eq!(r.get_reputation(acct(1)), Ok(50));
    assert_eq!(r.update_reputation(acct(100), acct(1), -1000), Ok(()));
    assert_eq!(r.get_reputation(acct(1)), Ok(0));
    assert_eq!(r.update_contributor(acct(1), "alice2".to_string()), Ok(()));
    assert_eq!(
        r.get_contributor_by_github(&"alice".to_string()).unwrap_err(),
        ContributorError::ContributorNotFound
    );
    let p = r.get_contributor_by_github(&"alice2".to_string()).unwrap();
    assert_eq!(p.identity, acct(1));
}
