use vstd::prelude::*;
use crate::errors::ContributorError;
use crate::events::{AdminChangedEvent, UpgradedEvent};
use crate::lookup::{
    directory_has, find_owner, find_profile, index_has, lemma_find_owner_at,
    lemma_find_owner_none, lemma_find_owner_push, lemma_find_owner_skip_step,
    lemma_find_owner_update_other, lemma_find_owner_witness, lemma_find_profile_at,
    lemma_find_profile_none, lemma_find_profile_push, lemma_find_profile_skip_step,
    lemma_find_profile_update_other, lemma_find_profile_witness,
};
use crate::profile::{AccountId, ContributorProfile, IndexEntry};
use crate::reputation::{apply_delta, spec_apply_delta};

verus! {

/// The registry state: the single administrator, the contributor directory
/// (primary mapping, keyed by identity), and the GitHub index (derived
/// secondary mapping from handle to identity).  Every public operation
/// either fully commits or returns an error and leaves the state unchanged.
pub struct ContributorRegistryContract {
    pub admin: Option<AccountId>,
    pub contributors: Vec<ContributorProfile>,
    pub github_index: Vec<IndexEntry>,
}

impl ContributorRegistryContract {
    /// An administrator has been stored.
    pub open spec fn is_initialized(self) -> bool {
        self.admin is Some
    }

    /// The stored administrator.
    pub open spec fn spec_admin(self) -> AccountId {
        self.admin->0
    }

    /// The profile currently registered for `identity`, if any.
    pub open spec fn spec_profile(self, identity: AccountId) -> Option<ContributorProfile> {
        find_profile(self.contributors@, identity)
    }

    /// A profile exists for `identity`.
    pub open spec fn has_profile(self, identity: AccountId) -> bool {
        self.spec_profile(identity) is Some
    }

    /// The identity the GitHub index currently maps `handle` to, if any.
    pub open spec fn spec_owner(self, handle: Seq<char>) -> Option<AccountId> {
        find_owner(self.github_index@, handle)
    }

    /// `handle` is claimed by an identity other than `identity`.
    pub open spec fn handle_taken_by_other(self, handle: Seq<char>, identity: AccountId) -> bool {
        self.spec_owner(handle) is Some && self.spec_owner(handle)->0 != identity
    }

    /// Well-formedness: identities are pairwise distinct in the directory,
    /// handles are pairwise distinct in the index, every profile's current
    /// handle has an index entry pointing back to its identity, and every
    /// index entry names a profile that currently holds its handle.
    pub open spec fn wf(self) -> bool {
        &&& forall|i: int, j: int|
            0 <= i < j < self.contributors@.len() ==> (#[trigger] self.contributors@[i]).identity
                != (#[trigger] self.contributors@[j]).identity
        &&& forall|i: int, j: int|
            0 <= i < j < self.github_index@.len() ==> (
            #[trigger] self.github_index@[i]).github_handle@ != (
            #[trigger] self.github_index@[j]).github_handle@
        &&& forall|i: int|
            0 <= i < self.contributors@.len() ==> index_has(
                self.github_index@,
                (#[trigger] self.contributors@[i]).github_handle@,
                self.contributors@[i].identity,
            )
        &&& forall|k: int|
            0 <= k < self.github_index@.len() ==> directory_has(
                self.contributors@,
                (#[trigger] self.github_index@[k]).owner,
                self.github_index@[k].github_handle@,
            )
    }

    /// An empty, uninitialized registry.
    pub fn new() -> (r: ContributorRegistryContract)
        ensures
            r.wf(),
            !r.is_initialized(),
            r.contributors@.len() == 0,
            r.github_index@.len() == 0,
    {
        ContributorRegistryContract {
            admin: None,
            contributors: Vec::new(),
            github_index: Vec::new(),
        }
    }

    /// Sets the administrator exactly once.
    pub fn initialize(&mut self, admin: AccountId) -> (r: Result<(), ContributorError>)
        ensures
            old(self).is_initialized() ==> r == Err::<(), ContributorError>(
                ContributorError::AlreadyInitialized,
            ) && *final(self) == *old(self),
            !old(self).is_initialized() ==> r == Ok::<(), ContributorError>(())
                && final(self).admin == Some(admin),
            final(self).contributors == old(self).contributors,
            final(self).github_index == old(self).github_index,
            old(self).wf() ==> final(self).wf(),
    {
        if self.admin.is_some() {
            return Err(ContributorError::AlreadyInitialized);
        }
        self.admin = Some(admin);
        Ok(())
    }

    /// Succeeds exactly when no index entry claims `github_handle` for an
    /// identity other than `address`.  Performed before any mutation in
    /// register and update, so a rejected call leaves the state unchanged.
    pub fn ensure_github_handle_available(
        &self,
        github_handle: &String,
        address: AccountId,
    ) -> (r: Result<(), ContributorError>)
        ensures
            r == (if self.handle_taken_by_other(github_handle@, address) {
                Err::<(), ContributorError>(ContributorError::GitHubHandleTaken)
            } else {
                Ok::<(), ContributorError>(())
            }),
    {
        match find_entry_index(&self.github_index, github_handle) {
            Some(k) => {
                let entry = &self.github_index[k];
                if entry.owner == address {
                    Ok(())
                } else {
                    Err(ContributorError::GitHubHandleTaken)
                }
            },
            None => Ok(()),
        }
    }

    /// Creates a new profile for `address` with `github_handle`, a zero
    /// reputation score, and `timestamp` (the host clock reading) as its
    /// registration time, and inserts the matching index entry.
    pub fn register_contributor(
        &mut self,
        address: AccountId,
        github_handle: String,
        timestamp: u64,
    ) -> (r: Result<(), ContributorError>)
        requires
            old(self).wf(),
        ensures
            final(self).wf(),
            final(self).admin == old(self).admin,
            r is Err ==> *final(self) == *old(self),
            !old(self).is_initialized() ==> r == Err::<(), ContributorError>(
                ContributorError::NotInitialized,
            ),
            old(self).is_initialized() && github_handle@.len() == 0 ==> r == Err::<
                (),
                ContributorError,
            >(ContributorError::InvalidGitHubHandle),
            old(self).is_initialized() && github_handle@.len() > 0 && old(self).has_profile(
                address,
            ) ==> r == Err::<(), ContributorError>(ContributorError::ContributorAlreadyExists),
            old(self).is_initialized() && github_handle@.len() > 0 && !old(self).has_profile(
                address,
            ) && old(self).handle_taken_by_other(github_handle@, address) ==> r == Err::<
                (),
                ContributorError,
            >(ContributorError::GitHubHandleTaken),
            old(self).is_initialized() && github_handle@.len() > 0 && !old(self).has_profile(
                address,
            ) && !old(self).handle_taken_by_other(github_handle@, address) ==> {
                &&& r == Ok::<(), ContributorError>(())
                &&& final(self).contributors@ == old(self).contributors@.push(
                    (ContributorProfile {
                        identity: address,
                        github_handle: github_handle,
                        reputation_score: 0u64,
                        registered_at: timestamp,
                    }),
                )
                &&& final(self).github_index@ == old(self).github_index@.push(
                    (IndexEntry { github_handle: github_handle, owner: address }),
                )
                &&& final(self).spec_profile(address) == Some(
                    (ContributorProfile {
                        identity: address,
                        github_handle: github_handle,
                        reputation_score: 0u64,
                        registered_at: timestamp,
                    }),
                )
                &&& forall|other: AccountId|
                    other != address ==> final(self).spec_profile(other) == old(self).spec_profile(
                        other,
                    )
                &&& final(self).spec_owner(github_handle@) == Some(address)
                &&& forall|h: Seq<char>|
                    h != github_handle@ ==> final(self).spec_owner(h) == old(self).spec_owner(h)
            },
    {
        if self.admin.is_none() {
            return Err(ContributorError::NotInitialized);
        }
        if github_handle.as_str().is_empty() {
            return Err(ContributorError::InvalidGitHubHandle);
        }
        if find_profile_index(&self.contributors, address).is_some() {
            return Err(ContributorError::ContributorAlreadyExists);
        }
        match self.ensure_github_handle_available(&github_handle, address) {
            Err(e) => {
                return Err(e);
            },
            Ok(()) => {},
        }
        let ghost dir0 = self.contributors@;
        let ghost idx0 = self.github_index@;
        let ghost h = github_handle@;
        proof {
            lemma_find_profile_none(dir0, address);
            if find_owner(idx0, h) is Some {
                // The entry could only name `address` itself, yet every index
                // entry names a registered profile, and `address` has none.
                lemma_find_owner_witness(idx0, h);
                let k = choose|k: int|
                    0 <= k < idx0.len() && (#[trigger] idx0[k]).github_handle@ == h
                        && idx0[k].owner == find_owner(idx0, h)->Some_0;
                assert(directory_has(dir0, idx0[k].owner, idx0[k].github_handle@));
                let i = choose|i: int|
                    0 <= i < dir0.len() && (#[trigger] dir0[i]).identity == idx0[k].owner
                        && dir0[i].github_handle@ == idx0[k].github_handle@;
                assert(false);
            }
            lemma_find_owner_none(idx0, h);
        }
        let profile = ContributorProfile {
            identity: address,
            github_handle: github_handle.clone(),
            reputation_score: 0,
            registered_at: timestamp,
        };
        self.contributors.push(profile);
        self.github_index.push(IndexEntry { github_handle, owner: address });
        proof {
            let dir1 = self.contributors@;
            let idx1 = self.github_index@;
            assert(dir1[dir0.len() as int].identity == address);
            assert(idx1[idx0.len() as int].github_handle@ == h);
            assert forall|i: int, j: int| 0 <= i < j < dir1.len() implies (
            #[trigger] dir1[i]).identity != (#[trigger] dir1[j]).identity by {
                if j < dir0.len() {
                    assert(dir1[i] == dir0[i] && dir1[j] == dir0[j]);
                } else {
                    assert(dir1[i] == dir0[i]);
                }
            }
            assert forall|i: int, j: int| 0 <= i < j < idx1.len() implies (
            #[trigger] idx1[i]).github_handle@ != (#[trigger] idx1[j]).github_handle@ by {
                if j < idx0.len() {
                    assert(idx1[i] == idx0[i] && idx1[j] == idx0[j]);
                } else {
                    assert(idx1[i] == idx0[i]);
                }
            }
            assert forall|i: int| 0 <= i < dir1.len() implies index_has(
                idx1,
                (#[trigger] dir1[i]).github_handle@,
                dir1[i].identity,
            ) by {
                if i < dir0.len() {
                    assert(dir1[i] == dir0[i]);
                    assert(index_has(idx0, dir0[i].github_handle@, dir0[i].identity));
                    let k = choose|k: int|
                        0 <= k < idx0.len() && (#[trigger] idx0[k]).github_handle@
                            == dir0[i].github_handle@ && idx0[k].owner == dir0[i].identity;
                    assert(idx1[k] == idx0[k]);
                } else {
                    assert(idx1[idx0.len() as int].owner == address);
                }
            }
            assert forall|k: int| 0 <= k < idx1.len() implies directory_has(
                dir1,
                (#[trigger] idx1[k]).owner,
                idx1[k].github_handle@,
            ) by {
                if k < idx0.len() {
                    assert(idx1[k] == idx0[k]);
                    assert(directory_has(dir0, idx0[k].owner, idx0[k].github_handle@));
                    let i = choose|i: int|
                        0 <= i < dir0.len() && (#[trigger] dir0[i]).identity == idx0[k].owner
                            && dir0[i].github_handle@ == idx0[k].github_handle@;
                    assert(dir1[i] == dir0[i]);
                } else {
                    assert(dir1[dir0.len() as int].github_handle@ == h);
                }
            }
            // The abstract view of the change.
            lemma_find_profile_push(dir0, dir1[dir0.len() as int], address);
            assert forall|other: AccountId| other != address implies find_profile(dir1, other)
                == find_profile(dir0, other) by {
                lemma_find_profile_push(dir0, dir1[dir0.len() as int], other);
            }
            lemma_find_owner_push(idx0, idx1[idx0.len() as int], h);
            assert forall|h2: Seq<char>| h2 != h implies find_owner(idx1, h2) == find_owner(
                idx0,
                h2,
            ) by {
                lemma_find_owner_push(idx0, idx1[idx0.len() as int], h2);
            }
        }
        Ok(())
    }

    /// Changes the handle of the profile registered for `address`.  When the
    /// new handle differs from the stored one, the stale index entry is
    /// replaced by the entry for the new handle in the same logical step, so
    /// no stale entry survives; when it is the same, the call succeeds and
    /// changes nothing.
    pub fn update_contributor(&mut self, address: AccountId, github_handle: String) -> (r: Result<
        (),
        ContributorError,
    >)
        requires
            old(self).wf(),
        ensures
            final(self).wf(),
            final(self).admin == old(self).admin,
            r is Err ==> *final(self) == *old(self),
            !old(self).is_initialized() ==> r == Err::<(), ContributorError>(
                ContributorError::NotInitialized,
            ),
            old(self).is_initialized() && github_handle@.len() == 0 ==> r == Err::<
                (),
                ContributorError,
            >(ContributorError::InvalidGitHubHandle),
            old(self).is_initialized() && github_handle@.len() > 0 && !old(self).has_profile(
                address,
            ) ==> r == Err::<(), ContributorError>(ContributorError::ContributorNotFound),
            old(self).is_initialized() && github_handle@.len() > 0 && old(self).has_profile(
                address,
            ) && old(self).handle_taken_by_other(github_handle@, address) ==> r == Err::<
                (),
                ContributorError,
            >(ContributorError::GitHubHandleTaken),
            old(self).is_initialized() && github_handle@.len() > 0 && old(self).has_profile(
                address,
            ) && !old(self).handle_taken_by_other(github_handle@, address) && old(
                self,
            ).spec_profile(address)->0.github_handle@ == github_handle@ ==> r == Ok::<
                (),
                ContributorError,
            >(()) && *final(self) == *old(self),
            old(self).is_initialized() && github_handle@.len() > 0 && old(self).has_profile(
                address,
            ) && !old(self).handle_taken_by_other(github_handle@, address) && old(
                self,
            ).spec_profile(address)->0.github_handle@ != github_handle@ ==> {
                &&& r == Ok::<(), ContributorError>(())
                &&& final(self).spec_profile(address) == Some(
                    (ContributorProfile {
                        identity: address,
                        github_handle: github_handle,
                        reputation_score: old(self).spec_profile(address)->0.reputation_score,
                        registered_at: old(self).spec_profile(address)->0.registered_at,
                    }),
                )
                &&& forall|other: AccountId|
                    other != address ==> final(self).spec_profile(other) == old(self).spec_profile(
                        other,
                    )
                &&& final(self).spec_owner(github_handle@) == Some(address)
                &&& final(self).spec_owner(old(self).spec_profile(address)->0.github_handle@)
                    is None
                &&& forall|h: Seq<char>|
                    h != github_handle@ && h != old(self).spec_profile(address)->0.github_handle@
                        ==> final(self).spec_owner(h) == old(self).spec_owner(h)
                &&& final(self).contributors@.len() == old(self).contributors@.len()
                &&& final(self).github_index@.len() == old(self).github_index@.len()
            },
    {
        if self.admin.is_none() {
            return Err(ContributorError::NotInitialized);
        }
        if github_handle.as_str().is_empty() {
            return Err(ContributorError::InvalidGitHubHandle);
        }
        let i = match find_profile_index(&self.contributors, address) {
            Some(i) => i,
            None => {
                return Err(ContributorError::ContributorNotFound);
            },
        };
        match self.ensure_github_handle_available(&github_handle, address) {
            Err(e) => {
                return Err(e);
            },
            Ok(()) => {},
        }
        if self.contributors[i].github_handle == github_handle {
            return Ok(());
        }
        let old_handle = self.contributors[i].github_handle.clone();
        let ghost dir0 = self.contributors@;
        let ghost idx0 = self.github_index@;
        let ghost old_h = old_handle@;
        let ghost new_h = github_handle@;
        let k = match find_entry_index(&self.github_index, &old_handle) {
            Some(k) => k,
            None => {
                proof {
                    // Every profile's handle has an index entry, so the scan
                    // for the stored handle cannot miss.
                    assert(index_has(idx0, dir0[i as int].github_handle@, dir0[i as int].identity));
                    let w = choose|w: int|
                        0 <= w < idx0.len() && (#[trigger] idx0[w]).github_handle@ == old_h
                            && idx0[w].owner == address;
                    lemma_find_owner_none(idx0, old_h);
                    assert(false);
                }
                return Err(ContributorError::ContributorNotFound);
            },
        };
        proof {
            // The entry found for the stored handle belongs to `address`:
            // the profile's own entry carries the same handle, and handles
            // are pairwise distinct in the index.
            assert(index_has(idx0, dir0[i as int].github_handle@, dir0[i as int].identity));
            let w = choose|w: int|
                0 <= w < idx0.len() && (#[trigger] idx0[w]).github_handle@ == old_h && idx0[w].owner
                    == address;
            assert(w == k as int);
            assert(idx0[k as int].owner == address);
            // No index entry carries the new handle: one could only name
            // `address` itself, yet every entry names a profile that holds
            // its handle, and the profile of `address` holds the old one.
            if find_owner(idx0, new_h) is Some {
                lemma_find_owner_witness(idx0, new_h);
                let k2 = choose|k2: int|
                    0 <= k2 < idx0.len() && (#[trigger] idx0[k2]).github_handle@ == new_h
                        && idx0[k2].owner == find_owner(idx0, new_h)->Some_0;
                assert(directory_has(dir0, idx0[k2].owner, idx0[k2].github_handle@));
                let i2 = choose|i2: int|
                    0 <= i2 < dir0.len() && (#[trigger] dir0[i2]).identity == address
                        && dir0[i2].github_handle@ == new_h;
                if i2 < i as int {
                    assert(dir0[i2].identity != dir0[i as int].identity);
                } else if (i as int) < i2 {
                    assert(dir0[i as int].identity != dir0[i2].identity);
                }
                assert(false);
            }
            lemma_find_owner_none(idx0, new_h);
        }
        let score = self.contributors[i].reputation_score;
        let ts = self.contributors[i].registered_at;
        self.github_index[k] = IndexEntry { github_handle: github_handle.clone(), owner: address };
        self.contributors[i] = ContributorProfile {
            identity: address,
            github_handle,
            reputation_score: score,
            registered_at: ts,
        };
        proof {
            let dir1 = self.contributors@;
            let idx1 = self.github_index@;
            let updated = dir1[i as int];
            let new_entry = idx1[k as int];
            assert(updated.identity == address && updated.github_handle@ == new_h);
            assert(new_entry.owner == address && new_entry.github_handle@ == new_h);
            assert forall|p: int, q: int| 0 <= p < q < dir1.len() implies (
            #[trigger] dir1[p]).identity != (#[trigger] dir1[q]).identity by {
                assert(dir1[p].identity == dir0[p].identity);
                assert(dir1[q].identity == dir0[q].identity);
            }
            assert forall|p: int, q: int| 0 <= p < q < idx1.len() implies (
            #[trigger] idx1[p]).github_handle@ != (#[trigger] idx1[q]).github_handle@ by {
                if p != k as int && q != k as int {
                    assert(idx1[p] == idx0[p] && idx1[q] == idx0[q]);
                } else if p == k as int {
                    assert(idx1[q] == idx0[q]);
                    assert(idx0[q].github_handle@ != new_h);
                } else {
                    assert(idx1[p] == idx0[p]);
                    assert(idx0[p].github_handle@ != new_h);
                }
            }
            assert forall|m: int| 0 <= m < dir1.len() implies index_has(
                idx1,
                (#[trigger] dir1[m]).github_handle@,
                dir1[m].identity,
            ) by {
                if m == i as int {
                    assert(0 <= (k as int) < idx1.len() && (
                    #[trigger] idx1[k as int]).github_handle@ == new_h && idx1[k as int].owner
                        == address);
                } else {
                    assert(dir1[m] == dir0[m]);
                    assert(index_has(idx0, dir0[m].github_handle@, dir0[m].identity));
                    let w2 = choose|w2: int|
                        0 <= w2 < idx0.len() && (#[trigger] idx0[w2]).github_handle@
                            == dir0[m].github_handle@ && idx0[w2].owner == dir0[m].identity;
                    if w2 == k as int {
                        // Then another profile would hold the old handle: its
                        // identity matches the entry's owner, `address`, which
                        // contradicts identity uniqueness.
                        assert(dir0[m].identity == address);
                        if m < i as int {
                            assert(dir0[m].identity != dir0[i as int].identity);
                        } else {
                            assert(dir0[i as int].identity != dir0[m].identity);
                        }
                        assert(false);
                    }
                    assert(idx1[w2] == idx0[w2]);
                }
            }
            assert forall|m: int| 0 <= m < idx1.len() implies directory_has(
                dir1,
                (#[trigger] idx1[m]).owner,
                idx1[m].github_handle@,
            ) by {
                if m == k as int {
                    assert(0 <= (i as int) < dir1.len() && (#[trigger] dir1[i as int]).identity
                        == address && dir1[i as int].github_handle@ == new_h);
                } else {
                    assert(idx1[m] == idx0[m]);
                    assert(directory_has(dir0, idx0[m].owner, idx0[m].github_handle@));
                    let w3 = choose|w3: int|
                        0 <= w3 < dir0.len() && (#[trigger] dir0[w3]).identity == idx0[m].owner
                            && dir0[w3].github_handle@ == idx0[m].github_handle@;
                    if w3 == i as int {
                        // Then this entry would carry the old handle next to
                        // the entry at `k`, contradicting handle uniqueness.
                        if m < k as int {
                            assert(idx0[m].github_handle@ != idx0[k as int].github_handle@);
                        } else {
                            assert(idx0[k as int].github_handle@ != idx0[m].github_handle@);
                        }
                        assert(false);
                    }
                    assert(dir1[w3] == dir0[w3]);
                }
            }
            // The abstract view of the change.
            lemma_find_profile_at(dir1, i as int);
            assert forall|other: AccountId| other != address implies find_profile(dir1, other)
                == find_profile(dir0, other) by {
                lemma_find_profile_update_other(dir0, i as int, updated, other);
                assert(dir1 =~= dir0.update(i as int, updated));
            }
            lemma_find_owner_at(idx1, k as int);
            assert forall|m: int| 0 <= m < idx1.len() implies (#[trigger] idx1[m]).github_handle@
                != old_h by {
                if m != k as int {
                    assert(idx1[m] == idx0[m]);
                    if m < k as int {
                        assert(idx0[m].github_handle@ != idx0[k as int].github_handle@);
                    } else {
                        assert(idx0[k as int].github_handle@ != idx0[m].github_handle@);
                    }
                }
            }
            lemma_find_owner_none(idx1, old_h);
            assert forall|h2: Seq<char>| h2 != new_h && h2 != old_h implies find_owner(idx1, h2)
                == find_owner(idx0, h2) by {
                lemma_find_owner_update_other(idx0, k as int, new_entry, h2);
                assert(idx1 =~= idx0.update(k as int, new_entry));
            }
        }
        Ok(())
    }

    /// Adjusts the reputation score of `contributor_address` by `delta`,
    /// under the arithmetic rule of [`crate::reputation::spec_apply_delta`].
    /// Only the stored administrator may call this; nothing else of the
    /// profile, or of the registry, changes.
    pub fn update_reputation(
        &mut self,
        admin: AccountId,
        contributor_address: AccountId,
        delta: i64,
    ) -> (r: Result<(), ContributorError>)
        requires
            old(self).wf(),
        ensures
            final(self).wf(),
            final(self).admin == old(self).admin,
            final(self).github_index == old(self).github_index,
            r is Err ==> *final(self) == *old(self),
            !old(self).is_initialized() ==> r == Err::<(), ContributorError>(
                ContributorError::NotInitialized,
            ),
            old(self).is_initialized() && admin != old(self).spec_admin() ==> r == Err::<
                (),
                ContributorError,
            >(ContributorError::Unauthorized),
            old(self).is_initialized() && admin == old(self).spec_admin() && !old(
                self,
            ).has_profile(contributor_address) ==> r == Err::<(), ContributorError>(
                ContributorError::ContributorNotFound,
            ),
            old(self).is_initialized() && admin == old(self).spec_admin() && old(self).has_profile(
                contributor_address,
            ) && spec_apply_delta(
                old(self).spec_profile(contributor_address)->0.reputation_score,
                delta,
            ) is Err ==> r == Err::<(), ContributorError>(ContributorError::ReputationOverflow),
            old(self).is_initialized() && admin == old(self).spec_admin() && old(self).has_profile(
                contributor_address,
            ) && spec_apply_delta(
                old(self).spec_profile(contributor_address)->0.reputation_score,
                delta,
            ) is Ok ==> {
                &&& r == Ok::<(), ContributorError>(())
                &&& final(self).spec_profile(contributor_address) == Some(
                    (ContributorProfile {
                        identity: contributor_address,
                        github_handle: old(self).spec_profile(contributor_address)->0.github_handle,
                        reputation_score: spec_apply_delta(
                            old(self).spec_profile(contributor_address)->0.reputation_score,
                            delta,
                        )->Ok_0,
                        registered_at: old(self).spec_profile(contributor_address)->0.registered_at,
                    }),
                )
                &&& forall|other: AccountId|
                    other != contributor_address ==> final(self).spec_profile(other) == old(
                        self,
                    ).spec_profile(other)
                &&& final(self).contributors@.len() == old(self).contributors@.len()
            },
    {
        let stored_admin = match self.admin {
            Some(a) => a,
            None => {
                return Err(ContributorError::NotInitialized);
            },
        };
        if admin != stored_admin {
            return Err(ContributorError::Unauthorized);
        }
        let i = match find_profile_index(&self.contributors, contributor_address) {
            Some(i) => i,
            None => {
                return Err(ContributorError::ContributorNotFound);
            },
        };
        let new_score = match apply_delta(self.contributors[i].reputation_score, delta) {
            Ok(new_score) => new_score,
            Err(e) => {
                return Err(e);
            },
        };
        let ghost dir0 = self.contributors@;
        let ghost idx0 = self.github_index@;
        let handle = self.contributors[i].github_handle.clone();
        let ts = self.contributors[i].registered_at;
        self.contributors[i] = ContributorProfile {
            identity: contributor_address,
            github_handle: handle,
            reputation_score: new_score,
            registered_at: ts,
        };
        proof {
            let dir1 = self.contributors@;
            let updated = dir1[i as int];
            assert(updated.identity == dir0[i as int].identity);
            assert(updated.github_handle@ == dir0[i as int].github_handle@);
            assert forall|p: int, q: int| 0 <= p < q < dir1.len() implies (
            #[trigger] dir1[p]).identity != (#[trigger] dir1[q]).identity by {
                assert(dir1[p].identity == dir0[p].identity);
                assert(dir1[q].identity == dir0[q].identity);
            }
            assert forall|m: int| 0 <= m < dir1.len() implies index_has(
                idx0,
                (#[trigger] dir1[m]).github_handle@,
                dir1[m].identity,
            ) by {
                assert(dir1[m].github_handle@ == dir0[m].github_handle@ && dir1[m].identity
                    == dir0[m].identity);
                assert(index_has(idx0, dir0[m].github_handle@, dir0[m].identity));
            }
            assert forall|m: int| 0 <= m < idx0.len() implies directory_has(
                dir1,
                (#[trigger] idx0[m]).owner,
                idx0[m].github_handle@,
            ) by {
                assert(directory_has(dir0, idx0[m].owner, idx0[m].github_handle@));
                let w = choose|w: int|
                    0 <= w < dir0.len() && (#[trigger] dir0[w]).identity == idx0[m].owner
                        && dir0[w].github_handle@ == idx0[m].github_handle@;
                assert(dir1[w].identity == idx0[m].owner && dir1[w].github_handle@
                    == idx0[m].github_handle@);
            }
            lemma_find_profile_at(dir1, i as int);
            assert forall|other: AccountId| other != contributor_address implies find_profile(
                dir1,
                other,
            ) == find_profile(dir0, other) by {
                lemma_find_profile_update_other(dir0, i as int, updated, other);
                assert(dir1 =~= dir0.update(i as int, updated));
            }
        }
        Ok(())
    }

    /// Returns the reputation score of `contributor`.
    pub fn get_reputation(&self, contributor: AccountId) -> (r: Result<u64, ContributorError>)
        ensures
            self.has_profile(contributor) ==> r == Ok::<u64, ContributorError>(
                self.spec_profile(contributor)->0.reputation_score,
            ),
            !self.has_profile(contributor) ==> r == Err::<u64, ContributorError>(
                ContributorError::ContributorNotFound,
            ),
    {
        let contributor_data = self.get_contributor(contributor)?;
        Ok(contributor_data.reputation_score)
    }

    /// Returns the profile registered for `address`.
    pub fn get_contributor(&self, address: AccountId) -> (r: Result<
        ContributorProfile,
        ContributorError,
    >)
        ensures
            self.has_profile(address) ==> r == Ok::<ContributorProfile, ContributorError>(
                self.spec_profile(address)->0,
            ),
            !self.has_profile(address) ==> r == Err::<ContributorProfile, ContributorError>(
                ContributorError::ContributorNotFound,
            ),
    {
        match find_profile_index(&self.contributors, address) {
            Some(i) => Ok(self.contributors[i].clone()),
            None => Err(ContributorError::ContributorNotFound),
        }
    }

    /// Resolves `github_handle` through the index, then returns the profile
    /// of the identity it names.  An index entry pointing at an identity
    /// with no profile surfaces as `ContributorNotFound`, never as a panic.
    pub fn get_contributor_by_github(&self, github_handle: &String) -> (r: Result<
        ContributorProfile,
        ContributorError,
    >)
        ensures
            self.spec_owner(github_handle@) is None ==> r == Err::<
                ContributorProfile,
                ContributorError,
            >(ContributorError::ContributorNotFound),
            self.spec_owner(github_handle@) is Some && !self.has_profile(
                self.spec_owner(github_handle@)->0,
            ) ==> r == Err::<ContributorProfile, ContributorError>(
                ContributorError::ContributorNotFound,
            ),
            self.spec_owner(github_handle@) is Some && self.has_profile(
                self.spec_owner(github_handle@)->0,
            ) ==> r == Ok::<ContributorProfile, ContributorError>(
                self.spec_profile(self.spec_owner(github_handle@)->0)->0,
            ),
    {
        let k = match find_entry_index(&self.github_index, github_handle) {
            Some(k) => k,
            None => {
                return Err(ContributorError::ContributorNotFound);
            },
        };
        let contributor_address = self.github_index[k].owner;
        self.get_contributor(contributor_address)
    }

    /// Returns the stored administrator.
    pub fn get_admin(&self) -> (r: Result<AccountId, ContributorError>)
        ensures
            self.is_initialized() ==> r == Ok::<AccountId, ContributorError>(self.spec_admin()),
            !self.is_initialized() ==> r == Err::<AccountId, ContributorError>(
                ContributorError::NotInitialized,
            ),
    {
        match self.admin {
            Some(admin) => Ok(admin),
            None => Err(ContributorError::NotInitialized),
        }
    }

    /// Requests that the host replace the executing code with the code named
    /// by `new_wasm_hash`.  Only the stored administrator may request it; the
    /// hash's content is not validated, only the caller's authority.  On
    /// success the returned notification carries the hash for the host to
    /// act on and to deliver to observers.
    pub fn upgrade(&self, caller: AccountId, new_wasm_hash: Vec<u8>) -> (r: Result<
        UpgradedEvent,
        ContributorError,
    >)
        ensures
            !self.is_initialized() ==> r == Err::<UpgradedEvent, ContributorError>(
                ContributorError::NotInitialized,
            ),
            self.is_initialized() && caller != self.spec_admin() ==> r == Err::<
                UpgradedEvent,
                ContributorError,
            >(ContributorError::Unauthorized),
            self.is_initialized() && caller == self.spec_admin() ==> r == Ok::<
                UpgradedEvent,
                ContributorError,
            >((UpgradedEvent { admin: caller, new_wasm_hash: new_wasm_hash })),
    {
        let admin = match self.admin {
            Some(a) => a,
            None => {
                return Err(ContributorError::NotInitialized);
            },
        };
        if caller != admin {
            return Err(ContributorError::Unauthorized);
        }
        Ok(UpgradedEvent { admin: caller, new_wasm_hash })
    }

    /// Transfers the administrator role to `new_admin`.  Only the stored
    /// administrator may transfer it; profiles and the index are untouched.
    /// On success the returned notification names both administrators for
    /// the host to deliver to observers.
    pub fn set_admin(&mut self, current_admin: AccountId, new_admin: AccountId) -> (r: Result<
        AdminChangedEvent,
        ContributorError,
    >)
        ensures
            final(self).contributors == old(self).contributors,
            final(self).github_index == old(self).github_index,
            old(self).wf() ==> final(self).wf(),
            r is Err ==> *final(self) == *old(self),
            !old(self).is_initialized() ==> r == Err::<AdminChangedEvent, ContributorError>(
                ContributorError::NotInitialized,
            ),
            old(self).is_initialized() && current_admin != old(self).spec_admin() ==> r == Err::<
                AdminChangedEvent,
                ContributorError,
            >(ContributorError::Unauthorized),
            old(self).is_initialized() && current_admin == old(self).spec_admin() ==> r == Ok::<
                AdminChangedEvent,
                ContributorError,
            >((AdminChangedEvent { old_admin: current_admin, new_admin: new_admin }))
                && final(self).admin == Some(new_admin),
    {
        let stored_admin = match self.admin {
            Some(a) => a,
            None => {
                return Err(ContributorError::NotInitialized);
            },
        };
        if current_admin != stored_admin {
            return Err(ContributorError::Unauthorized);
        }
        self.admin = Some(new_admin);
        Ok(AdminChangedEvent { old_admin: current_admin, new_admin })
    }
}

/// Uniqueness law: in a well-formed registry, two profiles at distinct
/// positions never share an identity and never share a handle — so at most
/// one profile exists per identity, and at most one claims a given handle.
/// Every operation of the registry keeps the state well-formed, so this
/// holds after every sequence of operations started from
/// [`ContributorRegistryContract::new`].
pub proof fn lemma_uniqueness(s: ContributorRegistryContract, i: int, j: int)
    requires
        s.wf(),
        0 <= i < j < s.contributors@.len(),
    ensures
        s.contributors@[i].identity != s.contributors@[j].identity,
        s.contributors@[i].github_handle@ != s.contributors@[j].github_handle@,
{
    let dir = s.contributors@;
    let idx = s.github_index@;
    if dir[i].github_handle@ == dir[j].github_handle@ {
        assert(index_has(idx, dir[i].github_handle@, dir[i].identity));
        assert(index_has(idx, dir[j].github_handle@, dir[j].identity));
        let ki = choose|k: int|
            0 <= k < idx.len() && (#[trigger] idx[k]).github_handle@ == dir[i].github_handle@
                && idx[k].owner == dir[i].identity;
        let kj = choose|k: int|
            0 <= k < idx.len() && (#[trigger] idx[k]).github_handle@ == dir[j].github_handle@
                && idx[k].owner == dir[j].identity;
        if ki < kj {
            assert(idx[ki].github_handle@ != idx[kj].github_handle@);
        } else if kj < ki {
            assert(idx[kj].github_handle@ != idx[ki].github_handle@);
        }
        assert(false);
    }
}

/// Index consistency law: in a well-formed registry, looking up any
/// registered profile's current handle through the reverse index yields that
/// profile's identity.
pub proof fn lemma_index_consistency(s: ContributorRegistryContract, identity: AccountId)
    requires
        s.wf(),
        s.has_profile(identity),
    ensures
        s.spec_owner(s.spec_profile(identity)->0.github_handle@) == Some(identity),
{
    let dir = s.contributors@;
    let idx = s.github_index@;
    lemma_find_profile_witness(dir, identity);
    let i = choose|i: int|
        0 <= i < dir.len() && #[trigger] dir[i] == find_profile(dir, identity)->Some_0
            && dir[i].identity == identity;
    assert(index_has(idx, dir[i].github_handle@, dir[i].identity));
    let k = choose|k: int|
        0 <= k < idx.len() && (#[trigger] idx[k]).github_handle@ == dir[i].github_handle@
            && idx[k].owner == identity;
    lemma_find_owner_at(idx, k);
}

/// No-stale-entry law: in a well-formed registry, a handle that no profile
/// currently holds resolves to nothing in the reverse index.
pub proof fn lemma_no_stale_entry(s: ContributorRegistryContract, handle: Seq<char>)
    requires
        s.wf(),
        forall|i: int|
            0 <= i < s.contributors@.len() ==> (#[trigger] s.contributors@[i]).github_handle@
                != handle,
    ensures
        s.spec_owner(handle) is None,
{
    let dir = s.contributors@;
    let idx = s.github_index@;
    if find_owner(idx, handle) is Some {
        lemma_find_owner_witness(idx, handle);
        let k = choose|k: int|
            0 <= k < idx.len() && (#[trigger] idx[k]).github_handle@ == handle && idx[k].owner
                == find_owner(idx, handle)->Some_0;
        assert(directory_has(dir, idx[k].owner, idx[k].github_handle@));
        let i = choose|i: int|
            0 <= i < dir.len() && (#[trigger] dir[i]).identity == idx[k].owner
                && dir[i].github_handle@ == handle;
        assert(false);
    }
}

/// The position of the profile registered for `identity`, scanning from the
/// front of the directory.
fn find_profile_index(v: &Vec<ContributorProfile>, identity: AccountId) -> (r: Option<usize>)
    ensures
        match r {
            Some(i) => i < v@.len() && v@[i as int].identity == identity && find_profile(
                v@,
                identity,
            ) == Some(v@[i as int]),
            None => find_profile(v@, identity) is None,
        },
{
    proof {
        assert(v@.skip(0) =~= v@);
    }
    let mut i: usize = 0;
    while i < v.len()
        invariant
            i <= v@.len(),
            find_profile(v@, identity) == find_profile(v@.skip(i as int), identity),
        decreases v@.len() - i,
    {
        proof {
            lemma_find_profile_skip_step(v@, identity, i as int);
        }
        if v[i].identity == identity {
            return Some(i);
        }
        i = i + 1;
    }
    proof {
        assert(v@.skip(v@.len() as int) =~= Seq::<ContributorProfile>::empty());
    }
    None
}

/// The position of the index entry that carries `handle`, scanning from the
/// front of the index.
fn find_entry_index(v: &Vec<IndexEntry>, handle: &String) -> (r: Option<usize>)
    ensures
        match r {
            Some(k) => k < v@.len() && v@[k as int].github_handle@ == handle@ && find_owner(
                v@,
                handle@,
            ) == Some(v@[k as int].owner),
            None => find_owner(v@, handle@) is None,
        },
{
    proof {
        assert(v@.skip(0) =~= v@);
    }
    let mut k: usize = 0;
    while k < v.len()
        invariant
            k <= v@.len(),
            find_owner(v@, handle@) == find_owner(v@.skip(k as int), handle@),
        decreases v@.len() - k,
    {
        proof {
            lemma_find_owner_skip_step(v@, handle@, k as int);
        }
        if v[k].github_handle == *handle {
            return Some(k);
        }
        k = k + 1;
    }
    proof {
        assert(v@.skip(v@.len() as int) =~= Seq::<IndexEntry>::empty());
    }
    None
}

} // verus!
