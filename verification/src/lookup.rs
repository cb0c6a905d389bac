use vstd::prelude::*;
use crate::profile::{AccountId, ContributorProfile, IndexEntry};

verus! {

/// The profile stored for `identity` in the directory, scanning from the
/// front; `None` when no profile carries that identity.
pub open spec fn find_profile(s: Seq<ContributorProfile>, identity: AccountId) -> Option<
    ContributorProfile,
>
    decreases s.len(),
{
    if s.len() == 0 {
        None
    } else if s[0].identity == identity {
        Some(s[0])
    } else {
        find_profile(s.drop_first(), identity)
    }
}

/// The identity that the index currently maps `handle` to, scanning from the
/// front; `None` when no entry carries that handle.
pub open spec fn find_owner(s: Seq<IndexEntry>, handle: Seq<char>) -> Option<AccountId>
    decreases s.len(),
{
    if s.len() == 0 {
        None
    } else if s[0].github_handle@ == handle {
        Some(s[0].owner)
    } else {
        find_owner(s.drop_first(), handle)
    }
}

/// Some index entry maps `handle` to `owner`.
pub open spec fn index_has(s: Seq<IndexEntry>, handle: Seq<char>, owner: AccountId) -> bool {
    exists|k: int|
        0 <= k < s.len() && (#[trigger] s[k]).github_handle@ == handle && s[k].owner == owner
}

/// Some profile carries `identity` and currently holds `handle`.
pub open spec fn directory_has(
    s: Seq<ContributorProfile>,
    identity: AccountId,
    handle: Seq<char>,
) -> bool {
    exists|i: int|
        0 <= i < s.len() && (#[trigger] s[i]).identity == identity && s[i].github_handle@
            == handle
}

/// A directory lookup misses exactly when no profile carries the identity.
pub proof fn lemma_find_profile_none(s: Seq<ContributorProfile>, identity: AccountId)
    ensures
        (find_profile(s, identity) is None) <==> (forall|i: int|
            0 <= i < s.len() ==> (#[trigger] s[i]).identity != identity),
    decreases s.len(),
{
    if s.len() > 0 {
        lemma_find_profile_none(s.drop_first(), identity);
        if s[0].identity != identity {
            if find_profile(s, identity) is None {
                assert forall|i: int| 0 <= i < s.len() implies (#[trigger] s[i]).identity
                    != identity by {
                    if i > 0 {
                        assert(s.drop_first()[i - 1] == s[i]);
                    }
                }
            } else {
                let i = choose|i: int|
                    0 <= i < s.drop_first().len() && (#[trigger] s.drop_first()[i]).identity
                        == identity;
                assert(s[i + 1].identity == identity);
            }
        }
    }
}

/// A directory hit names a profile that is present in the directory.
pub proof fn lemma_find_profile_witness(s: Seq<ContributorProfile>, identity: AccountId)
    requires
        find_profile(s, identity) is Some,
    ensures
        exists|i: int|
            0 <= i < s.len() && #[trigger] s[i] == find_profile(s, identity)->Some_0
                && s[i].identity == identity,
    decreases s.len(),
{
    if s[0].identity == identity {
        assert(s[0] == find_profile(s, identity)->Some_0);
    } else {
        lemma_find_profile_witness(s.drop_first(), identity);
        let i = choose|i: int|
            0 <= i < s.drop_first().len() && #[trigger] s.drop_first()[i] == find_profile(
                s.drop_first(),
                identity,
            )->Some_0 && s.drop_first()[i].identity == identity;
        assert(s[i + 1] == find_profile(s, identity)->Some_0);
    }
}

/// When identities are pairwise distinct, the lookup of the identity stored
/// at position `i` returns exactly the profile at position `i`.
pub proof fn lemma_find_profile_at(s: Seq<ContributorProfile>, i: int)
    requires
        0 <= i < s.len(),
        forall|p: int, q: int|
            0 <= p < q < s.len() ==> (#[trigger] s[p]).identity != (#[trigger] s[q]).identity,
    ensures
        find_profile(s, s[i].identity) == Some(s[i]),
    decreases i,
{
    if i > 0 {
        assert(s[0].identity != s[i].identity);
        let t = s.drop_first();
        assert forall|p: int, q: int| 0 <= p < q < t.len() implies (#[trigger] t[p]).identity != (
        #[trigger] t[q]).identity by {
            assert(t[p] == s[p + 1]);
            assert(t[q] == s[q + 1]);
        }
        assert(t[i - 1] == s[i]);
        lemma_find_profile_at(t, i - 1);
    }
}

/// How a directory lookup behaves after a profile is appended.
pub proof fn lemma_find_profile_push(
    s: Seq<ContributorProfile>,
    p: ContributorProfile,
    identity: AccountId,
)
    ensures
        find_profile(s.push(p), identity) == (if find_profile(s, identity) is Some {
            find_profile(s, identity)
        } else if p.identity == identity {
            Some(p)
        } else {
            None::<ContributorProfile>
        }),
    decreases s.len(),
{
    if s.len() == 0 {
        assert(s =~= Seq::<ContributorProfile>::empty());
        assert(s.push(p)[0] == p);
        assert(s.push(p).drop_first() =~= s);
    } else {
        lemma_find_profile_push(s.drop_first(), p, identity);
        assert(s.push(p)[0] == s[0]);
        assert(s.push(p).drop_first() =~= s.drop_first().push(p));
    }
}

/// Overwriting position `i` does not change the lookup of an identity that
/// matches neither the profile replaced nor its replacement.
pub proof fn lemma_find_profile_update_other(
    s: Seq<ContributorProfile>,
    i: int,
    p: ContributorProfile,
    identity: AccountId,
)
    requires
        0 <= i < s.len(),
        identity != s[i].identity,
        identity != p.identity,
    ensures
        find_profile(s.update(i, p), identity) == find_profile(s, identity),
    decreases s.len(),
{
    let t = s.update(i, p);
    if i == 0 {
        assert(t[0] == p);
        assert(t.drop_first() =~= s.drop_first());
    } else {
        assert(t[0] == s[0]);
        if s[0].identity != identity {
            lemma_find_profile_update_other(s.drop_first(), i - 1, p, identity);
            assert(t.drop_first() =~= s.drop_first().update(i - 1, p));
        }
    }
}

/// An index lookup misses exactly when no entry carries the handle.
pub proof fn lemma_find_owner_none(s: Seq<IndexEntry>, handle: Seq<char>)
    ensures
        (find_owner(s, handle) is None) <==> (forall|k: int|
            0 <= k < s.len() ==> (#[trigger] s[k]).github_handle@ != handle),
    decreases s.len(),
{
    if s.len() > 0 {
        lemma_find_owner_none(s.drop_first(), handle);
        if s[0].github_handle@ != handle {
            if find_owner(s, handle) is None {
                assert forall|k: int| 0 <= k < s.len() implies (#[trigger] s[k]).github_handle@
                    != handle by {
                    if k > 0 {
                        assert(s.drop_first()[k - 1] == s[k]);
                    }
                }
            } else {
                let k = choose|k: int|
                    0 <= k < s.drop_first().len() && (#[trigger] s.drop_first()[k]).github_handle@
                        == handle;
                assert(s[k + 1].github_handle@ == handle);
            }
        }
    }
}

/// An index hit names an entry that is present in the index.
pub proof fn lemma_find_owner_witness(s: Seq<IndexEntry>, handle: Seq<char>)
    requires
        find_owner(s, handle) is Some,
    ensures
        exists|k: int|
            0 <= k < s.len() && (#[trigger] s[k]).github_handle@ == handle && s[k].owner
                == find_owner(s, handle)->Some_0,
    decreases s.len(),
{
    if s[0].github_handle@ == handle {
        assert(s[0].owner == find_owner(s, handle)->Some_0);
    } else {
        lemma_find_owner_witness(s.drop_first(), handle);
        let k = choose|k: int|
            0 <= k < s.drop_first().len() && (#[trigger] s.drop_first()[k]).github_handle@
                == handle && s.drop_first()[k].owner == find_owner(s.drop_first(), handle)->Some_0;
        assert(s[k + 1].github_handle@ == handle);
        assert(s[k + 1].owner == find_owner(s, handle)->Some_0);
    }
}

/// When handles are pairwise distinct, the lookup of the handle stored at
/// position `k` returns exactly the owner recorded at position `k`.
pub proof fn lemma_find_owner_at(s: Seq<IndexEntry>, k: int)
    requires
        0 <= k < s.len(),
        forall|p: int, q: int|
            0 <= p < q < s.len() ==> (#[trigger] s[p]).github_handle@ != (
            #[trigger] s[q]).github_handle@,
    ensures
        find_owner(s, s[k].github_handle@) == Some(s[k].owner),
    decreases k,
{
    if k > 0 {
        assert(s[0].github_handle@ != s[k].github_handle@);
        let t = s.drop_first();
        assert forall|p: int, q: int| 0 <= p < q < t.len() implies (#[trigger] t[p]).github_handle@
            != (#[trigger] t[q]).github_handle@ by {
            assert(t[p] == s[p + 1]);
            assert(t[q] == s[q + 1]);
        }
        assert(t[k - 1] == s[k]);
        lemma_find_owner_at(t, k - 1);
    }
}

/// How an index lookup behaves after an entry is appended.
pub proof fn lemma_find_owner_push(s: Seq<IndexEntry>, e: IndexEntry, handle: Seq<char>)
    ensures
        find_owner(s.push(e), handle) == (if find_owner(s, handle) is Some {
            find_owner(s, handle)
        } else if e.github_handle@ == handle {
            Some(e.owner)
        } else {
            None::<AccountId>
        }),
    decreases s.len(),
{
    if s.len() == 0 {
        assert(s =~= Seq::<IndexEntry>::empty());
        assert(s.push(e)[0] == e);
        assert(s.push(e).drop_first() =~= s);
    } else {
        lemma_find_owner_push(s.drop_first(), e, handle);
        assert(s.push(e)[0] == s[0]);
        assert(s.push(e).drop_first() =~= s.drop_first().push(e));
    }
}

/// Overwriting position `k` does not change the lookup of a handle that
/// matches neither the entry replaced nor its replacement.
pub proof fn lemma_find_owner_update_other(
    s: Seq<IndexEntry>,
    k: int,
    e: IndexEntry,
    handle: Seq<char>,
)
    requires
        0 <= k < s.len(),
        handle != s[k].github_handle@,
        handle != e.github_handle@,
    ensures
        find_owner(s.update(k, e), handle) == find_owner(s, handle),
    decreases s.len(),
{
    let t = s.update(k, e);
    if k == 0 {
        assert(t[0] == e);
        assert(t.drop_first() =~= s.drop_first());
    } else {
        assert(t[0] == s[0]);
        if s[0].github_handle@ != handle {
            lemma_find_owner_update_other(s.drop_first(), k - 1, e, handle);
            assert(t.drop_first() =~= s.drop_first().update(k - 1, e));
        }
    }
}

/// Unfolds one scan step: the lookup over the suffix starting at `n` either
/// stops at position `n` or continues over the suffix starting at `n + 1`.
pub proof fn lemma_find_profile_skip_step(s: Seq<ContributorProfile>, identity: AccountId, n: int)
    requires
        0 <= n < s.len(),
    ensures
        find_profile(s.skip(n), identity) == (if s[n].identity == identity {
            Some(s[n])
        } else {
            find_profile(s.skip(n + 1), identity)
        }),
{
    assert(s.skip(n)[0] == s[n]);
    assert(s.skip(n).drop_first() =~= s.skip(n + 1));
}

/// Unfolds one scan step of the index lookup, as
/// [`lemma_find_profile_skip_step`] does for the directory.
pub proof fn lemma_find_owner_skip_step(s: Seq<IndexEntry>, handle: Seq<char>, n: int)
    requires
        0 <= n < s.len(),
    ensures
        find_owner(s.skip(n), handle) == (if s[n].github_handle@ == handle {
            Some(s[n].owner)
        } else {
            find_owner(s.skip(n + 1), handle)
        }),
{
    assert(s.skip(n)[0] == s[n]);
    assert(s.skip(n).drop_first() =~= s.skip(n + 1));
}

} // verus!
