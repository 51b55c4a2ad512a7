//! Decision logic of the expiry waiter: when an insertion must wake the
//! waiter early, what its next wake target is, and how the outcome of one
//! revocation attempt is folded back into the store. The waiter's loop —
//! blocking on a deadline or a wake signal and calling the external
//! role-removal — is run by the embedding process; every decision it takes
//! between those calls is taken here.

use vstd::prelude::*;

use crate::grant::{fresh_grant, grant_due};
use crate::store::{
    find_grant, mark_result, mark_rows, row_keyed, store_wf, GrantStore, MarkOutcome, StoredGrant,
};

verus! {

/// A freshly inserted grant must wake the waiter immediately exactly when the
/// waiter currently has no wake target at all, or when the new grant falls due
/// strictly before the current target.
pub fn should_signal(new_expires_at: u64, current_target: Option<u64>) -> (r: bool)
    ensures
        r == match current_target {
            Option::None => true,
            Option::Some(t) => new_expires_at < t,
        },
{
    match current_target {
        Option::None => true,
        Option::Some(t) => new_expires_at < t,
    }
}

/// No grant in the store is still active.
pub open spec fn no_active_grants(s: Seq<StoredGrant>) -> bool {
    forall|j: int| 0 <= j < s.len() ==> !((#[trigger] s[j]).grant.status is Active)
}

/// `m` is the expiry of some still-active grant, and no still-active grant
/// expires before it.
pub open spec fn earliest_active_expiry(s: Seq<StoredGrant>, m: u64) -> bool {
    &&& exists|j: int|
        0 <= j < s.len() && (#[trigger] s[j]).grant.status is Active && s[j].grant.expires_at == m
    &&& forall|j: int|
        0 <= j < s.len() && (#[trigger] s[j]).grant.status is Active ==> m
            <= s[j].grant.expires_at
}

/// Recompute the waiter's wake target from the store: the expiry of the
/// earliest still-active grant, or nothing — wait indefinitely — when no
/// grant is active.
pub fn next_wake_target(store: &GrantStore) -> (r: Option<u64>)
    ensures
        r is None <==> no_active_grants(store@),
        r matches Some(m) ==> earliest_active_expiry(store@, m),
{
    let n = store.len();
    let mut best: Option<u64> = None;
    let mut k: usize = 0;
    while k < n
        invariant
            n == store@.len(),
            k <= n,
            best is None <==> no_active_grants(store@.take(k as int)),
            best matches Some(m) ==> earliest_active_expiry(store@.take(k as int), m),
        decreases n - k,
    {
        let row = store.row_at(k);
        proof {
            assert(store@.take(k + 1)[k as int] == store@[k as int]);
            assert(forall|j: int| 0 <= j < k ==> store@.take(k + 1)[j] == store@.take(k as int)[j]);
        }
        let updated: Option<u64> = match row.grant.status {
            crate::grant::GrantStatus::Active => match best {
                None => Some(row.grant.expires_at),
                Some(m) => {
                    if row.grant.expires_at < m {
                        Some(row.grant.expires_at)
                    } else {
                        Some(m)
                    }
                },
            },
            crate::grant::GrantStatus::Expired => best,
        };
        proof {
            if row.grant.status is Active {
                assert(store@.take(k + 1)[k as int].grant.status is Active);
            }
            match best {
                Option::Some(b) => {
                    let w = choose|j: int|
                        0 <= j < k && (#[trigger] store@.take(k as int)[j]).grant.status is Active
                            && store@.take(k as int)[j].grant.expires_at == b;
                    assert(store@.take(k + 1)[w].grant.status is Active && store@.take(k + 1)[
                        w
                    ].grant.expires_at == b);
                },
                Option::None => {},
            }
        }
        best = updated;
        k += 1;
    }
    proof {
        assert(store@.take(n as int) =~= store@);
    }
    best
}

/// Outcome of one revocation attempt during a sweep.
#[derive(Clone, Copy, Debug, PartialEq, Eq, Structural)]
pub enum RevocationOutcome {
    /// The external role removal succeeded and the grant is now expired.
    Revoked,
    /// The external role removal failed; the grant is left active on purpose,
    /// and the next sweep — which re-scans all due grants unconditionally —
    /// retries it.
    RetryLater,
    /// The grant had already been expired by an earlier sweep; nothing to do.
    AlreadySwept,
    /// No grant exists for the key.
    Missing,
}

/// Fold the outcome of the external role removal for one scanned grant back
/// into the store. Only a successful removal expires the grant; a failed one
/// leaves the store untouched, so the grant stays active and is retried on
/// every subsequent wake until removal succeeds — the system's only retry
/// mechanism, intentionally unbounded.
pub fn apply_revocation(
    store: &mut GrantStore,
    community_id: u64,
    user_id: u64,
    removal_ok: bool,
) -> (r: RevocationOutcome)
    requires
        store_wf(old(store)@),
    ensures
        store_wf(final(store)@),
        !removal_ok ==> r == RevocationOutcome::RetryLater && final(store)@ == old(store)@,
        removal_ok ==> final(store)@ == mark_rows(old(store)@, community_id, user_id) && r
            == match mark_result(old(store)@, community_id, user_id) {
            MarkOutcome::Marked => RevocationOutcome::Revoked,
            MarkOutcome::AlreadyExpired => RevocationOutcome::AlreadySwept,
            MarkOutcome::Missing => RevocationOutcome::Missing,
        },
{
    if !removal_ok {
        return RevocationOutcome::RetryLater;
    }
    match store.mark_expired(community_id, user_id) {
        MarkOutcome::Marked => RevocationOutcome::Revoked,
        MarkOutcome::AlreadyExpired => RevocationOutcome::AlreadySwept,
        MarkOutcome::Missing => RevocationOutcome::Missing,
    }
}

/// A grant issued with duration zero is due the moment it is inserted: some
/// row already carries it as due at the very instant of insertion, so the
/// scan of the waiter's next wake — driven by the signal the insertion sent —
/// includes it, with no further signal needed.
pub proof fn lemma_zero_duration_swept_next_wake(
    s: Seq<StoredGrant>,
    community_id: u64,
    user_id: u64,
    now: u64,
)
    requires
        store_wf(s),
        find_grant(s, community_id, user_id) == Option::Some(fresh_grant(now, 0)),
    ensures
        exists|j: int|
            0 <= j < s.len() && row_keyed(#[trigger] s[j], community_id, user_id) && grant_due(
                s[j].grant,
                now,
            ),
{
    crate::store::lemma_find_grant_some_iff(s, community_id, user_id);
    let j = choose|j: int| 0 <= j < s.len() && row_keyed(#[trigger] s[j], community_id, user_id);
    crate::store::lemma_find_grant_at_index(s, j);
    assert(s[j].grant == fresh_grant(now, 0));
    assert(grant_due(s[j].grant, now));
}

/// Once a due grant has been swept — marked expired after a successful
/// removal — no later scan contains its key again: already expired grants
/// are invisible to scans, so re-scanning can never cause a second external
/// role removal for the same grant.
pub proof fn lemma_swept_grant_never_rescanned(
    s: Seq<StoredGrant>,
    community_id: u64,
    user_id: u64,
    now: u64,
    later: u64,
)
    requires
        store_wf(s),
        mark_result(s, community_id, user_id) == MarkOutcome::Marked,
    ensures
        forall|j: int|
            0 <= j < mark_rows(s, community_id, user_id).len() && row_keyed(
                #[trigger] mark_rows(s, community_id, user_id)[j],
                community_id,
                user_id,
            ) ==> !grant_due(mark_rows(s, community_id, user_id)[j].grant, later),
{
    let t = mark_rows(s, community_id, user_id);
    crate::store::lemma_mark_rows_find(s, community_id, user_id);
    assert forall|j: int|
        0 <= j < t.len() && row_keyed(#[trigger] t[j], community_id, user_id) implies !grant_due(
        t[j].grant,
        later,
    ) by {
        assert(row_keyed(s[j], community_id, user_id));
        crate::store::lemma_find_grant_at_index(t, j);
        assert(find_grant(t, community_id, user_id) == Option::Some(t[j].grant));
    }
}

} // verus!
