//! The grant record and its schedule invariant: a grant holds the moment it
//! was issued, the moment it falls due, and its lifecycle status.

use vstd::prelude::*;

verus! {

/// Lifecycle state of a grant. A grant is created `Active` and is moved to
/// `Expired` only by the expiry waiter; it is never deleted.
#[derive(Clone, Copy, Debug, PartialEq, Eq, Structural)]
pub enum GrantStatus {
    Active,
    Expired,
}

/// A temporarily held role for one user within one community: when it was
/// issued, when it falls due, and whether it has already been swept.
#[derive(Clone, Copy, Debug, PartialEq, Eq, Structural)]
pub struct Grant {
    pub granted_at: u64,
    pub expires_at: u64,
    pub status: GrantStatus,
}

/// A grant is due for revocation at `now` when it is still active and its
/// expiry moment has been reached.
pub open spec fn grant_due(g: Grant, now: u64) -> bool {
    g.status is Active && g.expires_at <= now
}

/// The record the evaluator creates when admission succeeds at `now` under a
/// configured duration: active, with its expiry exactly `duration` seconds
/// after its issue.
pub open spec fn fresh_grant(now: u64, duration: u64) -> Grant
    recommends
        now + duration <= u64::MAX,
{
    Grant { granted_at: now, expires_at: (now + duration) as u64, status: GrantStatus::Active }
}

/// The same grant after the waiter has swept it: only the status changes.
pub open spec fn expire_grant(g: Grant) -> Grant {
    Grant { granted_at: g.granted_at, expires_at: g.expires_at, status: GrantStatus::Expired }
}

/// A freshly issued grant keeps the exact schedule equation
/// `expires_at == granted_at + duration`.
pub proof fn lemma_fresh_grant_schedule(now: u64, duration: u64)
    requires
        now + duration <= u64::MAX,
    ensures
        fresh_grant(now, duration).expires_at == fresh_grant(now, duration).granted_at + duration,
        fresh_grant(now, duration).status is Active,
{
}

/// Expiring a grant introduces no drift: whatever schedule equation held of
/// the grant still holds of the expired record, whose issue and expiry
/// moments are untouched.
pub proof fn lemma_expiry_preserves_schedule(g: Grant, duration: u64)
    requires
        g.expires_at == g.granted_at + duration,
    ensures
        expire_grant(g).expires_at == expire_grant(g).granted_at + duration,
        expire_grant(g).granted_at == g.granted_at,
        expire_grant(g).expires_at == g.expires_at,
{
}

/// A grant issued with duration zero is due the moment it is created.
pub proof fn lemma_zero_duration_immediately_due(now: u64)
    ensures
        grant_due(fresh_grant(now, 0), now),
{
}

} // verus!
