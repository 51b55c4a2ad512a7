//! Admission evaluation: whether an inbound trigger event arms a grant
//! attempt at all, and the decision taken for an eligible requester. External
//! calls — the membership lookup before admission and the role grant after a
//! successful insert — are performed by the caller, which feeds their
//! results in as plain values; every decision in between is taken here.

use vstd::prelude::*;

use crate::config::{find_config, ConfigStore, GuildConfig};
use crate::grant::{fresh_grant, Grant, GrantStatus};
use crate::store::{find_grant, store_wf, GrantStore, InsertOutcome, StoredGrant};

verus! {

/// An inbound trigger event as the ingress layer reports it: who acted, in
/// which community (absent for direct messages), and on which object.
#[derive(Clone, Copy, Debug, PartialEq, Eq)]
pub struct TriggerEvent {
    pub actor_id: u64,
    pub community_id: Option<u64>,
    pub object_id: u64,
}

/// A trigger event that armed an admission attempt: the community it fired
/// in, the role its configuration confers, and the grant period.
#[derive(Clone, Copy, Debug, PartialEq, Eq, Structural)]
pub struct ArmedTrigger {
    pub community_id: u64,
    pub role_id: u64,
    pub duration: u64,
}

/// Which events arm an admission attempt: the event must come from someone
/// other than this process's own identity, carry a community, the community
/// must be configured, and the event's object must be the configured trigger.
/// Everything else is ignored silently.
pub open spec fn armed_trigger(
    event: TriggerEvent,
    current_identity: u64,
    configs: Seq<GuildConfig>,
) -> Option<ArmedTrigger> {
    if event.actor_id == current_identity {
        Option::None
    } else {
        match event.community_id {
            Option::None => Option::None,
            Option::Some(c) => match find_config(configs, c) {
                Option::None => Option::None,
                Option::Some(cfg) => if cfg.trigger_id == event.object_id {
                    Option::Some(
                        (ArmedTrigger {
                            community_id: c,
                            role_id: cfg.role_id,
                            duration: cfg.duration,
                        }),
                    )
                } else {
                    Option::None
                },
            },
        }
    }
}

/// Decide whether an event arms an admission attempt. An event whose actor
/// is the current identity itself never does — it produces no evaluation and,
/// since admission is only ever attempted for an armed trigger, no state
/// mutation either.
pub fn evaluate_trigger(event: TriggerEvent, current_identity: u64, configs: &ConfigStore) -> (r:
    Option<ArmedTrigger>)
    ensures
        r == armed_trigger(event, current_identity, configs@),
        event.actor_id == current_identity ==> r is None,
{
    if event.actor_id == current_identity {
        return None;
    }
    let community_id = match event.community_id {
        Some(c) => c,
        None => { return None },
    };
    match configs.resolve(community_id) {
        None => None,
        Some(cfg) => {
            if cfg.trigger_id == event.object_id {
                Some(
                    ArmedTrigger {
                        community_id,
                        role_id: cfg.role_id,
                        duration: cfg.duration,
                    },
                )
            } else {
                None
            }
        },
    }
}

/// Result of the external membership lookup, as the caller reports it: the
/// lookup failed, the requester already holds a full-member role, or the
/// requester holds none.
#[derive(Clone, Copy, Debug, PartialEq, Eq, Structural)]
pub enum MembershipStatus {
    Unknown,
    Member,
    NonMember,
}

/// The admission decision returned to the requester.
#[derive(Clone, Copy, Debug, PartialEq, Eq, Structural)]
pub enum Decision {
    AlreadyMember,
    AlreadyGranted { expires_at: u64, expired: bool },
    Granted { expires_at: u64 },
    InternalError,
}

/// What the evaluator asks of its caller next: the decision is final, or a
/// grant row was written and the external role grant must now be attempted,
/// with `complete_admission` turning its outcome into the decision.
#[derive(Clone, Copy, Debug, PartialEq, Eq, Structural)]
pub enum AdmissionStep {
    Decided(Decision),
    RoleAddPending { expires_at: u64 },
}

/// The decision for a requester who already holds a grant: the expiry stands,
/// and the answer says whether the prior grant already lapsed.
pub open spec fn prior_grant_decision(g: Grant) -> Decision {
    Decision::AlreadyGranted { expires_at: g.expires_at, expired: g.status is Expired }
}

/// Evaluate admission for a requester, in order: a failed membership lookup
/// is an internal error; a full member is refused; a requester with a prior
/// grant — whatever its status — is told its expiry; otherwise a fresh active
/// grant is written with `granted_at = now` and `expires_at = now + duration`
/// exactly, and the external role grant is left pending for the caller. A
/// concurrent duplicate admission cannot slip through: the insert conflicts
/// on a held key and the winner's grant is reported instead.
pub fn evaluate(
    store: &mut GrantStore,
    community_id: u64,
    user_id: u64,
    duration: u64,
    now: u64,
    membership: MembershipStatus,
) -> (r: AdmissionStep)
    requires
        store_wf(old(store)@),
        now + duration <= u64::MAX,
    ensures
        store_wf(final(store)@),
        membership is Unknown ==> r == AdmissionStep::Decided(Decision::InternalError)
            && final(store)@ == old(store)@,
        membership is Member ==> r == AdmissionStep::Decided(Decision::AlreadyMember)
            && final(store)@ == old(store)@,
        membership is NonMember ==> match find_grant(old(store)@, community_id, user_id) {
            Option::Some(g) => r == AdmissionStep::Decided(prior_grant_decision(g))
                && final(store)@ == old(store)@,
            Option::None => r == (AdmissionStep::RoleAddPending {
                expires_at: (now + duration) as u64,
            }) && final(store)@ == old(store)@.push(
                (StoredGrant { community_id, user_id, grant: fresh_grant(now, duration) }),
            ),
        },
{
    match membership {
        MembershipStatus::Unknown => AdmissionStep::Decided(Decision::InternalError),
        MembershipStatus::Member => AdmissionStep::Decided(Decision::AlreadyMember),
        MembershipStatus::NonMember => {
            match store.get(community_id, user_id) {
                Some(g) => {
                    let expired = match g.status {
                        GrantStatus::Active => false,
                        GrantStatus::Expired => true,
                    };
                    AdmissionStep::Decided(
                        Decision::AlreadyGranted { expires_at: g.expires_at, expired },
                    )
                },
                None => {
                    let grant = Grant {
                        granted_at: now,
                        expires_at: now + duration,
                        status: GrantStatus::Active,
                    };
                    match store.insert(community_id, user_id, grant) {
                        InsertOutcome::Inserted => AdmissionStep::RoleAddPending {
                            expires_at: grant.expires_at,
                        },
                        InsertOutcome::Conflict => {
                            // Unreachable while this call holds the store
                            // exclusively; kept as the defensive fold of a
                            // lost race into the prior-grant answer.
                            match store.get(community_id, user_id) {
                                Some(g) => {
                                    let expired = match g.status {
                                        GrantStatus::Active => false,
                                        GrantStatus::Expired => true,
                                    };
                                    AdmissionStep::Decided(
                                        Decision::AlreadyGranted {
                                            expires_at: g.expires_at,
                                            expired,
                                        },
                                    )
                                },
                                None => AdmissionStep::Decided(Decision::InternalError),
                            }
                        },
                    }
                },
            }
        },
    }
}

/// Turn the outcome of the external role grant into the final decision: the
/// role was applied and the grant stands until its expiry, or the call failed
/// — an internal error, while the already written row remains and will be
/// swept at its expiry even though the role was never applied.
pub fn complete_admission(expires_at: u64, role_add_ok: bool) -> (r: Decision)
    ensures
        role_add_ok ==> r == (Decision::Granted { expires_at }),
        !role_add_ok ==> r == Decision::InternalError,
{
    if role_add_ok {
        Decision::Granted { expires_at }
    } else {
        Decision::InternalError
    }
}

} // verus!
