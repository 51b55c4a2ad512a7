use guestkeeper::admission::{
    evaluate, evaluate_trigger, complete_admission, AdmissionStep, ArmedTrigger, Decision,
    MembershipStatus, TriggerEvent,
};
use guestkeeper::config::{ConfigStore, GuildConfig};
use guestkeeper::grant::GrantStatus;
use guestkeeper::store::GrantStore;
use guestkeeper::waiter::{
    apply_revocation, next_wake_target, should_signal, RevocationOutcome,
};

const SELF_ID: u64 = 900;

fn configured(community: u64, trigger: u64, role: u64, duration: u64) -> ConfigStore {
    let mut configs = ConfigStore::new();
    assert!(configs.add(GuildConfig {
        community_id: community,
        trigger_id: trigger,
        role_id: role,
        duration,
    }));
    configs
}

#[test]
fn config_resolve_finds_only_configured_communities() {
    let mut configs = configured(5, 77, 42, 3600);
    assert_eq!(
        configs.resolve(5),
        Some(GuildConfig { community_id: 5, trigger_id: 77, role_id: 42, duration: 3600 })
    );
    assert_eq!(configs.resolve(6), None);
    // A community never carries two configurations.
    assert!(!configs.add(GuildConfig { community_id: 5, trigger_id: 1, role_id: 2, duration: 3 }));
}

#[test]
fn self_event_is_filtered() {
    let configs = configured(5, 77, 42, 3600);
    let event = TriggerEvent { actor_id: SELF_ID, community_id: Some(5), object_id: 77 };
    // An event whose actor is the current identity produces no evaluation.
    assert_eq!(evaluate_trigger(event, SELF_ID, &configs), None);
}

#[test]
fn foreign_event_arms_only_the_configured_trigger() {
    let configs = configured(5, 77, 42, 3600);
    let armed = evaluate_trigger(
        TriggerEvent { actor_id: 1, community_id: Some(5), object_id: 77 },
        SELF_ID,
        &configs,
    );
    assert_eq!(armed, Some(ArmedTrigger { community_id: 5, role_id: 42, duration: 3600 }));
    // Wrong object, unconfigured community, and community-less events are
    // all ignored silently.
    assert_eq!(
        evaluate_trigger(
            TriggerEvent { actor_id: 1, community_id: Some(5), object_id: 78 },
            SELF_ID,
            &configs
        ),
        None
    );
    assert_eq!(
        evaluate_trigger(
            TriggerEvent { actor_id: 1, community_id: Some(6), object_id: 77 },
            SELF_ID,
            &configs
        ),
        None
    );
    assert_eq!(
        evaluate_trigger(
            TriggerEvent { actor_id: 1, community_id: None, object_id: 77 },
            SELF_ID,
            &configs
        ),
        None
    );
}

#[test]
fn membership_lookup_failure_is_an_internal_error() {
    let mut store = GrantStore::new();
    let step = evaluate(&mut store, 5, 10, 3600, 1000, MembershipStatus::Unknown);
    assert_eq!(step, AdmissionStep::Decided(Decision::InternalError));
    assert_eq!(store.len(), 0);
}

#[test]
fn full_member_is_refused() {
    let mut store = GrantStore::new();
    let step = evaluate(&mut store, 5, 10, 3600, 1000, MembershipStatus::Member);
    assert_eq!(step, AdmissionStep::Decided(Decision::AlreadyMember));
    assert_eq!(store.len(), 0);
}

#[test]
fn failed_role_add_leaves_the_row_for_the_sweep() {
    let mut store = GrantStore::new();
    let step = evaluate(&mut store, 5, 10, 3600, 1000, MembershipStatus::NonMember);
    assert_eq!(step, AdmissionStep::RoleAddPending { expires_at: 4600 });
    // The external role grant fails: the decision is an internal error, but
    // the active row remains and will be swept at its expiry.
    assert_eq!(complete_admission(4600, false), Decision::InternalError);
    let g = store.get(5, 10).unwrap();
    assert_eq!(g.status, GrantStatus::Active);
    assert_eq!(store.scan_due(4600).len(), 1);
}

#[test]
fn granted_schedule_is_exact() {
    let mut store = GrantStore::new();
    let step = evaluate(&mut store, 5, 10, 3600, 1000, MembershipStatus::NonMember);
    assert_eq!(step, AdmissionStep::RoleAddPending { expires_at: 4600 });
    let g = store.get(5, 10).unwrap();
    assert_eq!(g.granted_at, 1000);
    assert_eq!(g.expires_at, g.granted_at + 3600);
    assert_eq!(g.status, GrantStatus::Active);
}

#[test]
fn scenario_grant_then_duplicate_trigger() {
    // Community 5 configured with trigger 77, role 42, duration 3600 s.
    let configs = configured(5, 77, 42, 3600);
    let mut store = GrantStore::new();
    let t0: u64 = 10_000;
    let mut role_add_calls: u32 = 0;

    // User 10 triggers at t0.
    let armed = evaluate_trigger(
        TriggerEvent { actor_id: 10, community_id: Some(5), object_id: 77 },
        SELF_ID,
        &configs,
    )
    .unwrap();
    let step = evaluate(&mut store, 5, 10, armed.duration, t0, MembershipStatus::NonMember);
    let decision = match step {
        AdmissionStep::RoleAddPending { expires_at } => {
            role_add_calls += 1; // the external role grant is attempted once
            complete_admission(expires_at, true)
        }
        AdmissionStep::Decided(d) => d,
    };
    assert_eq!(decision, Decision::Granted { expires_at: t0 + 3600 });
    assert_eq!(role_add_calls, 1);

    // A second trigger from the same user one second later.
    let step = evaluate(&mut store, 5, 10, armed.duration, t0 + 1, MembershipStatus::NonMember);
    let decision = match step {
        AdmissionStep::RoleAddPending { expires_at } => {
            role_add_calls += 1;
            complete_admission(expires_at, true)
        }
        AdmissionStep::Decided(d) => d,
    };
    // No second insert, no second role grant; the expiry reported is the
    // original one and the prior grant has not lapsed.
    assert_eq!(decision, Decision::AlreadyGranted { expires_at: t0 + 3600, expired: false });
    assert_eq!(role_add_calls, 1);
    assert_eq!(store.len(), 1);
}

#[test]
fn scenario_waiter_sweeps_at_deadline() {
    // Waiter idle with no grants: no pending deadline.
    let mut store = GrantStore::new();
    assert_eq!(next_wake_target(&store), None);

    // A grant with expiry t1 is inserted; the insertion must wake the waiter.
    let t1: u64 = 5_000;
    let target_before = next_wake_target(&store);
    let step = evaluate(&mut store, 5, 10, 1_000, 4_000, MembershipStatus::NonMember);
    assert_eq!(step, AdmissionStep::RoleAddPending { expires_at: t1 });
    assert!(should_signal(t1, target_before));
    assert_eq!(next_wake_target(&store), Some(t1));

    // The waiter wakes at t1, sweeps, removes the role and marks the grant.
    let due = store.scan_due(t1);
    assert_eq!(due.len(), 1);
    assert_eq!(due[0].expires_at, t1);
    assert_eq!(
        apply_revocation(&mut store, due[0].community_id, due[0].user_id, true),
        RevocationOutcome::Revoked
    );
    assert_eq!(store.get(5, 10).unwrap().status, GrantStatus::Expired);

    // Back to idle with no pending deadline.
    assert_eq!(store.scan_due(t1), vec![]);
    assert_eq!(next_wake_target(&store), None);
}

#[test]
fn scenario_failed_removal_is_retried_on_the_next_sweep() {
    let mut store = GrantStore::new();
    let t1: u64 = 5_000;
    evaluate(&mut store, 5, 10, 1_000, 4_000, MembershipStatus::NonMember);

    // First sweep: the external role removal fails transiently; the grant
    // stays active, and a deadline — now in the past — remains pending.
    let due = store.scan_due(t1);
    assert_eq!(due.len(), 1);
    assert_eq!(
        apply_revocation(&mut store, due[0].community_id, due[0].user_id, false),
        RevocationOutcome::RetryLater
    );
    assert_eq!(store.get(5, 10).unwrap().status, GrantStatus::Active);
    assert_eq!(next_wake_target(&store), Some(t1));

    // The next sweep re-scans all due grants unconditionally and succeeds.
    let due = store.scan_due(t1 + 60);
    assert_eq!(due.len(), 1);
    assert_eq!(
        apply_revocation(&mut store, due[0].community_id, due[0].user_id, true),
        RevocationOutcome::Revoked
    );
    assert_eq!(store.get(5, 10).unwrap().status, GrantStatus::Expired);
    // A later sweep finds nothing: no duplicate removal can follow.
    assert_eq!(store.scan_due(u64::MAX), vec![]);
}

#[test]
fn zero_duration_grant_is_immediately_due() {
    let mut store = GrantStore::new();
    let now: u64 = 1_234;
    let step = evaluate(&mut store, 5, 10, 0, now, MembershipStatus::NonMember);
    assert_eq!(step, AdmissionStep::RoleAddPending { expires_at: now });
    // Immediately due: the signal sent at insertion is enough — the very
    // next wake's scan already contains it.
    assert!(should_signal(now, None));
    assert_eq!(store.scan_due(now).len(), 1);
    assert_eq!(
        apply_revocation(&mut store, 5, 10, true),
        RevocationOutcome::Revoked
    );
}

#[test]
fn wake_signal_only_for_earlier_deadlines() {
    assert!(should_signal(100, None));
    assert!(should_signal(99, Some(100)));
    assert!(!should_signal(100, Some(100)));
    assert!(!should_signal(101, Some(100)));
}

#[test]
fn revoking_an_unknown_or_swept_key() {
    let mut store = GrantStore::new();
    assert_eq!(apply_revocation(&mut store, 1, 2, true), RevocationOutcome::Missing);
    evaluate(&mut store, 1, 2, 0, 10, MembershipStatus::NonMember);
    assert_eq!(apply_revocation(&mut store, 1, 2, true), RevocationOutcome::Revoked);
    assert_eq!(apply_revocation(&mut store, 1, 2, true), RevocationOutcome::AlreadySwept);
}
