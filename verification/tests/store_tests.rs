use guestkeeper::grant::{Grant, GrantStatus};
use guestkeeper::store::{DueGrant, GrantStore, InsertOutcome, MarkOutcome};

fn active_grant(granted_at: u64, duration: u64) -> Grant {
    Grant { granted_at, expires_at: granted_at + duration, status: GrantStatus::Active }
}

#[test]
fn insert_then_get_returns_the_grant() {
    let mut store = GrantStore::new();
    let g = active_grant(100, 50);
    assert_eq!(store.insert(1, 2, g), InsertOutcome::Inserted);
    assert_eq!(store.get(1, 2), Some(g));
    assert_eq!(store.get(1, 3), None);
    assert_eq!(store.get(2, 2), None);
}

#[test]
fn duplicate_insert_conflicts_and_keeps_one_row() {
    let mut store = GrantStore::new();
    let first = active_grant(100, 50);
    let second = active_grant(200, 99);
    assert_eq!(store.insert(1, 2, first), InsertOutcome::Inserted);
    assert_eq!(store.insert(1, 2, second), InsertOutcome::Conflict);
    // The loser of the race observes a conflict; the winner's grant stands,
    // and the store still holds exactly one row for the key.
    assert_eq!(store.get(1, 2), Some(first));
    assert_eq!(store.len(), 1);
}

#[test]
fn mark_expired_is_idempotent() {
    let mut store = GrantStore::new();
    assert_eq!(store.insert(1, 2, active_grant(100, 50)), InsertOutcome::Inserted);
    assert_eq!(store.mark_expired(1, 2), MarkOutcome::Marked);
    assert_eq!(store.mark_expired(1, 2), MarkOutcome::AlreadyExpired);
    assert_eq!(store.mark_expired(1, 2), MarkOutcome::AlreadyExpired);
    let g = store.get(1, 2).unwrap();
    assert_eq!(g.status, GrantStatus::Expired);
}

#[test]
fn mark_expired_missing_key() {
    let mut store = GrantStore::new();
    assert_eq!(store.mark_expired(7, 8), MarkOutcome::Missing);
    assert_eq!(store.len(), 0);
}

#[test]
fn mark_expired_keeps_the_schedule() {
    let mut store = GrantStore::new();
    assert_eq!(store.insert(1, 2, active_grant(100, 50)), InsertOutcome::Inserted);
    assert_eq!(store.mark_expired(1, 2), MarkOutcome::Marked);
    let g = store.get(1, 2).unwrap();
    // No drift: issue and expiry moments are exactly as written.
    assert_eq!(g.granted_at, 100);
    assert_eq!(g.expires_at, 150);
}

#[test]
fn scan_due_is_sorted_and_exact() {
    let mut store = GrantStore::new();
    assert_eq!(store.insert(1, 10, active_grant(0, 300)), InsertOutcome::Inserted);
    assert_eq!(store.insert(1, 11, active_grant(0, 100)), InsertOutcome::Inserted);
    assert_eq!(store.insert(2, 10, active_grant(0, 200)), InsertOutcome::Inserted);
    assert_eq!(store.insert(1, 12, active_grant(0, 400)), InsertOutcome::Inserted);
    let due = store.scan_due(300);
    assert_eq!(
        due,
        vec![
            DueGrant { community_id: 1, user_id: 11, expires_at: 100 },
            DueGrant { community_id: 2, user_id: 10, expires_at: 200 },
            DueGrant { community_id: 1, user_id: 10, expires_at: 300 },
        ]
    );
}

#[test]
fn scan_due_skips_expired_grants() {
    let mut store = GrantStore::new();
    assert_eq!(store.insert(1, 10, active_grant(0, 100)), InsertOutcome::Inserted);
    assert_eq!(store.insert(1, 11, active_grant(0, 150)), InsertOutcome::Inserted);
    assert_eq!(store.mark_expired(1, 10), MarkOutcome::Marked);
    let due = store.scan_due(1000);
    // An already expired grant is never part of a scan, so re-scanning can
    // never lead to a second role removal for it.
    assert_eq!(due, vec![DueGrant { community_id: 1, user_id: 11, expires_at: 150 }]);
}

#[test]
fn scan_due_on_empty_store() {
    let store = GrantStore::new();
    assert_eq!(store.scan_due(u64::MAX), vec![]);
}

#[test]
fn expired_rows_are_retained_as_audit_trail() {
    let mut store = GrantStore::new();
    assert_eq!(store.insert(1, 2, active_grant(0, 10)), InsertOutcome::Inserted);
    assert_eq!(store.mark_expired(1, 2), MarkOutcome::Marked);
    assert_eq!(store.len(), 1);
    let row = store.row_at(0);
    assert_eq!(row.community_id, 1);
    assert_eq!(row.user_id, 2);
    assert_eq!(row.grant.status, GrantStatus::Expired);
}

#[test]
fn boundary_grant_at_largest_timestamp() {
    let mut store = GrantStore::new();
    let g = Grant { granted_at: u64::MAX, expires_at: u64::MAX, status: GrantStatus::Active };
    assert_eq!(store.insert(1, 2, g), InsertOutcome::Inserted);
    assert_eq!(store.scan_due(u64::MAX - 1), vec![]);
    assert_eq!(
        store.scan_due(u64::MAX),
        vec![DueGrant { community_id: 1, user_id: 2, expires_at: u64::MAX }]
    );
}
