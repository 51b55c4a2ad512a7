//! The grant store: durable keyed bookkeeping for grant records. It owns the
//! uniqueness invariant — at most one row per (community, user) key — and the
//! read, insert, due-scan and mark-expired operations the evaluator and the
//! expiry waiter build on. Rows are only appended or updated in place, never
//! deleted, so the store doubles as an audit trail.

use vstd::prelude::*;

use crate::grant::{expire_grant, grant_due, Grant, GrantStatus};

verus! {

/// One row of the grant table: the composite key and the grant it holds.
#[derive(Clone, Copy, Debug, PartialEq, Eq, Structural)]
pub struct StoredGrant {
    pub community_id: u64,
    pub user_id: u64,
    pub grant: Grant,
}

/// Whether a row carries the composite key `(community_id, user_id)`.
pub open spec fn row_keyed(r: StoredGrant, community_id: u64, user_id: u64) -> bool {
    r.community_id == community_id && r.user_id == user_id
}

/// The store's uniqueness invariant: no two rows share a composite key. This
/// is what makes concurrent duplicate admissions safe — the second insert for
/// a key observes a conflict instead of producing a second active row.
pub open spec fn store_wf(s: Seq<StoredGrant>) -> bool {
    forall|i: int, j: int|
        0 <= i < j < s.len() ==> !row_keyed(#[trigger] s[j], (#[trigger] s[i]).community_id,
        s[i].user_id)
}

/// The grant held for a key: the first row carrying the key, if any. Under
/// `store_wf` there is at most one such row, so this is the grant for the key.
pub open spec fn find_grant(s: Seq<StoredGrant>, community_id: u64, user_id: u64) -> Option<Grant>
    decreases s.len(),
{
    if s.len() == 0 {
        Option::None
    } else if row_keyed(s[0], community_id, user_id) {
        Option::Some(s[0].grant)
    } else {
        find_grant(s.drop_first(), community_id, user_id)
    }
}

/// Dropping the first row preserves the uniqueness invariant.
proof fn lemma_wf_drop_first(s: Seq<StoredGrant>)
    requires
        store_wf(s),
        s.len() > 0,
    ensures
        store_wf(s.drop_first()),
{
    assert forall|i: int, j: int|
        0 <= i < j < s.drop_first().len() implies !row_keyed(
        #[trigger] s.drop_first()[j],
        (#[trigger] s.drop_first()[i]).community_id,
        s.drop_first()[i].user_id,
    ) by {
        assert(s.drop_first()[i] == s[i + 1]);
        assert(s.drop_first()[j] == s[j + 1]);
    }
}

/// A key resolves to some grant exactly when some row carries it.
pub proof fn lemma_find_grant_some_iff(s: Seq<StoredGrant>, community_id: u64, user_id: u64)
    ensures
        find_grant(s, community_id, user_id) is Some <==> exists|i: int|
            0 <= i < s.len() && row_keyed(#[trigger] s[i], community_id, user_id),
    decreases s.len(),
{
    if s.len() == 0 {
    } else if row_keyed(s[0], community_id, user_id) {
    } else {
        lemma_find_grant_some_iff(s.drop_first(), community_id, user_id);
        if find_grant(s, community_id, user_id) is Some {
            let i = choose|i: int|
                0 <= i < s.drop_first().len() && row_keyed(
                    #[trigger] s.drop_first()[i],
                    community_id,
                    user_id,
                );
            assert(s.drop_first()[i] == s[i + 1]);
            assert(row_keyed(s[i + 1], community_id, user_id));
        }
        if exists|i: int| 0 <= i < s.len() && row_keyed(#[trigger] s[i], community_id, user_id) {
            let i = choose|i: int|
                0 <= i < s.len() && row_keyed(#[trigger] s[i], community_id, user_id);
            assert(i > 0);
            assert(s.drop_first()[i - 1] == s[i]);
            assert(row_keyed(s.drop_first()[i - 1], community_id, user_id));
        }
    }
}

/// Under the uniqueness invariant, the grant a key resolves to is exactly the
/// grant of the row that carries the key.
pub proof fn lemma_find_grant_at_index(s: Seq<StoredGrant>, i: int)
    requires
        store_wf(s),
        0 <= i < s.len(),
    ensures
        find_grant(s, s[i].community_id, s[i].user_id) == Option::Some(s[i].grant),
    decreases s.len(),
{
    if i == 0 {
    } else {
        assert(!row_keyed(s[i], s[0].community_id, s[0].user_id));
        assert(!row_keyed(s[0], s[i].community_id, s[i].user_id));
        lemma_wf_drop_first(s);
        assert(s.drop_first()[i - 1] == s[i]);
        lemma_find_grant_at_index(s.drop_first(), i - 1);
    }
}

/// If no row carries a key, the key resolves to nothing.
pub proof fn lemma_find_grant_none(s: Seq<StoredGrant>, community_id: u64, user_id: u64)
    requires
        forall|i: int| 0 <= i < s.len() ==> !row_keyed(#[trigger] s[i], community_id, user_id),
    ensures
        find_grant(s, community_id, user_id) is None,
{
    lemma_find_grant_some_iff(s, community_id, user_id);
}

/// Appending a row for a fresh key preserves uniqueness; the new row's key
/// resolves to the new grant, and every other key resolves as before.
pub proof fn lemma_push_fresh_row(s: Seq<StoredGrant>, r: StoredGrant)
    requires
        store_wf(s),
        find_grant(s, r.community_id, r.user_id) is None,
    ensures
        store_wf(s.push(r)),
        find_grant(s.push(r), r.community_id, r.user_id) == Option::Some(r.grant),
        forall|c2: u64, u2: u64|
            !(c2 == r.community_id && u2 == r.user_id) ==> #[trigger] find_grant(s.push(r), c2, u2)
                == find_grant(s, c2, u2),
{
    lemma_find_grant_some_iff(s, r.community_id, r.user_id);
    assert forall|i: int, j: int|
        0 <= i < j < s.push(r).len() implies !row_keyed(
        #[trigger] s.push(r)[j],
        (#[trigger] s.push(r)[i]).community_id,
        s.push(r)[i].user_id,
    ) by {
        if j < s.len() {
            assert(s.push(r)[i] == s[i]);
            assert(s.push(r)[j] == s[j]);
        } else {
            assert(s.push(r)[i] == s[i]);
            assert(s.push(r)[j] == r);
            assert(!row_keyed(s[i], r.community_id, r.user_id));
        }
    }
    lemma_find_grant_at_index(s.push(r), s.len() as int);
    assert forall|c2: u64, u2: u64|
        !(c2 == r.community_id && u2 == r.user_id) implies #[trigger] find_grant(s.push(r), c2, u2)
        == find_grant(s, c2, u2) by {
        let t = s.push(r);
        assert forall|i: int| 0 <= i < s.len() implies exists|j: int|
            0 <= j < t.len() && #[trigger] t[j] == #[trigger] s[i] by {
            assert(t[i] == s[i]);
        }
        assert forall|j: int|
            0 <= j < t.len() && row_keyed(#[trigger] t[j], c2, u2) implies exists|i: int|
            0 <= i < s.len() && #[trigger] s[i] == t[j] by {
            assert(j < s.len());
            assert(s[j] == t[j]);
        }
        lemma_find_grant_keywise(s, t, c2, u2);
    }
}

/// Two stores whose rows carry the same keys in the same first-match order
/// agree on which keys are present; used through the more specific lemmas.
proof fn lemma_find_grant_keywise(
    s: Seq<StoredGrant>,
    t: Seq<StoredGrant>,
    community_id: u64,
    user_id: u64,
)
    requires
        store_wf(s),
        store_wf(t),
        forall|i: int|
            0 <= i < s.len() ==> exists|j: int| 0 <= j < t.len() && #[trigger] t[j] == #[trigger] s[i],
        forall|j: int|
            0 <= j < t.len() && row_keyed(#[trigger] t[j], community_id, user_id) ==> exists|i: int|
                0 <= i < s.len() && #[trigger] s[i] == t[j],
    ensures
        find_grant(s, community_id, user_id) == find_grant(t, community_id, user_id),
{
    lemma_find_grant_some_iff(s, community_id, user_id);
    lemma_find_grant_some_iff(t, community_id, user_id);
    if find_grant(s, community_id, user_id) is Some {
        let i = choose|i: int|
            0 <= i < s.len() && row_keyed(#[trigger] s[i], community_id, user_id);
        lemma_find_grant_at_index(s, i);
        let j = choose|j: int| 0 <= j < t.len() && #[trigger] t[j] == s[i];
        lemma_find_grant_at_index(t, j);
    } else if find_grant(t, community_id, user_id) is Some {
        let j = choose|j: int|
            0 <= j < t.len() && row_keyed(#[trigger] t[j], community_id, user_id);
        let i = choose|i: int| 0 <= i < s.len() && #[trigger] s[i] == t[j];
        assert(row_keyed(s[i], community_id, user_id));
    }
}

/// Outcome of an insert: the row was appended, or the key already held a row
/// (the uniqueness constraint fired — expected under a concurrent duplicate
/// admission, and never fatal).
#[derive(Clone, Copy, Debug, PartialEq, Eq, Structural)]
pub enum InsertOutcome {
    Inserted,
    Conflict,
}

/// Outcome of a conditional expiry mark: the grant was transitioned, it had
/// already been transitioned by an earlier sweep, or the key holds no grant.
#[derive(Clone, Copy, Debug, PartialEq, Eq, Structural)]
pub enum MarkOutcome {
    Marked,
    AlreadyExpired,
    Missing,
}

/// The store after a conditional expiry mark for a key: the active row that
/// carries the key — and only it — has its status moved to Expired; every
/// key, issue moment and expiry moment stays untouched.
pub open spec fn mark_rows(s: Seq<StoredGrant>, community_id: u64, user_id: u64) -> Seq<
    StoredGrant,
> {
    Seq::new(
        s.len(),
        |i: int|
            if row_keyed(s[i], community_id, user_id) && s[i].grant.status is Active {
                StoredGrant {
                    community_id: s[i].community_id,
                    user_id: s[i].user_id,
                    grant: expire_grant(s[i].grant),
                }
            } else {
                s[i]
            },
    )
}

/// What a conditional expiry mark reports: `Marked` only for a key that holds
/// an active grant, `AlreadyExpired` for one already swept, `Missing` else.
pub open spec fn mark_result(s: Seq<StoredGrant>, community_id: u64, user_id: u64) -> MarkOutcome {
    match find_grant(s, community_id, user_id) {
        Option::None => MarkOutcome::Missing,
        Option::Some(g) => if g.status is Active {
            MarkOutcome::Marked
        } else {
            MarkOutcome::AlreadyExpired
        },
    }
}

/// Marking a key preserves uniqueness, moves exactly that key's grant to its
/// expired form when it was active, and leaves every other key's grant alone.
pub proof fn lemma_mark_rows_find(s: Seq<StoredGrant>, community_id: u64, user_id: u64)
    requires
        store_wf(s),
    ensures
        store_wf(mark_rows(s, community_id, user_id)),
        find_grant(mark_rows(s, community_id, user_id), community_id, user_id) == match find_grant(
            s,
            community_id,
            user_id,
        ) {
            Option::None => Option::<Grant>::None,
            Option::Some(g) => if g.status is Active {
                Option::Some(expire_grant(g))
            } else {
                Option::Some(g)
            },
        },
        forall|c2: u64, u2: u64|
            !(c2 == community_id && u2 == user_id) ==> #[trigger] find_grant(
                mark_rows(s, community_id, user_id),
                c2,
                u2,
            ) == find_grant(s, c2, u2),
{
    let t = mark_rows(s, community_id, user_id);
    assert(t.len() == s.len());
    assert forall|i: int| 0 <= i < s.len() implies (#[trigger] t[i]).community_id
        == s[i].community_id && t[i].user_id == s[i].user_id by {}
    assert(store_wf(t));
    lemma_find_grant_some_iff(s, community_id, user_id);
    lemma_find_grant_some_iff(t, community_id, user_id);
    if find_grant(s, community_id, user_id) is Some {
        let i = choose|i: int|
            0 <= i < s.len() && row_keyed(#[trigger] s[i], community_id, user_id);
        lemma_find_grant_at_index(s, i);
        assert(row_keyed(t[i], community_id, user_id));
        lemma_find_grant_at_index(t, i);
    } else {
        assert(forall|i: int| 0 <= i < t.len() ==> !row_keyed(#[trigger] t[i], community_id, user_id));
        lemma_find_grant_none(t, community_id, user_id);
    }
    assert forall|c2: u64, u2: u64|
        !(c2 == community_id && u2 == user_id) implies #[trigger] find_grant(t, c2, u2)
        == find_grant(s, c2, u2) by {
        lemma_find_grant_some_iff(s, c2, u2);
        lemma_find_grant_some_iff(t, c2, u2);
        if find_grant(s, c2, u2) is Some {
            let i = choose|i: int| 0 <= i < s.len() && row_keyed(#[trigger] s[i], c2, u2);
            lemma_find_grant_at_index(s, i);
            assert(!row_keyed(s[i], community_id, user_id));
            assert(t[i] == s[i]);
            lemma_find_grant_at_index(t, i);
        } else {
            assert(forall|i: int| 0 <= i < t.len() ==> !row_keyed(#[trigger] t[i], c2, u2));
            lemma_find_grant_none(t, c2, u2);
        }
    }
}

/// A sweep introduces no drift: marking a key expired changes no row's key,
/// issue moment or expiry moment — only a status can move — so whatever
/// schedule equation a grant was created with still holds after every sweep.
pub proof fn lemma_mark_preserves_schedule(s: Seq<StoredGrant>, community_id: u64, user_id: u64)
    ensures
        mark_rows(s, community_id, user_id).len() == s.len(),
        forall|i: int|
            0 <= i < s.len() ==> (#[trigger] mark_rows(s, community_id, user_id)[i]).community_id
                == s[i].community_id && mark_rows(s, community_id, user_id)[i].user_id
                == s[i].user_id && mark_rows(s, community_id, user_id)[i].grant.granted_at
                == s[i].grant.granted_at && mark_rows(s, community_id, user_id)[i].grant.expires_at
                == s[i].grant.expires_at,
{
}

/// Marking the same key twice: the first mark reports `Marked` and moves the
/// grant to Expired; on the store it leaves behind, the same mark reports
/// `AlreadyExpired` and is a no-op. Re-scanning an already swept grant can
/// therefore never lead to a second revocation.
pub proof fn lemma_mark_expired_idempotent(s: Seq<StoredGrant>, community_id: u64, user_id: u64)
    requires
        store_wf(s),
        mark_result(s, community_id, user_id) == MarkOutcome::Marked,
    ensures
        mark_result(mark_rows(s, community_id, user_id), community_id, user_id)
            == MarkOutcome::AlreadyExpired,
        mark_rows(mark_rows(s, community_id, user_id), community_id, user_id) == mark_rows(
            s,
            community_id,
            user_id,
        ),
{
    lemma_mark_rows_find(s, community_id, user_id);
    let t = mark_rows(s, community_id, user_id);
    assert(t =~= mark_rows(t, community_id, user_id)) by {
        assert forall|i: int| 0 <= i < t.len() implies mark_rows(t, community_id, user_id)[i]
            == t[i] by {
            if row_keyed(t[i], community_id, user_id) && t[i].grant.status is Active {
                lemma_find_grant_at_index(t, i);
                assert(find_grant(t, community_id, user_id) == Option::Some(t[i].grant));
            }
        }
    }
}

/// One entry of a due-grant scan: the key of a grant that must be revoked,
/// and when it fell due. The role to remove is re-derived from the community
/// configuration at revocation time, not cached here.
#[derive(Clone, Copy, Debug, PartialEq, Eq, Structural)]
pub struct DueGrant {
    pub community_id: u64,
    pub user_id: u64,
    pub expires_at: u64,
}

/// The scan entry a due row gives rise to.
pub open spec fn due_of(r: StoredGrant) -> DueGrant {
    DueGrant { community_id: r.community_id, user_id: r.user_id, expires_at: r.grant.expires_at }
}

/// Scan entries come out ordered by expiry, earliest first, so every sweep
/// processes grants deterministically.
pub open spec fn sorted_by_expiry(s: Seq<DueGrant>) -> bool {
    forall|a: int, b: int|
        0 <= a < b < s.len() ==> (#[trigger] s[a]).expires_at <= (#[trigger] s[b]).expires_at
}

/// No composite key appears twice among scan entries.
pub open spec fn distinct_keys(s: Seq<DueGrant>) -> bool {
    forall|a: int, b: int|
        0 <= a < b < s.len() ==> !((#[trigger] s[a]).community_id == (#[trigger] s[b]).community_id
            && s[a].user_id == s[b].user_id)
}

/// At most one grant — and so at most one active grant — exists for any
/// (community, user) pair at any instant: under the store invariant, two
/// rows carrying the same composite key are the same row. `insert` preserves
/// the invariant and answers a conflict for a held key, so this holds even
/// under concurrent duplicate admission attempts racing into the store.
pub proof fn lemma_at_most_one_active(s: Seq<StoredGrant>, i: int, j: int)
    requires
        store_wf(s),
        0 <= i < s.len(),
        0 <= j < s.len(),
        s[i].community_id == s[j].community_id,
        s[i].user_id == s[j].user_id,
    ensures
        i == j,
{
    if i < j {
        assert(!row_keyed(s[j], s[i].community_id, s[i].user_id));
    } else if j < i {
        assert(!row_keyed(s[i], s[j].community_id, s[j].user_id));
    }
}

/// A scan entry is accounted for by a due row among the first `hi` rows.
pub open spec fn due_entry_origin(s: Seq<StoredGrant>, now: u64, hi: int, d: DueGrant) -> bool {
    exists|j: int|
        0 <= j < hi && j < s.len() && grant_due((#[trigger] s[j]).grant, now) && d == due_of(s[j])
}

/// The index of the due row a scan entry came from.
pub open spec fn due_origin_index(s: Seq<StoredGrant>, now: u64, hi: int, d: DueGrant) -> int {
    choose|j: int|
        0 <= j < hi && j < s.len() && grant_due((#[trigger] s[j]).grant, now) && d == due_of(s[j])
}

/// An entry accounted for among the first `hi1` rows is accounted for among
/// any longer prefix.
pub proof fn lemma_due_origin_monotonic(s: Seq<StoredGrant>, now: u64, hi1: int, hi2: int, d: DueGrant)
    requires
        due_entry_origin(s, now, hi1, d),
        hi1 <= hi2,
    ensures
        due_entry_origin(s, now, hi2, d),
{
    let j = due_origin_index(s, now, hi1, d);
    assert(0 <= j < hi2 && j < s.len() && grant_due(s[j].grant, now) && d == due_of(s[j]));
}

/// Insertion sort of scan entries by expiry. Reorders the entries and does
/// nothing else: the multiset of entries is untouched.
fn sort_due_by_expiry(v: &mut Vec<DueGrant>)
    ensures
        final(v)@.len() == old(v)@.len(),
        final(v)@.to_multiset() == old(v)@.to_multiset(),
        sorted_by_expiry(final(v)@),
{
    let n = v.len();
    let mut i: usize = 1;
    while i < n
        invariant
            n == v.len(),
            1 <= i,
            i <= n || n <= 1,
            v@.to_multiset() == old(v)@.to_multiset(),
            forall|a: int, b: int|
                0 <= a < b < i && b < n ==> (#[trigger] v@[a]).expires_at
                    <= (#[trigger] v@[b]).expires_at,
        decreases n - i,
    {
        let mut j: usize = i;
        while j > 0 && v[j - 1].expires_at > v[j].expires_at
            invariant
                n == v.len(),
                0 <= j <= i < n,
                v@.to_multiset() == old(v)@.to_multiset(),
                forall|a: int, b: int|
                    0 <= a < b <= i && b != j ==> (#[trigger] v@[a]).expires_at
                        <= (#[trigger] v@[b]).expires_at,
            decreases j,
        {
            let ghost s0 = v@;
            let x = v[j - 1];
            let y = v[j];
            v.set(j - 1, y);
            let ghost s1 = v@;
            v.set(j, x);
            proof {
                broadcast use vstd::seq_lib::to_multiset_update;
                broadcast use vstd::seq_lib::group_to_multiset_ensures;
                broadcast use vstd::multiset::group_multiset_axioms;
                broadcast use vstd::multiset::group_multiset_properties;

                assert(s1 == s0.update(j - 1, y));
                assert(s1[j as int] == y);
                assert(v@ == s1.update(j as int, x));
                assert(s0[j - 1] == x);
                assert(s0.contains(x));
                assert(s0.to_multiset().count(x) > 0);
                assert(s1.to_multiset() == s0.to_multiset().insert(y).remove(x));
                assert(v@.to_multiset() == s1.to_multiset().insert(x).remove(y));
                assert(v@.to_multiset() =~= s0.to_multiset());
                assert forall|a: int, b: int|
                    0 <= a < b <= i && b != j - 1 implies (#[trigger] v@[a]).expires_at
                    <= (#[trigger] v@[b]).expires_at by {
                    if b == j {
                        if a == j - 1 {
                            assert(v@[a] == y);
                            assert(v@[b] == x);
                        } else {
                            assert(v@[a] == s0[a]);
                            assert(v@[b] == x);
                            assert(s0[a].expires_at <= s0[j - 1].expires_at);
                        }
                    } else if a == j - 1 {
                        assert(v@[a] == y);
                        assert(v@[b] == s0[b]);
                        assert(s0[j as int].expires_at <= s0[b].expires_at);
                    } else if a == j {
                        assert(v@[a] == x);
                        assert(v@[b] == s0[b]);
                        assert(s0[j - 1].expires_at <= s0[b].expires_at);
                    } else {
                        assert(v@[a] == s0[a]);
                        assert(v@[b] == s0[b]);
                    }
                }
            }
            j -= 1;
        }
        i += 1;
    }
}

/// The grant table. Its view is the row sequence in insertion order; all
/// operations require and preserve the uniqueness invariant `store_wf`.
pub struct GrantStore {
    rows: Vec<StoredGrant>,
}

impl View for GrantStore {
    type V = Seq<StoredGrant>;

    closed spec fn view(&self) -> Seq<StoredGrant> {
        self.rows@
    }
}

impl GrantStore {
    /// An empty grant table.
    pub fn new() -> (s: Self)
        ensures
            s@ == Seq::<StoredGrant>::empty(),
            store_wf(s@),
    {
        let s = GrantStore { rows: Vec::new() };
        proof {
            assert(s@ =~= Seq::<StoredGrant>::empty());
        }
        s
    }

    /// How many rows the table holds; the audit trail only ever grows.
    pub fn len(&self) -> (n: usize)
        ensures
            n == self@.len(),
    {
        self.rows.len()
    }

    /// Read one row of the audit trail by position.
    pub fn row_at(&self, i: usize) -> (r: StoredGrant)
        requires
            i < self@.len(),
        ensures
            r == self@[i as int],
    {
        self.rows[i]
    }

    /// Read the grant a key holds, if any.
    pub fn get(&self, community_id: u64, user_id: u64) -> (r: Option<Grant>)
        ensures
            r == find_grant(self@, community_id, user_id),
    {
        let n = self.rows.len();
        let mut i: usize = 0;
        proof {
            assert(self@.skip(0) =~= self@);
        }
        while i < n
            invariant
                n == self.rows.len(),
                i <= n,
                find_grant(self@, community_id, user_id) == find_grant(
                    self@.skip(i as int),
                    community_id,
                    user_id,
                ),
            decreases n - i,
        {
            let row = self.rows[i];
            proof {
                assert(self@.skip(i as int)[0] == self@[i as int]);
                assert(self@.skip(i as int).drop_first() =~= self@.skip(i + 1));
            }
            if row.community_id == community_id && row.user_id == user_id {
                return Some(row.grant);
            }
            i += 1;
        }
        proof {
            assert(self@.skip(n as int) =~= Seq::<StoredGrant>::empty());
        }
        None
    }

    /// Insert a grant for a key. The uniqueness constraint makes this atomic
    /// with respect to duplicates: if the key already holds a row — however
    /// it got there — nothing is written and the insert reports a conflict.
    pub fn insert(&mut self, community_id: u64, user_id: u64, grant: Grant) -> (r: InsertOutcome)
        requires
            store_wf(old(self)@),
        ensures
            store_wf(final(self)@),
            match find_grant(old(self)@, community_id, user_id) {
                Option::Some(_) => r == InsertOutcome::Conflict && final(self)@ == old(self)@,
                Option::None => r == InsertOutcome::Inserted && final(self)@ == old(self)@.push(
                    (StoredGrant { community_id, user_id, grant }),
                ),
            },
            find_grant(final(self)@, community_id, user_id) == match find_grant(
                old(self)@,
                community_id,
                user_id,
            ) {
                Option::Some(g) => Option::Some(g),
                Option::None => Option::Some(grant),
            },
            forall|c2: u64, u2: u64|
                !(c2 == community_id && u2 == user_id) ==> #[trigger] find_grant(final(self)@, c2, u2)
                    == find_grant(old(self)@, c2, u2),
    {
        match self.get(community_id, user_id) {
            Some(_) => InsertOutcome::Conflict,
            None => {
                let row = StoredGrant { community_id, user_id, grant };
                proof {
                    lemma_push_fresh_row(self@, row);
                }
                self.rows.push(row);
                InsertOutcome::Inserted
            },
        }
    }

    /// Scan for grants due at `now`: exactly the still-active rows whose
    /// expiry moment has been reached, as key-and-expiry entries, ordered by
    /// expiry earliest first, each key at most once. Already expired grants
    /// are never part of a scan, so re-scanning can never revoke twice.
    pub fn scan_due(&self, now: u64) -> (r: Vec<DueGrant>)
        requires
            store_wf(self@),
        ensures
            sorted_by_expiry(r@),
            distinct_keys(r@),
            forall|i: int|
                0 <= i < r@.len() ==> due_entry_origin(self@, now, self@.len() as int, #[trigger] r@[i]),
            forall|j: int|
                0 <= j < self@.len() && grant_due((#[trigger] self@[j]).grant, now)
                    ==> r@.contains(due_of(self@[j])),
    {
        let mut due: Vec<DueGrant> = Vec::new();
        let n = self.rows.len();
        let mut k: usize = 0;
        while k < n
            invariant
                n == self.rows.len(),
                k <= n,
                store_wf(self@),
                distinct_keys(due@),
                forall|i: int|
                    0 <= i < due@.len() ==> due_entry_origin(self@, now, k as int, #[trigger] due@[i]),
                forall|j: int|
                    0 <= j < k && grant_due((#[trigger] self@[j]).grant, now) ==> due@.contains(
                        due_of(self@[j]),
                    ),
            decreases n - k,
        {
            let row = self.rows[k];
            let is_due = match row.grant.status {
                GrantStatus::Active => row.grant.expires_at <= now,
                GrantStatus::Expired => false,
            };
            if is_due {
                let ghost before = due@;
                let entry = DueGrant {
                    community_id: row.community_id,
                    user_id: row.user_id,
                    expires_at: row.grant.expires_at,
                };
                proof {
                    assert forall|i: int|
                        0 <= i < before.len() implies !((#[trigger] before[i]).community_id
                        == row.community_id && before[i].user_id == row.user_id) by {
                        let j = due_origin_index(self@, now, k as int, before[i]);
                        assert(!row_keyed(self@[k as int], self@[j].community_id, self@[j].user_id));
                    }
                }
                due.push(entry);
                proof {
                    assert(due@ == before.push(entry));
                    assert(entry == due_of(self@[k as int]));
                    assert(grant_due(self@[k as int].grant, now));
                    assert(due_entry_origin(self@, now, k + 1, entry));
                    assert forall|i: int|
                        0 <= i < due@.len() implies due_entry_origin(
                        self@,
                        now,
                        k + 1,
                        #[trigger] due@[i],
                    ) by {
                        if i < before.len() {
                            assert(due@[i] == before[i]);
                            lemma_due_origin_monotonic(self@, now, k as int, k + 1, before[i]);
                        } else {
                            assert(due@[i] == entry);
                        }
                    }
                    assert forall|j: int|
                        0 <= j < k + 1 && grant_due((#[trigger] self@[j]).grant, now) implies due@
                        .contains(due_of(self@[j])) by {
                        if j < k {
                            assert(before.contains(due_of(self@[j])));
                            let i = choose|i: int|
                                0 <= i < before.len() && before[i] == due_of(self@[j]);
                            assert(due@[i] == due_of(self@[j]));
                        } else {
                            assert(due@[before.len() as int] == due_of(self@[j]));
                        }
                    }
                }
            } else {
                proof {
                    assert(!grant_due(self@[k as int].grant, now));
                    assert forall|i: int|
                        0 <= i < due@.len() implies due_entry_origin(
                        self@,
                        now,
                        k + 1,
                        #[trigger] due@[i],
                    ) by {
                        lemma_due_origin_monotonic(self@, now, k as int, k + 1, due@[i]);
                    }
                }
            }
            k += 1;
        }
        let ghost unsorted = due@;
        sort_due_by_expiry(&mut due);
        proof {
            broadcast use vstd::seq_lib::group_to_multiset_ensures;
            broadcast use vstd::multiset::group_multiset_axioms;

            assert forall|i: int| 0 <= i < due@.len() implies due_entry_origin(
                self@,
                now,
                self@.len() as int,
                #[trigger] due@[i],
            ) by {
                assert(due@.contains(due@[i]));
                assert(due@.to_multiset().count(due@[i]) > 0);
                assert(unsorted.contains(due@[i]));
                let i0 = choose|i0: int| 0 <= i0 < unsorted.len() && unsorted[i0] == due@[i];
                lemma_due_origin_monotonic(self@, now, n as int, self@.len() as int, unsorted[i0]);
            }
            assert forall|j: int|
                0 <= j < self@.len() && grant_due((#[trigger] self@[j]).grant, now) implies due@
                .contains(due_of(self@[j])) by {
                assert(unsorted.contains(due_of(self@[j])));
                assert(unsorted.to_multiset().count(due_of(self@[j])) > 0);
            }
            assert(unsorted.no_duplicates()) by {
                assert forall|p: int, q: int|
                    0 <= p < unsorted.len() && 0 <= q < unsorted.len() && p != q implies unsorted[p]
                    != unsorted[q] by {
                    if p < q {
                        assert(!((unsorted[p]).community_id == (unsorted[q]).community_id
                            && unsorted[p].user_id == unsorted[q].user_id));
                    } else {
                        assert(!((unsorted[q]).community_id == (unsorted[p]).community_id
                            && unsorted[q].user_id == unsorted[p].user_id));
                    }
                }
            }
            assert forall|a: int, b: int|
                0 <= a < b < due@.len() implies !((#[trigger] due@[a]).community_id
                == (#[trigger] due@[b]).community_id && due@[a].user_id == due@[b].user_id) by {
                if due@[a] == due@[b] {
                    unsorted.lemma_multiset_has_no_duplicates();
                    due@.lemma_multiset_has_no_duplicates_conv();
                    assert(due@[a] != due@[b]);
                } else {
                    assert(due@.contains(due@[a]));
                    assert(due@.to_multiset().count(due@[a]) > 0);
                    assert(unsorted.contains(due@[a]));
                    assert(due@.contains(due@[b]));
                    assert(due@.to_multiset().count(due@[b]) > 0);
                    assert(unsorted.contains(due@[b]));
                    let a0 = choose|i0: int| 0 <= i0 < unsorted.len() && unsorted[i0] == due@[a];
                    let b0 = choose|i0: int| 0 <= i0 < unsorted.len() && unsorted[i0] == due@[b];
                    assert(a0 != b0);
                }
            }
        }
        due
    }

    /// Conditionally mark the grant a key holds as expired: the transition
    /// happens only when the grant is still active, so repeated or concurrent
    /// sweeps of the same key stay idempotent. Issue and expiry moments are
    /// left untouched — the mark introduces no drift.
    pub fn mark_expired(&mut self, community_id: u64, user_id: u64) -> (r: MarkOutcome)
        requires
            store_wf(old(self)@),
        ensures
            store_wf(final(self)@),
            r == mark_result(old(self)@, community_id, user_id),
            final(self)@ == mark_rows(old(self)@, community_id, user_id),
            find_grant(final(self)@, community_id, user_id) == match find_grant(
                old(self)@,
                community_id,
                user_id,
            ) {
                Option::None => Option::<Grant>::None,
                Option::Some(g) => if g.status is Active {
                    Option::Some(expire_grant(g))
                } else {
                    Option::Some(g)
                },
            },
            forall|c2: u64, u2: u64|
                !(c2 == community_id && u2 == user_id) ==> #[trigger] find_grant(final(self)@, c2, u2)
                    == find_grant(old(self)@, c2, u2),
    {
        let n = self.rows.len();
        let mut i: usize = 0;
        while i < n
            invariant
                self@ == old(self)@,
                n == self.rows.len(),
                i <= n,
                store_wf(self@),
                forall|j: int| 0 <= j < i ==> !row_keyed(#[trigger] self@[j], community_id, user_id),
            decreases n - i,
        {
            let row = self.rows[i];
            if row.community_id == community_id && row.user_id == user_id {
                proof {
                    lemma_find_grant_at_index(self@, i as int);
                }
                match row.grant.status {
                    GrantStatus::Active => {
                        let updated = StoredGrant {
                            community_id: row.community_id,
                            user_id: row.user_id,
                            grant: Grant {
                                granted_at: row.grant.granted_at,
                                expires_at: row.grant.expires_at,
                                status: GrantStatus::Expired,
                            },
                        };
                        self.rows.set(i, updated);
                        proof {
                            assert forall|j: int|
                                0 <= j < self@.len() implies self@[j] == mark_rows(
                                old(self)@,
                                community_id,
                                user_id,
                            )[j] by {
                                if j != i {
                                    assert(!row_keyed(old(self)@[j], community_id, user_id));
                                }
                            }
                            assert(self@ =~= mark_rows(old(self)@, community_id, user_id));
                            lemma_mark_rows_find(old(self)@, community_id, user_id);
                        }
                        return MarkOutcome::Marked;
                    },
                    GrantStatus::Expired => {
                        proof {
                            assert forall|j: int|
                                0 <= j < self@.len() implies self@[j] == mark_rows(
                                old(self)@,
                                community_id,
                                user_id,
                            )[j] by {
                                if j != i {
                                    assert(!row_keyed(old(self)@[j], community_id, user_id));
                                }
                            }
                            assert(self@ =~= mark_rows(old(self)@, community_id, user_id));
                            lemma_mark_rows_find(old(self)@, community_id, user_id);
                        }
                        return MarkOutcome::AlreadyExpired;
                    },
                }
            }
            i += 1;
        }
        proof {
            lemma_find_grant_none(self@, community_id, user_id);
            assert(self@ =~= mark_rows(old(self)@, community_id, user_id));
            lemma_mark_rows_find(old(self)@, community_id, user_id);
        }
        MarkOutcome::Missing
    }
}

} // verus!
