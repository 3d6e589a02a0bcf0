//! Retention of a namespace: records past their deadline or time to live are
//! removed, records past the archive age are archived, and when more records
//! stay active than a namespace may hold, the oldest of them are archived.

use vstd::prelude::*;
use crate::config::RetentionPolicy;
use crate::maintenance::{lemma_count_step, spec_count, spec_positions, StoredFrame};
use crate::model::{MemoryQualityState, MemoryTrustLevel, RecordFrame};
use crate::text::{
    lemma_text_less_asymmetric, lemma_text_less_total, lemma_text_less_transitive, spec_text_less,
    text_eq, text_less,
};
use vstd::set_lib::{lemma_int_range, lemma_len_subset, lemma_map_size, lemma_subset_equality, set_int_range};

verus! {

/// Milliseconds in a day.
pub const DAY_MS: u64 = 86_400_000;

/// A number of days in milliseconds (never more than a `u64` holds).
pub open spec fn spec_days_ms(days: u32) -> u64 {
    (days * DAY_MS) as u64
}

/// A number of days in milliseconds.
pub fn days_ms(days: u32) -> (r: u64)
    ensures
        r == spec_days_ms(days),
        r == days * DAY_MS,
{
    assert(days as u64 * DAY_MS <= u64::MAX) by (nonlinear_arith)
        requires
            days <= u32::MAX,
    ;
    (days as u64) * DAY_MS
}

/// Whether the record is the namespace's.
pub open spec fn spec_in_namespace(record: RecordFrame, tenant_id: Seq<char>, namespace: Seq<char>) -> bool {
    record.scope.tenant_id@ == tenant_id && record.scope.namespace@ == namespace
}

/// Whether retention leaves the record alone: pinned records when the
/// policy exempts them.
pub open spec fn spec_exempt(policy: RetentionPolicy, record: RecordFrame) -> bool {
    policy.pinned_records_exempt && record.scope.trust_level == MemoryTrustLevel::Pinned
}

/// Whether a record counts as active for retention: draft, active or
/// verified.
pub open spec fn spec_retainable(quality: MemoryQualityState) -> bool {
    quality == MemoryQualityState::Draft || quality == MemoryQualityState::Active || quality
        == MemoryQualityState::Verified
}

/// Whether the record is past its deadline or its time to live at `now`.
pub open spec fn spec_expired(policy: RetentionPolicy, record: RecordFrame, now: u64) -> bool {
    (record.expires_at_unix_ms matches Some(t) && t <= now) || (spec_days_ms(policy.ttl_days) > 0
        && now.saturating_sub(record.created_at_unix_ms) > spec_days_ms(policy.ttl_days))
}

/// Whether the record is past the archive age at `now` while still active.
pub open spec fn spec_aged(policy: RetentionPolicy, record: RecordFrame, now: u64) -> bool {
    spec_days_ms(policy.archive_after_days) > 0 && now.saturating_sub(record.created_at_unix_ms)
        > spec_days_ms(policy.archive_after_days) && spec_retainable(record.quality_state)
}

/// Removed by retention: the namespace's, not exempt, and expired.
pub open spec fn spec_removed(
    policy: RetentionPolicy,
    tenant_id: Seq<char>,
    namespace: Seq<char>,
    now: u64,
) -> spec_fn(StoredFrame) -> bool {
    |s: StoredFrame|
        spec_in_namespace(s.record, tenant_id, namespace) && !spec_exempt(policy, s.record)
            && spec_expired(policy, s.record, now)
}

/// Archived by age: the namespace's, not exempt, not expired, and aged.
pub open spec fn spec_archived_by_age(
    policy: RetentionPolicy,
    tenant_id: Seq<char>,
    namespace: Seq<char>,
    now: u64,
) -> spec_fn(StoredFrame) -> bool {
    |s: StoredFrame|
        spec_in_namespace(s.record, tenant_id, namespace) && !spec_exempt(policy, s.record)
            && !spec_expired(policy, s.record, now) && spec_aged(policy, s.record, now)
}

/// Still active after removal and archiving by age: the namespace's, not
/// exempt, neither expired nor aged, and draft, active or verified.
pub open spec fn spec_still_active(
    policy: RetentionPolicy,
    tenant_id: Seq<char>,
    namespace: Seq<char>,
    now: u64,
) -> spec_fn(StoredFrame) -> bool {
    |s: StoredFrame|
        spec_in_namespace(s.record, tenant_id, namespace) && !spec_exempt(policy, s.record)
            && !spec_expired(policy, s.record, now) && !spec_aged(policy, s.record, now)
            && spec_retainable(s.record.quality_state)
}

/// Whether record `a` (at position `i`) is older than record `b` (at
/// position `j`): updated earlier, then less important, then the smaller
/// id, then earlier in the list.
pub open spec fn spec_older(a: RecordFrame, i: int, b: RecordFrame, j: int) -> bool {
    if a.updated_at_unix_ms != b.updated_at_unix_ms {
        a.updated_at_unix_ms < b.updated_at_unix_ms
    } else if a.importance_key != b.importance_key {
        a.importance_key < b.importance_key
    } else if a.id@ != b.id@ {
        spec_text_less(a.id@, b.id@)
    } else {
        i < j
    }
}

/// How many still-active records among the first `k` are older than the
/// one at position `i`.
pub open spec fn spec_count_older(
    records: Seq<StoredFrame>,
    i: int,
    active: spec_fn(StoredFrame) -> bool,
    k: int,
) -> nat
    decreases k,
{
    if k <= 0 {
        0
    } else {
        spec_count_older(records, i, active, k - 1) + if active(records[k - 1]) && spec_older(
            records[k - 1].record,
            k - 1,
            records[i].record,
            i,
        ) {
            1nat
        } else {
            0nat
        }
    }
}

/// The positions below `n` that satisfy `p`, in order.
pub open spec fn spec_index_positions(n: int, p: spec_fn(int) -> bool) -> Seq<usize>
    decreases n,
{
    if n <= 0 {
        seq![]
    } else {
        let init = spec_index_positions(n - 1, p);
        if p(n - 1) {
            init.push((n - 1) as usize)
        } else {
            init
        }
    }
}

/// Every position that satisfies `p` is listed, and only those are.
pub proof fn lemma_index_positions(n: int, p: spec_fn(int) -> bool)
    requires
        n <= usize::MAX,
    ensures
        forall|k: int|
            0 <= k < n && #[trigger] p(k) ==> spec_index_positions(n, p).contains(k as usize),
        forall|m: int|
            0 <= m < spec_index_positions(n, p).len() ==> (#[trigger] spec_index_positions(n, p)[m])
                < n && p(spec_index_positions(n, p)[m] as int),
    decreases n,
{
    if n > 0 {
        lemma_index_positions(n - 1, p);
        let init = spec_index_positions(n - 1, p);
        let all = spec_index_positions(n, p);
        assert forall|k: int| 0 <= k < n && #[trigger] p(k) implies all.contains(k as usize) by {
            if k < n - 1 {
                let m = choose|m: int| 0 <= m < init.len() && init[m] == k as usize;
                assert(all[m] == k as usize);
            } else {
                assert(all[all.len() - 1] == k as usize);
            }
        }
        assert forall|m: int| 0 <= m < all.len() implies (#[trigger] all[m]) < n && p(
            all[m] as int,
        ) by {
            if m < init.len() {
                assert(all[m] == init[m]);
            } else {
                assert(p(n - 1));
                assert(all == init.push((n - 1) as usize));
                assert(all[m] == (n - 1) as usize);
            }
        }
    }
}

/// Archived to respect the namespace cap: still active, and among the
/// oldest `active - max` when more than `max` remain active.
pub open spec fn spec_archived_by_cap(
    records: Seq<StoredFrame>,
    policy: RetentionPolicy,
    tenant_id: Seq<char>,
    namespace: Seq<char>,
    now: u64,
) -> spec_fn(int) -> bool {
    let active = spec_still_active(policy, tenant_id, namespace, now);
    let total = spec_count(records, active);
    |i: int|
        policy.max_records_per_namespace > 0 && total > policy.max_records_per_namespace && active(
            records[i],
        ) && spec_count_older(records, i, active, records.len() as int) < total
            - policy.max_records_per_namespace
}

/// What retention does to a namespace: the records to remove, to archive
/// for their age, and to archive to respect the cap (positions in the list).
pub struct RetentionPlan {
    pub removed: Vec<usize>,
    pub archived_by_age: Vec<usize>,
    pub archived_by_cap: Vec<usize>,
}

fn in_namespace(record: &RecordFrame, tenant_id: &str, namespace: &str) -> (r: bool)
    ensures
        r == spec_in_namespace(*record, tenant_id@, namespace@),
{
    text_eq(record.scope.tenant_id.as_str(), tenant_id) && text_eq(
        record.scope.namespace.as_str(),
        namespace,
    )
}

fn exempt(policy: &RetentionPolicy, record: &RecordFrame) -> (r: bool)
    ensures
        r == spec_exempt(*policy, *record),
{
    policy.pinned_records_exempt && record.scope.trust_level == MemoryTrustLevel::Pinned
}

fn retainable(quality: MemoryQualityState) -> (r: bool)
    ensures
        r == spec_retainable(quality),
{
    match quality {
        MemoryQualityState::Draft | MemoryQualityState::Active | MemoryQualityState::Verified => true,
        _ => false,
    }
}

fn expired(policy: &RetentionPolicy, record: &RecordFrame, now: u64) -> (r: bool)
    ensures
        r == spec_expired(*policy, *record, now),
{
    let by_deadline = match record.expires_at_unix_ms {
        Some(t) => t <= now,
        None => false,
    };
    let ttl = days_ms(policy.ttl_days);
    by_deadline || (ttl > 0 && now.saturating_sub(record.created_at_unix_ms) > ttl)
}

fn aged(policy: &RetentionPolicy, record: &RecordFrame, now: u64) -> (r: bool)
    ensures
        r == spec_aged(*policy, *record, now),
{
    let window = days_ms(policy.archive_after_days);
    window > 0 && now.saturating_sub(record.created_at_unix_ms) > window && retainable(
        record.quality_state,
    )
}

fn older(a: &RecordFrame, i: usize, b: &RecordFrame, j: usize) -> (r: bool)
    ensures
        r == spec_older(*a, i as int, *b, j as int),
{
    if a.updated_at_unix_ms != b.updated_at_unix_ms {
        a.updated_at_unix_ms < b.updated_at_unix_ms
    } else if a.importance_key != b.importance_key {
        a.importance_key < b.importance_key
    } else if !text_eq(a.id.as_str(), b.id.as_str()) {
        text_less(a.id.as_str(), b.id.as_str())
    } else {
        i < j
    }
}

/// Plans retention for a namespace at `now`: which records to remove, which
/// to archive for their age, and which to archive because the namespace
/// holds more active records than its cap (the oldest first).
pub fn plan_retention(
    tenant_id: &str,
    namespace: &str,
    records: &Vec<StoredFrame>,
    policy: &RetentionPolicy,
    now: u64,
) -> (r: RetentionPlan)
    ensures
        r.removed@ == spec_positions(records@, spec_removed(*policy, tenant_id@, namespace@, now)),
        r.archived_by_age@ == spec_positions(
            records@,
            spec_archived_by_age(*policy, tenant_id@, namespace@, now),
        ),
        r.archived_by_cap@ == spec_index_positions(
            records@.len() as int,
            spec_archived_by_cap(records@, *policy, tenant_id@, namespace@, now),
        ),
{
    let n = records.len();
    let ghost removed_p = spec_removed(*policy, tenant_id@, namespace@, now);
    let ghost aged_p = spec_archived_by_age(*policy, tenant_id@, namespace@, now);
    let ghost active_p = spec_still_active(*policy, tenant_id@, namespace@, now);
    let mut removed: Vec<usize> = Vec::new();
    let mut archived_by_age: Vec<usize> = Vec::new();
    let mut active: Vec<bool> = Vec::new();
    let mut total: usize = 0;
    let mut i: usize = 0;
    while i < n
        invariant
            n == records@.len(),
            i <= n,
            removed_p == spec_removed(*policy, tenant_id@, namespace@, now),
            aged_p == spec_archived_by_age(*policy, tenant_id@, namespace@, now),
            active_p == spec_still_active(*policy, tenant_id@, namespace@, now),
            removed@ == spec_positions(records@.take(i as int), removed_p),
            archived_by_age@ == spec_positions(records@.take(i as int), aged_p),
            active@.len() == i,
            forall|k: int| 0 <= k < i ==> active@[k] == active_p(#[trigger] records@[k]),
            total <= i,
            total == spec_count(records@.take(i as int), active_p),
        decreases n - i,
    {
        let record = &records[i].record;
        proof {
            let next = records@.take(i + 1);
            assert(next.drop_last() =~= records@.take(i as int));
            assert(next.last() == records@[i as int]);
            lemma_count_step(records@, i as int, active_p);
        }
        let mine = in_namespace(record, tenant_id, namespace) && !exempt(policy, record);
        let is_expired = expired(policy, record, now);
        let is_aged = aged(policy, record, now);
        if mine && is_expired {
            removed.push(i);
        }
        if mine && !is_expired && is_aged {
            archived_by_age.push(i);
        }
        let still = mine && !is_expired && !is_aged && retainable(record.quality_state);
        if still {
            total += 1;
        }
        active.push(still);
        i += 1;
    }
    assert(records@.take(n as int) =~= records@);

    let ghost cap_p = spec_archived_by_cap(records@, *policy, tenant_id@, namespace@, now);
    let mut archived_by_cap: Vec<usize> = Vec::new();
    let max = policy.max_records_per_namespace;
    let mut i: usize = 0;
    while i < n
        invariant
            n == records@.len(),
            i <= n,
            active_p == spec_still_active(*policy, tenant_id@, namespace@, now),
            cap_p == spec_archived_by_cap(records@, *policy, tenant_id@, namespace@, now),
            max == policy.max_records_per_namespace,
            active@.len() == n,
            forall|k: int| 0 <= k < n ==> active@[k] == active_p(#[trigger] records@[k]),
            total == spec_count(records@, active_p),
            archived_by_cap@ == spec_index_positions(i as int, cap_p),
        decreases n - i,
    {
        if max > 0 && total > max && active[i] {
            let rank = count_older(records, &active, i, Ghost(active_p));
            if rank < total - max {
                archived_by_cap.push(i);
            }
        }
        i += 1;
    }
    RetentionPlan { removed, archived_by_age, archived_by_cap }
}

fn count_older(
    records: &Vec<StoredFrame>,
    active: &Vec<bool>,
    i: usize,
    Ghost(active_p): Ghost<spec_fn(StoredFrame) -> bool>,
) -> (r: usize)
    requires
        i < records@.len(),
        active@.len() == records@.len(),
        forall|k: int| 0 <= k < records@.len() ==> active@[k] == active_p(#[trigger] records@[k]),
    ensures
        r == spec_count_older(records@, i as int, active_p, records@.len() as int),
{
    let n = records.len();
    let mut count: usize = 0;
    let mut k: usize = 0;
    while k < n
        invariant
            n == records@.len(),
            i < n,
            k <= n,
            active@.len() == n,
            forall|m: int| 0 <= m < n ==> active@[m] == active_p(#[trigger] records@[m]),
            count <= k,
            count == spec_count_older(records@, i as int, active_p, k as int),
        decreases n - k,
    {
        if active[k] && older(&records[k].record, k, &records[i].record, i) {
            count += 1;
        }
        k += 1;
    }
    count
}


// ----- the namespace cap -----

/// The positions below `n` that satisfy `p`, as a set.
pub open spec fn spec_index_set(n: int, p: spec_fn(int) -> bool) -> Set<int> {
    Set::new(|i: int| 0 <= i < n && p(i))
}

proof fn lemma_index_set_len(n: int, p: spec_fn(int) -> bool)
    requires
        n >= 0,
    ensures
        spec_index_set(n, p).finite(),
        spec_index_set(n, p).len() == spec_index_positions(n, p).len(),
    decreases n,
{
    if n == 0 {
        assert(spec_index_set(n, p) =~= Set::<int>::empty());
    } else {
        lemma_index_set_len(n - 1, p);
        if p(n - 1) {
            assert(spec_index_set(n, p) =~= spec_index_set(n - 1, p).insert(n - 1));
        } else {
            assert(spec_index_set(n, p) =~= spec_index_set(n - 1, p));
        }
    }
}

proof fn lemma_count_set(s: Seq<StoredFrame>, p: spec_fn(StoredFrame) -> bool)
    ensures
        spec_index_set(s.len() as int, |j: int| p(s[j])).finite(),
        spec_count(s, p) == spec_index_set(s.len() as int, |j: int| p(s[j])).len(),
    decreases s.len(),
{
    let n = s.len() as int;
    let full = spec_index_set(n, |j: int| p(s[j]));
    if n == 0 {
        assert(full =~= Set::<int>::empty());
    } else {
        let t = s.drop_last();
        lemma_count_set(t, p);
        let part = spec_index_set(n - 1, |j: int| p(t[j]));
        if p(s.last()) {
            assert(full =~= part.insert(n - 1));
        } else {
            assert(full =~= part);
        }
    }
}

/// The active records of a namespace that are older than the one at `i`.
pub open spec fn spec_older_set(records: Seq<StoredFrame>, i: int, active: spec_fn(StoredFrame) -> bool) -> Set<int> {
    spec_index_set(
        records.len() as int,
        |j: int| active(records[j]) && spec_older(records[j].record, j, records[i].record, i),
    )
}

proof fn lemma_count_older_set(records: Seq<StoredFrame>, i: int, active: spec_fn(StoredFrame) -> bool, k: int)
    requires
        0 <= k <= records.len(),
    ensures
        spec_index_set(k, |j: int| active(records[j]) && spec_older(records[j].record, j, records[i].record, i)).finite(),
        spec_count_older(records, i, active, k) == spec_index_set(
            k,
            |j: int| active(records[j]) && spec_older(records[j].record, j, records[i].record, i),
        ).len(),
    decreases k,
{
    let q = |j: int| active(records[j]) && spec_older(records[j].record, j, records[i].record, i);
    if k == 0 {
        assert(spec_index_set(k, q) =~= Set::<int>::empty());
    } else {
        lemma_count_older_set(records, i, active, k - 1);
        if q(k - 1) {
            assert(spec_index_set(k, q) =~= spec_index_set(k - 1, q).insert(k - 1));
        } else {
            assert(spec_index_set(k, q) =~= spec_index_set(k - 1, q));
        }
    }
}

proof fn lemma_older_order(a: RecordFrame, i: int, b: RecordFrame, j: int, c: RecordFrame, k: int)
    ensures
        !spec_older(a, i, a, i),
        i != j ==> spec_older(a, i, b, j) || spec_older(b, j, a, i),
        !(spec_older(a, i, b, j) && spec_older(b, j, a, i)),
        spec_older(a, i, b, j) && spec_older(b, j, c, k) ==> spec_older(a, i, c, k),
{
    lemma_text_less_total(a.id@, b.id@);
    lemma_text_less_asymmetric(a.id@, b.id@);
    if spec_text_less(a.id@, b.id@) && spec_text_less(b.id@, c.id@) {
        lemma_text_less_transitive(a.id@, b.id@, c.id@);
    }
}

/// The active records older than one record are fewer than those older
/// than a younger record.
proof fn lemma_older_set_grows(records: Seq<StoredFrame>, active: spec_fn(StoredFrame) -> bool, i: int, j: int)
    requires
        0 <= i < records.len(),
        0 <= j < records.len(),
        active(records[i]),
        spec_older(records[i].record, i, records[j].record, j),
    ensures
        spec_older_set(records, i, active).len() < spec_older_set(records, j, active).len(),
{
    let n = records.len() as int;
    let si = spec_older_set(records, i, active);
    let sj = spec_older_set(records, j, active);
    lemma_count_older_set(records, i, active, n);
    lemma_count_older_set(records, j, active, n);
    assert forall|x: int| si.contains(x) implies sj.remove(i).contains(x) by {
        lemma_older_order(records[x].record, x, records[i].record, i, records[j].record, j);
        lemma_older_order(records[i].record, i, records[i].record, i, records[i].record, i);
    }
    lemma_len_subset(si, sj.remove(i));
    assert(sj.contains(i));
}

/// Retention touches only the records of its namespace, and, when pinned
/// records are exempt, never a pinned one: such a record is neither removed
/// nor archived (for its age or for the cap).
pub proof fn lemma_retention_spares_other_and_pinned_records(
    records: Seq<StoredFrame>,
    policy: RetentionPolicy,
    tenant_id: Seq<char>,
    namespace: Seq<char>,
    now: u64,
    i: int,
)
    requires
        0 <= i < records.len(),
        !spec_in_namespace(records[i].record, tenant_id, namespace) || (policy.pinned_records_exempt
            && records[i].record.scope.trust_level == MemoryTrustLevel::Pinned),
    ensures
        !spec_removed(policy, tenant_id, namespace, now)(records[i]),
        !spec_archived_by_age(policy, tenant_id, namespace, now)(records[i]),
        !spec_archived_by_cap(records, policy, tenant_id, namespace, now)(i),
{
}

/// Retention is opt-in: with no time to live, no archive age and no cap (as
/// by default), it archives nothing and removes only records whose own
/// deadline has passed.
pub proof fn lemma_retention_off_by_default(
    records: Seq<StoredFrame>,
    policy: RetentionPolicy,
    tenant_id: Seq<char>,
    namespace: Seq<char>,
    now: u64,
    i: int,
)
    requires
        0 <= i < records.len(),
        policy.ttl_days == 0,
        policy.archive_after_days == 0,
        policy.max_records_per_namespace == 0,
    ensures
        !spec_archived_by_age(policy, tenant_id, namespace, now)(records[i]),
        !spec_archived_by_cap(records, policy, tenant_id, namespace, now)(i),
        spec_removed(policy, tenant_id, namespace, now)(records[i]) ==> (
        records[i].record.expires_at_unix_ms matches Some(t) && t <= now),
{
}

/// Archiving for the cap archives exactly the excess: when a positive cap
/// is exceeded, as many records are archived for it as the namespace holds
/// active records beyond the cap (so that exactly the cap stay active), and
/// none otherwise.
pub proof fn lemma_cap_archives_the_excess(
    records: Seq<StoredFrame>,
    policy: RetentionPolicy,
    tenant_id: Seq<char>,
    namespace: Seq<char>,
    now: u64,
)
    ensures
        ({
            let active = spec_still_active(policy, tenant_id, namespace, now);
            let total = spec_count(records, active);
            let max = policy.max_records_per_namespace;
            spec_index_positions(
                records.len() as int,
                spec_archived_by_cap(records, policy, tenant_id, namespace, now),
            ).len() == if max > 0 && total > max {
                total - max
            } else {
                0
            }
        }),
{
    let n = records.len() as int;
    let active = spec_still_active(policy, tenant_id, namespace, now);
    let total = spec_count(records, active);
    let max = policy.max_records_per_namespace;
    let cap = spec_archived_by_cap(records, policy, tenant_id, namespace, now);
    lemma_index_set_len(n, cap);
    if !(max > 0 && total > max) {
        assert(spec_index_set(n, cap) =~= Set::<int>::empty());
    } else {
        let all = spec_index_set(n, |j: int| active(records[j]));
        lemma_count_set(records, active);
        let rank = |i: int| spec_older_set(records, i, active).len() as int;
        // the rank of an active record is below the number of active records
        assert forall|i: int| all.contains(i) implies 0 <= #[trigger] rank(i) < total && rank(i)
            == spec_count_older(records, i, active, n) by {
            lemma_count_older_set(records, i, active, n);
            let si = spec_older_set(records, i, active);
            assert forall|x: int| si.contains(x) implies all.remove(i).contains(x) by {
                lemma_older_order(records[i].record, i, records[i].record, i, records[i].record, i);
            }
            lemma_len_subset(si, all.remove(i));
        }
        // ranks are distinct
        assert forall|i: int, j: int| all.contains(i) && all.contains(j) && #[trigger] rank(i) == #[trigger] rank(j) implies i == j by {
            if i != j {
                lemma_older_order(records[i].record, i, records[j].record, j, records[j].record, j);
                if spec_older(records[i].record, i, records[j].record, j) {
                    lemma_older_set_grows(records, active, i, j);
                } else {
                    lemma_older_set_grows(records, active, j, i);
                }
            }
        }
        // so they are exactly 0 .. total
        lemma_int_range(0, total as int);
        lemma_map_size(all, all.map(rank), rank);
        assert(all.map(rank).subset_of(set_int_range(0, total as int))) by {
            assert forall|k: int| all.map(rank).contains(k) implies set_int_range(0, total as int).contains(k) by {
                let i = choose|i: int| all.contains(i) && rank(i) == k;
            }
        }
        lemma_subset_equality(all.map(rank), set_int_range(0, total as int));
        // the records archived for the cap are those ranked below the excess
        let excess = (total - max) as int;
        let capped = spec_index_set(n, cap);
        assert forall|i: int| capped.contains(i) <==> all.contains(i) && rank(i) < excess by {
            if all.contains(i) {
                assert(rank(i) == spec_count_older(records, i, active, n));
            }
        }
        lemma_int_range(0, excess);
        assert(capped.map(rank) =~= set_int_range(0, excess)) by {
            assert forall|k: int| set_int_range(0, excess).contains(k) implies capped.map(rank).contains(k) by {
                assert(set_int_range(0, total as int).contains(k));
                assert(all.map(rank).contains(k));
                let i = choose|i: int| all.contains(i) && rank(i) == k;
                assert(capped.contains(i));
            }
        }
        assert(capped.subset_of(all));
        vstd::set_lib::lemma_set_subset_finite(all, capped);
        lemma_map_size(capped, capped.map(rank), rank);
    }
}

/// What retention removes and archives for age, in terms of the record's
/// times: a record of the namespace that is not exempt is removed exactly
/// when its own deadline is at or before `now`, or a positive time to live
/// is set and more than that many days have passed since it was created.
/// A record of the namespace that is not exempt and not removed is
/// archived for its age exactly when a positive archive age is set, more
/// than that many days have passed since it was created, and it is draft,
/// active or verified.
pub proof fn lemma_retention_follows_the_clock(
    records: Seq<StoredFrame>,
    policy: RetentionPolicy,
    tenant_id: Seq<char>,
    namespace: Seq<char>,
    now: u64,
    i: int,
)
    requires
        0 <= i < records.len(),
    ensures
        ({
            let r = records[i].record;
            let own = r.scope.tenant_id@ == tenant_id && r.scope.namespace@ == namespace && !(
            policy.pinned_records_exempt && r.scope.trust_level == MemoryTrustLevel::Pinned);
            let age = if now >= r.created_at_unix_ms {
                now - r.created_at_unix_ms
            } else {
                0
            };
            let past_deadline = r.expires_at_unix_ms matches Some(t) && t <= now;
            let past_ttl = policy.ttl_days > 0 && age > policy.ttl_days * 86_400_000;
            let past_age = policy.archive_after_days > 0 && age > policy.archive_after_days
                * 86_400_000;
            let live = r.quality_state == MemoryQualityState::Draft || r.quality_state
                == MemoryQualityState::Active || r.quality_state == MemoryQualityState::Verified;
            &&& spec_removed(policy, tenant_id, namespace, now)(records[i]) <==> (own && (
            past_deadline || past_ttl))
            &&& spec_archived_by_age(policy, tenant_id, namespace, now)(records[i]) <==> (own
                && !past_deadline && !past_ttl && past_age && live)
        }),
{
    let ttl = policy.ttl_days;
    let arch = policy.archive_after_days;
    assert(ttl * 86_400_000 <= u64::MAX && (ttl > 0 <==> ttl * 86_400_000 > 0)) by (nonlinear_arith)
        requires
            ttl <= u32::MAX,
    ;
    assert(arch * 86_400_000 <= u64::MAX && (arch > 0 <==> arch * 86_400_000 > 0)) by (nonlinear_arith)
        requires
            arch <= u32::MAX,
    ;
    assert(spec_days_ms(ttl) == ttl * 86_400_000);
    assert(spec_days_ms(arch) == arch * 86_400_000);
}

/// The cap archives the oldest records first: a record archived for the cap
/// was updated no later than any record that stays active, so a record
/// updated after one that stays active is never archived for the cap.
pub proof fn lemma_cap_archives_the_oldest(
    records: Seq<StoredFrame>,
    policy: RetentionPolicy,
    tenant_id: Seq<char>,
    namespace: Seq<char>,
    now: u64,
    i: int,
    j: int,
)
    requires
        0 <= i < records.len(),
        0 <= j < records.len(),
        spec_archived_by_cap(records, policy, tenant_id, namespace, now)(i),
        spec_still_active(policy, tenant_id, namespace, now)(records[j]),
        !spec_archived_by_cap(records, policy, tenant_id, namespace, now)(j),
    ensures
        records[i].record.updated_at_unix_ms <= records[j].record.updated_at_unix_ms,
{
    let active = spec_still_active(policy, tenant_id, namespace, now);
    let n = records.len() as int;
    if records[j].record.updated_at_unix_ms < records[i].record.updated_at_unix_ms {
        assert(spec_older(records[j].record, j, records[i].record, i));
        lemma_older_set_grows(records, active, j, i);
        lemma_count_older_set(records, i, active, n);
        lemma_count_older_set(records, j, active, n);
    }
}

} // verus!
