//! Store statistics: per-namespace counts of records by lifecycle state,
//! kept sorted by tenant and namespace, and the maintenance counters.

use vstd::prelude::*;
use crate::config::EngineTuningInfo;
use crate::maintenance::{
    dedup_signature, integrity_summary, lemma_count_step, option_as_str, spec_count,
    spec_group_count, spec_in_filters, spec_integrity_summary, spec_live_signatures,
    spec_occurrences, spec_repeat_count, spec_within, IdempotencyMapping, StoredFrame,
};
use crate::keys::spec_option_view;
use crate::model::{MemoryHistoricalState, MemoryQualityState, MemoryTrustLevel, RecordFrame};
use crate::query::{MaintenanceStats, NamespaceStats, StoreStatsReport, StoreStatsRequest};
use crate::store::{scope_matches_filters, spec_str_view};
use crate::text::{
    lemma_text_less_asymmetric, lemma_text_less_irreflexive, lemma_text_less_total,
    lemma_text_less_transitive, list_contains, spec_text_less, text_eq, text_less,
};

verus! {

/// Whether the key (tenant, namespace) sorts before another: by tenant,
/// then by namespace.
pub open spec fn spec_key_less(t1: Seq<char>, n1: Seq<char>, t2: Seq<char>, n2: Seq<char>) -> bool {
    spec_text_less(t1, t2) || (t1 == t2 && spec_text_less(n1, n2))
}

/// Whether the statistics are those of the record's tenant and namespace.
pub open spec fn spec_same_key(st: NamespaceStats, record: RecordFrame) -> bool {
    st.tenant_id@ == record.scope.tenant_id@ && st.namespace@ == record.scope.namespace@
}

/// The statistics with one more record counted: by its lifecycle state
/// (anything but archived, deleted or suppressed counts as active), and as
/// pinned when it is.
pub open spec fn spec_count_into(st: NamespaceStats, record: RecordFrame) -> NamespaceStats {
    let q = record.quality_state;
    NamespaceStats {
        active_records: if q == MemoryQualityState::Archived || q == MemoryQualityState::Deleted
            || q == MemoryQualityState::Suppressed {
            st.active_records
        } else {
            (st.active_records + 1) as u64
        },
        archived_records: if q == MemoryQualityState::Archived {
            (st.archived_records + 1) as u64
        } else {
            st.archived_records
        },
        deleted_records: if q == MemoryQualityState::Deleted {
            (st.deleted_records + 1) as u64
        } else {
            st.deleted_records
        },
        suppressed_records: if q == MemoryQualityState::Suppressed {
            (st.suppressed_records + 1) as u64
        } else {
            st.suppressed_records
        },
        pinned_records: if record.scope.trust_level == MemoryTrustLevel::Pinned {
            (st.pinned_records + 1) as u64
        } else {
            st.pinned_records
        },
        ..st
    }
}

/// Empty statistics for the record's tenant and namespace.
pub open spec fn spec_fresh_stats(record: RecordFrame) -> NamespaceStats {
    NamespaceStats {
        tenant_id: record.scope.tenant_id,
        namespace: record.scope.namespace,
        active_records: 0,
        archived_records: 0,
        deleted_records: 0,
        suppressed_records: 0,
        pinned_records: 0,
    }
}

/// The sorted statistics with one more record counted: into the entry of
/// its key, or into a new entry at its place in the order.
pub open spec fn spec_ns_insert(list: Seq<NamespaceStats>, record: RecordFrame) -> Seq<
    NamespaceStats,
>
    decreases list.len(),
{
    if list.len() == 0 {
        seq![spec_count_into(spec_fresh_stats(record), record)]
    } else if spec_same_key(list[0], record) {
        seq![spec_count_into(list[0], record)] + list.drop_first()
    } else if spec_key_less(
        record.scope.tenant_id@,
        record.scope.namespace@,
        list[0].tenant_id@,
        list[0].namespace@,
    ) {
        seq![spec_count_into(spec_fresh_stats(record), record)] + list
    } else {
        seq![list[0]] + spec_ns_insert(list.drop_first(), record)
    }
}

/// The statistics of every tenant and namespace among the records within
/// the filters, sorted by tenant and namespace.
pub open spec fn spec_namespace_stats(
    records: Seq<StoredFrame>,
    tenant_filter: Option<Seq<char>>,
    namespace_filter: Option<Seq<char>>,
) -> Seq<NamespaceStats>
    decreases records.len(),
{
    if records.len() == 0 {
        seq![]
    } else {
        let init = spec_namespace_stats(records.drop_last(), tenant_filter, namespace_filter);
        if spec_in_filters(records.last(), tenant_filter, namespace_filter) {
            spec_ns_insert(init, records.last().record)
        } else {
            init
        }
    }
}

/// Whether the statistics are sorted strictly by key (so no key repeats).
pub open spec fn spec_sorted_stats(list: Seq<NamespaceStats>) -> bool {
    forall|i: int, j: int|
        0 <= i < j < list.len() ==> spec_key_less(
            (#[trigger] list[i]).tenant_id@,
            list[i].namespace@,
            (#[trigger] list[j]).tenant_id@,
            list[j].namespace@,
        )
}

/// Whether no count of any entry exceeds `bound`.
pub open spec fn spec_counts_at_most(list: Seq<NamespaceStats>, bound: nat) -> bool {
    forall|i: int|
        0 <= i < list.len() ==> {
            let e = #[trigger] list[i];
            &&& e.active_records <= bound
            &&& e.archived_records <= bound
            &&& e.deleted_records <= bound
            &&& e.suppressed_records <= bound
            &&& e.pinned_records <= bound
        }
}

proof fn lemma_key_order(t1: Seq<char>, n1: Seq<char>, t2: Seq<char>, n2: Seq<char>)
    ensures
        !spec_key_less(t1, n1, t1, n1),
        !(spec_key_less(t1, n1, t2, n2) && spec_key_less(t2, n2, t1, n1)),
        (t1 == t2 && n1 == n2) || spec_key_less(t1, n1, t2, n2) || spec_key_less(t2, n2, t1, n1),
{
    lemma_text_less_irreflexive(t1);
    lemma_text_less_irreflexive(n1);
    lemma_text_less_asymmetric(t1, t2);
    lemma_text_less_asymmetric(n1, n2);
    lemma_text_less_total(t1, t2);
    lemma_text_less_total(n1, n2);
}

proof fn lemma_key_transitive(
    t1: Seq<char>,
    n1: Seq<char>,
    t2: Seq<char>,
    n2: Seq<char>,
    t3: Seq<char>,
    n3: Seq<char>,
)
    requires
        spec_key_less(t1, n1, t2, n2),
        spec_key_less(t2, n2, t3, n3),
    ensures
        spec_key_less(t1, n1, t3, n3),
{
    lemma_text_less_irreflexive(t1);
    lemma_text_less_irreflexive(t2);
    if spec_text_less(t1, t2) && spec_text_less(t2, t3) {
        lemma_text_less_transitive(t1, t2, t3);
    }
    if t1 == t2 && t2 == t3 {
        lemma_text_less_transitive(n1, n2, n3);
    }
}

/// Counting a record into sorted statistics keeps them sorted, keeps every
/// key that was there, and adds the record's key.
pub proof fn lemma_ns_insert_sorted(list: Seq<NamespaceStats>, record: RecordFrame)
    requires
        spec_sorted_stats(list),
    ensures
        spec_sorted_stats(spec_ns_insert(list, record)),
        forall|i: int|
            0 <= i < spec_ns_insert(list, record).len() ==> (spec_same_key(
                #[trigger] spec_ns_insert(list, record)[i],
                record,
            ) || exists|j: int|
                0 <= j < list.len() && list[j].tenant_id@ == spec_ns_insert(list, record)[i].tenant_id@
                    && list[j].namespace@ == spec_ns_insert(list, record)[i].namespace@),
    decreases list.len(),
{
    let r = spec_ns_insert(list, record);
    let t = record.scope.tenant_id@;
    let n = record.scope.namespace@;
    if list.len() == 0 {
    } else if spec_same_key(list[0], record) {
        assert forall|i: int| 0 <= i < r.len() implies (spec_same_key(#[trigger] r[i], record)
            || exists|j: int|
            0 <= j < list.len() && list[j].tenant_id@ == r[i].tenant_id@ && list[j].namespace@
                == r[i].namespace@) by {
            if i > 0 {
                assert(r[i] == list[i]);
            }
        }
        assert forall|i: int, j: int| 0 <= i < j < r.len() implies spec_key_less(
            (#[trigger] r[i]).tenant_id@,
            r[i].namespace@,
            (#[trigger] r[j]).tenant_id@,
            r[j].namespace@,
        ) by {
            assert(spec_key_less(
                list[i].tenant_id@,
                list[i].namespace@,
                list[j].tenant_id@,
                list[j].namespace@,
            ));
        }
    } else if spec_key_less(t, n, list[0].tenant_id@, list[0].namespace@) {
        assert forall|i: int| 0 <= i < r.len() implies (spec_same_key(#[trigger] r[i], record)
            || exists|j: int|
            0 <= j < list.len() && list[j].tenant_id@ == r[i].tenant_id@ && list[j].namespace@
                == r[i].namespace@) by {
            if i > 0 {
                assert(r[i] == list[i - 1]);
            }
        }
        assert forall|i: int, j: int| 0 <= i < j < r.len() implies spec_key_less(
            (#[trigger] r[i]).tenant_id@,
            r[i].namespace@,
            (#[trigger] r[j]).tenant_id@,
            r[j].namespace@,
        ) by {
            if i == 0 {
                if j > 1 {
                    assert(spec_key_less(
                        list[0].tenant_id@,
                        list[0].namespace@,
                        list[j - 1].tenant_id@,
                        list[j - 1].namespace@,
                    ));
                    lemma_key_transitive(
                        t,
                        n,
                        list[0].tenant_id@,
                        list[0].namespace@,
                        list[j - 1].tenant_id@,
                        list[j - 1].namespace@,
                    );
                }
            } else {
                assert(spec_key_less(
                    list[i - 1].tenant_id@,
                    list[i - 1].namespace@,
                    list[j - 1].tenant_id@,
                    list[j - 1].namespace@,
                ));
            }
        }
    } else {
        let rest = list.drop_first();
        assert forall|i: int, j: int| 0 <= i < j < rest.len() implies spec_key_less(
            (#[trigger] rest[i]).tenant_id@,
            rest[i].namespace@,
            (#[trigger] rest[j]).tenant_id@,
            rest[j].namespace@,
        ) by {
            assert(spec_key_less(
                list[i + 1].tenant_id@,
                list[i + 1].namespace@,
                list[j + 1].tenant_id@,
                list[j + 1].namespace@,
            ));
        }
        lemma_ns_insert_sorted(rest, record);
        let tail = spec_ns_insert(rest, record);
        lemma_key_order(t, n, list[0].tenant_id@, list[0].namespace@);
        assert forall|i: int| 0 <= i < r.len() implies (spec_same_key(#[trigger] r[i], record)
            || exists|j: int|
            0 <= j < list.len() && list[j].tenant_id@ == r[i].tenant_id@ && list[j].namespace@
                == r[i].namespace@) by {
            if i == 0 {
                assert(list[0].tenant_id@ == r[0].tenant_id@);
            } else {
                assert(r[i] == tail[i - 1]);
                if !spec_same_key(tail[i - 1], record) {
                    let j = choose|j: int|
                        0 <= j < rest.len() && rest[j].tenant_id@ == tail[i - 1].tenant_id@
                            && rest[j].namespace@ == tail[i - 1].namespace@;
                    assert(list[j + 1] == rest[j]);
                }
            }
        }
        assert forall|i: int, j: int| 0 <= i < j < r.len() implies spec_key_less(
            (#[trigger] r[i]).tenant_id@,
            r[i].namespace@,
            (#[trigger] r[j]).tenant_id@,
            r[j].namespace@,
        ) by {
            if i == 0 {
                let x = tail[j - 1];
                assert(r[j] == x);
                if spec_same_key(x, record) {
                } else {
                    let k = choose|k: int|
                        0 <= k < rest.len() && rest[k].tenant_id@ == x.tenant_id@
                            && rest[k].namespace@ == x.namespace@;
                    assert(list[k + 1] == rest[k]);
                    assert(spec_key_less(
                        list[0].tenant_id@,
                        list[0].namespace@,
                        list[k + 1].tenant_id@,
                        list[k + 1].namespace@,
                    ));
                }
            } else {
                assert(r[i] == tail[i - 1]);
                assert(r[j] == tail[j - 1]);
            }
        }
    }
}

proof fn lemma_ns_insert_bound(list: Seq<NamespaceStats>, record: RecordFrame, bound: nat)
    requires
        spec_counts_at_most(list, bound),
        bound < u64::MAX,
    ensures
        spec_counts_at_most(spec_ns_insert(list, record), bound + 1),
    decreases list.len(),
{
    let r = spec_ns_insert(list, record);
    if list.len() == 0 {
    } else if spec_same_key(list[0], record) {
        assert forall|i: int| 0 <= i < r.len() implies {
            let e = #[trigger] r[i];
            &&& e.active_records <= bound + 1
            &&& e.archived_records <= bound + 1
            &&& e.deleted_records <= bound + 1
            &&& e.suppressed_records <= bound + 1
            &&& e.pinned_records <= bound + 1
        } by {
            if i > 0 {
                assert(r[i] == list[i]);
            } else {
                assert(list[0] == list[0]);
            }
        }
    } else if spec_key_less(
        record.scope.tenant_id@,
        record.scope.namespace@,
        list[0].tenant_id@,
        list[0].namespace@,
    ) {
        assert forall|i: int| 0 <= i < r.len() implies {
            let e = #[trigger] r[i];
            &&& e.active_records <= bound + 1
            &&& e.archived_records <= bound + 1
            &&& e.deleted_records <= bound + 1
            &&& e.suppressed_records <= bound + 1
            &&& e.pinned_records <= bound + 1
        } by {
            if i > 0 {
                assert(r[i] == list[i - 1]);
            }
        }
    } else {
        let rest = list.drop_first();
        assert(spec_counts_at_most(rest, bound)) by {
            assert forall|i: int| 0 <= i < rest.len() implies {
                let e = #[trigger] rest[i];
                &&& e.active_records <= bound
                &&& e.archived_records <= bound
                &&& e.deleted_records <= bound
                &&& e.suppressed_records <= bound
                &&& e.pinned_records <= bound
            } by {
                assert(rest[i] == list[i + 1]);
            }
        }
        lemma_ns_insert_bound(rest, record, bound);
        let tail = spec_ns_insert(rest, record);
        assert forall|i: int| 0 <= i < r.len() implies {
            let e = #[trigger] r[i];
            &&& e.active_records <= bound + 1
            &&& e.archived_records <= bound + 1
            &&& e.deleted_records <= bound + 1
            &&& e.suppressed_records <= bound + 1
            &&& e.pinned_records <= bound + 1
        } by {
            if i > 0 {
                assert(r[i] == tail[i - 1]);
            } else {
                assert(r[0] == list[0]);
            }
        }
    }
}

fn count_into(st: NamespaceStats, record: &RecordFrame) -> (r: NamespaceStats)
    requires
        st.active_records < u64::MAX,
        st.archived_records < u64::MAX,
        st.deleted_records < u64::MAX,
        st.suppressed_records < u64::MAX,
        st.pinned_records < u64::MAX,
    ensures
        r == spec_count_into(st, *record),
{
    let mut st = st;
    match record.quality_state {
        MemoryQualityState::Archived => {
            st.archived_records = st.archived_records + 1;
        },
        MemoryQualityState::Deleted => {
            st.deleted_records = st.deleted_records + 1;
        },
        MemoryQualityState::Suppressed => {
            st.suppressed_records = st.suppressed_records + 1;
        },
        _ => {
            st.active_records = st.active_records + 1;
        },
    }
    if record.scope.trust_level == MemoryTrustLevel::Pinned {
        st.pinned_records = st.pinned_records + 1;
    }
    st
}

fn fresh_stats(record: &RecordFrame) -> (r: NamespaceStats)
    ensures
        r == spec_fresh_stats(*record),
{
    NamespaceStats {
        tenant_id: record.scope.tenant_id.clone(),
        namespace: record.scope.namespace.clone(),
        active_records: 0,
        archived_records: 0,
        deleted_records: 0,
        suppressed_records: 0,
        pinned_records: 0,
    }
}

fn copy_stats(st: &NamespaceStats) -> (r: NamespaceStats)
    ensures
        r == *st,
{
    NamespaceStats {
        tenant_id: st.tenant_id.clone(),
        namespace: st.namespace.clone(),
        active_records: st.active_records,
        archived_records: st.archived_records,
        deleted_records: st.deleted_records,
        suppressed_records: st.suppressed_records,
        pinned_records: st.pinned_records,
    }
}

/// The place of the record's key among sorted statistics: the first entry
/// that does not sort before it, and whether that entry has its key.
fn find_slot(list: &Vec<NamespaceStats>, record: &RecordFrame) -> (r: (usize, bool))
    ensures
        r.0 <= list@.len(),
        spec_ns_insert(list@, *record) == list@.take(r.0 as int) + spec_ns_insert(
            list@.skip(r.0 as int),
            *record,
        ),
        r.1 <==> (r.0 < list@.len() && spec_same_key(list@[r.0 as int], *record)),
        r.0 < list@.len() && !r.1 ==> spec_key_less(
            record.scope.tenant_id@,
            record.scope.namespace@,
            list@[r.0 as int].tenant_id@,
            list@[r.0 as int].namespace@,
        ),
{
    let n = list.len();
    let mut i: usize = 0;
    assert(list@.take(0) + list@.skip(0) =~= list@);
    assert(list@.take(0) =~= Seq::<NamespaceStats>::empty());
    assert(Seq::<NamespaceStats>::empty() + spec_ns_insert(list@, *record) =~= spec_ns_insert(
        list@,
        *record,
    ));
    assert(list@.skip(0) =~= list@);
    while i < n
        invariant
            n == list@.len(),
            i <= n,
            spec_ns_insert(list@, *record) == list@.take(i as int) + spec_ns_insert(
                list@.skip(i as int),
                *record,
            ),
        decreases n - i,
    {
        let e = &list[i];
        let same = text_eq(e.tenant_id.as_str(), record.scope.tenant_id.as_str()) && text_eq(
            e.namespace.as_str(),
            record.scope.namespace.as_str(),
        );
        if same {
            return (i, true);
        }
        let before = text_less(record.scope.tenant_id.as_str(), e.tenant_id.as_str()) || (text_eq(
            record.scope.tenant_id.as_str(),
            e.tenant_id.as_str(),
        ) && text_less(record.scope.namespace.as_str(), e.namespace.as_str()));
        if before {
            return (i, false);
        }
        proof {
            let rest = list@.skip(i as int);
            assert(rest[0] == list@[i as int]);
            assert(rest.drop_first() =~= list@.skip(i + 1));
            assert(list@.take(i as int) + (seq![list@[i as int]] + spec_ns_insert(
                list@.skip(i + 1),
                *record,
            )) =~= list@.take(i + 1) + spec_ns_insert(list@.skip(i + 1), *record));
        }
        i += 1;
    }
    (i, false)
}

/// Counts a record into statistics kept sorted by tenant and namespace.
fn insert_namespace(list: &mut Vec<NamespaceStats>, record: &RecordFrame, Ghost(bound): Ghost<nat>)
    requires
        spec_counts_at_most(old(list)@, bound),
        bound < u64::MAX,
    ensures
        final(list)@ == spec_ns_insert(old(list)@, *record),
        spec_counts_at_most(final(list)@, bound + 1),
{
    proof {
        lemma_ns_insert_bound(list@, *record, bound);
    }
    let ghost before = list@;
    let (i, same) = find_slot(list, record);
    let n = list.len();
    if i == n {
        let fresh = fresh_stats(record);
        let entry = count_into(fresh, record);
        list.push(entry);
        assert(before.skip(n as int) =~= Seq::<NamespaceStats>::empty());
        assert(before.take(n as int) =~= before);
        assert(list@ =~= spec_ns_insert(before, *record));
    } else if same {
        let current = copy_stats(&list[i]);
        assert(spec_counts_at_most(before, bound));
        assert(before[i as int] == current);
        let entry = count_into(current, record);
        list.set(i, entry);
        let ghost rest = before.skip(i as int);
        assert(rest[0] == before[i as int]);
        assert(rest.drop_first() =~= before.skip(i + 1));
        assert(list@ =~= before.take(i as int) + (seq![entry] + before.skip(i + 1)));
    } else {
        let fresh = fresh_stats(record);
        let entry = count_into(fresh, record);
        list.insert(i, entry);
        let ghost rest = before.skip(i as int);
        assert(rest[0] == before[i as int]);
        assert(list@ =~= before.take(i as int) + (seq![entry] + before.skip(i as int)));
    }
}

/// Being a tombstone within the filters.
pub open spec fn spec_tombstone_within(
    tenant_filter: Option<Seq<char>>,
    namespace_filter: Option<Seq<char>>,
) -> spec_fn(StoredFrame) -> bool {
    |s: StoredFrame|
        spec_in_filters(s, tenant_filter, namespace_filter) && s.record.quality_state
            == MemoryQualityState::Deleted
}

/// Being expired at `now_unix_ms` within the filters.
pub open spec fn spec_expired_within(
    tenant_filter: Option<Seq<char>>,
    namespace_filter: Option<Seq<char>>,
    now_unix_ms: u64,
) -> spec_fn(StoredFrame) -> bool {
    |s: StoredFrame|
        spec_in_filters(s, tenant_filter, namespace_filter) && (
        s.record.expires_at_unix_ms matches Some(t) && t <= now_unix_ms)
}

/// Being in a historical state within the filters.
pub open spec fn spec_historical_within(
    tenant_filter: Option<Seq<char>>,
    namespace_filter: Option<Seq<char>>,
    state: MemoryHistoricalState,
) -> spec_fn(StoredFrame) -> bool {
    |s: StoredFrame|
        spec_in_filters(s, tenant_filter, namespace_filter) && s.record.historical_state == state
}

/// The number of lineage links of the records within the filters.
pub open spec fn spec_lineage_total(
    records: Seq<StoredFrame>,
    tenant_filter: Option<Seq<char>>,
    namespace_filter: Option<Seq<char>>,
) -> nat
    decreases records.len(),
{
    if records.len() == 0 {
        0
    } else {
        spec_lineage_total(records.drop_last(), tenant_filter, namespace_filter) + if spec_in_filters(
            records.last(),
            tenant_filter,
            namespace_filter,
        ) {
            records.last().record.lineage@.len()
        } else {
            0nat
        }
    }
}

proof fn lemma_lineage_prefix(records: Seq<StoredFrame>, i: int, tf: Option<Seq<char>>, nf: Option<Seq<char>>)
    requires
        0 <= i <= records.len(),
    ensures
        spec_lineage_total(records.take(i), tf, nf) <= spec_lineage_total(records, tf, nf),
    decreases records.len() - i,
{
    if i < records.len() {
        lemma_lineage_prefix(records, i + 1, tf, nf);
        let next = records.take(i + 1);
        assert(next.drop_last() =~= records.take(i));
    } else {
        assert(records.take(i) =~= records);
    }
}

/// The statistics of the records within the request's filters: their
/// number, each namespace's counts (sorted by tenant and namespace), and the
/// maintenance counters — duplicate groups and the records beyond the first
/// of each, tombstones, records expired at `now_unix_ms`, stale mappings,
/// historical and superseded records, and lineage links.
pub fn build_stats_report(
    request: &StoreStatsRequest,
    records: &Vec<StoredFrame>,
    mappings: &Vec<IdempotencyMapping>,
    now_unix_ms: u64,
    storage_bytes: u64,
    engine: EngineTuningInfo,
) -> (r: StoreStatsReport)
    requires
        spec_lineage_total(
            records@,
            spec_option_view(request.tenant_id),
            spec_option_view(request.namespace),
        ) <= u64::MAX,
    ensures
        ({
            let tf = spec_option_view(request.tenant_id);
            let nf = spec_option_view(request.namespace);
            let sigs = spec_live_signatures(records@, tf, nf);
            &&& r.generated_at_unix_ms == now_unix_ms
            &&& r.total_records == spec_count(records@, spec_within(tf, nf))
            &&& r.storage_bytes == storage_bytes
            &&& r.namespaces@ == spec_namespace_stats(records@, tf, nf)
            &&& r.maintenance == (MaintenanceStats {
                duplicate_candidate_groups: spec_group_count(sigs) as u64,
                duplicate_candidate_records: spec_repeat_count(sigs) as u64,
                tombstoned_records: spec_count(records@, spec_tombstone_within(tf, nf)) as u64,
                expired_records: spec_count(records@, spec_expired_within(tf, nf, now_unix_ms))
                    as u64,
                stale_idempotency_keys: spec_integrity_summary(
                    records@,
                    mappings@,
                    tf,
                    nf,
                ).stale_idempotency_keys,
                historical_records: spec_count(
                    records@,
                    spec_historical_within(tf, nf, MemoryHistoricalState::Historical),
                ) as u64,
                superseded_records: spec_count(
                    records@,
                    spec_historical_within(tf, nf, MemoryHistoricalState::Superseded),
                ) as u64,
                lineage_links: spec_lineage_total(records@, tf, nf) as u64,
            })
            &&& r.engine == engine
        }),
{
    let tenant_filter = option_as_str(&request.tenant_id);
    let namespace_filter = option_as_str(&request.namespace);
    let ghost tf = spec_option_view(request.tenant_id);
    let ghost nf = spec_option_view(request.namespace);
    let integrity = integrity_summary(records, mappings, tenant_filter, namespace_filter);
    let n = records.len();
    let mut namespaces: Vec<NamespaceStats> = Vec::new();
    let mut signatures: Vec<String> = Vec::new();
    let mut total: u64 = 0;
    let mut groups: u64 = 0;
    let mut repeats: u64 = 0;
    let mut tombstoned: u64 = 0;
    let mut expired: u64 = 0;
    let mut historical: u64 = 0;
    let mut superseded: u64 = 0;
    let mut lineage: u64 = 0;
    let mut i: usize = 0;
    while i < n
        invariant
            tf == spec_str_view(tenant_filter),
            nf == spec_str_view(namespace_filter),
            n == records@.len(),
            i <= n,
            spec_lineage_total(records@, tf, nf) <= u64::MAX,
            namespaces@ == spec_namespace_stats(records@.take(i as int), tf, nf),
            spec_counts_at_most(namespaces@, i as nat),
            signatures@.len() <= i,
            signatures@.map_values(|x: String| x@) == spec_live_signatures(
                records@.take(i as int),
                tf,
                nf,
            ),
            total <= i,
            total == spec_count(records@.take(i as int), spec_within(tf, nf)),
            groups <= signatures@.len(),
            groups == spec_group_count(spec_live_signatures(records@.take(i as int), tf, nf)),
            repeats <= signatures@.len(),
            repeats == spec_repeat_count(spec_live_signatures(records@.take(i as int), tf, nf)),
            tombstoned <= i,
            tombstoned == spec_count(records@.take(i as int), spec_tombstone_within(tf, nf)),
            expired <= i,
            expired == spec_count(
                records@.take(i as int),
                spec_expired_within(tf, nf, now_unix_ms),
            ),
            historical <= i,
            historical == spec_count(
                records@.take(i as int),
                spec_historical_within(tf, nf, MemoryHistoricalState::Historical),
            ),
            superseded <= i,
            superseded == spec_count(
                records@.take(i as int),
                spec_historical_within(tf, nf, MemoryHistoricalState::Superseded),
            ),
            lineage == spec_lineage_total(records@.take(i as int), tf, nf),
        decreases n - i,
    {
        let stored = &records[i];
        proof {
            let next = records@.take(i + 1);
            assert(next.drop_last() =~= records@.take(i as int));
            assert(next.last() == records@[i as int]);
            lemma_count_step(records@, i as int, spec_within(tf, nf));
            lemma_count_step(records@, i as int, spec_tombstone_within(tf, nf));
            lemma_count_step(records@, i as int, spec_expired_within(tf, nf, now_unix_ms));
            lemma_count_step(
                records@,
                i as int,
                spec_historical_within(tf, nf, MemoryHistoricalState::Historical),
            );
            lemma_count_step(
                records@,
                i as int,
                spec_historical_within(tf, nf, MemoryHistoricalState::Superseded),
            );
            lemma_lineage_prefix(records@, i + 1, tf, nf);
        }
        if scope_matches_filters(
            stored.record.scope.tenant_id.as_str(),
            stored.record.scope.namespace.as_str(),
            tenant_filter,
            namespace_filter,
        ) {
            total += 1;
            insert_namespace(&mut namespaces, &stored.record, Ghost(i as nat));
            match stored.record.quality_state {
                MemoryQualityState::Deleted => {
                    tombstoned += 1;
                },
                _ => {},
            }
            match stored.record.expires_at_unix_ms {
                Some(t) => {
                    if t <= now_unix_ms {
                        expired += 1;
                    }
                },
                None => {},
            }
            match stored.record.historical_state {
                MemoryHistoricalState::Historical => {
                    historical += 1;
                },
                MemoryHistoricalState::Superseded => {
                    superseded += 1;
                },
                _ => {},
            }
            lineage = lineage + stored.record.lineage.len() as u64;
            let live = match stored.record.quality_state {
                MemoryQualityState::Archived | MemoryQualityState::Deleted
                | MemoryQualityState::Suppressed => false,
                _ => true,
            };
            if live {
                let ghost before = signatures@.map_values(|x: String| x@);
                let sig = dedup_signature(&stored.record);
                let seen = list_contains(&signatures, sig.as_str());
                let occurrences = count_text(&signatures, sig.as_str());
                proof {
                    if seen {
                        let j = choose|j: int|
                            0 <= j < signatures@.len() && #[trigger] signatures@[j]@ == sig@;
                        assert(before[j] == sig@);
                    }
                    if before.contains(sig@) {
                        let j = choose|j: int| 0 <= j < before.len() && before[j] == sig@;
                        assert(signatures@[j]@ == sig@);
                    }
                    assert(before.push(sig@).drop_last() =~= before);
                    assert(before.push(sig@).last() == sig@);
                }
                if seen {
                    repeats += 1;
                }
                if occurrences == 1 {
                    groups += 1;
                }
                signatures.push(sig);
                assert(signatures@.map_values(|x: String| x@) =~= before.push(sig@));
            }
        }
        proof {
            assert(spec_counts_at_most(namespaces@, (i + 1) as nat)) by {
                assert forall|k: int| 0 <= k < namespaces@.len() implies {
                    let e = #[trigger] namespaces@[k];
                    &&& e.active_records <= i + 1
                    &&& e.archived_records <= i + 1
                    &&& e.deleted_records <= i + 1
                    &&& e.suppressed_records <= i + 1
                    &&& e.pinned_records <= i + 1
                } by {
                    let e = namespaces@[k];
                    assert(e.active_records <= i + 1);
                }
            }
        }
        i += 1;
    }
    assert(records@.take(n as int) =~= records@);
    StoreStatsReport {
        generated_at_unix_ms: now_unix_ms,
        total_records: total,
        storage_bytes,
        namespaces,
        maintenance: MaintenanceStats {
            duplicate_candidate_groups: groups,
            duplicate_candidate_records: repeats,
            tombstoned_records: tombstoned,
            expired_records: expired,
            stale_idempotency_keys: integrity.stale_idempotency_keys,
            historical_records: historical,
            superseded_records: superseded,
            lineage_links: lineage,
        },
        engine,
    }
}

/// How many of the texts equal `s`.
fn count_text(items: &Vec<String>, s: &str) -> (r: usize)
    ensures
        r == spec_occurrences(items@.map_values(|x: String| x@), s@),
{
    let n = items.len();
    let mut count: usize = 0;
    let mut i: usize = 0;
    while i < n
        invariant
            n == items@.len(),
            i <= n,
            count <= i,
            count == spec_occurrences(items@.take(i as int).map_values(|x: String| x@), s@),
        decreases n - i,
    {
        proof {
            let next = items@.take(i + 1).map_values(|x: String| x@);
            assert(next.drop_last() =~= items@.take(i as int).map_values(|x: String| x@));
            assert(next.last() == items@[i as int]@);
        }
        if text_eq(items[i].as_str(), s) {
            count += 1;
        }
        i += 1;
    }
    assert(items@.take(n as int) =~= items@);
    count
}

/// The namespaces of a statistics report are sorted strictly by tenant and
/// namespace: each tenant and namespace appears once.
pub proof fn lemma_namespace_stats_sorted(
    records: Seq<StoredFrame>,
    tenant_filter: Option<Seq<char>>,
    namespace_filter: Option<Seq<char>>,
)
    ensures
        spec_sorted_stats(spec_namespace_stats(records, tenant_filter, namespace_filter)),
    decreases records.len(),
{
    if records.len() > 0 {
        lemma_namespace_stats_sorted(records.drop_last(), tenant_filter, namespace_filter);
        if spec_in_filters(records.last(), tenant_filter, namespace_filter) {
            lemma_ns_insert_sorted(
                spec_namespace_stats(records.drop_last(), tenant_filter, namespace_filter),
                records.last().record,
            );
        }
    }
}

// ----- laws of the namespace statistics -----

/// The records within the filters that have this tenant and namespace and
/// meet `p`.
pub open spec fn spec_keyed(
    tenant_filter: Option<Seq<char>>,
    namespace_filter: Option<Seq<char>>,
    tenant_id: Seq<char>,
    namespace: Seq<char>,
    p: spec_fn(RecordFrame) -> bool,
) -> spec_fn(StoredFrame) -> bool {
    |s: StoredFrame|
        spec_in_filters(s, tenant_filter, namespace_filter) && s.record.scope.tenant_id@ == tenant_id
            && s.record.scope.namespace@ == namespace && p(s.record)
}

/// Any record.
pub open spec fn spec_any_record() -> spec_fn(RecordFrame) -> bool {
    |r: RecordFrame| true
}

/// A record in the given lifecycle state.
pub open spec fn spec_in_state(q: MemoryQualityState) -> spec_fn(RecordFrame) -> bool {
    |r: RecordFrame| r.quality_state == q
}

/// A record that is neither archived, deleted nor suppressed.
pub open spec fn spec_counted_active() -> spec_fn(RecordFrame) -> bool {
    |r: RecordFrame|
        r.quality_state != MemoryQualityState::Archived && r.quality_state
            != MemoryQualityState::Deleted && r.quality_state != MemoryQualityState::Suppressed
}

/// A pinned record.
pub open spec fn spec_pinned_record() -> spec_fn(RecordFrame) -> bool {
    |r: RecordFrame| r.scope.trust_level == MemoryTrustLevel::Pinned
}

/// Whether the entry's counts are those of the records within the filters
/// that have its tenant and namespace.
pub open spec fn spec_counts_match(
    e: NamespaceStats,
    records: Seq<StoredFrame>,
    tenant_filter: Option<Seq<char>>,
    namespace_filter: Option<Seq<char>>,
) -> bool {
    let t = e.tenant_id@;
    let n = e.namespace@;
    &&& e.active_records == spec_count(records, spec_keyed(tenant_filter, namespace_filter, t, n, spec_counted_active()))
    &&& e.archived_records == spec_count(records, spec_keyed(tenant_filter, namespace_filter, t, n, spec_in_state(MemoryQualityState::Archived)))
    &&& e.deleted_records == spec_count(records, spec_keyed(tenant_filter, namespace_filter, t, n, spec_in_state(MemoryQualityState::Deleted)))
    &&& e.suppressed_records == spec_count(records, spec_keyed(tenant_filter, namespace_filter, t, n, spec_in_state(MemoryQualityState::Suppressed)))
    &&& e.pinned_records == spec_count(records, spec_keyed(tenant_filter, namespace_filter, t, n, spec_pinned_record()))
}

proof fn lemma_count_zero_implies<A>(s: Seq<A>, p: spec_fn(A) -> bool, q: spec_fn(A) -> bool)
    requires
        spec_count(s, p) == 0,
        forall|x: A| #[trigger] q(x) ==> p(x),
    ensures
        spec_count(s, q) == 0,
    decreases s.len(),
{
    if s.len() > 0 {
        lemma_count_zero_implies(s.drop_last(), p, q);
    }
}

proof fn lemma_ns_insert_entries(list: Seq<NamespaceStats>, record: RecordFrame)
    requires
        spec_sorted_stats(list),
    ensures
        forall|i: int|
            0 <= i < spec_ns_insert(list, record).len() && spec_same_key(
                #[trigger] spec_ns_insert(list, record)[i],
                record,
            ) ==> (exists|j: int|
                0 <= j < list.len() && spec_same_key(list[j], record) && spec_ns_insert(list, record)[i]
                    == spec_count_into(#[trigger] list[j], record)) || ((forall|j: int|
                0 <= j < list.len() ==> !spec_same_key(#[trigger] list[j], record))
                && spec_ns_insert(list, record)[i] == spec_count_into(spec_fresh_stats(record), record)),
        forall|i: int|
            0 <= i < spec_ns_insert(list, record).len() && !spec_same_key(
                #[trigger] spec_ns_insert(list, record)[i],
                record,
            ) ==> exists|j: int| 0 <= j < list.len() && spec_ns_insert(list, record)[i] == #[trigger] list[j],
        exists|i: int|
            0 <= i < spec_ns_insert(list, record).len() && spec_same_key(
                #[trigger] spec_ns_insert(list, record)[i],
                record,
            ),
        forall|j: int|
            0 <= j < list.len() ==> exists|i: int|
                0 <= i < spec_ns_insert(list, record).len() && (#[trigger] spec_ns_insert(
                    list,
                    record,
                )[i]).tenant_id@ == (#[trigger] list[j]).tenant_id@ && spec_ns_insert(list, record)[i].namespace@
                    == list[j].namespace@,
    decreases list.len(),
{
    let r = spec_ns_insert(list, record);
    let t = record.scope.tenant_id@;
    let n = record.scope.namespace@;
    if list.len() == 0 {
        assert(spec_same_key(r[0], record));
    } else if spec_same_key(list[0], record) {
        assert(spec_same_key(r[0], record));
        assert forall|i: int| 0 < i < r.len() implies !spec_same_key(#[trigger] r[i], record) && r[i] == list[i] by {
            assert(r[i] == list[i]);
            assert(spec_key_less(list[0].tenant_id@, list[0].namespace@, list[i].tenant_id@, list[i].namespace@));
            lemma_key_order(t, n, t, n);
        }
        assert forall|i: int|
            0 <= i < r.len() && spec_same_key(#[trigger] r[i], record) implies (exists|j: int|
                0 <= j < list.len() && spec_same_key(list[j], record) && r[i] == spec_count_into(
                    #[trigger] list[j],
                    record,
                )) by {
            if i == 0 {
                assert(r[0] == spec_count_into(list[0], record));
            }
        }
        assert forall|i: int|
            0 <= i < r.len() && !spec_same_key(#[trigger] r[i], record) implies exists|j: int|
                0 <= j < list.len() && r[i] == #[trigger] list[j] by {
            assert(r[i] == list[i]);
        }
        assert forall|j: int| 0 <= j < list.len() implies exists|i: int|
            0 <= i < r.len() && (#[trigger] r[i]).tenant_id@ == (#[trigger] list[j]).tenant_id@
                && r[i].namespace@ == list[j].namespace@ by {
            if j == 0 {
                assert(r[0].tenant_id@ == list[0].tenant_id@);
            } else {
                assert(r[j] == list[j]);
            }
        }
    } else if spec_key_less(t, n, list[0].tenant_id@, list[0].namespace@) {
        assert forall|j: int| 0 <= j < list.len() implies !spec_same_key(#[trigger] list[j], record) by {
            lemma_key_order(t, n, t, n);
            if j > 0 {
                assert(spec_key_less(list[0].tenant_id@, list[0].namespace@, list[j].tenant_id@, list[j].namespace@));
                lemma_key_transitive(t, n, list[0].tenant_id@, list[0].namespace@, list[j].tenant_id@, list[j].namespace@);
            }
        }
        assert(spec_same_key(r[0], record));
        assert forall|i: int| 0 < i < r.len() implies r[i] == list[i - 1] by {}
        assert forall|i: int|
            0 <= i < r.len() && spec_same_key(#[trigger] r[i], record) implies (forall|j: int|
                0 <= j < list.len() ==> !spec_same_key(#[trigger] list[j], record)) && r[i]
                == spec_count_into(spec_fresh_stats(record), record) by {
            if i > 0 {
                assert(!spec_same_key(list[i - 1], record));
            }
        }
        assert forall|i: int|
            0 <= i < r.len() && !spec_same_key(#[trigger] r[i], record) implies exists|j: int|
                0 <= j < list.len() && r[i] == #[trigger] list[j] by {
            assert(r[i] == list[i - 1]);
        }
        assert forall|j: int| 0 <= j < list.len() implies exists|i: int|
            0 <= i < r.len() && (#[trigger] r[i]).tenant_id@ == (#[trigger] list[j]).tenant_id@
                && r[i].namespace@ == list[j].namespace@ by {
            assert(r[j + 1] == list[j]);
        }
    } else {
        let rest = list.drop_first();
        assert forall|i: int, j: int| 0 <= i < j < rest.len() implies spec_key_less(
            (#[trigger] rest[i]).tenant_id@,
            rest[i].namespace@,
            (#[trigger] rest[j]).tenant_id@,
            rest[j].namespace@,
        ) by {
            assert(spec_key_less(
                list[i + 1].tenant_id@,
                list[i + 1].namespace@,
                list[j + 1].tenant_id@,
                list[j + 1].namespace@,
            ));
        }
        lemma_ns_insert_entries(rest, record);
        let tail = spec_ns_insert(rest, record);
        assert(r == seq![list[0]] + tail);
        assert forall|i: int| 0 < i < r.len() implies r[i] == tail[i - 1] by {}
        assert(!spec_same_key(r[0], record));
        assert forall|i: int|
            0 <= i < r.len() && spec_same_key(#[trigger] r[i], record) implies (exists|j: int|
                0 <= j < list.len() && spec_same_key(list[j], record) && r[i] == spec_count_into(
                    #[trigger] list[j],
                    record,
                )) || ((forall|j: int| 0 <= j < list.len() ==> !spec_same_key(#[trigger] list[j], record))
                && r[i] == spec_count_into(spec_fresh_stats(record), record)) by {
            assert(spec_same_key(tail[i - 1], record));
            if exists|j: int|
                0 <= j < rest.len() && spec_same_key(rest[j], record) && tail[i - 1] == spec_count_into(
                    #[trigger] rest[j],
                    record,
                ) {
                let j = choose|j: int|
                    0 <= j < rest.len() && spec_same_key(rest[j], record) && tail[i - 1]
                        == spec_count_into(#[trigger] rest[j], record);
                assert(list[j + 1] == rest[j]);
            } else {
                assert forall|j: int| 0 <= j < list.len() implies !spec_same_key(#[trigger] list[j], record) by {
                    if j > 0 {
                        assert(list[j] == rest[j - 1]);
                    }
                }
            }
        }
        assert forall|i: int|
            0 <= i < r.len() && !spec_same_key(#[trigger] r[i], record) implies exists|j: int|
                0 <= j < list.len() && r[i] == #[trigger] list[j] by {
            if i == 0 {
                assert(r[0] == list[0]);
            } else {
                assert(!spec_same_key(tail[i - 1], record));
                let j = choose|j: int| 0 <= j < rest.len() && tail[i - 1] == #[trigger] rest[j];
                assert(list[j + 1] == rest[j]);
            }
        }
        let w = choose|i: int| 0 <= i < tail.len() && spec_same_key(#[trigger] tail[i], record);
        assert(r[w + 1] == tail[w]);
        assert forall|j: int| 0 <= j < list.len() implies exists|i: int|
            0 <= i < r.len() && (#[trigger] r[i]).tenant_id@ == (#[trigger] list[j]).tenant_id@
                && r[i].namespace@ == list[j].namespace@ by {
            if j == 0 {
                assert(r[0] == list[0]);
            } else {
                assert(list[j] == rest[j - 1]);
                let i = choose|i: int|
                    0 <= i < tail.len() && (#[trigger] tail[i]).tenant_id@ == (#[trigger] rest[j - 1]).tenant_id@
                        && tail[i].namespace@ == rest[j - 1].namespace@;
                assert(r[i + 1] == tail[i]);
            }
        }
    }
}

proof fn lemma_tally_step(
    records: Seq<StoredFrame>,
    tenant_filter: Option<Seq<char>>,
    namespace_filter: Option<Seq<char>>,
    t: Seq<char>,
    n: Seq<char>,
    p: spec_fn(RecordFrame) -> bool,
)
    requires
        records.len() > 0,
    ensures
        spec_count(records, spec_keyed(tenant_filter, namespace_filter, t, n, p)) == spec_count(
            records.drop_last(),
            spec_keyed(tenant_filter, namespace_filter, t, n, p),
        ) + if spec_keyed(tenant_filter, namespace_filter, t, n, p)(records.last()) {
            1nat
        } else {
            0nat
        },
        spec_count(records.drop_last(), spec_keyed(tenant_filter, namespace_filter, t, n, p)) < records.len(),
{
    crate::maintenance::lemma_count_bounded(records.drop_last(), spec_keyed(tenant_filter, namespace_filter, t, n, p));
}

proof fn lemma_tallies_step(
    records: Seq<StoredFrame>,
    tenant_filter: Option<Seq<char>>,
    namespace_filter: Option<Seq<char>>,
    t: Seq<char>,
    n: Seq<char>,
)
    requires
        records.len() > 0,
    ensures
        ({
            let init = records.drop_last();
            let last = records.last();
            let step = |p: spec_fn(RecordFrame) -> bool|
                spec_count(records, spec_keyed(tenant_filter, namespace_filter, t, n, p)) == spec_count(
                    init,
                    spec_keyed(tenant_filter, namespace_filter, t, n, p),
                ) + (if spec_keyed(tenant_filter, namespace_filter, t, n, p)(last) {
                    1nat
                } else {
                    0nat
                }) && spec_count(init, spec_keyed(tenant_filter, namespace_filter, t, n, p)) < records.len();
            &&& step(spec_any_record())
            &&& step(spec_counted_active())
            &&& step(spec_in_state(MemoryQualityState::Archived))
            &&& step(spec_in_state(MemoryQualityState::Deleted))
            &&& step(spec_in_state(MemoryQualityState::Suppressed))
            &&& step(spec_pinned_record())
        }),
{
    lemma_tally_step(records, tenant_filter, namespace_filter, t, n, spec_any_record());
    lemma_tally_step(records, tenant_filter, namespace_filter, t, n, spec_counted_active());
    lemma_tally_step(records, tenant_filter, namespace_filter, t, n, spec_in_state(MemoryQualityState::Archived));
    lemma_tally_step(records, tenant_filter, namespace_filter, t, n, spec_in_state(MemoryQualityState::Deleted));
    lemma_tally_step(records, tenant_filter, namespace_filter, t, n, spec_in_state(MemoryQualityState::Suppressed));
    lemma_tally_step(records, tenant_filter, namespace_filter, t, n, spec_pinned_record());
}

proof fn lemma_no_tally_no_counts(
    records: Seq<StoredFrame>,
    tenant_filter: Option<Seq<char>>,
    namespace_filter: Option<Seq<char>>,
    t: Seq<char>,
    n: Seq<char>,
)
    requires
        spec_count(records, spec_keyed(tenant_filter, namespace_filter, t, n, spec_any_record())) == 0,
    ensures
        spec_count(records, spec_keyed(tenant_filter, namespace_filter, t, n, spec_counted_active())) == 0,
        spec_count(records, spec_keyed(tenant_filter, namespace_filter, t, n, spec_in_state(MemoryQualityState::Archived))) == 0,
        spec_count(records, spec_keyed(tenant_filter, namespace_filter, t, n, spec_in_state(MemoryQualityState::Deleted))) == 0,
        spec_count(records, spec_keyed(tenant_filter, namespace_filter, t, n, spec_in_state(MemoryQualityState::Suppressed))) == 0,
        spec_count(records, spec_keyed(tenant_filter, namespace_filter, t, n, spec_pinned_record())) == 0,
{
    let any = spec_keyed(tenant_filter, namespace_filter, t, n, spec_any_record());
    lemma_count_zero_implies(records, any, spec_keyed(tenant_filter, namespace_filter, t, n, spec_counted_active()));
    lemma_count_zero_implies(records, any, spec_keyed(tenant_filter, namespace_filter, t, n, spec_in_state(MemoryQualityState::Archived)));
    lemma_count_zero_implies(records, any, spec_keyed(tenant_filter, namespace_filter, t, n, spec_in_state(MemoryQualityState::Deleted)));
    lemma_count_zero_implies(records, any, spec_keyed(tenant_filter, namespace_filter, t, n, spec_in_state(MemoryQualityState::Suppressed)));
    lemma_count_zero_implies(records, any, spec_keyed(tenant_filter, namespace_filter, t, n, spec_pinned_record()));
}

/// The statistics count what they say: each namespace entry reports, among
/// the records within the filters of its tenant and namespace, how many
/// are suppressed, archived and deleted, how many are none of these (the
/// active ones, so a suppressed record never counts as active), and how
/// many are pinned; and every tenant and namespace that has records within
/// the filters has an entry.
pub proof fn lemma_namespace_stats_count_records(
    records: Seq<StoredFrame>,
    tenant_filter: Option<Seq<char>>,
    namespace_filter: Option<Seq<char>>,
)
    requires
        records.len() <= u64::MAX,
    ensures
        forall|k: int|
            0 <= k < spec_namespace_stats(records, tenant_filter, namespace_filter).len()
                ==> spec_counts_match(
                #[trigger] spec_namespace_stats(records, tenant_filter, namespace_filter)[k],
                records,
                tenant_filter,
                namespace_filter,
            ),
        forall|t: Seq<char>, n: Seq<char>|
            #[trigger] spec_count(records, spec_keyed(tenant_filter, namespace_filter, t, n, spec_any_record())) > 0
                ==> exists|k: int|
                0 <= k < spec_namespace_stats(records, tenant_filter, namespace_filter).len()
                    && (#[trigger] spec_namespace_stats(records, tenant_filter, namespace_filter)[k]).tenant_id@
                    == t && spec_namespace_stats(records, tenant_filter, namespace_filter)[k].namespace@ == n,
    decreases records.len(),
{
    let tf = tenant_filter;
    let nf = namespace_filter;
    let st = spec_namespace_stats(records, tf, nf);
    if records.len() == 0 {
        assert forall|t: Seq<char>, n: Seq<char>|
            #[trigger] spec_count(records, spec_keyed(tf, nf, t, n, spec_any_record())) > 0
                implies exists|k: int| 0 <= k < st.len() && (#[trigger] st[k]).tenant_id@ == t && st[k].namespace@ == n by {}
    } else {
        let init = records.drop_last();
        let last = records.last();
        let old = spec_namespace_stats(init, tf, nf);
        lemma_namespace_stats_count_records(init, tf, nf);
        lemma_namespace_stats_sorted(init, tf, nf);
        if !spec_in_filters(last, tf, nf) {
            assert(st == old);
            assert forall|k: int| 0 <= k < st.len() implies spec_counts_match(#[trigger] st[k], records, tf, nf) by {
                assert(spec_counts_match(old[k], init, tf, nf));
                lemma_tallies_step(records, tf, nf, st[k].tenant_id@, st[k].namespace@);
            }
            assert forall|t: Seq<char>, n: Seq<char>|
                #[trigger] spec_count(records, spec_keyed(tf, nf, t, n, spec_any_record())) > 0
                    implies exists|k: int| 0 <= k < st.len() && (#[trigger] st[k]).tenant_id@ == t && st[k].namespace@ == n by {
                lemma_tallies_step(records, tf, nf, t, n);
                assert(spec_count(init, spec_keyed(tf, nf, t, n, spec_any_record())) > 0);
            }
        } else {
            let r = last.record;
            assert(st == spec_ns_insert(old, r));
            lemma_ns_insert_entries(old, r);
            assert forall|k: int| 0 <= k < st.len() implies spec_counts_match(#[trigger] st[k], records, tf, nf) by {
                let t = st[k].tenant_id@;
                let n = st[k].namespace@;
                lemma_tallies_step(records, tf, nf, t, n);
                if spec_same_key(st[k], r) {
                    if exists|j: int|
                        0 <= j < old.len() && spec_same_key(old[j], r) && st[k] == spec_count_into(
                            #[trigger] old[j],
                            r,
                        ) {
                        let j = choose|j: int|
                            0 <= j < old.len() && spec_same_key(old[j], r) && st[k] == spec_count_into(
                                #[trigger] old[j],
                                r,
                            );
                        assert(spec_counts_match(old[j], init, tf, nf));
                    } else {
                        assert(forall|j: int| 0 <= j < old.len() ==> !spec_same_key(#[trigger] old[j], r));
                        assert(spec_count(init, spec_keyed(tf, nf, t, n, spec_any_record())) == 0) by {
                            if spec_count(init, spec_keyed(tf, nf, t, n, spec_any_record())) > 0 {
                                let j = choose|j: int|
                                    0 <= j < old.len() && (#[trigger] old[j]).tenant_id@ == t && old[j].namespace@ == n;
                                assert(spec_same_key(old[j], r));
                            }
                        }
                        lemma_no_tally_no_counts(init, tf, nf, t, n);
                    }
                } else {
                    let j = choose|j: int| 0 <= j < old.len() && st[k] == #[trigger] old[j];
                    assert(spec_counts_match(old[j], init, tf, nf));
                }
            }
            let w = choose|i: int| 0 <= i < st.len() && spec_same_key(#[trigger] st[i], r);
            assert forall|t: Seq<char>, n: Seq<char>|
                #[trigger] spec_count(records, spec_keyed(tf, nf, t, n, spec_any_record())) > 0
                    implies exists|k: int| 0 <= k < st.len() && (#[trigger] st[k]).tenant_id@ == t && st[k].namespace@ == n by {
                lemma_tallies_step(records, tf, nf, t, n);
                if t == r.scope.tenant_id@ && n == r.scope.namespace@ {
                    assert(st[w].tenant_id@ == t && st[w].namespace@ == n);
                } else {
                    assert(spec_count(init, spec_keyed(tf, nf, t, n, spec_any_record())) > 0);
                    let j = choose|j: int| 0 <= j < old.len() && (#[trigger] old[j]).tenant_id@ == t && old[j].namespace@ == n;
                    let i = choose|i: int|
                        0 <= i < st.len() && (#[trigger] st[i]).tenant_id@ == (#[trigger] old[j]).tenant_id@
                            && st[i].namespace@ == old[j].namespace@;
                    assert(st[i].tenant_id@ == t && st[i].namespace@ == n);
                }
            }
        }
    }
}

} // verus!
