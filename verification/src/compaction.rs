//! Compaction of a tenant: live records that duplicate one another are
//! grouped; within a group the most recent (then most important) record
//! stands, the others are archived as superseded, large groups are rolled up
//! into a summary record, and old unimportant records are archived.

use vstd::prelude::*;
use std::hash::{Hash, Hasher};
use crate::maintenance::{
    dedup_signature, lemma_count_step, spec_count, spec_dedup_signature, spec_positions,
    StoredFrame,
};
use crate::model::{MemoryQualityState, MemoryTrustLevel, RecordFrame};
use crate::query::{CompactionReport, CompactionRequest};
use crate::keys::spec_option_view;
use crate::error::{Error, ErrorKind};
use crate::store::spec_is_live;
use crate::retention::{days_ms, lemma_index_positions, spec_days_ms, spec_index_positions, spec_retainable};
use crate::keys::spec_hex_digit;
use crate::keys::nibble_to_hex;
use crate::text::{
    decimal_string, is_blank, list_contains, spec_decimal, spec_is_blank,
    lemma_text_less_asymmetric, lemma_text_less_irreflexive, lemma_text_less_total,
    lemma_text_less_transitive, push_char, spec_text_less, text_eq, text_less,
};

verus! {

/// The hash `std::collections::hash_map::DefaultHasher` (created with `new`)
/// gives a text.
pub uninterp spec fn spec_default_hash(text: Seq<char>) -> u64;

/// Calls `DefaultHasher::new`, feeds it the text through `Hash for str`, and
/// returns `finish`: the hash is a function of the text alone, as the hasher
/// is created with fixed keys.
#[verifier::external_body]
fn default_hash(text: &str) -> (r: u64)
    ensures
        r == spec_default_hash(text@),
{
    let mut hasher = std::collections::hash_map::DefaultHasher::new();
    text.hash(&mut hasher);
    hasher.finish()
}

/// The last `count` hexadecimal digits of `n`, zero-padded, lower case.
pub open spec fn spec_hex_digits(n: u64, count: nat) -> Seq<char>
    decreases count,
{
    if count == 0 {
        seq![]
    } else {
        spec_hex_digits(n / 16, (count - 1) as nat).push(spec_hex_digit((n % 16) as u8))
    }
}

fn hex_digits(n: u64, count: u32) -> (r: String)
    ensures
        r@ == spec_hex_digits(n, count as nat),
    decreases count,
{
    if count == 0 {
        String::new()
    } else {
        let mut out = hex_digits(n / 16, count - 1);
        push_char(&mut out, nibble_to_hex((n % 16) as u8));
        out
    }
}

/// The id of the summary record a group with this signature rolls up into.
pub open spec fn spec_summary_record_id(signature: Seq<char>) -> Seq<char> {
    "compacted-summary-"@ + spec_hex_digits(spec_default_hash(signature), 16)
}

/// The id of the summary record a group with this signature rolls up into.
pub fn summary_record_id(signature: &str) -> (r: String)
    ensures
        r@ == spec_summary_record_id(signature@),
{
    let hash = default_hash(signature);
    let digits = hex_digits(hash, 16);
    let mut out = String::from_str("compacted-summary-");
    out.append(digits.as_str());
    out
}

/// Whether record `a` (at position `i`) stands before record `b` (at
/// position `j`) in its group: updated later, then more important, then the
/// smaller id, then earlier in the list.
pub open spec fn spec_stands_before(a: RecordFrame, i: int, b: RecordFrame, j: int) -> bool {
    if a.updated_at_unix_ms != b.updated_at_unix_ms {
        a.updated_at_unix_ms > b.updated_at_unix_ms
    } else if a.importance_key != b.importance_key {
        a.importance_key > b.importance_key
    } else if a.id@ != b.id@ {
        spec_text_less(a.id@, b.id@)
    } else {
        i < j
    }
}

proof fn lemma_stands_before_order(a: RecordFrame, i: int, b: RecordFrame, j: int, c: RecordFrame, k: int)
    ensures
        !spec_stands_before(a, i, a, i),
        i != j ==> (spec_stands_before(a, i, b, j) || spec_stands_before(b, j, a, i)),
        !(spec_stands_before(a, i, b, j) && spec_stands_before(b, j, a, i)),
        spec_stands_before(a, i, b, j) && spec_stands_before(b, j, c, k) ==> spec_stands_before(
            a,
            i,
            c,
            k,
        ),
{
    lemma_text_less_irreflexive(a.id@);
    lemma_text_less_total(a.id@, b.id@);
    lemma_text_less_asymmetric(a.id@, b.id@);
    lemma_text_less_irreflexive(b.id@);
    lemma_text_less_irreflexive(c.id@);
    lemma_text_less_total(b.id@, c.id@);
    lemma_text_less_total(a.id@, c.id@);
    lemma_text_less_asymmetric(a.id@, c.id@);
    lemma_text_less_asymmetric(b.id@, c.id@);
    if spec_text_less(a.id@, b.id@) && spec_text_less(b.id@, c.id@) {
        lemma_text_less_transitive(a.id@, b.id@, c.id@);
    }
}

fn stands_before(a: &RecordFrame, i: usize, b: &RecordFrame, j: usize) -> (r: bool)
    ensures
        r == spec_stands_before(*a, i as int, *b, j as int),
{
    if a.updated_at_unix_ms != b.updated_at_unix_ms {
        a.updated_at_unix_ms > b.updated_at_unix_ms
    } else if a.importance_key != b.importance_key {
        a.importance_key > b.importance_key
    } else if !text_eq(a.id.as_str(), b.id.as_str()) {
        text_less(a.id.as_str(), b.id.as_str())
    } else {
        i < j
    }
}

/// Taking part in compaction: the tenant's, within the namespace when one
/// is named, and live.
pub open spec fn spec_compactable(tenant_id: Seq<char>, namespace: Option<Seq<char>>) -> spec_fn(
    StoredFrame,
) -> bool {
    |s: StoredFrame|
        s.record.scope.tenant_id@ == tenant_id && (match namespace {
            Some(n) => s.record.scope.namespace@ == n,
            None => true,
        }) && spec_is_live(s.record.quality_state)
}

/// Whether the record at `j` is in the group of the record at `i`.
pub open spec fn spec_same_group(
    records: Seq<StoredFrame>,
    eligible: spec_fn(StoredFrame) -> bool,
    i: int,
    j: int,
) -> bool {
    eligible(records[j]) && spec_dedup_signature(records[j].record) == spec_dedup_signature(
        records[i].record,
    )
}

/// Whether the record at `i` is a duplicate: another record of its group
/// stands before it.
pub open spec fn spec_is_duplicate(
    records: Seq<StoredFrame>,
    eligible: spec_fn(StoredFrame) -> bool,
) -> spec_fn(int) -> bool {
    |i: int|
        eligible(records[i]) && exists|j: int|
            0 <= j < records.len() && spec_same_group(records, eligible, i, j)
                && #[trigger] spec_stands_before(records[j].record, j, records[i].record, i)
}

/// The size of the group of the record at `i` among the first `k` records.
pub open spec fn spec_group_size(
    records: Seq<StoredFrame>,
    eligible: spec_fn(StoredFrame) -> bool,
    i: int,
    k: int,
) -> nat
    decreases k,
{
    if k <= 0 {
        0
    } else {
        spec_group_size(records, eligible, i, k - 1) + if spec_same_group(
            records,
            eligible,
            i,
            k - 1,
        ) {
            1nat
        } else {
            0nat
        }
    }
}

/// Whether the record at `i` stands first in a group that is rolled up
/// into a summary: the group has two or more records and at least
/// `summarize_after` (when that is set).
pub open spec fn spec_is_summarized(
    records: Seq<StoredFrame>,
    eligible: spec_fn(StoredFrame) -> bool,
    summarize_after: usize,
) -> spec_fn(int) -> bool {
    |i: int|
        eligible(records[i]) && !spec_is_duplicate(records, eligible)(i) && spec_group_size(
            records,
            eligible,
            i,
            records.len() as int,
        ) >= 2 && summarize_after > 0 && spec_group_size(records, eligible, i, records.len() as int)
            >= summarize_after
}

/// The number of positions below `n` that satisfy `p`.
pub open spec fn spec_index_count(n: int, p: spec_fn(int) -> bool) -> nat
    decreases n,
{
    if n <= 0 {
        0
    } else {
        spec_index_count(n - 1, p) + if p(n - 1) {
            1nat
        } else {
            0nat
        }
    }
}

/// The records rolled up into summaries among the first `k`: the sizes of
/// the summarized groups added up.
pub open spec fn spec_summarized_members(
    records: Seq<StoredFrame>,
    eligible: spec_fn(StoredFrame) -> bool,
    summarize_after: usize,
    k: int,
) -> nat
    decreases k,
{
    if k <= 0 {
        0
    } else {
        spec_summarized_members(records, eligible, summarize_after, k - 1) + if spec_is_summarized(
            records,
            eligible,
            summarize_after,
        )(k - 1) {
            spec_group_size(records, eligible, k - 1, records.len() as int)
        } else {
            0nat
        }
    }
}

/// Whether a summary rolled up in this compaction has the id `id`.
pub open spec fn spec_is_summary_id(
    records: Seq<StoredFrame>,
    eligible: spec_fn(StoredFrame) -> bool,
    summarize_after: usize,
    id: Seq<char>,
) -> bool {
    exists|k: int|
        0 <= k < records.len() && #[trigger] spec_is_summarized(records, eligible, summarize_after)(k)
            && spec_summary_record_id(spec_dedup_signature(records[k].record)) == id
}

/// Archived as cold: when cold archiving is on, a draft, active or verified,
/// unpinned record of the tenant (and namespace) not updated for longer than
/// the threshold and no more important than the ceiling; unless this is a
/// dry run, records superseded or replaced by a summary in this compaction
/// are no longer candidates.
pub open spec fn spec_is_cold(
    records: Seq<StoredFrame>,
    request: CompactionRequest,
    eligible: spec_fn(StoredFrame) -> bool,
    summarize_after: usize,
    cold_after_days: u32,
    max_importance_key: u32,
    now: u64,
) -> spec_fn(int) -> bool {
    |i: int|
        {
            let r = records[i].record;
            &&& cold_after_days > 0
            &&& r.scope.tenant_id@ == request.tenant_id@
            &&& (match request.namespace {
                Some(n) => r.scope.namespace@ == n@,
                None => true,
            })
            &&& spec_retainable(r.quality_state)
            &&& r.scope.trust_level != MemoryTrustLevel::Pinned
            &&& now.saturating_sub(r.updated_at_unix_ms) > spec_days_ms(cold_after_days)
            &&& r.importance_key <= max_importance_key
            &&& !request.dry_run ==> !spec_is_duplicate(records, eligible)(i)
                && !spec_is_summary_id(records, eligible, summarize_after, r.id@)
        }
}

/// The report of a compaction.
pub open spec fn spec_compaction_report(
    records: Seq<StoredFrame>,
    request: CompactionRequest,
    summarize_after: usize,
    cold_after_days: u32,
    max_importance_key: u32,
    now: u64,
) -> CompactionReport {
    let eligible = spec_compactable(request.tenant_id@, spec_option_view(request.namespace));
    let n = records.len() as int;
    let duplicates = spec_index_count(n, spec_is_duplicate(records, eligible));
    let cold = spec_index_count(
        n,
        spec_is_cold(
            records,
            request,
            eligible,
            summarize_after,
            cold_after_days,
            max_importance_key,
            now,
        ),
    );
    CompactionReport {
        deduplicated_records: duplicates as u64,
        archived_records: (duplicates + cold) as u64,
        summarized_clusters: spec_index_count(
            n,
            spec_is_summarized(records, eligible, summarize_after),
        ) as u64,
        pruned_graph_edges: 0,
        superseded_records: duplicates as u64,
        lineage_links_created: (spec_summarized_members(records, eligible, summarize_after, n) + if request.dry_run {
            0nat
        } else {
            duplicates
        }) as u64,
        dry_run: request.dry_run,
    }
}

/// A metadata entry of a summary record.
pub struct MetadataEntry {
    pub key: String,
    pub value: String,
}

/// A summary record to write: the group it rolls up (in standing order, the
/// representative first), its id, texts, labels, state and metadata.
pub struct SummaryPlan {
    pub members: Vec<usize>,
    pub record_id: String,
    pub content: String,
    pub summary: String,
    pub labels: Vec<String>,
    pub quality_state: MemoryQualityState,
    pub metadata: Vec<MetadataEntry>,
}

/// A duplicate to archive as superseded by the summary of its group.
pub struct SupersedePlan {
    pub record: usize,
    pub summary_record_id: String,
}

/// What a compaction does: its report, the summaries to write, the
/// duplicates to supersede and the records to archive as cold (positions in
/// the list of records).
pub struct CompactionPlan {
    pub report: CompactionReport,
    pub summaries: Vec<SummaryPlan>,
    pub superseded: Vec<SupersedePlan>,
    pub cold_archived: Vec<usize>,
}

/// Whether `members` is the group of the record at `i`, in standing order.
pub open spec fn spec_members_of(
    members: Seq<usize>,
    records: Seq<StoredFrame>,
    eligible: spec_fn(StoredFrame) -> bool,
    i: int,
) -> bool {
    &&& members.len() == spec_group_size(records, eligible, i, records.len() as int)
    &&& forall|a: int|
        0 <= a < members.len() ==> (#[trigger] members[a]) < records.len() && spec_same_group(
            records,
            eligible,
            i,
            members[a] as int,
        )
    &&& forall|j: int|
        0 <= j < records.len() && spec_same_group(records, eligible, i, j) ==> members.contains(
            j as usize,
        )
    &&& forall|a: int, b: int|
        0 <= a < b < members.len() ==> spec_stands_before(
            records[members[a] as int].record,
            members[a] as int,
            records[members[b] as int].record,
            members[b] as int,
        )
}

/// The text that represents a group: the summary of its first record unless
/// that is blank, else its content.
pub open spec fn spec_representative(record: RecordFrame) -> Seq<char> {
    match record.summary {
        Some(s) => if !spec_is_blank(s@) {
            s@
        } else {
            record.content@
        },
        None => record.content@,
    }
}

/// The labels of a summary: those of the representative record, with
/// `compacted` added when missing.
pub open spec fn spec_summary_labels(record: RecordFrame) -> Seq<Seq<char>> {
    let labels = record.scope.labels@.map_values(|l: String| l@);
    if labels.contains("compacted"@) {
        labels
    } else {
        labels.push("compacted"@)
    }
}

/// Whether `plan` is the summary of the group led by the record at `i`.
pub open spec fn spec_summary_plan(
    plan: SummaryPlan,
    records: Seq<StoredFrame>,
    eligible: spec_fn(StoredFrame) -> bool,
    i: int,
) -> bool {
    let canonical = records[i].record;
    let size = spec_decimal(spec_group_size(records, eligible, i, records.len() as int));
    let rep = spec_representative(canonical);
    &&& spec_members_of(plan.members@, records, eligible, i)
    &&& plan.record_id@ == spec_summary_record_id(spec_dedup_signature(canonical))
    &&& plan.content@ == "Compacted "@ + size
        + " related records into a durable summary. Representative memory: "@ + rep
    &&& plan.summary@ == size + " related records: "@ + rep
    &&& plan.labels@.map_values(|l: String| l@) == spec_summary_labels(canonical)
    &&& plan.quality_state == if canonical.quality_state == MemoryQualityState::Verified {
        MemoryQualityState::Verified
    } else {
        MemoryQualityState::Active
    }
    &&& plan.metadata@.len() == 3
    &&& plan.metadata@[0].key@ == "compaction_reason"@
    &&& plan.metadata@[0].value@ == "duplicate_cluster_rollup"@
    &&& plan.metadata@[1].key@ == "compaction_cluster_size"@
    &&& plan.metadata@[1].value@ == size
    &&& plan.metadata@[2].key@ == "representative_record_id"@
    &&& plan.metadata@[2].value@ == canonical.id@
}

proof fn lemma_group_size_bounded(
    records: Seq<StoredFrame>,
    eligible: spec_fn(StoredFrame) -> bool,
    i: int,
    k: int,
)
    requires
        k >= 0,
    ensures
        spec_group_size(records, eligible, i, k) <= k,
    decreases k,
{
    if k > 0 {
        lemma_group_size_bounded(records, eligible, i, k - 1);
    }
}

proof fn lemma_positions_count(n: int, p: spec_fn(int) -> bool)
    requires
        n >= 0,
    ensures
        spec_index_positions(n, p).len() == spec_index_count(n, p),
        (forall|k: int| 0 <= k < n ==> !#[trigger] p(k)) ==> spec_index_count(n, p) == 0,
    decreases n,
{
    if n > 0 {
        lemma_positions_count(n - 1, p);
    }
}

/// The group of the record at `i`, in standing order.
#[verifier::rlimit(60)]
#[verifier::spinoff_prover]
fn group_members(
    records: &Vec<StoredFrame>,
    elig: &Vec<bool>,
    sigs: &Vec<String>,
    i: usize,
    Ghost(eligible): Ghost<spec_fn(StoredFrame) -> bool>,
) -> (r: Vec<usize>)
    requires
        i < records@.len(),
        elig@.len() == records@.len(),
        sigs@.len() == records@.len(),
        forall|k: int| 0 <= k < records@.len() ==> elig@[k] == eligible(#[trigger] records@[k]),
        forall|k: int|
            0 <= k < records@.len() ==> (#[trigger] sigs@[k])@ == spec_dedup_signature(
                records@[k].record,
            ),
    ensures
        spec_members_of(r@, records@, eligible, i as int),
{
    let n = records.len();
    let mut members: Vec<usize> = Vec::new();
    let mut j: usize = 0;
    while j < n
        invariant
            n == records@.len(),
            i < n,
            j <= n,
            elig@.len() == n,
            sigs@.len() == n,
            forall|k: int| 0 <= k < n ==> elig@[k] == eligible(#[trigger] records@[k]),
            forall|k: int|
                0 <= k < n ==> (#[trigger] sigs@[k])@ == spec_dedup_signature(records@[k].record),
            members@.len() == spec_group_size(records@, eligible, i as int, j as int),
            forall|a: int|
                0 <= a < members@.len() ==> (#[trigger] members@[a]) < j && spec_same_group(
                    records@,
                    eligible,
                    i as int,
                    members@[a] as int,
                ),
            forall|jj: int|
                0 <= jj < j && spec_same_group(records@, eligible, i as int, jj) ==> members@.contains(
                    jj as usize,
                ),
            forall|a: int, b: int|
                0 <= a < b < members@.len() ==> spec_stands_before(
                    records@[members@[a] as int].record,
                    members@[a] as int,
                    records@[members@[b] as int].record,
                    members@[b] as int,
                ),
        decreases n - j,
    {
        if elig[j] && text_eq(sigs[j].as_str(), sigs[i].as_str()) {
            let mut p: usize = 0;
            while p < members.len() && !stands_before(
                &records[j].record,
                j,
                &records[members[p]].record,
                members[p],
            )
                invariant
                    n == records@.len(),
                    j < n,
                    p <= members@.len(),
                    forall|a: int| 0 <= a < members@.len() ==> (#[trigger] members@[a]) < j,
                    forall|q: int|
                        0 <= q < p ==> spec_stands_before(
                            records@[members@[q] as int].record,
                            members@[q] as int,
                            records@[j as int].record,
                            j as int,
                        ),
                decreases members@.len() - p,
            {
                proof {
                    let m = members@[p as int];
                    lemma_stands_before_order(
                        records@[m as int].record,
                        m as int,
                        records@[j as int].record,
                        j as int,
                        records@[j as int].record,
                        j as int,
                    );
                }
                p += 1;
            }
            let ghost old_members = members@;
            members.insert(p, j);
            proof {
                let nm = members@;
                assert(nm == old_members.insert(p as int, j));
                assert forall|a: int, b: int| 0 <= a < b < nm.len() implies spec_stands_before(
                    records@[nm[a] as int].record,
                    nm[a] as int,
                    records@[nm[b] as int].record,
                    nm[b] as int,
                ) by {
                    if b < p {
                        assert(nm[a] == old_members[a] && nm[b] == old_members[b]);
                    } else if b == p {
                        assert(nm[b] == j);
                        assert(nm[a] == old_members[a]);
                    } else if a < p {
                        assert(nm[a] == old_members[a]);
                        assert(nm[b] == old_members[b - 1]);
                        let x = old_members[a];
                        let y = old_members[b - 1];
                        if b - 1 == p {
                            lemma_stands_before_order(
                                records@[x as int].record,
                                x as int,
                                records@[j as int].record,
                                j as int,
                                records@[y as int].record,
                                y as int,
                            );
                        } else {
                            assert(spec_stands_before(
                                records@[x as int].record,
                                x as int,
                                records@[y as int].record,
                                y as int,
                            ));
                        }
                    } else if a == p {
                        assert(nm[a] == j);
                        assert(nm[b] == old_members[b - 1]);
                        let y = old_members[b - 1];
                        let z = old_members[p as int];
                        if b - 1 > p {
                            assert(spec_stands_before(
                                records@[z as int].record,
                                z as int,
                                records@[y as int].record,
                                y as int,
                            ));
                            lemma_stands_before_order(
                                records@[j as int].record,
                                j as int,
                                records@[z as int].record,
                                z as int,
                                records@[y as int].record,
                                y as int,
                            );
                        }
                    } else {
                        assert(nm[a] == old_members[a - 1]);
                        assert(nm[b] == old_members[b - 1]);
                    }
                }
                assert forall|a: int| 0 <= a < nm.len() implies (#[trigger] nm[a]) < j + 1
                    && spec_same_group(records@, eligible, i as int, nm[a] as int) by {
                    if a < p {
                        assert(nm[a] == old_members[a]);
                    } else if a > p {
                        assert(nm[a] == old_members[a - 1]);
                    }
                }
                assert forall|jj: int|
                    0 <= jj < j + 1 && spec_same_group(records@, eligible, i as int, jj) implies nm.contains(
                    jj as usize,
                ) by {
                    if jj < j {
                        assert(old_members.contains(jj as usize));
                        let a = choose|a: int| 0 <= a < old_members.len() && old_members[a] == jj as usize;
                        if a < p {
                            assert(nm[a] == jj as usize);
                        } else {
                            assert(nm[a + 1] == jj as usize);
                        }
                    } else {
                        assert(nm[p as int] == j);
                    }
                }
            }
        } else {
            proof {
                assert forall|jj: int|
                    0 <= jj < j + 1 && spec_same_group(records@, eligible, i as int, jj) implies members@.contains(
                    jj as usize,
                ) by {
                    if jj == j {
                        assert(!spec_same_group(records@, eligible, i as int, j as int));
                    }
                }
            }
        }
        j += 1;
    }
    members
}

fn representative(record: &RecordFrame) -> (r: &str)
    ensures
        r@ == spec_representative(*record),
{
    match &record.summary {
        Some(s) => {
            if !is_blank(s.as_str()) {
                s.as_str()
            } else {
                record.content.as_str()
            }
        },
        None => record.content.as_str(),
    }
}

fn summary_labels(record: &RecordFrame) -> (r: Vec<String>)
    ensures
        r@.map_values(|l: String| l@) == spec_summary_labels(*record),
{
    let mut labels = crate::text::copy_texts(&record.scope.labels);
    let ghost before = labels@.map_values(|l: String| l@);
    assert(before == record.scope.labels@.map_values(|l: String| l@));
    let present = list_contains(&labels, "compacted");
    proof {
        if present {
            let j = choose|j: int| 0 <= j < labels@.len() && #[trigger] labels@[j]@ == "compacted"@;
            assert(before[j] == "compacted"@);
        }
        if before.contains("compacted"@) {
            let j = choose|j: int| 0 <= j < before.len() && before[j] == "compacted"@;
            assert(labels@[j]@ == "compacted"@);
        }
    }
    if !present {
        labels.push(String::from_str("compacted"));
        assert(labels@.map_values(|l: String| l@) =~= before.push("compacted"@));
    }
    labels
}

fn metadata_entry(key: &str, value: &str) -> (r: MetadataEntry)
    ensures
        r.key@ == key@,
        r.value@ == value@,
{
    MetadataEntry { key: String::from_str(key), value: String::from_str(value) }
}

/// The summary record that rolls up the group led by the record at `i`.
fn build_summary(
    records: &Vec<StoredFrame>,
    elig: &Vec<bool>,
    sigs: &Vec<String>,
    i: usize,
    Ghost(eligible): Ghost<spec_fn(StoredFrame) -> bool>,
) -> (r: SummaryPlan)
    requires
        i < records@.len(),
        elig@.len() == records@.len(),
        sigs@.len() == records@.len(),
        forall|k: int| 0 <= k < records@.len() ==> elig@[k] == eligible(#[trigger] records@[k]),
        forall|k: int|
            0 <= k < records@.len() ==> (#[trigger] sigs@[k])@ == spec_dedup_signature(
                records@[k].record,
            ),
    ensures
        spec_summary_plan(r, records@, eligible, i as int),
{
    let members = group_members(records, elig, sigs, i, Ghost(eligible));
    let canonical = &records[i].record;
    let size = decimal_string(members.len() as u64);
    let rep = representative(canonical);
    let mut content = String::from_str("Compacted ");
    content.append(size.as_str());
    content.append(" related records into a durable summary. Representative memory: ");
    content.append(rep);
    let mut summary = String::from_str(size.as_str());
    summary.append(" related records: ");
    summary.append(rep);
    let quality_state = match canonical.quality_state {
        MemoryQualityState::Verified => MemoryQualityState::Verified,
        _ => MemoryQualityState::Active,
    };
    let mut metadata: Vec<MetadataEntry> = Vec::new();
    metadata.push(metadata_entry("compaction_reason", "duplicate_cluster_rollup"));
    metadata.push(metadata_entry("compaction_cluster_size", size.as_str()));
    metadata.push(metadata_entry("representative_record_id", canonical.id.as_str()));
    let record_id = summary_record_id(sigs[i].as_str());
    SummaryPlan {
        members,
        record_id,
        content,
        summary,
        labels: summary_labels(canonical),
        quality_state,
        metadata,
    }
}

/// Plans the compaction of a tenant (and namespace): duplicates of each
/// group are superseded by the record that stands first, groups of at least
/// two records and at least `summarize_after` (when set) are rolled up into
/// a summary, and, when `cold_after_days` is set, records not updated for
/// that long whose importance is at most `max_importance_key` are archived.
/// A dry run reports the same counts (but no lineage links for
/// superseded records) and plans no writes.
pub fn plan_compaction(
    request: &CompactionRequest,
    records: &Vec<StoredFrame>,
    summarize_after: usize,
    cold_after_days: u32,
    max_importance_key: u32,
    now: u64,
) -> (r: Result<CompactionPlan, Error>)
    ensures
        spec_is_blank(request.tenant_id@) ==> (r matches Err(e) && e.spec_is(
            ErrorKind::InvalidRequest,
            "compaction tenant_id is required"@,
        )),
        !spec_is_blank(request.tenant_id@) ==> (r matches Ok(plan) && ({
            let eligible = spec_compactable(
                request.tenant_id@,
                spec_option_view(request.namespace),
            );
            let n = records@.len() as int;
            let summarized = spec_index_positions(
                n,
                spec_is_summarized(records@, eligible, summarize_after),
            );
            let duplicates = spec_index_positions(n, spec_is_duplicate(records@, eligible));
            &&& plan.report == spec_compaction_report(
                records@,
                *request,
                summarize_after,
                cold_after_days,
                max_importance_key,
                now,
            )
            &&& plan.cold_archived@ == spec_index_positions(
                n,
                spec_is_cold(
                    records@,
                    *request,
                    eligible,
                    summarize_after,
                    cold_after_days,
                    max_importance_key,
                    now,
                ),
            )
            &&& request.dry_run ==> plan.summaries@.len() == 0 && plan.superseded@.len() == 0
            &&& !request.dry_run ==> {
                &&& plan.summaries@.len() == summarized.len()
                &&& forall|k: int|
                    0 <= k < summarized.len() ==> spec_summary_plan(
                        #[trigger] plan.summaries@[k],
                        records@,
                        eligible,
                        summarized[k] as int,
                    )
                &&& plan.superseded@.len() == duplicates.len()
                &&& forall|k: int|
                    0 <= k < duplicates.len() ==> (#[trigger] plan.superseded@[k]).record
                        == duplicates[k] && plan.superseded@[k].summary_record_id@
                        == spec_summary_record_id(
                        spec_dedup_signature(records@[duplicates[k] as int].record),
                    )
            }
        })),
{
    if is_blank(request.tenant_id.as_str()) {
        return Err(Error::InvalidRequest(String::from_str("compaction tenant_id is required")));
    }
    let ghost eligible = spec_compactable(request.tenant_id@, spec_option_view(request.namespace));
    let ghost dup_p = spec_is_duplicate(records@, eligible);
    let ghost sum_p = spec_is_summarized(records@, eligible, summarize_after);
    let n = records.len();

    let mut elig: Vec<bool> = Vec::new();
    let mut sigs: Vec<String> = Vec::new();
    let mut k: usize = 0;
    while k < n
        invariant
            n == records@.len(),
            k <= n,
            eligible == spec_compactable(request.tenant_id@, spec_option_view(request.namespace)),
            elig@.len() == k,
            sigs@.len() == k,
            forall|m: int| 0 <= m < k ==> elig@[m] == eligible(#[trigger] records@[m]),
            forall|m: int|
                0 <= m < k ==> (#[trigger] sigs@[m])@ == spec_dedup_signature(records@[m].record),
        decreases n - k,
    {
        let record = &records[k].record;
        let in_tenant = text_eq(record.scope.tenant_id.as_str(), request.tenant_id.as_str());
        let in_namespace = match &request.namespace {
            Some(ns) => text_eq(record.scope.namespace.as_str(), ns.as_str()),
            None => true,
        };
        let live = match record.quality_state {
            MemoryQualityState::Archived | MemoryQualityState::Deleted
            | MemoryQualityState::Suppressed => false,
            _ => true,
        };
        elig.push(in_tenant && in_namespace && live);
        sigs.push(dedup_signature(record));
        k += 1;
    }

    let mut dup: Vec<bool> = Vec::new();
    let mut sizes: Vec<usize> = Vec::new();
    let mut i: usize = 0;
    while i < n
        invariant
            n == records@.len(),
            i <= n,
            dup_p == spec_is_duplicate(records@, eligible),
            elig@.len() == n,
            sigs@.len() == n,
            forall|m: int| 0 <= m < n ==> elig@[m] == eligible(#[trigger] records@[m]),
            forall|m: int|
                0 <= m < n ==> (#[trigger] sigs@[m])@ == spec_dedup_signature(records@[m].record),
            dup@.len() == i,
            sizes@.len() == i,
            forall|m: int| 0 <= m < i ==> dup@[m] == dup_p(m),
            forall|m: int|
                0 <= m < i ==> sizes@[m] == spec_group_size(records@, eligible, m, n as int),
            forall|m: int| 0 <= m < i ==> sizes@[m] <= n,
        decreases n - i,
    {
        let mut found = false;
        let mut size: usize = 0;
        let mut j: usize = 0;
        while j < n
            invariant
                n == records@.len(),
                i < n,
                j <= n,
                elig@.len() == n,
                sigs@.len() == n,
                forall|m: int| 0 <= m < n ==> elig@[m] == eligible(#[trigger] records@[m]),
                forall|m: int|
                    0 <= m < n ==> (#[trigger] sigs@[m])@ == spec_dedup_signature(
                        records@[m].record,
                    ),
                size <= j,
                size == spec_group_size(records@, eligible, i as int, j as int),
                found == exists|jj: int|
                    0 <= jj < j && spec_same_group(records@, eligible, i as int, jj)
                        && #[trigger] spec_stands_before(
                        records@[jj].record,
                        jj,
                        records@[i as int].record,
                        i as int,
                    ),
            decreases n - j,
        {
            if elig[j] && text_eq(sigs[j].as_str(), sigs[i].as_str()) {
                size += 1;
                if stands_before(&records[j].record, j, &records[i].record, i) {
                    found = true;
                }
            }
            j += 1;
        }
        dup.push(elig[i] && found);
        sizes.push(size);
        i += 1;
    }

    let mut duplicates: usize = 0;
    let mut clusters: usize = 0;
    let mut members_total: u128 = 0;
    let mut summaries: Vec<SummaryPlan> = Vec::new();
    let mut summary_ids: Vec<String> = Vec::new();
    let mut superseded: Vec<SupersedePlan> = Vec::new();
    let ghost mut summarized_positions: Seq<usize> = seq![];
    let ghost mut duplicate_positions: Seq<usize> = seq![];
    let mut i: usize = 0;
    while i < n
        invariant
            n == records@.len(),
            i <= n,
            dup_p == spec_is_duplicate(records@, eligible),
            sum_p == spec_is_summarized(records@, eligible, summarize_after),
            elig@.len() == n,
            sigs@.len() == n,
            forall|m: int| 0 <= m < n ==> elig@[m] == eligible(#[trigger] records@[m]),
            forall|m: int|
                0 <= m < n ==> (#[trigger] sigs@[m])@ == spec_dedup_signature(records@[m].record),
            dup@.len() == n,
            sizes@.len() == n,
            forall|m: int| 0 <= m < n ==> dup@[m] == dup_p(m),
            forall|m: int|
                0 <= m < n ==> sizes@[m] == spec_group_size(records@, eligible, m, n as int),
            forall|m: int| 0 <= m < n ==> sizes@[m] <= n,
            n <= u64::MAX,
            duplicates <= i,
            duplicates == spec_index_count(i as int, dup_p),
            clusters <= i,
            clusters == spec_index_count(i as int, sum_p),
            members_total <= i * n,
            members_total == spec_summarized_members(records@, eligible, summarize_after, i as int),
            summarized_positions == spec_index_positions(i as int, sum_p),
            duplicate_positions == spec_index_positions(i as int, dup_p),
            summary_ids@.len() == summarized_positions.len(),
            forall|m: int|
                0 <= m < summarized_positions.len() ==> (#[trigger] summary_ids@[m])@
                    == spec_summary_record_id(
                    spec_dedup_signature(records@[summarized_positions[m] as int].record),
                ),
            forall|m: int|
                0 <= m < summarized_positions.len() ==> (#[trigger] summarized_positions[m]) < i
                    && sum_p(summarized_positions[m] as int),
            !request.dry_run ==> summaries@.len() == summarized_positions.len(),
            !request.dry_run ==> forall|m: int|
                0 <= m < summarized_positions.len() ==> spec_summary_plan(
                    #[trigger] summaries@[m],
                    records@,
                    eligible,
                    summarized_positions[m] as int,
                ),
            request.dry_run ==> summaries@.len() == 0,
            !request.dry_run ==> superseded@.len() == duplicate_positions.len(),
            !request.dry_run ==> forall|m: int|
                0 <= m < duplicate_positions.len() ==> (#[trigger] superseded@[m]).record
                    == duplicate_positions[m] && superseded@[m].summary_record_id@
                    == spec_summary_record_id(
                    spec_dedup_signature(records@[duplicate_positions[m] as int].record),
                ),
            request.dry_run ==> superseded@.len() == 0,
        decreases n - i,
    {
        if dup[i] {
            duplicates += 1;
            if !request.dry_run {
                let id = summary_record_id(sigs[i].as_str());
                superseded.push(SupersedePlan { record: i, summary_record_id: id });
            }
            proof {
                duplicate_positions = duplicate_positions.push(i as usize);
            }
        }
        let summarized = elig[i] && !dup[i] && sizes[i] >= 2 && summarize_after > 0 && sizes[i]
            >= summarize_after;
        if summarized {
            clusters += 1;
            assert(members_total + sizes[i as int] <= u128::MAX) by (nonlinear_arith)
                requires
                    members_total <= i * n,
                    sizes[i as int] <= n,
                    i < n,
                    n <= u64::MAX,
            ;
            members_total = members_total + sizes[i] as u128;
            assert(members_total <= (i + 1) * n) by (nonlinear_arith)
                requires
                    members_total <= i * n + sizes[i as int],
                    sizes[i as int] <= n,
            ;
            summary_ids.push(summary_record_id(sigs[i].as_str()));
            if !request.dry_run {
                let plan = build_summary(records, &elig, &sigs, i, Ghost(eligible));
                summaries.push(plan);
            }
            proof {
                summarized_positions = summarized_positions.push(i as usize);
            }
        } else {
            assert(members_total <= (i + 1) * n) by (nonlinear_arith)
                requires
                    members_total <= i * n,
            ;
        }
        i += 1;
    }

    let mut cold: Vec<usize> = Vec::new();
    let ghost cold_p = spec_is_cold(
        records@,
        *request,
        eligible,
        summarize_after,
        cold_after_days,
        max_importance_key,
        now,
    );
    let mut cold_count: usize = 0;
    proof {
        lemma_index_positions(n as int, sum_p);
    }
    if cold_after_days > 0 {
        let threshold = days_ms(cold_after_days);
        let mut i: usize = 0;
        while i < n
            invariant
                n == records@.len(),
                i <= n,
                cold_after_days > 0,
                threshold == spec_days_ms(cold_after_days),
                cold_p == spec_is_cold(
                    records@,
                    *request,
                    eligible,
                    summarize_after,
                    cold_after_days,
                    max_importance_key,
                    now,
                ),
                dup_p == spec_is_duplicate(records@, eligible),
                sum_p == spec_is_summarized(records@, eligible, summarize_after),
                dup@.len() == n,
                forall|m: int| 0 <= m < n ==> dup@[m] == dup_p(m),
                summarized_positions == spec_index_positions(n as int, sum_p),
                summary_ids@.len() == summarized_positions.len(),
                forall|m: int|
                    0 <= m < summarized_positions.len() ==> (#[trigger] summary_ids@[m])@
                        == spec_summary_record_id(
                        spec_dedup_signature(records@[summarized_positions[m] as int].record),
                    ),
                forall|m: int|
                    0 <= m < summarized_positions.len() ==> (#[trigger] summarized_positions[m])
                        < n && sum_p(summarized_positions[m] as int),
                forall|k: int|
                    0 <= k < n && #[trigger] sum_p(k) ==> summarized_positions.contains(k as usize),
                cold@ == spec_index_positions(i as int, cold_p),
                cold_count == cold@.len(),
                cold_count <= i,
            decreases n - i,
        {
            let record = &records[i].record;
            let in_tenant = text_eq(record.scope.tenant_id.as_str(), request.tenant_id.as_str());
            let in_namespace = match &request.namespace {
                Some(ns) => text_eq(record.scope.namespace.as_str(), ns.as_str()),
                None => true,
            };
            let retainable = match record.quality_state {
                MemoryQualityState::Draft | MemoryQualityState::Active
                | MemoryQualityState::Verified => true,
                _ => false,
            };
            let candidate = in_tenant && in_namespace && retainable && record.scope.trust_level
                != MemoryTrustLevel::Pinned && now.saturating_sub(record.updated_at_unix_ms)
                > threshold && record.importance_key <= max_importance_key;
            let replaced = if request.dry_run {
                false
            } else {
                let is_summary = list_contains(&summary_ids, record.id.as_str());
                proof {
                    if is_summary {
                        let m = choose|m: int|
                            0 <= m < summary_ids@.len() && #[trigger] summary_ids@[m]@
                                == record.id@;
                        let k = summarized_positions[m] as int;
                        assert(sum_p(k));
                        assert(spec_is_summarized(records@, eligible, summarize_after)(k));
                    }
                    if spec_is_summary_id(records@, eligible, summarize_after, record.id@) {
                        let k = choose|k: int|
                            0 <= k < records@.len() && #[trigger] spec_is_summarized(
                                records@,
                                eligible,
                                summarize_after,
                            )(k) && spec_summary_record_id(
                                spec_dedup_signature(records@[k].record),
                            ) == record.id@;
                        assert(summarized_positions.contains(k as usize));
                        let m = choose|m: int|
                            0 <= m < summarized_positions.len() && summarized_positions[m]
                                == k as usize;
                        assert(summary_ids@[m]@ == record.id@);
                    }
                }
                dup[i] || is_summary
            };
            if candidate && !replaced {
                cold.push(i);
                cold_count += 1;
            }
            i += 1;
        }
    }
    assert(members_total + duplicates <= u128::MAX) by (nonlinear_arith)
        requires
            members_total <= n * n,
            duplicates <= n,
            n <= u64::MAX,
    ;
    proof {
        lemma_positions_count(n as int, cold_p);
        if cold_after_days == 0 {
            assert(cold@ == Seq::<usize>::empty());
            assert forall|k: int| 0 <= k < n implies !#[trigger] cold_p(k) by {}
            assert(spec_index_positions(n as int, cold_p).len() == 0);
        }
    }
    let dedup_count = duplicates as u64;
    let total_links: u128 = members_total + if request.dry_run {
        0u128
    } else {
        duplicates as u128
    };
    Ok(
        CompactionPlan {
            report: CompactionReport {
                deduplicated_records: dedup_count,
                archived_records: (duplicates as u128 + cold_count as u128) as u64,
                summarized_clusters: clusters as u64,
                pruned_graph_edges: 0,
                superseded_records: dedup_count,
                lineage_links_created: total_links as u64,
                dry_run: request.dry_run,
            },
            summaries,
            superseded,
            cold_archived: cold,
        },
    )
}

/// The record of `i`'s group that stands first among the first `k` records
/// and the record at `i` itself.
spec fn spec_group_leader(
    records: Seq<StoredFrame>,
    eligible: spec_fn(StoredFrame) -> bool,
    i: int,
    k: int,
) -> int
    decreases k,
{
    if k <= 0 {
        i
    } else {
        let b = spec_group_leader(records, eligible, i, k - 1);
        if spec_same_group(records, eligible, i, k - 1) && spec_stands_before(
            records[k - 1].record,
            k - 1,
            records[b].record,
            b,
        ) {
            k - 1
        } else {
            b
        }
    }
}

proof fn lemma_group_leader(records: Seq<StoredFrame>, eligible: spec_fn(StoredFrame) -> bool, i: int, k: int)
    requires
        0 <= i < records.len(),
        0 <= k <= records.len(),
        eligible(records[i]),
    ensures
        ({
            let b = spec_group_leader(records, eligible, i, k);
            &&& 0 <= b < records.len()
            &&& spec_same_group(records, eligible, i, b)
            &&& forall|j: int|
                0 <= j < k && spec_same_group(records, eligible, i, j) && j != b
                    ==> #[trigger] spec_stands_before(records[b].record, b, records[j].record, j)
            &&& (b != i ==> spec_stands_before(records[b].record, b, records[i].record, i))
        }),
    decreases k,
{
    if k > 0 {
        lemma_group_leader(records, eligible, i, k - 1);
        let p = spec_group_leader(records, eligible, i, k - 1);
        let b = spec_group_leader(records, eligible, i, k);
        lemma_stands_before_order(records[k - 1].record, k - 1, records[p].record, p, records[p].record, p);
        if b == k - 1 && p != k - 1 {
            assert forall|j: int|
                0 <= j < k && spec_same_group(records, eligible, i, j) && j != b implies #[trigger] spec_stands_before(
                records[b].record,
                b,
                records[j].record,
                j,
            ) by {
                if j != p {
                    lemma_stands_before_order(records[b].record, b, records[p].record, p, records[j].record, j);
                }
            }
            if b != i && p != i {
                lemma_stands_before_order(records[b].record, b, records[p].record, p, records[i].record, i);
            }
        }
    }
}

/// Each group of duplicates keeps exactly one record: among the records
/// taking part in a compaction that share a record's signature, exactly one
/// is not a duplicate (the one that stands first), and the others are
/// superseded by it.
pub proof fn lemma_each_group_keeps_one(
    records: Seq<StoredFrame>,
    tenant_id: Seq<char>,
    namespace: Option<Seq<char>>,
    i: int,
)
    requires
        0 <= i < records.len(),
        spec_compactable(tenant_id, namespace)(records[i]),
    ensures
        exists|j: int|
            0 <= j < records.len() && spec_same_group(records, spec_compactable(tenant_id, namespace), i, j)
                && !spec_is_duplicate(records, spec_compactable(tenant_id, namespace))(j),
        forall|j1: int, j2: int|
            0 <= j1 < records.len() && 0 <= j2 < records.len() && spec_same_group(
                records,
                spec_compactable(tenant_id, namespace),
                i,
                j1,
            ) && spec_same_group(records, spec_compactable(tenant_id, namespace), i, j2)
                && !spec_is_duplicate(records, spec_compactable(tenant_id, namespace))(j1)
                && !spec_is_duplicate(records, spec_compactable(tenant_id, namespace))(j2) ==> j1 == j2,
{
    let eligible = spec_compactable(tenant_id, namespace);
    let n = records.len() as int;
    lemma_group_leader(records, eligible, i, n);
    let b = spec_group_leader(records, eligible, i, n);
    assert(!spec_is_duplicate(records, eligible)(b)) by {
        if spec_is_duplicate(records, eligible)(b) {
            let j = choose|j: int|
                0 <= j < records.len() && spec_same_group(records, eligible, b, j)
                    && #[trigger] spec_stands_before(records[j].record, j, records[b].record, b);
            assert(spec_same_group(records, eligible, i, j));
            lemma_stands_before_order(records[b].record, b, records[j].record, j, records[b].record, b);
        }
    }
    assert forall|j1: int, j2: int|
        0 <= j1 < records.len() && 0 <= j2 < records.len() && spec_same_group(records, eligible, i, j1)
            && spec_same_group(records, eligible, i, j2) && !spec_is_duplicate(records, eligible)(j1)
            && !spec_is_duplicate(records, eligible)(j2) implies j1 == j2 by {
        if j1 != j2 {
            lemma_stands_before_order(records[j1].record, j1, records[j2].record, j2, records[j1].record, j1);
            if spec_stands_before(records[j1].record, j1, records[j2].record, j2) {
                assert(spec_same_group(records, eligible, j2, j1));
            } else {
                assert(spec_same_group(records, eligible, j1, j2));
            }
        }
    }
}

/// The record a duplicate group keeps is its most recently updated one:
/// a record that is not superseded was updated no earlier than any record
/// of its group (and, among those updated at the same moment, is the most
/// important), so a record that some record of its group was updated after
/// is superseded; and a record updated after every other record of its
/// group is kept.
pub proof fn lemma_group_keeps_the_newest(
    records: Seq<StoredFrame>,
    tenant_id: Seq<char>,
    namespace: Option<Seq<char>>,
    i: int,
)
    requires
        0 <= i < records.len(),
        spec_compactable(tenant_id, namespace)(records[i]),
    ensures
        !spec_is_duplicate(records, spec_compactable(tenant_id, namespace))(i) ==> forall|j: int|
            0 <= j < records.len() && #[trigger] spec_same_group(
                records,
                spec_compactable(tenant_id, namespace),
                i,
                j,
            ) ==> records[j].record.updated_at_unix_ms <= records[i].record.updated_at_unix_ms && (
            records[j].record.updated_at_unix_ms == records[i].record.updated_at_unix_ms
                ==> records[j].record.importance_key <= records[i].record.importance_key),
        (forall|j: int|
            0 <= j < records.len() && j != i && #[trigger] spec_same_group(
                records,
                spec_compactable(tenant_id, namespace),
                i,
                j,
            ) ==> records[j].record.updated_at_unix_ms < records[i].record.updated_at_unix_ms)
            ==> !spec_is_duplicate(records, spec_compactable(tenant_id, namespace))(i),
{
    let eligible = spec_compactable(tenant_id, namespace);
    if !spec_is_duplicate(records, eligible)(i) {
        assert forall|j: int|
            0 <= j < records.len() && #[trigger] spec_same_group(records, eligible, i, j)
                implies records[j].record.updated_at_unix_ms <= records[i].record.updated_at_unix_ms && (
            records[j].record.updated_at_unix_ms == records[i].record.updated_at_unix_ms
                ==> records[j].record.importance_key <= records[i].record.importance_key) by {
            if records[j].record.updated_at_unix_ms > records[i].record.updated_at_unix_ms || (
            records[j].record.updated_at_unix_ms == records[i].record.updated_at_unix_ms
                && records[j].record.importance_key > records[i].record.importance_key) {
                assert(spec_stands_before(records[j].record, j, records[i].record, i));
            }
        }
    }
    if forall|j: int|
        0 <= j < records.len() && j != i && #[trigger] spec_same_group(records, eligible, i, j)
            ==> records[j].record.updated_at_unix_ms < records[i].record.updated_at_unix_ms {
        if spec_is_duplicate(records, eligible)(i) {
            let j = choose|j: int|
                0 <= j < records.len() && spec_same_group(records, eligible, i, j)
                    && #[trigger] spec_stands_before(records[j].record, j, records[i].record, i);
            lemma_stands_before_order(records[i].record, i, records[i].record, i, records[i].record, i);
        }
    }
}

/// A duplicate group never mixes scopes: every record of a record's group
/// has its tenant, namespace and actor, so a compaction never supersedes
/// one actor's record with another's (for names free of the unit separator
/// the signature joins them with).
pub proof fn lemma_group_shares_the_scope(
    records: Seq<StoredFrame>,
    tenant_id: Seq<char>,
    namespace: Option<Seq<char>>,
    i: int,
    j: int,
)
    requires
        0 <= i < records.len(),
        0 <= j < records.len(),
        spec_same_group(records, spec_compactable(tenant_id, namespace), i, j),
        !records[i].record.scope.tenant_id@.contains('\u{1f}'),
        !records[i].record.scope.namespace@.contains('\u{1f}'),
        !records[i].record.scope.actor_id@.contains('\u{1f}'),
        !records[j].record.scope.tenant_id@.contains('\u{1f}'),
        !records[j].record.scope.namespace@.contains('\u{1f}'),
        !records[j].record.scope.actor_id@.contains('\u{1f}'),
    ensures
        records[j].record.scope.tenant_id@ == records[i].record.scope.tenant_id@,
        records[j].record.scope.namespace@ == records[i].record.scope.namespace@,
        records[j].record.scope.actor_id@ == records[i].record.scope.actor_id@,
{
    crate::maintenance::lemma_signature_keeps_scopes_apart(records[j].record, records[i].record);
}

} // verus!
