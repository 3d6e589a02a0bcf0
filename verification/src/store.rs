//! The decisions of a memory store, apart from its storage: which requests
//! are well formed, what a lifecycle change (delete, archive, suppress,
//! recover) does to a record, and which records a recall may return.

use vstd::prelude::*;
use crate::error::{Error, ErrorKind};
use crate::model::{
    EpisodeContinuityState, MemoryHistoricalState, MemoryQualityState, MemoryRecordKind,
    MemoryScope, MemoryTrustLevel, RecordFrame,
};
use crate::query::{
    CompactionRequest, IntegrityCheckRequest, MaintenanceRunRequest, RecallHistoricalMode,
    RepairRequest,
};
use crate::config::IngestionPolicy;
use crate::text::{
    copy_option_text, decimal_string, is_blank, list_contains, spec_decimal, spec_is_blank,
    spec_words, text_eq, words,
};
use crate::model::spec_seq_has;
use crate::keys::spec_option_view;

verus! {

/// What an upsert did.
#[derive(Debug, Clone, PartialEq, Eq)]
pub struct UpsertReceipt {
    pub record_id: String,
    pub deduplicated: bool,
    pub summary_refreshed: bool,
}

/// A request to delete a record, as a tombstone or for good.
#[derive(Debug, Clone, PartialEq, Eq)]
pub struct DeleteRequest {
    pub tenant_id: String,
    pub namespace: String,
    pub record_id: String,
    pub hard_delete: bool,
    pub audit_reason: String,
}

/// What a delete did.
#[derive(Debug, Clone, PartialEq, Eq)]
pub struct DeleteReceipt {
    pub record_id: String,
    pub tombstoned: bool,
    pub hard_deleted: bool,
}

/// A request to archive a record.
#[derive(Debug, Clone, PartialEq, Eq)]
pub struct ArchiveRequest {
    pub tenant_id: String,
    pub namespace: String,
    pub record_id: String,
    pub dry_run: bool,
    pub audit_reason: String,
}

/// What an archive did (or would do, for a dry run).
#[derive(Debug, Clone, PartialEq, Eq)]
pub struct ArchiveReceipt {
    pub record_id: String,
    pub previous_quality_state: MemoryQualityState,
    pub previous_historical_state: MemoryHistoricalState,
    pub quality_state: MemoryQualityState,
    pub historical_state: MemoryHistoricalState,
    pub changed: bool,
    pub dry_run: bool,
}

/// A request to suppress a record from recall.
#[derive(Debug, Clone, PartialEq, Eq)]
pub struct SuppressRequest {
    pub tenant_id: String,
    pub namespace: String,
    pub record_id: String,
    pub dry_run: bool,
    pub audit_reason: String,
}

/// What a suppression did (or would do, for a dry run).
#[derive(Debug, Clone, PartialEq, Eq)]
pub struct SuppressReceipt {
    pub record_id: String,
    pub previous_quality_state: MemoryQualityState,
    pub previous_historical_state: MemoryHistoricalState,
    pub quality_state: MemoryQualityState,
    pub historical_state: MemoryHistoricalState,
    pub changed: bool,
    pub dry_run: bool,
}

/// A request to bring a record back to an active or verified state.
#[derive(Debug, Clone, PartialEq, Eq)]
pub struct RecoverRequest {
    pub tenant_id: String,
    pub namespace: String,
    pub record_id: String,
    pub dry_run: bool,
    pub audit_reason: String,
    pub quality_state: MemoryQualityState,
    pub historical_state: Option<MemoryHistoricalState>,
}

/// What a recovery did (or would do, for a dry run).
#[derive(Debug, Clone, PartialEq, Eq)]
pub struct RecoverReceipt {
    pub record_id: String,
    pub previous_quality_state: MemoryQualityState,
    pub previous_historical_state: MemoryHistoricalState,
    pub quality_state: MemoryQualityState,
    pub historical_state: MemoryHistoricalState,
    pub changed: bool,
    pub dry_run: bool,
}

/// The first missing field of a lifecycle request, with its message: the
/// tenant, the namespace, the record id and the audit reason are required.
pub open spec fn spec_lifecycle_violation(
    action: Seq<char>,
    tenant_id: Seq<char>,
    namespace: Seq<char>,
    record_id: Seq<char>,
    audit_reason: Seq<char>,
) -> Option<Seq<char>> {
    if spec_is_blank(tenant_id) {
        Some(action + " tenant_id is required"@)
    } else if spec_is_blank(namespace) {
        Some(action + " namespace is required"@)
    } else if spec_is_blank(record_id) {
        Some(action + " record_id is required"@)
    } else if spec_is_blank(audit_reason) {
        Some(action + " audit_reason is required"@)
    } else {
        None
    }
}

/// A result that is `Ok` when there is no violation and otherwise an invalid
/// request with its message.
pub open spec fn spec_checked(r: Result<(), Error>, violation: Option<Seq<char>>) -> bool {
    match violation {
        None => r is Ok,
        Some(message) => r matches Err(e) && e.spec_is(ErrorKind::InvalidRequest, message),
    }
}

fn required(action: &str, field: &str) -> (r: Error)
    ensures
        r.spec_is(ErrorKind::InvalidRequest, action@ + field@),
{
    let mut message = String::from_str(action);
    message.append(field);
    Error::InvalidRequest(message)
}

/// Checks that a lifecycle request names its tenant, namespace, record and
/// audit reason.
pub fn validate_lifecycle_request(
    action: &str,
    tenant_id: &str,
    namespace: &str,
    record_id: &str,
    audit_reason: &str,
) -> (r: Result<(), Error>)
    ensures
        spec_checked(
            r,
            spec_lifecycle_violation(action@, tenant_id@, namespace@, record_id@, audit_reason@),
        ),
{
    if is_blank(tenant_id) {
        return Err(required(action, " tenant_id is required"));
    }
    if is_blank(namespace) {
        return Err(required(action, " namespace is required"));
    }
    if is_blank(record_id) {
        return Err(required(action, " record_id is required"));
    }
    if is_blank(audit_reason) {
        return Err(required(action, " audit_reason is required"));
    }
    Ok(())
}

/// Checks a delete request.
pub fn validate_delete_request(request: &DeleteRequest) -> (r: Result<(), Error>)
    ensures
        spec_checked(
            r,
            spec_lifecycle_violation(
                "delete"@,
                request.tenant_id@,
                request.namespace@,
                request.record_id@,
                request.audit_reason@,
            ),
        ),
{
    validate_lifecycle_request(
        "delete",
        request.tenant_id.as_str(),
        request.namespace.as_str(),
        request.record_id.as_str(),
        request.audit_reason.as_str(),
    )
}

/// Checks an archive request.
pub fn validate_archive_request(request: &ArchiveRequest) -> (r: Result<(), Error>)
    ensures
        spec_checked(
            r,
            spec_lifecycle_violation(
                "archive"@,
                request.tenant_id@,
                request.namespace@,
                request.record_id@,
                request.audit_reason@,
            ),
        ),
{
    validate_lifecycle_request(
        "archive",
        request.tenant_id.as_str(),
        request.namespace.as_str(),
        request.record_id.as_str(),
        request.audit_reason.as_str(),
    )
}

/// Checks a suppress request.
pub fn validate_suppress_request(request: &SuppressRequest) -> (r: Result<(), Error>)
    ensures
        spec_checked(
            r,
            spec_lifecycle_violation(
                "suppress"@,
                request.tenant_id@,
                request.namespace@,
                request.record_id@,
                request.audit_reason@,
            ),
        ),
{
    validate_lifecycle_request(
        "suppress",
        request.tenant_id.as_str(),
        request.namespace.as_str(),
        request.record_id.as_str(),
        request.audit_reason.as_str(),
    )
}

/// The first rule a recover request breaks: the lifecycle fields, then a
/// target state that is neither active nor verified, then a superseded
/// historical state.
pub open spec fn spec_recover_violation(request: RecoverRequest) -> Option<Seq<char>> {
    match spec_lifecycle_violation(
        "recover"@,
        request.tenant_id@,
        request.namespace@,
        request.record_id@,
        request.audit_reason@,
    ) {
        Some(m) => Some(m),
        None => if !(request.quality_state == MemoryQualityState::Active || request.quality_state
            == MemoryQualityState::Verified) {
            Some("recover quality_state must be Active or Verified"@)
        } else if request.historical_state == Some(MemoryHistoricalState::Superseded) {
            Some("recover historical_state cannot be Superseded"@)
        } else {
            None
        },
    }
}

/// Checks a recover request.
pub fn validate_recover_request(request: &RecoverRequest) -> (r: Result<(), Error>)
    ensures
        spec_checked(r, spec_recover_violation(*request)),
{
    match validate_lifecycle_request(
        "recover",
        request.tenant_id.as_str(),
        request.namespace.as_str(),
        request.record_id.as_str(),
        request.audit_reason.as_str(),
    ) {
        Ok(()) => {},
        Err(e) => {
            return Err(e);
        },
    }
    match request.quality_state {
        MemoryQualityState::Active | MemoryQualityState::Verified => {},
        _ => {
            return Err(
                Error::InvalidRequest(
                    String::from_str("recover quality_state must be Active or Verified"),
                ),
            );
        },
    }
    match request.historical_state {
        Some(MemoryHistoricalState::Superseded) => {
            return Err(
                Error::InvalidRequest(
                    String::from_str("recover historical_state cannot be Superseded"),
                ),
            );
        },
        _ => {},
    }
    Ok(())
}

/// Why a stored record does not belong where a request looks for it.
pub open spec fn spec_scope_violation(
    record_id: Seq<char>,
    scope: MemoryScope,
    tenant_id: Seq<char>,
    namespace: Seq<char>,
) -> Option<Seq<char>> {
    if scope.tenant_id@ != tenant_id {
        Some("record "@ + record_id + " does not belong to tenant "@ + tenant_id)
    } else if scope.namespace@ != namespace {
        Some("record "@ + record_id + " does not belong to namespace "@ + namespace)
    } else {
        None
    }
}

fn not_belonging(record_id: &str, what: &str, owner: &str) -> (r: Error)
    ensures
        r.spec_is(ErrorKind::InvalidRequest, "record "@ + record_id@ + what@ + owner@),
{
    let mut message = String::from_str("record ");
    message.append(record_id);
    message.append(what);
    message.append(owner);
    Error::InvalidRequest(message)
}

/// Checks that a stored record belongs to the tenant and namespace of a
/// request.
pub fn validate_record_scope(
    record_id: &str,
    scope: &MemoryScope,
    tenant_id: &str,
    namespace: &str,
) -> (r: Result<(), Error>)
    ensures
        spec_checked(r, spec_scope_violation(record_id@, *scope, tenant_id@, namespace@)),
{
    if !text_eq(scope.tenant_id.as_str(), tenant_id) {
        return Err(not_belonging(record_id, " does not belong to tenant ", tenant_id));
    }
    if !text_eq(scope.namespace.as_str(), namespace) {
        return Err(not_belonging(record_id, " does not belong to namespace ", namespace));
    }
    Ok(())
}

/// The states a record moves to and whether that is a change.
#[derive(Debug, Clone, Copy, PartialEq, Eq, Structural)]
pub struct StateChange {
    pub quality_state: MemoryQualityState,
    pub historical_state: MemoryHistoricalState,
    pub changed: bool,
}

/// Archiving: the record becomes archived, and a current record becomes
/// historical; it is a change unless it already was archived and not current.
pub open spec fn spec_archive_change(
    quality: MemoryQualityState,
    historical: MemoryHistoricalState,
) -> StateChange {
    StateChange {
        quality_state: MemoryQualityState::Archived,
        historical_state: if historical == MemoryHistoricalState::Current {
            MemoryHistoricalState::Historical
        } else {
            historical
        },
        changed: quality != MemoryQualityState::Archived || historical
            == MemoryHistoricalState::Current,
    }
}

/// Suppressing: the record becomes suppressed and keeps its historical
/// state; it is a change unless it already was suppressed.
pub open spec fn spec_suppress_change(
    quality: MemoryQualityState,
    historical: MemoryHistoricalState,
) -> StateChange {
    StateChange {
        quality_state: MemoryQualityState::Suppressed,
        historical_state: historical,
        changed: quality != MemoryQualityState::Suppressed,
    }
}

/// Recovering: the record takes the requested quality state and the
/// requested historical state (current when none is given).
pub open spec fn spec_recover_change(
    quality: MemoryQualityState,
    historical: MemoryHistoricalState,
    target_quality: MemoryQualityState,
    target_historical: Option<MemoryHistoricalState>,
) -> StateChange {
    let h = match target_historical {
        Some(v) => v,
        None => MemoryHistoricalState::Current,
    };
    StateChange {
        quality_state: target_quality,
        historical_state: h,
        changed: quality != target_quality || historical != h,
    }
}

/// What archiving a record in these states does.
pub fn archive_change(quality: MemoryQualityState, historical: MemoryHistoricalState) -> (r:
    StateChange)
    ensures
        r == spec_archive_change(quality, historical),
{
    let changed = quality != MemoryQualityState::Archived || historical
        == MemoryHistoricalState::Current;
    let historical_state = match historical {
        MemoryHistoricalState::Current => MemoryHistoricalState::Historical,
        other => other,
    };
    StateChange { quality_state: MemoryQualityState::Archived, historical_state, changed }
}

/// What suppressing a record in these states does.
pub fn suppress_change(quality: MemoryQualityState, historical: MemoryHistoricalState) -> (r:
    StateChange)
    ensures
        r == spec_suppress_change(quality, historical),
{
    StateChange {
        quality_state: MemoryQualityState::Suppressed,
        historical_state: historical,
        changed: quality != MemoryQualityState::Suppressed,
    }
}

/// What recovering a record in these states to the requested ones does.
pub fn recover_change(
    quality: MemoryQualityState,
    historical: MemoryHistoricalState,
    target_quality: MemoryQualityState,
    target_historical: Option<MemoryHistoricalState>,
) -> (r: StateChange)
    ensures
        r == spec_recover_change(quality, historical, target_quality, target_historical),
{
    let h = match target_historical {
        Some(v) => v,
        None => MemoryHistoricalState::Current,
    };
    StateChange {
        quality_state: target_quality,
        historical_state: h,
        changed: quality != target_quality || historical != h,
    }
}

/// Archiving twice is archiving once: the second time changes nothing.
pub proof fn lemma_archive_idempotent(quality: MemoryQualityState, historical: MemoryHistoricalState)
    ensures
        ({
            let once = spec_archive_change(quality, historical);
            let twice = spec_archive_change(once.quality_state, once.historical_state);
            &&& !twice.changed
            &&& twice.quality_state == once.quality_state
            &&& twice.historical_state == once.historical_state
        }),
{
}

/// Suppressing twice is suppressing once.
pub proof fn lemma_suppress_idempotent(quality: MemoryQualityState, historical: MemoryHistoricalState)
    ensures
        ({
            let once = spec_suppress_change(quality, historical);
            let twice = spec_suppress_change(once.quality_state, once.historical_state);
            &&& !twice.changed
            &&& twice.quality_state == once.quality_state
            &&& twice.historical_state == once.historical_state
        }),
{
}

/// Recovering twice with the same request is recovering once, and a
/// recovered record is back in an active or verified, non-superseded state
/// whenever the request was valid.
pub proof fn lemma_recover_idempotent(
    quality: MemoryQualityState,
    historical: MemoryHistoricalState,
    target_quality: MemoryQualityState,
    target_historical: Option<MemoryHistoricalState>,
)
    ensures
        ({
            let once = spec_recover_change(quality, historical, target_quality, target_historical);
            let twice = spec_recover_change(
                once.quality_state,
                once.historical_state,
                target_quality,
                target_historical,
            );
            &&& !twice.changed
            &&& twice.quality_state == once.quality_state
            &&& twice.historical_state == once.historical_state
            &&& (target_quality == MemoryQualityState::Active || target_quality
                == MemoryQualityState::Verified) && target_historical != Some(
                MemoryHistoricalState::Superseded,
            ) ==> once.historical_state != MemoryHistoricalState::Superseded
        }),
{
}

/// Whether a record in these states is visible to recall by default (not
/// archived, deleted or suppressed).
pub open spec fn spec_is_live(quality: MemoryQualityState) -> bool {
    !(quality == MemoryQualityState::Archived || quality == MemoryQualityState::Deleted || quality
        == MemoryQualityState::Suppressed)
}

/// Whether a tenant and namespace pass optional filters on them.
pub open spec fn spec_scope_matches_filters(
    tenant_id: Seq<char>,
    namespace: Seq<char>,
    tenant_filter: Option<Seq<char>>,
    namespace_filter: Option<Seq<char>>,
) -> bool {
    (match tenant_filter {
        Some(t) => tenant_id == t,
        None => true,
    }) && (match namespace_filter {
        Some(n) => namespace == n,
        None => true,
    })
}

/// The text form of an optional borrowed text.
pub open spec fn spec_str_view(value: Option<&str>) -> Option<Seq<char>> {
    match value {
        Some(v) => Some(v@),
        None => None,
    }
}

/// Whether a tenant and namespace pass optional filters on them.
pub fn scope_matches_filters(
    tenant_id: &str,
    namespace: &str,
    tenant_filter: Option<&str>,
    namespace_filter: Option<&str>,
) -> (r: bool)
    ensures
        r == spec_scope_matches_filters(
            tenant_id@,
            namespace@,
            spec_str_view(tenant_filter),
            spec_str_view(namespace_filter),
        ),
{
    let tenant_ok = match tenant_filter {
        Some(t) => text_eq(tenant_id, t),
        None => true,
    };
    let namespace_ok = match namespace_filter {
        Some(n) => text_eq(namespace, n),
        None => true,
    };
    tenant_ok && namespace_ok
}

/// Whether a record's scope is the scope a recall asks for: the same tenant,
/// namespace and actor, and the same conversation and session where the
/// query names them.
pub open spec fn spec_matches_scope(candidate: MemoryScope, query: MemoryScope) -> bool {
    &&& candidate.tenant_id@ == query.tenant_id@
    &&& candidate.namespace@ == query.namespace@
    &&& candidate.actor_id@ == query.actor_id@
    &&& (query.conversation_id is None || spec_option_view(candidate.conversation_id)
        == spec_option_view(query.conversation_id))
    &&& (query.session_id is None || spec_option_view(candidate.session_id) == spec_option_view(
        query.session_id,
    ))
}

fn option_equal(a: &Option<String>, b: &Option<String>) -> (r: bool)
    ensures
        r == (spec_option_view(*a) == spec_option_view(*b)),
{
    match (a, b) {
        (Some(x), Some(y)) => text_eq(x.as_str(), y.as_str()),
        (None, None) => true,
        _ => false,
    }
}

/// Whether a record's scope is the scope a recall asks for.
pub fn matches_scope(candidate: &MemoryScope, query: &MemoryScope) -> (r: bool)
    ensures
        r == spec_matches_scope(*candidate, *query),
{
    text_eq(candidate.tenant_id.as_str(), query.tenant_id.as_str()) && text_eq(
        candidate.namespace.as_str(),
        query.namespace.as_str(),
    ) && text_eq(candidate.actor_id.as_str(), query.actor_id.as_str()) && (
    query.conversation_id.is_none() || option_equal(
        &candidate.conversation_id,
        &query.conversation_id,
    )) && (query.session_id.is_none() || option_equal(&candidate.session_id, &query.session_id))
}

/// The filters of a recall apart from the minimum importance score.
#[derive(Debug, Clone, PartialEq, Eq)]
pub struct RecallFilterFrame {
    pub kinds: Vec<MemoryRecordKind>,
    pub required_labels: Vec<String>,
    pub source: Option<String>,
    pub from_unix_ms: Option<u64>,
    pub to_unix_ms: Option<u64>,
    pub trust_levels: Vec<MemoryTrustLevel>,
    pub states: Vec<MemoryQualityState>,
    pub include_archived: bool,
    pub episode_id: Option<String>,
    pub continuity_states: Vec<EpisodeContinuityState>,
    pub unresolved_only: bool,
    pub temporal_order: crate::query::RecallTemporalOrder,
    pub historical_mode: RecallHistoricalMode,
    pub lineage_record_id: Option<String>,
}

/// Whether some lineage link of the record points at `target`.
pub open spec fn spec_links_to(record: RecordFrame, target: Seq<char>) -> bool {
    exists|i: int| 0 <= i < record.lineage@.len() && (#[trigger] record.lineage@[i]).record_id@ == target
}

/// Whether a record may be returned by a recall in `scope` with these
/// filters at time `now_unix_ms` (the minimum importance aside): it is in the
/// scope and not expired, and it meets every filter that is set; without a
/// state filter, deleted and suppressed records never pass and archived ones
/// only when asked for.
pub open spec fn spec_passes_filters(
    record: RecordFrame,
    scope: MemoryScope,
    filters: RecallFilterFrame,
    now_unix_ms: u64,
) -> bool {
    &&& spec_matches_scope(record.scope, scope)
    &&& (match record.expires_at_unix_ms {
        Some(expires) => expires > now_unix_ms,
        None => true,
    })
    &&& (match filters.source {
        Some(source) => record.scope.source@ == source@,
        None => true,
    })
    &&& (match filters.from_unix_ms {
        Some(from) => record.updated_at_unix_ms >= from,
        None => true,
    })
    &&& (match filters.to_unix_ms {
        Some(to) => record.updated_at_unix_ms <= to,
        None => true,
    })
    &&& (filters.trust_levels@.len() == 0 || filters.trust_levels@.contains(record.scope.trust_level))
    &&& (forall|i: int|
        0 <= i < filters.required_labels@.len() ==> spec_seq_has(
            record.scope.labels@,
            (#[trigger] filters.required_labels@[i])@,
        ))
    &&& (filters.kinds@.len() == 0 || filters.kinds@.contains(record.kind))
    &&& (match filters.episode_id {
        Some(id) => record.episode matches Some(ep) && ep.episode_id@ == id@,
        None => true,
    })
    &&& (filters.continuity_states@.len() == 0 || (record.episode matches Some(ep)
        && filters.continuity_states@.contains(ep.continuity_state)))
    &&& (!filters.unresolved_only || (record.episode matches Some(ep)
        && ep.continuity_state.spec_is_unresolved()))
    &&& (match filters.lineage_record_id {
        Some(target) => record.id@ == target@ || spec_links_to(record, target@),
        None => true,
    })
    &&& (match filters.historical_mode {
        RecallHistoricalMode::CurrentOnly => record.historical_state
            == MemoryHistoricalState::Current,
        RecallHistoricalMode::HistoricalOnly => record.historical_state
            != MemoryHistoricalState::Current,
        RecallHistoricalMode::IncludeHistorical => true,
    })
    &&& (if filters.states@.len() > 0 {
        filters.states@.contains(record.quality_state)
    } else {
        !(record.quality_state == MemoryQualityState::Deleted || record.quality_state
            == MemoryQualityState::Suppressed) && (record.quality_state
            != MemoryQualityState::Archived || filters.include_archived)
    })
}

fn has_kind(items: &Vec<MemoryRecordKind>, value: MemoryRecordKind) -> (r: bool)
    ensures
        r == items@.contains(value),
{
    let n = items.len();
    let mut i: usize = 0;
    while i < n
        invariant
            n == items@.len(),
            i <= n,
            forall|j: int| 0 <= j < i ==> items@[j] != value,
        decreases n - i,
    {
        if items[i] == value {
            return true;
        }
        i += 1;
    }
    false
}

fn has_trust_level(items: &Vec<MemoryTrustLevel>, value: MemoryTrustLevel) -> (r: bool)
    ensures
        r == items@.contains(value),
{
    let n = items.len();
    let mut i: usize = 0;
    while i < n
        invariant
            n == items@.len(),
            i <= n,
            forall|j: int| 0 <= j < i ==> items@[j] != value,
        decreases n - i,
    {
        if items[i] == value {
            return true;
        }
        i += 1;
    }
    false
}

fn has_quality_state(items: &Vec<MemoryQualityState>, value: MemoryQualityState) -> (r: bool)
    ensures
        r == items@.contains(value),
{
    let n = items.len();
    let mut i: usize = 0;
    while i < n
        invariant
            n == items@.len(),
            i <= n,
            forall|j: int| 0 <= j < i ==> items@[j] != value,
        decreases n - i,
    {
        if items[i] == value {
            return true;
        }
        i += 1;
    }
    false
}

fn has_continuity_state(items: &Vec<EpisodeContinuityState>, value: EpisodeContinuityState) -> (r:
    bool)
    ensures
        r == items@.contains(value),
{
    let n = items.len();
    let mut i: usize = 0;
    while i < n
        invariant
            n == items@.len(),
            i <= n,
            forall|j: int| 0 <= j < i ==> items@[j] != value,
        decreases n - i,
    {
        if items[i] == value {
            return true;
        }
        i += 1;
    }
    false
}

fn has_all_labels(labels: &Vec<String>, required: &Vec<String>) -> (r: bool)
    ensures
        r == forall|i: int|
            0 <= i < required@.len() ==> spec_seq_has(labels@, (#[trigger] required@[i])@),
{
    let n = required.len();
    let mut i: usize = 0;
    while i < n
        invariant
            n == required@.len(),
            i <= n,
            forall|j: int| 0 <= j < i ==> spec_seq_has(labels@, (#[trigger] required@[j])@),
        decreases n - i,
    {
        if !list_contains(labels, required[i].as_str()) {
            return false;
        }
        i += 1;
    }
    true
}

fn links_to(record: &RecordFrame, target: &str) -> (r: bool)
    ensures
        r == spec_links_to(*record, target@),
{
    let n = record.lineage.len();
    let mut i: usize = 0;
    while i < n
        invariant
            n == record.lineage@.len(),
            i <= n,
            forall|j: int| 0 <= j < i ==> (#[trigger] record.lineage@[j]).record_id@ != target@,
        decreases n - i,
    {
        if text_eq(record.lineage[i].record_id.as_str(), target) {
            return true;
        }
        i += 1;
    }
    false
}

/// Whether a record may be returned by a recall in `scope` with these
/// filters at time `now_unix_ms` (the minimum importance aside).
pub fn record_passes_filters(
    record: &RecordFrame,
    scope: &MemoryScope,
    filters: &RecallFilterFrame,
    now_unix_ms: u64,
) -> (r: bool)
    ensures
        r == spec_passes_filters(*record, *scope, *filters, now_unix_ms),
{
    if !matches_scope(&record.scope, scope) {
        return false;
    }
    match record.expires_at_unix_ms {
        Some(expires) => {
            if expires <= now_unix_ms {
                return false;
            }
        },
        None => {},
    }
    match &filters.source {
        Some(source) => {
            if !text_eq(record.scope.source.as_str(), source.as_str()) {
                return false;
            }
        },
        None => {},
    }
    match filters.from_unix_ms {
        Some(from) => {
            if record.updated_at_unix_ms < from {
                return false;
            }
        },
        None => {},
    }
    match filters.to_unix_ms {
        Some(to) => {
            if record.updated_at_unix_ms > to {
                return false;
            }
        },
        None => {},
    }
    if filters.trust_levels.len() > 0 && !has_trust_level(
        &filters.trust_levels,
        record.scope.trust_level,
    ) {
        return false;
    }
    if !has_all_labels(&record.scope.labels, &filters.required_labels) {
        return false;
    }
    if filters.kinds.len() > 0 && !has_kind(&filters.kinds, record.kind) {
        return false;
    }
    match &filters.episode_id {
        Some(id) => {
            let same = match &record.episode {
                Some(ep) => text_eq(ep.episode_id.as_str(), id.as_str()),
                None => false,
            };
            if !same {
                return false;
            }
        },
        None => {},
    }
    if filters.continuity_states.len() > 0 {
        let listed = match &record.episode {
            Some(ep) => has_continuity_state(&filters.continuity_states, ep.continuity_state),
            None => false,
        };
        if !listed {
            return false;
        }
    }
    if filters.unresolved_only {
        let unresolved = match &record.episode {
            Some(ep) => ep.continuity_state.is_unresolved(),
            None => false,
        };
        if !unresolved {
            return false;
        }
    }
    match &filters.lineage_record_id {
        Some(target) => {
            if !text_eq(record.id.as_str(), target.as_str()) && !links_to(record, target.as_str()) {
                return false;
            }
        },
        None => {},
    }
    match filters.historical_mode {
        RecallHistoricalMode::CurrentOnly => {
            if record.historical_state != MemoryHistoricalState::Current {
                return false;
            }
        },
        RecallHistoricalMode::HistoricalOnly => {
            if record.historical_state == MemoryHistoricalState::Current {
                return false;
            }
        },
        RecallHistoricalMode::IncludeHistorical => {},
    }
    if filters.states.len() > 0 {
        if !has_quality_state(&filters.states, record.quality_state) {
            return false;
        }
    } else {
        match record.quality_state {
            MemoryQualityState::Archived => {
                if !filters.include_archived {
                    return false;
                }
            },
            MemoryQualityState::Deleted | MemoryQualityState::Suppressed => {
                return false;
            },
            _ => {},
        }
    }
    true
}

/// The number of words of a record's content and summary: its token
/// estimate.
pub open spec fn spec_approximate_tokens(record: RecordFrame) -> nat {
    spec_words(record.content@).len() + match record.summary {
        Some(s) => spec_words(s@).len(),
        None => 0,
    }
}

/// Estimates the tokens a record takes up by counting its words.
pub fn approximate_tokens(record: &RecordFrame) -> (r: usize)
    requires
        spec_approximate_tokens(*record) <= usize::MAX,
    ensures
        r == spec_approximate_tokens(*record),
{
    let content = words(record.content.as_str());
    let summary_tokens: usize = match &record.summary {
        Some(s) => {
            let w = words(s.as_str());
            assert(w@.map_values(|x: String| x@).len() == w@.len());
            w.len()
        },
        None => 0,
    };
    assert(content@.map_values(|w: String| w@).len() == content@.len());
    content.len() + summary_tokens
}

/// The moment a record is placed at in time: its episode's last activity or
/// start, else its last update.
pub open spec fn spec_temporal_anchor(record: RecordFrame) -> u64 {
    match record.episode {
        Some(ep) => match ep.last_active_unix_ms {
            Some(t) => t,
            None => match ep.started_at_unix_ms {
                Some(t) => t,
                None => record.updated_at_unix_ms,
            },
        },
        None => record.updated_at_unix_ms,
    }
}

/// The moment a record is placed at in time.
pub fn record_temporal_anchor(record: &RecordFrame) -> (r: u64)
    ensures
        r == spec_temporal_anchor(*record),
{
    match &record.episode {
        Some(ep) => match ep.last_active_unix_ms {
            Some(t) => t,
            None => match ep.started_at_unix_ms {
                Some(t) => t,
                None => record.updated_at_unix_ms,
            },
        },
        None => record.updated_at_unix_ms,
    }
}

/// Why an upsert is refused before anything is written: the record breaks
/// a rule (its own, else one of its affective annotation), or the ingestion
/// policy asks for an idempotency key or a source label it lacks.
pub open spec fn spec_upsert_violation(
    record: RecordFrame,
    affective: Option<Error>,
    has_idempotency_key: bool,
    ingestion: IngestionPolicy,
) -> Option<(ErrorKind, Seq<char>)> {
    match record.spec_violation() {
        Some(v) => Some(v),
        None => match affective {
            Some(e) => Some((e.spec_kind(), e.spec_message())),
            None => if !has_idempotency_key && ingestion.idempotent_writes_required {
                Some(
                    (
                        ErrorKind::InvalidRequest,
                        "idempotency_key is required by the current ingestion policy"@,
                    ),
                )
            } else if ingestion.require_source_labels && record.scope.labels@.len() == 0 {
                Some(
                    (
                        ErrorKind::InvalidRequest,
                        "at least one source label is required by the current ingestion policy"@,
                    ),
                )
            } else {
                None
            },
        },
    }
}

/// Checks an upsert against the record's rules and the ingestion policy
/// (`affective` is what checking the record's affective annotation found).
pub fn check_upsert(
    record: &RecordFrame,
    affective: Option<Error>,
    has_idempotency_key: bool,
    ingestion: &IngestionPolicy,
) -> (r: Result<(), Error>)
    ensures
        match spec_upsert_violation(*record, affective, has_idempotency_key, *ingestion) {
            None => r is Ok,
            Some((kind, message)) => r matches Err(e) && e.spec_is(kind, message),
        },
{
    match record.validate() {
        Ok(()) => {},
        Err(e) => {
            return Err(e);
        },
    }
    match affective {
        Some(e) => {
            return Err(e);
        },
        None => {},
    }
    if !has_idempotency_key && ingestion.idempotent_writes_required {
        return Err(
            Error::InvalidRequest(
                String::from_str("idempotency_key is required by the current ingestion policy"),
            ),
        );
    }
    if ingestion.require_source_labels && record.scope.labels.len() == 0 {
        return Err(
            Error::InvalidRequest(
                String::from_str(
                    "at least one source label is required by the current ingestion policy",
                ),
            ),
        );
    }
    Ok(())
}

/// The next step of an upsert once its idempotency mapping was read.
pub enum UpsertStep {
    /// The key already maps to this record, which is stored: nothing to
    /// write.
    AlreadyStored(UpsertReceipt),
    /// Write the record (after removing the mapping, when it names a record
    /// that is gone).
    Write { clear_stale_mapping: bool },
}

/// Decides what an upsert of `record_id` does given the record its
/// idempotency key already maps to (if any) and whether that record is
/// stored: a key of another record is a conflict, a key of this stored
/// record needs no write, and a key of a record that is gone is cleared.
pub fn plan_upsert(record_id: &str, mapped_record: Option<&str>, mapped_record_stored: bool) -> (r:
    Result<UpsertStep, Error>)
    ensures
        match mapped_record {
            None => r matches Ok(UpsertStep::Write { clear_stale_mapping }) && !clear_stale_mapping,
            Some(existing) => if existing@ != record_id@ {
                r matches Err(e) && e.spec_is(
                    ErrorKind::Conflict,
                    "idempotency key already belongs to record "@ + existing@,
                )
            } else if mapped_record_stored {
                r matches Ok(UpsertStep::AlreadyStored(receipt)) && receipt.record_id@ == existing@
                    && receipt.deduplicated && !receipt.summary_refreshed
            } else {
                r matches Ok(UpsertStep::Write { clear_stale_mapping }) && clear_stale_mapping
            },
        },
{
    match mapped_record {
        None => Ok(UpsertStep::Write { clear_stale_mapping: false }),
        Some(existing) => {
            if !text_eq(existing, record_id) {
                let mut message = String::from_str("idempotency key already belongs to record ");
                message.append(existing);
                return Err(Error::Conflict(message));
            }
            if mapped_record_stored {
                return Ok(
                    UpsertStep::AlreadyStored(
                        UpsertReceipt {
                            record_id: String::from_str(existing),
                            deduplicated: true,
                            summary_refreshed: false,
                        },
                    ),
                );
            }
            Ok(UpsertStep::Write { clear_stale_mapping: true })
        },
    }
}

/// Checks that a batch is no larger than the configured maximum.
pub fn check_batch_size(size: usize, max_batch_size: usize) -> (r: Result<(), Error>)
    ensures
        r is Ok <==> size <= max_batch_size,
        r matches Err(e) ==> e.spec_is(
            ErrorKind::InvalidRequest,
            "batch size "@ + spec_decimal(size as nat) + " exceeds configured max_batch_size "@
                + spec_decimal(max_batch_size as nat),
        ),
{
    if size > max_batch_size {
        let mut message = String::from_str("batch size ");
        let a = decimal_string(size as u64);
        message.append(a.as_str());
        message.append(" exceeds configured max_batch_size ");
        let b = decimal_string(max_batch_size as u64);
        message.append(b.as_str());
        return Err(Error::InvalidRequest(message));
    }
    Ok(())
}

/// What a delete does to the stored record.
#[derive(Debug, Clone, Copy, PartialEq, Eq, Structural)]
pub enum DeleteAction {
    Nothing,
    Remove,
    Tombstone,
}

/// Plans a delete given the stored record with the requested id, if any: a
/// missing record is no error and nothing happens; a record of another
/// tenant or namespace is refused; otherwise it is removed for good or
/// marked deleted.
pub fn plan_delete(request: &DeleteRequest, stored: Option<&RecordFrame>) -> (r: Result<
    (DeleteReceipt, DeleteAction),
    Error,
>)
    ensures
        match spec_lifecycle_violation(
            "delete"@,
            request.tenant_id@,
            request.namespace@,
            request.record_id@,
            request.audit_reason@,
        ) {
            Some(message) => r matches Err(e) && e.spec_is(ErrorKind::InvalidRequest, message),
            None => match stored {
                None => r matches Ok((receipt, action)) && receipt.record_id@ == request.record_id@
                    && !receipt.tombstoned && !receipt.hard_deleted && action == DeleteAction::Nothing,
                Some(record) => match spec_scope_violation(
                    request.record_id@,
                    record.scope,
                    request.tenant_id@,
                    request.namespace@,
                ) {
                    Some(message) => r matches Err(e) && e.spec_is(
                        ErrorKind::InvalidRequest,
                        message,
                    ),
                    None => r matches Ok((receipt, action)) && receipt.record_id@
                        == request.record_id@ && receipt.tombstoned == !request.hard_delete
                        && receipt.hard_deleted == request.hard_delete && action == if request.hard_delete {
                        DeleteAction::Remove
                    } else {
                        DeleteAction::Tombstone
                    },
                },
            },
        },
{
    match validate_delete_request(request) {
        Ok(()) => {},
        Err(e) => {
            return Err(e);
        },
    }
    match stored {
        None => Ok(
            (
                DeleteReceipt {
                    record_id: request.record_id.clone(),
                    tombstoned: false,
                    hard_deleted: false,
                },
                DeleteAction::Nothing,
            ),
        ),
        Some(record) => {
            match validate_record_scope(
                request.record_id.as_str(),
                &record.scope,
                request.tenant_id.as_str(),
                request.namespace.as_str(),
            ) {
                Ok(()) => {},
                Err(e) => {
                    return Err(e);
                },
            }
            let action = if request.hard_delete {
                DeleteAction::Remove
            } else {
                DeleteAction::Tombstone
            };
            Ok(
                (
                    DeleteReceipt {
                        record_id: request.record_id.clone(),
                        tombstoned: !request.hard_delete,
                        hard_deleted: request.hard_delete,
                    },
                    action,
                ),
            )
        },
    }
}

fn not_found(record_id: &str) -> (r: Error)
    ensures
        r.spec_is(ErrorKind::InvalidRequest, "record "@ + record_id@ + " was not found"@),
{
    let mut message = String::from_str("record ");
    message.append(record_id);
    message.append(" was not found");
    Error::InvalidRequest(message)
}

/// How a lifecycle change on a stored record turns out: refused, or a state
/// change that is written unless it changes nothing or is a dry run.
pub open spec fn spec_lifecycle_outcome(
    violation: Option<Seq<char>>,
    record_id: Seq<char>,
    stored: Option<RecordFrame>,
    tenant_id: Seq<char>,
    namespace: Seq<char>,
) -> Option<Seq<char>> {
    match violation {
        Some(m) => Some(m),
        None => match stored {
            None => Some("record "@ + record_id + " was not found"@),
            Some(record) => spec_scope_violation(record_id, record.scope, tenant_id, namespace),
        },
    }
}

/// Plans an archive given the stored record with the requested id: the
/// receipt, and whether the change is written.
pub fn plan_archive(request: &ArchiveRequest, stored: Option<&RecordFrame>) -> (r: Result<
    (ArchiveReceipt, bool),
    Error,
>)
    ensures
        match spec_lifecycle_outcome(
            spec_lifecycle_violation(
                "archive"@,
                request.tenant_id@,
                request.namespace@,
                request.record_id@,
                request.audit_reason@,
            ),
            request.record_id@,
            spec_deref(stored),
            request.tenant_id@,
            request.namespace@,
        ) {
            Some(message) => r matches Err(e) && e.spec_is(ErrorKind::InvalidRequest, message),
            None => r matches Ok((receipt, write)) && ({
                let record = spec_deref(stored)->Some_0;
                let change = spec_archive_change(record.quality_state, record.historical_state);
                &&& receipt.record_id@ == request.record_id@
                &&& receipt.previous_quality_state == record.quality_state
                &&& receipt.previous_historical_state == record.historical_state
                &&& receipt.quality_state == change.quality_state
                &&& receipt.historical_state == change.historical_state
                &&& receipt.changed == change.changed
                &&& receipt.dry_run == request.dry_run
                &&& write == (change.changed && !request.dry_run)
            }),
        },
{
    match validate_archive_request(request) {
        Ok(()) => {},
        Err(e) => {
            return Err(e);
        },
    }
    let record = match stored {
        None => {
            return Err(not_found(request.record_id.as_str()));
        },
        Some(record) => record,
    };
    match validate_record_scope(
        request.record_id.as_str(),
        &record.scope,
        request.tenant_id.as_str(),
        request.namespace.as_str(),
    ) {
        Ok(()) => {},
        Err(e) => {
            return Err(e);
        },
    }
    let change = archive_change(record.quality_state, record.historical_state);
    Ok(
        (
            ArchiveReceipt {
                record_id: request.record_id.clone(),
                previous_quality_state: record.quality_state,
                previous_historical_state: record.historical_state,
                quality_state: change.quality_state,
                historical_state: change.historical_state,
                changed: change.changed,
                dry_run: request.dry_run,
            },
            change.changed && !request.dry_run,
        ),
    )
}

/// Plans a suppression given the stored record with the requested id: the
/// receipt, and whether the change is written.
pub fn plan_suppress(request: &SuppressRequest, stored: Option<&RecordFrame>) -> (r: Result<
    (SuppressReceipt, bool),
    Error,
>)
    ensures
        match spec_lifecycle_outcome(
            spec_lifecycle_violation(
                "suppress"@,
                request.tenant_id@,
                request.namespace@,
                request.record_id@,
                request.audit_reason@,
            ),
            request.record_id@,
            spec_deref(stored),
            request.tenant_id@,
            request.namespace@,
        ) {
            Some(message) => r matches Err(e) && e.spec_is(ErrorKind::InvalidRequest, message),
            None => r matches Ok((receipt, write)) && ({
                let record = spec_deref(stored)->Some_0;
                let change = spec_suppress_change(record.quality_state, record.historical_state);
                &&& receipt.record_id@ == request.record_id@
                &&& receipt.previous_quality_state == record.quality_state
                &&& receipt.previous_historical_state == record.historical_state
                &&& receipt.quality_state == change.quality_state
                &&& receipt.historical_state == change.historical_state
                &&& receipt.changed == change.changed
                &&& receipt.dry_run == request.dry_run
                &&& write == (change.changed && !request.dry_run)
            }),
        },
{
    match validate_suppress_request(request) {
        Ok(()) => {},
        Err(e) => {
            return Err(e);
        },
    }
    let record = match stored {
        None => {
            return Err(not_found(request.record_id.as_str()));
        },
        Some(record) => record,
    };
    match validate_record_scope(
        request.record_id.as_str(),
        &record.scope,
        request.tenant_id.as_str(),
        request.namespace.as_str(),
    ) {
        Ok(()) => {},
        Err(e) => {
            return Err(e);
        },
    }
    let change = suppress_change(record.quality_state, record.historical_state);
    Ok(
        (
            SuppressReceipt {
                record_id: request.record_id.clone(),
                previous_quality_state: record.quality_state,
                previous_historical_state: record.historical_state,
                quality_state: change.quality_state,
                historical_state: change.historical_state,
                changed: change.changed,
                dry_run: request.dry_run,
            },
            change.changed && !request.dry_run,
        ),
    )
}

/// Plans a recovery given the stored record with the requested id: the
/// receipt, and whether the change is written.
pub fn plan_recover(request: &RecoverRequest, stored: Option<&RecordFrame>) -> (r: Result<
    (RecoverReceipt, bool),
    Error,
>)
    ensures
        match spec_lifecycle_outcome(
            spec_recover_violation(*request),
            request.record_id@,
            spec_deref(stored),
            request.tenant_id@,
            request.namespace@,
        ) {
            Some(message) => r matches Err(e) && e.spec_is(ErrorKind::InvalidRequest, message),
            None => r matches Ok((receipt, write)) && ({
                let record = spec_deref(stored)->Some_0;
                let change = spec_recover_change(
                    record.quality_state,
                    record.historical_state,
                    request.quality_state,
                    request.historical_state,
                );
                &&& receipt.record_id@ == request.record_id@
                &&& receipt.previous_quality_state == record.quality_state
                &&& receipt.previous_historical_state == record.historical_state
                &&& receipt.quality_state == change.quality_state
                &&& receipt.historical_state == change.historical_state
                &&& receipt.changed == change.changed
                &&& receipt.dry_run == request.dry_run
                &&& write == (change.changed && !request.dry_run)
            }),
        },
{
    match validate_recover_request(request) {
        Ok(()) => {},
        Err(e) => {
            return Err(e);
        },
    }
    let record = match stored {
        None => {
            return Err(not_found(request.record_id.as_str()));
        },
        Some(record) => record,
    };
    match validate_record_scope(
        request.record_id.as_str(),
        &record.scope,
        request.tenant_id.as_str(),
        request.namespace.as_str(),
    ) {
        Ok(()) => {},
        Err(e) => {
            return Err(e);
        },
    }
    let change = recover_change(
        record.quality_state,
        record.historical_state,
        request.quality_state,
        request.historical_state,
    );
    Ok(
        (
            RecoverReceipt {
                record_id: request.record_id.clone(),
                previous_quality_state: record.quality_state,
                previous_historical_state: record.historical_state,
                quality_state: change.quality_state,
                historical_state: change.historical_state,
                changed: change.changed,
                dry_run: request.dry_run,
            },
            change.changed && !request.dry_run,
        ),
    )
}

/// The stored record behind an optional borrow.
pub open spec fn spec_deref(stored: Option<&RecordFrame>) -> Option<RecordFrame> {
    match stored {
        Some(r) => Some(*r),
        None => None,
    }
}

/// The steps of a maintenance run: an integrity check before and after
/// (when asked), a repair (when asked), and a compaction (when asked and a
/// tenant is named), each for the run's tenant and namespace.
pub struct MaintenanceSteps {
    pub integrity_before: Option<IntegrityCheckRequest>,
    pub repair: Option<RepairRequest>,
    pub compaction: Option<CompactionRequest>,
    pub integrity_after: Option<IntegrityCheckRequest>,
}

/// The steps of a maintenance run.
pub fn maintenance_steps(request: &MaintenanceRunRequest) -> (r: MaintenanceSteps)
    ensures
        r.integrity_before is Some == request.run_integrity_check,
        r.integrity_after is Some == request.run_integrity_check,
        r.integrity_before matches Some(c) ==> spec_option_view(c.tenant_id) == spec_option_view(
            request.tenant_id,
        ) && spec_option_view(c.namespace) == spec_option_view(request.namespace),
        r.integrity_after matches Some(c) ==> spec_option_view(c.tenant_id) == spec_option_view(
            request.tenant_id,
        ) && spec_option_view(c.namespace) == spec_option_view(request.namespace),
        r.repair is Some == request.run_repair,
        r.repair matches Some(p) ==> spec_option_view(p.tenant_id) == spec_option_view(
            request.tenant_id,
        ) && spec_option_view(p.namespace) == spec_option_view(request.namespace) && p.dry_run
            == request.dry_run && p.reason@ == request.reason@ && p.remove_stale_idempotency_keys
            == request.remove_stale_idempotency_keys && p.rebuild_missing_idempotency_keys
            == request.rebuild_missing_idempotency_keys,
        r.compaction is Some == (request.run_compaction && request.tenant_id is Some),
        r.compaction matches Some(c) ==> Some(c.tenant_id@) == spec_option_view(request.tenant_id)
            && spec_option_view(c.namespace) == spec_option_view(request.namespace) && c.dry_run
            == request.dry_run && c.reason@ == request.reason@,
{
    let integrity_before = if request.run_integrity_check {
        Some(
            IntegrityCheckRequest {
                tenant_id: copy_option_text(&request.tenant_id),
                namespace: copy_option_text(&request.namespace),
            },
        )
    } else {
        None
    };
    let repair = if request.run_repair {
        Some(
            RepairRequest {
                tenant_id: copy_option_text(&request.tenant_id),
                namespace: copy_option_text(&request.namespace),
                dry_run: request.dry_run,
                reason: request.reason.clone(),
                remove_stale_idempotency_keys: request.remove_stale_idempotency_keys,
                rebuild_missing_idempotency_keys: request.rebuild_missing_idempotency_keys,
            },
        )
    } else {
        None
    };
    let compaction = if request.run_compaction {
        match &request.tenant_id {
            Some(tenant_id) => Some(
                CompactionRequest {
                    tenant_id: tenant_id.clone(),
                    namespace: copy_option_text(&request.namespace),
                    dry_run: request.dry_run,
                    reason: request.reason.clone(),
                },
            ),
            None => None,
        }
    } else {
        None
    };
    let integrity_after = if request.run_integrity_check {
        Some(
            IntegrityCheckRequest {
                tenant_id: copy_option_text(&request.tenant_id),
                namespace: copy_option_text(&request.namespace),
            },
        )
    } else {
        None
    };
    MaintenanceSteps { integrity_before, repair, compaction, integrity_after }
}

} // verus!
