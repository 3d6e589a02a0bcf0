//! Requests and reports of recall, maintenance, inspection, tracing and
//! portability operations.

use vstd::prelude::*;
use crate::config::EngineTuningInfo;
use crate::model::{
    ConflictReviewState, EpisodeContinuityState, MemoryHistoricalState, MemoryQualityState,
    MemoryRecordKind,
};

verus! {

#[derive(Debug, Clone, Copy, PartialEq, Eq, Structural, Default)]
pub enum RecallTemporalOrder {
    #[default]
    Relevance,
    ChronologicalAsc,
    ChronologicalDesc,
}

#[derive(Debug, Clone, Copy, PartialEq, Eq, Structural, Default)]
pub enum RecallHistoricalMode {
    #[default]
    CurrentOnly,
    IncludeHistorical,
    HistoricalOnly,
}

#[derive(Debug, Clone, Copy, PartialEq, Eq, Structural, Default)]
pub enum RecallPlannerStage {
    #[default]
    CandidateGeneration,
    GraphExpansion,
    Selection,
}

/// The channels through which a record became a recall candidate, in the
/// order in which they are reported.
#[derive(Debug, Clone, Copy, PartialEq, Eq, Structural)]
pub enum RecallCandidateSource {
    Lexical,
    Semantic,
    Metadata,
    Episode,
    Graph,
    Temporal,
    Provenance,
}

#[derive(Debug, Clone, PartialEq, Eq)]
pub struct CompactionRequest {
    pub tenant_id: String,
    pub namespace: Option<String>,
    pub dry_run: bool,
    pub reason: String,
}

#[derive(Debug, Clone, Copy, PartialEq, Eq)]
pub struct CompactionReport {
    pub deduplicated_records: u64,
    pub archived_records: u64,
    pub summarized_clusters: u64,
    pub pruned_graph_edges: u64,
    pub superseded_records: u64,
    pub lineage_links_created: u64,
    pub dry_run: bool,
}

#[derive(Debug, Clone, PartialEq, Eq)]
pub struct SnapshotManifest {
    pub snapshot_id: String,
    pub created_at_unix_ms: u64,
    pub namespaces: Vec<String>,
    pub record_count: u64,
    pub storage_bytes: u64,
    pub engine: EngineTuningInfo,
}

#[derive(Debug, Clone, PartialEq, Eq, Default)]
pub struct StoreStatsRequest {
    pub tenant_id: Option<String>,
    pub namespace: Option<String>,
}

#[derive(Debug, Clone, PartialEq, Eq)]
pub struct NamespaceStats {
    pub tenant_id: String,
    pub namespace: String,
    pub active_records: u64,
    pub archived_records: u64,
    pub deleted_records: u64,
    pub suppressed_records: u64,
    pub pinned_records: u64,
}

#[derive(Debug, Clone, Copy, PartialEq, Eq, Default)]
pub struct MaintenanceStats {
    pub duplicate_candidate_groups: u64,
    pub duplicate_candidate_records: u64,
    pub tombstoned_records: u64,
    pub expired_records: u64,
    pub stale_idempotency_keys: u64,
    pub historical_records: u64,
    pub superseded_records: u64,
    pub lineage_links: u64,
}

#[derive(Debug, Clone, PartialEq, Eq)]
pub struct StoreStatsReport {
    pub generated_at_unix_ms: u64,
    pub total_records: u64,
    pub storage_bytes: u64,
    pub namespaces: Vec<NamespaceStats>,
    pub maintenance: MaintenanceStats,
    pub engine: EngineTuningInfo,
}

#[derive(Debug, Clone, PartialEq, Eq, Default)]
pub struct GraphInspectionRequest {
    pub tenant_id: Option<String>,
    pub namespace: Option<String>,
    pub actor_id: Option<String>,
    pub conversation_id: Option<String>,
    pub session_id: Option<String>,
    pub include_archived: bool,
    pub include_suppressed: bool,
    pub include_deleted: bool,
    pub max_nodes: Option<usize>,
}

#[derive(Debug, Clone, PartialEq, Eq)]
pub struct GraphInspectionNode {
    pub record_id: String,
    pub tenant_id: String,
    pub namespace: String,
    pub actor_id: String,
    pub kind: MemoryRecordKind,
    pub summary: Option<String>,
    pub quality_state: MemoryQualityState,
    pub historical_state: MemoryHistoricalState,
    pub episode_id: Option<String>,
    pub continuity_state: Option<EpisodeContinuityState>,
    pub conflict_state: Option<ConflictReviewState>,
    pub importance_per_mille: u16,
    pub updated_at_unix_ms: u64,
}

#[derive(Debug, Clone, Copy, PartialEq, Eq, Structural)]
pub enum GraphInspectionEdgeKind {
    EpisodeMembership,
    ChronologyPrevious,
    ChronologyNext,
    Causal,
    Related,
    Lineage,
    Conflict,
}

#[derive(Debug, Clone, PartialEq, Eq)]
pub struct GraphInspectionEdge {
    pub source_id: String,
    pub target_id: String,
    pub kind: GraphInspectionEdgeKind,
    pub details: Vec<String>,
}

#[derive(Debug, Clone, PartialEq, Eq)]
pub struct GraphInspectionReport {
    pub generated_at_unix_ms: u64,
    pub total_records_scanned: u64,
    pub nodes: Vec<GraphInspectionNode>,
    pub edges: Vec<GraphInspectionEdge>,
    pub truncated: bool,
}

#[derive(Debug, Clone, PartialEq, Eq, Default)]
pub struct IntegrityCheckRequest {
    pub tenant_id: Option<String>,
    pub namespace: Option<String>,
}

#[derive(Debug, Clone, Copy, PartialEq, Eq)]
pub struct IntegrityCheckReport {
    pub generated_at_unix_ms: u64,
    pub healthy: bool,
    pub scanned_records: u64,
    pub scanned_idempotency_keys: u64,
    pub stale_idempotency_keys: u64,
    pub missing_idempotency_keys: u64,
    pub duplicate_active_records: u64,
}

#[derive(Debug, Clone, PartialEq, Eq, Default)]
pub struct RepairRequest {
    pub tenant_id: Option<String>,
    pub namespace: Option<String>,
    pub dry_run: bool,
    pub reason: String,
    pub remove_stale_idempotency_keys: bool,
    pub rebuild_missing_idempotency_keys: bool,
}

#[derive(Debug, Clone, Copy, PartialEq, Eq)]
pub struct RepairReport {
    pub dry_run: bool,
    pub scanned_records: u64,
    pub scanned_idempotency_keys: u64,
    pub removed_stale_idempotency_keys: u64,
    pub rebuilt_missing_idempotency_keys: u64,
    pub healthy_after: bool,
}

#[derive(Debug, Clone, PartialEq, Eq)]
pub struct MaintenanceRunRequest {
    pub tenant_id: Option<String>,
    pub namespace: Option<String>,
    pub dry_run: bool,
    pub reason: String,
    pub run_integrity_check: bool,
    pub run_repair: bool,
    pub run_compaction: bool,
    pub remove_stale_idempotency_keys: bool,
    pub rebuild_missing_idempotency_keys: bool,
}

impl Default for MaintenanceRunRequest {
    fn default() -> (r: Self)
        ensures
            r.tenant_id is None,
            r.namespace is None,
            r.dry_run,
            r.reason@ == "manual maintenance run"@,
            r.run_integrity_check,
            r.run_repair,
            r.run_compaction,
            r.remove_stale_idempotency_keys,
            r.rebuild_missing_idempotency_keys,
    {
        MaintenanceRunRequest {
            tenant_id: None,
            namespace: None,
            dry_run: true,
            reason: String::from_str("manual maintenance run"),
            run_integrity_check: true,
            run_repair: true,
            run_compaction: true,
            remove_stale_idempotency_keys: true,
            rebuild_missing_idempotency_keys: true,
        }
    }
}

#[derive(Debug, Clone, Copy, PartialEq, Eq)]
pub struct MaintenanceRunReport {
    pub dry_run: bool,
    pub integrity_before: Option<IntegrityCheckReport>,
    pub repair: Option<RepairReport>,
    pub compaction: Option<CompactionReport>,
    pub integrity_after: Option<IntegrityCheckReport>,
}

#[derive(Debug, Clone, Copy, PartialEq, Eq, Structural)]
pub enum ImportMode {
    Validate,
    Merge,
    Replace,
}

#[derive(Debug, Clone, PartialEq, Eq)]
pub struct SnapshotShipRequest {
    pub target_url: String,
    pub bearer_token: Option<String>,
    pub tenant_id: Option<String>,
    pub namespace: Option<String>,
    pub include_archived: bool,
    pub mode: ImportMode,
    pub dry_run: bool,
}

impl Default for SnapshotShipRequest {
    fn default() -> (r: Self)
        ensures
            r.target_url@.len() == 0,
            r.bearer_token is None,
            r.tenant_id is None,
            r.namespace is None,
            !r.include_archived,
            r.mode == ImportMode::Validate,
            r.dry_run,
    {
        SnapshotShipRequest {
            target_url: String::new(),
            bearer_token: None,
            tenant_id: None,
            namespace: None,
            include_archived: false,
            mode: ImportMode::Validate,
            dry_run: true,
        }
    }
}

#[derive(Debug, Clone, PartialEq, Eq)]
pub struct SnapshotShipReport {
    pub target_url: String,
    pub exported_records: u64,
    pub imported_records: u64,
    pub skipped_records: u64,
    pub dry_run: bool,
    pub compatible_package: bool,
    pub remote_status: u16,
    pub remote_snapshot_id: Option<String>,
}

#[derive(Debug, Clone, Copy, PartialEq, Eq, Structural)]
pub enum TraceOperationKind {
    Upsert,
    BatchUpsert,
    Recall,
    Snapshot,
    Stats,
    IntegrityCheck,
    Repair,
    Compact,
    Delete,
    Archive,
    Suppress,
    Recover,
    Export,
    Import,
    MaintenanceRun,
    SnapshotShip,
    Changefeed,
}

#[derive(Debug, Clone, Copy, PartialEq, Eq, Structural)]
pub enum ChangefeedEventKind {
    Upserted,
    Deleted,
    Archived,
    Suppressed,
    Recovered,
    Compacted,
    Imported,
    RetentionArchived,
    RetentionDeleted,
}

#[derive(Debug, Clone, PartialEq, Eq, Default)]
pub struct ChangefeedRequest {
    pub tenant_id: Option<String>,
    pub namespace: Option<String>,
    pub after_sequence: Option<u64>,
    pub limit: Option<usize>,
}

#[derive(Debug, Clone, Copy, PartialEq, Eq, Structural)]
pub enum TraceStatus {
    Succeeded,
    Rejected,
    Error,
}

#[derive(Debug, Clone, PartialEq, Eq, Default)]
pub struct OperationTraceSummary {
    pub record_id: Option<String>,
    pub request_count: Option<u32>,
    pub query_text: Option<String>,
    pub max_items: Option<u32>,
    pub token_budget: Option<u32>,
    pub dry_run: Option<bool>,
}

#[derive(Debug, Clone, PartialEq, Eq, Default)]
pub struct TraceListRequest {
    pub tenant_id: Option<String>,
    pub namespace: Option<String>,
    pub operation: Option<TraceOperationKind>,
    pub status: Option<TraceStatus>,
    pub before_started_at_unix_ms: Option<u64>,
    pub limit: Option<usize>,
}

#[derive(Debug, Clone, PartialEq, Eq, Default)]
pub struct ExportRequest {
    pub tenant_id: Option<String>,
    pub namespace: Option<String>,
    pub include_archived: bool,
}

#[derive(Debug, Clone, PartialEq, Eq)]
pub struct ImportFailure {
    pub record_id: Option<String>,
    pub reason: String,
}

#[derive(Debug, Clone, PartialEq, Eq)]
pub struct ImportReport {
    pub mode: ImportMode,
    pub dry_run: bool,
    pub applied: bool,
    pub compatible_package: bool,
    pub package_version: u32,
    pub validated_records: u64,
    pub imported_records: u64,
    pub skipped_records: u64,
    pub replaced_existing: bool,
    pub snapshot_id: String,
    pub failed_records: Vec<ImportFailure>,
}

} // verus!
