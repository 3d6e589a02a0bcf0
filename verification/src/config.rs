//! Engine configuration: scoring, planning, embedding and maintenance policies.

use vstd::prelude::*;

verus! {

#[derive(Debug, Clone, Copy, PartialEq, Eq, Structural)]
pub enum EmbeddingProviderKind {
    Disabled,
    DeterministicLocal,
}

impl Default for EmbeddingProviderKind {
    fn default() -> (r: Self)
        ensures
            r == EmbeddingProviderKind::Disabled,
    {
        EmbeddingProviderKind::Disabled
    }
}

#[derive(Debug, Clone, Copy, PartialEq, Eq, Structural)]
pub enum RecallScoringProfile {
    Balanced,
    LexicalFirst,
    ImportanceFirst,
}

impl Default for RecallScoringProfile {
    fn default() -> (r: Self)
        ensures
            r == RecallScoringProfile::Balanced,
    {
        RecallScoringProfile::Balanced
    }
}

#[derive(Debug, Clone, Copy, PartialEq, Eq, Structural)]
pub enum RecallScorerKind {
    Profile,
    Curated,
}

impl Default for RecallScorerKind {
    fn default() -> (r: Self)
        ensures
            r == RecallScorerKind::Profile,
    {
        RecallScorerKind::Profile
    }
}

/// How recall planning proceeds: scoring only, or scoring followed by
/// expansion along episode and lineage links.
#[derive(Debug, Clone, Copy, PartialEq, Eq, Structural)]
pub enum RecallPlanningProfile {
    FastPath,
    ContinuityAware,
}

impl Default for RecallPlanningProfile {
    fn default() -> (r: Self)
        ensures
            r == RecallPlanningProfile::FastPath,
    {
        RecallPlanningProfile::FastPath
    }
}

/// The provenance policy that weights trust, quality and history of records.
#[derive(Debug, Clone, Copy, PartialEq, Eq, Structural)]
pub enum RecallPolicyProfile {
    General,
    Support,
    Research,
    Assistant,
    AutonomousAgent,
}

impl Default for RecallPolicyProfile {
    fn default() -> (r: Self)
        ensures
            r == RecallPolicyProfile::General,
    {
        RecallPolicyProfile::General
    }
}

/// The tuning of an engine as reported by snapshots and statistics.
#[derive(Debug, Clone, Copy, PartialEq, Eq)]
pub struct EngineTuningInfo {
    pub recall_scorer_kind: RecallScorerKind,
    pub recall_scoring_profile: RecallScoringProfile,
    pub recall_planning_profile: RecallPlanningProfile,
    pub recall_policy_profile: RecallPolicyProfile,
    pub embedding_provider_kind: EmbeddingProviderKind,
    pub embedding_dimensions: usize,
    pub graph_expansion_max_hops: u8,
    pub compaction_summarize_after_record_count: usize,
    pub compaction_cold_archive_after_days: u32,
    pub compaction_cold_archive_importance_threshold_per_mille: u16,
}

#[derive(Debug, Clone, Copy, PartialEq, Eq)]
pub struct RetentionPolicy {
    pub ttl_days: u32,
    pub archive_after_days: u32,
    pub max_records_per_namespace: usize,
    pub pinned_records_exempt: bool,
}

/// Retention is opt-in: by default no time to live, no archive age and no
/// namespace cap (a zero turns each off), and pinned records are exempt.
impl Default for RetentionPolicy {
    fn default() -> (r: Self)
        ensures
            r.ttl_days == 0,
            r.archive_after_days == 0,
            r.max_records_per_namespace == 0,
            r.pinned_records_exempt,
    {
        RetentionPolicy {
            ttl_days: 0,
            archive_after_days: 0,
            max_records_per_namespace: 0,
            pinned_records_exempt: true,
        }
    }
}

#[derive(Debug, Clone, Copy, PartialEq, Eq)]
pub struct CompactionPolicy {
    pub deduplicate_similar_records: bool,
    pub summarize_after_record_count: usize,
    pub prune_stale_graph_edges: bool,
    pub cold_archive_after_days: u32,
    pub cold_archive_importance_threshold_per_mille: u16,
    pub maintenance_interval_operations: u32,
    pub dry_run_supported: bool,
}

impl Default for CompactionPolicy {
    fn default() -> (r: Self)
        ensures
            r.deduplicate_similar_records,
            r.summarize_after_record_count == 50,
            r.prune_stale_graph_edges,
            r.cold_archive_after_days == 0,
            r.cold_archive_importance_threshold_per_mille == 250,
            r.maintenance_interval_operations == 32,
            r.dry_run_supported,
    {
        CompactionPolicy {
            deduplicate_similar_records: true,
            summarize_after_record_count: 50,
            prune_stale_graph_edges: true,
            cold_archive_after_days: 0,
            cold_archive_importance_threshold_per_mille: 250,
            maintenance_interval_operations: 32,
            dry_run_supported: true,
        }
    }
}

#[derive(Debug, Clone, Copy, PartialEq, Eq)]
pub struct IngestionPolicy {
    pub idempotent_writes_required: bool,
    pub deduplication_window_hours: u32,
    pub allow_model_derived_memories: bool,
    pub require_source_labels: bool,
}

impl Default for IngestionPolicy {
    fn default() -> (r: Self)
        ensures
            r.idempotent_writes_required,
            r.deduplication_window_hours == 24,
            r.allow_model_derived_memories,
            !r.require_source_labels,
    {
        IngestionPolicy {
            idempotent_writes_required: true,
            deduplication_window_hours: 24,
            allow_model_derived_memories: true,
            require_source_labels: false,
        }
    }
}

#[derive(Debug, PartialEq, Eq)]
pub struct EngineConfig {
    pub node_id: String,
    pub default_tenant: String,
    pub max_batch_size: usize,
    pub retention: RetentionPolicy,
    pub compaction: CompactionPolicy,
    pub ingestion: IngestionPolicy,
    pub recall_scorer_kind: RecallScorerKind,
    pub recall_scoring_profile: RecallScoringProfile,
    pub recall_planning_profile: RecallPlanningProfile,
    pub recall_policy_profile: RecallPolicyProfile,
    pub graph_expansion_max_hops: u8,
    pub embedding_provider_kind: EmbeddingProviderKind,
    pub embedding_dimensions: usize,
    pub explain_recall: bool,
}

impl Clone for EngineConfig {
    fn clone(&self) -> (r: Self)
        ensures
            r == *self,
    {
        EngineConfig {
            node_id: self.node_id.clone(),
            default_tenant: self.default_tenant.clone(),
            max_batch_size: self.max_batch_size,
            retention: self.retention,
            compaction: self.compaction,
            ingestion: self.ingestion,
            recall_scorer_kind: self.recall_scorer_kind,
            recall_scoring_profile: self.recall_scoring_profile,
            recall_planning_profile: self.recall_planning_profile,
            recall_policy_profile: self.recall_policy_profile,
            graph_expansion_max_hops: self.graph_expansion_max_hops,
            embedding_provider_kind: self.embedding_provider_kind,
            embedding_dimensions: self.embedding_dimensions,
            explain_recall: self.explain_recall,
        }
    }
}

impl EngineConfig {
    /// The defaults of every policy and tuning knob.
    pub open spec fn spec_is_default(&self) -> bool {
        &&& self.node_id@ == "local-node"@
        &&& self.default_tenant@ == "default"@
        &&& self.max_batch_size == 256
        &&& self.retention.ttl_days == 0
        &&& self.retention.archive_after_days == 0
        &&& self.retention.max_records_per_namespace == 0
        &&& self.retention.pinned_records_exempt
        &&& self.compaction.deduplicate_similar_records
        &&& self.compaction.summarize_after_record_count == 50
        &&& self.compaction.prune_stale_graph_edges
        &&& self.compaction.cold_archive_after_days == 0
        &&& self.compaction.cold_archive_importance_threshold_per_mille == 250
        &&& self.compaction.maintenance_interval_operations == 32
        &&& self.compaction.dry_run_supported
        &&& self.ingestion.idempotent_writes_required
        &&& self.ingestion.deduplication_window_hours == 24
        &&& self.ingestion.allow_model_derived_memories
        &&& !self.ingestion.require_source_labels
        &&& self.recall_scorer_kind == RecallScorerKind::Profile
        &&& self.recall_scoring_profile == RecallScoringProfile::Balanced
        &&& self.recall_planning_profile == RecallPlanningProfile::FastPath
        &&& self.recall_policy_profile == RecallPolicyProfile::General
        &&& self.graph_expansion_max_hops == 1
        &&& self.embedding_provider_kind == EmbeddingProviderKind::Disabled
        &&& self.embedding_dimensions == 64
        &&& self.explain_recall
    }

    /// The defaults of everything but the tuning knobs.
    pub open spec fn spec_is_default_apart_from_tuning(&self) -> bool {
        &&& self.node_id@ == "local-node"@
        &&& self.default_tenant@ == "default"@
        &&& self.max_batch_size == 256
        &&& self.retention.ttl_days == 0
        &&& self.retention.archive_after_days == 0
        &&& self.retention.max_records_per_namespace == 0
        &&& self.retention.pinned_records_exempt
        &&& self.compaction.deduplicate_similar_records
        &&& self.compaction.prune_stale_graph_edges
        &&& self.compaction.maintenance_interval_operations == 32
        &&& self.compaction.dry_run_supported
        &&& self.ingestion.idempotent_writes_required
        &&& self.ingestion.deduplication_window_hours == 24
        &&& self.ingestion.allow_model_derived_memories
        &&& !self.ingestion.require_source_labels
        &&& self.explain_recall
    }

    /// The tuning knobs of this configuration.
    pub open spec fn spec_tuning_info(&self) -> EngineTuningInfo {
        EngineTuningInfo {
            recall_scorer_kind: self.recall_scorer_kind,
            recall_scoring_profile: self.recall_scoring_profile,
            recall_planning_profile: self.recall_planning_profile,
            recall_policy_profile: self.recall_policy_profile,
            embedding_provider_kind: self.embedding_provider_kind,
            embedding_dimensions: self.embedding_dimensions,
            graph_expansion_max_hops: self.graph_expansion_max_hops,
            compaction_summarize_after_record_count: self.compaction.summarize_after_record_count,
            compaction_cold_archive_after_days: self.compaction.cold_archive_after_days,
            compaction_cold_archive_importance_threshold_per_mille:
                self.compaction.cold_archive_importance_threshold_per_mille,
        }
    }

    pub fn tuning_info(&self) -> (r: EngineTuningInfo)
        ensures
            r == self.spec_tuning_info(),
    {
        EngineTuningInfo {
            recall_scorer_kind: self.recall_scorer_kind,
            recall_scoring_profile: self.recall_scoring_profile,
            recall_planning_profile: self.recall_planning_profile,
            recall_policy_profile: self.recall_policy_profile,
            embedding_provider_kind: self.embedding_provider_kind,
            embedding_dimensions: self.embedding_dimensions,
            graph_expansion_max_hops: self.graph_expansion_max_hops,
            compaction_summarize_after_record_count: self.compaction.summarize_after_record_count,
            compaction_cold_archive_after_days: self.compaction.cold_archive_after_days,
            compaction_cold_archive_importance_threshold_per_mille:
                self.compaction.cold_archive_importance_threshold_per_mille,
        }
    }
}

impl Default for EngineConfig {
    fn default() -> (r: Self)
        ensures
            r.spec_is_default(),
    {
        EngineConfig {
            node_id: String::from_str("local-node"),
            default_tenant: String::from_str("default"),
            max_batch_size: 256,
            retention: RetentionPolicy::default(),
            compaction: CompactionPolicy::default(),
            ingestion: IngestionPolicy::default(),
            recall_scorer_kind: RecallScorerKind::Profile,
            recall_scoring_profile: RecallScoringProfile::Balanced,
            recall_planning_profile: RecallPlanningProfile::FastPath,
            recall_policy_profile: RecallPolicyProfile::General,
            graph_expansion_max_hops: 1,
            embedding_provider_kind: EmbeddingProviderKind::Disabled,
            embedding_dimensions: 64,
            explain_recall: true,
        }
    }
}

} // verus!
