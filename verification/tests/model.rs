use mnemara::model::{
    ConflictAnnotation, ConflictReviewState, EpisodeContinuityState, EpisodeFrame, LineageEdge,
    LineageRelationKind, MemoryHistoricalState, MemoryQualityState, MemoryRecordKind,
    MemoryScope, MemoryTrustLevel, RecordFrame, EPISODE_SCHEMA_VERSION,
};
use mnemara::graph::build_graph_inspection_report;
use mnemara::query::{GraphInspectionEdgeKind, GraphInspectionRequest};

fn scope() -> MemoryScope {
    MemoryScope {
        tenant_id: "default".to_string(),
        namespace: "conversation".to_string(),
        actor_id: "ava".to_string(),
        conversation_id: Some("thread-a".to_string()),
        session_id: Some("session-a".to_string()),
        source: "test".to_string(),
        labels: vec!["shared-fixture".to_string()],
        trust_level: MemoryTrustLevel::Verified,
    }
}

#[test]
fn episode_defaults_and_unresolved_states_are_explicit() {
    let episode = EpisodeFrame::default();

    assert_eq!(episode.schema_version, EPISODE_SCHEMA_VERSION);
    assert!(episode.episode_id.is_empty());
    assert_eq!(episode.continuity_state, EpisodeContinuityState::Open);
    assert!(EpisodeContinuityState::Open.is_unresolved());
    assert!(EpisodeContinuityState::Abandoned.is_unresolved());
    assert!(!EpisodeContinuityState::Resolved.is_unresolved());
    assert!(!EpisodeContinuityState::Superseded.is_unresolved());
}

#[test]
fn memory_record_rejects_invalid_episode_association_rules() {
    let mut record = RecordFrame {
        id: "record-episode".to_string(),
        scope: scope(),
        kind: MemoryRecordKind::Episodic,
        content: "Open follow-up for reconnect storm".to_string(),
        summary: Some("Storm follow-up".to_string()),
        source_id: Some("source-1".to_string()),
        quality_state: MemoryQualityState::Verified,
        created_at_unix_ms: 10,
        updated_at_unix_ms: 20,
        expires_at_unix_ms: None,
        importance_per_mille: 900,
        importance_key: 0,
        has_artifact: false,
        episode: Some(EpisodeFrame {
            schema_version: EPISODE_SCHEMA_VERSION,
            episode_id: "storm-episode".to_string(),
            summary: Some("Storm remediation episode".to_string()),
            continuity_state: EpisodeContinuityState::Open,
            actor_ids: vec!["ava".to_string()],
            goal: Some("close the reconnect storm follow-up list".to_string()),
            outcome: None,
            started_at_unix_ms: Some(1),
            ended_at_unix_ms: None,
            last_active_unix_ms: Some(20),
            recurrence_key: None,
            recurrence_interval_ms: None,
            boundary_label: None,
            previous_record_id: Some("record-episode".to_string()),
            next_record_id: None,
            causal_record_ids: vec![],
            related_record_ids: vec![],
            linked_artifact_uris: vec![],
        }),
        historical_state: MemoryHistoricalState::Current,
        lineage: vec![],
        conflict: None,
    };

    let error = record.validate().unwrap_err();
    assert!(error
        .to_string()
        .contains("previous_record_id cannot reference the current record"));

    record.episode.as_mut().unwrap().previous_record_id = Some("incident-root".to_string());
    record.episode.as_mut().unwrap().actor_ids = vec!["ops-bot".to_string()];
    let error = record.validate().unwrap_err();
    assert!(error
        .to_string()
        .contains("actor_ids must include the owning record actor"));
}

#[test]
fn episode_duration_and_recurrence_require_coherent_values() {
    let mut episode = EpisodeFrame {
        schema_version: EPISODE_SCHEMA_VERSION,
        episode_id: "release-retro".to_string(),
        summary: Some("Recurring release retrospective".to_string()),
        continuity_state: EpisodeContinuityState::Open,
        actor_ids: vec!["ava".to_string()],
        goal: Some("review each release boundary".to_string()),
        outcome: None,
        started_at_unix_ms: Some(10),
        ended_at_unix_ms: Some(40),
        last_active_unix_ms: Some(40),
        recurrence_key: Some("release-retro-weekly".to_string()),
        recurrence_interval_ms: Some(7 * 24 * 60 * 60 * 1000),
        boundary_label: Some("weekly-release-boundary".to_string()),
        previous_record_id: None,
        next_record_id: None,
        causal_record_ids: vec![],
        related_record_ids: vec![],
        linked_artifact_uris: vec![],
    };

    assert_eq!(episode.duration_hint_ms(), Some(30));
    episode.validate_for_record("retro-1", "ava").unwrap();

    episode.recurrence_key = None;
    let error = episode.validate_for_record("retro-1", "ava").unwrap_err();
    assert!(error
        .to_string()
        .contains("recurrence_key is required when recurrence_interval_ms is present"));
}

#[test]
fn episode_duration_runs_to_last_activity_until_it_ends() {
    let mut episode = EpisodeFrame::default();
    episode.started_at_unix_ms = Some(100);
    episode.last_active_unix_ms = Some(175);
    assert_eq!(episode.duration_hint_ms(), Some(75));
    episode.ended_at_unix_ms = Some(90);
    assert_eq!(episode.duration_hint_ms(), None);
    episode.started_at_unix_ms = None;
    assert_eq!(episode.duration_hint_ms(), None);
}

#[test]
fn records_need_identity_and_content() {
    let mut record = RecordFrame {
        id: " ".to_string(),
        scope: scope(),
        kind: MemoryRecordKind::Fact,
        content: "x".to_string(),
        summary: None,
        source_id: None,
        quality_state: MemoryQualityState::Active,
        created_at_unix_ms: 1,
        updated_at_unix_ms: 1,
        expires_at_unix_ms: None,
        importance_per_mille: 0,
        importance_key: 0,
        has_artifact: false,
        episode: None,
        historical_state: MemoryHistoricalState::Current,
        lineage: vec![],
        conflict: None,
    };
    assert_eq!(
        record.validate().unwrap_err().to_string(),
        "invalid request: memory record id is required"
    );
    record.id = "r".to_string();
    record.content = "  ".to_string();
    assert_eq!(
        record.validate().unwrap_err().to_string(),
        "invalid request: memory record content or artifact is required"
    );
    record.has_artifact = true;
    assert!(record.validate().is_ok());
}

fn graph_scope() -> MemoryScope {
    MemoryScope {
        tenant_id: "tenant-a".to_string(),
        namespace: "ops".to_string(),
        actor_id: "ava".to_string(),
        conversation_id: Some("thread-1".to_string()),
        session_id: Some("session-1".to_string()),
        source: "test".to_string(),
        labels: Vec::new(),
        trust_level: MemoryTrustLevel::Verified,
    }
}

fn graph_record(id: &str) -> RecordFrame {
    RecordFrame {
        id: id.to_string(),
        scope: graph_scope(),
        kind: MemoryRecordKind::Episodic,
        content: format!("content {id}"),
        summary: Some(format!("summary {id}")),
        source_id: None,
        quality_state: MemoryQualityState::Active,
        created_at_unix_ms: 1,
        updated_at_unix_ms: 2,
        expires_at_unix_ms: None,
        importance_per_mille: 500,
        importance_key: 0,
        has_artifact: false,
        episode: None,
        historical_state: MemoryHistoricalState::Current,
        lineage: Vec::new(),
        conflict: None,
    }
}

#[test]
fn graph_inspection_builds_typed_edges_and_filters_hidden_records() {
    let mut seed = graph_record("seed");
    let mut e = EpisodeFrame::default();
    e.episode_id = "incident".to_string();
    e.continuity_state = EpisodeContinuityState::Open;
    e.next_record_id = Some("next".to_string());
    e.related_record_ids = vec!["next".to_string()];
    seed.episode = Some(e);

    let mut next = graph_record("next");
    let mut e = EpisodeFrame::default();
    e.episode_id = "incident".to_string();
    e.continuity_state = EpisodeContinuityState::Open;
    e.previous_record_id = Some("seed".to_string());
    e.causal_record_ids = vec!["seed".to_string()];
    next.episode = Some(e);
    next.lineage = vec![LineageEdge {
        record_id: "seed".to_string(),
        relation: LineageRelationKind::DerivedFrom,
        confidence_per_mille: 800,
    }];
    next.conflict = Some(ConflictAnnotation {
        state: ConflictReviewState::PotentialConflict,
        conflicting_record_ids: vec!["seed".to_string()],
        ..Default::default()
    });

    let mut hidden = graph_record("hidden");
    hidden.quality_state = MemoryQualityState::Suppressed;

    let report = build_graph_inspection_report(
        &[seed, next, hidden],
        &GraphInspectionRequest {
            tenant_id: Some("tenant-a".to_string()),
            namespace: Some("ops".to_string()),
            ..Default::default()
        },
        42,
    );

    assert_eq!(report.generated_at_unix_ms, 42);
    assert_eq!(report.nodes.len(), 2);
    assert!(!report.nodes.iter().any(|node| node.record_id == "hidden"));
    assert!(report.edges.iter().any(|edge| matches!(
        edge.kind,
        GraphInspectionEdgeKind::ChronologyNext | GraphInspectionEdgeKind::ChronologyPrevious
    )));
    assert!(report
        .edges
        .iter()
        .any(|edge| edge.kind == GraphInspectionEdgeKind::Causal));
    assert!(report
        .edges
        .iter()
        .any(|edge| edge.kind == GraphInspectionEdgeKind::Related));
    assert!(report
        .edges
        .iter()
        .any(|edge| edge.kind == GraphInspectionEdgeKind::Lineage));
    assert!(report
        .edges
        .iter()
        .any(|edge| edge.kind == GraphInspectionEdgeKind::Conflict));
}
