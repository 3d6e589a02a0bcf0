use mnemara::file_store::{
    idempotency_file_name, record_file_name, FileMemoryStore, FileStoreConfig, IDEMPOTENCY_DIR,
    RECORDS_DIR,
};
use mnemara::model::{
    EpisodeFrame, MemoryHistoricalState, MemoryQualityState, MemoryRecordKind, MemoryScope,
    MemoryTrustLevel, RecordFrame,
};
use mnemara::query::{RecallHistoricalMode, RecallTemporalOrder};
use mnemara::recall::{rank_candidates, recall_trace_id, select_within_budget};
use mnemara::store::{
    approximate_tokens, archive_change, check_batch_size, plan_archive, plan_delete,
    plan_recover, plan_suppress, plan_upsert, record_passes_filters, record_temporal_anchor,
    recover_change, suppress_change, validate_recover_request, ArchiveRequest, DeleteAction,
    DeleteRequest, RecallFilterFrame, RecoverRequest, SuppressRequest, UpsertStep,
};
use mnemara::explain::{
    attach_correlation_id,
    hit_policy_notes, planning_profile_note, recall_policy_notes, recall_selected_channels,
    selected_channels_for_hit, selected_flags, selection_rank, trace_decision, ChannelSignals,
};
use mnemara::config::{EngineConfig, RecallPlanningProfile};
use mnemara::scorer::ConfiguredRecallScorer;

fn scope() -> MemoryScope {
    MemoryScope {
        tenant_id: "tenant-a".to_string(),
        namespace: "ops".to_string(),
        actor_id: "ava".to_string(),
        conversation_id: None,
        session_id: None,
        source: "test".to_string(),
        labels: vec!["eval".to_string()],
        trust_level: MemoryTrustLevel::Verified,
    }
}

fn record(id: &str) -> RecordFrame {
    RecordFrame {
        id: id.to_string(),
        scope: scope(),
        kind: MemoryRecordKind::Fact,
        content: "one two three".to_string(),
        summary: Some("four five".to_string()),
        source_id: None,
        quality_state: MemoryQualityState::Active,
        created_at_unix_ms: 5,
        updated_at_unix_ms: 9,
        expires_at_unix_ms: None,
        importance_per_mille: 500,
        importance_key: 0,
        has_artifact: false,
        episode: None,
        historical_state: MemoryHistoricalState::Current,
        lineage: Vec::new(),
        conflict: None,
    }
}

fn filters() -> RecallFilterFrame {
    RecallFilterFrame {
        kinds: vec![],
        required_labels: vec![],
        source: None,
        from_unix_ms: None,
        to_unix_ms: None,
        trust_levels: vec![],
        states: vec![],
        include_archived: false,
        episode_id: None,
        continuity_states: vec![],
        unresolved_only: false,
        temporal_order: RecallTemporalOrder::Relevance,
        historical_mode: RecallHistoricalMode::CurrentOnly,
        lineage_record_id: None,
    }
}

#[test]
fn delete_requests_need_every_field() {
    let mut request = DeleteRequest {
        tenant_id: "tenant-a".to_string(),
        namespace: "ops".to_string(),
        record_id: "r1".to_string(),
        hard_delete: false,
        audit_reason: " ".to_string(),
    };
    assert_eq!(
        plan_delete(&request, None).unwrap_err().to_string(),
        "invalid request: delete audit_reason is required"
    );
    request.audit_reason = "cleanup".to_string();
    let (receipt, action) = plan_delete(&request, None).unwrap();
    assert_eq!(action, DeleteAction::Nothing);
    assert!(!receipt.tombstoned);
    let stored = record("r1");
    let (receipt, action) = plan_delete(&request, Some(&stored)).unwrap();
    assert_eq!(action, DeleteAction::Tombstone);
    assert!(receipt.tombstoned);
    request.hard_delete = true;
    let (receipt, action) = plan_delete(&request, Some(&stored)).unwrap();
    assert_eq!(action, DeleteAction::Remove);
    assert!(receipt.hard_deleted);
    request.tenant_id = "tenant-b".to_string();
    assert_eq!(
        plan_delete(&request, Some(&stored)).unwrap_err().to_string(),
        "invalid request: record r1 does not belong to tenant tenant-b"
    );
}

#[test]
fn lifecycle_changes_are_idempotent() {
    let first = archive_change(MemoryQualityState::Active, MemoryHistoricalState::Current);
    assert_eq!(first.quality_state, MemoryQualityState::Archived);
    assert_eq!(first.historical_state, MemoryHistoricalState::Historical);
    assert!(first.changed);
    let again = archive_change(first.quality_state, first.historical_state);
    assert!(!again.changed);
    let s = suppress_change(MemoryQualityState::Verified, MemoryHistoricalState::Superseded);
    assert_eq!(s.historical_state, MemoryHistoricalState::Superseded);
    assert!(!suppress_change(s.quality_state, s.historical_state).changed);
    let r = recover_change(
        MemoryQualityState::Suppressed,
        MemoryHistoricalState::Historical,
        MemoryQualityState::Active,
        None,
    );
    assert_eq!(r.historical_state, MemoryHistoricalState::Current);
    assert!(r.changed);
}

#[test]
fn archive_suppress_and_recover_plans() {
    let stored = record("r1");
    let archive = ArchiveRequest {
        tenant_id: "tenant-a".to_string(),
        namespace: "ops".to_string(),
        record_id: "r1".to_string(),
        dry_run: true,
        audit_reason: "old".to_string(),
    };
    let (receipt, write) = plan_archive(&archive, Some(&stored)).unwrap();
    assert!(receipt.changed);
    assert!(!write);
    assert_eq!(
        plan_archive(&archive, None).unwrap_err().to_string(),
        "invalid request: record r1 was not found"
    );
    let suppress = SuppressRequest {
        tenant_id: "tenant-a".to_string(),
        namespace: "elsewhere".to_string(),
        record_id: "r1".to_string(),
        dry_run: false,
        audit_reason: "noise".to_string(),
    };
    assert_eq!(
        plan_suppress(&suppress, Some(&stored)).unwrap_err().to_string(),
        "invalid request: record r1 does not belong to namespace elsewhere"
    );
    let mut recover = RecoverRequest {
        tenant_id: "tenant-a".to_string(),
        namespace: "ops".to_string(),
        record_id: "r1".to_string(),
        dry_run: false,
        audit_reason: "restore".to_string(),
        quality_state: MemoryQualityState::Draft,
        historical_state: None,
    };
    assert_eq!(
        validate_recover_request(&recover).unwrap_err().to_string(),
        "invalid request: recover quality_state must be Active or Verified"
    );
    recover.quality_state = MemoryQualityState::Verified;
    recover.historical_state = Some(MemoryHistoricalState::Superseded);
    assert_eq!(
        validate_recover_request(&recover).unwrap_err().to_string(),
        "invalid request: recover historical_state cannot be Superseded"
    );
    recover.historical_state = None;
    let (receipt, write) = plan_recover(&recover, Some(&stored)).unwrap();
    assert_eq!(receipt.quality_state, MemoryQualityState::Verified);
    assert!(write);
}

#[test]
fn upserts_respect_idempotency_keys() {
    match plan_upsert("r1", None, false).unwrap() {
        UpsertStep::Write { clear_stale_mapping } => assert!(!clear_stale_mapping),
        _ => panic!("expected a write"),
    }
    match plan_upsert("r1", Some("r1"), true).unwrap() {
        UpsertStep::AlreadyStored(receipt) => {
            assert_eq!(receipt.record_id, "r1");
            assert!(receipt.deduplicated);
        },
        _ => panic!("expected the stored record"),
    }
    match plan_upsert("r1", Some("r1"), false).unwrap() {
        UpsertStep::Write { clear_stale_mapping } => assert!(clear_stale_mapping),
        _ => panic!("expected a write"),
    }
    assert_eq!(
        plan_upsert("r1", Some("r0"), true).err().unwrap().to_string(),
        "conflict: idempotency key already belongs to record r0"
    );
    assert!(check_batch_size(3, 3).is_ok());
    assert_eq!(
        check_batch_size(4, 3).unwrap_err().to_string(),
        "invalid request: batch size 4 exceeds configured max_batch_size 3"
    );
}

#[test]
fn recall_filters_apply_scope_expiry_and_states() {
    let mut r = record("r1");
    assert!(record_passes_filters(&r, &scope(), &filters(), 10));
    r.expires_at_unix_ms = Some(10);
    assert!(!record_passes_filters(&r, &scope(), &filters(), 10));
    r.expires_at_unix_ms = None;
    r.quality_state = MemoryQualityState::Archived;
    assert!(!record_passes_filters(&r, &scope(), &filters(), 10));
    let mut with_archived = filters();
    with_archived.include_archived = true;
    assert!(record_passes_filters(&r, &scope(), &with_archived, 10));
    let mut other = scope();
    other.namespace = "other".to_string();
    assert!(!record_passes_filters(&record("r2"), &other, &filters(), 10));
}

#[test]
fn token_estimates_and_anchors() {
    let mut r = record("r1");
    assert_eq!(approximate_tokens(&r), 5);
    assert_eq!(record_temporal_anchor(&r), 9);
    let mut e = EpisodeFrame::default();
    e.last_active_unix_ms = Some(40);
    r.episode = Some(e);
    assert_eq!(record_temporal_anchor(&r), 40);
}

#[test]
fn selection_keeps_within_items_and_budget() {
    assert_eq!(select_within_budget(&vec![5, 1, 1], 2, None), vec![0, 1]);
    assert_eq!(select_within_budget(&vec![9, 2, 1, 1], 5, Some(4)), vec![0]);
    assert_eq!(select_within_budget(&vec![3, 2, 1, 1], 5, Some(6)), vec![0, 1, 2]);
    assert_eq!(select_within_budget(&vec![3, 4, 2], 5, Some(5)), vec![0, 2]);
    assert!(select_within_budget(&vec![1, 1], 0, None).is_empty());
    assert_eq!(recall_trace_id("tenant-a", "ops", 12), "recall:tenant-a:ops:12");
}

#[test]
fn explanations_list_channels_and_notes() {
    let signals = ChannelSignals {
        semantic: true,
        metadata: false,
        episodic: true,
        salience: false,
        curation: true,
    };
    assert_eq!(
        selected_channels_for_hit(&signals, false),
        vec!["curation", "episodic", "lexical", "policy", "semantic"]
    );
    assert_eq!(
        selected_channels_for_hit(&signals, true),
        vec!["curation", "episodic", "policy", "semantic", "temporal"]
    );
    assert_eq!(
        recall_selected_channels(&signals, false),
        vec!["lexical", "policy", "semantic", "episodic", "curation"]
    );
    let scorer = ConfiguredRecallScorer::from_engine_config(&EngineConfig::default());
    assert_eq!(
        recall_policy_notes(true, &scorer, RecallPlanningProfile::FastPath, true, false),
        vec![
            "recent_scope_scan",
            "scoring_profile=balanced",
            "policy_profile=general",
            "planning_profile=fast_path",
            "episode_filter_applied"
        ]
    );
    let notes = hit_policy_notes(
        false,
        &scorer,
        RecallPlanningProfile::ContinuityAware,
        false,
        true,
        &vec!["storm".to_string(), "checklist".to_string()],
    );
    assert_eq!(notes[0], "initial_file_backend_scoring");
    assert_eq!(notes[3], "planning_profile=continuity_aware");
    assert_eq!(notes[4], "unresolved_only_filter_applied");
    assert_eq!(notes[5], "matched_terms=storm,checklist");
    assert_eq!(planning_profile_note(RecallPlanningProfile::FastPath), "planning_profile=fast_path");

    let kept = trace_decision(true, 7, 2, true);
    assert_eq!(kept.filter_reasons, vec!["retained"]);
    assert_eq!(kept.decision_reason, "selected_by_rank");
    let dropped = trace_decision(false, 3, 2, true);
    assert_eq!(dropped.filter_reasons, vec!["max_items_exhausted", "token_budget_exhausted"]);
    assert_eq!(dropped.decision_reason, "excluded_by_rank_or_budget");
    assert_eq!(trace_decision(false, 0, 2, false).decision_reason, "excluded_by_rank");
    let selected = vec!["a".to_string(), "b".to_string()];
    assert_eq!(selection_rank(&selected, "b"), Some(2));
    assert_eq!(selection_rank(&selected, "c"), None);
}

#[test]
fn file_store_names_its_files() {
    let config = FileStoreConfig::new("/data").with_engine_config(EngineConfig::default());
    let store = FileMemoryStore::with_config(config.clone());
    assert_eq!(store.config(), &config);
    assert_eq!(store.backend_kind(), "file");
    assert_eq!(RECORDS_DIR, "records");
    assert_eq!(IDEMPOTENCY_DIR, "idempotency");
    assert_eq!(record_file_name("ab"), "6162.json");
    assert_eq!(record_file_name("é"), "c3a9.json");
    let name = idempotency_file_name(&scope(), "k");
    assert!(name.ends_with(".txt"));
    assert!(name.starts_with("74656e616e742d611f"));
}

fn key(anchor: u64, importance_key: u32, total_key: u32, id: &str) -> mnemara::recall::RankKey {
    mnemara::recall::RankKey {
        anchor,
        importance_key,
        total_key,
        record_id: id.to_string(),
    }
}

#[test]
fn rankings_follow_the_temporal_order() {
    let keys = vec![
        key(10, 5, 100, "b"),
        key(30, 1, 300, "a"),
        key(10, 9, 200, "c"),
        key(10, 5, 100, "a"),
    ];
    assert_eq!(rank_candidates(&keys, RecallTemporalOrder::Relevance, false), vec![1, 2, 3, 0]);
    assert_eq!(rank_candidates(&keys, RecallTemporalOrder::Relevance, true), vec![1, 2, 3, 0]);
    assert_eq!(
        rank_candidates(&keys, RecallTemporalOrder::ChronologicalAsc, false),
        vec![2, 3, 0, 1]
    );
    assert_eq!(
        rank_candidates(&keys, RecallTemporalOrder::ChronologicalDesc, false),
        vec![1, 2, 3, 0]
    );
    let ties = vec![key(1, 1, 1, "x"), key(1, 1, 1, "x")];
    assert_eq!(rank_candidates(&ties, RecallTemporalOrder::Relevance, false), vec![0, 1]);
    assert!(rank_candidates(&vec![], RecallTemporalOrder::Relevance, true).is_empty());
}

#[test]
fn correlation_ids_take_over_the_trace_id() {
    let mut trace_id = Some("recall:t:n:3".to_string());
    let mut notes = vec!["scoring_profile=balanced".to_string()];
    attach_correlation_id(&mut trace_id, &mut notes, "corr-1");
    assert_eq!(trace_id, Some("corr-1".to_string()));
    assert_eq!(
        notes,
        vec![
            "scoring_profile=balanced",
            "planning_trace_id=recall:t:n:3",
            "correlation_id=corr-1"
        ]
    );
    let mut none: Option<String> = None;
    let mut empty: Vec<String> = vec![];
    attach_correlation_id(&mut none, &mut empty, "c");
    assert_eq!(empty, vec!["correlation_id=c"]);
}

#[test]
fn distinct_records_get_distinct_files() {
    assert_ne!(record_file_name("a"), record_file_name("b"));
    assert_ne!(record_file_name("ab"), record_file_name("a"));
}

#[test]
fn selected_flags_mark_the_hits_in_ranked_order() {
    let ranked: Vec<String> = ["c", "a", "b", "d"].iter().map(|s| s.to_string()).collect();
    let selected: Vec<String> = ["c", "b"].iter().map(|s| s.to_string()).collect();
    assert_eq!(selected_flags(&ranked, &selected), vec![true, false, true, false]);
    assert!(selected_flags(&Vec::new(), &selected).is_empty());
    assert_eq!(selected_flags(&ranked, &Vec::new()), vec![false; 4]);
}
