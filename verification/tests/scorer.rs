use mnemara::config::{
    EmbeddingProviderKind, EngineConfig, RecallPlanningProfile, RecallPolicyProfile,
    RecallScorerKind, RecallScoringProfile,
};
use mnemara::embedding::ConfiguredSemanticEmbedder;
use mnemara::model::{
    EpisodeContinuityState, EpisodeFrame, LineageEdge, LineageRelationKind,
    MemoryHistoricalState, MemoryQualityState, MemoryRecordKind, MemoryScope, MemoryTrustLevel,
    RecordFrame, EPISODE_SCHEMA_VERSION,
};
use mnemara::query::{RecallCandidateSource, RecallHistoricalMode, RecallTemporalOrder};
use mnemara::scorer::{
    candidate_sources, graph_relation_bonus, graph_relations, has_boundary_intent,
    has_continuity_intent, has_duration_intent, has_recurrence_intent, has_sequence_intent,
    label_matches, lexical_haystack, matched_terms, mentions_term, seed_candidate_sources,
    tokenize_query, CandidateSignals, ConfiguredRecallScorer, CuratedRecallScorer,
    GraphExpansionRelation, ProfileRecallScorer, RecallPlanner, RecallPlannerMetrics,
};
use mnemara::store::RecallFilterFrame;

#[test]
fn configured_embedder_uses_engine_config_provider() {
    let mut config = EngineConfig::default();
    config.embedding_provider_kind = EmbeddingProviderKind::DeterministicLocal;
    config.embedding_dimensions = 12;

    let embedder = ConfiguredSemanticEmbedder::from_engine_config(&config);
    assert_eq!(
        embedder.provider_kind(),
        EmbeddingProviderKind::DeterministicLocal
    );
    assert_eq!(embedder.dimensions(), 12);
}

#[test]
fn configured_scorer_uses_engine_policy_profile() {
    let mut config = EngineConfig::default();
    config.recall_policy_profile = RecallPolicyProfile::Research;

    let scorer = ConfiguredRecallScorer::from_engine_config(&config);
    assert_eq!(scorer.policy_profile(), RecallPolicyProfile::Research);
    assert_eq!(scorer.policy_profile_note(), "policy_profile=research");
}

#[test]
fn configured_scorer_uses_engine_config_kind() {
    let mut config = EngineConfig::default();
    config.recall_scorer_kind = RecallScorerKind::Curated;
    config.recall_scoring_profile = RecallScoringProfile::ImportanceFirst;
    let scorer = ConfiguredRecallScorer::from_engine_config(&config);
    assert_eq!(scorer.scorer_kind(), RecallScorerKind::Curated);
    assert_eq!(
        scorer.scoring_profile(),
        RecallScoringProfile::ImportanceFirst
    );
}

#[test]
fn scorer_notes_name_their_profiles() {
    let profile = ProfileRecallScorer::new(RecallScoringProfile::LexicalFirst);
    assert_eq!(profile.profile_note(), "scoring_profile=lexical_first");
    assert_eq!(profile.policy_profile_note(), "policy_profile=general");
    assert_eq!(profile.scorer_kind(), RecallScorerKind::Profile);
    assert_eq!(profile.embedding_note(), None);
    let curated = CuratedRecallScorer::new(RecallScoringProfile::ImportanceFirst);
    assert_eq!(curated.profile_note(), "scoring_profile=importance_first");
    assert_eq!(curated.scorer_kind(), RecallScorerKind::Curated);

    let mut config = EngineConfig::default();
    config.embedding_provider_kind = EmbeddingProviderKind::DeterministicLocal;
    config.recall_policy_profile = RecallPolicyProfile::AutonomousAgent;
    let scorer = ConfiguredRecallScorer::from_engine_config(&config);
    assert_eq!(
        scorer.embedding_note(),
        Some("embedding_provider=deterministic_local".to_string())
    );
    assert_eq!(scorer.policy_profile_note(), "policy_profile=autonomous_agent");
    assert_eq!(scorer.profile_note(), "scoring_profile=balanced");
}

#[test]
fn query_intents_are_read_case_insensitively() {
    assert!(has_continuity_intent("What LED to the outage?"));
    assert!(has_continuity_intent("any follow-up items"));
    assert!(!has_continuity_intent("storm checklist"));
    assert!(has_sequence_intent("show the Timeline"));
    assert!(has_duration_intent("How long did it take"));
    assert!(has_recurrence_intent("it happens every week"));
    assert!(!has_recurrence_intent("everyweek"));
    assert!(has_boundary_intent("session handoff"));
    assert!(!has_boundary_intent("storm checklist"));
}

#[test]
fn query_terms_match_the_lexical_haystack() {
    let terms = tokenize_query("  Storm   CHECKLIST now ");
    assert_eq!(terms, vec!["storm".to_string(), "checklist".to_string(), "now".to_string()]);
    let haystack = lexical_haystack("Storm remediation", &Some("The Checklist".to_string()));
    assert_eq!(haystack, "storm remediation the checklist");
    assert_eq!(lexical_haystack("Only", &None), "only ");
    let matched = matched_terms(&terms, &haystack);
    assert_eq!(matched, vec!["storm".to_string(), "checklist".to_string()]);
    let labels = vec!["Ops-Storm".to_string(), "misc".to_string(), "CHECKLISTS".to_string()];
    assert_eq!(label_matches(&labels, &terms), 2);
    assert!(mentions_term("TEST-source", &vec!["test".to_string()]));
    assert!(!mentions_term("source", &vec!["test".to_string()]));
}

#[test]
fn candidate_sources_are_reported_once_in_order() {
    let seed = seed_candidate_sources(2, false, true, false, false, true);
    assert_eq!(
        seed,
        vec![
            RecallCandidateSource::Lexical,
            RecallCandidateSource::Metadata,
            RecallCandidateSource::Temporal
        ]
    );
    let none = seed_candidate_sources(0, false, false, false, false, false);
    assert!(none.is_empty());
    let all = candidate_sources(&CandidateSignals {
        lexical: true,
        semantic: true,
        metadata: true,
        episodic: true,
        graph: true,
        temporal: true,
        provenance: true,
    });
    assert_eq!(all.len(), 7);
    assert_eq!(all[4], RecallCandidateSource::Graph);
    assert_eq!(all[6], RecallCandidateSource::Provenance);
}

fn scope() -> MemoryScope {
    MemoryScope {
        tenant_id: "default".to_string(),
        namespace: "conversation".to_string(),
        actor_id: "ava".to_string(),
        conversation_id: Some("thread-a".to_string()),
        session_id: Some("session-a".to_string()),
        source: "test".to_string(),
        labels: vec![],
        trust_level: MemoryTrustLevel::Verified,
    }
}

fn record(id: &str, content: &str, summary: &str) -> RecordFrame {
    RecordFrame {
        id: id.to_string(),
        scope: scope(),
        kind: MemoryRecordKind::Fact,
        content: content.to_string(),
        summary: Some(summary.to_string()),
        source_id: None,
        quality_state: MemoryQualityState::Active,
        created_at_unix_ms: 1,
        updated_at_unix_ms: 1,
        expires_at_unix_ms: None,
        importance_per_mille: 500,
        importance_key: 0,
        has_artifact: false,
        episode: None,
        historical_state: MemoryHistoricalState::Current,
        lineage: Vec::new(),
        conflict: None,
    }
}

fn episode(id: &str, previous: Option<&str>, next: Option<&str>) -> EpisodeFrame {
    EpisodeFrame {
        schema_version: EPISODE_SCHEMA_VERSION,
        episode_id: id.to_string(),
        summary: Some("storm remediation thread".to_string()),
        continuity_state: EpisodeContinuityState::Open,
        actor_ids: vec!["ava".to_string()],
        goal: Some("close follow-up actions".to_string()),
        outcome: None,
        started_at_unix_ms: Some(1),
        ended_at_unix_ms: None,
        last_active_unix_ms: Some(2),
        recurrence_key: None,
        recurrence_interval_ms: None,
        boundary_label: None,
        previous_record_id: previous.map(|v| v.to_string()),
        next_record_id: next.map(|v| v.to_string()),
        causal_record_ids: vec![],
        related_record_ids: vec![],
        linked_artifact_uris: vec![],
    }
}

fn filters() -> RecallFilterFrame {
    RecallFilterFrame {
        kinds: vec![],
        required_labels: vec![],
        source: None,
        from_unix_ms: None,
        to_unix_ms: None,
        trust_levels: vec![],
        states: vec![],
        include_archived: false,
        episode_id: None,
        continuity_states: vec![],
        unresolved_only: false,
        temporal_order: RecallTemporalOrder::Relevance,
        historical_mode: RecallHistoricalMode::CurrentOnly,
        lineage_record_id: None,
    }
}

const QUERY: &str = "storm checklist";

// A record is a seed when a query term occurs in its content or summary
// (embeddings are disabled in these planners).
fn seeded(records: &[RecordFrame]) -> Vec<bool> {
    let terms = tokenize_query(QUERY);
    records
        .iter()
        .map(|r| !matched_terms(&terms, &lexical_haystack(&r.content, &r.summary)).is_empty())
        .collect()
}

fn neighbor_pair() -> Vec<RecordFrame> {
    let mut seed = record("seed", "storm checklist remediation", "storm checklist");
    let mut e = episode("storm-episode", None, Some("neighbor"));
    e.related_record_ids = vec!["neighbor".to_string()];
    seed.episode = Some(e);
    let mut neighbor = record("neighbor", "follow-up note", "follow-up note");
    let mut e = episode("storm-episode", Some("seed"), None);
    e.causal_record_ids = vec!["seed".to_string()];
    neighbor.episode = Some(e);
    vec![seed, neighbor]
}

#[test]
fn continuity_planner_expands_graph_neighbors() {
    let mut config = EngineConfig::default();
    config.recall_planning_profile = RecallPlanningProfile::ContinuityAware;
    let planner = RecallPlanner::from_engine_config(&config);
    let records = neighbor_pair();
    let expansion = planner.plan_graph_expansion(
        &records.to_vec(),
        &scope(),
        QUERY,
        &filters(),
        &seeded(&records),
    );
    assert_eq!(expansion.seeded_candidates, 1);
    assert_eq!(expansion.steps.len(), 1);
    let step = &expansion.steps[0];
    assert_eq!(records[step.record_index].id, "neighbor");
    assert_eq!(step.hop, 1);
    assert_eq!(
        step.relations,
        vec![
            GraphExpansionRelation::EpisodeMembership,
            GraphExpansionRelation::Chronology,
            GraphExpansionRelation::Causal
        ]
    );
    assert!(graph_relation_bonus(&step.relations, step.hop) > 0);
    assert_eq!(expansion.hops_applied, 1);
}

#[test]
fn fast_path_planner_skips_graph_expansion() {
    let planner = RecallPlanner::from_engine_config(&EngineConfig::default());
    let records = neighbor_pair();
    let expansion = planner.plan_graph_expansion(
        &records.to_vec(),
        &scope(),
        QUERY,
        &filters(),
        &seeded(&records),
    );
    assert_eq!(expansion.seeded_candidates, 1);
    assert!(expansion.steps.is_empty());
    assert_eq!(expansion.hops_applied, 0);
}

fn three_hop_chain() -> Vec<RecordFrame> {
    let mut seed = record("seed", "storm checklist remediation", "storm checklist");
    seed.episode = Some(episode("storm-episode", None, Some("middle")));
    let mut middle = record("middle", "follow-up note", "follow-up note");
    let mut e = episode("storm-episode", Some("seed"), Some("far"));
    e.causal_record_ids = vec!["seed".to_string()];
    middle.episode = Some(e);
    let mut far = record("far", "final action", "final action");
    let mut e = episode("storm-secondary-episode", Some("middle"), None);
    e.causal_record_ids = vec!["middle".to_string()];
    far.episode = Some(e);
    vec![seed, middle, far]
}

#[test]
fn continuity_planner_respects_graph_hop_limit() {
    let mut config = EngineConfig::default();
    config.recall_planning_profile = RecallPlanningProfile::ContinuityAware;
    config.graph_expansion_max_hops = 1;
    let one_hop_planner = RecallPlanner::from_engine_config(&config);
    config.graph_expansion_max_hops = 2;
    let two_hop_planner = RecallPlanner::from_engine_config(&config);
    let records = three_hop_chain();
    let seeds = seeded(&records);

    let one_hop = one_hop_planner.plan_graph_expansion(&records, &scope(), QUERY, &filters(), &seeds);
    let reached: Vec<&str> = one_hop.steps.iter().map(|s| records[s.record_index].id.as_str()).collect();
    assert!(reached.contains(&"middle"));
    assert!(!reached.contains(&"far"));

    let two_hop = two_hop_planner.plan_graph_expansion(&records, &scope(), QUERY, &filters(), &seeds);
    let reached: Vec<&str> = two_hop.steps.iter().map(|s| records[s.record_index].id.as_str()).collect();
    assert!(reached.contains(&"far"));
    assert_eq!(two_hop.hops_applied, 2);

    let metrics = RecallPlannerMetrics::from_expansion(&two_hop, 3, 5, 9);
    assert_eq!(metrics.seeded_candidates, two_hop.seeded_candidates);
    assert_eq!(metrics.expanded_candidates, two_hop.steps.len());
    assert_eq!(metrics.hops_applied, 2);
    assert!(metrics.graph_expansion_ns > 0);
    assert_eq!(metrics.total_ns, 9);
}

#[test]
fn continuity_planner_stays_within_query_scope_boundaries() {
    let mut config = EngineConfig::default();
    config.recall_planning_profile = RecallPlanningProfile::ContinuityAware;
    config.graph_expansion_max_hops = 2;
    let planner = RecallPlanner::from_engine_config(&config);

    let mut seed = record("seed", "storm checklist remediation", "storm checklist");
    let mut e = episode("storm-episode", None, Some("cross-scope"));
    e.related_record_ids = vec!["cross-scope".to_string()];
    seed.episode = Some(e);

    let mut cross_scope = record("cross-scope", "storm follow-up note", "follow-up");
    cross_scope.scope.namespace = "other".to_string();
    let mut e = episode("storm-episode", Some("seed"), None);
    e.causal_record_ids = vec!["seed".to_string()];
    cross_scope.episode = Some(e);

    let records = vec![seed, cross_scope];
    let expansion = planner.plan_graph_expansion(&records, &scope(), QUERY, &filters(), &seeded(&records));
    assert_eq!(expansion.seeded_candidates, 1);
    assert!(expansion.steps.is_empty());
    assert_eq!(expansion.hops_applied, 0);
}

#[test]
fn continuity_intent_queries_trigger_continuity_planning() {
    let planner = RecallPlanner::from_engine_config(&EngineConfig::default());
    for query_text in [
        "what led to this storm state",
        "what changed in the storm episode",
        "what happened next in the storm episode",
    ] {
        assert_eq!(
            planner.effective_profile(query_text, &filters()),
            RecallPlanningProfile::ContinuityAware
        );
    }
    assert_eq!(
        planner.effective_profile("storm checklist", &filters()),
        RecallPlanningProfile::FastPath
    );
    let mut episode_filter = filters();
    episode_filter.episode_id = Some("storm-episode".to_string());
    assert_eq!(
        planner.effective_profile("storm checklist", &episode_filter),
        RecallPlanningProfile::ContinuityAware
    );
    let mut unresolved = filters();
    unresolved.unresolved_only = true;
    assert_eq!(
        planner.effective_profile("storm", &unresolved),
        RecallPlanningProfile::ContinuityAware
    );
}

#[test]
fn graph_relations_need_continuity_planning_and_a_link() {
    let mut r = record("r", "x", "y");
    r.lineage = vec![LineageEdge {
        record_id: "base".to_string(),
        relation: LineageRelationKind::DerivedFrom,
        confidence_per_mille: 800,
    }];
    let ids = vec!["base".to_string()];
    let none: Vec<String> = vec![];
    assert_eq!(
        graph_relations(&r, &ids, &none, RecallPlanningProfile::ContinuityAware),
        vec![GraphExpansionRelation::Lineage]
    );
    assert!(graph_relations(&r, &ids, &none, RecallPlanningProfile::FastPath).is_empty());
    assert!(graph_relations(&r, &none, &none, RecallPlanningProfile::ContinuityAware).is_empty());
}

#[test]
fn graph_bonus_weighs_links_and_hops_in_hundredths() {
    assert_eq!(graph_relation_bonus(&vec![GraphExpansionRelation::EpisodeMembership], 1), 45);
    assert_eq!(graph_relation_bonus(&vec![GraphExpansionRelation::EpisodeMembership, GraphExpansionRelation::Chronology, GraphExpansionRelation::Causal], 1), 53);
    assert_eq!(graph_relation_bonus(&vec![GraphExpansionRelation::Related], 2), 16);
    assert_eq!(graph_relation_bonus(&vec![GraphExpansionRelation::Related], 4), 0);
    assert_eq!(graph_relation_bonus(&vec![GraphExpansionRelation::Causal, GraphExpansionRelation::Lineage], 5), 4);
    assert_eq!(graph_relation_bonus(&Vec::<GraphExpansionRelation>::new(), 1), 0);
}
