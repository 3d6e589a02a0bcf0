use mnemara::embedding::{DeterministicLocalEmbedder, PRIMARY_BUCKET_SEED, SECONDARY_BUCKET_SEED, SIGN_SEED, TERM_HASH_PRIME};
use mnemara::model::{
    EpisodeContinuityState, EpisodeFrame, MemoryHistoricalState, MemoryQualityState,
    MemoryRecordKind, MemoryScope, MemoryTrustLevel, RecordFrame, EPISODE_SCHEMA_VERSION,
};
use mnemara::query::{RecallHistoricalMode, RecallTemporalOrder};
use mnemara::signals::{
    curated_haystack, episode_haystack, episodic_cues, temporal_cues, EpisodicCues, TemporalCues,
};
use mnemara::config::{EngineConfig, RecallPlanningProfile};
use mnemara::scorer::{tokenize_query, RecallPlanner};
use mnemara::store::RecallFilterFrame;

fn fnv(term: &str, seed: u64) -> u64 {
    let mut hash = seed;
    for byte in term.as_bytes() {
        hash ^= u64::from(*byte);
        hash = hash.wrapping_mul(TERM_HASH_PRIME);
    }
    hash
}

fn scope() -> MemoryScope {
    MemoryScope {
        tenant_id: "default".to_string(),
        namespace: "conversation".to_string(),
        actor_id: "ava".to_string(),
        conversation_id: Some("thread-a".to_string()),
        session_id: None,
        source: "test".to_string(),
        labels: vec![],
        trust_level: MemoryTrustLevel::Verified,
    }
}

fn record(id: &str, episode: Option<EpisodeFrame>) -> RecordFrame {
    RecordFrame {
        id: id.to_string(),
        scope: scope(),
        kind: MemoryRecordKind::Episodic,
        content: "weekly release retrospective handoff".to_string(),
        summary: Some("weekly release retrospective".to_string()),
        source_id: None,
        quality_state: MemoryQualityState::Active,
        created_at_unix_ms: 1,
        updated_at_unix_ms: 1,
        expires_at_unix_ms: None,
        importance_per_mille: 400,
        importance_key: 0,
        has_artifact: false,
        episode,
        historical_state: MemoryHistoricalState::Current,
        lineage: Vec::new(),
        conflict: None,
    }
}

fn retro_episode() -> EpisodeFrame {
    EpisodeFrame {
        schema_version: EPISODE_SCHEMA_VERSION,
        episode_id: "release-retro".to_string(),
        summary: Some("Recurring release retrospective".to_string()),
        continuity_state: EpisodeContinuityState::Open,
        actor_ids: vec!["ava".to_string(), "Bo".to_string()],
        goal: Some("review each release boundary".to_string()),
        outcome: None,
        started_at_unix_ms: Some(1),
        ended_at_unix_ms: Some(1 + (4 * 60 * 60 * 1000)),
        last_active_unix_ms: Some(1 + (4 * 60 * 60 * 1000)),
        recurrence_key: Some("weekly-release-retro".to_string()),
        recurrence_interval_ms: Some(7 * 24 * 60 * 60 * 1000),
        boundary_label: Some("weekly-release-boundary".to_string()),
        previous_record_id: Some("retro-previous".to_string()),
        next_record_id: Some("retro-next".to_string()),
        causal_record_ids: vec!["retro-root".to_string()],
        related_record_ids: vec!["retro-related".to_string()],
        linked_artifact_uris: vec!["file://notes".to_string()],
    }
}

fn filters() -> RecallFilterFrame {
    RecallFilterFrame {
        kinds: vec![],
        required_labels: vec![],
        source: None,
        from_unix_ms: None,
        to_unix_ms: None,
        trust_levels: vec![],
        states: vec![],
        include_archived: false,
        episode_id: None,
        continuity_states: vec![],
        unresolved_only: false,
        temporal_order: RecallTemporalOrder::Relevance,
        historical_mode: RecallHistoricalMode::CurrentOnly,
        lineage_record_id: None,
    }
}

#[test]
fn embedding_terms_trim_punctuation_and_fold_case() {
    let terms = DeterministicLocalEmbedder::embedding_terms("  Storm, checklist!  -- (STORM) runbook's");
    assert_eq!(terms, vec!["storm", "checklist", "storm", "runbook's"]);
    assert!(DeterministicLocalEmbedder::embedding_terms(" ... !! ").is_empty());
}

#[test]
fn term_slots_follow_the_seeded_hashes() {
    let (primary, secondary, positive) = DeterministicLocalEmbedder::term_slot("storm", 64);
    assert_eq!(primary, (fnv("storm", PRIMARY_BUCKET_SEED) as usize) % 64);
    assert_eq!(secondary, (fnv("storm", SECONDARY_BUCKET_SEED) as usize) % 64);
    assert_eq!(positive, fnv("storm", SIGN_SEED) % 2 == 0);

    let embedder = DeterministicLocalEmbedder::new(8);
    let slots = embedder.embedding_slots("Storm checklist storm");
    assert_eq!(slots.len(), 3);
    assert_eq!(slots[0], DeterministicLocalEmbedder::term_slot("storm", 8));
    assert_eq!(slots[1], DeterministicLocalEmbedder::term_slot("checklist", 8));
    assert_eq!(slots[0], slots[2]);
    assert!(slots.iter().all(|(p, s, _)| *p < 8 && *s < 8));
}

#[test]
fn an_embedder_without_buckets_gets_one() {
    let embedder = DeterministicLocalEmbedder::new(0);
    assert_eq!(embedder.dimensions(), 1);
    assert_eq!(embedder.embedding_slots("storm checklist"), vec![(0, 0, DeterministicLocalEmbedder::term_slot("storm", 1).2), (0, 0, DeterministicLocalEmbedder::term_slot("checklist", 1).2)]);
}

#[test]
fn episode_haystack_joins_the_episode_texts_in_lower_case() {
    assert_eq!(
        episode_haystack(&retro_episode()),
        "recurring release retrospective review each release boundary  ava bo weekly-release-retro weekly-release-boundary retro-related file://notes"
    );
    assert_eq!(episode_haystack(&EpisodeFrame::default()), "       ");
}

#[test]
fn curated_haystack_adds_the_source() {
    assert_eq!(
        curated_haystack("Storm Plan", &Some("Ops Summary".to_string()), "Pager"),
        "storm plan ops summary pager"
    );
    assert_eq!(curated_haystack("Storm", &None, "Pager"), "storm  pager");
}

#[test]
fn episodic_cues_read_filters_terms_and_questions() {
    let with_episode = record("retro", Some(retro_episode()));
    let mut f = filters();
    f.episode_id = Some("release-retro".to_string());
    f.unresolved_only = true;
    let terms = vec!["release".to_string(), "missing".to_string(), "bo".to_string()];
    let cues = episodic_cues(&with_episode, "What changed and WHAT LED here", &f, &terms);
    assert_eq!(
        cues,
        Some(EpisodicCues {
            episode_matches_filter: true,
            unresolved: true,
            term_matches: 2,
            asks_what_changed: true,
            asks_what_happened_next: false,
            asks_what_led: true,
        })
    );
    assert_eq!(episodic_cues(&record("plain", None), "what changed", &f, &terms), None);
}

#[test]
fn temporal_cues_match_the_intents_of_the_query() {
    let recurring = record("recurring", Some(retro_episode()));
    let cues = temporal_cues(
        &recurring,
        "how long does the recurring weekly release handoff boundary last",
    );
    assert_eq!(
        cues,
        Some(TemporalCues {
            sequence_linked: true,
            duration_ms: Some(4 * 60 * 60 * 1000),
            recurrence_keyed: true,
            recurrence_interval_ms: Some(7 * 24 * 60 * 60 * 1000),
            boundary_labeled: true,
            boundary_scoped: true,
        })
    );
    let quiet = temporal_cues(&recurring, "retrospective notes").unwrap();
    assert_eq!(quiet.duration_ms, None);
    assert!(!quiet.sequence_linked && !quiet.recurrence_keyed && !quiet.boundary_labeled);
    assert_eq!(temporal_cues(&record("plain", None), "how long"), None);
}

fn storm_episode() -> EpisodeFrame {
    EpisodeFrame {
        schema_version: EPISODE_SCHEMA_VERSION,
        episode_id: "storm-episode".to_string(),
        summary: Some("storm response episode".to_string()),
        continuity_state: EpisodeContinuityState::Open,
        actor_ids: vec!["ava".to_string()],
        goal: Some("close the storm remediation checklist".to_string()),
        outcome: None,
        started_at_unix_ms: Some(1),
        ended_at_unix_ms: None,
        last_active_unix_ms: Some(2),
        recurrence_key: None,
        recurrence_interval_ms: None,
        boundary_label: None,
        previous_record_id: Some("storm-previous".to_string()),
        next_record_id: Some("storm-next".to_string()),
        causal_record_ids: vec!["storm-root".to_string()],
        related_record_ids: vec!["storm-related".to_string()],
        linked_artifact_uris: vec![],
    }
}

fn shows_episodic_cues(cues: &EpisodicCues) -> bool {
    cues.episode_matches_filter
        || cues.unresolved
        || cues.term_matches > 0
        || cues.asks_what_changed
        || cues.asks_what_happened_next
        || cues.asks_what_led
}

#[test]
fn episodic_and_salience_scores_are_reported_when_present() {
    let episodic = record("episodic", Some(storm_episode()));
    let mut f = filters();
    f.episode_id = Some("storm-episode".to_string());
    f.unresolved_only = true;
    let terms = tokenize_query("storm checklist");
    let cues = episodic_cues(&episodic, "storm checklist", &f, &terms).unwrap();
    assert!(cues.episode_matches_filter);
    assert!(cues.unresolved);
    assert_eq!(cues.term_matches, 2);
}

#[test]
fn continuity_intent_queries_trigger_episode_reasoning_and_continuity_planning() {
    let episodic = record("episodic", Some(storm_episode()));
    let planner = RecallPlanner::from_engine_config(&EngineConfig::default());
    for query_text in [
        "what led to this storm state",
        "what changed in the storm episode",
        "what happened next in the storm episode",
    ] {
        let terms = tokenize_query(query_text);
        let cues = episodic_cues(&episodic, query_text, &filters(), &terms).unwrap();
        assert_eq!(
            planner.effective_profile(query_text, &filters()),
            RecallPlanningProfile::ContinuityAware
        );
        assert!(shows_episodic_cues(&cues));
    }
    let mut unresolved = filters();
    unresolved.unresolved_only = true;
    let terms = tokenize_query("storm checklist");
    let cues = episodic_cues(&episodic, "storm checklist", &unresolved, &terms).unwrap();
    assert_eq!(
        planner.effective_profile("storm checklist", &unresolved),
        RecallPlanningProfile::ContinuityAware
    );
    assert!(cues.unresolved && shows_episodic_cues(&cues));
}

#[test]
fn temporal_score_rewards_recurrence_duration_and_boundary_cues() {
    let recurring = record("recurring", Some(retro_episode()));
    let plain = record("plain", None);
    let query = "how long does the recurring weekly release handoff boundary last";
    let cues = temporal_cues(&recurring, query).unwrap();
    assert!(cues.sequence_linked);
    assert_eq!(cues.duration_ms, Some(4 * 60 * 60 * 1000));
    assert!(cues.recurrence_keyed && cues.boundary_labeled);
    assert_eq!(temporal_cues(&plain, query), None);
}
