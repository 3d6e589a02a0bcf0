use mnemara::config::{
    EmbeddingProviderKind, RecallPlanningProfile, RecallPolicyProfile, RecallScorerKind,
    RecallScoringProfile,
};
use mnemara::launch::{
    auth_config_from_settings, bearer_token_setting, grpc_uds_path_setting, http_listen_setting,
    parse_auth_permission, parse_deployment_profile, parse_token_policy, protect_metrics_setting,
    server_limits_from, tls_requirement, token_policies_from_setting, ClientCaRequirement,
    DeploymentProfile,
};
use mnemara::server::AuthPermission;
use mnemara::settings::{
    engine_config_from, parse_recall_scoring_profile, parse_u16, parse_u32, parse_usize,
};
use std::collections::HashMap;

#[test]
fn engine_config_from_defaults_when_env_is_absent() {
    let config = engine_config_from(|_| None).unwrap();
    assert_eq!(config.recall_scorer_kind, RecallScorerKind::Profile);
    assert_eq!(
        config.recall_scoring_profile,
        RecallScoringProfile::Balanced
    );
    assert_eq!(
        config.embedding_provider_kind,
        EmbeddingProviderKind::Disabled
    );
    assert_eq!(config.embedding_dimensions, 64);
    assert_eq!(
        config.recall_planning_profile,
        RecallPlanningProfile::FastPath
    );
    assert_eq!(config.recall_policy_profile, RecallPolicyProfile::General);
    assert_eq!(config.graph_expansion_max_hops, 1);
    assert_eq!(config.compaction.summarize_after_record_count, 50);
    assert_eq!(config.compaction.cold_archive_after_days, 0);
    assert_eq!(
        config
            .compaction
            .cold_archive_importance_threshold_per_mille,
        250
    );
}

#[test]
fn engine_config_from_reads_scoring_and_compaction_overrides() {
    let vars = HashMap::from([
        (
            "MNEMARA_RECALL_SCORER_KIND".to_string(),
            "curated".to_string(),
        ),
        (
            "MNEMARA_RECALL_SCORING_PROFILE".to_string(),
            "importance-first".to_string(),
        ),
        (
            "MNEMARA_RECALL_PLANNING_PROFILE".to_string(),
            "continuity_aware".to_string(),
        ),
        (
            "MNEMARA_RECALL_POLICY_PROFILE".to_string(),
            "research".to_string(),
        ),
        (
            "MNEMARA_GRAPH_EXPANSION_MAX_HOPS".to_string(),
            "0".to_string(),
        ),
        (
            "MNEMARA_EMBEDDING_PROVIDER_KIND".to_string(),
            "deterministic-local".to_string(),
        ),
        ("MNEMARA_EMBEDDING_DIMENSIONS".to_string(), "96".to_string()),
        (
            "MNEMARA_COMPACTION_SUMMARIZE_AFTER_RECORD_COUNT".to_string(),
            "8".to_string(),
        ),
        (
            "MNEMARA_COMPACTION_COLD_ARCHIVE_AFTER_DAYS".to_string(),
            "14".to_string(),
        ),
        (
            "MNEMARA_COMPACTION_COLD_ARCHIVE_IMPORTANCE_THRESHOLD_PER_MILLE".to_string(),
            "175".to_string(),
        ),
    ]);

    let config = engine_config_from(|name: &str| vars.get(name).cloned()).unwrap();
    assert_eq!(config.recall_scorer_kind, RecallScorerKind::Curated);
    assert_eq!(
        config.recall_scoring_profile,
        RecallScoringProfile::ImportanceFirst
    );
    assert_eq!(
        config.recall_planning_profile,
        RecallPlanningProfile::ContinuityAware
    );
    assert_eq!(config.recall_policy_profile, RecallPolicyProfile::Research);
    assert_eq!(
        config.embedding_provider_kind,
        EmbeddingProviderKind::DeterministicLocal
    );
    assert_eq!(config.embedding_dimensions, 96);
    assert_eq!(config.graph_expansion_max_hops, 0);
    assert_eq!(config.compaction.summarize_after_record_count, 8);
    assert_eq!(config.compaction.cold_archive_after_days, 14);
    assert_eq!(
        config
            .compaction
            .cold_archive_importance_threshold_per_mille,
        175
    );
}

fn only(target: &'static str, value: &'static str) -> impl Fn(&str) -> Option<String> {
    move |name: &str| {
        if name == target {
            Some(value.to_string())
        } else {
            None
        }
    }
}

#[test]
fn engine_config_from_rejects_invalid_scoring_profile() {
    let error = engine_config_from(only("MNEMARA_RECALL_SCORING_PROFILE", "nonsense")).unwrap_err();
    assert!(error.contains("invalid MNEMARA_RECALL_SCORING_PROFILE"));
}

#[test]
fn engine_config_from_rejects_invalid_scorer_kind() {
    let error = engine_config_from(only("MNEMARA_RECALL_SCORER_KIND", "nonsense")).unwrap_err();
    assert!(error.contains("invalid MNEMARA_RECALL_SCORER_KIND"));
}

#[test]
fn engine_config_from_rejects_invalid_planning_profile() {
    let error = engine_config_from(only("MNEMARA_RECALL_PLANNING_PROFILE", "nonsense")).unwrap_err();
    assert!(error.contains("invalid MNEMARA_RECALL_PLANNING_PROFILE"));
}

#[test]
fn engine_config_from_rejects_invalid_policy_profile() {
    let error = engine_config_from(only("MNEMARA_RECALL_POLICY_PROFILE", "nonsense")).unwrap_err();
    assert!(error.contains("invalid MNEMARA_RECALL_POLICY_PROFILE"));
}

#[test]
fn engine_config_from_rejects_out_of_range_graph_hops() {
    let error = engine_config_from(only("MNEMARA_GRAPH_EXPANSION_MAX_HOPS", "999")).unwrap_err();
    assert!(error.contains("invalid MNEMARA_GRAPH_EXPANSION_MAX_HOPS"));
}

#[test]
fn engine_config_from_rejects_invalid_embedding_provider_kind() {
    let error = engine_config_from(only("MNEMARA_EMBEDDING_PROVIDER_KIND", "nonsense")).unwrap_err();
    assert!(error.contains("invalid MNEMARA_EMBEDDING_PROVIDER_KIND"));
}

#[test]
fn numeric_settings_report_rust_parse_errors() {
    assert_eq!(parse_usize(None, "X", 7), Ok(7));
    assert_eq!(parse_usize(Some("42".to_string()), "X", 7), Ok(42));
    assert_eq!(
        parse_usize(Some("".to_string()), "X", 7),
        Err("invalid X '': cannot parse integer from empty string".to_string())
    );
    assert_eq!(
        parse_u32(Some("4x".to_string()), "Y", 1),
        Err("invalid Y '4x': invalid digit found in string".to_string())
    );
    assert_eq!(
        parse_u16(Some("70000".to_string()), "Z", 1),
        Err("invalid Z '70000': number too large to fit in target type".to_string())
    );
    assert_eq!(parse_u16(Some("65535".to_string()), "Z", 1), Ok(65535));
}

#[test]
fn scoring_profile_names_are_trimmed_and_case_folded() {
    assert_eq!(
        parse_recall_scoring_profile(Some("  Lexical-First ".to_string())),
        Ok(RecallScoringProfile::LexicalFirst)
    );
    assert_eq!(
        parse_recall_scoring_profile(Some("   ".to_string())),
        Ok(RecallScoringProfile::Balanced)
    );
    assert_eq!(
        parse_recall_scoring_profile(Some("Fancy".to_string())),
        Err("invalid MNEMARA_RECALL_SCORING_PROFILE 'fancy': expected balanced, lexical-first, or importance-first".to_string())
    );
}

#[test]
fn deployment_profiles_parse_their_names() {
    assert_eq!(parse_deployment_profile(None), Ok(DeploymentProfile::Default));
    assert_eq!(
        parse_deployment_profile(Some(" UDS_local ".to_string())),
        Ok(DeploymentProfile::UdsLocal)
    );
    assert_eq!(
        parse_deployment_profile(Some("tls-service".to_string())),
        Ok(DeploymentProfile::TlsService)
    );
    assert_eq!(
        parse_deployment_profile(Some("mtls_service".to_string())),
        Ok(DeploymentProfile::MtlsService)
    );
    assert_eq!(
        parse_deployment_profile(Some("Cloud".to_string())),
        Err("invalid MNEMARA_DEPLOYMENT_PROFILE 'cloud': expected default, uds-local, tls-service, or mtls-service".to_string())
    );
}

#[test]
fn listeners_follow_the_deployment_profile() {
    assert_eq!(
        http_listen_setting(DeploymentProfile::Default, None),
        Some("127.0.0.1:50052".to_string())
    );
    assert_eq!(http_listen_setting(DeploymentProfile::TlsService, None), None);
    assert_eq!(
        http_listen_setting(DeploymentProfile::UdsLocal, Some(" 0.0.0.0:8080 ".to_string())),
        Some("0.0.0.0:8080".to_string())
    );
    assert_eq!(
        http_listen_setting(DeploymentProfile::Default, Some("  ".to_string())),
        None
    );
    assert_eq!(
        grpc_uds_path_setting(DeploymentProfile::UdsLocal, None),
        Some("/tmp/mnemara-grpc.sock".to_string())
    );
    assert_eq!(
        grpc_uds_path_setting(DeploymentProfile::Default, Some("/run/m.sock".to_string())),
        Some("/run/m.sock".to_string())
    );
    assert_eq!(grpc_uds_path_setting(DeploymentProfile::Default, Some(" ".to_string())), None);
    assert_eq!(tls_requirement(DeploymentProfile::Default), None);
    assert_eq!(tls_requirement(DeploymentProfile::UdsLocal), None);
    assert_eq!(
        tls_requirement(DeploymentProfile::TlsService),
        Some(ClientCaRequirement::Optional)
    );
    assert_eq!(
        tls_requirement(DeploymentProfile::MtlsService),
        Some(ClientCaRequirement::Required)
    );
}

#[test]
fn auth_permissions_and_flags_parse() {
    assert_eq!(parse_auth_permission(" Read "), Ok(AuthPermission::Read));
    assert_eq!(parse_auth_permission("METRICS"), Ok(AuthPermission::Metrics));
    assert_eq!(
        parse_auth_permission(" Root "),
        Err("unknown auth permission 'root'".to_string())
    );
    assert!(protect_metrics_setting(Some("TRUE".to_string())));
    assert!(protect_metrics_setting(Some("1".to_string())));
    assert!(!protect_metrics_setting(Some(" yes".to_string())));
    assert!(!protect_metrics_setting(None));
    assert_eq!(bearer_token_setting(Some("  ".to_string())), None);
    assert_eq!(
        bearer_token_setting(Some("secret".to_string())),
        Some("secret".to_string())
    );
}

#[test]
fn token_policies_parse_entries_and_report_the_first_error() {
    let policies = token_policies_from_setting(Some(
        " reader=read; ops = write , admin ;; ".to_string(),
    ))
    .unwrap();
    assert_eq!(policies.len(), 2);
    assert_eq!(policies[0].token, "reader");
    assert_eq!(policies[0].permissions, vec![AuthPermission::Read]);
    assert_eq!(policies[1].token, "ops");
    assert_eq!(
        policies[1].permissions,
        vec![AuthPermission::Write, AuthPermission::Admin]
    );

    assert_eq!(token_policies_from_setting(None).unwrap().len(), 0);
    assert_eq!(
        token_policies_from_setting(Some("reader".to_string())),
        Err("invalid MNEMARA_AUTH_TOKENS entry 'reader': expected token=perm1,perm2".to_string())
    );
    assert_eq!(
        token_policies_from_setting(Some("a=read; =write".to_string())),
        Err("invalid MNEMARA_AUTH_TOKENS entry ' =write': token is required".to_string())
    );
    assert_eq!(
        token_policies_from_setting(Some("a=read;b=fly".to_string())),
        Err("unknown auth permission 'fly'".to_string())
    );
    assert_eq!(
        parse_token_policy("a=, ,"),
        Err("invalid MNEMARA_AUTH_TOKENS entry 'a=, ,': at least one permission is required".to_string())
    );
    let split_at_first = parse_token_policy("k=v=read").unwrap_err();
    assert_eq!(split_at_first, "unknown auth permission 'v=read'");
}

#[test]
fn auth_config_combines_its_settings() {
    let config = auth_config_from_settings(
        Some("admin-token".to_string()),
        Some("yes".to_string()),
        Some("metrics-reader=metrics".to_string()),
    )
    .unwrap();
    assert_eq!(config.bearer_token, Some("admin-token".to_string()));
    assert!(config.protect_metrics);
    assert_eq!(config.token_policies.len(), 1);
    assert_eq!(config.token_policies[0].permissions, vec![AuthPermission::Metrics]);
    assert!(auth_config_from_settings(None, None, Some("x".to_string())).is_err());
}

#[test]
fn server_limits_read_overrides_and_keep_defaults() {
    let limits = server_limits_from(only("MNEMARA_MAX_RECALL_ITEMS", "12")).unwrap();
    assert_eq!(limits.max_recall_items, 12);
    assert_eq!(limits.max_http_body_bytes, 64 * 1024);
    assert_eq!(limits.queue_wait_timeout_ms, 2_000);
    assert_eq!(limits.trace_retention, 256);
    let error = server_limits_from(only("MNEMARA_TRACE_RETENTION", "-1")).unwrap_err();
    assert_eq!(error, "invalid MNEMARA_TRACE_RETENTION '-1': invalid digit found in string");
}
