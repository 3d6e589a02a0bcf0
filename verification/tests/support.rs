use mnemara::keys::{hex_key, hex_to_nibble, nibble_to_hex, parse_scope_key, scoped_key, unhex_key};
use mnemara::model::{
    EpisodeContinuityState, MemoryHistoricalState, MemoryQualityState, MemoryRecordKind,
    MemoryScope, MemoryTrustLevel,
};
use mnemara::observability::{TraceEntry, TraceRegistry};
use mnemara::query::{TraceListRequest, TraceOperationKind, TraceStatus};
use mnemara::text::{
    ascii_lowercase, contains_text, decimal_string, join_texts, parse_unsigned, split_text,
    text_less, trim, words, NumberParse,
};
use mnemara::wire::{
    continuity_state_from_proto, continuity_state_to_proto, historical_state_from_proto,
    kinds_from_proto, quality_state_from_proto, quality_state_to_proto, record_kind_from_proto,
    record_kind_to_proto, trust_level_from_proto, trust_level_to_proto,
};

#[test]
fn hex_keys_round_trip() {
    assert_eq!(nibble_to_hex(11), 'b');
    assert_eq!(hex_to_nibble('F'), Some(15));
    assert_eq!(hex_to_nibble('g'), None);
    assert_eq!(hex_key("a/b"), "612f62");
    assert_eq!(unhex_key("612f62"), Some("a/b".to_string()));
    assert_eq!(unhex_key(&hex_key("résumé ✓")), Some("résumé ✓".to_string()));
    assert_eq!(unhex_key("6"), None);
    assert_eq!(unhex_key("zz"), None);
    assert_eq!(unhex_key("ff"), None);
}

#[test]
fn scoped_keys_round_trip() {
    let scope = MemoryScope {
        tenant_id: "t".to_string(),
        namespace: "n".to_string(),
        actor_id: "a".to_string(),
        conversation_id: Some("c".to_string()),
        session_id: None,
        source: "s".to_string(),
        labels: vec![],
        trust_level: MemoryTrustLevel::Observed,
    };
    let key = scoped_key(&scope, "idem");
    assert_eq!(key, "t\u{1f}n\u{1f}a\u{1f}c\u{1f}\u{1f}idem");
    let parts = parse_scope_key(&key).unwrap();
    assert_eq!(parts.tenant_id, "t");
    assert_eq!(parts.conversation_id, Some("c".to_string()));
    assert_eq!(parts.session_id, None);
    assert_eq!(parts.idempotency_key, "idem");
    assert!(parse_scope_key("a\u{1f}b").is_none());
}

fn entry(id: &str, tenant: &str, op: TraceOperationKind, at: u64) -> TraceEntry<u32> {
    TraceEntry {
        trace_id: id.to_string(),
        tenant_id: Some(tenant.to_string()),
        namespace: None,
        operation: op,
        status: TraceStatus::Succeeded,
        started_at_unix_ms: at,
        payload: 7,
    }
}

#[test]
fn trace_registry_keeps_the_newest_traces() {
    let mut registry: TraceRegistry<u32> = TraceRegistry::new(2);
    assert_eq!(registry.next_id("recall", 99), "recall-99-1");
    assert_eq!(registry.next_id("recall", 99), "recall-99-2");
    assert!(!registry.record(entry("a", "t1", TraceOperationKind::Recall, 1)));
    assert!(!registry.record(entry("b", "t2", TraceOperationKind::Upsert, 2)));
    assert!(registry.record(entry("c", "t1", TraceOperationKind::Recall, 3)));
    let snapshot = registry.snapshot();
    assert_eq!(snapshot.stored_traces, 2);
    assert_eq!(snapshot.trace_capacity, 2);
    assert_eq!(snapshot.evicted_traces, 1);
    assert_eq!(snapshot.newest_started_at_unix_ms, Some(3));
    assert_eq!(snapshot.oldest_started_at_unix_ms, Some(2));
    assert!(registry.get("a").is_none());
    assert_eq!(registry.get("b").unwrap().payload, 7);
    let all = registry.list(&TraceListRequest::default());
    assert_eq!(all.len(), 2);
    assert_eq!(all[0].trace_id, "c");
    let filtered = registry.list(&TraceListRequest {
        tenant_id: Some("t2".to_string()),
        ..Default::default()
    });
    assert_eq!(filtered.len(), 1);
    assert_eq!(filtered[0].trace_id, "b");
    let limited = registry.list(&TraceListRequest {
        limit: Some(1),
        ..Default::default()
    });
    assert_eq!(limited.len(), 1);
    let ops = registry.list(&TraceListRequest {
        operation: Some(TraceOperationKind::Upsert),
        before_started_at_unix_ms: Some(1),
        ..Default::default()
    });
    assert!(ops.is_empty());
    let zero: TraceRegistry<u32> = TraceRegistry::new(0);
    assert_eq!(zero.snapshot().trace_capacity, 1);
}

#[test]
fn wire_names_round_trip() {
    assert_eq!(trust_level_from_proto("").unwrap(), MemoryTrustLevel::Derived);
    assert_eq!(trust_level_from_proto("pinned").unwrap(), MemoryTrustLevel::Pinned);
    assert_eq!(
        trust_level_from_proto("Pinned").unwrap_err().to_string(),
        "invalid request: unknown trust level: Pinned"
    );
    assert_eq!(trust_level_to_proto(MemoryTrustLevel::Observed), "observed");
    for kind in [
        MemoryRecordKind::Episodic,
        MemoryRecordKind::Summary,
        MemoryRecordKind::Fact,
        MemoryRecordKind::Preference,
        MemoryRecordKind::Task,
        MemoryRecordKind::Artifact,
        MemoryRecordKind::Hypothesis,
    ] {
        assert_eq!(record_kind_from_proto(&record_kind_to_proto(kind)).unwrap(), kind);
    }
    for state in [
        MemoryQualityState::Draft,
        MemoryQualityState::Active,
        MemoryQualityState::Verified,
        MemoryQualityState::Archived,
        MemoryQualityState::Suppressed,
        MemoryQualityState::Deleted,
    ] {
        assert_eq!(quality_state_from_proto(&quality_state_to_proto(state)).unwrap(), state);
    }
    for state in [
        EpisodeContinuityState::Open,
        EpisodeContinuityState::Resolved,
        EpisodeContinuityState::Superseded,
        EpisodeContinuityState::Abandoned,
    ] {
        assert_eq!(
            continuity_state_from_proto(&continuity_state_to_proto(state)).unwrap(),
            state
        );
    }
    assert!(historical_state_from_proto("someday").is_err());
    assert_eq!(
        historical_state_from_proto("historical").unwrap(),
        MemoryHistoricalState::Historical
    );
    let kinds = kinds_from_proto(vec!["fact".to_string(), "summary".to_string()]).unwrap();
    assert_eq!(kinds, vec![MemoryRecordKind::Fact, MemoryRecordKind::Summary]);
    assert!(kinds_from_proto(vec!["fact".to_string(), "rumor".to_string()]).is_err());
}

#[test]
fn text_helpers_match_std() {
    assert_eq!(trim("\t a b \n"), "a b");
    assert_eq!(ascii_lowercase("ÀBc"), "Àbc");
    assert!(contains_text("haystack", "st"));
    assert!(contains_text("abc", ""));
    assert!(!contains_text("ab", "abc"));
    assert_eq!(words("  a  bb\tc "), vec!["a", "bb", "c"]);
    assert_eq!(split_text("a;;b", ';'), vec!["a", "", "b"]);
    assert_eq!(split_text("", ';'), vec![""]);
    assert_eq!(join_texts(&vec!["x".to_string(), "y".to_string()], ", "), "x, y");
    assert_eq!(join_texts(&vec![], ","), "");
    assert_eq!(decimal_string(0), "0");
    assert_eq!(decimal_string(18446744073709551615), "18446744073709551615");
    assert!(matches!(parse_unsigned("+12", 100), NumberParse::Parsed(12)));
    assert!(matches!(parse_unsigned("101", 100), NumberParse::TooLarge));
    assert!(matches!(parse_unsigned("+", 100), NumberParse::InvalidDigit));
    assert!(matches!(parse_unsigned("", 100), NumberParse::Empty));
    assert!(text_less("ab", "b"));
    assert!(text_less("a", "ab"));
    assert!(!text_less("b", "b"));
}
