use mnemara::compaction::{plan_compaction, summary_record_id};
use mnemara::config::{EngineConfig, RetentionPolicy};
use mnemara::keys::scoped_key;
use mnemara::maintenance::{
    dedup_signature, find_record, integrity_check_report, integrity_summary, plan_repair,
    IdempotencyMapping, StoredFrame,
};
use mnemara::model::{
    MemoryHistoricalState, MemoryQualityState, MemoryRecordKind, MemoryScope, MemoryTrustLevel,
    RecordFrame,
};
use mnemara::portable::{
    export_snapshot_id, plan_import, select_export, snapshot_id, snapshot_namespaces,
    validate_import, PORTABLE_PACKAGE_VERSION,
};
use mnemara::query::{
    CompactionRequest, ExportRequest, ImportMode, MaintenanceRunRequest, RepairRequest,
    StoreStatsRequest,
};
use mnemara::retention::{days_ms, plan_retention};
use mnemara::stats::build_stats_report;
use mnemara::store::maintenance_steps;

fn scope(tenant: &str, namespace: &str) -> MemoryScope {
    MemoryScope {
        tenant_id: tenant.to_string(),
        namespace: namespace.to_string(),
        actor_id: "ava".to_string(),
        conversation_id: None,
        session_id: None,
        source: "test".to_string(),
        labels: vec![],
        trust_level: MemoryTrustLevel::Observed,
    }
}

fn record(id: &str, content: &str) -> RecordFrame {
    RecordFrame {
        id: id.to_string(),
        scope: scope("t", "ops"),
        kind: MemoryRecordKind::Fact,
        content: content.to_string(),
        summary: None,
        source_id: None,
        quality_state: MemoryQualityState::Active,
        created_at_unix_ms: 0,
        updated_at_unix_ms: 0,
        expires_at_unix_ms: None,
        importance_per_mille: 500,
        importance_key: 0,
        has_artifact: false,
        episode: None,
        historical_state: MemoryHistoricalState::Current,
        lineage: vec![],
        conflict: None,
    }
}

fn stored(id: &str, content: &str, key: Option<&str>) -> StoredFrame {
    StoredFrame {
        record: record(id, content),
        idempotency_key: key.map(|k| k.to_string()),
    }
}

fn fixture() -> (Vec<StoredFrame>, Vec<IdempotencyMapping>) {
    let mut archived = stored("r3", "other", None);
    archived.record.quality_state = MemoryQualityState::Archived;
    let records = vec![
        stored("r1", "Hello", Some("k1")),
        stored("r2", " hello ", Some("k2")),
        archived,
    ];
    let mappings = vec![
        IdempotencyMapping {
            scoped_key: scoped_key(&scope("t", "ops"), "k1"),
            record_id: "r1".to_string(),
        },
        IdempotencyMapping {
            scoped_key: "garbage".to_string(),
            record_id: "r1".to_string(),
        },
        IdempotencyMapping {
            scoped_key: scoped_key(&scope("t", "ops"), "kx"),
            record_id: "missing".to_string(),
        },
    ];
    (records, mappings)
}

#[test]
fn integrity_scan_counts_stale_missing_and_duplicates() {
    let (records, mappings) = fixture();
    assert_eq!(dedup_signature(&records[0].record), dedup_signature(&records[1].record));
    assert_eq!(find_record(&records, "r2"), Some(1));
    let summary = integrity_summary(&records, &mappings, None, None);
    assert_eq!(summary.scanned_records, 3);
    assert_eq!(summary.scanned_idempotency_keys, 3);
    assert_eq!(summary.stale_idempotency_keys, 2);
    assert_eq!(summary.missing_idempotency_keys, 1);
    assert_eq!(summary.duplicate_active_records, 1);
    let report = integrity_check_report(&summary, 77);
    assert_eq!(report.generated_at_unix_ms, 77);
    assert!(!report.healthy);
    let other = integrity_summary(&records, &mappings, Some("nobody"), None);
    assert_eq!(other.scanned_records, 0);
    assert_eq!(other.scanned_idempotency_keys, 1);
    assert_eq!(other.stale_idempotency_keys, 1);
}

#[test]
fn repair_removes_dangling_and_rebuilds_missing_mappings() {
    let (records, mappings) = fixture();
    let mut request = RepairRequest {
        tenant_id: None,
        namespace: None,
        dry_run: false,
        reason: " ".to_string(),
        remove_stale_idempotency_keys: true,
        rebuild_missing_idempotency_keys: true,
    };
    assert_eq!(
        plan_repair(&request, &records, &mappings).err().unwrap().to_string(),
        "invalid request: repair reason is required"
    );
    request.reason = "fix".to_string();
    let plan = plan_repair(&request, &records, &mappings).ok().unwrap();
    assert_eq!(plan.stale_mappings, vec![2]);
    assert_eq!(plan.rebuilt_mappings.len(), 1);
    assert_eq!(plan.rebuilt_mappings[0].record_id, "r2");
    assert_eq!(plan.rebuilt_mappings[0].scoped_key, scoped_key(&scope("t", "ops"), "k2"));
    assert_eq!(plan.report.removed_stale_idempotency_keys, 1);
    assert_eq!(plan.report.rebuilt_missing_idempotency_keys, 1);
    assert!(!plan.report.healthy_after);
    request.remove_stale_idempotency_keys = false;
    request.rebuild_missing_idempotency_keys = false;
    assert_eq!(
        plan_repair(&request, &records, &mappings).err().unwrap().to_string(),
        "invalid request: repair requires at least one enabled action"
    );
}

#[test]
fn retention_removes_expired_archives_aged_and_caps() {
    let day = days_ms(1);
    assert_eq!(day, 86_400_000);
    let now = 10 * day;
    let mut expired = stored("old", "a", None);
    expired.record.expires_at_unix_ms = Some(now);
    let mut aged = stored("aged", "b", None);
    aged.record.created_at_unix_ms = 0;
    let mut pinned = stored("pinned", "c", None);
    pinned.record.scope.trust_level = MemoryTrustLevel::Pinned;
    pinned.record.expires_at_unix_ms = Some(1);
    let mut fresh1 = stored("fresh1", "d", None);
    fresh1.record.created_at_unix_ms = 9 * day;
    fresh1.record.updated_at_unix_ms = 5;
    let mut fresh2 = stored("fresh2", "e", None);
    fresh2.record.created_at_unix_ms = 9 * day;
    fresh2.record.updated_at_unix_ms = 6;
    let mut elsewhere = stored("elsewhere", "f", None);
    elsewhere.record.scope.namespace = "other".to_string();
    elsewhere.record.expires_at_unix_ms = Some(1);
    let records = vec![expired, aged, pinned, fresh1, fresh2, elsewhere];
    let policy = RetentionPolicy {
        ttl_days: 0,
        archive_after_days: 5,
        max_records_per_namespace: 1,
        pinned_records_exempt: true,
    };
    let plan = plan_retention("t", "ops", &records, &policy, now);
    assert_eq!(plan.removed, vec![0]);
    assert_eq!(plan.archived_by_age, vec![1]);
    assert_eq!(plan.archived_by_cap, vec![3]);
}

#[test]
fn compaction_supersedes_duplicates_and_needs_a_tenant() {
    let (records, _) = fixture();
    let request = CompactionRequest {
        tenant_id: " ".to_string(),
        namespace: None,
        dry_run: false,
        reason: "tidy".to_string(),
    };
    assert_eq!(
        plan_compaction(&request, &records, 0, 0, 0, 0).err().unwrap().to_string(),
        "invalid request: compaction tenant_id is required"
    );
    let request = CompactionRequest {
        tenant_id: "t".to_string(),
        namespace: Some("ops".to_string()),
        dry_run: false,
        reason: "tidy".to_string(),
    };
    let plan = plan_compaction(&request, &records, 0, 0, 0, 0).ok().unwrap();
    assert_eq!(plan.report.deduplicated_records, 1);
    assert_eq!(plan.report.superseded_records, 1);
    assert_eq!(plan.superseded.len(), 1);
    assert_eq!(plan.superseded[0].record, 1);
    assert!(plan.cold_archived.is_empty());
    let id = summary_record_id("sig");
    assert!(id.starts_with("compacted-summary-"));
    assert_eq!(id.len(), "compacted-summary-".len() + 16);
    assert_eq!(id, summary_record_id("sig"));
}

#[test]
fn maintenance_runs_plan_their_steps() {
    let steps = maintenance_steps(&MaintenanceRunRequest::default());
    assert!(steps.integrity_before.is_some());
    assert!(steps.repair.as_ref().unwrap().dry_run);
    assert!(steps.compaction.is_none());
    let mut request = MaintenanceRunRequest::default();
    request.tenant_id = Some("t".to_string());
    request.run_repair = false;
    let steps = maintenance_steps(&request);
    assert!(steps.repair.is_none());
    assert_eq!(steps.compaction.unwrap().tenant_id, "t");
}

#[test]
fn exports_and_imports_follow_the_package_rules() {
    let (mut records, _) = fixture();
    records.push(StoredFrame {
        record: RecordFrame {
            scope: scope("t", "alpha"),
            ..record("r4", "x")
        },
        idempotency_key: None,
    });
    assert_eq!(snapshot_namespaces(&records), vec!["alpha", "ops"]);
    assert_eq!(snapshot_id(12), "snapshot-12");
    assert_eq!(export_snapshot_id(3), "portable-export-3");
    let selection = select_export(
        &ExportRequest {
            tenant_id: Some("t".to_string()),
            namespace: None,
            include_archived: false,
        },
        &records,
    );
    assert_eq!(selection.records, vec![0, 1, 3]);
    assert_eq!(selection.namespaces, vec!["t:alpha", "t:ops"]);

    let payload: Vec<RecordFrame> = records.iter().map(|s| s.record.clone()).collect();
    let errors = vec![None, None, None, None];
    let validation = validate_import(PORTABLE_PACKAGE_VERSION, 4, &payload, &errors);
    assert!(validation.compatible_package);
    assert_eq!(validation.validated_records, 4);
    let plan = plan_import(
        ImportMode::Merge,
        false,
        PORTABLE_PACKAGE_VERSION,
        "snap".to_string(),
        validation,
        &payload,
        &vec!["r1".to_string()],
    );
    assert!(!plan.clear_existing);
    assert_eq!(plan.persist, vec![1, 2, 3]);
    assert_eq!(plan.report.skipped_records, 1);
    assert_eq!(plan.report.imported_records, 3);

    let bad = validate_import(2, 5, &payload, &errors);
    assert!(!bad.compatible_package);
    assert_eq!(bad.failures[0].reason, "unsupported portable package version 2; expected 1");
    assert_eq!(
        bad.failures[1].reason,
        "portable package manifest record_count=5 does not match payload records=4"
    );
}

#[test]
fn stats_count_namespaces_and_maintenance() {
    let (records, mappings) = fixture();
    let report = build_stats_report(
        &StoreStatsRequest::default(),
        &records,
        &mappings,
        5,
        100,
        EngineConfig::default().tuning_info(),
    );
    assert_eq!(report.generated_at_unix_ms, 5);
    assert_eq!(report.total_records, 3);
    assert_eq!(report.storage_bytes, 100);
    assert_eq!(report.namespaces.len(), 1);
    assert_eq!(report.namespaces[0].active_records, 2);
    assert_eq!(report.namespaces[0].archived_records, 1);
    assert_eq!(report.maintenance.duplicate_candidate_groups, 1);
    assert_eq!(report.maintenance.duplicate_candidate_records, 1);
    assert_eq!(report.maintenance.stale_idempotency_keys, 2);
}

#[test]
fn retention_cap_leaves_exactly_the_cap_active() {
    let mut records = Vec::new();
    for (i, updated) in [40u64, 10, 30, 20, 50].iter().enumerate() {
        let mut s = stored(&format!("r{i}"), "x", None);
        s.record.updated_at_unix_ms = *updated;
        records.push(s);
    }
    let policy = RetentionPolicy {
        ttl_days: 0,
        archive_after_days: 0,
        max_records_per_namespace: 2,
        pinned_records_exempt: true,
    };
    let plan = plan_retention("t", "ops", &records, &policy, 100);
    assert_eq!(plan.archived_by_cap, vec![1, 2, 3]);
    let loose = RetentionPolicy {
        max_records_per_namespace: 0,
        ..policy
    };
    assert!(plan_retention("t", "ops", &records, &loose, 100).archived_by_cap.is_empty());
}

#[test]
fn replacing_import_of_a_sound_package_writes_everything() {
    let (records, _) = fixture();
    let payload: Vec<RecordFrame> = records.iter().map(|s| s.record.clone()).collect();
    let errors = vec![None, None, None];
    let validation = validate_import(PORTABLE_PACKAGE_VERSION, 3, &payload, &errors);
    assert!(validation.failures.is_empty());
    assert_eq!(validation.entries, vec![0, 1, 2]);
    let plan = plan_import(
        ImportMode::Replace,
        false,
        PORTABLE_PACKAGE_VERSION,
        "snap".to_string(),
        validation,
        &payload,
        &vec!["r1".to_string()],
    );
    assert!(plan.clear_existing);
    assert_eq!(plan.persist, vec![0, 1, 2]);
    assert!(plan.report.applied);
}

#[test]
fn default_retention_is_opt_in() {
    let policy = RetentionPolicy::default();
    assert_eq!(policy.ttl_days, 0);
    assert_eq!(policy.archive_after_days, 0);
    assert_eq!(policy.max_records_per_namespace, 0);
    assert!(policy.pinned_records_exempt);
    assert_eq!(EngineConfig::default().retention, policy);
    let records: Vec<StoredFrame> = (0..6000)
        .map(|i| {
            let mut s = stored(&format!("r{i}"), "note", None);
            s.record.created_at_unix_ms = 0;
            s.record.updated_at_unix_ms = i as u64;
            s
        })
        .collect();
    let plan = plan_retention("t", "ops", &records, &policy, 400 * days_ms(1));
    assert!(plan.removed.is_empty());
    assert!(plan.archived_by_age.is_empty());
    assert!(plan.archived_by_cap.is_empty());
}

#[test]
fn exported_packages_import_whole_by_replacement() {
    let records = vec![
        stored("a", "alpha note", Some("k1")),
        stored("b", "beta note", None),
        StoredFrame {
            record: RecordFrame {
                scope: scope("other", "ops"),
                ..record("c", "gamma note")
            },
            idempotency_key: None,
        },
    ];
    let request = ExportRequest {
        tenant_id: Some("t".to_string()),
        namespace: None,
        include_archived: true,
    };
    let selection = select_export(&request, &records);
    assert_eq!(selection.records, vec![0, 1]);
    let package: Vec<RecordFrame> =
        selection.records.iter().map(|&i| records[i].record.clone()).collect();
    let affective = vec![None, None];
    let validation = validate_import(PORTABLE_PACKAGE_VERSION, package.len() as u64, &package, &affective);
    assert!(validation.compatible_package);
    assert_eq!(validation.entries, vec![0, 1]);
    let existing = vec!["a".to_string(), "z".to_string()];
    let plan = plan_import(ImportMode::Replace, false, PORTABLE_PACKAGE_VERSION, "snap".to_string(), validation, &package, &existing);
    assert!(plan.report.applied && plan.clear_existing);
    assert_eq!(plan.report.imported_records, 2);
    assert_eq!(plan.report.skipped_records, 0);
    assert_eq!(plan.persist, vec![0, 1]);
}

#[test]
fn full_export_survives_a_replacing_import() {
    let source = vec![
        stored("a", "alpha note", Some("k1")),
        stored("b", "beta note", None),
        StoredFrame {
            record: RecordFrame {
                scope: scope("other", "ops"),
                ..record("c", "gamma note")
            },
            idempotency_key: None,
        },
    ];
    let everything = ExportRequest { tenant_id: None, namespace: None, include_archived: true };
    let selection = select_export(&everything, &source);
    assert_eq!(selection.records, vec![0, 1, 2]);
    let package: Vec<RecordFrame> =
        selection.records.iter().map(|&i| source[i].record.clone()).collect();
    let affective = vec![None, None, None];
    let validation = validate_import(PORTABLE_PACKAGE_VERSION, package.len() as u64, &package, &affective);
    assert!(validation.compatible_package);
    assert!(validation.failures.is_empty());
    let existing = vec!["z".to_string()];
    let plan = plan_import(ImportMode::Replace, false, PORTABLE_PACKAGE_VERSION, "snap".to_string(), validation, &package, &existing);
    assert!(plan.report.applied && plan.clear_existing);
    assert!(plan.report.failed_records.is_empty());
    assert_eq!(plan.report.imported_records, 3);
    // The target store lists the written records in its own order.
    let target: Vec<StoredFrame> = plan
        .persist
        .iter()
        .rev()
        .map(|&i| StoredFrame { record: package[i].clone(), idempotency_key: None })
        .collect();
    let again = select_export(&everything, &target);
    let mut reexported: Vec<String> = again.records.iter().map(|&i| target[i].record.id.clone()).collect();
    let mut original: Vec<String> = package.iter().map(|r| r.id.clone()).collect();
    reexported.sort();
    original.sort();
    assert_eq!(reexported, original);
    assert_eq!(again.storage_bytes, selection.storage_bytes);
}
