use mnemara::admission::{AdmissionClass, AdmissionConfig, AdmissionController, AdmissionError};
use mnemara::error::Error;
use mnemara::model::{MemoryScope, MemoryTrustLevel};
use mnemara::query::TraceOperationKind;
use mnemara::server::{
    http_status_for_error, HTTP_TOO_MANY_REQUESTS,
    admission_class_for_operation, append_counter, bearer_token_from_header, outcome_for_error,
    validate_batch_limits, validate_http_auth, validate_recall_limits, validate_scope_limits, AuthConfig,
    AuthPermission, CallOutcome, MethodMetrics, ServerLimits, ServerMetrics, TokenPolicy,
    HTTP_UNAUTHORIZED,
};

fn config(queue: usize, tenant: usize) -> AdmissionConfig {
    AdmissionConfig {
        max_inflight_reads: 2,
        max_inflight_writes: 0,
        max_inflight_admin: 1,
        max_queued_requests: queue,
        max_tenant_inflight: tenant,
        queue_wait_timeout_ms: 0,
    }
}

#[test]
fn admission_permits_never_drop_to_zero() {
    let c = config(4, 2);
    assert_eq!(c.permits_for(AdmissionClass::Read), 2);
    assert_eq!(c.permits_for(AdmissionClass::Write), 1);
    assert_eq!(c.queue_wait_timeout(), 1);
}

#[test]
fn admission_queue_rejects_when_full() {
    let mut controller = AdmissionController::new(config(1, 2));
    assert_eq!(controller.enqueue(AdmissionClass::Read, 10), Ok(()));
    assert_eq!(
        controller.enqueue(AdmissionClass::Write, 11),
        Err(AdmissionError::QueueFull)
    );
    let status = controller.snapshot(15);
    assert_eq!(status.queued_total, 1);
    assert_eq!(status.queued_reads, 1);
    assert_eq!(status.oldest_read_queue_wait_ms, 5);
    assert_eq!(status.oldest_queue_wait_ms, 5);
    assert_eq!(status.fair_queue_policy, "fifo-per-class");
}

#[test]
fn admission_wait_then_admit_then_release_round_trip() {
    let mut controller = AdmissionController::new(config(8, 1));
    controller.enqueue(AdmissionClass::Write, 100).unwrap();
    assert_eq!(
        controller.finish_wait(AdmissionClass::Write, Some("tenant-a"), true, 130),
        Ok(())
    );
    let status = controller.snapshot(130);
    assert_eq!(status.queued_total, 0);
    assert_eq!(status.inflight_total, 1);
    assert_eq!(status.inflight_writes, 1);
    assert_eq!(status.average_queue_wait_ms, 30);
    assert_eq!(status.max_queue_wait_ms, 30);
    assert_eq!(status.tenant_inflight.len(), 1);
    assert_eq!(status.tenant_inflight[0].tenant_id, "tenant-a");
    assert_eq!(status.tenant_inflight[0].inflight, 1);

    // the tenant holds its one permit: a second request is turned away
    assert_eq!(
        controller.accept(AdmissionClass::Read, Some("tenant-a")),
        Err(AdmissionError::TenantBusy)
    );
    assert_eq!(controller.accept(AdmissionClass::Read, Some("tenant-b")), Ok(()));
    assert_eq!(controller.accept(AdmissionClass::Read, None), Ok(()));

    controller.release(AdmissionClass::Write, Some("tenant-a"));
    let status = controller.snapshot(200);
    assert_eq!(status.inflight_total, 2);
    assert_eq!(status.inflight_writes, 0);
    assert_eq!(status.tenant_inflight.len(), 1);
    assert_eq!(status.tenant_inflight[0].tenant_id, "tenant-b");
}

#[test]
fn admission_wait_without_permit_times_out() {
    let mut controller = AdmissionController::new(config(8, 1));
    controller.enqueue(AdmissionClass::Admin, 5).unwrap();
    assert_eq!(
        controller.finish_wait(AdmissionClass::Admin, None, false, 9),
        Err(AdmissionError::TimedOut)
    );
    let status = controller.snapshot(9);
    assert_eq!(status.queued_admin, 0);
    assert_eq!(status.inflight_total, 0);
    assert_eq!(status.average_queue_wait_ms, 4);
}

#[test]
fn outcomes_follow_error_kinds() {
    assert_eq!(
        outcome_for_error(&Error::InvalidRequest("x".to_string())),
        CallOutcome::InvalidArgument
    );
    assert_eq!(
        outcome_for_error(&Error::InvalidConfig("x".to_string())),
        CallOutcome::InvalidArgument
    );
    assert_eq!(
        outcome_for_error(&Error::Conflict("x".to_string())),
        CallOutcome::AlreadyExists
    );
    assert_eq!(
        outcome_for_error(&Error::Unsupported("x".to_string())),
        CallOutcome::Unimplemented
    );
    assert_eq!(outcome_for_error(&Error::Backend("x".to_string())), CallOutcome::Other);
}

#[test]
fn method_metrics_count_outcomes() {
    let mut m = MethodMetrics::default();
    m.record_started();
    m.record_status(CallOutcome::Succeeded);
    m.record_started();
    m.record_status(CallOutcome::AlreadyExists);
    assert_eq!(m.started, 2);
    assert_eq!(m.ok, 1);
    assert_eq!(m.conflict, 1);
    assert_eq!(m.internal, 0);
}

#[test]
fn metrics_render_in_prometheus_text_format() {
    let mut out = String::new();
    append_counter(&mut out, "demo_total", 42);
    assert_eq!(out, "# TYPE demo_total counter\ndemo_total 42\n");

    let mut metrics = ServerMetrics::default();
    metrics.grpc_upsert.started = 3;
    assert_eq!(
        metrics.record_admission_error(AdmissionError::TenantBusy),
        "request admission rejected"
    );
    assert_eq!(
        metrics.record_admission_error(AdmissionError::TimedOut),
        "request admission timed out"
    );
    metrics.record_trace_stored(true);
    let rendered = metrics.render();
    assert!(rendered.starts_with(
        "# TYPE mnemara_grpc_upsert_requests_started_total counter\nmnemara_grpc_upsert_requests_started_total 3\n"
    ));
    assert!(rendered.contains("mnemara_admission_rejected_total 1\n"));
    assert!(rendered.contains("mnemara_admission_timed_out_total 1\n"));
    assert!(rendered.contains("mnemara_trace_records_total 1\n"));
    assert!(rendered.contains("mnemara_trace_evictions_total 1\n"));
    assert!(rendered.ends_with("mnemara_trace_reads_total 0\n"));
}

fn auth() -> AuthConfig {
    AuthConfig {
        bearer_token: Some("root".to_string()),
        protect_metrics: false,
        token_policies: vec![
            TokenPolicy {
                token: "reader".to_string(),
                permissions: vec![AuthPermission::Read],
            },
            TokenPolicy {
                token: "scraper".to_string(),
                permissions: vec![AuthPermission::Metrics],
            },
        ],
    }
}

#[test]
fn auth_guards_reject_missing_or_weak_tokens() {
    let auth = auth();
    assert_eq!(bearer_token_from_header(Some("Bearer abc")), Some("abc"));
    assert_eq!(bearer_token_from_header(Some("Basic abc")), None);
    assert_eq!(validate_http_auth("/healthz", None, &auth), Ok(()));
    assert_eq!(validate_http_auth("/metrics", None, &auth), Ok(()));
    assert_eq!(
        validate_http_auth("/memory/recall", None, &auth),
        Err(HTTP_UNAUTHORIZED)
    );
    assert_eq!(
        validate_http_auth("/memory/recall", Some("Bearer reader"), &auth),
        Ok(())
    );
    assert_eq!(
        validate_http_auth("/memory/upsert", Some("Bearer reader"), &auth),
        Err(401)
    );
    assert_eq!(
        validate_http_auth("/admin/traces/abc", Some("Bearer root"), &auth),
        Ok(())
    );
    let mut protected = auth.clone();
    protected.protect_metrics = true;
    assert_eq!(validate_http_auth("/metrics", None, &protected), Err(401));
    assert_eq!(
        validate_http_auth("/metrics", Some("Bearer scraper"), &protected),
        Ok(())
    );
    assert!(AuthConfig::default().authorize(None, AuthPermission::Admin));
    assert!(!auth.authorize(Some("Bearer scraper"), AuthPermission::Read));
}

#[test]
fn operations_take_their_admission_class() {
    assert_eq!(admission_class_for_operation(TraceOperationKind::Recall), "read");
    assert_eq!(admission_class_for_operation(TraceOperationKind::Upsert), "write");
    assert_eq!(admission_class_for_operation(TraceOperationKind::Repair), "admin");
}

fn scope(labels: usize) -> MemoryScope {
    MemoryScope {
        tenant_id: "t".to_string(),
        namespace: "n".to_string(),
        actor_id: "a".to_string(),
        conversation_id: None,
        session_id: None,
        source: "s".to_string(),
        labels: (0..labels).map(|i| format!("l{i}")).collect(),
        trust_level: MemoryTrustLevel::Observed,
    }
}

#[test]
fn limits_reject_oversized_scopes_and_recalls() {
    let mut limits = ServerLimits::default();
    limits.max_labels_per_scope = 2;
    limits.max_recall_items = 5;
    limits.max_query_text_bytes = 8;
    assert!(validate_scope_limits(&scope(2), &limits).is_ok());
    assert_eq!(
        validate_scope_limits(&scope(3), &limits).unwrap_err().to_string(),
        "invalid request: scope labels exceed configured max of 2"
    );
    assert_eq!(
        validate_recall_limits(&scope(1), 0, "q", &limits).unwrap_err().to_string(),
        "invalid request: recall max_items must be greater than 0"
    );
    assert_eq!(
        validate_recall_limits(&scope(1), 6, "q", &limits).unwrap_err().to_string(),
        "invalid request: recall max_items exceeds configured max of 5"
    );
    assert!(validate_recall_limits(&scope(1), 5, "12345678", &limits).is_ok());
    assert!(validate_recall_limits(&scope(1), 5, "123456789", &limits).is_err());
    assert!(limits.body_too_large(limits.max_http_body_bytes + 1));
    assert!(!limits.body_too_large(limits.max_http_body_bytes));
}

#[test]
fn store_errors_map_to_http_statuses() {
    assert_eq!(http_status_for_error(&Error::InvalidRequest("x".to_string())), 400);
    assert_eq!(http_status_for_error(&Error::InvalidConfig("x".to_string())), 400);
    assert_eq!(http_status_for_error(&Error::Conflict("x".to_string())), 409);
    assert_eq!(http_status_for_error(&Error::Unsupported("x".to_string())), 501);
    assert_eq!(http_status_for_error(&Error::Backend("x".to_string())), 500);
    assert_eq!(HTTP_TOO_MANY_REQUESTS, 429);
}

#[test]
fn batch_limits_reject_oversized_batches() {
    let mut limits = ServerLimits::default();
    limits.max_batch_upsert_requests = 1;
    assert!(validate_batch_limits(1, &limits).is_ok());
    assert!(validate_batch_limits(0, &limits).is_ok());
    assert_eq!(
        validate_batch_limits(2, &limits).unwrap_err().to_string(),
        "invalid request: batch upsert request count exceeds configured max of 1"
    );
}
