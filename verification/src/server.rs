//! What the server enforces in front of the store: size limits, bearer-token
//! authorization, which admission class each operation takes, and the
//! request counters it exposes in the Prometheus text format.

use vstd::prelude::*;
use vstd::string::StringSliceAdditionalSpecFns;
use crate::admission::{AdmissionClass, AdmissionConfig, AdmissionError};
use crate::error::{Error, ErrorKind};
use crate::model::{MemoryHistoricalState, MemoryQualityState, MemoryScope, RecordFrame};
use crate::query::TraceOperationKind;
use crate::text::{decimal_string, spec_decimal, spec_starts_with, starts_with_text, text_eq};

verus! {

/// The number of bytes of the UTF-8 encoding of a text, as `str::len`
/// reports it (a text held in memory is never longer than `usize::MAX`
/// bytes).
pub open spec fn spec_byte_len(s: Seq<char>) -> usize {
    vstd::utf8::encode_utf8(s).len() as usize
}

/// How a finished gRPC call is counted.
#[derive(Debug, Clone, Copy, PartialEq, Eq, Structural)]
pub enum CallOutcome {
    Succeeded,
    InvalidArgument,
    AlreadyExists,
    Unimplemented,
    Other,
}

/// How a store error reaches a gRPC client: invalid configuration or
/// request as an invalid argument, a conflict as already existing,
/// unsupported work as unimplemented, and a backend failure as internal.
pub fn outcome_for_error(error: &Error) -> (r: CallOutcome)
    ensures
        r == match error.spec_kind() {
            ErrorKind::InvalidConfig | ErrorKind::InvalidRequest => CallOutcome::InvalidArgument,
            ErrorKind::Conflict => CallOutcome::AlreadyExists,
            ErrorKind::Unsupported => CallOutcome::Unimplemented,
            ErrorKind::Backend => CallOutcome::Other,
        },
{
    match error {
        Error::InvalidConfig(_) | Error::InvalidRequest(_) => CallOutcome::InvalidArgument,
        Error::Conflict(_) => CallOutcome::AlreadyExists,
        Error::Unsupported(_) => CallOutcome::Unimplemented,
        Error::Backend(_) => CallOutcome::Other,
    }
}

/// The counters of one gRPC method.
#[derive(Debug, Clone, Copy, PartialEq, Eq, Structural)]
pub struct MethodMetrics {
    pub started: u64,
    pub ok: u64,
    pub invalid_argument: u64,
    pub conflict: u64,
    pub unimplemented: u64,
    pub internal: u64,
}

impl MethodMetrics {
    /// All counters at zero.
    pub open spec fn spec_zero() -> MethodMetrics {
        MethodMetrics {
            started: 0,
            ok: 0,
            invalid_argument: 0,
            conflict: 0,
            unimplemented: 0,
            internal: 0,
        }
    }

    /// Counts a call that started (counters wrap around at 2^64).
    pub fn record_started(&mut self)
        ensures
            *final(self) == (MethodMetrics { started: old(self).started.wrapping_add(1), ..*old(self) }),
    {
        self.started = self.started.wrapping_add(1);
    }

    /// Counts a call that finished with `outcome`: successes, invalid
    /// arguments, conflicts and unimplemented calls each have a counter, and
    /// every other failure counts as internal.
    pub fn record_status(&mut self, outcome: CallOutcome)
        ensures
            *final(self) == match outcome {
                CallOutcome::Succeeded => MethodMetrics { ok: old(self).ok.wrapping_add(1), ..*old(self) },
                CallOutcome::InvalidArgument => MethodMetrics {
                    invalid_argument: old(self).invalid_argument.wrapping_add(1),
                    ..*old(self)
                },
                CallOutcome::AlreadyExists => MethodMetrics {
                    conflict: old(self).conflict.wrapping_add(1),
                    ..*old(self)
                },
                CallOutcome::Unimplemented => MethodMetrics {
                    unimplemented: old(self).unimplemented.wrapping_add(1),
                    ..*old(self)
                },
                CallOutcome::Other => MethodMetrics {
                    internal: old(self).internal.wrapping_add(1),
                    ..*old(self)
                },
            },
    {
        match outcome {
            CallOutcome::Succeeded => {
                self.ok = self.ok.wrapping_add(1);
            },
            CallOutcome::InvalidArgument => {
                self.invalid_argument = self.invalid_argument.wrapping_add(1);
            },
            CallOutcome::AlreadyExists => {
                self.conflict = self.conflict.wrapping_add(1);
            },
            CallOutcome::Unimplemented => {
                self.unimplemented = self.unimplemented.wrapping_add(1);
            },
            CallOutcome::Other => {
                self.internal = self.internal.wrapping_add(1);
            },
        }
    }
}

impl Default for MethodMetrics {
    fn default() -> (r: Self)
        ensures
            r == MethodMetrics::spec_zero(),
    {
        MethodMetrics {
            started: 0,
            ok: 0,
            invalid_argument: 0,
            conflict: 0,
            unimplemented: 0,
            internal: 0,
        }
    }
}

/// The request counters of the server.
#[derive(Debug, Clone, Copy, PartialEq, Eq, Structural)]
pub struct ServerMetrics {
    pub grpc_upsert: MethodMetrics,
    pub grpc_batch_upsert: MethodMetrics,
    pub grpc_recall: MethodMetrics,
    pub grpc_compact: MethodMetrics,
    pub grpc_snapshot: MethodMetrics,
    pub grpc_delete: MethodMetrics,
    pub grpc_archive: MethodMetrics,
    pub grpc_suppress: MethodMetrics,
    pub grpc_recover: MethodMetrics,
    pub grpc_stats: MethodMetrics,
    pub grpc_integrity: MethodMetrics,
    pub grpc_repair: MethodMetrics,
    pub http_healthz: u64,
    pub http_readyz: u64,
    pub http_snapshot: u64,
    pub http_compact: u64,
    pub http_delete: u64,
    pub http_archive: u64,
    pub http_suppress: u64,
    pub http_recover: u64,
    pub http_metrics: u64,
    pub http_traces: u64,
    pub http_runtime: u64,
    pub http_export: u64,
    pub http_import: u64,
    pub http_rejected_body_too_large: u64,
    pub admission_rejected: u64,
    pub admission_timed_out: u64,
    pub trace_records: u64,
    pub trace_evictions: u64,
    pub trace_reads: u64,
}

impl Default for ServerMetrics {
    fn default() -> (r: Self)
        ensures
            r.grpc_upsert == MethodMetrics::spec_zero(),
            r.grpc_batch_upsert == MethodMetrics::spec_zero(),
            r.grpc_recall == MethodMetrics::spec_zero(),
            r.grpc_compact == MethodMetrics::spec_zero(),
            r.grpc_snapshot == MethodMetrics::spec_zero(),
            r.grpc_delete == MethodMetrics::spec_zero(),
            r.grpc_archive == MethodMetrics::spec_zero(),
            r.grpc_suppress == MethodMetrics::spec_zero(),
            r.grpc_recover == MethodMetrics::spec_zero(),
            r.grpc_stats == MethodMetrics::spec_zero(),
            r.grpc_integrity == MethodMetrics::spec_zero(),
            r.grpc_repair == MethodMetrics::spec_zero(),
            r.http_healthz == 0,
            r.http_readyz == 0,
            r.http_snapshot == 0,
            r.http_compact == 0,
            r.http_delete == 0,
            r.http_archive == 0,
            r.http_suppress == 0,
            r.http_recover == 0,
            r.http_metrics == 0,
            r.http_traces == 0,
            r.http_runtime == 0,
            r.http_export == 0,
            r.http_import == 0,
            r.http_rejected_body_too_large == 0,
            r.admission_rejected == 0,
            r.admission_timed_out == 0,
            r.trace_records == 0,
            r.trace_evictions == 0,
            r.trace_reads == 0,
    {
        ServerMetrics {
            grpc_upsert: MethodMetrics::default(),
            grpc_batch_upsert: MethodMetrics::default(),
            grpc_recall: MethodMetrics::default(),
            grpc_compact: MethodMetrics::default(),
            grpc_snapshot: MethodMetrics::default(),
            grpc_delete: MethodMetrics::default(),
            grpc_archive: MethodMetrics::default(),
            grpc_suppress: MethodMetrics::default(),
            grpc_recover: MethodMetrics::default(),
            grpc_stats: MethodMetrics::default(),
            grpc_integrity: MethodMetrics::default(),
            grpc_repair: MethodMetrics::default(),
            http_healthz: 0,
            http_readyz: 0,
            http_snapshot: 0,
            http_compact: 0,
            http_delete: 0,
            http_archive: 0,
            http_suppress: 0,
            http_recover: 0,
            http_metrics: 0,
            http_traces: 0,
            http_runtime: 0,
            http_export: 0,
            http_import: 0,
            http_rejected_body_too_large: 0,
            admission_rejected: 0,
            admission_timed_out: 0,
            trace_records: 0,
            trace_evictions: 0,
            trace_reads: 0,
        }
    }
}

/// One counter in the Prometheus text format: its type line, then its name
/// and value.
pub open spec fn spec_counter(name: Seq<char>, value: u64) -> Seq<char> {
    "# TYPE "@ + name + " counter\n"@ + name + " "@ + spec_decimal(value as nat) + "\n"@
}

/// The exposition of every counter of the server, in a fixed order.
pub open spec fn spec_render(m: ServerMetrics) -> Seq<char> {
    Seq::<char>::empty()
        + spec_counter("mnemara_grpc_upsert_requests_started_total"@, m.grpc_upsert.started)
        + spec_counter("mnemara_grpc_upsert_requests_ok_total"@, m.grpc_upsert.ok)
        + spec_counter("mnemara_grpc_upsert_requests_invalid_argument_total"@, m.grpc_upsert.invalid_argument)
        + spec_counter("mnemara_grpc_upsert_requests_conflict_total"@, m.grpc_upsert.conflict)
        + spec_counter("mnemara_grpc_upsert_requests_unimplemented_total"@, m.grpc_upsert.unimplemented)
        + spec_counter("mnemara_grpc_upsert_requests_internal_total"@, m.grpc_upsert.internal)
        + spec_counter("mnemara_grpc_batch_upsert_requests_started_total"@, m.grpc_batch_upsert.started)
        + spec_counter("mnemara_grpc_batch_upsert_requests_ok_total"@, m.grpc_batch_upsert.ok)
        + spec_counter("mnemara_grpc_batch_upsert_requests_invalid_argument_total"@, m.grpc_batch_upsert.invalid_argument)
        + spec_counter("mnemara_grpc_recall_requests_started_total"@, m.grpc_recall.started)
        + spec_counter("mnemara_grpc_recall_requests_ok_total"@, m.grpc_recall.ok)
        + spec_counter("mnemara_grpc_recall_requests_invalid_argument_total"@, m.grpc_recall.invalid_argument)
        + spec_counter("mnemara_grpc_compact_requests_started_total"@, m.grpc_compact.started)
        + spec_counter("mnemara_grpc_compact_requests_ok_total"@, m.grpc_compact.ok)
        + spec_counter("mnemara_grpc_snapshot_requests_started_total"@, m.grpc_snapshot.started)
        + spec_counter("mnemara_grpc_snapshot_requests_ok_total"@, m.grpc_snapshot.ok)
        + spec_counter("mnemara_grpc_delete_requests_started_total"@, m.grpc_delete.started)
        + spec_counter("mnemara_grpc_delete_requests_ok_total"@, m.grpc_delete.ok)
        + spec_counter("mnemara_grpc_archive_requests_started_total"@, m.grpc_archive.started)
        + spec_counter("mnemara_grpc_archive_requests_ok_total"@, m.grpc_archive.ok)
        + spec_counter("mnemara_grpc_suppress_requests_started_total"@, m.grpc_suppress.started)
        + spec_counter("mnemara_grpc_suppress_requests_ok_total"@, m.grpc_suppress.ok)
        + spec_counter("mnemara_grpc_recover_requests_started_total"@, m.grpc_recover.started)
        + spec_counter("mnemara_grpc_recover_requests_ok_total"@, m.grpc_recover.ok)
        + spec_counter("mnemara_http_healthz_requests_total"@, m.http_healthz)
        + spec_counter("mnemara_http_readyz_requests_total"@, m.http_readyz)
        + spec_counter("mnemara_http_snapshot_requests_total"@, m.http_snapshot)
        + spec_counter("mnemara_http_compact_requests_total"@, m.http_compact)
        + spec_counter("mnemara_http_delete_requests_total"@, m.http_delete)
        + spec_counter("mnemara_http_archive_requests_total"@, m.http_archive)
        + spec_counter("mnemara_http_suppress_requests_total"@, m.http_suppress)
        + spec_counter("mnemara_http_recover_requests_total"@, m.http_recover)
        + spec_counter("mnemara_http_metrics_requests_total"@, m.http_metrics)
        + spec_counter("mnemara_http_traces_requests_total"@, m.http_traces)
        + spec_counter("mnemara_http_runtime_requests_total"@, m.http_runtime)
        + spec_counter("mnemara_http_export_requests_total"@, m.http_export)
        + spec_counter("mnemara_http_import_requests_total"@, m.http_import)
        + spec_counter("mnemara_http_rejected_body_too_large_total"@, m.http_rejected_body_too_large)
        + spec_counter("mnemara_admission_rejected_total"@, m.admission_rejected)
        + spec_counter("mnemara_admission_timed_out_total"@, m.admission_timed_out)
        + spec_counter("mnemara_trace_records_total"@, m.trace_records)
        + spec_counter("mnemara_trace_evictions_total"@, m.trace_evictions)
        + spec_counter("mnemara_trace_reads_total"@, m.trace_reads)
}

/// Appends one counter in the Prometheus text format.
pub fn append_counter(output: &mut String, name: &str, value: u64)
    ensures
        final(output)@ == old(output)@ + spec_counter(name@, value),
{
    output.append("# TYPE ");
    output.append(name);
    output.append(" counter\n");
    output.append(name);
    output.append(" ");
    let digits = decimal_string(value);
    output.append(digits.as_str());
    output.append("\n");
}

impl ServerMetrics {
    /// The counters in the Prometheus text format.
    pub fn render(&self) -> (r: String)
        ensures
            r@ == spec_render(*self),
    {
        let mut output = String::new();
        append_counter(&mut output, "mnemara_grpc_upsert_requests_started_total", self.grpc_upsert.started);
        append_counter(&mut output, "mnemara_grpc_upsert_requests_ok_total", self.grpc_upsert.ok);
        append_counter(&mut output, "mnemara_grpc_upsert_requests_invalid_argument_total", self.grpc_upsert.invalid_argument);
        append_counter(&mut output, "mnemara_grpc_upsert_requests_conflict_total", self.grpc_upsert.conflict);
        append_counter(&mut output, "mnemara_grpc_upsert_requests_unimplemented_total", self.grpc_upsert.unimplemented);
        append_counter(&mut output, "mnemara_grpc_upsert_requests_internal_total", self.grpc_upsert.internal);
        append_counter(&mut output, "mnemara_grpc_batch_upsert_requests_started_total", self.grpc_batch_upsert.started);
        append_counter(&mut output, "mnemara_grpc_batch_upsert_requests_ok_total", self.grpc_batch_upsert.ok);
        append_counter(&mut output, "mnemara_grpc_batch_upsert_requests_invalid_argument_total", self.grpc_batch_upsert.invalid_argument);
        append_counter(&mut output, "mnemara_grpc_recall_requests_started_total", self.grpc_recall.started);
        append_counter(&mut output, "mnemara_grpc_recall_requests_ok_total", self.grpc_recall.ok);
        append_counter(&mut output, "mnemara_grpc_recall_requests_invalid_argument_total", self.grpc_recall.invalid_argument);
        append_counter(&mut output, "mnemara_grpc_compact_requests_started_total", self.grpc_compact.started);
        append_counter(&mut output, "mnemara_grpc_compact_requests_ok_total", self.grpc_compact.ok);
        append_counter(&mut output, "mnemara_grpc_snapshot_requests_started_total", self.grpc_snapshot.started);
        append_counter(&mut output, "mnemara_grpc_snapshot_requests_ok_total", self.grpc_snapshot.ok);
        append_counter(&mut output, "mnemara_grpc_delete_requests_started_total", self.grpc_delete.started);
        append_counter(&mut output, "mnemara_grpc_delete_requests_ok_total", self.grpc_delete.ok);
        append_counter(&mut output, "mnemara_grpc_archive_requests_started_total", self.grpc_archive.started);
        append_counter(&mut output, "mnemara_grpc_archive_requests_ok_total", self.grpc_archive.ok);
        append_counter(&mut output, "mnemara_grpc_suppress_requests_started_total", self.grpc_suppress.started);
        append_counter(&mut output, "mnemara_grpc_suppress_requests_ok_total", self.grpc_suppress.ok);
        append_counter(&mut output, "mnemara_grpc_recover_requests_started_total", self.grpc_recover.started);
        append_counter(&mut output, "mnemara_grpc_recover_requests_ok_total", self.grpc_recover.ok);
        append_counter(&mut output, "mnemara_http_healthz_requests_total", self.http_healthz);
        append_counter(&mut output, "mnemara_http_readyz_requests_total", self.http_readyz);
        append_counter(&mut output, "mnemara_http_snapshot_requests_total", self.http_snapshot);
        append_counter(&mut output, "mnemara_http_compact_requests_total", self.http_compact);
        append_counter(&mut output, "mnemara_http_delete_requests_total", self.http_delete);
        append_counter(&mut output, "mnemara_http_archive_requests_total", self.http_archive);
        append_counter(&mut output, "mnemara_http_suppress_requests_total", self.http_suppress);
        append_counter(&mut output, "mnemara_http_recover_requests_total", self.http_recover);
        append_counter(&mut output, "mnemara_http_metrics_requests_total", self.http_metrics);
        append_counter(&mut output, "mnemara_http_traces_requests_total", self.http_traces);
        append_counter(&mut output, "mnemara_http_runtime_requests_total", self.http_runtime);
        append_counter(&mut output, "mnemara_http_export_requests_total", self.http_export);
        append_counter(&mut output, "mnemara_http_import_requests_total", self.http_import);
        append_counter(&mut output, "mnemara_http_rejected_body_too_large_total", self.http_rejected_body_too_large);
        append_counter(&mut output, "mnemara_admission_rejected_total", self.admission_rejected);
        append_counter(&mut output, "mnemara_admission_timed_out_total", self.admission_timed_out);
        append_counter(&mut output, "mnemara_trace_records_total", self.trace_records);
        append_counter(&mut output, "mnemara_trace_evictions_total", self.trace_evictions);
        append_counter(&mut output, "mnemara_trace_reads_total", self.trace_reads);
        output
    }
}

impl ServerMetrics {
    /// Counts a request that admission turned away: a full queue or a busy
    /// tenant as rejected, a wait past the timeout as timed out; returns the
    /// message the client is told.
    pub fn record_admission_error(&mut self, error: AdmissionError) -> (r: &'static str)
        ensures
            match error {
                AdmissionError::QueueFull | AdmissionError::TenantBusy => {
                    &&& *final(self) == (ServerMetrics {
                        admission_rejected: old(self).admission_rejected.wrapping_add(1),
                        ..*old(self)
                    })
                    &&& r@ == "request admission rejected"@
                },
                AdmissionError::TimedOut => {
                    &&& *final(self) == (ServerMetrics {
                        admission_timed_out: old(self).admission_timed_out.wrapping_add(1),
                        ..*old(self)
                    })
                    &&& r@ == "request admission timed out"@
                },
            },
    {
        match error {
            AdmissionError::QueueFull | AdmissionError::TenantBusy => {
                self.admission_rejected = self.admission_rejected.wrapping_add(1);
                "request admission rejected"
            },
            AdmissionError::TimedOut => {
                self.admission_timed_out = self.admission_timed_out.wrapping_add(1);
                "request admission timed out"
            },
        }
    }

    /// Counts a recorded trace, and an evicted one when the registry was full.
    pub fn record_trace_stored(&mut self, evicted: bool)
        ensures
            final(self).trace_records == old(self).trace_records.wrapping_add(1),
            final(self).trace_evictions == if evicted {
                old(self).trace_evictions.wrapping_add(1)
            } else {
                old(self).trace_evictions
            },
            *final(self) == (ServerMetrics {
                trace_records: final(self).trace_records,
                trace_evictions: final(self).trace_evictions,
                ..*old(self)
            }),
    {
        self.trace_records = self.trace_records.wrapping_add(1);
        if evicted {
            self.trace_evictions = self.trace_evictions.wrapping_add(1);
        }
    }
}

/// The limits the server enforces on requests and on its own resources.
#[derive(Debug, Clone, Copy, PartialEq, Eq, Structural)]
pub struct ServerLimits {
    pub max_http_body_bytes: usize,
    pub max_batch_upsert_requests: usize,
    pub max_recall_items: usize,
    pub max_query_text_bytes: usize,
    pub max_record_content_bytes: usize,
    pub max_labels_per_scope: usize,
    pub max_inflight_reads: usize,
    pub max_inflight_writes: usize,
    pub max_inflight_admin: usize,
    pub max_queued_requests: usize,
    pub max_tenant_inflight: usize,
    pub queue_wait_timeout_ms: u64,
    pub trace_retention: usize,
}

impl Default for ServerLimits {
    fn default() -> (r: Self)
        ensures
            r == (ServerLimits {
                max_http_body_bytes: 65536,
                max_batch_upsert_requests: 128,
                max_recall_items: 64,
                max_query_text_bytes: 4096,
                max_record_content_bytes: 32768,
                max_labels_per_scope: 32,
                max_inflight_reads: 64,
                max_inflight_writes: 32,
                max_inflight_admin: 8,
                max_queued_requests: 256,
                max_tenant_inflight: 16,
                queue_wait_timeout_ms: 2000,
                trace_retention: 256,
            }),
    {
        ServerLimits {
            max_http_body_bytes: 64 * 1024,
            max_batch_upsert_requests: 128,
            max_recall_items: 64,
            max_query_text_bytes: 4 * 1024,
            max_record_content_bytes: 32 * 1024,
            max_labels_per_scope: 32,
            max_inflight_reads: 64,
            max_inflight_writes: 32,
            max_inflight_admin: 8,
            max_queued_requests: 256,
            max_tenant_inflight: 16,
            queue_wait_timeout_ms: 2_000,
            trace_retention: 256,
        }
    }
}

impl ServerLimits {
    /// The admission limits these server limits set.
    pub fn admission_config(&self) -> (r: AdmissionConfig)
        ensures
            r == (AdmissionConfig {
                max_inflight_reads: self.max_inflight_reads,
                max_inflight_writes: self.max_inflight_writes,
                max_inflight_admin: self.max_inflight_admin,
                max_queued_requests: self.max_queued_requests,
                max_tenant_inflight: self.max_tenant_inflight,
                queue_wait_timeout_ms: self.queue_wait_timeout_ms,
            }),
    {
        AdmissionConfig {
            max_inflight_reads: self.max_inflight_reads,
            max_inflight_writes: self.max_inflight_writes,
            max_inflight_admin: self.max_inflight_admin,
            max_queued_requests: self.max_queued_requests,
            max_tenant_inflight: self.max_tenant_inflight,
            queue_wait_timeout_ms: self.queue_wait_timeout_ms,
        }
    }

    /// Whether a declared body length is over the limit, so that the request
    /// is refused as too large before it is read.
    pub fn body_too_large(&self, content_length: usize) -> (r: bool)
        ensures
            r == (content_length > self.max_http_body_bytes),
    {
        content_length > self.max_http_body_bytes
    }
}

/// What a bearer token may be used for.
#[derive(Debug, Clone, Copy, PartialEq, Eq, Structural)]
pub enum AuthPermission {
    Read,
    Write,
    Admin,
    Metrics,
}

/// A token with the permissions it grants.
#[derive(Debug, Clone, PartialEq, Eq)]
pub struct TokenPolicy {
    pub token: String,
    pub permissions: Vec<AuthPermission>,
}

/// How requests authenticate: a token that grants everything, tokens with
/// listed permissions, and whether the metrics need a token too.
#[derive(Debug, Clone, PartialEq, Eq)]
pub struct AuthConfig {
    pub bearer_token: Option<String>,
    pub protect_metrics: bool,
    pub token_policies: Vec<TokenPolicy>,
}

impl Default for AuthConfig {
    fn default() -> (r: Self)
        ensures
            r.bearer_token is None,
            !r.protect_metrics,
            r.token_policies@.len() == 0,
    {
        AuthConfig { bearer_token: None, protect_metrics: false, token_policies: Vec::new() }
    }
}

/// The token an `Authorization` header carries: what follows `Bearer `.
pub open spec fn spec_bearer_token(header: Option<Seq<char>>) -> Option<Seq<char>> {
    match header {
        Some(h) => if spec_starts_with(h, "Bearer "@) {
            Some(h.subrange(7, h.len() as int))
        } else {
            None
        },
        None => None,
    }
}

/// Whether some policy grants `permission` to `token`.
pub open spec fn spec_policy_grants(
    policies: Seq<TokenPolicy>,
    token: Seq<char>,
    permission: AuthPermission,
) -> bool {
    exists|i: int|
        0 <= i < policies.len() && (#[trigger] policies[i]).token@ == token
            && policies[i].permissions@.contains(permission)
}

impl AuthConfig {
    /// Whether any token is configured.
    pub open spec fn spec_has_authentication(&self) -> bool {
        self.bearer_token is Some || self.token_policies@.len() > 0
    }

    /// Whether a request with this `Authorization` header may do what
    /// `permission` covers: always when no token is configured; otherwise
    /// only with a bearer token that is the configured token, or that a
    /// policy grants the permission to.
    pub open spec fn spec_authorized(
        &self,
        header: Option<Seq<char>>,
        permission: AuthPermission,
    ) -> bool {
        if !self.spec_has_authentication() {
            true
        } else {
            match spec_bearer_token(header) {
                None => false,
                Some(token) => (self.bearer_token matches Some(b) && b@ == token)
                    || spec_policy_grants(self.token_policies@, token, permission),
            }
        }
    }

    /// Whether any token is configured.
    pub fn has_authentication(&self) -> (r: bool)
        ensures
            r == self.spec_has_authentication(),
    {
        self.bearer_token.is_some() || self.token_policies.len() > 0
    }

    /// Whether a request with this `Authorization` header may do what
    /// `permission` covers.
    pub fn authorize(&self, authorization_header: Option<&str>, permission: AuthPermission) -> (r:
        bool)
        ensures
            r == self.spec_authorized(spec_header_view(authorization_header), permission),
    {
        if !self.has_authentication() {
            return true;
        }
        let token = match bearer_token_from_header(authorization_header) {
            Some(t) => t,
            None => {
                return false;
            },
        };
        match &self.bearer_token {
            Some(b) => {
                if text_eq(b.as_str(), token) {
                    return true;
                }
            },
            None => {},
        }
        let n = self.token_policies.len();
        let mut i: usize = 0;
        while i < n
            invariant
                n == self.token_policies@.len(),
                i <= n,
                self.spec_has_authentication(),
                spec_bearer_token(spec_header_view(authorization_header)) == Some(token@),
                !(self.bearer_token matches Some(b) && b@ == token@),
                forall|j: int|
                    0 <= j < i ==> !((#[trigger] self.token_policies@[j]).token@ == token@
                        && self.token_policies@[j].permissions@.contains(permission)),
            decreases n - i,
        {
            let policy = &self.token_policies[i];
            if text_eq(policy.token.as_str(), token) && permission_listed(
                &policy.permissions,
                permission,
            ) {
                assert(self.token_policies@[i as int].token@ == token@);
                assert(spec_policy_grants(self.token_policies@, token@, permission));
                return true;
            }
            i += 1;
        }
        false
    }
}

/// Without any configured token every request is authorized.
pub proof fn lemma_open_server_authorizes_all(
    auth: AuthConfig,
    header: Option<Seq<char>>,
    permission: AuthPermission,
)
    requires
        !auth.spec_has_authentication(),
    ensures
        auth.spec_authorized(header, permission),
{
}

/// Once a token is configured, a request without a `Bearer` token is
/// refused, whatever it asks for.
pub proof fn lemma_missing_token_refused(auth: AuthConfig, permission: AuthPermission)
    requires
        auth.spec_has_authentication(),
    ensures
        !auth.spec_authorized(None, permission),
{
}

/// The configured bearer token, sent as `Bearer <token>`, is authorized for
/// every permission; a policy token is authorized for exactly the
/// permissions some policy for it lists (when it is not also the configured
/// bearer token).
pub proof fn lemma_bearer_header_authorization(
    auth: AuthConfig,
    token: Seq<char>,
    permission: AuthPermission,
)
    requires
        auth.spec_has_authentication(),
    ensures
        auth.bearer_token matches Some(b) && b@ == token ==> auth.spec_authorized(
            Some("Bearer "@ + token),
            permission,
        ),
        !(auth.bearer_token matches Some(b) && b@ == token) ==> (auth.spec_authorized(
            Some("Bearer "@ + token),
            permission,
        ) <==> spec_policy_grants(auth.token_policies@, token, permission)),
{
    reveal_strlit("Bearer ");
    let header = "Bearer "@ + token;
    assert(header.subrange(0, 7) =~= "Bearer "@);
    assert(header.subrange(7, header.len() as int) =~= token);
    assert(spec_starts_with(header, "Bearer "@));
}

/// The text form of an optional header.
pub open spec fn spec_header_view(header: Option<&str>) -> Option<Seq<char>> {
    match header {
        Some(h) => Some(h@),
        None => None,
    }
}

fn permission_listed(permissions: &Vec<AuthPermission>, permission: AuthPermission) -> (r: bool)
    ensures
        r == permissions@.contains(permission),
{
    let n = permissions.len();
    let mut i: usize = 0;
    while i < n
        invariant
            n == permissions@.len(),
            i <= n,
            forall|j: int| 0 <= j < i ==> permissions@[j] != permission,
        decreases n - i,
    {
        if permissions[i] == permission {
            return true;
        }
        i += 1;
    }
    false
}

/// The bearer token of an `Authorization` header, if it has the `Bearer `
/// scheme.
pub fn bearer_token_from_header(header: Option<&str>) -> (r: Option<&str>)
    ensures
        match r {
            Some(t) => spec_bearer_token(spec_header_view(header)) == Some(t@),
            None => spec_bearer_token(spec_header_view(header)) is None,
        },
{
    match header {
        Some(value) => {
            if starts_with_text(value, "Bearer ") {
                proof {
                    reveal_strlit("Bearer ");
                }
                let n = value.unicode_len();
                Some(value.substring_char(7, n))
            } else {
                None
            }
        },
        None => None,
    }
}

/// Whether an HTTP path is open without a token: the health and readiness
/// probes, and the metrics unless they are protected.
pub open spec fn spec_http_path_is_public(path: Seq<char>, protect_metrics: bool) -> bool {
    path == "/healthz"@ || path == "/readyz"@ || (path == "/metrics"@ && !protect_metrics)
}

/// The permission an HTTP path needs: the metrics need the metrics
/// permission, recall reads, upserts write, and everything else is admin.
pub open spec fn spec_http_permission(path: Seq<char>) -> AuthPermission {
    if spec_starts_with(path, "/admin/traces"@) {
        AuthPermission::Admin
    } else if path == "/metrics"@ {
        AuthPermission::Metrics
    } else if path == "/memory/recall"@ {
        AuthPermission::Read
    } else if path == "/memory/upsert"@ || path == "/memory/batch-upsert"@ {
        AuthPermission::Write
    } else {
        AuthPermission::Admin
    }
}

/// The HTTP status of a request refused for want of a valid token.
pub const HTTP_UNAUTHORIZED: u16 = 401;

/// The HTTP status of a request that admission turned away (a full queue,
/// a busy tenant or a wait past the timeout).
pub const HTTP_TOO_MANY_REQUESTS: u16 = 429;

/// The HTTP status a store error is answered with: a bad request for
/// invalid configuration or requests, a conflict, not implemented for
/// unsupported work, and an internal error for backend failures.
pub fn http_status_for_error(error: &Error) -> (r: u16)
    ensures
        r == match error.spec_kind() {
            ErrorKind::InvalidConfig | ErrorKind::InvalidRequest => 400u16,
            ErrorKind::Conflict => 409u16,
            ErrorKind::Unsupported => 501u16,
            ErrorKind::Backend => 500u16,
        },
{
    match error {
        Error::InvalidConfig(_) | Error::InvalidRequest(_) => 400,
        Error::Conflict(_) => 409,
        Error::Unsupported(_) => 501,
        Error::Backend(_) => 500,
    }
}

/// Checks the token of an HTTP request to `path`; a refused request gets
/// status 401.
pub fn validate_http_auth(path: &str, authorization_header: Option<&str>, auth: &AuthConfig) -> (r:
    Result<(), u16>)
    ensures
        r is Ok <==> (spec_http_path_is_public(path@, auth.protect_metrics) || auth.spec_authorized(
            spec_header_view(authorization_header),
            spec_http_permission(path@),
        )),
        r matches Err(code) ==> code == HTTP_UNAUTHORIZED,
{
    if text_eq(path, "/healthz") || text_eq(path, "/readyz") || (text_eq(path, "/metrics")
        && !auth.protect_metrics) {
        return Ok(());
    }
    let permission = if text_eq(path, "/metrics") {
        AuthPermission::Metrics
    } else if text_eq(path, "/memory/recall") {
        AuthPermission::Read
    } else if text_eq(path, "/memory/upsert") || text_eq(path, "/memory/batch-upsert") {
        AuthPermission::Write
    } else {
        AuthPermission::Admin
    };
    if starts_with_text(path, "/admin/traces") {
        if auth.authorize(authorization_header, AuthPermission::Admin) {
            return Ok(());
        } else {
            return Err(HTTP_UNAUTHORIZED);
        }
    }
    if auth.authorize(authorization_header, permission) {
        Ok(())
    } else {
        Err(HTTP_UNAUTHORIZED)
    }
}

/// The admission class of an operation: lookups read, changes to records
/// write, and whole-store work is admin.
pub open spec fn spec_admission_class(operation: TraceOperationKind) -> AdmissionClass {
    match operation {
        TraceOperationKind::Recall | TraceOperationKind::Snapshot | TraceOperationKind::Stats
        | TraceOperationKind::Changefeed => AdmissionClass::Read,
        TraceOperationKind::Upsert | TraceOperationKind::BatchUpsert | TraceOperationKind::Compact
        | TraceOperationKind::Delete | TraceOperationKind::Archive | TraceOperationKind::Suppress
        | TraceOperationKind::Recover => AdmissionClass::Write,
        TraceOperationKind::IntegrityCheck | TraceOperationKind::Repair | TraceOperationKind::Export
        | TraceOperationKind::Import | TraceOperationKind::MaintenanceRun
        | TraceOperationKind::SnapshotShip => AdmissionClass::Admin,
    }
}

/// The name a trace gives an admission class.
pub open spec fn spec_admission_class_name(class: AdmissionClass) -> Seq<char> {
    match class {
        AdmissionClass::Read => "read"@,
        AdmissionClass::Write => "write"@,
        AdmissionClass::Admin => "admin"@,
    }
}

/// The name of the admission class an operation takes, as traces record it.
pub fn admission_class_for_operation(operation: TraceOperationKind) -> (r: &'static str)
    ensures
        r@ == spec_admission_class_name(spec_admission_class(operation)),
{
    match operation {
        TraceOperationKind::Recall | TraceOperationKind::Snapshot | TraceOperationKind::Stats
        | TraceOperationKind::Changefeed => "read",
        TraceOperationKind::Upsert | TraceOperationKind::BatchUpsert | TraceOperationKind::Compact
        | TraceOperationKind::Delete | TraceOperationKind::Archive | TraceOperationKind::Suppress
        | TraceOperationKind::Recover => "write",
        TraceOperationKind::IntegrityCheck | TraceOperationKind::Repair | TraceOperationKind::Export
        | TraceOperationKind::Import | TraceOperationKind::MaintenanceRun
        | TraceOperationKind::SnapshotShip => "admin",
    }
}

/// An invalid request that names a configured limit.
fn limit_error(before: &str, limit: usize, after: &str) -> (r: Error)
    ensures
        r.spec_is(ErrorKind::InvalidRequest, before@ + spec_decimal(limit as nat) + after@),
{
    let mut message = String::from_str(before);
    let digits = decimal_string(limit as u64);
    message.append(digits.as_str());
    message.append(after);
    Error::InvalidRequest(message)
}

/// Checks that a scope carries no more labels than allowed.
pub fn validate_scope_limits(scope: &MemoryScope, limits: &ServerLimits) -> (r: Result<(), Error>)
    ensures
        r is Ok <==> scope.labels@.len() <= limits.max_labels_per_scope,
        r matches Err(e) ==> e.spec_is(
            ErrorKind::InvalidRequest,
            "scope labels exceed configured max of "@ + spec_decimal(
                limits.max_labels_per_scope as nat,
            ),
        ),
{
    if scope.labels.len() > limits.max_labels_per_scope {
        let e = limit_error("scope labels exceed configured max of ", limits.max_labels_per_scope, "");
        proof {
            reveal_strlit("");
            assert("scope labels exceed configured max of "@ + spec_decimal(
                limits.max_labels_per_scope as nat,
            ) + ""@ =~= "scope labels exceed configured max of "@ + spec_decimal(
                limits.max_labels_per_scope as nat,
            ));
        }
        return Err(e);
    }
    Ok(())
}

/// Checks that a batch of upserts holds no more requests than allowed.
pub fn validate_batch_limits(count: usize, limits: &ServerLimits) -> (r: Result<(), Error>)
    ensures
        r is Ok <==> count <= limits.max_batch_upsert_requests,
        r matches Err(e) ==> e.spec_is(
            ErrorKind::InvalidRequest,
            "batch upsert request count exceeds configured max of "@ + spec_decimal(
                limits.max_batch_upsert_requests as nat,
            ),
        ),
{
    if count > limits.max_batch_upsert_requests {
        let e = limit_error(
            "batch upsert request count exceeds configured max of ",
            limits.max_batch_upsert_requests,
            "",
        );
        proof {
            reveal_strlit("");
            assert("batch upsert request count exceeds configured max of "@ + spec_decimal(
                limits.max_batch_upsert_requests as nat,
            ) + ""@ =~= "batch upsert request count exceeds configured max of "@ + spec_decimal(
                limits.max_batch_upsert_requests as nat,
            ));
        }
        return Err(e);
    }
    Ok(())
}

/// The first size limit a record breaks, with its message: too many
/// labels, then content, then summary over their byte limits.
pub open spec fn spec_record_limit_violation(record: RecordFrame, limits: ServerLimits) -> Option<
    Seq<char>,
> {
    if record.scope.labels@.len() > limits.max_labels_per_scope {
        Some(
            "scope labels exceed configured max of "@ + spec_decimal(
                limits.max_labels_per_scope as nat,
            ),
        )
    } else if spec_byte_len(record.content@) > limits.max_record_content_bytes {
        Some(
            "record content exceeds configured max of "@ + spec_decimal(
                limits.max_record_content_bytes as nat,
            ) + " bytes"@,
        )
    } else if (match record.summary {
        Some(s) => spec_byte_len(s@),
        None => 0,
    }) > limits.max_query_text_bytes {
        Some(
            "record summary exceeds configured max of "@ + spec_decimal(
                limits.max_query_text_bytes as nat,
            ) + " bytes"@,
        )
    } else {
        None
    }
}

/// Checks a record against the configured size limits.
pub fn validate_record_limits(record: &RecordFrame, limits: &ServerLimits) -> (r: Result<(), Error>)
    ensures
        match spec_record_limit_violation(*record, *limits) {
            None => r is Ok,
            Some(message) => r matches Err(e) && e.spec_is(ErrorKind::InvalidRequest, message),
        },
{
    match validate_scope_limits(&record.scope, limits) {
        Ok(()) => {},
        Err(e) => {
            return Err(e);
        },
    }
    let content = record.content.as_str();
    assert(content@ == record.content@);
    if content.len() > limits.max_record_content_bytes {
        return Err(
            limit_error(
                "record content exceeds configured max of ",
                limits.max_record_content_bytes,
                " bytes",
            ),
        );
    }
    let summary_bytes: usize = match &record.summary {
        Some(s) => {
            let text = s.as_str();
            assert(text@ == s@);
            text.len()
        },
        None => 0,
    };
    if summary_bytes > limits.max_query_text_bytes {
        return Err(
            limit_error(
                "record summary exceeds configured max of ",
                limits.max_query_text_bytes,
                " bytes",
            ),
        );
    }
    Ok(())
}

/// The first limit a recall breaks, with its message: too many labels, no
/// items or more than allowed, then a query text over its byte limit.
pub open spec fn spec_recall_limit_violation(
    scope: MemoryScope,
    max_items: usize,
    query_text: Seq<char>,
    limits: ServerLimits,
) -> Option<Seq<char>> {
    if scope.labels@.len() > limits.max_labels_per_scope {
        Some(
            "scope labels exceed configured max of "@ + spec_decimal(
                limits.max_labels_per_scope as nat,
            ),
        )
    } else if max_items == 0 {
        Some("recall max_items must be greater than 0"@)
    } else if max_items > limits.max_recall_items {
        Some(
            "recall max_items exceeds configured max of "@ + spec_decimal(
                limits.max_recall_items as nat,
            ),
        )
    } else if spec_byte_len(query_text) > limits.max_query_text_bytes {
        Some(
            "query text exceeds configured max of "@ + spec_decimal(
                limits.max_query_text_bytes as nat,
            ) + " bytes"@,
        )
    } else {
        None
    }
}

/// Checks a recall's scope, item count and query text against the limits.
pub fn validate_recall_limits(
    scope: &MemoryScope,
    max_items: usize,
    query_text: &str,
    limits: &ServerLimits,
) -> (r: Result<(), Error>)
    ensures
        match spec_recall_limit_violation(*scope, max_items, query_text@, *limits) {
            None => r is Ok,
            Some(message) => r matches Err(e) && e.spec_is(ErrorKind::InvalidRequest, message),
        },
{
    match validate_scope_limits(scope, limits) {
        Ok(()) => {},
        Err(e) => {
            return Err(e);
        },
    }
    if max_items == 0 {
        return Err(Error::InvalidRequest(String::from_str("recall max_items must be greater than 0")));
    }
    if max_items > limits.max_recall_items {
        let e = limit_error("recall max_items exceeds configured max of ", limits.max_recall_items, "");
        proof {
            reveal_strlit("");
            assert("recall max_items exceeds configured max of "@ + spec_decimal(
                limits.max_recall_items as nat,
            ) + ""@ =~= "recall max_items exceeds configured max of "@ + spec_decimal(
                limits.max_recall_items as nat,
            ));
        }
        return Err(e);
    }
    if query_text.len() > limits.max_query_text_bytes {
        return Err(
            limit_error(
                "query text exceeds configured max of ",
                limits.max_query_text_bytes,
                " bytes",
            ),
        );
    }
    Ok(())
}

/// An HTTP request to delete a record.
#[derive(Debug, Clone, PartialEq, Eq)]
pub struct DeleteHttpRequest {
    pub tenant_id: String,
    pub namespace: String,
    pub record_id: String,
    pub hard_delete: bool,
    pub audit_reason: String,
}

/// An HTTP request to archive a record.
#[derive(Debug, Clone, PartialEq, Eq)]
pub struct ArchiveHttpRequest {
    pub tenant_id: String,
    pub namespace: String,
    pub record_id: String,
    pub dry_run: bool,
    pub audit_reason: String,
}

/// An HTTP request to suppress a record.
#[derive(Debug, Clone, PartialEq, Eq)]
pub struct SuppressHttpRequest {
    pub tenant_id: String,
    pub namespace: String,
    pub record_id: String,
    pub dry_run: bool,
    pub audit_reason: String,
}

/// An HTTP request to bring an archived or suppressed record back.
#[derive(Debug, Clone, PartialEq, Eq)]
pub struct RecoverHttpRequest {
    pub tenant_id: String,
    pub namespace: String,
    pub record_id: String,
    pub dry_run: bool,
    pub audit_reason: String,
    pub quality_state: MemoryQualityState,
    pub historical_state: Option<MemoryHistoricalState>,
}

} // verus!
