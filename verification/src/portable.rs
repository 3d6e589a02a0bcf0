//! Moving a store's records in and out: which records an export takes and
//! the namespaces it lists, what a snapshot lists, and how an import is
//! checked and applied.

use vstd::prelude::*;
use vstd::string::StringSliceAdditionalSpecFns;
use crate::error::{spec_error_text, Error};
use crate::maintenance::{lemma_count_step, spec_count, spec_positions, StoredFrame};
use crate::model::{MemoryQualityState, RecordFrame};
use crate::query::{ExportRequest, ImportFailure, ImportMode, ImportReport};
use crate::keys::spec_option_view;
use crate::store::{scope_matches_filters, spec_scope_matches_filters, spec_str_view};
use crate::server::spec_byte_len;
use crate::text::{decimal_string, list_contains, spec_decimal, spec_text_less, text_eq, text_less};
use crate::maintenance::option_as_str;

verus! {

/// The version of the portable package format this store reads and writes.
pub const PORTABLE_PACKAGE_VERSION: u32 = 1;

/// A text added to a sorted list of distinct texts: at its place, unless it
/// is there already.
pub open spec fn spec_sorted_insert(list: Seq<Seq<char>>, x: Seq<char>) -> Seq<Seq<char>>
    decreases list.len(),
{
    if list.len() == 0 {
        seq![x]
    } else if list[0] == x {
        list
    } else if spec_text_less(x, list[0]) {
        seq![x] + list
    } else {
        seq![list[0]] + spec_sorted_insert(list.drop_first(), x)
    }
}

/// Adds a text to a sorted list of distinct texts.
pub fn insert_sorted_text(list: &mut Vec<String>, x: String)
    ensures
        final(list)@.map_values(|s: String| s@) == spec_sorted_insert(
            old(list)@.map_values(|s: String| s@),
            x@,
        ),
{
    let ghost before = list@.map_values(|s: String| s@);
    let n = list.len();
    let mut i: usize = 0;
    assert(before.take(0) + before.skip(0) =~= before);
    assert(before.skip(0) =~= before);
    assert(Seq::<Seq<char>>::empty() + spec_sorted_insert(before, x@) =~= spec_sorted_insert(
        before,
        x@,
    ));
    while i < n
        invariant
            n == list@.len(),
            i <= n,
            before == list@.map_values(|s: String| s@),
            before == old(list)@.map_values(|s: String| s@),
            spec_sorted_insert(before, x@) == before.take(i as int) + spec_sorted_insert(
                before.skip(i as int),
                x@,
            ),
        decreases n - i,
    {
        assert(before.skip(i as int)[0] == list@[i as int]@);
        if text_eq(list[i].as_str(), x.as_str()) {
            assert(before.skip(i as int).len() > 0);
            assert(spec_sorted_insert(before.skip(i as int), x@) == before.skip(i as int));
            assert(before.take(i as int) + before.skip(i as int) =~= before);
            return;
        }
        if text_less(x.as_str(), list[i].as_str()) {
            assert(before.skip(i as int).len() > 0);
            assert(before.skip(i as int)[0] != x@);
            assert(spec_sorted_insert(before.skip(i as int), x@) == seq![x@] + before.skip(
                i as int,
            ));
            list.insert(i, x);
            assert(list@.map_values(|s: String| s@) =~= before.take(i as int) + (seq![x@]
                + before.skip(i as int)));
            return;
        }
        proof {
            let rest = before.skip(i as int);
            assert(rest.drop_first() =~= before.skip(i + 1));
            assert(before.take(i as int) + (seq![rest[0]] + spec_sorted_insert(
                before.skip(i + 1),
                x@,
            )) =~= before.take(i + 1) + spec_sorted_insert(before.skip(i + 1), x@));
        }
        i += 1;
    }
    list.push(x);
    assert(before.skip(n as int) =~= Seq::<Seq<char>>::empty());
    assert(before.take(n as int) =~= before);
    assert(list@.map_values(|s: String| s@) =~= before.push(x@));
}

/// The namespaces of the records, sorted and distinct.
pub open spec fn spec_namespace_names(records: Seq<StoredFrame>) -> Seq<Seq<char>>
    decreases records.len(),
{
    if records.len() == 0 {
        seq![]
    } else {
        spec_sorted_insert(
            spec_namespace_names(records.drop_last()),
            records.last().record.scope.namespace@,
        )
    }
}

/// The namespaces a snapshot lists: those of all records, sorted and
/// distinct.
pub fn snapshot_namespaces(records: &Vec<StoredFrame>) -> (r: Vec<String>)
    ensures
        r@.map_values(|s: String| s@) == spec_namespace_names(records@),
{
    let mut names: Vec<String> = Vec::new();
    let n = records.len();
    let mut i: usize = 0;
    assert(names@.map_values(|s: String| s@) =~= Seq::<Seq<char>>::empty());
    while i < n
        invariant
            n == records@.len(),
            i <= n,
            names@.map_values(|s: String| s@) == spec_namespace_names(records@.take(i as int)),
        decreases n - i,
    {
        proof {
            let next = records@.take(i + 1);
            assert(next.drop_last() =~= records@.take(i as int));
            assert(next.last() == records@[i as int]);
        }
        insert_sorted_text(&mut names, records[i].record.scope.namespace.clone());
        i += 1;
    }
    assert(records@.take(n as int) =~= records@);
    names
}

/// The id of a snapshot taken at `created_at_unix_ms`.
pub fn snapshot_id(created_at_unix_ms: u64) -> (r: String)
    ensures
        r@ == "snapshot-"@ + spec_decimal(created_at_unix_ms as nat),
{
    let mut id = String::from_str("snapshot-");
    let digits = decimal_string(created_at_unix_ms);
    id.append(digits.as_str());
    id
}

/// The id of the manifest of an export made at `exported_at_unix_ms`.
pub fn export_snapshot_id(exported_at_unix_ms: u64) -> (r: String)
    ensures
        r@ == "portable-export-"@ + spec_decimal(exported_at_unix_ms as nat),
{
    let mut id = String::from_str("portable-export-");
    let digits = decimal_string(exported_at_unix_ms);
    id.append(digits.as_str());
    id
}

/// Taken by an export: within its tenant and namespace filters, and not
/// archived unless archived records are asked for.
pub open spec fn spec_exported(request: ExportRequest) -> spec_fn(StoredFrame) -> bool {
    |s: StoredFrame|
        spec_scope_matches_filters(
            s.record.scope.tenant_id@,
            s.record.scope.namespace@,
            spec_option_view(request.tenant_id),
            spec_option_view(request.namespace),
        ) && (request.include_archived || s.record.quality_state != MemoryQualityState::Archived)
}

/// The `tenant:namespace` names of the exported records, sorted and
/// distinct.
pub open spec fn spec_export_namespaces(records: Seq<StoredFrame>, request: ExportRequest) -> Seq<
    Seq<char>,
>
    decreases records.len(),
{
    if records.len() == 0 {
        seq![]
    } else {
        let init = spec_export_namespaces(records.drop_last(), request);
        let r = records.last().record;
        if spec_exported(request)(records.last()) {
            spec_sorted_insert(init, r.scope.tenant_id@ + ":"@ + r.scope.namespace@)
        } else {
            init
        }
    }
}

/// The bytes of content and summary of the exported records.
pub open spec fn spec_export_bytes(records: Seq<StoredFrame>, request: ExportRequest) -> nat
    decreases records.len(),
{
    if records.len() == 0 {
        0
    } else {
        let r = records.last().record;
        spec_export_bytes(records.drop_last(), request) + if spec_exported(request)(
            records.last(),
        ) {
            (spec_byte_len(r.content@) + match r.summary {
                Some(s) => spec_byte_len(s@) as nat,
                None => 0nat,
            }) as nat
        } else {
            0nat
        }
    }
}

proof fn lemma_export_bytes_prefix(records: Seq<StoredFrame>, request: ExportRequest, i: int)
    requires
        0 <= i <= records.len(),
    ensures
        spec_export_bytes(records.take(i), request) <= spec_export_bytes(records, request),
    decreases records.len() - i,
{
    if i < records.len() {
        lemma_export_bytes_prefix(records, request, i + 1);
        let next = records.take(i + 1);
        assert(next.drop_last() =~= records.take(i));
    } else {
        assert(records.take(i) =~= records);
    }
}

/// What an export takes: the positions of its records, the namespaces it
/// lists and the bytes of their texts.
pub struct ExportSelection {
    pub records: Vec<usize>,
    pub namespaces: Vec<String>,
    pub storage_bytes: u64,
}

/// Selects the records of an export, with the namespaces and bytes its
/// manifest reports (the byte count wraps around at 2^64).
pub fn select_export(request: &ExportRequest, records: &Vec<StoredFrame>) -> (r: ExportSelection)
    requires
        spec_export_bytes(records@, *request) <= u64::MAX,
    ensures
        r.records@ == spec_positions(records@, spec_exported(*request)),
        r.namespaces@.map_values(|s: String| s@) == spec_export_namespaces(records@, *request),
        r.storage_bytes == spec_export_bytes(records@, *request) as u64,
{
    let tenant_filter = option_as_str(&request.tenant_id);
    let namespace_filter = option_as_str(&request.namespace);
    let mut selected: Vec<usize> = Vec::new();
    let mut names: Vec<String> = Vec::new();
    let mut bytes: u128 = 0;
    let n = records.len();
    let mut i: usize = 0;
    assert(names@.map_values(|s: String| s@) =~= Seq::<Seq<char>>::empty());
    while i < n
        invariant
            n == records@.len(),
            i <= n,
            spec_str_view(tenant_filter) == spec_option_view(request.tenant_id),
            spec_str_view(namespace_filter) == spec_option_view(request.namespace),
            selected@ == spec_positions(records@.take(i as int), spec_exported(*request)),
            names@.map_values(|s: String| s@) == spec_export_namespaces(
                records@.take(i as int),
                *request,
            ),
            bytes == spec_export_bytes(records@.take(i as int), *request),
            spec_export_bytes(records@, *request) <= u64::MAX,
        decreases n - i,
    {
        let record = &records[i].record;
        proof {
            let next = records@.take(i + 1);
            assert(next.drop_last() =~= records@.take(i as int));
            assert(next.last() == records@[i as int]);
        }
        let within = scope_matches_filters(
            record.scope.tenant_id.as_str(),
            record.scope.namespace.as_str(),
            tenant_filter,
            namespace_filter,
        );
        let kept = within && (request.include_archived || record.quality_state
            != MemoryQualityState::Archived);
        if kept {
            selected.push(i);
            let mut name = String::from_str(record.scope.tenant_id.as_str());
            name.append(":");
            name.append(record.scope.namespace.as_str());
            insert_sorted_text(&mut names, name);
            let content = record.content.as_str();
            assert(content@ == record.content@);
            let summary_bytes: usize = match &record.summary {
                Some(s) => {
                    let t = s.as_str();
                    assert(t@ == s@);
                    t.len()
                },
                None => 0,
            };
            let added = content.len() as u128 + summary_bytes as u128;
            proof {
                lemma_export_bytes_prefix(records@, *request, i + 1);
            }
            bytes = bytes + added;
        }
        i += 1;
    }
    assert(records@.take(n as int) =~= records@);
    ExportSelection { records: selected, namespaces: names, storage_bytes: bytes as u64 }
}

/// Why an imported record is refused, as the import report words it: the
/// first rule of a record it breaks, else the error found in its affective
/// annotation, if any.
pub open spec fn spec_import_error(record: RecordFrame, affective: Option<Error>) -> Option<
    Seq<char>,
> {
    match record.spec_violation() {
        Some((kind, message)) => Some(spec_error_text(kind, message)),
        None => match affective {
            Some(e) => Some(spec_error_text(e.spec_kind(), e.spec_message())),
            None => None,
        },
    }
}

/// The refusals of a package: its version when it is not this store's,
/// its manifest's record count when it does not match, then each refused
/// record (with its id) in order.
pub open spec fn spec_import_failures(
    package_version: u32,
    manifest_record_count: u64,
    records: Seq<RecordFrame>,
    affective: Seq<Option<Error>>,
) -> Seq<(Option<Seq<char>>, Seq<char>)> {
    let version = if package_version != PORTABLE_PACKAGE_VERSION {
        seq![
            (
                None,
                "unsupported portable package version "@ + spec_decimal(package_version as nat)
                    + "; expected 1"@,
            ),
        ]
    } else {
        seq![]
    };
    let count = if manifest_record_count != records.len() {
        seq![
            (
                None,
                "portable package manifest record_count="@ + spec_decimal(
                    manifest_record_count as nat,
                ) + " does not match payload records="@ + spec_decimal(records.len()),
            ),
        ]
    } else {
        seq![]
    };
    version + count + spec_record_failures(records, affective)
}

/// The refusals of the records, in order.
pub open spec fn spec_record_failures(records: Seq<RecordFrame>, affective: Seq<Option<Error>>) -> Seq<
    (Option<Seq<char>>, Seq<char>),
>
    decreases records.len(),
{
    if records.len() == 0 {
        seq![]
    } else {
        let init = spec_record_failures(records.drop_last(), affective);
        let k = records.len() - 1;
        match spec_import_error(records[k], affective[k]) {
            Some(reason) => init.push((Some(records[k].id@), reason)),
            None => init,
        }
    }
}

/// The positions of the records that pass validation.
pub open spec fn spec_valid_records(records: Seq<RecordFrame>, affective: Seq<Option<Error>>) -> Seq<
    usize,
>
    decreases records.len(),
{
    if records.len() == 0 {
        seq![]
    } else {
        let init = spec_valid_records(records.drop_last(), affective);
        let k = records.len() - 1;
        if spec_import_error(records[k], affective[k]) is None {
            init.push(k as usize)
        } else {
            init
        }
    }
}

/// The text form of an import refusal.
pub open spec fn spec_failure_view(f: ImportFailure) -> (Option<Seq<char>>, Seq<char>) {
    (spec_option_view(f.record_id), f.reason@)
}

/// The outcome of checking a package: how many records passed, whether the
/// package can be applied, the refusals, and the positions of the records
/// that passed.
pub struct ImportValidation {
    pub validated_records: u64,
    pub compatible_package: bool,
    pub failures: Vec<ImportFailure>,
    pub entries: Vec<usize>,
}

fn failure(record_id: Option<String>, reason: String) -> (r: ImportFailure)
    ensures
        spec_failure_view(r) == (spec_option_view(record_id), reason@),
{
    ImportFailure { record_id, reason }
}

/// Checks a package: its version, its manifest's record count, and each
/// record (`affective_errors` holds, for each record, what checking its
/// affective annotation found). The package can be applied only when
/// nothing was refused.
pub fn validate_import(
    package_version: u32,
    manifest_record_count: u64,
    records: &Vec<RecordFrame>,
    affective_errors: &Vec<Option<Error>>,
) -> (r: ImportValidation)
    requires
        affective_errors@.len() == records@.len(),
    ensures
        r.failures@.map_values(|f: ImportFailure| spec_failure_view(f)) == spec_import_failures(
            package_version,
            manifest_record_count,
            records@,
            affective_errors@,
        ),
        r.entries@ == spec_valid_records(records@, affective_errors@),
        r.validated_records == r.entries@.len(),
        r.compatible_package == (r.failures@.len() == 0),
{
    let mut failures: Vec<ImportFailure> = Vec::new();
    let ghost mut header: Seq<(Option<Seq<char>>, Seq<char>)> = seq![];
    if package_version != PORTABLE_PACKAGE_VERSION {
        let mut reason = String::from_str("unsupported portable package version ");
        let digits = decimal_string(package_version as u64);
        reason.append(digits.as_str());
        reason.append("; expected 1");
        failures.push(failure(None, reason));
        proof {
            header = header.push((None, reason@));
        }
    }
    let n = records.len();
    if manifest_record_count != n as u64 {
        let mut reason = String::from_str("portable package manifest record_count=");
        let count = decimal_string(manifest_record_count);
        reason.append(count.as_str());
        reason.append(" does not match payload records=");
        let payload = decimal_string(n as u64);
        reason.append(payload.as_str());
        failures.push(failure(None, reason));
        proof {
            header = header.push((None, reason@));
        }
    }
    assert(failures@.map_values(|f: ImportFailure| spec_failure_view(f)) =~= header);
    let mut entries: Vec<usize> = Vec::new();
    let mut validated: u64 = 0;
    let mut i: usize = 0;
    while i < n
        invariant
            n == records@.len(),
            affective_errors@.len() == n,
            i <= n,
            failures@.map_values(|f: ImportFailure| spec_failure_view(f)) == header
                + spec_record_failures(records@.take(i as int), affective_errors@),
            entries@ == spec_valid_records(records@.take(i as int), affective_errors@),
            validated == entries@.len(),
            validated <= i,
        decreases n - i,
    {
        let record = &records[i];
        proof {
            let next = records@.take(i + 1);
            assert(next.drop_last() =~= records@.take(i as int));
            assert(next[i as int] == records@[i as int]);
            assert(next.len() - 1 == i);
        }
        let ghost before = failures@.map_values(|f: ImportFailure| spec_failure_view(f));
        let reason: Option<String> = match record.validate() {
            Err(e) => Some(e.to_string()),
            Ok(()) => match &affective_errors[i] {
                Some(e) => Some(e.to_string()),
                None => None,
            },
        };
        match reason {
            Some(text) => {
                failures.push(failure(Some(record.id.clone()), text));
                assert(failures@.map_values(|f: ImportFailure| spec_failure_view(f)) =~= before.push(
                    (Some(record.id@), text@),
                ));
            },
            None => {
                entries.push(i);
                validated += 1;
            },
        }
        i += 1;
    }
    assert(records@.take(n as int) =~= records@);
    proof {
        let ghost full = spec_import_failures(
            package_version,
            manifest_record_count,
            records@,
            affective_errors@,
        );
        assert(header + spec_record_failures(records@, affective_errors@) =~= full);
    }
    let compatible = failures.len() == 0;
    proof {
        assert(failures@.map_values(|f: ImportFailure| spec_failure_view(f)).len()
            == failures@.len());
    }
    ImportValidation {
        validated_records: validated,
        compatible_package: compatible,
        failures,
        entries,
    }
}

/// What an import does: its report, whether the store is emptied first,
/// and the positions of the records to write.
pub struct ImportPlan {
    pub report: ImportReport,
    pub clear_existing: bool,
    pub persist: Vec<usize>,
}

/// Whether an import writes anything: the package passed, this is no dry
/// run, and the mode is not validation only.
pub open spec fn spec_import_applies(compatible: bool, failures: nat, mode: ImportMode, dry_run: bool) -> bool {
    compatible && failures == 0 && !dry_run && mode != ImportMode::Validate
}

/// Skipped by a merge: a record whose id the store already holds.
pub open spec fn spec_skipped_by_merge(
    mode: ImportMode,
    records: Seq<RecordFrame>,
    existing_ids: Seq<String>,
) -> spec_fn(usize) -> bool {
    |e: usize|
        mode == ImportMode::Merge && crate::model::spec_seq_has(existing_ids, records[e as int].id@)
}

/// Plans an import of the records that passed validation: in a merge,
/// records whose id the store already holds are skipped; the rest count as
/// imported, and are written when the import applies (after emptying the
/// store, in a replace).
pub fn plan_import(
    mode: ImportMode,
    dry_run: bool,
    package_version: u32,
    snapshot_id: String,
    validation: ImportValidation,
    records: &Vec<RecordFrame>,
    existing_ids: &Vec<String>,
) -> (r: ImportPlan)
    requires
        forall|k: int|
            0 <= k < validation.entries@.len() ==> (#[trigger] validation.entries@[k]) < records@.len(),
        validation.entries@.len() <= u64::MAX,
    ensures
        ({
            let applies = spec_import_applies(
                validation.compatible_package,
                validation.failures@.len(),
                mode,
                dry_run,
            );
            let skipped = spec_count(
                validation.entries@,
                spec_skipped_by_merge(mode, records@, existing_ids@),
            );
            &&& r.clear_existing == (applies && mode == ImportMode::Replace)
            &&& r.report.mode == mode
            &&& r.report.dry_run == dry_run
            &&& r.report.applied == applies
            &&& r.report.compatible_package == validation.compatible_package
            &&& r.report.package_version == package_version
            &&& r.report.validated_records == validation.validated_records
            &&& r.report.skipped_records == skipped
            &&& r.report.imported_records == validation.entries@.len() - skipped
            &&& r.report.replaced_existing == (mode == ImportMode::Replace)
            &&& r.report.snapshot_id@ == snapshot_id@
            &&& r.report.failed_records@ == validation.failures@
            &&& r.persist@ == if applies {
                crate::maintenance::spec_positions(
                    validation.entries@,
                    |e: usize| !spec_skipped_by_merge(mode, records@, existing_ids@)(e),
                ).map_values(|k: usize| validation.entries@[k as int])
            } else {
                Seq::<usize>::empty()
            }
        }),
{
    let applies = validation.compatible_package && validation.failures.len() == 0 && !dry_run
        && mode != ImportMode::Validate;
    let ghost skip_p = spec_skipped_by_merge(mode, records@, existing_ids@);
    let ghost keep_p = |e: usize| !spec_skipped_by_merge(mode, records@, existing_ids@)(e);
    let entries = &validation.entries;
    let n = entries.len();
    let mut persist: Vec<usize> = Vec::new();
    let ghost mut kept: Seq<usize> = seq![];
    let mut skipped: u64 = 0;
    let mut imported: u64 = 0;
    let mut i: usize = 0;
    while i < n
        invariant
            n == entries@.len(),
            i <= n,
            forall|k: int| 0 <= k < n ==> (#[trigger] entries@[k]) < records@.len(),
            skip_p == spec_skipped_by_merge(mode, records@, existing_ids@),
            keep_p == (|e: usize| !spec_skipped_by_merge(mode, records@, existing_ids@)(e)),
            skipped == spec_count(entries@.take(i as int), skip_p),
            skipped + imported == i,
            kept == crate::maintenance::spec_positions(entries@.take(i as int), keep_p),
            applies ==> persist@ == kept.map_values(|k: usize| entries@[k as int]),
            !applies ==> persist@.len() == 0,
        decreases n - i,
    {
        let e = entries[i];
        proof {
            lemma_count_step(entries@, i as int, skip_p);
            let next = entries@.take(i + 1);
            assert(next.drop_last() =~= entries@.take(i as int));
            assert(next.last() == entries@[i as int]);
        }
        let exists = match mode {
            ImportMode::Merge => list_contains(existing_ids, records[e].id.as_str()),
            _ => false,
        };
        if exists {
            skipped += 1;
        } else {
            if applies {
                persist.push(e);
                assert(persist@ =~= kept.push(i as usize).map_values(|k: usize| entries@[k as int]));
            }
            proof {
                kept = kept.push(i as usize);
            }
            imported += 1;
        }
        i += 1;
    }
    assert(entries@.take(n as int) =~= entries@);
    if !applies {
        assert(persist@ =~= Seq::<usize>::empty());
    }
    let clear_existing = applies && mode == ImportMode::Replace;
    let replaced = mode == ImportMode::Replace;
    let validated_records = validation.validated_records;
    let compatible_package = validation.compatible_package;
    ImportPlan {
        report: ImportReport {
            mode,
            dry_run,
            applied: applies,
            compatible_package,
            package_version,
            validated_records,
            imported_records: imported,
            skipped_records: skipped,
            replaced_existing: replaced,
            snapshot_id,
            failed_records: validation.failures,
        },
        clear_existing,
        persist,
    }
}


// ----- laws of import -----

proof fn lemma_valid_records_all(records: Seq<RecordFrame>, affective: Seq<Option<Error>>)
    requires
        affective.len() >= records.len(),
        forall|i: int| 0 <= i < records.len() ==> spec_import_error(#[trigger] records[i], affective[i]) is None,
    ensures
        spec_record_failures(records, affective).len() == 0,
        spec_valid_records(records, affective) == Seq::new(records.len(), |i: int| i as usize),
    decreases records.len(),
{
    if records.len() > 0 {
        let init = records.drop_last();
        assert forall|i: int| 0 <= i < init.len() implies spec_import_error(#[trigger] init[i], affective[i]) is None by {
            assert(init[i] == records[i]);
        }
        lemma_valid_records_all(init, affective);
        assert(records[records.len() - 1] == records.last());
        assert(spec_valid_records(records, affective) =~= Seq::new(records.len(), |i: int| i as usize));
    }
}

/// A package is accepted whole when it is of this store's version, its
/// manifest counts its records, and every record meets the record rules
/// with a sound affective annotation: nothing is refused and every record
/// passes, in order.
pub proof fn lemma_sound_package_is_accepted_whole(records: Seq<RecordFrame>, affective: Seq<Option<Error>>)
    requires
        affective.len() == records.len(),
        records.len() <= u64::MAX,
        forall|i: int| 0 <= i < records.len() ==> spec_import_error(#[trigger] records[i], affective[i]) is None,
    ensures
        spec_import_failures(PORTABLE_PACKAGE_VERSION, records.len() as u64, records, affective).len() == 0,
        spec_valid_records(records, affective) == Seq::new(records.len(), |i: int| i as usize),
{
    lemma_valid_records_all(records, affective);
}

proof fn lemma_positions_all<A>(s: Seq<A>, p: spec_fn(A) -> bool)
    requires
        forall|i: int| 0 <= i < s.len() ==> p(#[trigger] s[i]),
    ensures
        crate::maintenance::spec_positions(s, p) == Seq::new(s.len(), |i: int| i as usize),
    decreases s.len(),
{
    if s.len() > 0 {
        let init = s.drop_last();
        assert forall|i: int| 0 <= i < init.len() implies p(#[trigger] init[i]) by {
            assert(init[i] == s[i]);
        }
        lemma_positions_all(init, p);
        assert(crate::maintenance::spec_positions(s, p) =~= Seq::new(s.len(), |i: int| i as usize));
    }
}

/// A replacing import skips nothing: every record that passed is written,
/// in order.
pub proof fn lemma_replace_writes_every_entry(
    entries: Seq<usize>,
    records: Seq<RecordFrame>,
    existing_ids: Seq<String>,
)
    requires
        entries.len() <= usize::MAX,
    ensures
        crate::maintenance::spec_positions(
            entries,
            |e: usize| !spec_skipped_by_merge(ImportMode::Replace, records, existing_ids)(e),
        ).map_values(|k: usize| entries[k as int]) == entries,
{
    let p = |e: usize| !spec_skipped_by_merge(ImportMode::Replace, records, existing_ids)(e);
    lemma_positions_all(entries, p);
    let kept = crate::maintenance::spec_positions(entries, p);
    assert forall|k: int| 0 <= k < entries.len() implies kept.map_values(|k: usize| entries[k as int])[k] == entries[k] by {
        assert(kept[k] == k as usize);
    }
    assert(kept.map_values(|k: usize| entries[k as int]) =~= entries);
}


proof fn lemma_positions_valid<A>(s: Seq<A>, p: spec_fn(A) -> bool)
    requires
        s.len() <= usize::MAX,
    ensures
        spec_positions(s, p).len() <= s.len(),
        forall|m: int|
            0 <= m < spec_positions(s, p).len() ==> (#[trigger] spec_positions(s, p)[m]) < s.len()
                && p(s[spec_positions(s, p)[m] as int]),
    decreases s.len(),
{
    if s.len() > 0 {
        let init = s.drop_last();
        lemma_positions_valid(init, p);
        let all = spec_positions(s, p);
        let before = spec_positions(init, p);
        assert forall|m: int| 0 <= m < all.len() implies (#[trigger] all[m]) < s.len() && p(
            s[all[m] as int],
        ) by {
            if m < before.len() {
                assert(all[m] == before[m]);
                assert(init[before[m] as int] == s[before[m] as int]);
            } else {
                assert(p(s.last()));
                assert(all == before.push((s.len() - 1) as usize));
                assert(all[m] == (s.len() - 1) as usize);
            }
        }
    }
}

proof fn lemma_count_none<A>(s: Seq<A>, p: spec_fn(A) -> bool)
    requires
        forall|i: int| 0 <= i < s.len() ==> !p(#[trigger] s[i]),
    ensures
        spec_count(s, p) == 0,
    decreases s.len(),
{
    if s.len() > 0 {
        let init = s.drop_last();
        assert forall|i: int| 0 <= i < init.len() implies !p(#[trigger] init[i]) by {
            assert(init[i] == s[i]);
        }
        lemma_count_none(init, p);
    }
}

/// The package an export makes of `stored`: the records it selects, in
/// order.
pub open spec fn spec_export_package(stored: Seq<StoredFrame>, request: ExportRequest) -> Seq<RecordFrame> {
    spec_positions(stored, spec_exported(request)).map_values(|k: usize| stored[k as int].record)
}

/// Exports round-trip through imports: when every record an export selects
/// meets the record rules and has a sound affective annotation, the package
/// it makes (this store's version, its manifest counting its records) is
/// refused nothing and every record passes; a replacing import that is no
/// dry run then applies, skips nothing, and writes every record of the
/// package, in the order of the export, whatever the target store held.
pub proof fn lemma_export_import_round_trip(
    stored: Seq<StoredFrame>,
    request: ExportRequest,
    affective: Seq<Option<Error>>,
    existing_ids: Seq<String>,
)
    requires
        forall|i: int|
            0 <= i < stored.len() && #[trigger] spec_exported(request)(stored[i])
                ==> stored[i].record.spec_violation() is None,
        affective.len() == spec_export_package(stored, request).len(),
        forall|k: int| 0 <= k < affective.len() ==> #[trigger] affective[k] is None,
        stored.len() <= usize::MAX,
    ensures
        ({
            let package = spec_export_package(stored, request);
            let failures = spec_import_failures(
                PORTABLE_PACKAGE_VERSION,
                package.len() as u64,
                package,
                affective,
            );
            let entries = spec_valid_records(package, affective);
            &&& failures.len() == 0
            &&& entries == Seq::new(package.len(), |i: int| i as usize)
            &&& spec_import_applies(failures.len() == 0, failures.len(), ImportMode::Replace, false)
            &&& spec_count(entries, spec_skipped_by_merge(ImportMode::Replace, package, existing_ids))
                == 0
            &&& entries.len() - spec_count(
                entries,
                spec_skipped_by_merge(ImportMode::Replace, package, existing_ids),
            ) == package.len()
            &&& spec_positions(
                entries,
                |e: usize| !spec_skipped_by_merge(ImportMode::Replace, package, existing_ids)(e),
            ).map_values(|k: usize| entries[k as int]) == entries
            &&& forall|i: int|
                0 <= i < package.len() ==> package[i] == stored[spec_positions(
                    stored,
                    spec_exported(request),
                )[i] as int].record
        }),
{
    let positions = spec_positions(stored, spec_exported(request));
    let package = spec_export_package(stored, request);
    lemma_positions_valid(stored, spec_exported(request));
    assert forall|i: int| 0 <= i < package.len() implies spec_import_error(
        #[trigger] package[i],
        affective[i],
    ) is None by {
        assert(package[i] == stored[positions[i] as int].record);
        assert(spec_exported(request)(stored[positions[i] as int]));
        assert(affective[i] is None);
    }
    lemma_sound_package_is_accepted_whole(package, affective);
    let entries = spec_valid_records(package, affective);
    assert forall|i: int| 0 <= i < entries.len() implies !spec_skipped_by_merge(
        ImportMode::Replace,
        package,
        existing_ids,
    )(#[trigger] entries[i]) by {}
    lemma_count_none(entries, spec_skipped_by_merge(ImportMode::Replace, package, existing_ids));
    lemma_replace_writes_every_entry(entries, package, existing_ids);
}


/// The export of everything: every tenant and namespace, archived records
/// included.
pub open spec fn spec_full_export() -> ExportRequest {
    ExportRequest { tenant_id: None, namespace: None, include_archived: true }
}

/// Exporting everything takes every record, in order; so a store that
/// holds just the records of a package (as a replacing import leaves it)
/// exports that package again.
pub proof fn lemma_full_export_takes_everything(stored: Seq<StoredFrame>)
    requires
        stored.len() <= usize::MAX,
    ensures
        spec_export_package(stored, spec_full_export()) == stored.map_values(
            |s: StoredFrame| s.record,
        ),
{
    let p = spec_exported(spec_full_export());
    assert forall|i: int| 0 <= i < stored.len() implies p(#[trigger] stored[i]) by {}
    lemma_positions_all(stored, p);
    assert(spec_export_package(stored, spec_full_export()) =~= stored.map_values(
        |s: StoredFrame| s.record,
    ));
}

/// Exporting everything from a store of valid records and importing the
/// package into another store by replacement, then exporting everything
/// again, gives back the same records: the import accepts the package
/// whole, counts every record as imported and writes every record of it,
/// in order, and a store left holding those records (in whatever order it
/// lists them) exports exactly those records again.
pub proof fn lemma_full_export_round_trips(
    source: Seq<StoredFrame>,
    affective: Seq<Option<Error>>,
    existing_ids: Seq<String>,
    target: Seq<StoredFrame>,
)
    requires
        source.len() <= usize::MAX,
        forall|i: int| 0 <= i < source.len() ==> (#[trigger] source[i]).record.spec_violation() is None,
        affective.len() == source.len(),
        forall|k: int| 0 <= k < affective.len() ==> #[trigger] affective[k] is None,
        target.map_values(|s: StoredFrame| s.record).to_multiset() == spec_export_package(
            source,
            spec_full_export(),
        ).to_multiset(),
        target.len() <= usize::MAX,
    ensures
        ({
            let package = spec_export_package(source, spec_full_export());
            let failures = spec_import_failures(
                PORTABLE_PACKAGE_VERSION,
                package.len() as u64,
                package,
                affective,
            );
            let entries = spec_valid_records(package, affective);
            &&& package == source.map_values(|s: StoredFrame| s.record)
            &&& failures.len() == 0
            &&& spec_import_applies(failures.len() == 0, failures.len(), ImportMode::Replace, false)
            &&& entries.len() - spec_count(
                entries,
                spec_skipped_by_merge(ImportMode::Replace, package, existing_ids),
            ) == package.len()
            &&& spec_positions(
                entries,
                |e: usize| !spec_skipped_by_merge(ImportMode::Replace, package, existing_ids)(e),
            ).map_values(|k: usize| entries[k as int]) == Seq::new(package.len(), |i: int| i as usize)
            &&& spec_positions(
                entries,
                |e: usize| !spec_skipped_by_merge(ImportMode::Replace, package, existing_ids)(e),
            ).map_values(|k: usize| package[entries[k as int] as int]) == package
            &&& spec_export_package(target, spec_full_export()).to_multiset() == package.to_multiset()
        }),
{
    lemma_full_export_takes_everything(source);
    let package = spec_export_package(source, spec_full_export());
    assert forall|i: int|
        0 <= i < source.len() && #[trigger] spec_exported(spec_full_export())(source[i])
            implies source[i].record.spec_violation() is None by {}
    lemma_export_import_round_trip(source, spec_full_export(), affective, existing_ids);
    let entries = spec_valid_records(package, affective);
    let kept = spec_positions(
        entries,
        |e: usize| !spec_skipped_by_merge(ImportMode::Replace, package, existing_ids)(e),
    );
    assert(kept.map_values(|k: usize| entries[k as int]) == entries);
    let written = kept.map_values(|k: usize| package[entries[k as int] as int]);
    assert forall|i: int| 0 <= i < package.len() implies #[trigger] written[i] == package[i] by {
        assert(kept.map_values(|k: usize| entries[k as int])[i] == entries[i]);
        assert(entries[i] == i as usize);
    }
    assert(written =~= package);
    lemma_full_export_takes_everything(target);
}

} // verus!
