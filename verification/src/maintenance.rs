//! The store's maintenance arithmetic over its records and idempotency
//! mappings: which mappings are stale, which records lack a mapping, which
//! active records duplicate one another.

use vstd::prelude::*;
use crate::error::{Error, ErrorKind};
use crate::keys::{parse_scope_key, scoped_key, spec_option_view, spec_scoped_key, ScopeKeyParts};
use crate::query::{IntegrityCheckReport, RepairReport, RepairRequest};
use crate::model::{MemoryQualityState, MemoryRecordKind, MemoryScope, RecordFrame};
use crate::store::{scope_matches_filters, spec_is_live, spec_scope_matches_filters, spec_str_view};
use crate::text::{
    is_blank, spec_is_blank, ascii_lowercase, decimal_string, push_char, spec_ascii_lowercase, spec_decimal, spec_split,
    spec_trim, text_eq, trim, spec_digit_char, spec_trim_start, spec_trim_end, spec_is_whitespace,
    spec_ascii_lower_char,
};

verus! {

/// A record as the store keeps it, with the idempotency key it was written
/// under.
#[derive(Debug, Clone, PartialEq, Eq)]
pub struct StoredFrame {
    pub record: RecordFrame,
    pub idempotency_key: Option<String>,
}

/// An idempotency mapping: a scoped key and the record it names.
#[derive(Debug, Clone, PartialEq, Eq)]
pub struct IdempotencyMapping {
    pub scoped_key: String,
    pub record_id: String,
}

/// The findings of an integrity scan.
#[derive(Debug, Clone, Copy, PartialEq, Eq, Structural)]
pub struct IntegritySummary {
    pub scanned_records: u64,
    pub scanned_idempotency_keys: u64,
    pub stale_idempotency_keys: u64,
    pub missing_idempotency_keys: u64,
    pub duplicate_active_records: u64,
}

/// The number of a record kind in its declaration order.
pub open spec fn spec_kind_code(kind: MemoryRecordKind) -> nat {
    match kind {
        MemoryRecordKind::Episodic => 0,
        MemoryRecordKind::Summary => 1,
        MemoryRecordKind::Fact => 2,
        MemoryRecordKind::Preference => 3,
        MemoryRecordKind::Task => 4,
        MemoryRecordKind::Artifact => 5,
        MemoryRecordKind::Hypothesis => 6,
    }
}

fn kind_code(kind: MemoryRecordKind) -> (r: u64)
    ensures
        r == spec_kind_code(kind),
{
    match kind {
        MemoryRecordKind::Episodic => 0,
        MemoryRecordKind::Summary => 1,
        MemoryRecordKind::Fact => 2,
        MemoryRecordKind::Preference => 3,
        MemoryRecordKind::Task => 4,
        MemoryRecordKind::Artifact => 5,
        MemoryRecordKind::Hypothesis => 6,
    }
}

/// Text trimmed and lower-cased, as duplicate detection compares it.
pub open spec fn spec_folded(s: Seq<char>) -> Seq<char> {
    spec_ascii_lowercase(spec_trim(s))
}

/// What makes two records duplicates: the same tenant, namespace, actor and
/// kind, and the same content and summary up to surrounding white space and
/// ASCII case.
pub open spec fn spec_dedup_signature(record: RecordFrame) -> Seq<char> {
    record.scope.tenant_id@ + seq!['\u{1f}'] + record.scope.namespace@ + seq!['\u{1f}']
        + record.scope.actor_id@ + seq!['\u{1f}'] + spec_decimal(spec_kind_code(record.kind))
        + seq!['\u{1f}'] + spec_folded(record.content@) + seq!['\u{1f}'] + spec_folded(
        match record.summary {
            Some(s) => s@,
            None => seq![],
        },
    )
}

proof fn lemma_split_at_separator(x: Seq<char>, y: Seq<char>, x2: Seq<char>, y2: Seq<char>)
    requires
        x + seq!['\u{1f}'] + y == x2 + seq!['\u{1f}'] + y2,
        !x.contains('\u{1f}'),
        !x2.contains('\u{1f}'),
    ensures
        x == x2,
        y == y2,
{
    let l = x + seq!['\u{1f}'] + y;
    let r = x2 + seq!['\u{1f}'] + y2;
    if x.len() < x2.len() {
        assert(l[x.len() as int] == '\u{1f}');
        assert(r[x.len() as int] == x2[x.len() as int]);
        assert(x2.contains(x2[x.len() as int]));
    } else if x2.len() < x.len() {
        assert(r[x2.len() as int] == '\u{1f}');
        assert(l[x2.len() as int] == x[x2.len() as int]);
        assert(x.contains(x[x2.len() as int]));
    }
    assert(x =~= l.subrange(0, x.len() as int));
    assert(x2 =~= r.subrange(0, x.len() as int));
    assert(y =~= l.subrange(x.len() as int + 1, l.len() as int));
    assert(y2 =~= r.subrange(x.len() as int + 1, r.len() as int));
}

proof fn lemma_add_assoc(p: Seq<char>, q: Seq<char>, r: Seq<char>)
    ensures
        p + q + r == p + (q + r),
{
    assert(p + q + r =~= p + (q + r));
}

proof fn lemma_signature_shape(
    t: Seq<char>,
    ns: Seq<char>,
    ac: Seq<char>,
    dec: Seq<char>,
    fc: Seq<char>,
    fs: Seq<char>,
)
    ensures
        t + seq!['\u{1f}'] + ns + seq!['\u{1f}'] + ac + seq!['\u{1f}'] + dec + seq!['\u{1f}'] + fc
            + seq!['\u{1f}'] + fs == t + seq!['\u{1f}'] + (ns + seq!['\u{1f}'] + (ac + seq!['\u{1f}']
            + (dec + seq!['\u{1f}'] + fc + seq!['\u{1f}'] + fs))),
{
    let sep = seq!['\u{1f}'];
    let tail = dec + sep + fc + sep + fs;
    let x = t + sep + ns + sep + ac + sep;
    lemma_add_assoc(x, dec, sep);
    lemma_add_assoc(x, dec + sep, fc);
    lemma_add_assoc(x, dec + sep + fc, sep);
    lemma_add_assoc(x, dec + sep + fc + sep, fs);
    let y = ac + sep + tail;
    lemma_add_assoc(t + sep + ns + sep, ac, sep);
    lemma_add_assoc(t + sep + ns + sep, ac + sep, tail);
    lemma_add_assoc(t + sep + ns, sep, y);
    lemma_add_assoc(t + sep, ns, sep + y);
    lemma_add_assoc(ns, sep, y);
}

/// Records of different tenants, namespaces or actors never share a
/// duplicate signature, so they are never duplicates of each other (for
/// names free of the unit separator the signature joins them with).
pub proof fn lemma_signature_keeps_scopes_apart(a: RecordFrame, b: RecordFrame)
    requires
        !a.scope.tenant_id@.contains('\u{1f}'),
        !a.scope.namespace@.contains('\u{1f}'),
        !a.scope.actor_id@.contains('\u{1f}'),
        !b.scope.tenant_id@.contains('\u{1f}'),
        !b.scope.namespace@.contains('\u{1f}'),
        !b.scope.actor_id@.contains('\u{1f}'),
        spec_dedup_signature(a) == spec_dedup_signature(b),
    ensures
        a.scope.tenant_id@ == b.scope.tenant_id@,
        a.scope.namespace@ == b.scope.namespace@,
        a.scope.actor_id@ == b.scope.actor_id@,
        a.kind == b.kind,
{
    let sep = seq!['\u{1f}'];
    let sa = match a.summary {
        Some(s) => s@,
        None => seq![],
    };
    let sb = match b.summary {
        Some(s) => s@,
        None => seq![],
    };
    let da = spec_decimal(spec_kind_code(a.kind));
    let db = spec_decimal(spec_kind_code(b.kind));
    let ca = spec_folded(a.content@);
    let cb = spec_folded(b.content@);
    let fa = spec_folded(sa);
    let fb = spec_folded(sb);
    lemma_signature_shape(a.scope.tenant_id@, a.scope.namespace@, a.scope.actor_id@, da, ca, fa);
    lemma_signature_shape(b.scope.tenant_id@, b.scope.namespace@, b.scope.actor_id@, db, cb, fb);
    let tail_a = da + sep + ca + sep + fa;
    let tail_b = db + sep + cb + sep + fb;
    let ya = a.scope.namespace@ + sep + (a.scope.actor_id@ + sep + tail_a);
    let yb = b.scope.namespace@ + sep + (b.scope.actor_id@ + sep + tail_b);
    lemma_split_at_separator(a.scope.tenant_id@, ya, b.scope.tenant_id@, yb);
    lemma_split_at_separator(
        a.scope.namespace@,
        a.scope.actor_id@ + sep + tail_a,
        b.scope.namespace@,
        b.scope.actor_id@ + sep + tail_b,
    );
    lemma_split_at_separator(a.scope.actor_id@, tail_a, b.scope.actor_id@, tail_b);
    lemma_signature_tail(da, ca, fa, db, cb, fb);
    assert(da == seq![spec_digit_char(spec_kind_code(a.kind))]);
    assert(db == seq![spec_digit_char(spec_kind_code(b.kind))]);
    assert(da[0] == db[0]);
}

proof fn lemma_signature_tail(
    da: Seq<char>,
    ca: Seq<char>,
    fa: Seq<char>,
    db: Seq<char>,
    cb: Seq<char>,
    fb: Seq<char>,
)
    requires
        da + seq!['\u{1f}'] + ca + seq!['\u{1f}'] + fa == db + seq!['\u{1f}'] + cb + seq!['\u{1f}'] + fb,
        da.len() == 1,
        db.len() == 1,
        da[0] != '\u{1f}',
        db[0] != '\u{1f}',
    ensures
        da == db,
        ca + seq!['\u{1f}'] + fa == cb + seq!['\u{1f}'] + fb,
{
    let sep = seq!['\u{1f}'];
    lemma_add_assoc(da + sep + ca, sep, fa);
    lemma_add_assoc(da + sep, ca, sep + fa);
    lemma_add_assoc(da, sep, ca + (sep + fa));
    lemma_add_assoc(db + sep + cb, sep, fb);
    lemma_add_assoc(db + sep, cb, sep + fb);
    lemma_add_assoc(db, sep, cb + (sep + fb));
    lemma_add_assoc(ca, sep, fa);
    lemma_add_assoc(cb, sep, fb);
    assert(!da.contains('\u{1f}'));
    assert(!db.contains('\u{1f}'));
    lemma_split_at_separator(da, ca + sep + fa, db, cb + sep + fb);
}

proof fn lemma_trim_start_keeps_out(s: Seq<char>, c: char)
    requires
        !s.contains(c),
    ensures
        !spec_trim_start(s).contains(c),
    decreases s.len(),
{
    if s.len() > 0 && spec_is_whitespace(s[0]) {
        let t = s.drop_first();
        assert forall|i: int| 0 <= i < t.len() implies t[i] != c by {
            assert(t[i] == s[i + 1]);
        }
        lemma_trim_start_keeps_out(t, c);
    }
}

proof fn lemma_trim_end_keeps_out(s: Seq<char>, c: char)
    requires
        !s.contains(c),
    ensures
        !spec_trim_end(s).contains(c),
    decreases s.len(),
{
    if s.len() > 0 && spec_is_whitespace(s.last()) {
        let t = s.drop_last();
        assert forall|i: int| 0 <= i < t.len() implies t[i] != c by {
            assert(t[i] == s[i]);
        }
        lemma_trim_end_keeps_out(t, c);
    }
}

proof fn lemma_folded_keeps_separator_out(s: Seq<char>)
    requires
        !s.contains('\u{1f}'),
    ensures
        !spec_folded(s).contains('\u{1f}'),
{
    lemma_trim_start_keeps_out(s, '\u{1f}');
    lemma_trim_end_keeps_out(spec_trim_start(s), '\u{1f}');
    let t = spec_trim(s);
    let f = spec_folded(s);
    assert forall|i: int| 0 <= i < f.len() implies f[i] != '\u{1f}' by {
        assert(f[i] == spec_ascii_lower_char(t[i]));
        assert(t[i] != '\u{1f}');
    }
}

/// Records with different texts are never duplicates: equal duplicate
/// signatures mean the same content and the same summary up to surrounding
/// white space and ASCII case (no summary counting as an empty one), for
/// names and texts free of the unit separator the signature joins them
/// with.
pub proof fn lemma_signature_keeps_texts_apart(a: RecordFrame, b: RecordFrame)
    requires
        !a.scope.tenant_id@.contains('\u{1f}'),
        !a.scope.namespace@.contains('\u{1f}'),
        !a.scope.actor_id@.contains('\u{1f}'),
        !b.scope.tenant_id@.contains('\u{1f}'),
        !b.scope.namespace@.contains('\u{1f}'),
        !b.scope.actor_id@.contains('\u{1f}'),
        !a.content@.contains('\u{1f}'),
        !b.content@.contains('\u{1f}'),
        spec_dedup_signature(a) == spec_dedup_signature(b),
    ensures
        spec_folded(a.content@) == spec_folded(b.content@),
        spec_folded(
            match a.summary {
                Some(s) => s@,
                None => seq![],
            },
        ) == spec_folded(
            match b.summary {
                Some(s) => s@,
                None => seq![],
            },
        ),
{
    let sep = seq!['\u{1f}'];
    let sa = match a.summary {
        Some(s) => s@,
        None => seq![],
    };
    let sb = match b.summary {
        Some(s) => s@,
        None => seq![],
    };
    let da = spec_decimal(spec_kind_code(a.kind));
    let db = spec_decimal(spec_kind_code(b.kind));
    let ca = spec_folded(a.content@);
    let cb = spec_folded(b.content@);
    let fa = spec_folded(sa);
    let fb = spec_folded(sb);
    lemma_signature_keeps_scopes_apart(a, b);
    lemma_signature_shape(a.scope.tenant_id@, a.scope.namespace@, a.scope.actor_id@, da, ca, fa);
    lemma_signature_shape(b.scope.tenant_id@, b.scope.namespace@, b.scope.actor_id@, db, cb, fb);
    let tail_a = da + sep + ca + sep + fa;
    let tail_b = db + sep + cb + sep + fb;
    let ya = a.scope.namespace@ + sep + (a.scope.actor_id@ + sep + tail_a);
    let yb = b.scope.namespace@ + sep + (b.scope.actor_id@ + sep + tail_b);
    lemma_split_at_separator(a.scope.tenant_id@, ya, b.scope.tenant_id@, yb);
    lemma_split_at_separator(
        a.scope.namespace@,
        a.scope.actor_id@ + sep + tail_a,
        b.scope.namespace@,
        b.scope.actor_id@ + sep + tail_b,
    );
    lemma_split_at_separator(a.scope.actor_id@, tail_a, b.scope.actor_id@, tail_b);
    assert(da == seq![spec_digit_char(spec_kind_code(a.kind))]);
    assert(db == seq![spec_digit_char(spec_kind_code(b.kind))]);
    lemma_signature_tail(da, ca, fa, db, cb, fb);
    lemma_folded_keeps_separator_out(a.content@);
    lemma_folded_keeps_separator_out(b.content@);
    lemma_split_at_separator(ca, fa, cb, fb);
}

fn folded(s: &str) -> (r: String)
    ensures
        r@ == spec_folded(s@),
{
    let t = trim(s);
    ascii_lowercase(t.as_str())
}

/// The duplicate-detection signature of a record.
pub fn dedup_signature(record: &RecordFrame) -> (r: String)
    ensures
        r@ == spec_dedup_signature(*record),
{
    let mut out = String::from_str(record.scope.tenant_id.as_str());
    push_char(&mut out, '\u{1f}');
    out.append(record.scope.namespace.as_str());
    push_char(&mut out, '\u{1f}');
    out.append(record.scope.actor_id.as_str());
    push_char(&mut out, '\u{1f}');
    let code = decimal_string(kind_code(record.kind));
    out.append(code.as_str());
    push_char(&mut out, '\u{1f}');
    let content = folded(record.content.as_str());
    out.append(content.as_str());
    push_char(&mut out, '\u{1f}');
    let summary = match &record.summary {
        Some(s) => folded(s.as_str()),
        None => folded(""),
    };
    proof {
        reveal_strlit("");
    }
    out.append(summary.as_str());
    assert(out@ =~= spec_dedup_signature(*record));
    out
}

/// The number of items of `s` that satisfy `p`.
pub open spec fn spec_count<A>(s: Seq<A>, p: spec_fn(A) -> bool) -> nat
    decreases s.len(),
{
    if s.len() == 0 {
        0
    } else {
        spec_count(s.drop_last(), p) + if p(s.last()) {
            1nat
        } else {
            0nat
        }
    }
}

pub proof fn lemma_count_bounded<A>(s: Seq<A>, p: spec_fn(A) -> bool)
    ensures
        spec_count(s, p) <= s.len(),
    decreases s.len(),
{
    if s.len() > 0 {
        lemma_count_bounded(s.drop_last(), p);
    }
}

pub proof fn lemma_count_step<A>(s: Seq<A>, i: int, p: spec_fn(A) -> bool)
    requires
        0 <= i < s.len(),
    ensures
        spec_count(s.take(i + 1), p) == spec_count(s.take(i), p) + if p(s[i]) {
            1nat
        } else {
            0nat
        },
{
    assert(s.take(i + 1).drop_last() =~= s.take(i));
    assert(s.take(i + 1).last() == s[i]);
}

/// How many items of `s` repeat an earlier one: the items beyond the first
/// of each group of equal items.
pub open spec fn spec_repeat_count<A>(s: Seq<A>) -> nat
    decreases s.len(),
{
    if s.len() == 0 {
        0
    } else {
        spec_repeat_count(s.drop_last()) + if s.drop_last().contains(s.last()) {
            1nat
        } else {
            0nat
        }
    }
}

/// How many times `x` occurs in `s`.
pub open spec fn spec_occurrences<A>(s: Seq<A>, x: A) -> nat
    decreases s.len(),
{
    if s.len() == 0 {
        0
    } else {
        spec_occurrences(s.drop_last(), x) + if s.last() == x {
            1nat
        } else {
            0nat
        }
    }
}

/// How many groups of equal items have more than one member: the items that
/// are the second of their group.
pub open spec fn spec_group_count<A>(s: Seq<A>) -> nat
    decreases s.len(),
{
    if s.len() == 0 {
        0
    } else {
        spec_group_count(s.drop_last()) + if spec_occurrences(s.drop_last(), s.last()) == 1 {
            1nat
        } else {
            0nat
        }
    }
}

/// Whether a stored record lies within the tenant and namespace filters.
pub open spec fn spec_in_filters(
    stored: StoredFrame,
    tenant_filter: Option<Seq<char>>,
    namespace_filter: Option<Seq<char>>,
) -> bool {
    spec_scope_matches_filters(
        stored.record.scope.tenant_id@,
        stored.record.scope.namespace@,
        tenant_filter,
        namespace_filter,
    )
}

/// The signatures of the live records within the filters, in order.
pub open spec fn spec_live_signatures(
    records: Seq<StoredFrame>,
    tenant_filter: Option<Seq<char>>,
    namespace_filter: Option<Seq<char>>,
) -> Seq<Seq<char>>
    decreases records.len(),
{
    if records.len() == 0 {
        seq![]
    } else {
        let init = spec_live_signatures(records.drop_last(), tenant_filter, namespace_filter);
        let r = records.last();
        if spec_in_filters(r, tenant_filter, namespace_filter) && spec_is_live(
            r.record.quality_state,
        ) {
            init.push(spec_dedup_signature(r.record))
        } else {
            init
        }
    }
}

/// The first stored record with the id, if any.
pub open spec fn spec_first_with_id(records: Seq<StoredFrame>, id: Seq<char>) -> Option<StoredFrame>
    decreases records.len(),
{
    if records.len() == 0 {
        None
    } else if records[0].record.id@ == id {
        Some(records[0])
    } else {
        spec_first_with_id(records.drop_first(), id)
    }
}

/// How a mapping stands in a scan.
#[derive(Debug, Clone, Copy, PartialEq, Eq, Structural)]
pub enum MappingStatus {
    /// Its key does not split into the six scope fields.
    Unparsable,
    /// Its tenant or namespace is outside the scan.
    OutOfScope,
    /// The record it names is gone, or lives under another tenant or
    /// namespace.
    Dangling,
    /// It names a record of its own tenant and namespace.
    Sound,
}

/// How a mapping stands among the records, in a scan with these filters.
pub open spec fn spec_mapping_status(
    mapping: IdempotencyMapping,
    records: Seq<StoredFrame>,
    tenant_filter: Option<Seq<char>>,
    namespace_filter: Option<Seq<char>>,
) -> MappingStatus {
    let pieces = spec_split(mapping.scoped_key@, '\u{1f}');
    if pieces.len() != 6 {
        MappingStatus::Unparsable
    } else if !spec_scope_matches_filters(pieces[0], pieces[1], tenant_filter, namespace_filter) {
        MappingStatus::OutOfScope
    } else {
        match spec_first_with_id(records, mapping.record_id@) {
            None => MappingStatus::Dangling,
            Some(stored) => if stored.record.scope.tenant_id@ != pieces[0]
                || stored.record.scope.namespace@ != pieces[1] {
                MappingStatus::Dangling
            } else {
                MappingStatus::Sound
            },
        }
    }
}

/// The record a scoped key leads to through the sound mappings (the last
/// such mapping, as a later one overrides an earlier one).
pub open spec fn spec_sound_lookup(
    mappings: Seq<IdempotencyMapping>,
    records: Seq<StoredFrame>,
    tenant_filter: Option<Seq<char>>,
    namespace_filter: Option<Seq<char>>,
    key: Seq<char>,
) -> Option<Seq<char>>
    decreases mappings.len(),
{
    if mappings.len() == 0 {
        None
    } else {
        let m = mappings.last();
        if spec_mapping_status(m, records, tenant_filter, namespace_filter) == MappingStatus::Sound
            && m.scoped_key@ == key {
            Some(m.record_id@)
        } else {
            spec_sound_lookup(mappings.drop_last(), records, tenant_filter, namespace_filter, key)
        }
    }
}

/// Whether a stored record within the filters carries an idempotency key
/// that no sound mapping leads back to it from.
pub open spec fn spec_lacks_mapping(
    stored: StoredFrame,
    mappings: Seq<IdempotencyMapping>,
    records: Seq<StoredFrame>,
    tenant_filter: Option<Seq<char>>,
    namespace_filter: Option<Seq<char>>,
) -> bool {
    match stored.idempotency_key {
        Some(k) => spec_sound_lookup(
            mappings,
            records,
            tenant_filter,
            namespace_filter,
            spec_scoped_key(stored.record.scope, k@),
        ) != Some(stored.record.id@),
        None => false,
    }
}

/// Being within the filters, as a predicate on stored records.
pub open spec fn spec_within(
    tenant_filter: Option<Seq<char>>,
    namespace_filter: Option<Seq<char>>,
) -> spec_fn(StoredFrame) -> bool {
    |s: StoredFrame| spec_in_filters(s, tenant_filter, namespace_filter)
}

/// Being scanned (not out of scope), as a predicate on mappings.
pub open spec fn spec_scanned_mapping(
    records: Seq<StoredFrame>,
    tenant_filter: Option<Seq<char>>,
    namespace_filter: Option<Seq<char>>,
) -> spec_fn(IdempotencyMapping) -> bool {
    |m: IdempotencyMapping|
        spec_mapping_status(m, records, tenant_filter, namespace_filter)
            != MappingStatus::OutOfScope
}

/// Being stale (unreadable or dangling), as a predicate on mappings.
pub open spec fn spec_stale_mapping(
    records: Seq<StoredFrame>,
    tenant_filter: Option<Seq<char>>,
    namespace_filter: Option<Seq<char>>,
) -> spec_fn(IdempotencyMapping) -> bool {
    |m: IdempotencyMapping|
        spec_mapping_status(m, records, tenant_filter, namespace_filter)
            == MappingStatus::Unparsable || spec_mapping_status(
            m,
            records,
            tenant_filter,
            namespace_filter,
        ) == MappingStatus::Dangling
}

/// Lacking a sound mapping while within the filters, as a predicate on
/// stored records.
pub open spec fn spec_missing_mapping(
    mappings: Seq<IdempotencyMapping>,
    records: Seq<StoredFrame>,
    tenant_filter: Option<Seq<char>>,
    namespace_filter: Option<Seq<char>>,
) -> spec_fn(StoredFrame) -> bool {
    |s: StoredFrame|
        spec_in_filters(s, tenant_filter, namespace_filter) && spec_lacks_mapping(
            s,
            mappings,
            records,
            tenant_filter,
            namespace_filter,
        )
}

/// The findings of an integrity scan of `records` and `mappings` within the
/// filters: the records scanned, the mappings scanned (those within the
/// filters, and those that cannot be read at all), the stale ones among
/// them, the records whose idempotency key has no sound mapping, and the
/// live records that repeat an earlier one.
pub open spec fn spec_integrity_summary(
    records: Seq<StoredFrame>,
    mappings: Seq<IdempotencyMapping>,
    tenant_filter: Option<Seq<char>>,
    namespace_filter: Option<Seq<char>>,
) -> IntegritySummary {
    IntegritySummary {
        scanned_records: spec_count(records, spec_within(tenant_filter, namespace_filter)) as u64,
        scanned_idempotency_keys: spec_count(
            mappings,
            spec_scanned_mapping(records, tenant_filter, namespace_filter),
        ) as u64,
        stale_idempotency_keys: spec_count(
            mappings,
            spec_stale_mapping(records, tenant_filter, namespace_filter),
        ) as u64,
        missing_idempotency_keys: spec_count(
            records,
            spec_missing_mapping(mappings, records, tenant_filter, namespace_filter),
        ) as u64,
        duplicate_active_records: spec_repeat_count(
            spec_live_signatures(records, tenant_filter, namespace_filter),
        ) as u64,
    }
}

/// The position of the first stored record with the id, if any.
pub fn find_record(records: &Vec<StoredFrame>, id: &str) -> (r: Option<usize>)
    ensures
        match r {
            Some(i) => i < records@.len() && spec_first_with_id(records@, id@) == Some(
                records@[i as int],
            ),
            None => spec_first_with_id(records@, id@) is None,
        },
{
    let n = records.len();
    let mut i: usize = 0;
    assert(records@.skip(0) =~= records@);
    while i < n
        invariant
            n == records@.len(),
            i <= n,
            spec_first_with_id(records@, id@) == spec_first_with_id(records@.skip(i as int), id@),
        decreases n - i,
    {
        assert(records@.skip(i as int)[0] == records@[i as int]);
        assert(records@.skip(i as int).drop_first() =~= records@.skip(i + 1));
        if text_eq(records[i].record.id.as_str(), id) {
            return Some(i);
        }
        i += 1;
    }
    None
}

/// How a mapping stands among the records, in a scan with these filters.
pub fn mapping_status(
    mapping: &IdempotencyMapping,
    records: &Vec<StoredFrame>,
    tenant_filter: Option<&str>,
    namespace_filter: Option<&str>,
) -> (r: MappingStatus)
    ensures
        r == spec_mapping_status(
            *mapping,
            records@,
            spec_str_view(tenant_filter),
            spec_str_view(namespace_filter),
        ),
{
    let parts = match parse_scope_key(mapping.scoped_key.as_str()) {
        Some(p) => p,
        None => {
            return MappingStatus::Unparsable;
        },
    };
    if !scope_matches_filters(
        parts.tenant_id.as_str(),
        parts.namespace.as_str(),
        tenant_filter,
        namespace_filter,
    ) {
        return MappingStatus::OutOfScope;
    }
    match find_record(records, mapping.record_id.as_str()) {
        None => MappingStatus::Dangling,
        Some(i) => {
            let stored = &records[i];
            if !text_eq(stored.record.scope.tenant_id.as_str(), parts.tenant_id.as_str())
                || !text_eq(stored.record.scope.namespace.as_str(), parts.namespace.as_str()) {
                MappingStatus::Dangling
            } else {
                MappingStatus::Sound
            }
        },
    }
}

fn sound_lookup(
    mappings: &Vec<IdempotencyMapping>,
    statuses: &Vec<MappingStatus>,
    key: &str,
    Ghost(records): Ghost<Seq<StoredFrame>>,
    Ghost(tenant_filter): Ghost<Option<Seq<char>>>,
    Ghost(namespace_filter): Ghost<Option<Seq<char>>>,
) -> (r: Option<usize>)
    requires
        statuses@.len() == mappings@.len(),
        forall|j: int|
            0 <= j < mappings@.len() ==> statuses@[j] == spec_mapping_status(
                #[trigger] mappings@[j],
                records,
                tenant_filter,
                namespace_filter,
            ),
    ensures
        match r {
            Some(j) => j < mappings@.len() && spec_sound_lookup(
                mappings@,
                records,
                tenant_filter,
                namespace_filter,
                key@,
            ) == Some(mappings@[j as int].record_id@),
            None => spec_sound_lookup(mappings@, records, tenant_filter, namespace_filter, key@)
                is None,
        },
{
    let mut j: usize = mappings.len();
    assert(mappings@.take(j as int) =~= mappings@);
    while j > 0
        invariant
            j <= mappings@.len(),
            statuses@.len() == mappings@.len(),
            forall|k: int|
                0 <= k < mappings@.len() ==> statuses@[k] == spec_mapping_status(
                    #[trigger] mappings@[k],
                    records,
                    tenant_filter,
                    namespace_filter,
                ),
            spec_sound_lookup(mappings@, records, tenant_filter, namespace_filter, key@)
                == spec_sound_lookup(
                mappings@.take(j as int),
                records,
                tenant_filter,
                namespace_filter,
                key@,
            ),
        decreases j,
    {
        j -= 1;
        let ghost prefix = mappings@.take(j + 1);
        assert(prefix.drop_last() =~= mappings@.take(j as int));
        assert(prefix.last() == mappings@[j as int]);
        let _ = statuses[j];
        if statuses[j] == MappingStatus::Sound && text_eq(mappings[j].scoped_key.as_str(), key) {
            return Some(j);
        }
    }
    None
}

/// Scans the records and mappings within the filters for integrity.
pub fn integrity_summary(
    records: &Vec<StoredFrame>,
    mappings: &Vec<IdempotencyMapping>,
    tenant_filter: Option<&str>,
    namespace_filter: Option<&str>,
) -> (r: IntegritySummary)
    ensures
        r == spec_integrity_summary(
            records@,
            mappings@,
            spec_str_view(tenant_filter),
            spec_str_view(namespace_filter),
        ),
{
    let ghost tf = spec_str_view(tenant_filter);
    let ghost nf = spec_str_view(namespace_filter);
    let n = records.len();
    let m = mappings.len();

    let mut scanned_records: u64 = 0;
    let mut i: usize = 0;
    while i < n
        invariant
            tf == spec_str_view(tenant_filter),
            nf == spec_str_view(namespace_filter),
            n == records@.len(),
            i <= n,
            scanned_records <= i,
            scanned_records == spec_count(records@.take(i as int), spec_within(tf, nf)),
        decreases n - i,
    {
        proof {
            lemma_count_step(records@, i as int, spec_within(tf, nf));
        }
        let stored = &records[i];
        if scope_matches_filters(
            stored.record.scope.tenant_id.as_str(),
            stored.record.scope.namespace.as_str(),
            tenant_filter,
            namespace_filter,
        ) {
            scanned_records += 1;
        }
        i += 1;
    }
    assert(records@.take(n as int) =~= records@);

    let mut statuses: Vec<MappingStatus> = Vec::new();
    let mut scanned_keys: u64 = 0;
    let mut stale_keys: u64 = 0;
    let mut k: usize = 0;
    while k < m
        invariant
            tf == spec_str_view(tenant_filter),
            nf == spec_str_view(namespace_filter),
            m == mappings@.len(),
            k <= m,
            statuses@.len() == k,
            forall|j: int|
                0 <= j < k ==> statuses@[j] == spec_mapping_status(
                    #[trigger] mappings@[j],
                    records@,
                    tf,
                    nf,
                ),
            scanned_keys <= k,
            stale_keys <= k,
            scanned_keys == spec_count(
                mappings@.take(k as int),
                spec_scanned_mapping(records@, tf, nf),
            ),
            stale_keys == spec_count(mappings@.take(k as int), spec_stale_mapping(records@, tf, nf)),
        decreases m - k,
    {
        proof {
            lemma_count_step(mappings@, k as int, spec_scanned_mapping(records@, tf, nf));
            lemma_count_step(mappings@, k as int, spec_stale_mapping(records@, tf, nf));
        }
        let status = mapping_status(&mappings[k], records, tenant_filter, namespace_filter);
        if status != MappingStatus::OutOfScope {
            scanned_keys += 1;
        }
        if status == MappingStatus::Unparsable || status == MappingStatus::Dangling {
            stale_keys += 1;
        }
        statuses.push(status);
        k += 1;
    }
    assert(mappings@.take(m as int) =~= mappings@);

    let mut missing: u64 = 0;
    let mut i: usize = 0;
    while i < n
        invariant
            tf == spec_str_view(tenant_filter),
            nf == spec_str_view(namespace_filter),
            n == records@.len(),
            m == mappings@.len(),
            i <= n,
            statuses@.len() == m,
            forall|j: int|
                0 <= j < m ==> statuses@[j] == spec_mapping_status(
                    #[trigger] mappings@[j],
                    records@,
                    tf,
                    nf,
                ),
            missing <= i,
            missing == spec_count(
                records@.take(i as int),
                spec_missing_mapping(mappings@, records@, tf, nf),
            ),
        decreases n - i,
    {
        proof {
            lemma_count_step(records@, i as int, spec_missing_mapping(mappings@, records@, tf, nf));
        }
        let stored = &records[i];
        if scope_matches_filters(
            stored.record.scope.tenant_id.as_str(),
            stored.record.scope.namespace.as_str(),
            tenant_filter,
            namespace_filter,
        ) {
            match &stored.idempotency_key {
                Some(key) => {
                    let scoped = scoped_key(&stored.record.scope, key.as_str());
                    let found = sound_lookup(
                        mappings,
                        &statuses,
                        scoped.as_str(),
                        Ghost(records@),
                        Ghost(tf),
                        Ghost(nf),
                    );
                    let leads_back = match found {
                        Some(j) => text_eq(mappings[j].record_id.as_str(), stored.record.id.as_str()),
                        None => false,
                    };
                    if !leads_back {
                        missing += 1;
                    }
                },
                None => {},
            }
        }
        i += 1;
    }
    assert(records@.take(n as int) =~= records@);

    let mut signatures: Vec<String> = Vec::new();
    let mut repeats: u64 = 0;
    let mut i: usize = 0;
    while i < n
        invariant
            tf == spec_str_view(tenant_filter),
            nf == spec_str_view(namespace_filter),
            n == records@.len(),
            i <= n,
            signatures@.len() <= i,
            repeats <= signatures@.len(),
            signatures@.map_values(|x: String| x@) == spec_live_signatures(
                records@.take(i as int),
                tf,
                nf,
            ),
            repeats == spec_repeat_count(spec_live_signatures(records@.take(i as int), tf, nf)),
        decreases n - i,
    {
        let stored = &records[i];
        let ghost before = signatures@.map_values(|x: String| x@);
        proof {
            let next = records@.take(i + 1);
            assert(next.drop_last() =~= records@.take(i as int));
            assert(next.last() == records@[i as int]);
        }
        let live = match stored.record.quality_state {
            MemoryQualityState::Archived | MemoryQualityState::Deleted
            | MemoryQualityState::Suppressed => false,
            _ => true,
        };
        if live && scope_matches_filters(
            stored.record.scope.tenant_id.as_str(),
            stored.record.scope.namespace.as_str(),
            tenant_filter,
            namespace_filter,
        ) {
            let sig = dedup_signature(&stored.record);
            let seen = crate::text::list_contains(&signatures, sig.as_str());
            proof {
                if seen {
                    let j = choose|j: int| 0 <= j < signatures@.len() && #[trigger] signatures@[j]@
                        == sig@;
                    assert(before[j] == sig@);
                }
                if before.contains(sig@) {
                    let j = choose|j: int| 0 <= j < before.len() && before[j] == sig@;
                    assert(signatures@[j]@ == sig@);
                }
            }
            assert(before.push(sig@).drop_last() =~= before);
            assert(before.push(sig@).last() == sig@);
            if seen {
                repeats += 1;
            }
            signatures.push(sig);
            assert(signatures@.map_values(|x: String| x@) =~= before.push(sig@));
        }
        i += 1;
    }
    assert(records@.take(n as int) =~= records@);

    IntegritySummary {
        scanned_records,
        scanned_idempotency_keys: scanned_keys,
        stale_idempotency_keys: stale_keys,
        missing_idempotency_keys: missing,
        duplicate_active_records: repeats,
    }
}

/// The report of an integrity check at `generated_at_unix_ms`: healthy when
/// no mapping is stale, no record lacks its mapping and no live record
/// repeats another.
pub fn integrity_check_report(summary: &IntegritySummary, generated_at_unix_ms: u64) -> (r:
    IntegrityCheckReport)
    ensures
        r == (IntegrityCheckReport {
            generated_at_unix_ms,
            healthy: summary.stale_idempotency_keys == 0 && summary.missing_idempotency_keys == 0
                && summary.duplicate_active_records == 0,
            scanned_records: summary.scanned_records,
            scanned_idempotency_keys: summary.scanned_idempotency_keys,
            stale_idempotency_keys: summary.stale_idempotency_keys,
            missing_idempotency_keys: summary.missing_idempotency_keys,
            duplicate_active_records: summary.duplicate_active_records,
        }),
{
    IntegrityCheckReport {
        generated_at_unix_ms,
        healthy: summary.stale_idempotency_keys == 0 && summary.missing_idempotency_keys == 0
            && summary.duplicate_active_records == 0,
        scanned_records: summary.scanned_records,
        scanned_idempotency_keys: summary.scanned_idempotency_keys,
        stale_idempotency_keys: summary.stale_idempotency_keys,
        missing_idempotency_keys: summary.missing_idempotency_keys,
        duplicate_active_records: summary.duplicate_active_records,
    }
}

/// The positions of the items of `s` that satisfy `p`, in order.
pub open spec fn spec_positions<A>(s: Seq<A>, p: spec_fn(A) -> bool) -> Seq<usize>
    decreases s.len(),
{
    if s.len() == 0 {
        seq![]
    } else {
        let init = spec_positions(s.drop_last(), p);
        if p(s.last()) {
            init.push((s.len() - 1) as usize)
        } else {
            init
        }
    }
}

/// Being dangling, as a predicate on mappings.
pub open spec fn spec_dangling_mapping(
    records: Seq<StoredFrame>,
    tenant_filter: Option<Seq<char>>,
    namespace_filter: Option<Seq<char>>,
) -> spec_fn(IdempotencyMapping) -> bool {
    |m: IdempotencyMapping|
        spec_mapping_status(m, records, tenant_filter, namespace_filter) == MappingStatus::Dangling
}

/// The record a scoped key leads to among the mappings that remain (the
/// last one with the key); dangling mappings are gone when `removed`.
pub open spec fn spec_remaining_lookup(
    mappings: Seq<IdempotencyMapping>,
    records: Seq<StoredFrame>,
    tenant_filter: Option<Seq<char>>,
    namespace_filter: Option<Seq<char>>,
    removed: bool,
    key: Seq<char>,
) -> Option<Seq<char>>
    decreases mappings.len(),
{
    if mappings.len() == 0 {
        None
    } else {
        let m = mappings.last();
        let kept = !(removed && spec_mapping_status(m, records, tenant_filter, namespace_filter)
            == MappingStatus::Dangling);
        if kept && m.scoped_key@ == key {
            Some(m.record_id@)
        } else {
            spec_remaining_lookup(
                mappings.drop_last(),
                records,
                tenant_filter,
                namespace_filter,
                removed,
                key,
            )
        }
    }
}

/// Needing its mapping written again, as a predicate on stored records:
/// within the filters, with an idempotency key that the remaining mappings
/// do not lead back to it from.
pub open spec fn spec_needs_rebuild(
    mappings: Seq<IdempotencyMapping>,
    records: Seq<StoredFrame>,
    tenant_filter: Option<Seq<char>>,
    namespace_filter: Option<Seq<char>>,
    removed: bool,
) -> spec_fn(StoredFrame) -> bool {
    |s: StoredFrame|
        spec_in_filters(s, tenant_filter, namespace_filter) && match s.idempotency_key {
            Some(k) => spec_remaining_lookup(
                mappings,
                records,
                tenant_filter,
                namespace_filter,
                removed,
                spec_scoped_key(s.record.scope, k@),
            ) != Some(s.record.id@),
            None => false,
        }
}

/// The mapping a record's idempotency key is written back as.
pub open spec fn spec_rebuilt_mapping(stored: StoredFrame) -> (Seq<char>, Seq<char>) {
    match stored.idempotency_key {
        Some(k) => (spec_scoped_key(stored.record.scope, k@), stored.record.id@),
        None => (seq![], stored.record.id@),
    }
}

/// What a repair does: the report, the mappings to remove (by position),
/// and the mappings to write.
pub struct RepairPlan {
    pub report: RepairReport,
    pub stale_mappings: Vec<usize>,
    pub rebuilt_mappings: Vec<IdempotencyMapping>,
}

/// Why a repair request is refused: it needs a reason and at least one
/// enabled action.
pub open spec fn spec_repair_violation(request: RepairRequest) -> Option<Seq<char>> {
    if spec_is_blank(request.reason@) {
        Some("repair reason is required"@)
    } else if !request.remove_stale_idempotency_keys && !request.rebuild_missing_idempotency_keys {
        Some("repair requires at least one enabled action"@)
    } else {
        None
    }
}

/// Plans a repair of the records and mappings within the request's filters:
/// dangling mappings are removed (when asked), and records whose idempotency
/// key no remaining mapping leads back to get their mapping written again
/// (when asked); a dry run reports the same counts and changes nothing.
pub fn plan_repair(
    request: &RepairRequest,
    records: &Vec<StoredFrame>,
    mappings: &Vec<IdempotencyMapping>,
) -> (r: Result<RepairPlan, Error>)
    ensures
        match spec_repair_violation(*request) {
            Some(message) => r matches Err(e) && e.spec_is(ErrorKind::InvalidRequest, message),
            None => r matches Ok(plan) && ({
                let tf = spec_option_view(request.tenant_id);
                let nf = spec_option_view(request.namespace);
                let summary = spec_integrity_summary(records@, mappings@, tf, nf);
                let removed = request.remove_stale_idempotency_keys && !request.dry_run;
                let stale = if request.remove_stale_idempotency_keys {
                    spec_positions(mappings@, spec_dangling_mapping(records@, tf, nf))
                } else {
                    seq![]
                };
                let rebuild = if request.rebuild_missing_idempotency_keys {
                    spec_positions(
                        records@,
                        spec_needs_rebuild(mappings@, records@, tf, nf, removed),
                    )
                } else {
                    seq![]
                };
                &&& plan.stale_mappings@ == stale
                &&& plan.rebuilt_mappings@.len() == rebuild.len()
                &&& forall|i: int|
                    0 <= i < rebuild.len() ==> ((#[trigger] plan.rebuilt_mappings@[i]).scoped_key@,
                    plan.rebuilt_mappings@[i].record_id@) == spec_rebuilt_mapping(
                        records@[rebuild[i] as int],
                    )
                &&& plan.report == (RepairReport {
                    dry_run: request.dry_run,
                    scanned_records: summary.scanned_records,
                    scanned_idempotency_keys: summary.scanned_idempotency_keys,
                    removed_stale_idempotency_keys: stale.len() as u64,
                    rebuilt_missing_idempotency_keys: rebuild.len() as u64,
                    healthy_after: (request.remove_stale_idempotency_keys
                        || summary.stale_idempotency_keys == 0) && (
                    request.rebuild_missing_idempotency_keys || summary.missing_idempotency_keys
                        == 0) && summary.duplicate_active_records == 0,
                })
            }),
        },
{
    if is_blank(request.reason.as_str()) {
        return Err(Error::InvalidRequest(String::from_str("repair reason is required")));
    }
    if !request.remove_stale_idempotency_keys && !request.rebuild_missing_idempotency_keys {
        return Err(
            Error::InvalidRequest(String::from_str("repair requires at least one enabled action")),
        );
    }
    let tenant_filter = option_as_str(&request.tenant_id);
    let namespace_filter = option_as_str(&request.namespace);
    let ghost tf = spec_option_view(request.tenant_id);
    let ghost nf = spec_option_view(request.namespace);
    let summary = integrity_summary(records, mappings, tenant_filter, namespace_filter);
    let removed = request.remove_stale_idempotency_keys && !request.dry_run;

    let m = mappings.len();
    let mut statuses: Vec<MappingStatus> = Vec::new();
    let mut stale: Vec<usize> = Vec::new();
    let mut k: usize = 0;
    while k < m
        invariant
            tf == spec_str_view(tenant_filter),
            nf == spec_str_view(namespace_filter),
            m == mappings@.len(),
            k <= m,
            statuses@.len() == k,
            forall|j: int|
                0 <= j < k ==> statuses@[j] == spec_mapping_status(
                    #[trigger] mappings@[j],
                    records@,
                    tf,
                    nf,
                ),
            stale@ == spec_positions(
                mappings@.take(k as int),
                spec_dangling_mapping(records@, tf, nf),
            ),
        decreases m - k,
    {
        let status = mapping_status(&mappings[k], records, tenant_filter, namespace_filter);
        proof {
            let next = mappings@.take(k + 1);
            assert(next.drop_last() =~= mappings@.take(k as int));
            assert(next.last() == mappings@[k as int]);
        }
        if status == MappingStatus::Dangling {
            stale.push(k);
        }
        statuses.push(status);
        k += 1;
    }
    assert(mappings@.take(m as int) =~= mappings@);
    if !request.remove_stale_idempotency_keys {
        stale = Vec::new();
    }

    let n = records.len();
    let mut rebuilt: Vec<IdempotencyMapping> = Vec::new();
    let ghost mut positions: Seq<usize> = seq![];
    let mut i: usize = 0;
    while i < n
        invariant
            tf == spec_str_view(tenant_filter),
            nf == spec_str_view(namespace_filter),
            n == records@.len(),
            m == mappings@.len(),
            i <= n,
            statuses@.len() == m,
            forall|j: int|
                0 <= j < m ==> statuses@[j] == spec_mapping_status(
                    #[trigger] mappings@[j],
                    records@,
                    tf,
                    nf,
                ),
            positions == spec_positions(
                records@.take(i as int),
                spec_needs_rebuild(mappings@, records@, tf, nf, removed),
            ),
            rebuilt@.len() == positions.len(),
            forall|j: int| 0 <= j < positions.len() ==> positions[j] < i,
            forall|j: int|
                0 <= j < positions.len() ==> ((#[trigger] rebuilt@[j]).scoped_key@,
                rebuilt@[j].record_id@) == spec_rebuilt_mapping(records@[positions[j] as int]),
        decreases n - i,
    {
        let stored = &records[i];
        proof {
            let next = records@.take(i + 1);
            assert(next.drop_last() =~= records@.take(i as int));
            assert(next.last() == records@[i as int]);
        }
        if scope_matches_filters(
            stored.record.scope.tenant_id.as_str(),
            stored.record.scope.namespace.as_str(),
            tenant_filter,
            namespace_filter,
        ) {
            match &stored.idempotency_key {
                Some(key) => {
                    let scoped = scoped_key(&stored.record.scope, key.as_str());
                    let found = remaining_lookup(
                        mappings,
                        &statuses,
                        removed,
                        scoped.as_str(),
                        Ghost(records@),
                        Ghost(tf),
                        Ghost(nf),
                    );
                    let leads_back = match found {
                        Some(j) => text_eq(mappings[j].record_id.as_str(), stored.record.id.as_str()),
                        None => false,
                    };
                    if !leads_back {
                        rebuilt.push(
                            IdempotencyMapping { scoped_key: scoped, record_id: stored.record.id.clone() },
                        );
                        proof {
                            positions = positions.push(i as usize);
                        }
                    }
                },
                None => {},
            }
        }
        i += 1;
    }
    assert(records@.take(n as int) =~= records@);
    if !request.rebuild_missing_idempotency_keys {
        rebuilt = Vec::new();
        proof {
            positions = seq![];
        }
    }
    let removed_count = stale.len() as u64;
    let rebuilt_count = rebuilt.len() as u64;
    let stale_after = if request.remove_stale_idempotency_keys {
        0
    } else {
        summary.stale_idempotency_keys
    };
    let missing_after = if request.rebuild_missing_idempotency_keys {
        0
    } else {
        summary.missing_idempotency_keys
    };
    Ok(
        RepairPlan {
            report: RepairReport {
                dry_run: request.dry_run,
                scanned_records: summary.scanned_records,
                scanned_idempotency_keys: summary.scanned_idempotency_keys,
                removed_stale_idempotency_keys: removed_count,
                rebuilt_missing_idempotency_keys: rebuilt_count,
                healthy_after: stale_after == 0 && missing_after == 0
                    && summary.duplicate_active_records == 0,
            },
            stale_mappings: stale,
            rebuilt_mappings: rebuilt,
        },
    )
}

fn remaining_lookup(
    mappings: &Vec<IdempotencyMapping>,
    statuses: &Vec<MappingStatus>,
    removed: bool,
    key: &str,
    Ghost(records): Ghost<Seq<StoredFrame>>,
    Ghost(tenant_filter): Ghost<Option<Seq<char>>>,
    Ghost(namespace_filter): Ghost<Option<Seq<char>>>,
) -> (r: Option<usize>)
    requires
        statuses@.len() == mappings@.len(),
        forall|j: int|
            0 <= j < mappings@.len() ==> statuses@[j] == spec_mapping_status(
                #[trigger] mappings@[j],
                records,
                tenant_filter,
                namespace_filter,
            ),
    ensures
        match r {
            Some(j) => j < mappings@.len() && spec_remaining_lookup(
                mappings@,
                records,
                tenant_filter,
                namespace_filter,
                removed,
                key@,
            ) == Some(mappings@[j as int].record_id@),
            None => spec_remaining_lookup(
                mappings@,
                records,
                tenant_filter,
                namespace_filter,
                removed,
                key@,
            ) is None,
        },
{
    let mut j: usize = mappings.len();
    assert(mappings@.take(j as int) =~= mappings@);
    while j > 0
        invariant
            j <= mappings@.len(),
            statuses@.len() == mappings@.len(),
            forall|k: int|
                0 <= k < mappings@.len() ==> statuses@[k] == spec_mapping_status(
                    #[trigger] mappings@[k],
                    records,
                    tenant_filter,
                    namespace_filter,
                ),
            spec_remaining_lookup(mappings@, records, tenant_filter, namespace_filter, removed, key@)
                == spec_remaining_lookup(
                mappings@.take(j as int),
                records,
                tenant_filter,
                namespace_filter,
                removed,
                key@,
            ),
        decreases j,
    {
        j -= 1;
        let ghost prefix = mappings@.take(j + 1);
        assert(prefix.drop_last() =~= mappings@.take(j as int));
        assert(prefix.last() == mappings@[j as int]);
        let kept = !(removed && statuses[j] == MappingStatus::Dangling);
        if kept && text_eq(mappings[j].scoped_key.as_str(), key) {
            return Some(j);
        }
    }
    None
}

/// A borrowed view of an optional text.
pub fn option_as_str(value: &Option<String>) -> (r: Option<&str>)
    ensures
        spec_str_view(r) == spec_option_view(*value),
{
    match value {
        Some(v) => Some(v.as_str()),
        None => None,
    }
}

} // verus!
