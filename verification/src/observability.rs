//! The registry of recent operation traces: a bounded, newest-first record
//! of what the server did, searchable by tenant, namespace, operation and
//! status.

use vstd::prelude::*;
use crate::query::{TraceListRequest, TraceOperationKind, TraceStatus};
use crate::text::{decimal_string, spec_decimal, text_eq};

verus! {

/// Counts and time bounds of the traces a registry holds.
#[derive(Debug, Clone, Copy, PartialEq, Eq)]
pub struct TraceRegistrySnapshot {
    pub stored_traces: u64,
    pub trace_capacity: u64,
    pub evicted_traces: u64,
    pub oldest_started_at_unix_ms: Option<u64>,
    pub newest_started_at_unix_ms: Option<u64>,
}

/// A recorded trace: the fields it is found by, and the full trace.
pub struct TraceEntry<P> {
    pub trace_id: String,
    pub tenant_id: Option<String>,
    pub namespace: Option<String>,
    pub operation: TraceOperationKind,
    pub status: TraceStatus,
    pub started_at_unix_ms: u64,
    pub payload: P,
}

/// Whether a trace meets every filter of a list request.
pub open spec fn spec_trace_matches<P>(entry: TraceEntry<P>, request: TraceListRequest) -> bool {
    &&& match request.tenant_id {
        Some(t) => entry.tenant_id matches Some(v) && v@ == t@,
        None => true,
    }
    &&& match request.namespace {
        Some(ns) => entry.namespace matches Some(v) && v@ == ns@,
        None => true,
    }
    &&& match request.operation {
        Some(op) => entry.operation == op,
        None => true,
    }
    &&& match request.status {
        Some(st) => entry.status == st,
        None => true,
    }
    &&& match request.before_started_at_unix_ms {
        Some(before) => entry.started_at_unix_ms <= before,
        None => true,
    }
}

/// The traces of `entries` that meet the request, in order.
pub open spec fn spec_matching<P>(entries: Seq<TraceEntry<P>>, request: TraceListRequest) -> Seq<
    TraceEntry<P>,
>
    decreases entries.len(),
{
    if entries.len() == 0 {
        seq![]
    } else {
        let rest = spec_matching(entries.drop_last(), request);
        if spec_trace_matches(entries.last(), request) {
            rest.push(entries.last())
        } else {
            rest
        }
    }
}

/// The first `n` items of `s`, or all of them when there are fewer.
pub open spec fn spec_at_most<A>(s: Seq<A>, n: int) -> Seq<A> {
    if s.len() <= n {
        s
    } else {
        s.take(n)
    }
}

/// The traces a list of borrowed entries points at.
pub open spec fn spec_entries<P>(refs: Seq<&TraceEntry<P>>) -> Seq<TraceEntry<P>> {
    refs.map_values(|e: &TraceEntry<P>| *e)
}

/// The id a registry hands out: the prefix, the time and the sequence number.
pub open spec fn spec_trace_id(prefix: Seq<char>, now_unix_ms: u64, sequence: u64) -> Seq<char> {
    prefix + "-"@ + spec_decimal(now_unix_ms as nat) + "-"@ + spec_decimal(sequence as nat)
}

/// A bounded registry of traces, newest first.
pub struct TraceRegistry<P> {
    capacity: usize,
    sequence: u64,
    evicted: u64,
    traces: Vec<TraceEntry<P>>,
}

impl<P> TraceRegistry<P> {
    #[verifier::type_invariant]
    spec fn well_formed(&self) -> bool {
        &&& self.capacity >= 1
        &&& self.traces@.len() <= self.capacity
    }

    /// How many traces the registry keeps at most.
    pub closed spec fn spec_capacity(&self) -> nat {
        self.capacity as nat
    }

    /// The stored traces, newest first.
    pub closed spec fn spec_traces(&self) -> Seq<TraceEntry<P>> {
        self.traces@
    }

    /// How many traces were dropped to stay within capacity (modulo 2^64).
    pub closed spec fn spec_evicted(&self) -> u64 {
        self.evicted
    }

    /// The sequence number of the next id handed out.
    pub closed spec fn spec_sequence(&self) -> u64 {
        self.sequence
    }

    /// An empty registry that keeps `capacity` traces (at least one).
    pub fn new(capacity: usize) -> (r: Self)
        ensures
            r.spec_capacity() == if capacity == 0 { 1 } else { capacity },
            r.spec_traces().len() == 0,
            r.spec_evicted() == 0,
            r.spec_sequence() == 1,
    {
        TraceRegistry {
            capacity: if capacity == 0 { 1 } else { capacity },
            sequence: 1,
            evicted: 0,
            traces: Vec::new(),
        }
    }

    /// A fresh id `prefix-now-sequence`; the sequence then advances by one
    /// (modulo 2^64).
    pub fn next_id(&mut self, prefix: &str, now_unix_ms: u64) -> (r: String)
        ensures
            r@ == spec_trace_id(prefix@, now_unix_ms, old(self).spec_sequence()),
            final(self).spec_sequence() == old(self).spec_sequence().wrapping_add(1),
            final(self).spec_traces() == old(self).spec_traces(),
            final(self).spec_capacity() == old(self).spec_capacity(),
            final(self).spec_evicted() == old(self).spec_evicted(),
    {
        proof {
            use_type_invariant(&*self);
        }
        let sequence = self.sequence;
        self.sequence = sequence.wrapping_add(1);
        let mut id = String::from_str(prefix);
        id.append("-");
        let time = decimal_string(now_unix_ms);
        id.append(time.as_str());
        id.append("-");
        let seq_text = decimal_string(sequence);
        id.append(seq_text.as_str());
        id
    }

    /// Stores a trace as the newest one, dropping the oldest when the registry
    /// is full; returns whether a trace was dropped.
    pub fn record(&mut self, entry: TraceEntry<P>) -> (evicted: bool)
        ensures
            final(self).spec_traces() == spec_at_most(
                seq![entry] + old(self).spec_traces(),
                old(self).spec_capacity() as int,
            ),
            evicted == (old(self).spec_traces().len() == old(self).spec_capacity()),
            final(self).spec_evicted() == if evicted {
                old(self).spec_evicted().wrapping_add(1)
            } else {
                old(self).spec_evicted()
            },
            final(self).spec_capacity() == old(self).spec_capacity(),
            final(self).spec_sequence() == old(self).spec_sequence(),
            1 <= final(self).spec_traces().len() <= final(self).spec_capacity(),
    {
        proof {
            use_type_invariant(&*self);
        }
        let mut traces: Vec<TraceEntry<P>> = Vec::new();
        std::mem::swap(&mut traces, &mut self.traces);
        let ghost before = traces@;
        traces.insert(0, entry);
        assert(traces@ =~= seq![entry] + before);
        let mut evicted = false;
        if traces.len() > self.capacity {
            let ghost full = traces@;
            traces.pop();
            assert(traces@ =~= full.drop_last());
            self.evicted = self.evicted.wrapping_add(1);
            evicted = true;
        }
        assert(traces@ =~= spec_at_most(seq![entry] + before, self.capacity as int));
        self.traces = traces;
        evicted
    }

    /// The stored traces that meet the request, newest first, at most
    /// `limit` of them (the capacity when no limit is given, and never more
    /// than the capacity).
    pub fn list(&self, request: &TraceListRequest) -> (r: Vec<&TraceEntry<P>>)
        ensures
            spec_entries(r@) == spec_at_most(
                spec_matching(self.spec_traces(), *request),
                match request.limit {
                    Some(l) => if l < self.spec_capacity() {
                        l as int
                    } else {
                        self.spec_capacity() as int
                    },
                    None => self.spec_capacity() as int,
                },
            ),
    {
        let limit = match request.limit {
            Some(l) => if l < self.capacity {
                l
            } else {
                self.capacity
            },
            None => self.capacity,
        };
        let mut out: Vec<&TraceEntry<P>> = Vec::new();
        let n = self.traces.len();
        let mut i: usize = 0;
        proof {
            let empty = self.traces@.subrange(0, 0);
            assert(empty.len() == 0);
            assert(spec_matching(empty, *request) =~= Seq::<TraceEntry<P>>::empty());
            assert(spec_entries(out@) =~= Seq::<TraceEntry<P>>::empty());
        }
        while i < n
            invariant
                n == self.traces@.len(),
                i <= n,
                spec_entries(out@) == spec_at_most(
                    spec_matching(self.traces@.subrange(0, i as int), *request),
                    limit as int,
                ),
                out@.len() <= limit,
            decreases n - i,
        {
            let entry = &self.traces[i];
            let ghost prefix = self.traces@.subrange(0, i + 1);
            let ghost m = spec_matching(self.traces@.subrange(0, i as int), *request);
            assert(prefix.drop_last() =~= self.traces@.subrange(0, i as int));
            assert(prefix.last() == *entry);
            assert(prefix.len() > 0);
            let keep = trace_matches(entry, request);
            if keep {
                assert(spec_matching(prefix, *request) == m.push(*entry));
                if out.len() < limit {
                    let ghost before = out@;
                    out.push(entry);
                    assert(spec_entries(out@) =~= spec_entries(before).push(*entry));
                    assert(m.len() < limit);
                    assert(spec_at_most(m, limit as int) == m);
                    assert(spec_at_most(m.push(*entry), limit as int) == m.push(*entry));
                } else {
                    assert(m.len() >= limit);
                    assert(spec_at_most(m.push(*entry), limit as int) =~= spec_at_most(
                        m,
                        limit as int,
                    ));
                }
            } else {
                assert(spec_matching(prefix, *request) == m);
            }
            i += 1;
        }
        assert(self.traces@.subrange(0, n as int) =~= self.traces@);
        out
    }

    /// The newest stored trace with id `trace_id`.
    pub fn get(&self, trace_id: &str) -> (r: Option<&TraceEntry<P>>)
        ensures
            match r {
                Some(e) => exists|i: int|
                    0 <= i < self.spec_traces().len() && self.spec_traces()[i] == *e
                        && e.trace_id@ == trace_id@ && forall|j: int|
                        0 <= j < i ==> (#[trigger] self.spec_traces()[j]).trace_id@ != trace_id@,
                None => forall|j: int|
                    0 <= j < self.spec_traces().len() ==> (
                    #[trigger] self.spec_traces()[j]).trace_id@ != trace_id@,
            },
    {
        let n = self.traces.len();
        let mut i: usize = 0;
        while i < n
            invariant
                n == self.traces@.len(),
                i <= n,
                forall|j: int| 0 <= j < i ==> (#[trigger] self.traces@[j]).trace_id@ != trace_id@,
            decreases n - i,
        {
            let entry = &self.traces[i];
            if text_eq(entry.trace_id.as_str(), trace_id) {
                return Some(entry);
            }
            i += 1;
        }
        None
    }

    /// How many traces are stored, the capacity, how many were dropped, and
    /// the start times of the oldest and newest stored traces.
    pub fn snapshot(&self) -> (r: TraceRegistrySnapshot)
        ensures
            r.stored_traces == self.spec_traces().len(),
            r.trace_capacity == self.spec_capacity(),
            r.evicted_traces == self.spec_evicted(),
            r.oldest_started_at_unix_ms == if self.spec_traces().len() == 0 {
                None
            } else {
                Some(self.spec_traces().last().started_at_unix_ms)
            },
            r.newest_started_at_unix_ms == if self.spec_traces().len() == 0 {
                None
            } else {
                Some(self.spec_traces()[0].started_at_unix_ms)
            },
    {
        let n = self.traces.len();
        TraceRegistrySnapshot {
            stored_traces: n as u64,
            trace_capacity: self.capacity as u64,
            evicted_traces: self.evicted,
            oldest_started_at_unix_ms: if n == 0 {
                None
            } else {
                Some(self.traces[n - 1].started_at_unix_ms)
            },
            newest_started_at_unix_ms: if n == 0 {
                None
            } else {
                Some(self.traces[0].started_at_unix_ms)
            },
        }
    }
}

/// Every trace a list returns meets each filter of the request, and a list
/// never holds more traces than are stored.
pub proof fn lemma_listed_traces_match<P>(entries: Seq<TraceEntry<P>>, request: TraceListRequest)
    ensures
        spec_matching(entries, request).len() <= entries.len(),
        forall|i: int|
            0 <= i < spec_matching(entries, request).len() ==> spec_trace_matches(
                #[trigger] spec_matching(entries, request)[i],
                request,
            ),
    decreases entries.len(),
{
    if entries.len() > 0 {
        lemma_listed_traces_match(entries.drop_last(), request);
    }
}

/// Right after a trace is recorded it is the newest stored trace, and the
/// registry holds at least one and at most `capacity` traces.
pub proof fn lemma_recorded_trace_is_newest<P>(
    before: Seq<TraceEntry<P>>,
    entry: TraceEntry<P>,
    capacity: int,
)
    requires
        capacity >= 1,
    ensures
        spec_at_most(seq![entry] + before, capacity).len() >= 1,
        spec_at_most(seq![entry] + before, capacity).len() <= capacity,
        spec_at_most(seq![entry] + before, capacity)[0] == entry,
{
}

fn trace_matches<P>(entry: &TraceEntry<P>, request: &TraceListRequest) -> (r: bool)
    ensures
        r == spec_trace_matches(*entry, *request),
{
    let tenant_ok = match &request.tenant_id {
        Some(t) => match &entry.tenant_id {
            Some(v) => text_eq(v.as_str(), t.as_str()),
            None => false,
        },
        None => true,
    };
    let namespace_ok = match &request.namespace {
        Some(ns) => match &entry.namespace {
            Some(v) => text_eq(v.as_str(), ns.as_str()),
            None => false,
        },
        None => true,
    };
    let operation_ok = match request.operation {
        Some(op) => entry.operation == op,
        None => true,
    };
    let status_ok = match request.status {
        Some(st) => entry.status == st,
        None => true,
    };
    let before_ok = match request.before_started_at_unix_ms {
        Some(before) => entry.started_at_unix_ms <= before,
        None => true,
    };
    tenant_ok && namespace_ok && operation_ok && status_ok && before_ok
}

/// The system clock's type, carried through opaquely.
#[verifier::external_type_specification]
#[verifier::external_body]
pub struct ExSystemTime(std::time::SystemTime);

/// Calls `std::time::SystemTime::now`. The current time depends on the
/// machine, so nothing is claimed of it.
#[verifier::external_body]
fn system_time_now() -> (r: std::time::SystemTime) {
    std::time::SystemTime::now()
}

/// Calls `std::time::SystemTime::duration_since` with the Unix epoch; `None`
/// stands for its error, a time before the epoch. Nothing is claimed of the
/// duration.
#[verifier::external_body]
fn since_unix_epoch(time: &std::time::SystemTime) -> (r: Option<std::time::Duration>) {
    time.duration_since(std::time::UNIX_EPOCH).ok()
}

/// Calls `std::time::Duration::as_millis`: the whole milliseconds of the
/// duration. Nothing is claimed of the value, which rests on the clock.
#[verifier::external_body]
fn duration_millis(duration: &std::time::Duration) -> (r: u128) {
    duration.as_millis()
}

/// The milliseconds a clock reading stands for: its whole milliseconds since
/// the Unix epoch truncated to 64 bits, or zero for a reading before the
/// epoch (`None`).
pub fn unix_ms_from_reading(reading: Option<u128>) -> (r: u64)
    ensures
        r == match reading {
            Some(ms) => (ms % 0x1_0000_0000_0000_0000) as u64,
            None => 0,
        },
{
    match reading {
        Some(ms) => {
            let low: u128 = ms % 0x1_0000_0000_0000_0000;
            low as u64
        },
        None => 0,
    }
}

/// Milliseconds since the Unix epoch by the system clock (truncated to 64
/// bits), or zero when the clock reads a time before the epoch: the clock's
/// reading, whatever it is, mapped by `unix_ms_from_reading`.
pub fn now_unix_ms() -> (r: u64) {
    let now = system_time_now();
    let reading = match since_unix_epoch(&now) {
        Some(duration) => Some(duration_millis(&duration)),
        None => None,
    };
    unix_ms_from_reading(reading)
}

} // verus!
