//! Admission control: per-class request queues with a bound on how many
//! requests may wait, and a bound on how many admitted requests one tenant may
//! hold at once.
//!
//! The controller here keeps the bookkeeping and makes every decision; the
//! server pairs it with one semaphore per class and a wait timeout, and reports
//! back whether a permit was granted in time.

use vstd::prelude::*;
use crate::text::text_eq;

verus! {

/// The kind of work a request does, each with its own queue and permits.
#[derive(Debug, Clone, Copy, PartialEq, Eq, Structural)]
pub enum AdmissionClass {
    Read,
    Write,
    Admin,
}

/// Why a request was not admitted.
#[derive(Debug, Clone, Copy, PartialEq, Eq, Structural)]
pub enum AdmissionError {
    QueueFull,
    TimedOut,
    TenantBusy,
}

/// The limits a controller enforces.
#[derive(Debug, Clone, Copy, PartialEq, Eq, Structural)]
pub struct AdmissionConfig {
    pub max_inflight_reads: usize,
    pub max_inflight_writes: usize,
    pub max_inflight_admin: usize,
    pub max_queued_requests: usize,
    pub max_tenant_inflight: usize,
    pub queue_wait_timeout_ms: u64,
}

/// How many requests of the class may run at once (at least one).
pub open spec fn spec_permits(config: AdmissionConfig, class: AdmissionClass) -> usize {
    let configured = match class {
        AdmissionClass::Read => config.max_inflight_reads,
        AdmissionClass::Write => config.max_inflight_writes,
        AdmissionClass::Admin => config.max_inflight_admin,
    };
    if configured == 0 {
        1
    } else {
        configured
    }
}

impl AdmissionConfig {
    /// The number of permits the semaphore of a class is created with: the
    /// configured limit, and at least one.
    pub fn permits_for(&self, class: AdmissionClass) -> (r: usize)
        ensures
            r == spec_permits(*self, class),
            r >= 1,
    {
        let configured = match class {
            AdmissionClass::Read => self.max_inflight_reads,
            AdmissionClass::Write => self.max_inflight_writes,
            AdmissionClass::Admin => self.max_inflight_admin,
        };
        if configured == 0 {
            1
        } else {
            configured
        }
    }

    /// How long a queued request waits for a permit, in milliseconds: the
    /// configured timeout, and at least one.
    pub fn queue_wait_timeout(&self) -> (r: u64)
        ensures
            r == if self.queue_wait_timeout_ms == 0 {
                1
            } else {
                self.queue_wait_timeout_ms
            },
    {
        if self.queue_wait_timeout_ms == 0 {
            1
        } else {
            self.queue_wait_timeout_ms
        }
    }
}

/// How many admitted requests a tenant holds.
pub struct TenantInflight {
    pub tenant_id: String,
    pub inflight: u64,
}

/// A point-in-time report of the controller's limits, queues and load.
pub struct RuntimeAdmissionStatus {
    pub max_inflight_reads: u64,
    pub max_inflight_writes: u64,
    pub max_inflight_admin: u64,
    pub max_queued_requests: u64,
    pub max_tenant_inflight: u64,
    pub queued_total: u64,
    pub inflight_total: u64,
    pub queued_reads: u64,
    pub queued_writes: u64,
    pub queued_admin: u64,
    pub inflight_reads: u64,
    pub inflight_writes: u64,
    pub inflight_admin: u64,
    pub tenant_inflight: Vec<TenantInflight>,
    pub queue_wait_timeout_ms: u64,
    pub average_queue_wait_ms: u64,
    pub max_queue_wait_ms: u64,
    pub oldest_queue_wait_ms: u64,
    pub oldest_read_queue_wait_ms: u64,
    pub oldest_write_queue_wait_ms: u64,
    pub oldest_admin_queue_wait_ms: u64,
    pub fair_queue_policy: String,
}

/// The controller's bookkeeping as mathematical values.
pub struct AdmissionModel {
    pub queued_total: u64,
    pub inflight_total: u64,
    pub queued_reads: u64,
    pub queued_writes: u64,
    pub queued_admin: u64,
    pub inflight_reads: u64,
    pub inflight_writes: u64,
    pub inflight_admin: u64,
    /// Admitted requests per tenant; a tenant with none is absent.
    pub tenant_inflight: Map<Seq<char>, u64>,
    /// When each queued request of a class was enqueued, oldest first.
    pub queued_read_since: Seq<u64>,
    pub queued_write_since: Seq<u64>,
    pub queued_admin_since: Seq<u64>,
    pub total_queue_wait_ms: u64,
    pub completed_queue_waits: u64,
    pub max_queue_wait_ms: u64,
}

/// Whether no tenant occurs twice.
pub open spec fn spec_distinct_tenants(loads: Seq<TenantInflight>) -> bool {
    forall|i: int, j: int|
        0 <= i < j < loads.len() ==> (#[trigger] loads[i]).tenant_id@ != (#[trigger] loads[j]).tenant_id@
}

/// The per-tenant load a list of entries stands for.
pub open spec fn spec_tenant_map(loads: Seq<TenantInflight>) -> Map<Seq<char>, u64> {
    Map::new(
        |k: Seq<char>| exists|i: int| 0 <= i < loads.len() && (#[trigger] loads[i]).tenant_id@ == k,
        |k: Seq<char>|
            loads[choose|i: int| 0 <= i < loads.len() && (#[trigger] loads[i]).tenant_id@ == k].inflight,
    )
}

/// The load of `tenant`: zero when it holds nothing.
pub open spec fn spec_load(tenants: Map<Seq<char>, u64>, tenant: Seq<char>) -> u64 {
    if tenants.dom().contains(tenant) {
        tenants[tenant]
    } else {
        0
    }
}

proof fn lemma_tenant_at(loads: Seq<TenantInflight>, i: int)
    requires
        spec_distinct_tenants(loads),
        0 <= i < loads.len(),
    ensures
        spec_tenant_map(loads).dom().contains(loads[i].tenant_id@),
        spec_tenant_map(loads)[loads[i].tenant_id@] == loads[i].inflight,
{
    let k = loads[i].tenant_id@;
    assert(0 <= i < loads.len() && loads[i].tenant_id@ == k);
    let j = choose|j: int| 0 <= j < loads.len() && (#[trigger] loads[j]).tenant_id@ == k;
    if j != i {
        if j < i {
            assert(loads[j].tenant_id@ != loads[i].tenant_id@);
        } else {
            assert(loads[i].tenant_id@ != loads[j].tenant_id@);
        }
    }
}

proof fn lemma_tenant_absent(loads: Seq<TenantInflight>, k: Seq<char>)
    requires
        forall|j: int| 0 <= j < loads.len() ==> (#[trigger] loads[j]).tenant_id@ != k,
    ensures
        !spec_tenant_map(loads).dom().contains(k),
{
}

proof fn lemma_tenant_map_update(loads: Seq<TenantInflight>, i: int, entry: TenantInflight)
    requires
        spec_distinct_tenants(loads),
        0 <= i < loads.len(),
        entry.tenant_id@ == loads[i].tenant_id@,
    ensures
        spec_distinct_tenants(loads.update(i, entry)),
        spec_tenant_map(loads.update(i, entry)) =~= spec_tenant_map(loads).insert(
            entry.tenant_id@,
            entry.inflight,
        ),
{
    let after = loads.update(i, entry);
    assert forall|a: int, b: int| 0 <= a < b < after.len() implies (#[trigger] after[a]).tenant_id@
        != (#[trigger] after[b]).tenant_id@ by {
        assert(loads[a].tenant_id@ != loads[b].tenant_id@);
    }
    let left = spec_tenant_map(after);
    let right = spec_tenant_map(loads).insert(entry.tenant_id@, entry.inflight);
    assert forall|k: Seq<char>| left.dom().contains(k) <==> right.dom().contains(k) by {
        if left.dom().contains(k) {
            let j = choose|j: int| 0 <= j < after.len() && (#[trigger] after[j]).tenant_id@ == k;
            if j != i {
                assert(loads[j].tenant_id@ == k);
            }
        }
        if right.dom().contains(k) && k != entry.tenant_id@ {
            let j = choose|j: int| 0 <= j < loads.len() && (#[trigger] loads[j]).tenant_id@ == k;
            assert(after[j].tenant_id@ == k);
        }
        if k == entry.tenant_id@ {
            assert(after[i].tenant_id@ == k);
        }
    }
    assert forall|k: Seq<char>| #[trigger] left.dom().contains(k) implies left[k] == right[k] by {
        let j = choose|j: int| 0 <= j < after.len() && (#[trigger] after[j]).tenant_id@ == k;
        lemma_tenant_at(after, j);
        if j != i {
            assert(loads[j] == after[j]);
            lemma_tenant_at(loads, j);
        }
    }
}

proof fn lemma_tenant_map_push(loads: Seq<TenantInflight>, entry: TenantInflight)
    requires
        spec_distinct_tenants(loads),
        forall|j: int| 0 <= j < loads.len() ==> (#[trigger] loads[j]).tenant_id@ != entry.tenant_id@,
    ensures
        spec_distinct_tenants(loads.push(entry)),
        spec_tenant_map(loads.push(entry)) =~= spec_tenant_map(loads).insert(
            entry.tenant_id@,
            entry.inflight,
        ),
{
    let after = loads.push(entry);
    assert forall|a: int, b: int| 0 <= a < b < after.len() implies (#[trigger] after[a]).tenant_id@
        != (#[trigger] after[b]).tenant_id@ by {
        if b < loads.len() {
            assert(loads[a].tenant_id@ != loads[b].tenant_id@);
        } else {
            assert(loads[a].tenant_id@ != entry.tenant_id@);
        }
    }
    let left = spec_tenant_map(after);
    let right = spec_tenant_map(loads).insert(entry.tenant_id@, entry.inflight);
    assert forall|k: Seq<char>| left.dom().contains(k) <==> right.dom().contains(k) by {
        if left.dom().contains(k) {
            let j = choose|j: int| 0 <= j < after.len() && (#[trigger] after[j]).tenant_id@ == k;
            if j < loads.len() {
                assert(loads[j].tenant_id@ == k);
            }
        }
        if right.dom().contains(k) && k != entry.tenant_id@ {
            let j = choose|j: int| 0 <= j < loads.len() && (#[trigger] loads[j]).tenant_id@ == k;
            assert(after[j].tenant_id@ == k);
        }
        if k == entry.tenant_id@ {
            assert(after[loads.len() as int].tenant_id@ == k);
        }
    }
    assert forall|k: Seq<char>| #[trigger] left.dom().contains(k) implies left[k] == right[k] by {
        let j = choose|j: int| 0 <= j < after.len() && (#[trigger] after[j]).tenant_id@ == k;
        lemma_tenant_at(after, j);
        if j < loads.len() {
            assert(loads[j] == after[j]);
            lemma_tenant_at(loads, j);
        }
    }
}

proof fn lemma_tenant_map_remove(loads: Seq<TenantInflight>, i: int)
    requires
        spec_distinct_tenants(loads),
        0 <= i < loads.len(),
    ensures
        spec_distinct_tenants(loads.remove(i)),
        spec_tenant_map(loads.remove(i)) =~= spec_tenant_map(loads).remove(loads[i].tenant_id@),
{
    let after = loads.remove(i);
    let gone = loads[i].tenant_id@;
    assert forall|a: int, b: int| 0 <= a < b < after.len() implies (#[trigger] after[a]).tenant_id@
        != (#[trigger] after[b]).tenant_id@ by {
        let a0 = if a < i { a } else { a + 1 };
        let b0 = if b < i { b } else { b + 1 };
        assert(after[a] == loads[a0]);
        assert(after[b] == loads[b0]);
        assert(loads[a0].tenant_id@ != loads[b0].tenant_id@);
    }
    let left = spec_tenant_map(after);
    let right = spec_tenant_map(loads).remove(gone);
    assert forall|k: Seq<char>| left.dom().contains(k) <==> right.dom().contains(k) by {
        if left.dom().contains(k) {
            let j = choose|j: int| 0 <= j < after.len() && (#[trigger] after[j]).tenant_id@ == k;
            let j0 = if j < i { j } else { j + 1 };
            assert(after[j] == loads[j0]);
            assert(loads[j0].tenant_id@ == k);
            if k == gone {
                if j0 < i {
                    assert(loads[j0].tenant_id@ != loads[i].tenant_id@);
                } else {
                    assert(loads[i].tenant_id@ != loads[j0].tenant_id@);
                }
            }
        }
        if right.dom().contains(k) {
            let j = choose|j: int| 0 <= j < loads.len() && (#[trigger] loads[j]).tenant_id@ == k;
            assert(j != i);
            let j1 = if j < i { j } else { j - 1 };
            assert(after[j1] == loads[j]);
            assert(after[j1].tenant_id@ == k);
        }
    }
    assert forall|k: Seq<char>| #[trigger] left.dom().contains(k) implies left[k] == right[k] by {
        let j = choose|j: int| 0 <= j < after.len() && (#[trigger] after[j]).tenant_id@ == k;
        lemma_tenant_at(after, j);
        let j0 = if j < i { j } else { j + 1 };
        assert(after[j] == loads[j0]);
        lemma_tenant_at(loads, j0);
    }
}

/// How long the oldest request of a queue has waited at time `now` (zero
/// for an empty queue).
pub open spec fn spec_oldest_wait(queue: Seq<u64>, now: u64) -> u64 {
    if queue.len() > 0 {
        now.saturating_sub(queue[0])
    } else {
        0
    }
}

/// The largest of three numbers.
pub open spec fn spec_max3(a: u64, b: u64, c: u64) -> u64 {
    let ab = if b > a {
        b
    } else {
        a
    };
    if c > ab {
        c
    } else {
        ab
    }
}

fn oldest_wait(queue: &Vec<u64>, now: u64) -> (r: u64)
    ensures
        r == spec_oldest_wait(queue@, now),
{
    if queue.len() > 0 {
        now.saturating_sub(queue[0])
    } else {
        0
    }
}

fn copy_loads(loads: &Vec<TenantInflight>) -> (r: Vec<TenantInflight>)
    ensures
        r@ == loads@,
{
    let mut out: Vec<TenantInflight> = Vec::new();
    let n = loads.len();
    let mut i: usize = 0;
    while i < n
        invariant
            n == loads@.len(),
            i <= n,
            out@ == loads@.subrange(0, i as int),
        decreases n - i,
    {
        let entry = TenantInflight {
            tenant_id: loads[i].tenant_id.clone(),
            inflight: loads[i].inflight,
        };
        out.push(entry);
        assert(out@ =~= loads@.subrange(0, i + 1));
        i += 1;
    }
    assert(out@ =~= loads@);
    out
}

/// The position of `tenant` in the list, if it is there.
fn find_tenant(loads: &Vec<TenantInflight>, tenant: &str) -> (r: Option<usize>)
    ensures
        match r {
            Some(i) => i < loads@.len() && loads@[i as int].tenant_id@ == tenant@,
            None => forall|j: int|
                0 <= j < loads@.len() ==> (#[trigger] loads@[j]).tenant_id@ != tenant@,
        },
{
    let n = loads.len();
    let mut i: usize = 0;
    while i < n
        invariant
            n == loads@.len(),
            i <= n,
            forall|j: int| 0 <= j < i ==> (#[trigger] loads@[j]).tenant_id@ != tenant@,
        decreases n - i,
    {
        if text_eq(loads[i].tenant_id.as_str(), tenant) {
            return Some(i);
        }
        i += 1;
    }
    None
}


/// One less, and never below zero.
pub open spec fn spec_sat_dec(x: u64) -> u64 {
    if x == 0 {
        0
    } else {
        (x - 1) as u64
    }
}

/// The bookkeeping of a controller that has seen nothing yet.
pub open spec fn spec_empty_model() -> AdmissionModel {
    AdmissionModel {
        queued_total: 0,
        inflight_total: 0,
        queued_reads: 0,
        queued_writes: 0,
        queued_admin: 0,
        inflight_reads: 0,
        inflight_writes: 0,
        inflight_admin: 0,
        tenant_inflight: Map::empty(),
        queued_read_since: seq![],
        queued_write_since: seq![],
        queued_admin_since: seq![],
        total_queue_wait_ms: 0,
        completed_queue_waits: 0,
        max_queue_wait_ms: 0,
    }
}

/// What holds of the bookkeeping of every controller: the queues never hold
/// more than `max_queued_requests` requests together, the class counts add
/// up to the totals and agree with the queues, and every tenant present holds
/// at least one and at most `max_tenant_inflight` admitted requests.
pub open spec fn spec_model_valid(config: AdmissionConfig, m: AdmissionModel) -> bool {
    &&& m.queued_total <= config.max_queued_requests
    &&& m.queued_reads == m.queued_read_since.len()
    &&& m.queued_writes == m.queued_write_since.len()
    &&& m.queued_admin == m.queued_admin_since.len()
    &&& m.queued_reads + m.queued_writes + m.queued_admin == m.queued_total
    &&& m.inflight_reads + m.inflight_writes + m.inflight_admin == m.inflight_total
    &&& forall|k: Seq<char>|
        #[trigger] m.tenant_inflight.dom().contains(k) ==> 1 <= m.tenant_inflight[k]
            <= config.max_tenant_inflight
}

/// How many admitted requests of a class are running.
pub open spec fn spec_inflight_of(m: AdmissionModel, class: AdmissionClass) -> u64 {
    match class {
        AdmissionClass::Read => m.inflight_reads,
        AdmissionClass::Write => m.inflight_writes,
        AdmissionClass::Admin => m.inflight_admin,
    }
}

/// A request of `class` joins the back of its queue at time `now`.
pub open spec fn spec_enqueue(m: AdmissionModel, class: AdmissionClass, now: u64) -> AdmissionModel {
    AdmissionModel {
        queued_total: (m.queued_total + 1) as u64,
        queued_reads: if class == AdmissionClass::Read {
            (m.queued_reads + 1) as u64
        } else {
            m.queued_reads
        },
        queued_writes: if class == AdmissionClass::Write {
            (m.queued_writes + 1) as u64
        } else {
            m.queued_writes
        },
        queued_admin: if class == AdmissionClass::Admin {
            (m.queued_admin + 1) as u64
        } else {
            m.queued_admin
        },
        queued_read_since: if class == AdmissionClass::Read {
            m.queued_read_since.push(now)
        } else {
            m.queued_read_since
        },
        queued_write_since: if class == AdmissionClass::Write {
            m.queued_write_since.push(now)
        } else {
            m.queued_write_since
        },
        queued_admin_since: if class == AdmissionClass::Admin {
            m.queued_admin_since.push(now)
        } else {
            m.queued_admin_since
        },
        ..m
    }
}

/// The queue of a class, oldest first.
pub open spec fn spec_queue_of(m: AdmissionModel, class: AdmissionClass) -> Seq<u64> {
    match class {
        AdmissionClass::Read => m.queued_read_since,
        AdmissionClass::Write => m.queued_write_since,
        AdmissionClass::Admin => m.queued_admin_since,
    }
}

/// The oldest request of `class` leaves its queue at time `now`; its wait
/// joins the statistics (sums and counts saturate at the largest `u64`).
pub open spec fn spec_release_queue(m: AdmissionModel, class: AdmissionClass, now: u64) -> AdmissionModel {
    let queue = spec_queue_of(m, class);
    let rest = if queue.len() > 0 {
        queue.subrange(1, queue.len() as int)
    } else {
        queue
    };
    let waited = now.saturating_sub(queue[0]);
    AdmissionModel {
        queued_total: spec_sat_dec(m.queued_total),
        queued_reads: if class == AdmissionClass::Read {
            spec_sat_dec(m.queued_reads)
        } else {
            m.queued_reads
        },
        queued_writes: if class == AdmissionClass::Write {
            spec_sat_dec(m.queued_writes)
        } else {
            m.queued_writes
        },
        queued_admin: if class == AdmissionClass::Admin {
            spec_sat_dec(m.queued_admin)
        } else {
            m.queued_admin
        },
        queued_read_since: if class == AdmissionClass::Read {
            rest
        } else {
            m.queued_read_since
        },
        queued_write_since: if class == AdmissionClass::Write {
            rest
        } else {
            m.queued_write_since
        },
        queued_admin_since: if class == AdmissionClass::Admin {
            rest
        } else {
            m.queued_admin_since
        },
        total_queue_wait_ms: if queue.len() > 0 {
            m.total_queue_wait_ms.saturating_add(waited)
        } else {
            m.total_queue_wait_ms
        },
        completed_queue_waits: if queue.len() > 0 {
            m.completed_queue_waits.saturating_add(1)
        } else {
            m.completed_queue_waits
        },
        max_queue_wait_ms: if queue.len() > 0 && waited > m.max_queue_wait_ms {
            waited
        } else {
            m.max_queue_wait_ms
        },
        ..m
    }
}

/// Whether `tenant` already holds as many admitted requests as allowed.
pub open spec fn spec_tenant_busy(
    config: AdmissionConfig,
    m: AdmissionModel,
    tenant: Option<Seq<char>>,
) -> bool {
    match tenant {
        Some(t) => spec_load(m.tenant_inflight, t) >= config.max_tenant_inflight,
        None => false,
    }
}

/// A request of `class` (for `tenant`, if any) is admitted.
pub open spec fn spec_admit(
    m: AdmissionModel,
    class: AdmissionClass,
    tenant: Option<Seq<char>>,
) -> AdmissionModel {
    AdmissionModel {
        inflight_total: (m.inflight_total + 1) as u64,
        inflight_reads: if class == AdmissionClass::Read {
            (m.inflight_reads + 1) as u64
        } else {
            m.inflight_reads
        },
        inflight_writes: if class == AdmissionClass::Write {
            (m.inflight_writes + 1) as u64
        } else {
            m.inflight_writes
        },
        inflight_admin: if class == AdmissionClass::Admin {
            (m.inflight_admin + 1) as u64
        } else {
            m.inflight_admin
        },
        tenant_inflight: match tenant {
            Some(t) => m.tenant_inflight.insert(t, (spec_load(m.tenant_inflight, t) + 1) as u64),
            None => m.tenant_inflight,
        },
        ..m
    }
}

/// An admitted request of `class` (for `tenant`, if any) finishes; counts
/// never go below zero, and a tenant left with nothing is dropped.
pub open spec fn spec_release(
    m: AdmissionModel,
    class: AdmissionClass,
    tenant: Option<Seq<char>>,
) -> AdmissionModel {
    AdmissionModel {
        inflight_total: spec_sat_dec(m.inflight_total),
        inflight_reads: if class == AdmissionClass::Read {
            spec_sat_dec(m.inflight_reads)
        } else {
            m.inflight_reads
        },
        inflight_writes: if class == AdmissionClass::Write {
            spec_sat_dec(m.inflight_writes)
        } else {
            m.inflight_writes
        },
        inflight_admin: if class == AdmissionClass::Admin {
            spec_sat_dec(m.inflight_admin)
        } else {
            m.inflight_admin
        },
        tenant_inflight: match tenant {
            Some(t) => {
                let current = if m.tenant_inflight.dom().contains(t) {
                    m.tenant_inflight[t]
                } else {
                    1
                };
                if current <= 1 {
                    m.tenant_inflight.remove(t)
                } else {
                    m.tenant_inflight.insert(t, (current - 1) as u64)
                }
            },
            None => m.tenant_inflight,
        },
        ..m
    }
}

/// A controller that has seen nothing is valid for any limits.
pub proof fn lemma_empty_model_valid(config: AdmissionConfig)
    ensures
        spec_model_valid(config, spec_empty_model()),
{
}

/// Enqueueing keeps the bookkeeping valid: a request joins only while fewer
/// than `max_queued_requests` wait, so the queue never grows past that bound.
pub proof fn lemma_enqueue_keeps_valid(
    config: AdmissionConfig,
    m: AdmissionModel,
    class: AdmissionClass,
    now: u64,
)
    requires
        spec_model_valid(config, m),
        m.queued_total < config.max_queued_requests,
    ensures
        spec_model_valid(config, spec_enqueue(m, class, now)),
        spec_enqueue(m, class, now).queued_total <= config.max_queued_requests,
{
    let after = spec_enqueue(m, class, now);
    assert(after.tenant_inflight == m.tenant_inflight);
}

/// Leaving a queue keeps the bookkeeping valid.
pub proof fn lemma_release_queue_keeps_valid(
    config: AdmissionConfig,
    m: AdmissionModel,
    class: AdmissionClass,
    now: u64,
)
    requires
        spec_model_valid(config, m),
        spec_queue_of(m, class).len() > 0,
    ensures
        spec_model_valid(config, spec_release_queue(m, class, now)),
{
    let after = spec_release_queue(m, class, now);
    assert(after.tenant_inflight == m.tenant_inflight);
}

/// Admitting a request whose tenant is not busy keeps the bookkeeping valid:
/// no tenant ever holds more than `max_tenant_inflight` admitted requests.
pub proof fn lemma_admit_keeps_valid(
    config: AdmissionConfig,
    m: AdmissionModel,
    class: AdmissionClass,
    tenant: Option<Seq<char>>,
)
    requires
        spec_model_valid(config, m),
        m.inflight_total < u64::MAX,
        !spec_tenant_busy(config, m, tenant),
    ensures
        spec_model_valid(config, spec_admit(m, class, tenant)),
{
    let after = spec_admit(m, class, tenant);
    assert forall|k: Seq<char>| #[trigger] after.tenant_inflight.dom().contains(k) implies 1
        <= after.tenant_inflight[k] <= config.max_tenant_inflight by {
        match tenant {
            Some(t) => {
                if k != t {
                    assert(m.tenant_inflight.dom().contains(k));
                }
            },
            None => {
                assert(m.tenant_inflight.dom().contains(k));
            },
        }
    }
}

/// A request finishing keeps the bookkeeping valid.
pub proof fn lemma_release_keeps_valid(
    config: AdmissionConfig,
    m: AdmissionModel,
    class: AdmissionClass,
    tenant: Option<Seq<char>>,
)
    requires
        spec_model_valid(config, m),
        spec_inflight_of(m, class) > 0,
    ensures
        spec_model_valid(config, spec_release(m, class, tenant)),
{
    let after = spec_release(m, class, tenant);
    assert forall|k: Seq<char>| #[trigger] after.tenant_inflight.dom().contains(k) implies 1
        <= after.tenant_inflight[k] <= config.max_tenant_inflight by {
        match tenant {
            Some(t) => {
                assert(m.tenant_inflight.dom().contains(k));
            },
            None => {
                assert(m.tenant_inflight.dom().contains(k));
            },
        }
    }
}

/// A request that is admitted and then finishes leaves the bookkeeping as it
/// found it: counts per class, the total, and every tenant's load.
pub proof fn lemma_release_undoes_admit(
    config: AdmissionConfig,
    m: AdmissionModel,
    class: AdmissionClass,
    tenant: Option<Seq<char>>,
)
    requires
        spec_model_valid(config, m),
        m.inflight_total < u64::MAX,
        !spec_tenant_busy(config, m, tenant),
    ensures
        spec_release(spec_admit(m, class, tenant), class, tenant) == m,
{
    let after = spec_release(spec_admit(m, class, tenant), class, tenant);
    match tenant {
        Some(t) => {
            assert(after.tenant_inflight =~= m.tenant_inflight);
        },
        None => {},
    }
}

/// A request that joins a queue and then leaves it restores every queue
/// count, and the queue of its class loses its oldest entry: a queue is
/// first in, first out.
pub proof fn lemma_release_queue_after_enqueue(
    config: AdmissionConfig,
    m: AdmissionModel,
    class: AdmissionClass,
    enqueued_at: u64,
    now: u64,
)
    requires
        spec_model_valid(config, m),
        m.queued_total < config.max_queued_requests,
    ensures
        ({
            let after = spec_release_queue(spec_enqueue(m, class, enqueued_at), class, now);
            let queue = spec_queue_of(m, class).push(enqueued_at);
            &&& after.queued_total == m.queued_total
            &&& after.queued_reads == m.queued_reads
            &&& after.queued_writes == m.queued_writes
            &&& after.queued_admin == m.queued_admin
            &&& spec_queue_of(after, class) == queue.subrange(1, queue.len() as int)
            &&& after.completed_queue_waits == m.completed_queue_waits.saturating_add(1)
            &&& spec_queue_of(m, class).len() == 0 ==> spec_queue_of(after, class)
                =~= spec_queue_of(m, class)
        }),
{
    let mid = spec_enqueue(m, class, enqueued_at);
    assert(spec_queue_of(mid, class) == spec_queue_of(m, class).push(enqueued_at));
}

/// The text form of an optional tenant id.
pub open spec fn spec_tenant_view(tenant: Option<&str>) -> Option<Seq<char>> {
    match tenant {
        Some(t) => Some(t@),
        None => None,
    }
}

/// The bookkeeping of an admission controller: queues per class, admitted
/// requests per class and per tenant, and queue wait statistics.
pub struct AdmissionController {
    config: AdmissionConfig,
    queued_total: u64,
    inflight_total: u64,
    queued_reads: u64,
    queued_writes: u64,
    queued_admin: u64,
    inflight_reads: u64,
    inflight_writes: u64,
    inflight_admin: u64,
    tenant_inflight: Vec<TenantInflight>,
    queued_read_since: Vec<u64>,
    queued_write_since: Vec<u64>,
    queued_admin_since: Vec<u64>,
    total_queue_wait_ms: u64,
    completed_queue_waits: u64,
    max_queue_wait_ms: u64,
}

impl View for AdmissionController {
    type V = AdmissionModel;

    closed spec fn view(&self) -> AdmissionModel {
        AdmissionModel {
            queued_total: self.queued_total,
            inflight_total: self.inflight_total,
            queued_reads: self.queued_reads,
            queued_writes: self.queued_writes,
            queued_admin: self.queued_admin,
            inflight_reads: self.inflight_reads,
            inflight_writes: self.inflight_writes,
            inflight_admin: self.inflight_admin,
            tenant_inflight: spec_tenant_map(self.tenant_inflight@),
            queued_read_since: self.queued_read_since@,
            queued_write_since: self.queued_write_since@,
            queued_admin_since: self.queued_admin_since@,
            total_queue_wait_ms: self.total_queue_wait_ms,
            completed_queue_waits: self.completed_queue_waits,
            max_queue_wait_ms: self.max_queue_wait_ms,
        }
    }
}

impl AdmissionController {
    /// The limits the controller enforces.
    pub closed spec fn spec_config(&self) -> AdmissionConfig {
        self.config
    }

    /// The controller's representation is consistent and its bookkeeping is
    /// valid for its limits.
    pub closed spec fn well_formed(&self) -> bool {
        &&& spec_distinct_tenants(self.tenant_inflight@)
        &&& spec_model_valid(self.config, self@)
    }

    /// A controller with empty queues and nothing admitted.
    pub fn new(config: AdmissionConfig) -> (r: Self)
        ensures
            r.well_formed(),
            r.spec_config() == config,
            r@ == spec_empty_model(),
    {
        let r = AdmissionController {
            config,
            queued_total: 0,
            inflight_total: 0,
            queued_reads: 0,
            queued_writes: 0,
            queued_admin: 0,
            inflight_reads: 0,
            inflight_writes: 0,
            inflight_admin: 0,
            tenant_inflight: Vec::new(),
            queued_read_since: Vec::new(),
            queued_write_since: Vec::new(),
            queued_admin_since: Vec::new(),
            total_queue_wait_ms: 0,
            completed_queue_waits: 0,
            max_queue_wait_ms: 0,
        };
        assert(r@.tenant_inflight =~= Map::<Seq<char>, u64>::empty());
        assert(r@.queued_read_since =~= Seq::<u64>::empty());
        assert(r@.queued_write_since =~= Seq::<u64>::empty());
        assert(r@.queued_admin_since =~= Seq::<u64>::empty());
        r
    }

    /// Puts a request of `class` at the back of its queue at time `now`,
    /// unless `max_queued_requests` requests already wait.
    pub fn enqueue(&mut self, class: AdmissionClass, now: u64) -> (r: Result<(), AdmissionError>)
        requires
            old(self).well_formed(),
        ensures
            final(self).well_formed(),
            final(self).spec_config() == old(self).spec_config(),
            old(self)@.queued_total >= old(self).spec_config().max_queued_requests ==> r == Err::<
                (),
                AdmissionError,
            >(AdmissionError::QueueFull) && final(self)@ == old(self)@,
            old(self)@.queued_total < old(self).spec_config().max_queued_requests ==> r == Ok::<
                (),
                AdmissionError,
            >(()) && final(self)@ == spec_enqueue(old(self)@, class, now),
    {
        if self.queued_total >= self.config.max_queued_requests as u64 {
            return Err(AdmissionError::QueueFull);
        }
        proof {
            lemma_enqueue_keeps_valid(self.config, self@, class, now);
        }
        self.queued_total = self.queued_total + 1;
        match class {
            AdmissionClass::Read => {
                self.queued_reads = self.queued_reads + 1;
                self.queued_read_since.push(now);
            },
            AdmissionClass::Write => {
                self.queued_writes = self.queued_writes + 1;
                self.queued_write_since.push(now);
            },
            AdmissionClass::Admin => {
                self.queued_admin = self.queued_admin + 1;
                self.queued_admin_since.push(now);
            },
        }
        Ok(())
    }

    /// The oldest request of `class` leaves its queue at time `now`, and its
    /// wait is counted.
    pub fn release_queue(&mut self, class: AdmissionClass, now: u64)
        requires
            old(self).well_formed(),
            spec_queue_of(old(self)@, class).len() > 0,
        ensures
            final(self).well_formed(),
            final(self).spec_config() == old(self).spec_config(),
            final(self)@ == spec_release_queue(old(self)@, class, now),
    {
        let ghost before = self@;
        let started: Option<u64> = match class {
            AdmissionClass::Read => {
                self.queued_reads = self.queued_reads.saturating_sub(1);
                if self.queued_read_since.len() > 0 {
                    let ghost q = self.queued_read_since@;
                    let first = self.queued_read_since.remove(0);
                    assert(q.remove(0) =~= q.subrange(1, q.len() as int));
                    Some(first)
                } else {
                    None
                }
            },
            AdmissionClass::Write => {
                self.queued_writes = self.queued_writes.saturating_sub(1);
                if self.queued_write_since.len() > 0 {
                    let ghost q = self.queued_write_since@;
                    let first = self.queued_write_since.remove(0);
                    assert(q.remove(0) =~= q.subrange(1, q.len() as int));
                    Some(first)
                } else {
                    None
                }
            },
            AdmissionClass::Admin => {
                self.queued_admin = self.queued_admin.saturating_sub(1);
                if self.queued_admin_since.len() > 0 {
                    let ghost q = self.queued_admin_since@;
                    let first = self.queued_admin_since.remove(0);
                    assert(q.remove(0) =~= q.subrange(1, q.len() as int));
                    Some(first)
                } else {
                    None
                }
            },
        };
        self.queued_total = self.queued_total.saturating_sub(1);
        if let Some(started_at) = started {
            let waited = now.saturating_sub(started_at);
            self.total_queue_wait_ms = self.total_queue_wait_ms.saturating_add(waited);
            self.completed_queue_waits = self.completed_queue_waits.saturating_add(1);
            if waited > self.max_queue_wait_ms {
                self.max_queue_wait_ms = waited;
            }
        }
        assert(self@ == spec_release_queue(before, class, now));
        proof {
            lemma_release_queue_keeps_valid(self.config, before, class, now);
        }
    }

    /// Admits a request of `class` for `tenant` (if any), unless that tenant
    /// already holds `max_tenant_inflight` admitted requests.
    pub fn accept(&mut self, class: AdmissionClass, tenant: Option<&str>) -> (r: Result<
        (),
        AdmissionError,
    >)
        requires
            old(self).well_formed(),
            old(self)@.inflight_total < u64::MAX,
        ensures
            final(self).well_formed(),
            final(self).spec_config() == old(self).spec_config(),
            spec_tenant_busy(old(self).spec_config(), old(self)@, spec_tenant_view(tenant)) ==> r
                == Err::<(), AdmissionError>(AdmissionError::TenantBusy) && final(self)@ == old(
                self,
            )@,
            !spec_tenant_busy(old(self).spec_config(), old(self)@, spec_tenant_view(tenant)) ==> r
                == Ok::<(), AdmissionError>(()) && final(self)@ == spec_admit(
                old(self)@,
                class,
                spec_tenant_view(tenant),
            ),
    {
        let ghost before = self@;
        let ghost loads = self.tenant_inflight@;
        let max_tenant = self.config.max_tenant_inflight as u64;
        match tenant {
            Some(t) => {
                match find_tenant(&self.tenant_inflight, t) {
                    Some(i) => {
                        proof {
                            lemma_tenant_at(loads, i as int);
                        }
                        let current = self.tenant_inflight[i].inflight;
                        if current >= max_tenant {
                            return Err(AdmissionError::TenantBusy);
                        }
                        let id = self.tenant_inflight[i].tenant_id.clone();
                        let entry = TenantInflight { tenant_id: id, inflight: current + 1 };
                        proof {
                            lemma_tenant_map_update(loads, i as int, entry);
                        }
                        self.tenant_inflight.set(i, entry);
                    },
                    None => {
                        proof {
                            lemma_tenant_absent(loads, t@);
                        }
                        if max_tenant == 0 {
                            return Err(AdmissionError::TenantBusy);
                        }
                        let entry = TenantInflight { tenant_id: String::from_str(t), inflight: 1 };
                        proof {
                            lemma_tenant_map_push(loads, entry);
                        }
                        self.tenant_inflight.push(entry);
                    },
                }
            },
            None => {},
        }
        self.inflight_total = self.inflight_total + 1;
        match class {
            AdmissionClass::Read => {
                self.inflight_reads = self.inflight_reads + 1;
            },
            AdmissionClass::Write => {
                self.inflight_writes = self.inflight_writes + 1;
            },
            AdmissionClass::Admin => {
                self.inflight_admin = self.inflight_admin + 1;
            },
        }
        assert(self@ == spec_admit(before, class, spec_tenant_view(tenant)));
        proof {
            lemma_admit_keeps_valid(self.config, before, class, spec_tenant_view(tenant));
        }
        Ok(())
    }

    /// What follows the wait for a permit: the request leaves its queue at
    /// time `now`; without a permit it timed out, with one it is admitted
    /// unless its tenant is busy.
    pub fn finish_wait(
        &mut self,
        class: AdmissionClass,
        tenant: Option<&str>,
        granted: bool,
        now: u64,
    ) -> (r: Result<(), AdmissionError>)
        requires
            old(self).well_formed(),
            old(self)@.inflight_total < u64::MAX,
            spec_queue_of(old(self)@, class).len() > 0,
        ensures
            final(self).well_formed(),
            final(self).spec_config() == old(self).spec_config(),
            !granted ==> r == Err::<(), AdmissionError>(AdmissionError::TimedOut) && final(self)@
                == spec_release_queue(old(self)@, class, now),
            granted && spec_tenant_busy(
                old(self).spec_config(),
                spec_release_queue(old(self)@, class, now),
                spec_tenant_view(tenant),
            ) ==> r == Err::<(), AdmissionError>(AdmissionError::TenantBusy) && final(self)@
                == spec_release_queue(old(self)@, class, now),
            granted && !spec_tenant_busy(
                old(self).spec_config(),
                spec_release_queue(old(self)@, class, now),
                spec_tenant_view(tenant),
            ) ==> r == Ok::<(), AdmissionError>(()) && final(self)@ == spec_admit(
                spec_release_queue(old(self)@, class, now),
                class,
                spec_tenant_view(tenant),
            ),
    {
        self.release_queue(class, now);
        if !granted {
            return Err(AdmissionError::TimedOut);
        }
        self.accept(class, tenant)
    }

    /// An admitted request of `class` for `tenant` (if any) finishes.
    pub fn release(&mut self, class: AdmissionClass, tenant: Option<&str>)
        requires
            old(self).well_formed(),
            spec_inflight_of(old(self)@, class) > 0,
        ensures
            final(self).well_formed(),
            final(self).spec_config() == old(self).spec_config(),
            final(self)@ == spec_release(old(self)@, class, spec_tenant_view(tenant)),
    {
        let ghost before = self@;
        let ghost loads = self.tenant_inflight@;
        self.inflight_total = self.inflight_total.saturating_sub(1);
        match class {
            AdmissionClass::Read => {
                self.inflight_reads = self.inflight_reads.saturating_sub(1);
            },
            AdmissionClass::Write => {
                self.inflight_writes = self.inflight_writes.saturating_sub(1);
            },
            AdmissionClass::Admin => {
                self.inflight_admin = self.inflight_admin.saturating_sub(1);
            },
        }
        match tenant {
            Some(t) => {
                match find_tenant(&self.tenant_inflight, t) {
                    Some(i) => {
                        proof {
                            lemma_tenant_at(loads, i as int);
                        }
                        let current = self.tenant_inflight[i].inflight;
                        if current <= 1 {
                            proof {
                                lemma_tenant_map_remove(loads, i as int);
                            }
                            self.tenant_inflight.remove(i);
                        } else {
                            let id = self.tenant_inflight[i].tenant_id.clone();
                            let entry = TenantInflight { tenant_id: id, inflight: current - 1 };
                            proof {
                                lemma_tenant_map_update(loads, i as int, entry);
                            }
                            self.tenant_inflight.set(i, entry);
                        }
                    },
                    None => {
                        proof {
                            lemma_tenant_absent(loads, t@);
                            assert(spec_tenant_map(loads).remove(t@) =~= spec_tenant_map(loads));
                        }
                    },
                }
            },
            None => {},
        }
        assert(self@ == spec_release(before, class, spec_tenant_view(tenant)));
        proof {
            lemma_release_keeps_valid(self.config, before, class, spec_tenant_view(tenant));
        }
    }

    /// The limits, queue counts, loads and queue wait statistics at time
    /// `now`; the wait of a queue is that of its oldest request.
    pub fn snapshot(&self, now: u64) -> (r: RuntimeAdmissionStatus)
        requires
            self.well_formed(),
        ensures
            r.max_inflight_reads == self.spec_config().max_inflight_reads,
            r.max_inflight_writes == self.spec_config().max_inflight_writes,
            r.max_inflight_admin == self.spec_config().max_inflight_admin,
            r.max_queued_requests == self.spec_config().max_queued_requests,
            r.max_tenant_inflight == self.spec_config().max_tenant_inflight,
            r.queued_total == self@.queued_total,
            r.inflight_total == self@.inflight_total,
            r.queued_reads == self@.queued_reads,
            r.queued_writes == self@.queued_writes,
            r.queued_admin == self@.queued_admin,
            r.inflight_reads == self@.inflight_reads,
            r.inflight_writes == self@.inflight_writes,
            r.inflight_admin == self@.inflight_admin,
            spec_distinct_tenants(r.tenant_inflight@),
            spec_tenant_map(r.tenant_inflight@) == self@.tenant_inflight,
            r.queue_wait_timeout_ms == self.spec_config().queue_wait_timeout_ms,
            r.average_queue_wait_ms == if self@.completed_queue_waits == 0 {
                0
            } else {
                self@.total_queue_wait_ms / self@.completed_queue_waits
            },
            r.max_queue_wait_ms == self@.max_queue_wait_ms,
            r.oldest_read_queue_wait_ms == spec_oldest_wait(self@.queued_read_since, now),
            r.oldest_write_queue_wait_ms == spec_oldest_wait(self@.queued_write_since, now),
            r.oldest_admin_queue_wait_ms == spec_oldest_wait(self@.queued_admin_since, now),
            r.oldest_queue_wait_ms == spec_max3(
                spec_oldest_wait(self@.queued_read_since, now),
                spec_oldest_wait(self@.queued_write_since, now),
                spec_oldest_wait(self@.queued_admin_since, now),
            ),
            r.fair_queue_policy@ == "fifo-per-class"@,
    {
        let oldest_read = oldest_wait(&self.queued_read_since, now);
        let oldest_write = oldest_wait(&self.queued_write_since, now);
        let oldest_admin = oldest_wait(&self.queued_admin_since, now);
        let mut oldest = oldest_read;
        if oldest_write > oldest {
            oldest = oldest_write;
        }
        if oldest_admin > oldest {
            oldest = oldest_admin;
        }
        let tenant_inflight = copy_loads(&self.tenant_inflight);
        RuntimeAdmissionStatus {
            max_inflight_reads: self.config.max_inflight_reads as u64,
            max_inflight_writes: self.config.max_inflight_writes as u64,
            max_inflight_admin: self.config.max_inflight_admin as u64,
            max_queued_requests: self.config.max_queued_requests as u64,
            max_tenant_inflight: self.config.max_tenant_inflight as u64,
            queued_total: self.queued_total,
            inflight_total: self.inflight_total,
            queued_reads: self.queued_reads,
            queued_writes: self.queued_writes,
            queued_admin: self.queued_admin,
            inflight_reads: self.inflight_reads,
            inflight_writes: self.inflight_writes,
            inflight_admin: self.inflight_admin,
            tenant_inflight,
            queue_wait_timeout_ms: self.config.queue_wait_timeout_ms,
            average_queue_wait_ms: if self.completed_queue_waits == 0 {
                0
            } else {
                self.total_queue_wait_ms / self.completed_queue_waits
            },
            max_queue_wait_ms: self.max_queue_wait_ms,
            oldest_queue_wait_ms: oldest,
            oldest_read_queue_wait_ms: oldest_read,
            oldest_write_queue_wait_ms: oldest_write,
            oldest_admin_queue_wait_ms: oldest_admin,
            fair_queue_policy: String::from_str("fifo-per-class"),
        }
    }

    /// The limits the controller enforces.
    pub fn config(&self) -> (r: AdmissionConfig)
        ensures
            r == self.spec_config(),
    {
        self.config
    }
}

} // verus!
