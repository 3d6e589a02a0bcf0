//! What a recall returns once its candidates are ranked: the candidates it
//! keeps within the item limit and the token budget, and the id of the
//! trace that explains it.

use vstd::prelude::*;
use crate::query::RecallTemporalOrder;
use crate::text::{
    decimal_string, lemma_text_less_asymmetric, lemma_text_less_irreflexive,
    lemma_text_less_total, lemma_text_less_transitive, spec_decimal, spec_text_less, text_less,
};

verus! {

/// The selection after the first `k` ranked candidates: the positions kept
/// and the budget left. A candidate is kept while fewer than `max_items`
/// are kept, when it is the first or its token estimate fits the budget
/// left; keeping it takes its estimate from the budget (never below zero).
/// Without a budget the budget is the largest `usize`.
pub open spec fn spec_select(
    estimates: Seq<usize>,
    max_items: usize,
    token_budget: Option<usize>,
    k: nat,
) -> (Seq<int>, nat)
    decreases k,
{
    if k == 0 {
        (
            seq![],
            match token_budget {
                Some(b) => b as nat,
                None => usize::MAX as nat,
            },
        )
    } else {
        let (kept, left) = spec_select(estimates, max_items, token_budget, (k - 1) as nat);
        let e = estimates[k - 1] as nat;
        if kept.len() >= max_items {
            (kept, left)
        } else if kept.len() == 0 || e <= left {
            (kept.push(k - 1), if e <= left { (left - e) as nat } else { 0 })
        } else {
            (kept, left)
        }
    }
}

/// The positions of the ranked candidates a recall returns, given the
/// token estimate of each.
pub fn select_within_budget(
    estimates: &Vec<usize>,
    max_items: usize,
    token_budget: Option<usize>,
) -> (r: Vec<usize>)
    ensures
        r@.map_values(|i: usize| i as int) == spec_select(
            estimates@,
            max_items,
            token_budget,
            estimates@.len(),
        ).0,
{
    let n = estimates.len();
    let mut kept: Vec<usize> = Vec::new();
    let mut left: usize = match token_budget {
        Some(b) => b,
        None => usize::MAX,
    };
    let mut i: usize = 0;
    proof {
        assert(kept@.map_values(|i: usize| i as int) =~= Seq::<int>::empty());
    }
    while i < n
        invariant
            n == estimates@.len(),
            i <= n,
            kept@.map_values(|i: usize| i as int) == spec_select(estimates@, max_items, token_budget, i as nat).0,
            left as nat == spec_select(estimates@, max_items, token_budget, i as nat).1,
            kept@.len() <= i,
        decreases n - i,
    {
        if kept.len() >= max_items {
            // every later candidate is dropped as well
            i += 1;
        } else {
            let e = estimates[i];
            if kept.len() == 0 || e <= left {
                let ghost before = kept@.map_values(|i: usize| i as int);
                left = if e <= left { left - e } else { 0 };
                kept.push(i);
                proof {
                    assert(kept@.map_values(|i: usize| i as int) =~= before.push(i as int));
                }
            }
            i += 1;
        }
    }
    kept
}

/// The sum of the estimates at these positions.
pub open spec fn spec_sum_at(estimates: Seq<usize>, positions: Seq<int>) -> nat
    decreases positions.len(),
{
    if positions.len() == 0 {
        0
    } else {
        spec_sum_at(estimates, positions.drop_last()) + estimates[positions.last()] as nat
    }
}

proof fn lemma_select_bounds(estimates: Seq<usize>, max_items: usize, token_budget: Option<usize>, k: nat)
    requires
        k <= estimates.len(),
    ensures
        ({
            let (kept, left) = spec_select(estimates, max_items, token_budget, k);
            let budget = match token_budget {
                Some(b) => b as nat,
                None => usize::MAX as nat,
            };
            &&& kept.len() <= max_items
            &&& forall|a: int, b: int| 0 <= a < b < kept.len() ==> kept[a] < kept[b]
            &&& forall|a: int| 0 <= a < kept.len() ==> 0 <= #[trigger] kept[a] < k
            &&& kept.len() > 0 ==> spec_sum_at(estimates, kept.drop_first()) + left + (if estimates[kept[0]] as nat <= budget {
                estimates[kept[0]] as nat
            } else {
                budget
            }) == budget
            &&& kept.len() == 0 ==> left == budget
        }),
    decreases k,
{
    if k > 0 {
        lemma_select_bounds(estimates, max_items, token_budget, (k - 1) as nat);
        let (kept, left) = spec_select(estimates, max_items, token_budget, (k - 1) as nat);
        let e = estimates[k - 1] as nat;
        if !(kept.len() >= max_items) && (kept.len() == 0 || e <= left) {
            let kept2 = kept.push(k - 1);
            if kept.len() > 0 {
                assert(kept2.drop_first() =~= kept.drop_first().push(k - 1));
                assert(kept.drop_first().push(k - 1).drop_last() =~= kept.drop_first());
                assert(spec_sum_at(estimates, kept2.drop_first()) == spec_sum_at(estimates, kept.drop_first()) + e);
                assert(kept2[0] == kept[0]);
            } else {
                assert(kept2.drop_first() =~= Seq::<int>::empty());
            }
        }
    }
}

/// A recall returns at most `max_items` candidates, in ranked order; and
/// with a token budget, the candidates after the first fit within what the
/// first leaves of it (the first is returned whatever its size).
pub proof fn lemma_selection_within_limits(estimates: Seq<usize>, max_items: usize, token_budget: Option<usize>)
    requires
        max_items > 0,
    ensures
        ({
            let kept = spec_select(estimates, max_items, token_budget, estimates.len()).0;
            &&& kept.len() <= max_items
            &&& forall|a: int, b: int| 0 <= a < b < kept.len() ==> kept[a] < kept[b]
            &&& forall|a: int| 0 <= a < kept.len() ==> 0 <= #[trigger] kept[a] < estimates.len()
            &&& token_budget matches Some(b) ==> (kept.len() > 0 ==> spec_sum_at(estimates, kept.drop_first())
                + (if estimates[kept[0]] <= b { estimates[kept[0]] as nat } else { b as nat }) <= b)
        }),
{
    lemma_select_bounds(estimates, max_items, token_budget, estimates.len());
}

/// The id of the trace of a recall: `recall:`, the tenant, the namespace
/// and the number of candidates examined, joined by colons.
pub open spec fn spec_recall_trace_id(tenant_id: Seq<char>, namespace: Seq<char>, examined: nat) -> Seq<char> {
    "recall:"@ + tenant_id + ":"@ + namespace + ":"@ + spec_decimal(examined)
}

pub fn recall_trace_id(tenant_id: &str, namespace: &str, examined: usize) -> (r: String)
    ensures
        r@ == spec_recall_trace_id(tenant_id@, namespace@, examined as nat),
{
    let mut out = String::from_str("recall:");
    out.append(tenant_id);
    out.append(":");
    out.append(namespace);
    out.append(":");
    let count = decimal_string(examined as u64);
    out.append(count.as_str());
    out
}


// ----- ranking -----

/// What a recall candidate is ranked by: the moment it is placed at, the
/// keys of its importance and of its total score in the total order of
/// scores, and its record id.
#[derive(Debug, Clone, PartialEq, Eq)]
pub struct RankKey {
    pub anchor: u64,
    pub importance_key: u32,
    pub total_key: u32,
    pub record_id: String,
}

/// The two leading sort keys of a candidate, smaller first, for an order:
/// by relevance, an empty query ranks the latest first and then the most
/// important, any other query the highest total first; chronological
/// orders rank by time (oldest or latest first) and then the highest total.
pub open spec fn spec_sort_keys(order: RecallTemporalOrder, empty_query: bool, k: RankKey) -> (u64, u64) {
    match order {
        RecallTemporalOrder::Relevance => if empty_query {
            ((u64::MAX - k.anchor) as u64, (u32::MAX - k.importance_key) as u64)
        } else {
            ((u32::MAX - k.total_key) as u64, 0)
        },
        RecallTemporalOrder::ChronologicalAsc => (k.anchor, (u32::MAX - k.total_key) as u64),
        RecallTemporalOrder::ChronologicalDesc => (
            (u64::MAX - k.anchor) as u64,
            (u32::MAX - k.total_key) as u64,
        ),
    }
}

/// Whether a candidate with sort keys `a` and id `ia` ranks strictly
/// before one with `b` and `ib`: by the keys, then by id.
pub open spec fn spec_ranks_before(a: (u64, u64), ia: Seq<char>, b: (u64, u64), ib: Seq<char>) -> bool {
    a.0 < b.0 || (a.0 == b.0 && (a.1 < b.1 || (a.1 == b.1 && spec_text_less(ia, ib))))
}

pub open spec fn spec_before_at(
    keys: Seq<RankKey>,
    order: RecallTemporalOrder,
    empty_query: bool,
    i: int,
    j: int,
) -> bool {
    spec_ranks_before(
        spec_sort_keys(order, empty_query, keys[i]),
        keys[i].record_id@,
        spec_sort_keys(order, empty_query, keys[j]),
        keys[j].record_id@,
    )
}

/// `ranking` lists each position below `n` once, no candidate ranks before
/// the one listed ahead of it, and candidates that tie keep their order.
pub open spec fn spec_is_ranking(
    keys: Seq<RankKey>,
    order: RecallTemporalOrder,
    empty_query: bool,
    ranking: Seq<usize>,
    n: int,
) -> bool {
    &&& ranking.len() == n
    &&& forall|a: int| 0 <= a < n ==> #[trigger] ranking[a] < n
    &&& forall|a: int, b: int| 0 <= a < b < n ==> ranking[a] != ranking[b]
    &&& forall|a: int, b: int|
        0 <= a < b < n ==> !spec_before_at(keys, order, empty_query, #[trigger] ranking[b] as int, #[trigger] ranking[a] as int)
    &&& forall|a: int, b: int|
        0 <= a < b < n && !spec_before_at(keys, order, empty_query, #[trigger] ranking[a] as int, #[trigger] ranking[b] as int)
            && !spec_before_at(keys, order, empty_query, ranking[b] as int, ranking[a] as int) ==> ranking[a] < ranking[b]
}

proof fn lemma_ranks_order(a: (u64, u64), ia: Seq<char>, b: (u64, u64), ib: Seq<char>, c: (u64, u64), ic: Seq<char>)
    ensures
        !spec_ranks_before(a, ia, a, ia),
        !(spec_ranks_before(a, ia, b, ib) && spec_ranks_before(b, ib, a, ia)),
        spec_ranks_before(a, ia, b, ib) && spec_ranks_before(b, ib, c, ic) ==> spec_ranks_before(a, ia, c, ic),
        !spec_ranks_before(a, ia, b, ib) && !spec_ranks_before(b, ib, a, ia) ==> a == b && ia == ib,
{
    lemma_text_less_irreflexive(ia);
    lemma_text_less_asymmetric(ia, ib);
    lemma_text_less_total(ia, ib);
    if spec_text_less(ia, ib) && spec_text_less(ib, ic) {
        lemma_text_less_transitive(ia, ib, ic);
    }
}

fn sort_keys(order: RecallTemporalOrder, empty_query: bool, k: &RankKey) -> (r: (u64, u64))
    ensures
        r == spec_sort_keys(order, empty_query, *k),
{
    match order {
        RecallTemporalOrder::Relevance => if empty_query {
            (u64::MAX - k.anchor, (u32::MAX - k.importance_key) as u64)
        } else {
            ((u32::MAX - k.total_key) as u64, 0)
        },
        RecallTemporalOrder::ChronologicalAsc => (k.anchor, (u32::MAX - k.total_key) as u64),
        RecallTemporalOrder::ChronologicalDesc => (u64::MAX - k.anchor, (u32::MAX - k.total_key) as u64),
    }
}

fn ranks_before(keys: &Vec<RankKey>, sk: &Vec<(u64, u64)>, i: usize, j: usize) -> (r: bool)
    requires
        i < keys@.len(),
        j < keys@.len(),
        sk@.len() == keys@.len(),
    ensures
        r == spec_ranks_before(sk@[i as int], keys@[i as int].record_id@, sk@[j as int], keys@[j as int].record_id@),
{
    let a = sk[i];
    let b = sk[j];
    if a.0 != b.0 {
        a.0 < b.0
    } else if a.1 != b.1 {
        a.1 < b.1
    } else {
        text_less(keys[i].record_id.as_str(), keys[j].record_id.as_str())
    }
}

/// The positions of the candidates in the order a recall returns them.
pub fn rank_candidates(keys: &Vec<RankKey>, order: RecallTemporalOrder, empty_query: bool) -> (r: Vec<usize>)
    ensures
        spec_is_ranking(keys@, order, empty_query, r@, keys@.len() as int),
{
    let n = keys.len();
    let mut sk: Vec<(u64, u64)> = Vec::new();
    let mut i: usize = 0;
    while i < n
        invariant
            n == keys@.len(),
            i <= n,
            sk@.len() == i,
            forall|j: int| 0 <= j < i ==> #[trigger] sk@[j] == spec_sort_keys(order, empty_query, keys@[j]),
        decreases n - i,
    {
        sk.push(sort_keys(order, empty_query, &keys[i]));
        i += 1;
    }
    let mut ranking: Vec<usize> = Vec::new();
    let mut i: usize = 0;
    while i < n
        invariant
            n == keys@.len(),
            sk@.len() == n,
            forall|j: int| 0 <= j < n ==> #[trigger] sk@[j] == spec_sort_keys(order, empty_query, keys@[j]),
            i <= n,
            ranking@.len() == i,
            forall|a: int| 0 <= a < i ==> #[trigger] ranking@[a] < i,
            forall|a: int, b: int| 0 <= a < b < i ==> ranking@[a] != ranking@[b],
            forall|a: int, b: int|
                0 <= a < b < i ==> !spec_before_at(keys@, order, empty_query, #[trigger] ranking@[b] as int, #[trigger] ranking@[a] as int),
            forall|a: int, b: int|
                0 <= a < b < i && !spec_before_at(keys@, order, empty_query, #[trigger] ranking@[a] as int, #[trigger] ranking@[b] as int)
                    && !spec_before_at(keys@, order, empty_query, ranking@[b] as int, ranking@[a] as int) ==> ranking@[a] < ranking@[b],
        decreases n - i,
    {
        let mut p: usize = 0;
        while p < ranking.len() && !ranks_before(keys, &sk, i, ranking[p])
            invariant
                n == keys@.len(),
                sk@.len() == n,
                forall|j: int| 0 <= j < n ==> #[trigger] sk@[j] == spec_sort_keys(order, empty_query, keys@[j]),
                i < n,
                ranking@.len() == i,
                forall|a: int| 0 <= a < i ==> #[trigger] ranking@[a] < i,
                p <= ranking@.len(),
                forall|q: int| 0 <= q < p ==> !spec_before_at(keys@, order, empty_query, i as int, #[trigger] ranking@[q] as int),
            decreases ranking@.len() - p,
        {
            p += 1;
        }
        let ghost old_r = ranking@;
        ranking.insert(p, i);
        proof {
            let nr = ranking@;
            assert(nr == old_r.insert(p as int, i));
            assert forall|a: int| 0 <= a < i + 1 implies #[trigger] nr[a] < i + 1 by {
                if a < p {
                    assert(nr[a] == old_r[a]);
                } else if a > p {
                    assert(nr[a] == old_r[a - 1]);
                }
            }
            assert forall|a: int, b: int| 0 <= a < b < i + 1 implies nr[a] != nr[b] by {
                if a < p && b < p {
                    assert(nr[a] == old_r[a] && nr[b] == old_r[b]);
                } else if a < p && b == p {
                    assert(nr[a] == old_r[a]);
                } else if a < p && b > p {
                    assert(nr[a] == old_r[a] && nr[b] == old_r[b - 1]);
                } else if a == p {
                    assert(nr[b] == old_r[b - 1]);
                } else {
                    assert(nr[a] == old_r[a - 1] && nr[b] == old_r[b - 1]);
                }
            }
            assert forall|a: int, b: int| 0 <= a < b < i + 1 implies !spec_before_at(
                keys@,
                order,
                empty_query,
                #[trigger] nr[b] as int,
                #[trigger] nr[a] as int,
            ) && (!spec_before_at(keys@, order, empty_query, nr[a] as int, nr[b] as int)
                && !spec_before_at(keys@, order, empty_query, nr[b] as int, nr[a] as int) ==> nr[a] < nr[b]) by {
                let x = i as int;
                let kx = sk@[x];
                let ix = keys@[x].record_id@;
                if a < p && b < p {
                    assert(nr[a] == old_r[a] && nr[b] == old_r[b]);
                } else if a < p && b == p {
                    assert(nr[a] == old_r[a]);
                    assert(nr[b] == i);
                } else if a < p && b > p {
                    assert(nr[a] == old_r[a] && nr[b] == old_r[b - 1]);
                } else if a == p {
                    assert(nr[a] == i);
                    let lb = old_r[b - 1] as int;
                    assert(nr[b] == lb);
                    let lp = old_r[p as int] as int;
                    assert(p < old_r.len());
                    assert(spec_before_at(keys@, order, empty_query, x, lp));
                    lemma_ranks_order(kx, ix, sk@[lp], keys@[lp].record_id@, sk@[lp], keys@[lp].record_id@);
                    if b - 1 > p {
                        assert(!spec_before_at(keys@, order, empty_query, lb, lp));
                        lemma_ranks_order(sk@[lb], keys@[lb].record_id@, kx, ix, sk@[lp], keys@[lp].record_id@);
                        lemma_ranks_order(kx, ix, sk@[lb], keys@[lb].record_id@, sk@[lp], keys@[lp].record_id@);
                    }
                } else {
                    assert(nr[a] == old_r[a - 1] && nr[b] == old_r[b - 1]);
                }
            }
        }
        i += 1;
    }
    ranking
}

/// How a ranking orders candidates, for each order. By relevance, a query
/// with terms lists candidates by total score, highest first (ties by
/// record id), so a candidate that scores strictly higher comes first
/// whatever the moments the two are placed at; an empty query lists the
/// latest first, then the most important. Chronological orders list by
/// time, oldest or latest first, and then by total score, highest first.
pub proof fn lemma_ranking_order(
    keys: Seq<RankKey>,
    order: RecallTemporalOrder,
    empty_query: bool,
    ranking: Seq<usize>,
)
    requires
        spec_is_ranking(keys, order, empty_query, ranking, keys.len() as int),
    ensures
        forall|a: int, b: int|
            #![trigger ranking[a], ranking[b]]
            0 <= a < b < keys.len() ==> {
                let x = keys[ranking[a] as int];
                let y = keys[ranking[b] as int];
                match order {
                    RecallTemporalOrder::Relevance => if empty_query {
                        x.anchor >= y.anchor && (x.anchor == y.anchor ==> x.importance_key
                            >= y.importance_key)
                    } else {
                        x.total_key >= y.total_key && (x.total_key == y.total_key
                            ==> !spec_text_less(y.record_id@, x.record_id@))
                    },
                    RecallTemporalOrder::ChronologicalAsc => x.anchor <= y.anchor && (x.anchor
                        == y.anchor ==> x.total_key >= y.total_key),
                    RecallTemporalOrder::ChronologicalDesc => x.anchor >= y.anchor && (x.anchor
                        == y.anchor ==> x.total_key >= y.total_key),
                }
            },
        order == RecallTemporalOrder::Relevance && !empty_query ==> forall|a: int, b: int|
            #![trigger ranking[a], ranking[b]]
            0 <= a < keys.len() && 0 <= b < keys.len() && keys[ranking[a] as int].total_key
                > keys[ranking[b] as int].total_key ==> a < b,
{
    let n = keys.len() as int;
    assert forall|a: int, b: int|
        #![trigger ranking[a], ranking[b]]
        0 <= a < b < n implies {
            let x = keys[ranking[a] as int];
            let y = keys[ranking[b] as int];
            match order {
                RecallTemporalOrder::Relevance => if empty_query {
                    x.anchor >= y.anchor && (x.anchor == y.anchor ==> x.importance_key
                        >= y.importance_key)
                } else {
                    x.total_key >= y.total_key && (x.total_key == y.total_key
                        ==> !spec_text_less(y.record_id@, x.record_id@))
                },
                RecallTemporalOrder::ChronologicalAsc => x.anchor <= y.anchor && (x.anchor
                    == y.anchor ==> x.total_key >= y.total_key),
                RecallTemporalOrder::ChronologicalDesc => x.anchor >= y.anchor && (x.anchor
                    == y.anchor ==> x.total_key >= y.total_key),
            }
        } by {
        assert(!spec_before_at(keys, order, empty_query, ranking[b] as int, ranking[a] as int));
    }
    if order == RecallTemporalOrder::Relevance && !empty_query {
        assert forall|a: int, b: int|
            #![trigger ranking[a], ranking[b]]
            0 <= a < n && 0 <= b < n && keys[ranking[a] as int].total_key
                > keys[ranking[b] as int].total_key implies a < b by {
            if b < a {
                assert(!spec_before_at(keys, order, empty_query, ranking[a] as int, ranking[b] as int));
            }
        }
    }
}

} // verus!
