//! Judging recall results against the assertions of evaluation cases:
//! which expected records are missing, which disallowed ones came back,
//! which required explanation notes are absent, and which records count as
//! relevant for ranking metrics.

use vstd::prelude::*;
use crate::portable::{insert_sorted_text, spec_sorted_insert};
use crate::text::{
    contains_text, copy_texts, lemma_text_less_irreflexive, lemma_text_less_total,
    lemma_text_less_transitive, list_contains, spec_contains, spec_text_less,
};

verus! {

/// What a recall of an evaluation case must and must not return.
#[derive(Debug, Clone, PartialEq, Eq)]
pub struct RecallEvaluationAssertions {
    pub expected_record_ids: Vec<String>,
    pub optional_record_ids: Vec<String>,
    pub disallowed_record_ids: Vec<String>,
    pub required_explanation_notes: Vec<String>,
}

impl Default for RecallEvaluationAssertions {
    fn default() -> (r: Self)
        ensures
            r.expected_record_ids@.len() == 0,
            r.optional_record_ids@.len() == 0,
            r.disallowed_record_ids@.len() == 0,
            r.required_explanation_notes@.len() == 0,
    {
        RecallEvaluationAssertions {
            expected_record_ids: Vec::new(),
            optional_record_ids: Vec::new(),
            disallowed_record_ids: Vec::new(),
            required_explanation_notes: Vec::new(),
        }
    }
}

/// How one evaluation case fared.
#[derive(Debug, Clone, PartialEq, Eq)]
pub struct RecallEvaluationCaseReport {
    pub name: String,
    pub passed: bool,
    pub ranked_record_ids: Vec<String>,
    pub missing_expected_record_ids: Vec<String>,
    pub present_disallowed_record_ids: Vec<String>,
    pub missing_explanation_notes: Vec<String>,
}

pub open spec fn spec_texts(items: Seq<String>) -> Seq<Seq<char>> {
    items.map_values(|t: String| t@)
}

/// The items as a sorted list of distinct texts.
pub open spec fn spec_sorted_set(items: Seq<Seq<char>>) -> Seq<Seq<char>>
    decreases items.len(),
{
    if items.len() == 0 {
        seq![]
    } else {
        spec_sorted_insert(spec_sorted_set(items.drop_last()), items.last())
    }
}

/// Strictly increasing in the order of texts.
pub open spec fn spec_strictly_sorted(list: Seq<Seq<char>>) -> bool {
    forall|a: int, b: int| 0 <= a < b < list.len() ==> spec_text_less(#[trigger] list[a], #[trigger] list[b])
}

proof fn lemma_sorted_insert(list: Seq<Seq<char>>, x: Seq<char>)
    requires
        spec_strictly_sorted(list),
    ensures
        spec_strictly_sorted(spec_sorted_insert(list, x)),
        forall|y: Seq<char>| #[trigger] spec_sorted_insert(list, x).contains(y) == (list.contains(y) || y == x),
    decreases list.len(),
{
    let r = spec_sorted_insert(list, x);
    if list.len() == 0 {
        assert forall|y: Seq<char>| r.contains(y) == (list.contains(y) || y == x) by {
            if y == x {
                assert(r[0] == y);
            }
        }
    } else if list[0] == x {
        assert forall|y: Seq<char>| r.contains(y) == (list.contains(y) || y == x) by {
            if y == x {
                assert(list[0] == y);
            }
        }
    } else if spec_text_less(x, list[0]) {
        assert forall|a: int, b: int| 0 <= a < b < r.len() implies spec_text_less(#[trigger] r[a], #[trigger] r[b]) by {
            if a == 0 {
                assert(r[b] == list[b - 1]);
                if b - 1 > 0 {
                    assert(spec_text_less(list[0], list[b - 1]));
                    lemma_text_less_transitive(x, list[0], list[b - 1]);
                }
            } else {
                assert(r[a] == list[a - 1]);
                assert(r[b] == list[b - 1]);
            }
        }
        assert forall|y: Seq<char>| r.contains(y) == (list.contains(y) || y == x) by {
            if r.contains(y) {
                let i = choose|i: int| 0 <= i < r.len() && r[i] == y;
                if i > 0 {
                    assert(list[i - 1] == y);
                }
            }
            if list.contains(y) {
                let i = choose|i: int| 0 <= i < list.len() && list[i] == y;
                assert(r[i + 1] == y);
            }
            if y == x {
                assert(r[0] == y);
            }
        }
    } else {
        let rest = list.drop_first();
        assert(spec_strictly_sorted(rest)) by {
            assert forall|a: int, b: int| 0 <= a < b < rest.len() implies spec_text_less(#[trigger] rest[a], #[trigger] rest[b]) by {
                assert(rest[a] == list[a + 1]);
                assert(rest[b] == list[b + 1]);
            }
        }
        lemma_sorted_insert(rest, x);
        let tail = spec_sorted_insert(rest, x);
        lemma_text_less_total(x, list[0]);
        assert(spec_text_less(list[0], x));
        assert forall|a: int, b: int| 0 <= a < b < r.len() implies spec_text_less(#[trigger] r[a], #[trigger] r[b]) by {
            if a == 0 {
                assert(r[0] == list[0]);
                assert(r[b] == tail[b - 1]);
                assert(tail.contains(tail[b - 1]));
                if tail[b - 1] != x {
                    assert(rest.contains(tail[b - 1]));
                    let k = choose|k: int| 0 <= k < rest.len() && rest[k] == tail[b - 1];
                    assert(list[k + 1] == rest[k]);
                }
            } else {
                assert(r[a] == tail[a - 1]);
                assert(r[b] == tail[b - 1]);
            }
        }
        assert forall|y: Seq<char>| r.contains(y) == (list.contains(y) || y == x) by {
            if r.contains(y) {
                let i = choose|i: int| 0 <= i < r.len() && r[i] == y;
                if i > 0 {
                    assert(tail[i - 1] == y);
                    assert(tail.contains(y));
                    if rest.contains(y) {
                        let k = choose|k: int| 0 <= k < rest.len() && rest[k] == y;
                        assert(list[k + 1] == y);
                    }
                } else {
                    assert(list[0] == y);
                }
            }
            if list.contains(y) {
                let i = choose|i: int| 0 <= i < list.len() && list[i] == y;
                if i > 0 {
                    assert(rest[i - 1] == y);
                    assert(rest.contains(y));
                    assert(spec_sorted_insert(rest, x).contains(y));
                    let k = choose|k: int| 0 <= k < tail.len() && tail[k] == y;
                    assert(r[k + 1] == y);
                } else {
                    assert(r[0] == y);
                }
            }
            if y == x {
                assert(tail.contains(x));
                let k = choose|k: int| 0 <= k < tail.len() && tail[k] == x;
                assert(r[k + 1] == x);
            }
        }
    }
}

/// A sorted set holds its items, each once, in strictly increasing order.
pub proof fn lemma_sorted_set(items: Seq<Seq<char>>)
    ensures
        spec_strictly_sorted(spec_sorted_set(items)),
        forall|y: Seq<char>| spec_sorted_set(items).contains(y) == items.contains(y),
    decreases items.len(),
{
    if items.len() > 0 {
        lemma_sorted_set(items.drop_last());
        lemma_sorted_insert(spec_sorted_set(items.drop_last()), items.last());
        assert forall|y: Seq<char>| spec_sorted_set(items).contains(y) == items.contains(y) by {
            if items.drop_last().contains(y) {
                let i = choose|i: int| 0 <= i < items.drop_last().len() && items.drop_last()[i] == y;
                assert(items[i] == y);
            }
            if items.contains(y) {
                let i = choose|i: int| 0 <= i < items.len() && items[i] == y;
                if i < items.len() - 1 {
                    assert(items.drop_last()[i] == y);
                }
            }
        }
    }
}

/// The texts as a sorted list of distinct texts.
pub fn sorted_distinct(items: &Vec<String>) -> (r: Vec<String>)
    ensures
        spec_texts(r@) == spec_sorted_set(spec_texts(items@)),
{
    let ghost views = spec_texts(items@);
    let n = items.len();
    let mut out: Vec<String> = Vec::new();
    let mut i: usize = 0;
    proof {
        assert(spec_texts(out@) =~= Seq::<Seq<char>>::empty());
        assert(views.subrange(0, 0) =~= Seq::<Seq<char>>::empty());
    }
    while i < n
        invariant
            n == items@.len(),
            views == spec_texts(items@),
            i <= n,
            spec_texts(out@) == spec_sorted_set(views.subrange(0, i as int)),
        decreases n - i,
    {
        proof {
            let pre = views.subrange(0, i + 1);
            assert(pre.drop_last() =~= views.subrange(0, i as int));
            assert(pre.last() == items@[i as int]@);
        }
        insert_sorted_text(&mut out, items[i].clone());
        i += 1;
    }
    proof {
        assert(views.subrange(0, n as int) =~= views);
    }
    out
}

/// The records that count as relevant for ranking metrics: the expected
/// and the optional ones, sorted and each once.
pub open spec fn spec_relevant_ids(a: RecallEvaluationAssertions) -> Seq<Seq<char>> {
    spec_sorted_set(spec_texts(a.expected_record_ids@) + spec_texts(a.optional_record_ids@))
}

pub fn relevant_record_ids(assertions: &RecallEvaluationAssertions) -> (r: Vec<String>)
    ensures
        spec_texts(r@) == spec_relevant_ids(*assertions),
{
    let mut all = copy_texts(&assertions.expected_record_ids);
    let mut optional = copy_texts(&assertions.optional_record_ids);
    let ghost a = all@;
    let ghost b = optional@;
    all.append(&mut optional);
    proof {
        assert(spec_texts(all@) =~= spec_texts(a) + spec_texts(b));
    }
    sorted_distinct(&all)
}

/// The expected records that the recall did not return, sorted and each once.
pub open spec fn spec_missing_expected(expected: Seq<Seq<char>>, ranked: Seq<Seq<char>>) -> Seq<Seq<char>> {
    spec_sorted_set(expected.filter(|e: Seq<char>| !ranked.contains(e)))
}

/// The disallowed records that the recall returned, in the order of the
/// assertions.
pub open spec fn spec_present_disallowed(disallowed: Seq<Seq<char>>, ranked: Seq<Seq<char>>) -> Seq<Seq<char>> {
    disallowed.filter(|d: Seq<char>| ranked.contains(d))
}

/// The required notes that no explanation note contains.
pub open spec fn spec_missing_notes(required: Seq<Seq<char>>, notes: Seq<Seq<char>>) -> Seq<Seq<char>> {
    required.filter(|q: Seq<char>| !(exists|i: int| 0 <= i < notes.len() && spec_contains(#[trigger] notes[i], q)))
}

proof fn lemma_contains_listed(items: Seq<String>, x: Seq<char>)
    ensures
        spec_texts(items).contains(x) == exists|i: int| 0 <= i < items.len() && #[trigger] items[i]@ == x,
{
    if spec_texts(items).contains(x) {
        let i = choose|i: int| 0 <= i < spec_texts(items).len() && spec_texts(items)[i] == x;
        assert(items[i]@ == x);
    }
    if exists|i: int| 0 <= i < items.len() && #[trigger] items[i]@ == x {
        let i = choose|i: int| 0 <= i < items.len() && #[trigger] items[i]@ == x;
        assert(spec_texts(items)[i] == x);
    }
}

/// The items kept when `keep` says so for each, in order.
fn filter_texts(items: &Vec<String>, keep: &Vec<bool>) -> (r: Vec<String>)
    requires
        keep@.len() == items@.len(),
    ensures
        spec_texts(r@) == spec_kept(spec_texts(items@), keep@),
{
    let n = items.len();
    let mut out: Vec<String> = Vec::new();
    let mut i: usize = 0;
    proof {
        assert(spec_texts(out@) =~= Seq::<Seq<char>>::empty());
    }
    while i < n
        invariant
            n == items@.len(),
            keep@.len() == n,
            i <= n,
            spec_texts(out@) == spec_kept(spec_texts(items@).subrange(0, i as int), keep@.subrange(0, i as int)),
        decreases n - i,
    {
        let ghost before = spec_texts(out@);
        proof {
            let pre = spec_texts(items@).subrange(0, i + 1);
            let kp = keep@.subrange(0, i + 1);
            assert(pre.drop_last() =~= spec_texts(items@).subrange(0, i as int));
            assert(kp.drop_last() =~= keep@.subrange(0, i as int));
        }
        if keep[i] {
            out.push(items[i].clone());
            proof {
                assert(spec_texts(out@) =~= before.push(items@[i as int]@));
            }
        } else {
            proof {
                assert(spec_texts(out@) =~= before);
            }
        }
        i += 1;
    }
    proof {
        assert(spec_texts(items@).subrange(0, n as int) =~= spec_texts(items@));
        assert(keep@.subrange(0, n as int) =~= keep@);
    }
    out
}

/// The items whose flag is set, in order.
pub open spec fn spec_kept(items: Seq<Seq<char>>, keep: Seq<bool>) -> Seq<Seq<char>>
    decreases items.len(),
{
    if items.len() == 0 || keep.len() == 0 {
        seq![]
    } else {
        let rest = spec_kept(items.drop_last(), keep.drop_last());
        if keep.last() {
            rest.push(items.last())
        } else {
            rest
        }
    }
}

proof fn lemma_kept_is_filter(items: Seq<Seq<char>>, keep: Seq<bool>, p: spec_fn(Seq<char>) -> bool)
    requires
        keep.len() == items.len(),
        forall|i: int| 0 <= i < items.len() ==> keep[i] == p(items[i]),
    ensures
        spec_kept(items, keep) == items.filter(p),
    decreases items.len(),
{
    if items.len() > 0 {
        lemma_kept_is_filter(items.drop_last(), keep.drop_last(), p);
        assert(items.drop_last().push(items.last()) =~= items);
        items.drop_last().lemma_filter_push(items.last(), p);
    }
}

/// Judges one case: the recall returned `ranked_record_ids` and its
/// explanation carried `explanation_notes`. The case passes when no
/// expected record is missing, no disallowed record came back and every
/// required note is contained in some explanation note.
pub fn evaluate_case(
    name: &str,
    assertions: &RecallEvaluationAssertions,
    ranked_record_ids: &Vec<String>,
    explanation_notes: &Vec<String>,
) -> (r: RecallEvaluationCaseReport)
    ensures
        r.name@ == name@,
        spec_texts(r.ranked_record_ids@) == spec_texts(ranked_record_ids@),
        spec_texts(r.missing_expected_record_ids@) == spec_missing_expected(
            spec_texts(assertions.expected_record_ids@),
            spec_texts(ranked_record_ids@),
        ),
        spec_texts(r.present_disallowed_record_ids@) == spec_present_disallowed(
            spec_texts(assertions.disallowed_record_ids@),
            spec_texts(ranked_record_ids@),
        ),
        spec_texts(r.missing_explanation_notes@) == spec_missing_notes(
            spec_texts(assertions.required_explanation_notes@),
            spec_texts(explanation_notes@),
        ),
        r.passed == (r.missing_expected_record_ids@.len() == 0
            && r.present_disallowed_record_ids@.len() == 0
            && r.missing_explanation_notes@.len() == 0),
{
    let ghost ranked = spec_texts(ranked_record_ids@);
    // expected ids that were not returned
    let expected = &assertions.expected_record_ids;
    let mut keep_expected: Vec<bool> = Vec::new();
    let mut i: usize = 0;
    while i < expected.len()
        invariant
            i <= expected@.len(),
            ranked == spec_texts(ranked_record_ids@),
            keep_expected@.len() == i,
            forall|j: int| 0 <= j < i ==> keep_expected@[j] == !ranked.contains(#[trigger] expected@[j]@),
        decreases expected@.len() - i,
    {
        let hit = list_contains(ranked_record_ids, expected[i].as_str());
        proof {
            lemma_contains_listed(ranked_record_ids@, expected@[i as int]@);
        }
        keep_expected.push(!hit);
        i += 1;
    }
    let not_returned = filter_texts(expected, &keep_expected);
    proof {
        lemma_kept_is_filter(spec_texts(expected@), keep_expected@, |e: Seq<char>| !ranked.contains(e));
    }
    let missing_expected = sorted_distinct(&not_returned);
    // disallowed ids that were returned
    let disallowed = &assertions.disallowed_record_ids;
    let mut keep_disallowed: Vec<bool> = Vec::new();
    let mut i: usize = 0;
    while i < disallowed.len()
        invariant
            i <= disallowed@.len(),
            ranked == spec_texts(ranked_record_ids@),
            keep_disallowed@.len() == i,
            forall|j: int| 0 <= j < i ==> keep_disallowed@[j] == ranked.contains(#[trigger] disallowed@[j]@),
        decreases disallowed@.len() - i,
    {
        let hit = list_contains(ranked_record_ids, disallowed[i].as_str());
        proof {
            lemma_contains_listed(ranked_record_ids@, disallowed@[i as int]@);
        }
        keep_disallowed.push(hit);
        i += 1;
    }
    let present_disallowed = filter_texts(disallowed, &keep_disallowed);
    proof {
        lemma_kept_is_filter(spec_texts(disallowed@), keep_disallowed@, |d: Seq<char>| ranked.contains(d));
    }
    // required notes that no explanation note contains
    let ghost notes = spec_texts(explanation_notes@);
    let required = &assertions.required_explanation_notes;
    let mut keep_required: Vec<bool> = Vec::new();
    let mut i: usize = 0;
    while i < required.len()
        invariant
            i <= required@.len(),
            keep_required@.len() == i,
            notes == spec_texts(explanation_notes@),
            forall|j: int| 0 <= j < i ==> keep_required@[j] == !(exists|k: int| 0 <= k < notes.len()
                && spec_contains(#[trigger] notes[k], required@[j]@)),
        decreases required@.len() - i,
    {
        let mut found = false;
        let mut k: usize = 0;
        while k < explanation_notes.len()
            invariant
                k <= explanation_notes@.len(),
                i < required@.len(),
                notes == spec_texts(explanation_notes@),
                found == exists|m: int| 0 <= m < k && spec_contains(#[trigger] notes[m], required@[i as int]@),
            decreases explanation_notes@.len() - k,
        {
            if contains_text(explanation_notes[k].as_str(), required[i].as_str()) {
                proof {
                    assert(notes[k as int] == explanation_notes@[k as int]@);
                }
                found = true;
            } else {
                proof {
                    assert(notes[k as int] == explanation_notes@[k as int]@);
                }
            }
            k += 1;
        }
        keep_required.push(!found);
        i += 1;
    }
    let missing_notes = filter_texts(required, &keep_required);
    proof {
        lemma_kept_is_filter(
            spec_texts(required@),
            keep_required@,
            |q: Seq<char>| !(exists|i: int| 0 <= i < notes.len() && spec_contains(#[trigger] notes[i], q)),
        );
    }
    let passed = missing_expected.len() == 0 && present_disallowed.len() == 0 && missing_notes.len() == 0;
    RecallEvaluationCaseReport {
        name: String::from_str(name),
        passed,
        ranked_record_ids: copy_texts(ranked_record_ids),
        missing_expected_record_ids: missing_expected,
        present_disallowed_record_ids: present_disallowed,
        missing_explanation_notes: missing_notes,
    }
}

/// How many reports passed.
pub open spec fn spec_passed_count(reports: Seq<RecallEvaluationCaseReport>) -> nat
    decreases reports.len(),
{
    if reports.len() == 0 {
        0
    } else {
        spec_passed_count(reports.drop_last()) + if reports.last().passed {
            1nat
        } else {
            0nat
        }
    }
}

pub fn passed_case_count(reports: &Vec<RecallEvaluationCaseReport>) -> (r: usize)
    ensures
        r == spec_passed_count(reports@),
        r <= reports@.len(),
{
    let n = reports.len();
    let mut count: usize = 0;
    let mut i: usize = 0;
    while i < n
        invariant
            n == reports@.len(),
            i <= n,
            count <= i,
            count == spec_passed_count(reports@.subrange(0, i as int)),
        decreases n - i,
    {
        proof {
            let pre = reports@.subrange(0, i + 1);
            assert(pre.drop_last() =~= reports@.subrange(0, i as int));
            assert(pre.last() == reports@[i as int]);
        }
        if reports[i].passed {
            count += 1;
        }
        i += 1;
    }
    proof {
        assert(reports@.subrange(0, n as int) =~= reports@);
    }
    count
}


/// What a ranking shows of the relevant records: the counts that ranking
/// metrics at a cutoff are computed from.
#[derive(Debug, Clone, PartialEq, Eq)]
pub struct RankingTally {
    /// The number of distinct relevant records.
    pub relevant: usize,
    /// The positions, within the cutoff, that hold a relevant record.
    pub hit_positions: Vec<usize>,
    /// The first position of the whole ranking that holds a relevant record.
    pub first_relevant: Option<usize>,
}

/// The positions below `n` whose record is relevant, in order.
pub open spec fn spec_hit_positions(ranked: Seq<Seq<char>>, relevant: Seq<Seq<char>>, n: int) -> Seq<usize>
    decreases n,
{
    if n <= 0 {
        seq![]
    } else {
        spec_hit_positions(ranked, relevant, n - 1) + if relevant.contains(ranked[n - 1]) {
            seq![(n - 1) as usize]
        } else {
            seq![]
        }
    }
}

/// Tallies a ranking against the relevant records at cutoff `k`.
pub fn ranking_tally(ranked_ids: &Vec<String>, relevant_ids: &Vec<String>, k: usize) -> (r: RankingTally)
    ensures
        r.relevant == spec_sorted_set(spec_texts(relevant_ids@)).len(),
        r.hit_positions@ == spec_hit_positions(
            spec_texts(ranked_ids@),
            spec_texts(relevant_ids@),
            if k < ranked_ids@.len() { k as int } else { ranked_ids@.len() as int },
        ),
        match r.first_relevant {
            Some(p) => p < ranked_ids@.len() && spec_texts(relevant_ids@).contains(ranked_ids@[p as int]@)
                && forall|j: int| 0 <= j < p ==> !spec_texts(relevant_ids@).contains(#[trigger] ranked_ids@[j]@),
            None => forall|j: int| 0 <= j < ranked_ids@.len() ==> !spec_texts(relevant_ids@).contains(#[trigger] ranked_ids@[j]@),
        },
{
    let relevant = sorted_distinct(relevant_ids);
    let ghost rel = spec_texts(relevant_ids@);
    let ghost ranked = spec_texts(ranked_ids@);
    proof {
        lemma_sorted_set(rel);
    }
    let n = ranked_ids.len();
    let top: usize = if k < n { k } else { n };
    let mut hits: Vec<usize> = Vec::new();
    let mut first: Option<usize> = None;
    let mut i: usize = 0;
    while i < n
        invariant
            n == ranked_ids@.len(),
            top <= n,
            i <= n,
            rel == spec_texts(relevant_ids@),
            ranked == spec_texts(ranked_ids@),
            forall|y: Seq<char>| spec_texts(relevant@).contains(y) == rel.contains(y),
            hits@ == spec_hit_positions(ranked, rel, if i < top { i as int } else { top as int }),
            match first {
                Some(p) => p < i && rel.contains(ranked_ids@[p as int]@)
                    && forall|j: int| 0 <= j < p ==> !rel.contains(#[trigger] ranked_ids@[j]@),
                None => forall|j: int| 0 <= j < i ==> !rel.contains(#[trigger] ranked_ids@[j]@),
            },
        decreases n - i,
    {
        let found = list_contains(&relevant, ranked_ids[i].as_str());
        proof {
            lemma_contains_listed(relevant@, ranked_ids@[i as int]@);
            assert(ranked[i as int] == ranked_ids@[i as int]@);
            assert(found == rel.contains(ranked[i as int]));
        }
        if found {
            if i < top {
                hits.push(i);
            }
            if first.is_none() {
                first = Some(i);
            }
        }
        i += 1;
    }
    let relevant_count = relevant.len();
    proof {
        assert(spec_texts(relevant@).len() == relevant@.len());
    }
    RankingTally { relevant: relevant_count, hit_positions: hits, first_relevant: first }
}

} // verus!
