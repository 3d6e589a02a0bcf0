use mnemara::evaluation::{
    evaluate_case, passed_case_count, ranking_tally, relevant_record_ids, sorted_distinct,
    RecallEvaluationAssertions, RankingTally,
};

fn ids(items: &[&str]) -> Vec<String> {
    items.iter().map(|s| s.to_string()).collect()
}

#[test]
fn evaluates_judged_recall_cases_with_assertions() {
    let assertions = RecallEvaluationAssertions {
        expected_record_ids: ids(&["a"]),
        optional_record_ids: ids(&["b"]),
        disallowed_record_ids: ids(&["x"]),
        required_explanation_notes: ids(&["policy=general"]),
    };
    let ranked = ids(&["a", "b"]);
    let notes = ids(&["recall_policy=general"]);

    let report = evaluate_case("release memory", &assertions, &ranked, &notes);
    let reports = vec![report];
    let passed = passed_case_count(&reports);

    assert_eq!(reports.len(), 1);
    assert_eq!(passed, 1);
    assert_eq!(reports.len() - passed, 0);
    assert!(reports[0].passed);
    assert_eq!(reports[0].name, "release memory");
    assert_eq!(reports[0].ranked_record_ids, ranked);
    assert_eq!(relevant_record_ids(&assertions), ids(&["a", "b"]));
}

#[test]
fn failing_cases_name_what_went_wrong() {
    let assertions = RecallEvaluationAssertions {
        expected_record_ids: ids(&["z", "a", "z", "m"]),
        optional_record_ids: ids(&["a", "k"]),
        disallowed_record_ids: ids(&["x", "q", "x"]),
        required_explanation_notes: ids(&["scoring", "missing-note"]),
    };
    let ranked = ids(&["m", "x", "b"]);
    let notes = ids(&["scoring_profile=balanced"]);
    let report = evaluate_case("storm", &assertions, &ranked, &notes);
    assert!(!report.passed);
    assert_eq!(report.missing_expected_record_ids, ids(&["a", "z"]));
    assert_eq!(report.present_disallowed_record_ids, ids(&["x", "x"]));
    assert_eq!(report.missing_explanation_notes, ids(&["missing-note"]));
    assert_eq!(relevant_record_ids(&assertions), ids(&["a", "k", "m", "z"]));
    assert_eq!(passed_case_count(&vec![report]), 0);
}

#[test]
fn empty_assertions_pass() {
    let report = evaluate_case("empty", &RecallEvaluationAssertions::default(), &vec![], &vec![]);
    assert!(report.passed);
    assert!(relevant_record_ids(&RecallEvaluationAssertions::default()).is_empty());
}

#[test]
fn sorted_distinct_orders_by_code_point() {
    assert_eq!(
        sorted_distinct(&ids(&["b", "B", "a", "b", "ab", ""])),
        ids(&["", "B", "a", "ab", "b"])
    );
}

#[test]
fn ranking_tally_counts_hits_within_the_cutoff() {
    let tally = ranking_tally(&ids(&["a", "b", "c", "b", "d"]), &ids(&["d", "b", "d"]), 3);
    assert_eq!(
        tally,
        RankingTally { relevant: 2, hit_positions: vec![1], first_relevant: Some(1) }
    );
    let wide = ranking_tally(&ids(&["a", "b", "c", "b", "d"]), &ids(&["d", "b"]), 10);
    assert_eq!(wide.hit_positions, vec![1, 3, 4]);
    let none = ranking_tally(&ids(&["a"]), &ids(&["z"]), 3);
    assert_eq!(none.first_relevant, None);
    assert!(none.hit_positions.is_empty());
    assert_eq!(ranking_tally(&ids(&["a"]), &ids(&[]), 3).relevant, 0);
}

#[test]
fn computes_standard_ranking_metrics() {
    let rankings = vec![
        (ids(&["a", "b", "c"]), ids(&["b", "d"])),
        (ids(&["x", "y", "z"]), ids(&["x"])),
    ];
    let k = 3;
    let (mut hits, mut recall, mut mrr, mut ndcg) = (0.0f32, 0.0f32, 0.0f32, 0.0f32);
    for (ranked, relevant) in &rankings {
        let tally = ranking_tally(ranked, relevant, k);
        let matches = tally.hit_positions.len() as f32;
        if matches > 0.0 {
            hits += 1.0;
        }
        recall += matches / tally.relevant as f32;
        if let Some(rank) = tally.first_relevant {
            mrr += 1.0 / (rank as f32 + 1.0);
        }
        let dcg: f32 = tally.hit_positions.iter().map(|&i| 1.0 / ((i as f32 + 2.0).log2())).sum();
        let ideal: f32 = (0..tally.relevant.min(k)).map(|i| 1.0 / ((i as f32 + 2.0).log2())).sum();
        ndcg += dcg / ideal;
    }
    let cases = rankings.len() as f32;
    assert_eq!(rankings.len(), 2);
    assert!(hits / cases > 0.9);
    assert!(recall / cases > 0.7);
    assert!(mrr / cases > 0.6);
    assert!(ndcg / cases > 0.6);
}
