use std::collections::BTreeSet;

use deslop_recipes::evaluation::{
    case, cluster_totals, expand_cases, frozen_unreachable_rust_cases, observed_emissions, raw_totals,
    CorpusLabel, FrozenRecipeCase, RecipeEvaluationError, RecipeEvaluationThresholdResults,
    RecipeEvaluationTotals,
};

#[test]
fn frozen_corpus_expands_to_exact_slice() {
    let cases = frozen_unreachable_rust_cases().unwrap();
    assert_eq!(cases.len(), 2_000);
    assert_eq!(cases.iter().filter(|case| case.label == CorpusLabel::Opportunity).count(), 1_000);
    assert_eq!(cases.iter().filter(|case| case.label == CorpusLabel::HardNegative).count(), 1_000);
    assert_eq!(cases.iter().map(|case| case.id.as_str()).collect::<BTreeSet<_>>().len(), 2_000);
    assert_eq!(cases.iter().map(|case| (case.cluster.as_str(), case.label)).collect::<BTreeSet<_>>().len(), 400);
    assert!(cases[..1_000].iter().all(|case| case.label == CorpusLabel::Opportunity));
}

#[test]
fn cases_render_each_family_exactly() {
    let positive = case(CorpusLabel::Opportunity, 0, 0);
    assert_eq!(positive.cluster, "positive-000");
    assert_eq!(positive.source, "fn positive_0_0() { /* layout-00 */ return; 0; }\n");
    assert_eq!(positive.target_text.as_deref(), Some("0;"));

    let float = case(CorpusLabel::Opportunity, 6, 3);
    assert_eq!(float.source, "fn positive_6_3() { /* layout-01 */ return; 1.3; }\n");
    let boolean = case(CorpusLabel::Opportunity, 12, 1);
    assert_eq!(boolean.source, "fn positive_12_1() { /* layout-02 */ return; false; }\n");
    let character = case(CorpusLabel::Opportunity, 13, 2);
    assert_eq!(character.source, "fn positive_13_2() { /* layout-02 */ return; 'c'; }\n");
    let string = case(CorpusLabel::Opportunity, 199, 4);
    assert_eq!(string.cluster, "positive-199");
    assert_eq!(string.source, "fn positive_199_4() { /* layout-39 */ return; \"layout-39-variant-4\"; }\n");
    assert_eq!(string.target_text.as_deref(), Some("\"layout-39-variant-4\";"));

    let reachable = case(CorpusLabel::HardNegative, 5, 1);
    assert_eq!(reachable.cluster, "hard-negative-005");
    assert_eq!(reachable.source, "fn negative_5_1() { /* layout-01 */ 11; }\n");
    assert_eq!(reachable.target_text, None);
    let call = case(CorpusLabel::HardNegative, 1, 2);
    assert_eq!(call.source, "fn negative_1_2() { /* layout-00 */ return; sink_0_2(); }\n");
    let operator = case(CorpusLabel::HardNegative, 2, 3);
    assert_eq!(operator.source, "fn negative_2_3() { /* layout-00 */ return; 3 + 4; }\n");
    let name = case(CorpusLabel::HardNegative, 3, 0);
    assert_eq!(name.source, "fn negative_3_0() { /* layout-00 */ return; VALUE_0_0; }\n");
    let conditional = case(CorpusLabel::HardNegative, 4, 0);
    assert_eq!(
        conditional.source,
        "fn negative_4_0(flag: bool) { /* layout-00 */ if flag { return; } \"layout-0-variant-0\"; }\n"
    );
}

#[test]
fn case_identity_is_content_addressed() {
    let a = case(CorpusLabel::Opportunity, 0, 0);
    let again = case(CorpusLabel::Opportunity, 0, 0);
    let b = case(CorpusLabel::Opportunity, 0, 1);
    assert_eq!(a.id, again.id);
    assert_ne!(a.id, b.id);
    assert!(a.id.starts_with("b2c1_"));
    assert_eq!(a.id.len(), 5 + 64);
    let frozen = frozen_unreachable_rust_cases().unwrap();
    assert_eq!(frozen[0], a);
    assert_eq!(frozen[1_000], case(CorpusLabel::HardNegative, 0, 0));
}

#[test]
fn expansion_follows_clusters_then_variants() {
    let cases = expand_cases(2, 1, 3);
    let keys = cases.iter().map(|case| (case.label, case.cluster.clone())).collect::<Vec<_>>();
    assert_eq!(cases.len(), 9);
    assert_eq!(keys[0], (CorpusLabel::Opportunity, "positive-000".to_string()));
    assert_eq!(keys[3], (CorpusLabel::Opportunity, "positive-001".to_string()));
    assert_eq!(keys[6], (CorpusLabel::HardNegative, "hard-negative-000".to_string()));
    assert_eq!(cases[4], case(CorpusLabel::Opportunity, 1, 1));
    assert!(expand_cases(0, 0, 5).is_empty());
}

fn perfect(cases: &[FrozenRecipeCase]) -> Vec<bool> {
    cases.iter().map(|case| case.label == CorpusLabel::Opportunity).collect()
}

#[test]
fn perfect_cluster_evidence_has_clean_totals() {
    let cases = frozen_unreachable_rust_cases().unwrap();
    let emitted = perfect(&cases);
    assert_eq!(
        raw_totals(&cases, &emitted),
        RecipeEvaluationTotals { true_positive: 1_000, false_positive: 0, true_negative: 1_000, false_negative: 0 }
    );
    assert_eq!(
        cluster_totals(&cases, &emitted),
        RecipeEvaluationTotals { true_positive: 200, false_positive: 0, true_negative: 200, false_negative: 0 }
    );
}

#[test]
fn one_hard_negative_false_positive_marks_its_whole_cluster() {
    let cases = frozen_unreachable_rust_cases().unwrap();
    let mut emitted = perfect(&cases);
    let index = cases.iter().position(|case| case.label == CorpusLabel::HardNegative).unwrap();
    emitted[index] = true;
    let raw = raw_totals(&cases, &emitted);
    assert_eq!(raw.false_positive, 1);
    assert_eq!(raw.true_negative, 999);
    let clustered = cluster_totals(&cases, &emitted);
    assert_eq!(clustered.false_positive, 1);
    assert_eq!(clustered.true_negative, 199);

    let mut missed = perfect(&cases);
    missed[0] = false;
    let clustered = cluster_totals(&cases, &missed);
    assert_eq!(clustered.true_positive, 199);
    assert_eq!(clustered.false_negative, 1);
}

#[test]
fn observations_are_matched_by_identity_and_must_close() {
    let cases = expand_cases(1, 1, 2);
    let mut ids = cases.iter().map(|case| case.id.clone()).collect::<Vec<_>>();
    ids.reverse();
    let emitted = vec![false, false, true, true];
    let valid = vec![true; 4];
    assert_eq!(observed_emissions(&cases, &ids, &emitted, &valid).unwrap(), vec![true, true, false, false]);

    let short = ids[..3].to_vec();
    assert!(matches!(
        observed_emissions(&cases, &short, &emitted[..3].to_vec(), &valid[..3].to_vec()),
        Err(RecipeEvaluationError::InvalidObservations(_))
    ));
    let mut duplicate = ids.clone();
    duplicate[1] = duplicate[0].clone();
    assert!(observed_emissions(&cases, &duplicate, &emitted, &valid).is_err());
    let mut foreign = ids.clone();
    foreign[2] = "b2c1_unknown".into();
    assert!(observed_emissions(&cases, &foreign, &emitted, &valid).is_err());
    let mut bad_confidence = valid.clone();
    bad_confidence[3] = false;
    assert!(observed_emissions(&cases, &ids, &emitted, &bad_confidence).is_err());
}

#[test]
fn threshold_results_pass_only_when_all_hold() {
    assert!(RecipeEvaluationThresholdResults::from_checks(true, true, true, true).passed);
    assert!(!RecipeEvaluationThresholdResults::from_checks(true, true, false, true).passed);
    assert_eq!(
        RecipeEvaluationError::InvalidCorpus("x".into()).message(),
        "invalid recipe evaluation corpus: x"
    );
}
