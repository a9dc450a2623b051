use soundrank::analyze_output;
use soundrank::rank_top_k;
use soundrank::resolve_labels;

fn catalog(names: &[&str]) -> Vec<String> {
    names.iter().map(|s| s.to_string()).collect()
}

#[test]
fn top_two_of_three_scores() {
    // The spec scenario: scores [0.1, 0.9, 0.4] with catalog
    // ["dog", "siren", "rain"] and K = 2 yield ["siren", "rain"]. The
    // ranking takes the scores under any order-preserving integer
    // encoding; here each score is scaled by a thousand.
    let raw: [f32; 3] = [0.1, 0.9, 0.4];
    let scores: Vec<i64> = raw.iter().map(|s| (s * 1000.0) as i64).collect();
    let labels = catalog(&["dog", "siren", "rain"]);
    let out = analyze_output(&scores, &labels, 2);
    assert_eq!(out, vec!["siren".to_string(), "rain".to_string()]);
}

#[test]
fn ranking_is_sorted_descending() {
    let scores: Vec<i64> = vec![10, 50, 30, 40, 20];
    let ranked = rank_top_k(&scores, 5);
    let got: Vec<(usize, i64)> = ranked.iter().map(|e| (e.index, e.score)).collect();
    assert_eq!(got, vec![(1, 50), (3, 40), (2, 30), (4, 20), (0, 10)]);
}

#[test]
fn equal_scores_keep_lower_index_first() {
    let scores: Vec<i64> = vec![5, 7, 5, 7, 5];
    let ranked = rank_top_k(&scores, 5);
    let got: Vec<(usize, i64)> = ranked.iter().map(|e| (e.index, e.score)).collect();
    assert_eq!(got, vec![(1, 7), (3, 7), (0, 5), (2, 5), (4, 5)]);
}

#[test]
fn k_larger_than_class_count_returns_all() {
    let scores: Vec<i64> = vec![2, 1];
    let ranked = rank_top_k(&scores, 5);
    assert_eq!(ranked.len(), 2);
    assert_eq!(ranked[0].index, 0);
    assert_eq!(ranked[1].index, 1);
}

#[test]
fn k_zero_returns_nothing() {
    let scores: Vec<i64> = vec![2, 1];
    assert!(rank_top_k(&scores, 0).is_empty());
}

#[test]
fn empty_scores_rank_empty() {
    let scores: Vec<i64> = vec![];
    assert!(rank_top_k(&scores, 5).is_empty());
    assert!(analyze_output(&scores, &catalog(&["dog"]), 5).is_empty());
}

#[test]
fn full_catalog_never_resolves_to_placeholder() {
    // Three non-empty catalog lines against exactly three scores: every
    // ranked position resolves to a real catalog label.
    let scores: Vec<i64> = vec![12, -4, 9];
    let labels = catalog(&["dog", "siren", "rain"]);
    let out = analyze_output(&scores, &labels, 3);
    assert_eq!(out, vec!["dog".to_string(), "rain".to_string(), "siren".to_string()]);
    for label in out.iter() {
        assert_ne!(label, "Unknown label");
        assert!(labels.contains(label));
    }
}

#[test]
fn short_catalog_substitutes_placeholder() {
    let scores: Vec<i64> = vec![1, 3, 2];
    let labels = catalog(&["dog"]);
    let out = analyze_output(&scores, &labels, 3);
    assert_eq!(
        out,
        vec![
            "Unknown label".to_string(),
            "Unknown label".to_string(),
            "dog".to_string(),
        ]
    );
}

#[test]
fn resolve_maps_each_entry_by_index() {
    let scores: Vec<i64> = vec![6, 4, 8];
    let ranked = rank_top_k(&scores, 2);
    let labels = catalog(&["a", "b", "c"]);
    let out = resolve_labels(&ranked, &labels);
    assert_eq!(out, vec!["c".to_string(), "a".to_string()]);
}

#[test]
fn top_five_of_ten_in_order() {
    // A larger tensor: the five best of ten scores, in order.
    let scores: Vec<i64> = vec![3, 14, 1, 59, 26, 5, 35, 8, 97, 93];
    let labels = catalog(&["c0", "c1", "c2", "c3", "c4", "c5", "c6", "c7", "c8", "c9"]);
    let out = analyze_output(&scores, &labels, 5);
    assert_eq!(
        out,
        vec![
            "c8".to_string(),
            "c9".to_string(),
            "c3".to_string(),
            "c6".to_string(),
            "c4".to_string(),
        ]
    );
}
