use hybrid_retrieval::bundle::assemble_context;
use hybrid_retrieval::engine::build_response;
use hybrid_retrieval::engine::fail_open;
use hybrid_retrieval::engine::BackendFailure;
use hybrid_retrieval::fusion::merge_and_rank;
use hybrid_retrieval::fusion::merge_candidates;
use hybrid_retrieval::fusion::score_candidates;
use hybrid_retrieval::fusion::sort_by_final_score;
use hybrid_retrieval::model::Candidate;
use hybrid_retrieval::model::RankingWeights;
use hybrid_retrieval::model::DEFAULT_MAX_RESULTS;

fn vector_candidate(id: &str, content: &str, semantic_milli: u32) -> Candidate {
    Candidate {
        id: id.to_string(),
        entity_id: None,
        title: String::new(),
        content: content.to_string(),
        path: None,
        source: "unknown".to_string(),
        content_type: "code".to_string(),
        semantic_score: semantic_milli,
        graph_score: 0,
        relationship_depth: 0,
        final_score: 0,
        related_ids: Vec::new(),
    }
}

fn graph_candidate(id: &str, content: &str, graph_milli: u32, depth: u32) -> Candidate {
    Candidate {
        id: id.to_string(),
        entity_id: Some(id.to_string()),
        title: String::new(),
        content: content.to_string(),
        path: None,
        source: "graph".to_string(),
        content_type: "code".to_string(),
        semantic_score: 0,
        graph_score: graph_milli,
        relationship_depth: depth,
        final_score: 0,
        related_ids: Vec::new(),
    }
}

#[test]
fn merge_keeps_one_record_per_shared_id() {
    let v = vec![vector_candidate("a", "left", 900)];
    let mut g = graph_candidate("a", "right", 600, 1);
    g.related_ids = vec!["n1".to_string()];
    let merged = merge_candidates(v, vec![g]);
    assert_eq!(merged.len(), 1);
    assert_eq!(merged[0].id, "a");
    // vector-origin fields kept, graph fields folded in
    assert_eq!(merged[0].content, "left");
    assert_eq!(merged[0].semantic_score, 900);
    assert_eq!(merged[0].graph_score, 600);
    assert_eq!(merged[0].relationship_depth, 1);
    assert_eq!(merged[0].related_ids, vec!["n1".to_string()]);
}

#[test]
fn merge_appends_fresh_graph_hits_in_order() {
    let v = vec![vector_candidate("a", "va", 800)];
    let g = vec![
        graph_candidate("b", "gb", 500, 1),
        graph_candidate("c", "gc", 400, 2),
    ];
    let merged = merge_candidates(v, g);
    let ids: Vec<&str> = merged.iter().map(|c| c.id.as_str()).collect();
    assert_eq!(ids, vec!["a", "b", "c"]);
}

#[test]
fn merge_replaces_repeated_vector_ids_in_place() {
    let v = vec![
        vector_candidate("a", "first", 100),
        vector_candidate("b", "vb", 200),
        vector_candidate("a", "second", 300),
    ];
    let merged = merge_candidates(v, Vec::new());
    assert_eq!(merged.len(), 2);
    assert_eq!(merged[0].id, "a");
    assert_eq!(merged[0].content, "second");
    assert_eq!(merged[1].id, "b");
}

#[test]
fn scoring_follows_the_fusion_formula() {
    let weights = RankingWeights::default();
    let scored = score_candidates(vec![vector_candidate("a", "jwt_validator", 900)], &weights);
    // 900*350 + 0*250 + (1000/1)*200 + 500*100 + (1000/1)*100
    assert_eq!(scored[0].final_score, 315000 + 0 + 200000 + 50000 + 100000);
}

#[test]
fn scoring_diversity_rewards_underrepresented_types() {
    let weights = RankingWeights::default();
    let scored = score_candidates(
        vec![
            vector_candidate("a", "x", 500),
            vector_candidate("b", "y", 500),
        ],
        &weights,
    );
    // same type: the second entry's diversity reciprocal halves
    assert_eq!(scored[0].final_score - scored[1].final_score, 50000);
}

#[test]
fn sort_is_stable_on_equal_scores() {
    let mut a = vector_candidate("first", "x", 500);
    a.final_score = 700;
    let mut b = vector_candidate("second", "y", 500);
    b.final_score = 700;
    let mut c = vector_candidate("third", "z", 500);
    c.final_score = 900;
    let sorted = sort_by_final_score(vec![a, b, c]);
    let ids: Vec<&str> = sorted.iter().map(|c| c.id.as_str()).collect();
    assert_eq!(ids, vec!["third", "first", "second"]);
}

#[test]
fn ranked_scores_never_increase() {
    let weights = RankingWeights::default();
    let v = vec![
        vector_candidate("a", "aa", 100),
        vector_candidate("b", "bb", 950),
    ];
    let g = vec![
        graph_candidate("c", "cc", 900, 1),
        graph_candidate("b", "bb", 100, 2),
    ];
    let ranked = merge_and_rank(v, g, &weights, DEFAULT_MAX_RESULTS);
    for w in ranked.windows(2) {
        assert!(w[0].final_score >= w[1].final_score);
    }
}

#[test]
fn rank_truncates_to_the_maximum() {
    let weights = RankingWeights::default();
    let v = (0..30)
        .map(|i| vector_candidate(&format!("id{}", i), "c", 500))
        .collect();
    let ranked = merge_and_rank(v, Vec::new(), &weights, 20);
    assert_eq!(ranked.len(), 20);
}

#[test]
fn shared_ids_survive_ranking_merged_not_duplicated() {
    let weights = RankingWeights::default();
    let v = vec![
        vector_candidate("a", "va", 900),
        vector_candidate("b", "vb", 200),
    ];
    let g = vec![
        graph_candidate("a", "ga", 600, 1),
        graph_candidate("c", "gc", 400, 2),
    ];
    let ranked = merge_and_rank(v, g, &weights, DEFAULT_MAX_RESULTS);
    let shared: Vec<&Candidate> = ranked.iter().filter(|c| c.id == "a").collect();
    assert_eq!(shared.len(), 1);
    assert_eq!(shared[0].semantic_score, 900);
    assert_eq!(shared[0].graph_score, 600);
}

#[test]
fn ranking_is_deterministic_across_runs() {
    let make = || {
        (
            vec![
                vector_candidate("a", "alpha content", 700),
                vector_candidate("b", "beta content", 400),
            ],
            vec![
                graph_candidate("b", "beta content", 800, 1),
                graph_candidate("c", "gamma content", 300, 2),
            ],
        )
    };
    let weights = RankingWeights::default();
    let (v1, g1) = make();
    let (v2, g2) = make();
    let r1 = merge_and_rank(v1, g1, &weights, 10);
    let r2 = merge_and_rank(v2, g2, &weights, 10);
    assert_eq!(r1.len(), r2.len());
    for (x, y) in r1.iter().zip(r2.iter()) {
        assert_eq!(x.id, y.id);
        assert_eq!(x.final_score, y.final_score);
    }
    let b1 = assemble_context(&r1, &"q".to_string(), 8000);
    let b2 = assemble_context(&r2, &"q".to_string(), 8000);
    assert_eq!(b1.total_tokens, b2.total_tokens);
    assert_eq!(b1.items.len(), b2.items.len());
    for (x, y) in b1.items.iter().zip(b2.items.iter()) {
        assert_eq!(x.id, y.id);
        assert_eq!(x.content, y.content);
        assert_eq!(x.tokens, y.tokens);
    }
}

#[test]
fn vector_failure_keeps_the_graph_hits() {
    let vector_results = fail_open(Err(BackendFailure::Timeout));
    assert!(vector_results.is_empty());
    let g = vec![
        graph_candidate("g1", "one", 600, 1),
        graph_candidate("g2", "two", 500, 1),
        graph_candidate("g3", "three", 400, 2),
    ];
    let graph_results = fail_open(Ok(g));
    let vector_count = vector_results.len();
    let graph_count = graph_results.len();
    let weights = RankingWeights::default();
    let ranked = merge_and_rank(vector_results, graph_results, &weights, 20);
    assert_eq!(ranked.len(), 3);
    let mut ids: Vec<&str> = ranked.iter().map(|c| c.id.as_str()).collect();
    ids.sort();
    assert_eq!(ids, vec!["g1", "g2", "g3"]);
    let bundle = assemble_context(&ranked, &"q".to_string(), 8000);
    let response = build_response(&"q".to_string(), &ranked, vector_count, graph_count, bundle, 10);
    assert_eq!(response.vector_matches, 0);
    assert_eq!(response.graph_matches, 3);
    assert_eq!(response.total_results, 3);
}

#[test]
fn jwt_scenario_ranks_the_vector_hit_first() {
    let query = "How does JWT authentication work?".to_string();
    let v = vec![vector_candidate("a", "jwt_validator", 900)];
    let g = vec![graph_candidate("b", "auth_test", 600, 1)];
    let weights = RankingWeights::default();
    let ranked = merge_and_rank(v, g, &weights, 20);
    assert_eq!(ranked.len(), 2);
    assert_eq!(ranked[0].id, "a");
    assert_eq!(ranked[1].id, "b");
    // 0.9 * 0.35 beats 0.6 * 0.25 + 0.5 * 0.20 on the decisive terms
    assert!(ranked[0].final_score > ranked[1].final_score);
    let bundle = assemble_context(&ranked, &query, 8000);
    assert_eq!(bundle.items.len(), 2);
    assert_eq!(bundle.items[0].id, "a");
    assert_eq!(bundle.items[1].id, "b");
    assert!(bundle.total_tokens <= 8000);
}
