use hybrid_retrieval::bundle::assemble_context;
use hybrid_retrieval::bundle::estimate_tokens;
use hybrid_retrieval::model::Candidate;

fn sized_candidate(id: &str, content_chars: usize, score: u64) -> Candidate {
    Candidate {
        id: id.to_string(),
        entity_id: None,
        title: format!("title {}", id),
        content: "x".repeat(content_chars),
        path: Some(format!("/src/{}", id)),
        source: "unknown".to_string(),
        content_type: "code".to_string(),
        semantic_score: 500,
        graph_score: 0,
        relationship_depth: 0,
        final_score: score,
        related_ids: Vec::new(),
    }
}

#[test]
fn tokens_are_one_per_four_characters() {
    assert_eq!(estimate_tokens(&"x".repeat(400)), 100);
    assert_eq!(estimate_tokens(&"xyz".to_string()), 0);
    assert_eq!(estimate_tokens(&String::new()), 0);
}

#[test]
fn bundle_never_exceeds_the_window() {
    let results = vec![
        sized_candidate("a", 400, 900), // 100 tokens
        sized_candidate("b", 400, 800), // 100 tokens
        sized_candidate("c", 400, 700), // 100 tokens
    ];
    let bundle = assemble_context(&results, &"q".to_string(), 250);
    assert_eq!(bundle.items.len(), 2);
    assert_eq!(bundle.total_tokens, 200);
    assert!(bundle.total_tokens <= bundle.context_window);
    assert_eq!(bundle.query, "q");
}

#[test]
fn packing_stops_at_the_first_oversized_item() {
    // the second item breaches the budget; the smaller third would fit but is
    // never considered: rank order beats bin packing
    let results = vec![
        sized_candidate("a", 40, 900),  // 10 tokens
        sized_candidate("b", 4000, 800), // 1000 tokens
        sized_candidate("c", 40, 700),  // 10 tokens
    ];
    let bundle = assemble_context(&results, &"q".to_string(), 100);
    assert_eq!(bundle.items.len(), 1);
    assert_eq!(bundle.items[0].id, "a");
    assert_eq!(bundle.total_tokens, 10);
}

#[test]
fn exact_fit_is_packed() {
    let results = vec![
        sized_candidate("a", 400, 900),
        sized_candidate("b", 400, 800),
    ];
    let bundle = assemble_context(&results, &"q".to_string(), 200);
    assert_eq!(bundle.items.len(), 2);
    assert_eq!(bundle.total_tokens, 200);
}

#[test]
fn zero_window_packs_free_items_only() {
    let results = vec![sized_candidate("a", 400, 900)];
    let bundle = assemble_context(&results, &"q".to_string(), 0);
    assert_eq!(bundle.items.len(), 0);
    assert_eq!(bundle.total_tokens, 0);
    // an item that costs nothing still fits a zero budget
    let free = vec![sized_candidate("tiny", 3, 900)];
    let bundle = assemble_context(&free, &"q".to_string(), 0);
    assert_eq!(bundle.items.len(), 1);
    assert_eq!(bundle.total_tokens, 0);
}

#[test]
fn empty_ranking_gives_an_empty_bundle() {
    let bundle = assemble_context(&Vec::new(), &"q".to_string(), 8000);
    assert_eq!(bundle.items.len(), 0);
    assert_eq!(bundle.total_tokens, 0);
    assert_eq!(bundle.context_window, 8000);
}

#[test]
fn items_carry_the_candidate_fields() {
    let results = vec![sized_candidate("a", 40, 912345)];
    let bundle = assemble_context(&results, &"the query".to_string(), 8000);
    let item = &bundle.items[0];
    assert_eq!(item.id, "a");
    assert_eq!(item.title, "title a");
    assert_eq!(item.path.as_deref(), Some("/src/a"));
    assert_eq!(item.content_type, "code");
    assert_eq!(item.relevance_score, 912345);
    assert_eq!(item.tokens, 10);
}
