use hybrid_retrieval::bundle::assemble_context;
use hybrid_retrieval::engine::build_response;
use hybrid_retrieval::engine::fold_related;
use hybrid_retrieval::engine::plan_query;
use hybrid_retrieval::engine::related_seeds;
use hybrid_retrieval::engine::QueryRequest;
use hybrid_retrieval::engine::RequestError;
use hybrid_retrieval::engine::RELATED_SEED_COUNT;
use hybrid_retrieval::engine::TRAVERSAL_SEED_CAP;
use hybrid_retrieval::expand::build_expanded_query;
use hybrid_retrieval::expand::ExpansionTerms;
use hybrid_retrieval::model::Candidate;
use hybrid_retrieval::model::RELATED_TIER_SCORE;

fn plain_request(query: &str) -> QueryRequest {
    QueryRequest {
        query: query.to_string(),
        limit: None,
        context_window: None,
        expand_query: None,
        include_related: None,
        max_depth: None,
    }
}

fn candidate(id: &str, entity_id: Option<&str>) -> Candidate {
    Candidate {
        id: id.to_string(),
        entity_id: entity_id.map(|e| e.to_string()),
        title: "t".to_string(),
        content: "content body".to_string(),
        path: None,
        source: "graph".to_string(),
        content_type: "code".to_string(),
        semantic_score: 0,
        graph_score: 500,
        relationship_depth: 1,
        final_score: 450000,
        related_ids: Vec::new(),
    }
}

#[test]
fn empty_query_is_rejected_before_any_backend_call() {
    let r = plan_query(plain_request(""));
    assert!(matches!(r, Err(RequestError::EmptyQuery)));
}

#[test]
fn whitespace_query_is_rejected() {
    let r = plan_query(plain_request("  \t\n"));
    assert!(matches!(r, Err(RequestError::EmptyQuery)));
}

#[test]
fn unicode_whitespace_query_is_rejected() {
    let r = plan_query(plain_request("\u{00A0}\u{2003} "));
    assert!(matches!(r, Err(RequestError::EmptyQuery)));
}

#[test]
fn zero_limit_is_rejected() {
    let mut req = plain_request("q");
    req.limit = Some(0);
    let r = plan_query(req);
    assert!(matches!(r, Err(RequestError::ZeroLimit)));
}

#[test]
fn defaults_are_resolved() {
    let p = plan_query(plain_request("q")).unwrap();
    assert_eq!(p.limit, 10);
    assert_eq!(p.context_window, 8000);
    assert!(p.expand_query);
    assert!(p.include_related);
    assert_eq!(p.max_depth, 2);
    assert_eq!(p.fetch_limit, 20);
}

#[test]
fn excessive_depth_is_clamped_not_rejected() {
    let mut req = plain_request("q");
    req.max_depth = Some(10);
    let p = plan_query(req).unwrap();
    assert_eq!(p.max_depth, 3);
}

#[test]
fn zero_depth_is_raised_to_one() {
    let mut req = plain_request("q");
    req.max_depth = Some(0);
    let p = plan_query(req).unwrap();
    assert_eq!(p.max_depth, 1);
}

#[test]
fn enormous_limits_saturate_the_fetch_limit() {
    let mut req = plain_request("q");
    req.limit = Some(usize::MAX);
    let p = plan_query(req).unwrap();
    assert_eq!(p.limit, usize::MAX);
    assert_eq!(p.fetch_limit, usize::MAX);
}

#[test]
fn non_ascii_queries_are_not_blank() {
    let p = plan_query(plain_request("café données"));
    assert!(p.is_ok());
}

#[test]
fn request_error_messages() {
    assert_eq!(RequestError::EmptyQuery.message(), "query cannot be empty");
    assert_eq!(RequestError::ZeroLimit.message(), "limit must be at least 1");
}

#[test]
fn seeds_are_the_leading_entity_ids() {
    let ranked = vec![
        candidate("a", Some("e1")),
        candidate("b", None),
        candidate("c", Some("e2")),
        candidate("d", Some("e3")),
        candidate("e", Some("e4")),
    ];
    let seeds = related_seeds(&ranked, RELATED_SEED_COUNT);
    assert_eq!(seeds, vec!["e1".to_string(), "e2".to_string(), "e3".to_string()]);
    let all = related_seeds(&ranked, TRAVERSAL_SEED_CAP);
    assert_eq!(all.len(), 4);
}

#[test]
fn related_hits_enter_at_the_suppressed_tier() {
    let ranked = vec![candidate("a", Some("e1"))];
    let mut related = candidate("n1", Some("n1"));
    related.final_score = 0;
    let folded = fold_related(ranked, vec![related]);
    assert_eq!(folded.len(), 2);
    assert_eq!(folded[0].id, "a");
    assert_eq!(folded[0].final_score, 450000);
    assert_eq!(folded[1].id, "n1");
    assert_eq!(folded[1].final_score, RELATED_TIER_SCORE);
}

#[test]
fn response_truncates_results_to_the_limit() {
    let ranked = vec![
        candidate("a", None),
        candidate("b", None),
        candidate("c", None),
    ];
    let bundle = assemble_context(&ranked, &"q".to_string(), 100);
    let r = build_response(&"q".to_string(), &ranked, 2, 1, bundle, 2);
    assert_eq!(r.total_results, 3);
    assert_eq!(r.results.len(), 2);
    assert_eq!(r.results[0].id, "a");
    assert_eq!(r.results[1].id, "b");
    assert_eq!(r.vector_matches, 2);
    assert_eq!(r.graph_matches, 1);
    assert_eq!(r.query, "q");
}

#[test]
fn expansion_fails_open_to_the_identity() {
    let q = "find the parser".to_string();
    let e = build_expanded_query(&q, None);
    assert_eq!(e.original, "find the parser");
    assert_eq!(e.combined, "find the parser");
    assert!(e.semantic_terms.is_empty());
    assert!(e.technical_concepts.is_empty());
    assert!(e.potential_names.is_empty());
}

#[test]
fn expansion_joins_terms_with_spaces() {
    let q = "auth".to_string();
    let terms = ExpansionTerms {
        semantic_terms: vec!["login".to_string(), "session".to_string()],
        technical_concepts: vec!["jwt".to_string()],
        potential_names: vec!["auth_rs".to_string()],
    };
    let e = build_expanded_query(&q, Some(terms));
    assert_eq!(e.combined, "auth login session jwt");
    assert_eq!(e.original, "auth");
    // potential names are exposed but not searched by default
    assert_eq!(e.potential_names, vec!["auth_rs".to_string()]);
}

#[test]
fn expansion_with_empty_term_lists_keeps_the_query() {
    let q = "auth".to_string();
    let terms = ExpansionTerms {
        semantic_terms: Vec::new(),
        technical_concepts: Vec::new(),
        potential_names: Vec::new(),
    };
    let e = build_expanded_query(&q, Some(terms));
    assert_eq!(e.combined, "auth");
}
