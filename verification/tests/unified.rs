use hybrid_retrieval::api::graph_connections;
use hybrid_retrieval::api::hybrid_result_item;
use hybrid_retrieval::api::related_entity_names;
use hybrid_retrieval::api::search_result_item;
use hybrid_retrieval::api::validate_hybrid_request;
use hybrid_retrieval::api::validate_search_request;
use hybrid_retrieval::api::ApiError;
use hybrid_retrieval::api::HybridSearchRequest;
use hybrid_retrieval::api::SearchRequest;
use hybrid_retrieval::api::build_hybrid_response;
use hybrid_retrieval::api::build_search_response;
use hybrid_retrieval::api::QueryInfo;
use hybrid_retrieval::unified::combine_hybrid;
use hybrid_retrieval::unified::filter_params;
use hybrid_retrieval::unified::graph_relevance;
use hybrid_retrieval::unified::hop_score;
use hybrid_retrieval::unified::rank_hybrid_results;
use hybrid_retrieval::unified::vector_result_from_row;
use hybrid_retrieval::unified::Entity;
use hybrid_retrieval::unified::HybridSearchResult;
use hybrid_retrieval::unified::RelatedChunk;
use hybrid_retrieval::unified::RowError;
use hybrid_retrieval::unified::SearchFilters;
use hybrid_retrieval::unified::VectorSearchResult;

const CHUNK_ID: &str = "550e8400-e29b-41d4-a716-446655440000";
const DOC_ID: &str = "67e55044-10b1-426f-9247-bb680e5fe0c8";

fn row(similarity: u32) -> VectorSearchResult {
    vector_result_from_row(
        CHUNK_ID.to_string(),
        "chunk text".to_string(),
        DOC_ID.to_string(),
        "github".to_string(),
        similarity,
        3,
        "{}".to_string(),
    )
    .unwrap()
}

fn related(score: u32) -> RelatedChunk {
    RelatedChunk {
        chunk_id: CHUNK_ID.to_string(),
        relationship_type: "SIMILAR_TO".to_string(),
        relationship_score: score,
    }
}

fn entity(name: &str) -> Entity {
    Entity {
        id: format!("id-{}", name),
        name: name.to_string(),
        entity_type: "function".to_string(),
        mention_count: 2,
    }
}

#[test]
fn valid_rows_are_accepted_with_fields_unchanged() {
    let v = row(820);
    assert_eq!(v.chunk_id, CHUNK_ID);
    assert_eq!(v.chunk_text, "chunk text");
    assert_eq!(v.document_id, DOC_ID);
    assert_eq!(v.source_id, "github");
    assert_eq!(v.similarity_score, 820);
    assert_eq!(v.chunk_index, 3);
    assert_eq!(v.metadata, "{}");
}

#[test]
fn malformed_chunk_id_is_refused() {
    let r = vector_result_from_row(
        "not-a-uuid".to_string(),
        "t".to_string(),
        DOC_ID.to_string(),
        "s".to_string(),
        1,
        0,
        "{}".to_string(),
    );
    assert!(matches!(r, Err(RowError::InvalidChunkId)));
}

#[test]
fn malformed_document_id_is_refused() {
    let r = vector_result_from_row(
        CHUNK_ID.to_string(),
        "t".to_string(),
        "12345".to_string(),
        "s".to_string(),
        1,
        0,
        "{}".to_string(),
    );
    assert!(matches!(r, Err(RowError::InvalidDocumentId)));
}

#[test]
fn hop_scores_are_reciprocals() {
    assert_eq!(hop_score(1), 1000);
    assert_eq!(hop_score(2), 500);
    assert_eq!(hop_score(3), 333);
}

#[test]
fn graph_relevance_is_the_mean() {
    assert_eq!(graph_relevance(&Vec::new()), 0);
    assert_eq!(graph_relevance(&vec![related(500), related(1000)]), 750);
    assert_eq!(graph_relevance(&vec![related(333)]), 333);
}

#[test]
fn combined_score_is_the_unified_split() {
    let h = combine_hybrid(row(900), vec![related(500), related(1000)], Vec::new());
    // 0.7 * 0.9 + 0.3 * 0.75 in micro-units
    assert_eq!(h.combined_score, 700 * 900 + 300 * 750);
}

#[test]
fn unified_ranking_sorts_and_truncates() {
    let mk = |sim: u32| combine_hybrid(row(sim), Vec::new(), Vec::new());
    let ranked = rank_hybrid_results(vec![mk(300), mk(900), mk(600)], 2);
    assert_eq!(ranked.len(), 2);
    assert_eq!(ranked[0].vector_result.similarity_score, 900);
    assert_eq!(ranked[1].vector_result.similarity_score, 600);
}

#[test]
fn api_rejects_blank_queries() {
    let r = validate_search_request(SearchRequest {
        query: "   ".to_string(),
        workspace_id: None,
        limit: None,
        similarity_threshold: None,
    });
    assert!(matches!(r, Err(ApiError::EmptyQuery)));
    assert_eq!(ApiError::EmptyQuery.message(), "Query cannot be empty");
}

#[test]
fn api_clamps_search_numbers() {
    let p = validate_search_request(SearchRequest {
        query: "q".to_string(),
        workspace_id: Some("ws".to_string()),
        limit: Some(100),
        similarity_threshold: Some(2000),
    })
    .unwrap();
    assert_eq!(p.limit, 50);
    assert_eq!(p.threshold, 1000);
    let d = validate_search_request(SearchRequest {
        query: "q".to_string(),
        workspace_id: None,
        limit: None,
        similarity_threshold: None,
    })
    .unwrap();
    assert_eq!(d.limit, 10);
    assert_eq!(d.threshold, 750);
}

#[test]
fn api_clamps_hybrid_depth() {
    let p = validate_hybrid_request(HybridSearchRequest {
        query: "q".to_string(),
        workspace_id: None,
        limit: Some(60),
        include_related: None,
        max_depth: Some(9),
    })
    .unwrap();
    assert_eq!(p.limit, 50);
    assert_eq!(p.max_depth, 3);
    assert!(p.include_related);
}

#[test]
fn api_rejects_zero_limits_before_any_backend_call() {
    let r = validate_search_request(SearchRequest {
        query: "q".to_string(),
        workspace_id: None,
        limit: Some(0),
        similarity_threshold: None,
    });
    assert!(matches!(r, Err(ApiError::ZeroLimit)));
    let r = validate_hybrid_request(HybridSearchRequest {
        query: "q".to_string(),
        workspace_id: None,
        limit: Some(0),
        include_related: None,
        max_depth: None,
    });
    assert!(matches!(r, Err(ApiError::ZeroLimit)));
    assert_eq!(ApiError::ZeroLimit.message(), "Limit must be at least 1");
}

fn info(query: &str) -> QueryInfo {
    QueryInfo {
        query: query.to_string(),
        workspace_id: None,
        limit: 10,
        threshold: 750,
        search_time_ms: 12,
    }
}

#[test]
fn search_response_totals_and_order_follow_the_hits() {
    let hits = vec![row(900), row(600)];
    let r = build_search_response(&hits, info("q"));
    assert_eq!(r.total, 2);
    assert_eq!(r.results.len(), 2);
    assert_eq!(r.results[0].similarity_score, 900);
    assert_eq!(r.results[1].similarity_score, 600);
    assert_eq!(r.query_info.query, "q");
    assert_eq!(r.query_info.threshold, 750);
    assert_eq!(r.query_info.search_time_ms, 12);
}

#[test]
fn hybrid_response_carries_totals_names_and_connections() {
    let results = vec![
        hit_with_entities(&["a", "b"], 2),
        hit_with_entities(&["b"], 1),
    ];
    let r = build_hybrid_response(&results, info("jwt"));
    assert_eq!(r.total, 2);
    assert_eq!(r.results.len(), 2);
    assert_eq!(r.graph_connections, 3);
    let mut names = r.related_entities.clone();
    names.sort();
    assert_eq!(names, vec!["a".to_string(), "b".to_string()]);
    assert_eq!(r.query_info.query, "jwt");
    assert_eq!(r.results[0].related_chunks.len(), 2);
    assert_eq!(r.results[1].entities[0].name, "b");
}

#[test]
fn filter_params_carry_the_workspace_scoping() {
    assert!(filter_params(&None).is_empty());
    assert!(filter_params(&Some(SearchFilters { workspace_id: None })).is_empty());
    let params = filter_params(&Some(SearchFilters { workspace_id: Some("ws7".to_string()) }));
    assert_eq!(params.len(), 1);
    assert_eq!(params[0].0, "workspace_id");
    assert_eq!(params[0].1, "ws7");
}

#[test]
fn search_rows_carry_the_result_fields() {
    let item = search_result_item(&row(820));
    assert_eq!(item.chunk_id, CHUNK_ID);
    assert_eq!(item.text, "chunk text");
    assert_eq!(item.source, "github");
    assert_eq!(item.document_id, DOC_ID);
    assert_eq!(item.similarity_score, 820);
    assert_eq!(item.chunk_index, 3);
    assert_eq!(item.metadata, "{}");
}

#[test]
fn hybrid_rows_split_the_combined_score() {
    let h = combine_hybrid(row(900), vec![related(500)], vec![entity("validate")]);
    let item = hybrid_result_item(&h);
    assert_eq!(item.vector_score, 900);
    assert_eq!(item.combined_score, 700 * 900 + 300 * 500);
    // the graph's contribution is what remains over 0.7 of the similarity
    assert_eq!(item.graph_score, 300 * 500);
    assert_eq!(item.related_chunks.len(), 1);
    assert_eq!(item.related_chunks[0].score, 500);
    assert_eq!(item.entities.len(), 1);
    assert_eq!(item.entities[0].name, "validate");
    assert_eq!(item.entities[0].mention_count, 2);
}

fn hit_with_entities(names: &[&str], connections: usize) -> HybridSearchResult {
    combine_hybrid(
        row(500),
        (0..connections).map(|_| related(500)).collect(),
        names.iter().map(|n| entity(n)).collect(),
    )
}

#[test]
fn related_entity_names_are_distinct() {
    let results = vec![
        hit_with_entities(&["a", "b"], 1),
        hit_with_entities(&["b", "c"], 2),
    ];
    let mut names = related_entity_names(&results);
    names.sort();
    assert_eq!(names, vec!["a".to_string(), "b".to_string(), "c".to_string()]);
}

#[test]
fn graph_connections_sum_the_related_chunks() {
    let results = vec![hit_with_entities(&[], 1), hit_with_entities(&[], 2)];
    assert_eq!(graph_connections(&results), 3);
}
