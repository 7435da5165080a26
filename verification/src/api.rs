//! The search API's compute: request validation with clamping, and the
//! shaping of unified search results into response rows. The transport that
//! carries these requests and responses lives outside the library; timing
//! values are handed in, never measured here.

use vstd::prelude::*;

use crate::engine::is_blank;
use crate::engine::query_is_blank;
use crate::model::views_of_strings;
use crate::unified::Entity;
use crate::unified::HybridSearchResult;
use crate::unified::RelatedChunk;
use crate::unified::VectorSearchResult;

verus! {

/// Default result count of an API search.
pub const API_DEFAULT_LIMIT: usize = 10;

/// Largest admitted result count of an API search.
pub const API_MAX_LIMIT: usize = 50;

/// Default similarity threshold (0.75), milli-units.
pub const API_DEFAULT_THRESHOLD: u32 = 750;

/// Largest meaningful similarity threshold (1.0), milli-units.
pub const API_MAX_THRESHOLD: u32 = 1000;

/// Default traversal depth of a hybrid API search.
pub const API_DEFAULT_DEPTH: usize = 2;

/// Ceiling on the traversal depth of a hybrid API search.
pub const API_MAX_DEPTH: usize = 3;

/// A semantic search request; everything but the query optional.
pub struct SearchRequest {
    pub query: String,
    pub workspace_id: Option<String>,
    pub limit: Option<usize>,
    /// Similarity threshold in milli-units.
    pub similarity_threshold: Option<u32>,
}

/// A hybrid search request; everything but the query optional.
pub struct HybridSearchRequest {
    pub query: String,
    pub workspace_id: Option<String>,
    pub limit: Option<usize>,
    pub include_related: Option<bool>,
    pub max_depth: Option<usize>,
}

/// Why an API request was refused.
#[derive(Debug)]
pub enum ApiError {
    /// The query text is empty or all whitespace.
    EmptyQuery,
    /// A limit of zero was asked for.
    ZeroLimit,
}

impl ApiError {
    /// The client-facing description of the rejected input.
    pub fn message(&self) -> (r: String)
        ensures
            match self {
                ApiError::EmptyQuery => r@ == "Query cannot be empty"@,
                ApiError::ZeroLimit => r@ == "Limit must be at least 1"@,
            },
    {
        match self {
            ApiError::EmptyQuery => String::from_str("Query cannot be empty"),
            ApiError::ZeroLimit => String::from_str("Limit must be at least 1"),
        }
    }
}

/// A semantic search request with its numbers resolved and clamped.
pub struct SearchParams {
    pub query: String,
    pub workspace_id: Option<String>,
    /// Clamped into 1..=`API_MAX_LIMIT`.
    pub limit: usize,
    /// Clamped into 0..=`API_MAX_THRESHOLD`, milli-units.
    pub threshold: u32,
}

/// Validate a semantic search request: a blank query or a zero limit is a
/// caller input error, refused before any backend work; an admitted limit is
/// clamped into 1..=50 (default 10) and the threshold into 0.0..=1.0
/// (default 0.75).
pub fn validate_search_request(req: SearchRequest) -> (r: Result<SearchParams, ApiError>)
    ensures
        r is Err <==> (is_blank(req.query@) || req.limit == Some(0usize)),
        match r {
            Result::Ok(p) => {
                &&& p.query@ == req.query@
                &&& p.workspace_id == req.workspace_id
                &&& p.limit as int == clamped(
                    match req.limit {
                        Option::Some(l) => l as int,
                        Option::None => API_DEFAULT_LIMIT as int,
                    },
                    1,
                    API_MAX_LIMIT as int,
                )
                &&& p.threshold as int == clamped(
                    match req.similarity_threshold {
                        Option::Some(t) => t as int,
                        Option::None => API_DEFAULT_THRESHOLD as int,
                    },
                    0,
                    API_MAX_THRESHOLD as int,
                )
            },
            Result::Err(e) => {
                &&& (e is EmptyQuery <==> is_blank(req.query@))
                &&& (e is ZeroLimit ==> req.limit == Some(0usize))
            },
        },
{
    if query_is_blank(&req.query) {
        return Err(ApiError::EmptyQuery);
    }
    let limit = match req.limit {
        Some(l) => if l == 0 {
            return Err(ApiError::ZeroLimit);
        } else if l > API_MAX_LIMIT {
            API_MAX_LIMIT
        } else {
            l
        },
        None => API_DEFAULT_LIMIT,
    };
    let threshold = match req.similarity_threshold {
        Some(t) => if t > API_MAX_THRESHOLD {
            API_MAX_THRESHOLD
        } else {
            t
        },
        None => API_DEFAULT_THRESHOLD,
    };
    Ok(SearchParams { query: req.query, workspace_id: req.workspace_id, limit, threshold })
}

/// A value forced into an inclusive range.
pub open spec fn clamped(v: int, lo: int, hi: int) -> int {
    if v < lo {
        lo
    } else if v > hi {
        hi
    } else {
        v
    }
}

/// A hybrid search request with its numbers resolved and clamped.
pub struct HybridParams {
    pub query: String,
    pub workspace_id: Option<String>,
    /// Clamped into 1..=`API_MAX_LIMIT`.
    pub limit: usize,
    pub include_related: bool,
    /// Clamped into 1..=`API_MAX_DEPTH`.
    pub max_depth: usize,
}

/// Validate a hybrid search request: a blank query or a zero limit is a
/// caller input error, refused before any backend work; an admitted limit is
/// clamped into 1..=50 (default 10) and the depth into 1..=3 (default 2) —
/// a depth above the ceiling is clamped, not rejected.
pub fn validate_hybrid_request(req: HybridSearchRequest) -> (r: Result<HybridParams, ApiError>)
    ensures
        r is Err <==> (is_blank(req.query@) || req.limit == Some(0usize)),
        match r {
            Result::Ok(p) => {
                &&& p.query@ == req.query@
                &&& p.workspace_id == req.workspace_id
                &&& p.limit as int == clamped(
                    match req.limit {
                        Option::Some(l) => l as int,
                        Option::None => API_DEFAULT_LIMIT as int,
                    },
                    1,
                    API_MAX_LIMIT as int,
                )
                &&& p.include_related == (match req.include_related {
                    Option::Some(b) => b,
                    Option::None => true,
                })
                &&& p.max_depth as int == clamped(
                    match req.max_depth {
                        Option::Some(d) => d as int,
                        Option::None => API_DEFAULT_DEPTH as int,
                    },
                    1,
                    API_MAX_DEPTH as int,
                )
            },
            Result::Err(e) => {
                &&& (e is EmptyQuery <==> is_blank(req.query@))
                &&& (e is ZeroLimit ==> req.limit == Some(0usize))
            },
        },
{
    if query_is_blank(&req.query) {
        return Err(ApiError::EmptyQuery);
    }
    let limit = match req.limit {
        Some(l) => if l == 0 {
            return Err(ApiError::ZeroLimit);
        } else if l > API_MAX_LIMIT {
            API_MAX_LIMIT
        } else {
            l
        },
        None => API_DEFAULT_LIMIT,
    };
    let include_related = match req.include_related {
        Some(b) => b,
        None => true,
    };
    let max_depth = match req.max_depth {
        Some(d) => if d < 1 {
            1
        } else if d > API_MAX_DEPTH {
            API_MAX_DEPTH
        } else {
            d
        },
        None => API_DEFAULT_DEPTH,
    };
    Ok(
        HybridParams {
            query: req.query,
            workspace_id: req.workspace_id,
            limit,
            include_related,
            max_depth,
        },
    )
}

/// What a query ran with, echoed in the response.
pub struct QueryInfo {
    pub query: String,
    pub workspace_id: Option<String>,
    pub limit: usize,
    /// Milli-units.
    pub threshold: u32,
    pub search_time_ms: u64,
}

/// One semantic search row.
pub struct SearchResultItem {
    pub chunk_id: String,
    pub text: String,
    pub source: String,
    pub document_id: String,
    /// Milli-units.
    pub similarity_score: u32,
    pub chunk_index: usize,
    /// Provider metadata, raw text.
    pub metadata: String,
}

/// A semantic search response.
pub struct SearchResponse {
    pub results: Vec<SearchResultItem>,
    pub total: usize,
    pub query_info: QueryInfo,
}

/// One related chunk in a hybrid row.
pub struct RelatedChunkInfo {
    pub chunk_id: String,
    pub relationship_type: String,
    /// Milli-units.
    pub score: u32,
}

/// One entity in a hybrid row.
pub struct EntityInfo {
    pub id: String,
    pub name: String,
    pub entity_type: String,
    pub mention_count: usize,
}

/// One hybrid search row.
pub struct HybridSearchResultItem {
    pub chunk_id: String,
    pub text: String,
    pub source: String,
    pub document_id: String,
    /// Milli-units.
    pub vector_score: u32,
    /// The graph's contribution to the combined score, micro-units.
    pub graph_score: u64,
    /// Micro-units.
    pub combined_score: u64,
    pub chunk_index: usize,
    pub related_chunks: Vec<RelatedChunkInfo>,
    pub entities: Vec<EntityInfo>,
}

/// A hybrid search response.
pub struct HybridSearchResponse {
    pub results: Vec<HybridSearchResultItem>,
    pub related_entities: Vec<String>,
    pub graph_connections: usize,
    pub total: usize,
    pub query_info: QueryInfo,
}

/// A semantic response row carrying exactly the fields of one hit.
pub open spec fn search_item_matches(e: SearchResultItem, v: VectorSearchResult) -> bool {
    &&& e.chunk_id@ == v.chunk_id@
    &&& e.text@ == v.chunk_text@
    &&& e.source@ == v.source_id@
    &&& e.document_id@ == v.document_id@
    &&& e.similarity_score == v.similarity_score
    &&& e.chunk_index == v.chunk_index
    &&& e.metadata@ == v.metadata@
}

/// Turn one semantic hit into a response row; every field carried unchanged.
pub fn search_result_item(v: &VectorSearchResult) -> (r: SearchResultItem)
    ensures
        search_item_matches(r, *v),
{
    SearchResultItem {
        chunk_id: v.chunk_id.clone(),
        text: v.chunk_text.clone(),
        source: v.source_id.clone(),
        document_id: v.document_id.clone(),
        similarity_score: v.similarity_score,
        chunk_index: v.chunk_index,
        metadata: v.metadata.clone(),
    }
}

/// A response row's related-chunk entry carrying exactly one related chunk.
pub open spec fn related_info_matches(rc: RelatedChunkInfo, c: RelatedChunk) -> bool {
    &&& rc.chunk_id@ == c.chunk_id@
    &&& rc.relationship_type@ == c.relationship_type@
    &&& rc.score == c.relationship_score
}

/// A response row's entity entry carrying exactly one entity.
pub open spec fn entity_info_matches(e: EntityInfo, x: Entity) -> bool {
    &&& e.id@ == x.id@
    &&& e.name@ == x.name@
    &&& e.entity_type@ == x.entity_type@
    &&& e.mention_count == x.mention_count
}

/// A hybrid response row carrying exactly one unified hit: the vector score
/// is the similarity; the graph score is what the graph contributed to the
/// combined score — the combined score less 0.7 of the similarity, floored at
/// zero; the related chunks and entities are carried over in order.
pub open spec fn hybrid_item_matches(e: HybridSearchResultItem, h: HybridSearchResult) -> bool {
    &&& e.chunk_id@ == h.vector_result.chunk_id@
    &&& e.text@ == h.vector_result.chunk_text@
    &&& e.source@ == h.vector_result.source_id@
    &&& e.document_id@ == h.vector_result.document_id@
    &&& e.vector_score == h.vector_result.similarity_score
    &&& e.graph_score as int == (if h.combined_score as int >= 700 * (
    h.vector_result.similarity_score as int) {
        h.combined_score as int - 700 * (h.vector_result.similarity_score as int)
    } else {
        0int
    })
    &&& e.combined_score == h.combined_score
    &&& e.chunk_index == h.vector_result.chunk_index
    &&& e.related_chunks@.len() == h.related_chunks@.len()
    &&& (forall|i: int|
        0 <= i < h.related_chunks@.len() ==> related_info_matches(
            #[trigger] e.related_chunks@[i],
            h.related_chunks@[i],
        ))
    &&& e.entities@.len() == h.entities@.len()
    &&& (forall|i: int|
        0 <= i < h.entities@.len() ==> entity_info_matches(
            #[trigger] e.entities@[i],
            h.entities@[i],
        ))
}

/// Turn one unified hit into a hybrid response row.
pub fn hybrid_result_item(h: &HybridSearchResult) -> (r: HybridSearchResultItem)
    ensures
        hybrid_item_matches(r, *h),
{
    let vector_part: u64 = 700u64 * (h.vector_result.similarity_score as u64);
    let graph_score = if h.combined_score >= vector_part {
        h.combined_score - vector_part
    } else {
        0
    };
    let mut related_chunks: Vec<RelatedChunkInfo> = Vec::new();
    let mut i: usize = 0;
    while i < h.related_chunks.len()
        invariant
            i <= h.related_chunks@.len(),
            related_chunks@.len() == i,
            forall|j: int|
                0 <= j < i ==> related_info_matches(
                    #[trigger] related_chunks@[j],
                    h.related_chunks@[j],
                ),
        decreases h.related_chunks@.len() - i,
    {
        let rc = &h.related_chunks[i];
        related_chunks.push(
            RelatedChunkInfo {
                chunk_id: rc.chunk_id.clone(),
                relationship_type: rc.relationship_type.clone(),
                score: rc.relationship_score,
            },
        );
        i += 1;
    }
    let mut entities: Vec<EntityInfo> = Vec::new();
    let mut i: usize = 0;
    while i < h.entities.len()
        invariant
            i <= h.entities@.len(),
            entities@.len() == i,
            forall|j: int|
                0 <= j < i ==> entity_info_matches(#[trigger] entities@[j], h.entities@[j]),
        decreases h.entities@.len() - i,
    {
        let e = &h.entities[i];
        entities.push(
            EntityInfo {
                id: e.id.clone(),
                name: e.name.clone(),
                entity_type: e.entity_type.clone(),
                mention_count: e.mention_count,
            },
        );
        i += 1;
    }
    HybridSearchResultItem {
        chunk_id: h.vector_result.chunk_id.clone(),
        text: h.vector_result.chunk_text.clone(),
        source: h.vector_result.source_id.clone(),
        document_id: h.vector_result.document_id.clone(),
        vector_score: h.vector_result.similarity_score,
        graph_score,
        combined_score: h.combined_score,
        chunk_index: h.vector_result.chunk_index,
        related_chunks,
        entities,
    }
}

/// Whether a text occurs among the views of a string sequence.
pub open spec fn contains_text(s: Seq<Seq<char>>, t: Seq<char>) -> bool {
    exists|i: int| 0 <= i < s.len() && s[i] == t
}

/// Whether an entity with this name occurs in the hits.
pub open spec fn has_entity_named(results: Seq<HybridSearchResult>, name: Seq<char>) -> bool {
    exists|i: int, j: int|
        #![trigger results[i].entities@[j]]
        0 <= i < results.len() && 0 <= j < results[i].entities@.len()
            && results[i].entities@[j].name@ == name
}

/// Whether a string equal to `t` is in the vector.
fn vec_contains_text(v: &Vec<String>, t: &String) -> (r: bool)
    ensures
        r == contains_text(views_of_strings(v@), t@),
{
    let mut i: usize = 0;
    while i < v.len()
        invariant
            i <= v@.len(),
            forall|j: int| 0 <= j < i ==> views_of_strings(v@)[j] != t@,
        decreases v@.len() - i,
    {
        if v[i] == *t {
            proof {
                assert(views_of_strings(v@)[i as int] == t@);
            }
            return true;
        }
        proof {
            assert(views_of_strings(v@)[i as int] == v@[i as int]@);
        }
        i += 1;
    }
    proof {
        if contains_text(views_of_strings(v@), t@) {
            let w = choose|w: int|
                0 <= w < views_of_strings(v@).len() && views_of_strings(v@)[w] == t@;
            assert(views_of_strings(v@)[w] != t@);
        }
    }
    false
}

/// The distinct entity names across the hits: every name listed occurs in some
/// hit, every name occurring in a hit is listed, and no name is listed twice.
pub fn related_entity_names(results: &Vec<HybridSearchResult>) -> (r: Vec<String>)
    ensures
        forall|k: int|
            0 <= k < r@.len() ==> has_entity_named(results@, #[trigger] views_of_strings(r@)[k]),
        forall|i: int, j: int|
            #![trigger results@[i].entities@[j]]
            0 <= i < results@.len() && 0 <= j < results@[i].entities@.len()
                ==> contains_text(views_of_strings(r@), results@[i].entities@[j].name@),
        forall|k1: int, k2: int|
            #![trigger views_of_strings(r@)[k1], views_of_strings(r@)[k2]]
            0 <= k1 < k2 < r@.len() ==> views_of_strings(r@)[k1] != views_of_strings(r@)[k2],
{
    let mut out: Vec<String> = Vec::new();
    let mut i: usize = 0;
    while i < results.len()
        invariant
            i <= results@.len(),
            forall|k: int|
                0 <= k < out@.len() ==> has_entity_named(
                    results@,
                    #[trigger] views_of_strings(out@)[k],
                ),
            forall|a: int, b: int|
                #![trigger results@[a].entities@[b]]
                0 <= a < i && 0 <= b < results@[a].entities@.len() ==> contains_text(
                    views_of_strings(out@),
                    results@[a].entities@[b].name@,
                ),
            forall|k1: int, k2: int|
                #![trigger views_of_strings(out@)[k1], views_of_strings(out@)[k2]]
                0 <= k1 < k2 < out@.len() ==> views_of_strings(out@)[k1]
                    != views_of_strings(out@)[k2],
        decreases results@.len() - i,
    {
        let row = &results[i];
        let mut j: usize = 0;
        while j < row.entities.len()
            invariant
                i < results@.len(),
                j <= row.entities@.len(),
                row == results@[i as int],
                forall|k: int|
                    0 <= k < out@.len() ==> has_entity_named(
                        results@,
                        #[trigger] views_of_strings(out@)[k],
                    ),
                forall|a: int, b: int|
                    #![trigger results@[a].entities@[b]]
                    0 <= a < i && 0 <= b < results@[a].entities@.len()
                        ==> contains_text(views_of_strings(out@), results@[a].entities@[b].name@),
                forall|b: int|
                    0 <= b < j ==> contains_text(
                        views_of_strings(out@),
                        (#[trigger] results@[i as int].entities@[b]).name@,
                    ),
                forall|k1: int, k2: int|
                    #![trigger views_of_strings(out@)[k1], views_of_strings(out@)[k2]]
                    0 <= k1 < k2 < out@.len() ==> views_of_strings(out@)[k1]
                        != views_of_strings(out@)[k2],
            decreases row.entities@.len() - j,
        {
            let name = &row.entities[j].name;
            let ghost out0 = out@;
            if !vec_contains_text(&out, name) {
                out.push(name.clone());
                proof {
                    assert(views_of_strings(out@) =~= views_of_strings(out0).push(name@));
                    assert(results@[i as int].entities@[j as int].name@ == name@);
                    assert(has_entity_named(results@, name@));
                    assert forall|k: int|
                        0 <= k < out@.len() implies has_entity_named(
                        results@,
                        #[trigger] views_of_strings(out@)[k],
                    ) by {
                        if k < out0.len() {
                            assert(views_of_strings(out@)[k] == views_of_strings(out0)[k]);
                        } else {
                            assert(views_of_strings(out@)[k] == name@);
                        }
                    }
                    assert forall|a: int, b: int|
                        #![trigger results@[a].entities@[b]]
                        0 <= a < i && 0 <= b < results@[a].entities@.len() implies contains_text(
                        views_of_strings(out@),
                        results@[a].entities@[b].name@,
                    ) by {
                        let w = choose|w: int|
                            0 <= w < views_of_strings(out0).len() && views_of_strings(out0)[w]
                                == results@[a].entities@[b].name@;
                        assert(views_of_strings(out@)[w] == results@[a].entities@[b].name@);
                    }
                    assert forall|b: int|
                        0 <= b < j + 1 implies contains_text(
                        views_of_strings(out@),
                        (#[trigger] results@[i as int].entities@[b]).name@,
                    ) by {
                        if b < j {
                            let w = choose|w: int|
                                0 <= w < views_of_strings(out0).len() && views_of_strings(out0)[w]
                                    == results@[i as int].entities@[b].name@;
                            assert(views_of_strings(out@)[w] == results@[i as int].entities@[b].name@);
                        } else {
                            assert(views_of_strings(out@)[out0.len() as int] == name@);
                        }
                    }
                }
            } else {
                proof {
                    assert(results@[i as int].entities@[j as int].name@ == name@);
                }
            }
            j += 1;
        }
        i += 1;
    }
    out
}

/// Saturating count of graph connections: the summed sizes of the hits'
/// related-chunk lists, capped at the machine's limit.
pub open spec fn connection_count(results: Seq<HybridSearchResult>, n: int) -> int
    decreases n,
{
    if n <= 0 {
        0
    } else {
        let prev = connection_count(results, n - 1);
        if prev + results[n - 1].related_chunks@.len() > usize::MAX as int {
            usize::MAX as int
        } else {
            prev + results[n - 1].related_chunks@.len()
        }
    }
}

/// How many graph connections the hits carry altogether.
pub fn graph_connections(results: &Vec<HybridSearchResult>) -> (r: usize)
    ensures
        r as int == connection_count(results@, results@.len() as int),
{
    let mut total: usize = 0;
    let mut i: usize = 0;
    while i < results.len()
        invariant
            i <= results@.len(),
            total as int == connection_count(results@, i as int),
        decreases results@.len() - i,
    {
        let l = results[i].related_chunks.len();
        if total > usize::MAX - l {
            total = usize::MAX;
        } else {
            total = total + l;
        }
        i += 1;
    }
    total
}


/// Assemble the semantic search response: one row per hit, in hit order,
/// `total` the row count, and the query's parameters echoed unchanged.
pub fn build_search_response(results: &Vec<VectorSearchResult>, query_info: QueryInfo) -> (r:
    SearchResponse)
    ensures
        r.total == r.results@.len(),
        r.results@.len() == results@.len(),
        forall|i: int|
            0 <= i < results@.len() ==> search_item_matches(#[trigger] r.results@[i], results@[i]),
        r.query_info == query_info,
{
    let mut rows: Vec<SearchResultItem> = Vec::new();
    let mut i: usize = 0;
    while i < results.len()
        invariant
            i <= results@.len(),
            rows@.len() == i,
            forall|j: int|
                0 <= j < i ==> search_item_matches(#[trigger] rows@[j], results@[j]),
        decreases results@.len() - i,
    {
        rows.push(search_result_item(&results[i]));
        i += 1;
    }
    let total = rows.len();
    SearchResponse { results: rows, total, query_info }
}

/// Assemble the hybrid search response: one row per hit, in hit order,
/// `total` the row count, the distinct entity names across the hits, the
/// summed graph connections, and the query's parameters echoed unchanged.
pub fn build_hybrid_response(results: &Vec<HybridSearchResult>, query_info: QueryInfo) -> (r:
    HybridSearchResponse)
    ensures
        r.total == r.results@.len(),
        r.results@.len() == results@.len(),
        forall|i: int|
            0 <= i < results@.len() ==> hybrid_item_matches(#[trigger] r.results@[i], results@[i]),
        r.graph_connections as int == connection_count(results@, results@.len() as int),
        forall|k: int|
            0 <= k < r.related_entities@.len() ==> has_entity_named(
                results@,
                #[trigger] views_of_strings(r.related_entities@)[k],
            ),
        forall|i: int, j: int|
            #![trigger results@[i].entities@[j]]
            0 <= i < results@.len() && 0 <= j < results@[i].entities@.len() ==> contains_text(
                views_of_strings(r.related_entities@),
                results@[i].entities@[j].name@,
            ),
        forall|k1: int, k2: int|
            #![trigger views_of_strings(r.related_entities@)[k1], views_of_strings(r.related_entities@)[k2]]
            0 <= k1 < k2 < r.related_entities@.len() ==> views_of_strings(r.related_entities@)[k1]
                != views_of_strings(r.related_entities@)[k2],
        r.query_info == query_info,
{
    let mut rows: Vec<HybridSearchResultItem> = Vec::new();
    let mut i: usize = 0;
    while i < results.len()
        invariant
            i <= results@.len(),
            rows@.len() == i,
            forall|j: int|
                0 <= j < i ==> hybrid_item_matches(#[trigger] rows@[j], results@[j]),
        decreases results@.len() - i,
    {
        rows.push(hybrid_result_item(&results[i]));
        i += 1;
    }
    let related_entities = related_entity_names(results);
    let graph_connections = graph_connections(results);
    let total = rows.len();
    HybridSearchResponse { results: rows, related_entities, graph_connections, total, query_info }
}

} // verus!
