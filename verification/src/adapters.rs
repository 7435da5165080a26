//! Typed backend records and their conversion into candidates.
//!
//! The backends' payloads carry optional fields; a missing field means a
//! documented default, never an error. The defaults are filled in once, here
//! at the boundary, so nothing downstream inspects optionality again.

use vstd::prelude::*;

use crate::model::Candidate;
use crate::model::opt_view;

verus! {

/// Centrality assumed of a graph hit that reports none (0.5).
pub const GRAPH_DEFAULT_CENTRALITY: u32 = 500;

/// Depth assumed of a graph hit that reports none.
pub const GRAPH_DEFAULT_DEPTH: u32 = 1;

/// Edge weight assumed of a neighbor that reports none (0.3).
pub const NEIGHBOR_DEFAULT_WEIGHT: u32 = 300;

/// One hit of the vector-similarity backend.
pub struct VectorHit {
    pub id: String,
    pub entity_id: Option<String>,
    pub title: Option<String>,
    pub content: String,
    pub path: Option<String>,
    pub source: Option<String>,
    pub content_type: Option<String>,
    /// Similarity in milli-units.
    pub score: u32,
}

/// A vector hit as a candidate: a direct hit (depth 0) with no graph score
/// yet; a missing source tag defaults to "unknown", a missing content type to
/// "code", a missing title to the empty text.
pub fn vector_hit_to_candidate(h: VectorHit) -> (r: Candidate)
    ensures
        r@.id == h.id@,
        r@.entity_id == opt_view(h.entity_id),
        r@.title == (match h.title {
            Option::Some(t) => t@,
            Option::None => Seq::<char>::empty(),
        }),
        r@.content == h.content@,
        r@.path == opt_view(h.path),
        r@.source == (match h.source {
            Option::Some(s) => s@,
            Option::None => "unknown"@,
        }),
        r@.content_type == (match h.content_type {
            Option::Some(t) => t@,
            Option::None => "code"@,
        }),
        r@.semantic_score == h.score,
        r@.graph_score == 0,
        r@.relationship_depth == 0,
        r@.final_score == 0,
        r@.related_ids.len() == 0,
{
    let title = match h.title {
        Some(t) => t,
        None => String::new(),
    };
    let source = match h.source {
        Some(s) => s,
        None => String::from_str("unknown"),
    };
    let content_type = match h.content_type {
        Some(t) => t,
        None => String::from_str("code"),
    };
    let r = Candidate {
        id: h.id,
        entity_id: h.entity_id,
        title,
        content: h.content,
        path: h.path,
        source,
        content_type,
        semantic_score: h.score,
        graph_score: 0,
        relationship_depth: 0,
        final_score: 0,
        related_ids: Vec::new(),
    };
    proof {
        assert(r@.related_ids =~= Seq::<Seq<char>>::empty());
    }
    r
}

/// One entity match of the graph backend.
pub struct GraphEntityRecord {
    pub id: String,
    pub name: String,
    pub entity_type: String,
    pub content: Option<String>,
    pub path: Option<String>,
    pub source: Option<String>,
    /// Centrality in milli-units, when the backend reports one.
    pub centrality: Option<u32>,
    pub depth: Option<u32>,
    pub related_ids: Option<Vec<String>>,
}

/// A graph match as a candidate: its own id doubles as the entity id, the
/// entity type classifies it, and missing centrality, depth and source fall
/// back to the documented defaults.
pub fn graph_entity_to_candidate(e: GraphEntityRecord) -> (r: Candidate)
    ensures
        r@.id == e.id@,
        r@.entity_id == Some(e.id@),
        r@.title == e.name@,
        r@.content == (match e.content {
            Option::Some(c) => c@,
            Option::None => Seq::<char>::empty(),
        }),
        r@.path == opt_view(e.path),
        r@.source == (match e.source {
            Option::Some(s) => s@,
            Option::None => "graph"@,
        }),
        r@.content_type == e.entity_type@,
        r@.semantic_score == 0,
        r@.graph_score == (match e.centrality {
            Option::Some(c) => c,
            Option::None => GRAPH_DEFAULT_CENTRALITY,
        }),
        r@.relationship_depth == (match e.depth {
            Option::Some(d) => d,
            Option::None => GRAPH_DEFAULT_DEPTH,
        }),
        r@.final_score == 0,
        r@.related_ids == (match e.related_ids {
            Option::Some(ids) => crate::model::views_of_strings(ids@),
            Option::None => Seq::<Seq<char>>::empty(),
        }),
{
    let content = match e.content {
        Some(c) => c,
        None => String::new(),
    };
    let source = match e.source {
        Some(s) => s,
        None => String::from_str("graph"),
    };
    let graph_score = match e.centrality {
        Some(c) => c,
        None => GRAPH_DEFAULT_CENTRALITY,
    };
    let relationship_depth = match e.depth {
        Some(d) => d,
        None => GRAPH_DEFAULT_DEPTH,
    };
    let related_ids = match e.related_ids {
        Some(ids) => ids,
        None => Vec::new(),
    };
    let r = Candidate {
        id: e.id.clone(),
        entity_id: Some(e.id),
        title: e.name,
        content,
        path: e.path,
        source,
        content_type: e.entity_type,
        semantic_score: 0,
        graph_score,
        relationship_depth,
        final_score: 0,
        related_ids,
    };
    proof {
        if r.related_ids@.len() == 0 {
            assert(r@.related_ids =~= Seq::<Seq<char>>::empty());
        }
    }
    r
}

/// One neighbor returned by a relationship traversal.
pub struct NeighborRecord {
    pub id: String,
    pub name: String,
    pub entity_type: String,
    pub content: Option<String>,
    pub path: Option<String>,
    /// Edge weight in milli-units, when the backend reports one.
    pub weight: Option<u32>,
}

/// A traversal neighbor as a candidate: tagged as graph-related expansion,
/// annotated with the hop distance it was requested at, a missing edge weight
/// falling back to the documented default.
pub fn neighbor_to_candidate(n: NeighborRecord, depth: u32) -> (r: Candidate)
    ensures
        r@.id == n.id@,
        r@.entity_id == Some(n.id@),
        r@.title == n.name@,
        r@.content == (match n.content {
            Option::Some(c) => c@,
            Option::None => Seq::<char>::empty(),
        }),
        r@.path == opt_view(n.path),
        r@.source == "graph_related"@,
        r@.content_type == n.entity_type@,
        r@.semantic_score == 0,
        r@.graph_score == (match n.weight {
            Option::Some(w) => w,
            Option::None => NEIGHBOR_DEFAULT_WEIGHT,
        }),
        r@.relationship_depth == depth,
        r@.final_score == 0,
        r@.related_ids.len() == 0,
{
    let content = match n.content {
        Some(c) => c,
        None => String::new(),
    };
    let graph_score = match n.weight {
        Some(w) => w,
        None => NEIGHBOR_DEFAULT_WEIGHT,
    };
    let r = Candidate {
        id: n.id.clone(),
        entity_id: Some(n.id),
        title: n.name,
        content,
        path: n.path,
        source: String::from_str("graph_related"),
        content_type: n.entity_type,
        semantic_score: 0,
        graph_score,
        relationship_depth: depth,
        final_score: 0,
        related_ids: Vec::new(),
    };
    proof {
        assert(r@.related_ids =~= Seq::<Seq<char>>::empty());
    }
    r
}

} // verus!
