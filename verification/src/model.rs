//! Data model of the retrieval engine: candidates and ranking weights.

use vstd::prelude::*;

verus! {

/// Backend scores and ranking weights are fixed-point milli-units: 1000 = 1.0.
pub const SCORE_SCALE: u32 = 1000;

/// Fused final scores are fixed-point micro-units: 1000000 = 1.0,
/// the product of a milli-unit score and a milli-unit weight.
pub const FINAL_SCALE: u64 = 1000000;

/// Largest admitted ranking weight (1000.0 in milli-units); keeps the fused
/// score sum inside `u64` for any `u32` backend scores.
pub const WEIGHT_LIMIT: u32 = 1000000;

/// Neutral recency factor (0.5) used while no freshness signal is wired in,
/// so that sources without timestamps are not systematically penalized.
pub const RECENCY_NEUTRAL: u32 = 500;

/// Score tier given to graph-related expansion hits (0.3 in micro-units):
/// below any plausible directly-matched score, so expansion augments but
/// never displaces primary matches.
pub const RELATED_TIER_SCORE: u64 = 300000;

/// Default cap on the number of ranked results kept after fusion.
pub const DEFAULT_MAX_RESULTS: usize = 20;

/// The unit of ranking: one retrievable piece of content, merged across the
/// vector and graph result sets by `id`.
pub struct Candidate {
    /// Merge key, unique within one query's result set.
    pub id: String,
    /// External graph identifier; absent for pure-vector hits.
    pub entity_id: Option<String>,
    pub title: String,
    /// Text body used for context assembly.
    pub content: String,
    /// Source location, when known.
    pub path: Option<String>,
    /// Origin tag: vector backend, graph backend, or graph-related expansion.
    pub source: String,
    /// Free-form classification (code, doc, chat, ...).
    pub content_type: String,
    /// Vector similarity in milli-units; 0 if not produced by vector search.
    pub semantic_score: u32,
    /// Graph centrality or edge weight in milli-units; 0 if not produced by
    /// graph search.
    pub graph_score: u32,
    /// Hop count from a seed entity; 0 for direct hits.
    pub relationship_depth: u32,
    /// Fused score in micro-units; meaningful only after ranking.
    pub final_score: u64,
    /// Identifiers of graph neighbors, used to seed related-entity expansion.
    pub related_ids: Vec<String>,
}

/// Mathematical model of a `Candidate`: every text field as a sequence of
/// characters.
#[verifier::ext_equal]
pub ghost struct CandidateModel {
    pub id: Seq<char>,
    pub entity_id: Option<Seq<char>>,
    pub title: Seq<char>,
    pub content: Seq<char>,
    pub path: Option<Seq<char>>,
    pub source: Seq<char>,
    pub content_type: Seq<char>,
    pub semantic_score: u32,
    pub graph_score: u32,
    pub relationship_depth: u32,
    pub final_score: u64,
    pub related_ids: Seq<Seq<char>>,
}

pub open spec fn opt_view(o: Option<String>) -> Option<Seq<char>> {
    match o {
        Option::Some(s) => Option::Some(s@),
        Option::None => Option::None,
    }
}

impl View for Candidate {
    type V = CandidateModel;

    open spec fn view(&self) -> CandidateModel {
        CandidateModel {
            id: self.id@,
            entity_id: opt_view(self.entity_id),
            title: self.title@,
            content: self.content@,
            path: opt_view(self.path),
            source: self.source@,
            content_type: self.content_type@,
            semantic_score: self.semantic_score,
            graph_score: self.graph_score,
            relationship_depth: self.relationship_depth,
            final_score: self.final_score,
            related_ids: views_of_strings(self.related_ids@),
        }
    }
}

/// The views of a sequence of strings, in order.
pub open spec fn views_of_strings(s: Seq<String>) -> Seq<Seq<char>> {
    Seq::new(s.len(), |i: int| s[i]@)
}

/// The models of a sequence of candidates, in order.
pub open spec fn models_of(s: Seq<Candidate>) -> Seq<CandidateModel> {
    Seq::new(s.len(), |i: int| s[i]@)
}

/// The five fusion coefficients, fixed-point milli-units. They need not sum
/// to one, but the defaults do, for score comparability across configurations.
#[derive(Clone, Copy)]
pub struct RankingWeights {
    /// Weight of vector similarity.
    pub semantic: u32,
    /// Weight of graph centrality.
    pub graph: u32,
    /// Weight of relationship-depth proximity.
    pub relationship: u32,
    /// Weight of content freshness.
    pub recency: u32,
    /// Weight of the content-type diversity bonus.
    pub diversity: u32,
}

impl RankingWeights {
    /// Every coefficient within the admitted range: this keeps every fused
    /// score term, and their sum, inside `u64`.
    pub open spec fn wf(self) -> bool {
        self.semantic <= WEIGHT_LIMIT && self.graph <= WEIGHT_LIMIT
            && self.relationship <= WEIGHT_LIMIT && self.recency <= WEIGHT_LIMIT
            && self.diversity <= WEIGHT_LIMIT
    }

    /// The single-knob profile for a unified vector+graph backend:
    /// 0.7 similarity, 0.3 graph relevance, nothing else.
    pub fn unified_profile() -> (r: RankingWeights)
        ensures
            r == (RankingWeights {
                semantic: 700u32,
                graph: 300u32,
                relationship: 0u32,
                recency: 0u32,
                diversity: 0u32,
            }),
            r.wf(),
    {
        RankingWeights { semantic: 700, graph: 300, relationship: 0, recency: 0, diversity: 0 }
    }
}

impl Default for RankingWeights {
    /// The federated-profile defaults: 0.35/0.25/0.20/0.10/0.10.
    fn default() -> (r: RankingWeights)
        ensures
            r == (RankingWeights {
                semantic: 350u32,
                graph: 250u32,
                relationship: 200u32,
                recency: 100u32,
                diversity: 100u32,
            }),
            r.wf(),
    {
        RankingWeights { semantic: 350, graph: 250, relationship: 200, recency: 100, diversity: 100 }
    }
}

} // verus!
