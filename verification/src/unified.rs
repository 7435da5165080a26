//! The unified-backend topology: one graph store with native vector indexing
//! serves both modalities. Similarity hits come back as rows, are enriched
//! with related chunks and entities from the same graph, and are ranked under
//! the single-knob split: 0.7 similarity, 0.3 graph relevance. That split is
//! the `RankingWeights::unified_profile` instance of the fusion formula, not
//! a second scoring rule (see `lemma_unified_split_is_fusion_profile`).

use vstd::prelude::*;

use crate::fusion::fused_score;
use crate::ids::is_uuid_text;
use crate::ids::uuid_text_ok;
use crate::model::CandidateModel;
use crate::model::RankingWeights;
use crate::model::SCORE_SCALE;

verus! {

/// Conjunctive equality constraints of a similarity search.
pub struct SearchFilters {
    /// Tenant scoping: only chunks of this workspace match.
    pub workspace_id: Option<String>,
}

/// One row of a vector similarity search, its identifiers validated.
pub struct VectorSearchResult {
    /// Chunk identifier: well-formed UUID text.
    pub chunk_id: String,
    pub chunk_text: String,
    /// Document identifier: well-formed UUID text.
    pub document_id: String,
    pub source_id: String,
    /// Similarity in milli-units.
    pub similarity_score: u32,
    pub chunk_index: usize,
    /// Provider metadata, kept as its raw text.
    pub metadata: String,
}

impl VectorSearchResult {
    /// Both identifiers are well-formed UUID text.
    pub open spec fn wf(self) -> bool {
        uuid_text_ok(self.chunk_id@) && uuid_text_ok(self.document_id@)
    }
}

/// Why a backend row was refused.
#[derive(Debug)]
pub enum RowError {
    /// The chunk identifier is not UUID text.
    InvalidChunkId,
    /// The document identifier is not UUID text.
    InvalidDocumentId,
}

/// Validate one similarity-search row into a result record: accepted exactly
/// when both identifiers are well-formed UUID text, with every field carried
/// over unchanged.
pub fn vector_result_from_row(
    chunk_id: String,
    chunk_text: String,
    document_id: String,
    source_id: String,
    similarity_score: u32,
    chunk_index: usize,
    metadata: String,
) -> (r: Result<VectorSearchResult, RowError>)
    ensures
        r is Ok <==> (uuid_text_ok(chunk_id@) && uuid_text_ok(document_id@)),
        match r {
            Result::Ok(v) => {
                &&& v.wf()
                &&& v.chunk_id@ == chunk_id@
                &&& v.chunk_text@ == chunk_text@
                &&& v.document_id@ == document_id@
                &&& v.source_id@ == source_id@
                &&& v.similarity_score == similarity_score
                &&& v.chunk_index == chunk_index
                &&& v.metadata@ == metadata@
            },
            Result::Err(e) => {
                &&& (e is InvalidChunkId <==> !uuid_text_ok(chunk_id@))
                &&& (e is InvalidDocumentId ==> uuid_text_ok(chunk_id@) && !uuid_text_ok(
                    document_id@,
                ))
            },
        },
{
    if !is_uuid_text(chunk_id.as_str()) {
        return Err(RowError::InvalidChunkId);
    }
    if !is_uuid_text(document_id.as_str()) {
        return Err(RowError::InvalidDocumentId);
    }
    Ok(
        VectorSearchResult {
            chunk_id,
            chunk_text,
            document_id,
            source_id,
            similarity_score,
            chunk_index,
            metadata,
        },
    )
}

/// The equality constraints a similarity search hands to the store, as
/// key/value parameters: the workspace scoping, when the filters carry one.
pub fn filter_params(filters: &Option<SearchFilters>) -> (r: Vec<(String, String)>)
    ensures
        match *filters {
            Option::Some(ref f) => match f.workspace_id {
                Option::Some(ref w) => r@.len() == 1 && r@[0].0@ == "workspace_id"@ && r@[0].1@
                    == w@,
                Option::None => r@.len() == 0,
            },
            Option::None => r@.len() == 0,
        },
{
    let mut params: Vec<(String, String)> = Vec::new();
    match filters {
        Some(f) => match &f.workspace_id {
            Some(w) => {
                params.push((String::from_str("workspace_id"), w.clone()));
            },
            None => {},
        },
        None => {},
    }
    params
}

/// A chunk reached from a hit over graph relationships.
pub struct RelatedChunk {
    pub chunk_id: String,
    pub relationship_type: String,
    /// Edge-derived score in milli-units: the reciprocal of the hop count.
    pub relationship_score: u32,
}

/// An entity a chunk mentions.
pub struct Entity {
    pub id: String,
    pub name: String,
    pub entity_type: String,
    pub mention_count: usize,
}

/// One unified hit: the similarity row, what the graph adds, and the fused
/// score in micro-units.
pub struct HybridSearchResult {
    pub vector_result: VectorSearchResult,
    pub related_chunks: Vec<RelatedChunk>,
    pub entities: Vec<Entity>,
    /// `0.7 * similarity + 0.3 * graph relevance`, micro-units.
    pub combined_score: u64,
}

/// Edge-derived score of a chunk reached over `hops` relationship edges:
/// `1 / hops` in milli-units, every relationship type weighted uniformly.
pub fn hop_score(hops: u32) -> (r: u32)
    requires
        hops >= 1,
    ensures
        r as int == SCORE_SCALE as int / hops as int,
{
    SCORE_SCALE / hops
}

/// The sum of the first `n` relationship scores.
pub open spec fn score_sum(s: Seq<RelatedChunk>, n: int) -> int
    decreases n,
{
    if n <= 0 {
        0
    } else {
        score_sum(s, n - 1) + s[n - 1].relationship_score
    }
}

/// Graph relevance of a hit: the mean of its related chunks' relationship
/// scores, zero when the graph adds nothing.
pub open spec fn graph_relevance_of(s: Seq<RelatedChunk>) -> int {
    if s.len() == 0 {
        0
    } else {
        score_sum(s, s.len() as int) / s.len() as int
    }
}

proof fn lemma_score_sum_bounds(s: Seq<RelatedChunk>, n: int)
    ensures
        0 <= score_sum(s, n),
        n >= 0 ==> score_sum(s, n) <= n * (u32::MAX as int),
    decreases n,
{
    if n > 0 {
        lemma_score_sum_bounds(s, n - 1);
        assert((n - 1) * (u32::MAX as int) + (u32::MAX as int) == n * (u32::MAX as int))
            by (nonlinear_arith);
    }
}

/// The mean of the related chunks' relationship scores, in milli-units.
pub fn graph_relevance(related_chunks: &Vec<RelatedChunk>) -> (r: u32)
    ensures
        r as int == graph_relevance_of(related_chunks@),
{
    let n = related_chunks.len();
    if n == 0 {
        return 0;
    }
    let mut sum: u128 = 0;
    let mut i: usize = 0;
    proof {
        lemma_score_sum_bounds(related_chunks@, n as int);
    }
    while i < n
        invariant
            i <= n,
            n == related_chunks@.len(),
            sum as int == score_sum(related_chunks@, i as int),
            sum as int <= (i as int) * (u32::MAX as int),
        decreases n - i,
    {
        proof {
            assert((i as int) * (u32::MAX as int) + (u32::MAX as int) == (i + 1) * (
            u32::MAX as int)) by (nonlinear_arith);
            assert((i + 1) * (u32::MAX as int) <= (n as int) * (u32::MAX as int))
                by (nonlinear_arith)
                requires
                    0 <= i + 1 <= n as int,
            ;
        }
        sum = sum + (related_chunks[i].relationship_score as u128);
        i += 1;
    }
    let mean: u128 = sum / (n as u128);
    proof {
        broadcast use vstd::arithmetic::div_mod::lemma_div_is_ordered;

        vstd::arithmetic::div_mod::lemma_div_by_multiple(u32::MAX as int, n as int);
        assert((n as int) * (u32::MAX as int) == (u32::MAX as int) * (n as int))
            by (nonlinear_arith);
        assert(sum as int / (n as int) <= ((u32::MAX as int) * (n as int)) / (n as int));
        assert(mean <= u32::MAX as u128);
    }
    mean as u32
}

/// Fuse one similarity row with what the graph adds: the combined score is
/// 0.7 of the similarity plus 0.3 of the graph relevance, in micro-units.
pub fn combine_hybrid(
    vector_result: VectorSearchResult,
    related_chunks: Vec<RelatedChunk>,
    entities: Vec<Entity>,
) -> (r: HybridSearchResult)
    ensures
        r.vector_result == vector_result,
        r.related_chunks == related_chunks,
        r.entities == entities,
        r.combined_score as int == 700 * (vector_result.similarity_score as int) + 300
            * graph_relevance_of(related_chunks@),
{
    let relevance = graph_relevance(&related_chunks);
    let combined_score: u64 = 700u64 * (vector_result.similarity_score as u64) + 300u64 * (
    relevance as u64);
    HybridSearchResult { vector_result, related_chunks, entities, combined_score }
}

/// The unified 0.7/0.3 split is the `unified_profile` instance of the general
/// fusion formula: with the relationship, recency and diversity weights at
/// zero, the fused score of any candidate carrying the similarity and the
/// graph relevance is exactly the combined score, whatever its depth and
/// whatever the diversity count.
pub proof fn lemma_unified_split_is_fusion_profile(
    c: CandidateModel,
    prior_same_type: int,
)
    ensures
        fused_score(
            c,
            RankingWeights {
                semantic: 700u32,
                graph: 300u32,
                relationship: 0u32,
                recency: 0u32,
                diversity: 0u32,
            },
            prior_same_type,
        ) == 700 * (c.semantic_score as int) + 300 * (c.graph_score as int),
{
}

// ------------------------------------------------------------------
// Ranking of unified hits
// ------------------------------------------------------------------

/// Where a stable insertion lands among unified hits.
pub open spec fn hybrid_insert_position(s: Seq<HybridSearchResult>, score: u64) -> int
    decreases s.len(),
{
    if s.len() == 0 {
        0
    } else if s[0].combined_score >= score {
        1 + hybrid_insert_position(s.drop_first(), score)
    } else {
        0
    }
}

proof fn lemma_hybrid_insert_position_props(s: Seq<HybridSearchResult>, score: u64)
    ensures
        0 <= hybrid_insert_position(s, score) <= s.len(),
        forall|j: int|
            0 <= j < hybrid_insert_position(s, score) ==> #[trigger] s[j].combined_score >= score,
        hybrid_insert_position(s, score) < s.len() ==> s[hybrid_insert_position(
            s,
            score,
        )].combined_score < score,
    decreases s.len(),
{
    if s.len() > 0 && s[0].combined_score >= score {
        lemma_hybrid_insert_position_props(s.drop_first(), score);
        let q = hybrid_insert_position(s, score);
        assert forall|j: int| 0 <= j < q implies #[trigger] s[j].combined_score >= score by {
            if j > 0 {
                assert(s.drop_first()[j - 1] == s[j]);
            }
        }
        if q < s.len() {
            assert(s.drop_first()[q - 1] == s[q]);
        }
    }
}

proof fn lemma_hybrid_insert_position_unique(s: Seq<HybridSearchResult>, score: u64, p: int)
    requires
        0 <= p <= s.len(),
        forall|j: int| 0 <= j < p ==> #[trigger] s[j].combined_score >= score,
        p < s.len() ==> s[p].combined_score < score,
    ensures
        p == hybrid_insert_position(s, score),
{
    lemma_hybrid_insert_position_props(s, score);
    let q = hybrid_insert_position(s, score);
    if p < q {
        assert(s[p].combined_score >= score);
    }
    if q < p {
        assert(s[q].combined_score >= score);
    }
}

/// Non-increasing combined scores.
pub open spec fn hybrid_sorted_desc(s: Seq<HybridSearchResult>) -> bool {
    forall|i: int, j: int|
        0 <= i <= j < s.len() ==> #[trigger] s[i].combined_score >= #[trigger] s[j].combined_score
}

/// A stable insertion sort of unified hits by descending combined score.
pub open spec fn hybrid_sort_desc(s: Seq<HybridSearchResult>) -> Seq<HybridSearchResult>
    decreases s.len(),
{
    if s.len() == 0 {
        Seq::empty()
    } else {
        let sorted_prefix = hybrid_sort_desc(s.drop_last());
        sorted_prefix.insert(hybrid_insert_position(sorted_prefix, s.last().combined_score), s.last())
    }
}

proof fn lemma_hybrid_sort_desc_props(s: Seq<HybridSearchResult>)
    ensures
        hybrid_sorted_desc(hybrid_sort_desc(s)),
        hybrid_sort_desc(s).len() == s.len(),
    decreases s.len(),
{
    if s.len() > 0 {
        lemma_hybrid_sort_desc_props(s.drop_last());
        let t = hybrid_sort_desc(s.drop_last());
        let c = s.last();
        lemma_hybrid_insert_position_props(t, c.combined_score);
        let p = hybrid_insert_position(t, c.combined_score);
        let r = t.insert(p, c);
        assert forall|i: int, j: int|
            0 <= i <= j < r.len() implies #[trigger] r[i].combined_score
            >= #[trigger] r[j].combined_score by {
            assert(forall|k: int| 0 <= k < p ==> r[k] == t[k]);
            assert(r[p] == c);
            assert(forall|k: int| p < k < r.len() ==> r[k] == t[k - 1]);
        }
    }
}

/// The ranked unified order, truncated to the requested limit.
pub open spec fn ranked_hybrid(s: Seq<HybridSearchResult>, limit: int) -> Seq<HybridSearchResult> {
    let sorted = hybrid_sort_desc(s);
    if limit < sorted.len() {
        sorted.take(limit)
    } else {
        sorted
    }
}

/// First position whose combined score is strictly below `score`.
fn find_hybrid_position(s: &Vec<HybridSearchResult>, score: u64) -> (r: usize)
    ensures
        r <= s@.len(),
        r as int == hybrid_insert_position(s@, score),
{
    let mut p: usize = 0;
    while p < s.len()
        invariant
            p <= s@.len(),
            forall|j: int| 0 <= j < p ==> #[trigger] s@[j].combined_score >= score,
        decreases s@.len() - p,
    {
        if s[p].combined_score < score {
            proof {
                lemma_hybrid_insert_position_unique(s@, score, p as int);
            }
            return p;
        }
        p += 1;
    }
    proof {
        lemma_hybrid_insert_position_unique(s@, score, p as int);
    }
    p
}

/// Sort unified hits stably by descending combined score and keep at most
/// `limit` of them.
pub fn rank_hybrid_results(results: Vec<HybridSearchResult>, limit: usize) -> (r: Vec<
    HybridSearchResult,
>)
    ensures
        r@ == ranked_hybrid(results@, limit as int),
        hybrid_sorted_desc(r@),
        r@.len() <= limit,
{
    let ghost m0 = results@;
    let mut out: Vec<HybridSearchResult> = Vec::new();
    let mut rest = results;
    proof {
        assert(rest@ =~= m0.skip(0));
        assert(m0.take(0) =~= Seq::<HybridSearchResult>::empty());
        assert(out@ =~= hybrid_sort_desc(m0.take(0)));
    }
    while rest.len() > 0
        invariant
            rest@.len() <= m0.len(),
            rest@ == m0.skip(m0.len() - rest@.len()),
            out@ == hybrid_sort_desc(m0.take(m0.len() - rest@.len())),
        decreases rest@.len(),
    {
        let ghost i = m0.len() - rest@.len();
        let ghost out0 = out@;
        let ghost before = rest@;
        let c = rest.remove(0);
        proof {
            assert(c == before[0]);
            assert(before[0] == m0.skip(i)[0]);
            assert(m0.skip(i)[0] == m0[i]);
            assert(rest@ =~= m0.skip(i + 1));
            lemma_hybrid_sort_desc_props(m0.take(i));
        }
        let pos = find_hybrid_position(&out, c.combined_score);
        out.insert(pos, c);
        proof {
            assert(m0.take(i + 1).drop_last() =~= m0.take(i));
            assert(m0.take(i + 1).last() == m0[i]);
            assert(hybrid_sort_desc(m0.take(i + 1)) == out0.insert(
                hybrid_insert_position(out0, m0[i].combined_score),
                m0[i],
            ));
        }
    }
    proof {
        assert(m0.take(m0.len() as int) =~= m0);
        lemma_hybrid_sort_desc_props(m0);
    }
    out.truncate(limit);
    proof {
        if (limit as int) < hybrid_sort_desc(m0).len() {
            assert(out@ =~= hybrid_sort_desc(m0).take(limit as int));
        }
        assert forall|i: int, j: int|
            0 <= i <= j < out@.len() implies #[trigger] out@[i].combined_score
            >= #[trigger] out@[j].combined_score by {
            if (limit as int) < hybrid_sort_desc(m0).len() {
                assert(out@[i] == hybrid_sort_desc(m0)[i]);
                assert(out@[j] == hybrid_sort_desc(m0)[j]);
            }
        }
    }
    out
}

} // verus!
