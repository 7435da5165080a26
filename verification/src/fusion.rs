//! Score fusion: merging the vector and graph result sets into one candidate
//! set keyed by `id`, fused scoring, and stable descending ranking.

use vstd::prelude::*;

use vstd::multiset::Multiset;

use crate::model::Candidate;
use crate::model::CandidateModel;
use crate::model::RankingWeights;
use crate::model::models_of;
use crate::model::RECENCY_NEUTRAL;
use crate::model::SCORE_SCALE;

verus! {

// ------------------------------------------------------------------
// Looking a candidate up by its merge key
// ------------------------------------------------------------------

/// Index of the first model whose `id` is `id`, or -1 when none matches.
pub open spec fn first_index_of(s: Seq<CandidateModel>, id: Seq<char>) -> int
    decreases s.len(),
{
    if s.len() == 0 {
        -1
    } else if s[0].id == id {
        0
    } else if first_index_of(s.drop_first(), id) < 0 {
        -1
    } else {
        first_index_of(s.drop_first(), id) + 1
    }
}

proof fn lemma_first_index_of(s: Seq<CandidateModel>, id: Seq<char>)
    ensures
        -1 <= first_index_of(s, id) < s.len(),
        first_index_of(s, id) >= 0 ==> s[first_index_of(s, id)].id == id,
        forall|j: int|
            0 <= j < s.len() && #[trigger] s[j].id == id ==> 0 <= first_index_of(s, id) <= j,
    decreases s.len(),
{
    if s.len() > 0 && s[0].id != id {
        lemma_first_index_of(s.drop_first(), id);
        assert forall|j: int|
            0 <= j < s.len() && #[trigger] s[j].id == id implies 0 <= first_index_of(s, id)
            <= j by {
            assert(s.drop_first()[j - 1] == s[j]);
        }
        if first_index_of(s.drop_first(), id) >= 0 {
            assert(s[first_index_of(s, id)] == s.drop_first()[first_index_of(s.drop_first(), id)]);
        }
    }
}

/// First position holding a candidate with the given merge key.
fn find_by_id(s: &Vec<Candidate>, id: &String) -> (r: Option<usize>)
    ensures
        match r {
            Option::Some(i) => first_index_of(models_of(s@), id@) == i as int,
            Option::None => first_index_of(models_of(s@), id@) == -1,
        },
{
    let mut i: usize = 0;
    while i < s.len()
        invariant
            i <= s@.len(),
            forall|j: int| 0 <= j < i ==> models_of(s@)[j].id != id@,
        decreases s@.len() - i,
    {
        if s[i].id == *id {
            proof {
                lemma_first_index_of(models_of(s@), id@);
                assert(models_of(s@)[i as int].id == id@);
            }
            return Some(i);
        }
        proof {
            assert(models_of(s@)[i as int].id == s@[i as int].id@);
        }
        i += 1;
    }
    proof {
        lemma_first_index_of(models_of(s@), id@);
        if first_index_of(models_of(s@), id@) >= 0 {
            assert(models_of(s@)[first_index_of(models_of(s@), id@)].id == id@);
        }
    }
    None
}

// ------------------------------------------------------------------
// Merge: vector results first, then graph results folded in
// ------------------------------------------------------------------

/// One step of the vector phase: a candidate with a fresh `id` is appended;
/// a repeated `id` replaces the earlier record in place, as a map insert would.
pub open spec fn replace_or_push(acc: Seq<CandidateModel>, c: CandidateModel) -> Seq<
    CandidateModel,
> {
    let i = first_index_of(acc, c.id);
    if i >= 0 {
        acc.update(i, c)
    } else {
        acc.push(c)
    }
}

/// A vector-phase record updated by a graph-phase record with the same `id`:
/// only the graph fields are overwritten and the neighbor ids appended; the
/// vector-origin score and content are preserved.
pub open spec fn graph_merged(e: CandidateModel, g: CandidateModel) -> CandidateModel {
    CandidateModel {
        graph_score: g.graph_score,
        relationship_depth: g.relationship_depth,
        related_ids: e.related_ids + g.related_ids,
        ..e
    }
}

/// One step of the graph phase: a fresh `id` is appended unchanged; a known
/// `id` folds its graph fields into the existing record.
pub open spec fn fold_or_push(acc: Seq<CandidateModel>, g: CandidateModel) -> Seq<CandidateModel> {
    let i = first_index_of(acc, g.id);
    if i >= 0 {
        acc.update(i, graph_merged(acc[i], g))
    } else {
        acc.push(g)
    }
}

pub open spec fn merge_vector_phase(acc: Seq<CandidateModel>, v: Seq<CandidateModel>) -> Seq<
    CandidateModel,
>
    decreases v.len(),
{
    if v.len() == 0 {
        acc
    } else {
        merge_vector_phase(replace_or_push(acc, v[0]), v.drop_first())
    }
}

pub open spec fn merge_graph_phase(acc: Seq<CandidateModel>, g: Seq<CandidateModel>) -> Seq<
    CandidateModel,
>
    decreases g.len(),
{
    if g.len() == 0 {
        acc
    } else {
        merge_graph_phase(fold_or_push(acc, g[0]), g.drop_first())
    }
}

/// The merged candidate set: vector results inserted first, then each graph
/// result either folded into the record with its `id` or appended.
pub open spec fn merged_models(v: Seq<CandidateModel>, g: Seq<CandidateModel>) -> Seq<
    CandidateModel,
> {
    merge_graph_phase(merge_vector_phase(Seq::empty(), v), g)
}

proof fn lemma_vector_phase_snoc(
    acc: Seq<CandidateModel>,
    v: Seq<CandidateModel>,
    x: CandidateModel,
)
    ensures
        merge_vector_phase(acc, v.push(x)) == replace_or_push(merge_vector_phase(acc, v), x),
    decreases v.len(),
{
    let p = v.push(x);
    if v.len() == 0 {
        assert(p[0] == x);
        assert(p.drop_first() =~= Seq::<CandidateModel>::empty());
        assert(merge_vector_phase(acc, p) == merge_vector_phase(
            replace_or_push(acc, x),
            p.drop_first(),
        ));
        assert(merge_vector_phase(replace_or_push(acc, x), Seq::<CandidateModel>::empty())
            == replace_or_push(acc, x));
        assert(merge_vector_phase(acc, v) == acc);
    } else {
        assert(p[0] == v[0]);
        assert(p.drop_first() =~= v.drop_first().push(x));
        assert(merge_vector_phase(acc, p) == merge_vector_phase(
            replace_or_push(acc, v[0]),
            v.drop_first().push(x),
        ));
        lemma_vector_phase_snoc(replace_or_push(acc, v[0]), v.drop_first(), x);
        assert(merge_vector_phase(acc, v) == merge_vector_phase(
            replace_or_push(acc, v[0]),
            v.drop_first(),
        ));
    }
}

proof fn lemma_graph_phase_snoc(
    acc: Seq<CandidateModel>,
    g: Seq<CandidateModel>,
    x: CandidateModel,
)
    ensures
        merge_graph_phase(acc, g.push(x)) == fold_or_push(merge_graph_phase(acc, g), x),
    decreases g.len(),
{
    let p = g.push(x);
    if g.len() == 0 {
        assert(p[0] == x);
        assert(p.drop_first() =~= Seq::<CandidateModel>::empty());
        assert(merge_graph_phase(acc, p) == merge_graph_phase(
            fold_or_push(acc, x),
            p.drop_first(),
        ));
        assert(merge_graph_phase(fold_or_push(acc, x), Seq::<CandidateModel>::empty())
            == fold_or_push(acc, x));
        assert(merge_graph_phase(acc, g) == acc);
    } else {
        assert(p[0] == g[0]);
        assert(p.drop_first() =~= g.drop_first().push(x));
        assert(merge_graph_phase(acc, p) == merge_graph_phase(
            fold_or_push(acc, g[0]),
            g.drop_first().push(x),
        ));
        lemma_graph_phase_snoc(fold_or_push(acc, g[0]), g.drop_first(), x);
        assert(merge_graph_phase(acc, g) == merge_graph_phase(
            fold_or_push(acc, g[0]),
            g.drop_first(),
        ));
    }
}

/// Merge the two result sets, vector results first. A candidate found by both
/// modalities becomes one record that keeps the vector content and similarity
/// and takes the graph score, depth, and neighbor ids from the graph record.
pub fn merge_candidates(vector_results: Vec<Candidate>, graph_results: Vec<Candidate>) -> (r: Vec<
    Candidate,
>)
    ensures
        models_of(r@) == merged_models(models_of(vector_results@), models_of(graph_results@)),
{
    let ghost vm = models_of(vector_results@);
    let ghost gm = models_of(graph_results@);
    let mut out: Vec<Candidate> = Vec::new();
    let mut rest = vector_results;
    proof {
        assert(models_of(rest@) =~= vm.skip(0));
        assert(vm.take(0) =~= Seq::<CandidateModel>::empty());
        assert(merge_vector_phase(Seq::empty(), vm.take(0)) == Seq::<CandidateModel>::empty());
        assert(models_of(out@) =~= Seq::<CandidateModel>::empty());
    }
    while rest.len() > 0
        invariant
            rest@.len() <= vm.len(),
            models_of(rest@) == vm.skip(vm.len() - rest@.len()),
            models_of(out@) == merge_vector_phase(Seq::empty(), vm.take(vm.len() - rest@.len())),
        decreases rest@.len(),
    {
        let ghost i = vm.len() - rest@.len();
        let ghost out0 = models_of(out@);
        let ghost before = rest@;
        let c = rest.remove(0);
        proof {
            assert(c == before[0]);
            assert(c@ == models_of(before)[0]);
            assert(vm.skip(i)[0] == vm[i]);
            assert(rest@ =~= before.subrange(1, before.len() as int));
            assert forall|j: int| 0 <= j < rest@.len() implies models_of(rest@)[j] == vm.skip(
                i + 1,
            )[j] by {
                assert(rest@[j] == before[j + 1]);
                assert(models_of(before)[j + 1] == before[j + 1]@);
                assert(vm.skip(i)[j + 1] == vm[i + 1 + j]);
                assert(vm.skip(i + 1)[j] == vm[i + 1 + j]);
            }
            assert(models_of(rest@) =~= vm.skip(i + 1));
        }
        let ghost outv0 = out@;
        match find_by_id(&out, &c.id) {
            Some(idx) => {
                proof {
                    lemma_first_index_of(out0, c.id@);
                }
                out.remove(idx);
                out.insert(idx, c);
                proof {
                    assert(out@ =~= outv0.update(idx as int, c));
                    assert(models_of(out@) =~= out0.update(idx as int, vm[i]));
                }
            },
            None => {
                out.push(c);
                proof {
                    assert(models_of(out@) =~= out0.push(vm[i]));
                }
            },
        }
        proof {
            assert(models_of(out@) == replace_or_push(out0, vm[i]));
            assert(vm.take(i + 1) =~= vm.take(i).push(vm[i]));
            lemma_vector_phase_snoc(Seq::empty(), vm.take(i), vm[i]);
        }
    }
    proof {
        assert(vm.take(vm.len() as int) =~= vm);
    }
    let mut rest = graph_results;
    proof {
        assert(models_of(rest@) =~= gm.skip(0));
        assert(gm.take(0) =~= Seq::<CandidateModel>::empty());
        assert(merge_graph_phase(merge_vector_phase(Seq::empty(), vm), gm.take(0))
            == merge_vector_phase(Seq::empty(), vm));
    }
    while rest.len() > 0
        invariant
            rest@.len() <= gm.len(),
            models_of(rest@) == gm.skip(gm.len() - rest@.len()),
            models_of(out@) == merge_graph_phase(
                merge_vector_phase(Seq::empty(), vm),
                gm.take(gm.len() - rest@.len()),
            ),
        decreases rest@.len(),
    {
        let ghost i = gm.len() - rest@.len();
        let ghost out0 = models_of(out@);
        let ghost before = rest@;
        let mut c = rest.remove(0);
        proof {
            assert(c == before[0]);
            assert(c@ == models_of(before)[0]);
            assert(gm.skip(i)[0] == gm[i]);
            assert(rest@ =~= before.subrange(1, before.len() as int));
            assert forall|j: int| 0 <= j < rest@.len() implies models_of(rest@)[j] == gm.skip(
                i + 1,
            )[j] by {
                assert(rest@[j] == before[j + 1]);
                assert(models_of(before)[j + 1] == before[j + 1]@);
                assert(gm.skip(i)[j + 1] == gm[i + 1 + j]);
                assert(gm.skip(i + 1)[j] == gm[i + 1 + j]);
            }
            assert(models_of(rest@) =~= gm.skip(i + 1));
        }
        let ghost outv0 = out@;
        match find_by_id(&out, &c.id) {
            Some(idx) => {
                proof {
                    lemma_first_index_of(out0, c.id@);
                }
                let mut e = out.remove(idx);
                proof {
                    assert(e == outv0[idx as int]);
                    assert(e@ == out0[idx as int]);
                }
                let ghost e0 = e@;
                e.graph_score = c.graph_score;
                e.relationship_depth = c.relationship_depth;
                e.related_ids.append(&mut c.related_ids);
                proof {
                    assert(e@.related_ids =~= e0.related_ids + gm[i].related_ids);
                    assert(e@ =~= graph_merged(out0[idx as int], gm[i]));
                }
                out.insert(idx, e);
                proof {
                    assert(out@ =~= outv0.update(idx as int, e));
                    assert(models_of(out@) =~= out0.update(
                        idx as int,
                        graph_merged(out0[idx as int], gm[i]),
                    ));
                }
            },
            None => {
                out.push(c);
                proof {
                    assert(models_of(out@) =~= out0.push(gm[i]));
                }
            },
        }
        proof {
            assert(models_of(out@) == fold_or_push(out0, gm[i]));
            assert(gm.take(i + 1) =~= gm.take(i).push(gm[i]));
            lemma_graph_phase_snoc(merge_vector_phase(Seq::empty(), vm), gm.take(i), gm[i]);
        }
    }
    proof {
        assert(gm.take(gm.len() as int) =~= gm);
    }
    out
}

// ------------------------------------------------------------------
// Scoring
// ------------------------------------------------------------------

/// How many of the first `n` candidates carry the content type `ct`.
pub open spec fn count_type(s: Seq<CandidateModel>, ct: Seq<char>, n: int) -> int
    decreases n,
{
    if n <= 0 {
        0
    } else if s[n - 1].content_type == ct {
        count_type(s, ct, n - 1) + 1
    } else {
        count_type(s, ct, n - 1)
    }
}

proof fn lemma_count_type_bounds(s: Seq<CandidateModel>, ct: Seq<char>, n: int)
    ensures
        0 <= count_type(s, ct, n),
        n >= 0 ==> count_type(s, ct, n) <= n,
    decreases n,
{
    if n > 0 {
        lemma_count_type_bounds(s, ct, n - 1);
    }
}

/// The count reads nothing but the content types of the first `n` entries.
proof fn lemma_count_type_congruent(a: Seq<CandidateModel>, b: Seq<CandidateModel>, ct: Seq<char>, n: int)
    requires
        forall|j: int| 0 <= j < n ==> a[j].content_type == b[j].content_type,
    ensures
        count_type(a, ct, n) == count_type(b, ct, n),
    decreases n,
{
    if n > 0 {
        lemma_count_type_congruent(a, b, ct, n - 1);
    }
}

/// The fused relevance of one candidate, in micro-units:
/// ```text
/// final_score = semantic_score * semantic weight
///             + graph_score * graph weight
///             + (1 / (relationship_depth + 1)) * relationship weight
///             + recency_factor * recency weight
///             + (1 / count_so_far(content_type)) * diversity weight
/// ```
/// where the two reciprocals and the neutral recency factor are milli-unit
/// fixed-point values, and `prior_same_type` counts earlier candidates of the
/// same content type in the scoring scan.
pub open spec fn fused_score(c: CandidateModel, w: RankingWeights, prior_same_type: int) -> int {
    c.semantic_score * w.semantic + c.graph_score * w.graph + (SCORE_SCALE as int / (
    c.relationship_depth + 1)) * w.relationship + RECENCY_NEUTRAL * w.recency + (SCORE_SCALE as int
        / (prior_same_type + 1)) * w.diversity
}

pub open spec fn with_final_score(c: CandidateModel, f: u64) -> CandidateModel {
    CandidateModel { final_score: f, ..c }
}

/// One scoring pass in scan order: each candidate's final score is its fused
/// relevance, with the diversity reciprocal counting the candidates of the
/// same content type seen earlier in the scan.
pub open spec fn scored_models(s: Seq<CandidateModel>, w: RankingWeights) -> Seq<CandidateModel> {
    Seq::new(
        s.len(),
        |i: int|
            with_final_score(
                s[i],
                fused_score(s[i], w, count_type(s, s[i].content_type, i)) as u64,
            ),
    )
}

/// With well-formed weights, every fused score fits in `u64`.
proof fn lemma_fused_score_bounds(c: CandidateModel, w: RankingWeights, prior_same_type: int)
    requires
        w.wf(),
        prior_same_type >= 0,
    ensures
        0 <= fused_score(c, w, prior_same_type) <= 21474836475000000,
{
    broadcast use vstd::arithmetic::mul::lemma_mul_upper_bound;
    broadcast use vstd::arithmetic::mul::lemma_mul_nonnegative;

    let depth_factor = SCORE_SCALE as int / (c.relationship_depth + 1);
    let diversity_factor = SCORE_SCALE as int / (prior_same_type + 1);
    assert(0 <= depth_factor <= 1000) by (nonlinear_arith)
        requires
            depth_factor == SCORE_SCALE as int / (c.relationship_depth + 1),
            c.relationship_depth >= 0,
    ;
    assert(0 <= diversity_factor <= 1000) by (nonlinear_arith)
        requires
            diversity_factor == SCORE_SCALE as int / (prior_same_type + 1),
            prior_same_type >= 0,
    ;
    assert(c.semantic_score * w.semantic <= 4294967295int * 1000000int);
    assert(c.graph_score * w.graph <= 4294967295int * 1000000int);
    assert(depth_factor * w.relationship <= 1000int * 1000000int);
    assert(RECENCY_NEUTRAL * w.recency <= 500int * 1000000int);
    assert(diversity_factor * w.diversity <= 1000int * 1000000int);
}

/// How many already-packed candidates carry this content type.
fn count_same_type(s: &Vec<Candidate>, ct: &String) -> (r: usize)
    ensures
        r as int == count_type(models_of(s@), ct@, s@.len() as int),
{
    let mut n: usize = 0;
    let mut i: usize = 0;
    while i < s.len()
        invariant
            i <= s@.len(),
            n <= i,
            n as int == count_type(models_of(s@), ct@, i as int),
        decreases s@.len() - i,
    {
        proof {
            assert(models_of(s@)[i as int].content_type == s@[i as int].content_type@);
        }
        if s[i].content_type == *ct {
            n += 1;
        }
        i += 1;
    }
    n
}

/// Compute every candidate's fused relevance, scanning in input order.
pub fn score_candidates(candidates: Vec<Candidate>, weights: &RankingWeights) -> (r: Vec<Candidate>)
    requires
        weights.wf(),
    ensures
        models_of(r@) == scored_models(models_of(candidates@), *weights),
{
    let ghost m0 = models_of(candidates@);
    let ghost sm = scored_models(m0, *weights);
    let mut out: Vec<Candidate> = Vec::new();
    let mut rest = candidates;
    proof {
        assert(models_of(rest@) =~= m0.skip(0));
        assert(models_of(out@) =~= sm.take(0));
    }
    while rest.len() > 0
        invariant
            weights.wf(),
            sm == scored_models(m0, *weights),
            rest@.len() <= m0.len(),
            models_of(rest@) == m0.skip(m0.len() - rest@.len()),
            models_of(out@) == sm.take(m0.len() - rest@.len()),
        decreases rest@.len(),
    {
        let ghost i = m0.len() - rest@.len();
        let ghost before = rest@;
        let mut c = rest.remove(0);
        proof {
            assert(sm.len() == scored_models(m0, *weights).len());
            assert(sm.len() == m0.len());
            assert(c == before[0]);
            assert(c@ == models_of(before)[0]);
            assert(m0.skip(i)[0] == m0[i]);
            assert forall|j: int| 0 <= j < rest@.len() implies models_of(rest@)[j] == m0.skip(
                i + 1,
            )[j] by {
                assert(rest@[j] == before[j + 1]);
                assert(models_of(before)[j + 1] == before[j + 1]@);
                assert(m0.skip(i)[j + 1] == m0[i + 1 + j]);
                assert(m0.skip(i + 1)[j] == m0[i + 1 + j]);
            }
            assert(models_of(rest@) =~= m0.skip(i + 1));
            assert forall|j: int| 0 <= j < i implies models_of(out@)[j].content_type
                == m0[j].content_type by {
                assert(models_of(out@)[j] == sm.take(i)[j]);
                assert(sm[j] == with_final_score(
                    m0[j],
                    fused_score(m0[j], *weights, count_type(m0, m0[j].content_type, j)) as u64,
                ));
            }
            lemma_count_type_congruent(models_of(out@), m0, c.content_type@, i);
        }
        let prior = count_same_type(&out, &c.content_type);
        proof {
            assert(models_of(out@).len() == out@.len());
            assert(sm.take(i).len() == i);
            assert(out@.len() == i);
            assert(c.content_type@ == m0[i].content_type);
            assert(prior as int == count_type(models_of(out@), c.content_type@, i));
            assert(count_type(models_of(out@), c.content_type@, i) == count_type(
                m0,
                c.content_type@,
                i,
            ));
            assert(prior as int == count_type(m0, m0[i].content_type, i));
            lemma_count_type_bounds(m0, m0[i].content_type, i);
            lemma_fused_score_bounds(m0[i], *weights, prior as int);
            broadcast use vstd::arithmetic::mul::lemma_mul_upper_bound;
            broadcast use vstd::arithmetic::mul::lemma_mul_nonnegative;

        }
        let sem: u64 = (c.semantic_score as u64) * (weights.semantic as u64);
        let gra: u64 = (c.graph_score as u64) * (weights.graph as u64);
        let depth_factor: u64 = (SCORE_SCALE as u64) / ((c.relationship_depth as u64) + 1);
        proof {
            assert(depth_factor <= 1000) by (nonlinear_arith)
                requires
                    depth_factor == (SCORE_SCALE as u64) as int / ((c.relationship_depth as u64)
                        + 1) as int,
            ;
        }
        let rel: u64 = depth_factor * (weights.relationship as u64);
        let rec: u64 = (RECENCY_NEUTRAL as u64) * (weights.recency as u64);
        let diversity_factor: u64 = if prior < 1000 {
            (SCORE_SCALE as u64) / ((prior as u64) + 1)
        } else {
            0
        };
        proof {
            assert(diversity_factor as int == SCORE_SCALE as int / (prior as int + 1)
                && diversity_factor <= 1000) by (nonlinear_arith)
                requires
                    prior >= 0,
                    diversity_factor == if prior < 1000 {
                        ((SCORE_SCALE as u64) as int / ((prior as u64) + 1) as int)
                    } else {
                        0int
                    },
            ;
        }
        let dvy: u64 = diversity_factor * (weights.diversity as u64);
        let total: u64 = sem + gra + rel + rec + dvy;
        proof {
            assert(total as int == fused_score(m0[i], *weights, prior as int));
        }
        c.final_score = total;
        out.push(c);
        proof {
            assert(models_of(out@) =~= sm.take(i + 1));
        }
    }
    proof {
        assert(sm.take(m0.len() as int) =~= sm);
    }
    out
}

// ------------------------------------------------------------------
// Stable descending sort and ranking
// ------------------------------------------------------------------

/// Final scores are non-increasing across the sequence.
pub open spec fn sorted_desc(s: Seq<CandidateModel>) -> bool {
    forall|i: int, j: int|
        0 <= i <= j < s.len() ==> #[trigger] s[i].final_score >= #[trigger] s[j].final_score
}

/// Where a stable insertion lands: after every candidate scoring at least as
/// high, before the first scoring strictly lower.
pub open spec fn insert_position(s: Seq<CandidateModel>, score: u64) -> int
    decreases s.len(),
{
    if s.len() == 0 {
        0
    } else if s[0].final_score >= score {
        1 + insert_position(s.drop_first(), score)
    } else {
        0
    }
}

proof fn lemma_insert_position_props(s: Seq<CandidateModel>, score: u64)
    ensures
        0 <= insert_position(s, score) <= s.len(),
        forall|j: int| 0 <= j < insert_position(s, score) ==> #[trigger] s[j].final_score >= score,
        insert_position(s, score) < s.len() ==> s[insert_position(s, score)].final_score < score,
    decreases s.len(),
{
    if s.len() > 0 && s[0].final_score >= score {
        lemma_insert_position_props(s.drop_first(), score);
        let q = insert_position(s, score);
        assert forall|j: int| 0 <= j < q implies #[trigger] s[j].final_score >= score by {
            if j > 0 {
                assert(s.drop_first()[j - 1] == s[j]);
            }
        }
        if q < s.len() {
            assert(s.drop_first()[q - 1] == s[q]);
        }
    }
}

/// Any position with the stable-insertion properties is the insert position.
proof fn lemma_insert_position_unique(s: Seq<CandidateModel>, score: u64, p: int)
    requires
        0 <= p <= s.len(),
        forall|j: int| 0 <= j < p ==> #[trigger] s[j].final_score >= score,
        p < s.len() ==> s[p].final_score < score,
    ensures
        p == insert_position(s, score),
{
    lemma_insert_position_props(s, score);
    let q = insert_position(s, score);
    if p < q {
        assert(s[p].final_score >= score);
    }
    if q < p {
        assert(s[q].final_score >= score);
    }
}

/// One candidate inserted into a ranked prefix, after every earlier candidate
/// with an equal score: the step of a stable insertion sort.
pub open spec fn insert_desc(s: Seq<CandidateModel>, c: CandidateModel) -> Seq<CandidateModel> {
    s.insert(insert_position(s, c.final_score), c)
}

proof fn lemma_insert_desc_props(s: Seq<CandidateModel>, c: CandidateModel)
    requires
        sorted_desc(s),
    ensures
        sorted_desc(insert_desc(s, c)),
        insert_desc(s, c).len() == s.len() + 1,
        insert_desc(s, c).to_multiset() == s.to_multiset().insert(c),
{
    lemma_insert_position_props(s, c.final_score);
    let p = insert_position(s, c.final_score);
    let r = insert_desc(s, c);
    assert forall|i: int, j: int|
        0 <= i <= j < r.len() implies #[trigger] r[i].final_score
        >= #[trigger] r[j].final_score by {
        assert(forall|k: int| 0 <= k < p ==> r[k] == s[k]);
        assert(r[p] == c);
        assert(forall|k: int| p < k < r.len() ==> r[k] == s[k - 1]);
    }
    vstd::seq_lib::to_multiset_insert(s, p, c);
}

/// The ranked order: a stable insertion sort by descending final score.
/// Candidates with equal scores keep their relative input order.
pub open spec fn sort_desc(s: Seq<CandidateModel>) -> Seq<CandidateModel>
    decreases s.len(),
{
    if s.len() == 0 {
        Seq::empty()
    } else {
        insert_desc(sort_desc(s.drop_last()), s.last())
    }
}

proof fn lemma_sort_desc_props(s: Seq<CandidateModel>)
    ensures
        sorted_desc(sort_desc(s)),
        sort_desc(s).len() == s.len(),
        sort_desc(s).to_multiset() == s.to_multiset(),
    decreases s.len(),
{
    broadcast use vstd::seq_lib::group_to_multiset_ensures;

    if s.len() == 0 {
        assert(sort_desc(s) =~= Seq::<CandidateModel>::empty());
        assert(s.to_multiset() =~= Multiset::<CandidateModel>::empty());
    } else {
        lemma_sort_desc_props(s.drop_last());
        lemma_insert_desc_props(sort_desc(s.drop_last()), s.last());
        assert(s =~= s.drop_last().push(s.last()));
        assert(s.drop_last().push(s.last()).to_multiset() == s.drop_last().to_multiset().insert(
            s.last(),
        ));
    }
}

/// First position whose final score is strictly below `score`.
fn find_insert_position(s: &Vec<Candidate>, score: u64) -> (r: usize)
    ensures
        r <= s@.len(),
        r as int == insert_position(models_of(s@), score),
{
    let mut p: usize = 0;
    while p < s.len()
        invariant
            p <= s@.len(),
            forall|j: int| 0 <= j < p ==> #[trigger] models_of(s@)[j].final_score >= score,
        decreases s@.len() - p,
    {
        proof {
            assert(models_of(s@)[p as int].final_score == s@[p as int].final_score);
        }
        if s[p].final_score < score {
            proof {
                lemma_insert_position_unique(models_of(s@), score, p as int);
            }
            return p;
        }
        p += 1;
    }
    proof {
        lemma_insert_position_unique(models_of(s@), score, p as int);
    }
    p
}

/// Stable sort by descending final score: equal scores keep their relative
/// input order, and no score comparison can fail or reorder arbitrarily.
pub fn sort_by_final_score(candidates: Vec<Candidate>) -> (r: Vec<Candidate>)
    ensures
        models_of(r@) == sort_desc(models_of(candidates@)),
{
    let ghost m0 = models_of(candidates@);
    let mut out: Vec<Candidate> = Vec::new();
    let mut rest = candidates;
    proof {
        assert(models_of(rest@) =~= m0.skip(0));
        assert(m0.take(0) =~= Seq::<CandidateModel>::empty());
        assert(models_of(out@) =~= sort_desc(m0.take(0)));
    }
    while rest.len() > 0
        invariant
            rest@.len() <= m0.len(),
            models_of(rest@) == m0.skip(m0.len() - rest@.len()),
            models_of(out@) == sort_desc(m0.take(m0.len() - rest@.len())),
        decreases rest@.len(),
    {
        let ghost i = m0.len() - rest@.len();
        let ghost out0 = models_of(out@);
        let ghost outv0 = out@;
        let ghost before = rest@;
        let c = rest.remove(0);
        proof {
            assert(c == before[0]);
            assert(c@ == models_of(before)[0]);
            assert(m0.skip(i)[0] == m0[i]);
            assert forall|j: int| 0 <= j < rest@.len() implies models_of(rest@)[j] == m0.skip(
                i + 1,
            )[j] by {
                assert(rest@[j] == before[j + 1]);
                assert(models_of(before)[j + 1] == before[j + 1]@);
                assert(m0.skip(i)[j + 1] == m0[i + 1 + j]);
                assert(m0.skip(i + 1)[j] == m0[i + 1 + j]);
            }
            assert(models_of(rest@) =~= m0.skip(i + 1));
            lemma_sort_desc_props(m0.take(i));
        }
        let pos = find_insert_position(&out, c.final_score);
        out.insert(pos, c);
        proof {
            assert forall|k: int| 0 <= k < out@.len() implies models_of(out@)[k] == out0.insert(
                pos as int,
                c@,
            )[k] by {
                assert(out@[k] == outv0.insert(pos as int, c)[k]);
                if k < pos as int {
                    assert(outv0.insert(pos as int, c)[k] == outv0[k]);
                    assert(out0.insert(pos as int, c@)[k] == out0[k]);
                } else if k == pos as int {
                    assert(outv0.insert(pos as int, c)[k] == c);
                    assert(out0.insert(pos as int, c@)[k] == c@);
                } else {
                    assert(outv0.insert(pos as int, c)[k] == outv0[k - 1]);
                    assert(out0.insert(pos as int, c@)[k] == out0[k - 1]);
                }
            }
            assert(models_of(out@) =~= out0.insert(pos as int, c@));
            assert(models_of(out@) == insert_desc(out0, m0[i]));
            assert(m0.take(i + 1).drop_last() =~= m0.take(i));
            assert(m0.take(i + 1).last() == m0[i]);
            assert(sort_desc(m0.take(i + 1)) == insert_desc(sort_desc(m0.take(i)), m0[i]));
        }
    }
    proof {
        assert(m0.take(m0.len() as int) =~= m0);
    }
    out
}

/// The end-to-end fusion order: merge, score, stable sort, then truncation to
/// the configured maximum result count.
pub open spec fn ranked_models(
    v: Seq<CandidateModel>,
    g: Seq<CandidateModel>,
    w: RankingWeights,
    max: int,
) -> Seq<CandidateModel> {
    let fused = sort_desc(scored_models(merged_models(v, g), w));
    if max < fused.len() {
        fused.take(max)
    } else {
        fused
    }
}

/// Merge the two result sets, compute fused scores, sort stably by descending
/// final score, and keep at most `max_results` candidates.
pub fn merge_and_rank(
    vector_results: Vec<Candidate>,
    graph_results: Vec<Candidate>,
    weights: &RankingWeights,
    max_results: usize,
) -> (r: Vec<Candidate>)
    requires
        weights.wf(),
    ensures
        models_of(r@) == ranked_models(
            models_of(vector_results@),
            models_of(graph_results@),
            *weights,
            max_results as int,
        ),
        sorted_desc(models_of(r@)),
        r@.len() <= max_results,
{
    let ghost vm = models_of(vector_results@);
    let ghost gm = models_of(graph_results@);
    let merged = merge_candidates(vector_results, graph_results);
    let scored = score_candidates(merged, weights);
    let mut ranked = sort_by_final_score(scored);
    let ghost fused = sort_desc(scored_models(merged_models(vm, gm), *weights));
    proof {
        lemma_sort_desc_props(scored_models(merged_models(vm, gm), *weights));
    }
    ranked.truncate(max_results);
    proof {
        if (max_results as int) < fused.len() {
            assert(models_of(ranked@) =~= fused.take(max_results as int));
        }
        assert(models_of(ranked@) == ranked_models(vm, gm, *weights, max_results as int));
        assert forall|i: int, j: int|
            0 <= i <= j < models_of(ranked@).len() implies #[trigger] models_of(
            ranked@,
        )[i].final_score >= #[trigger] models_of(ranked@)[j].final_score by {
            if (max_results as int) < fused.len() {
                assert(models_of(ranked@)[i] == fused[i]);
                assert(models_of(ranked@)[j] == fused[j]);
            }
        }
        assert(models_of(ranked@).len() == ranked@.len());
    }
    ranked
}

// ------------------------------------------------------------------
// Laws of the merge and of the ranking
// ------------------------------------------------------------------

/// No two candidates share a merge key.
pub open spec fn distinct_ids(s: Seq<CandidateModel>) -> bool {
    forall|i: int, j: int| 0 <= i < j < s.len() ==> s[i].id != s[j].id
}

proof fn lemma_distinct_drop_first(s: Seq<CandidateModel>)
    requires
        distinct_ids(s),
        s.len() > 0,
    ensures
        distinct_ids(s.drop_first()),
{
    assert forall|i: int, j: int| 0 <= i < j < s.drop_first().len() implies s.drop_first()[i].id
        != s.drop_first()[j].id by {
        assert(s.drop_first()[i] == s[i + 1]);
        assert(s.drop_first()[j] == s[j + 1]);
    }
}

/// When none of the new candidates' ids occurs in the accumulator, the vector
/// phase appends them all in order.
proof fn lemma_vector_phase_all_new(acc: Seq<CandidateModel>, v: Seq<CandidateModel>)
    requires
        distinct_ids(v),
        forall|a: int, b: int|
            #![trigger acc[a].id, v[b].id]
            0 <= a < acc.len() && 0 <= b < v.len() ==> acc[a].id != v[b].id,
    ensures
        merge_vector_phase(acc, v) == acc + v,
    decreases v.len(),
{
    if v.len() == 0 {
        assert(acc + v =~= acc);
    } else {
        lemma_first_index_of(acc, v[0].id);
        if first_index_of(acc, v[0].id) >= 0 {
            assert(acc[first_index_of(acc, v[0].id)].id == v[0].id);
        }
        assert(replace_or_push(acc, v[0]) == acc.push(v[0]));
        lemma_distinct_drop_first(v);
        assert forall|a: int, b: int|
            #![trigger acc.push(v[0])[a].id, v.drop_first()[b].id]
            0 <= a < acc.push(v[0]).len() && 0 <= b < v.drop_first().len() implies acc.push(
            v[0],
        )[a].id != v.drop_first()[b].id by {
            assert(v.drop_first()[b] == v[b + 1]);
            if a < acc.len() {
                assert(acc.push(v[0])[a] == acc[a]);
            } else {
                assert(acc.push(v[0])[a] == v[0]);
            }
        }
        lemma_vector_phase_all_new(acc.push(v[0]), v.drop_first());
        assert(acc.push(v[0]) + v.drop_first() =~= acc + v);
    }
}

/// When none of the graph candidates' ids occurs in the accumulator, the graph
/// phase appends them all in order, unchanged.
proof fn lemma_graph_phase_all_new(acc: Seq<CandidateModel>, g: Seq<CandidateModel>)
    requires
        distinct_ids(g),
        forall|a: int, b: int|
            #![trigger acc[a].id, g[b].id]
            0 <= a < acc.len() && 0 <= b < g.len() ==> acc[a].id != g[b].id,
    ensures
        merge_graph_phase(acc, g) == acc + g,
    decreases g.len(),
{
    if g.len() == 0 {
        assert(acc + g =~= acc);
    } else {
        lemma_first_index_of(acc, g[0].id);
        if first_index_of(acc, g[0].id) >= 0 {
            assert(acc[first_index_of(acc, g[0].id)].id == g[0].id);
        }
        assert(fold_or_push(acc, g[0]) == acc.push(g[0]));
        lemma_distinct_drop_first(g);
        assert forall|a: int, b: int|
            #![trigger acc.push(g[0])[a].id, g.drop_first()[b].id]
            0 <= a < acc.push(g[0]).len() && 0 <= b < g.drop_first().len() implies acc.push(
            g[0],
        )[a].id != g.drop_first()[b].id by {
            assert(g.drop_first()[b] == g[b + 1]);
            if a < acc.len() {
                assert(acc.push(g[0])[a] == acc[a]);
            } else {
                assert(acc.push(g[0])[a] == g[0]);
            }
        }
        lemma_graph_phase_all_new(acc.push(g[0]), g.drop_first());
        assert(acc.push(g[0]) + g.drop_first() =~= acc + g);
    }
}

/// How the graph phase treats the records already in the accumulator: every
/// position keeps its merge key and its vector-origin fields; a record whose
/// id no graph hit carries is untouched; a record whose id a graph hit carries
/// takes that hit's graph score and relationship depth.
proof fn lemma_graph_phase_tracks(acc: Seq<CandidateModel>, g: Seq<CandidateModel>)
    requires
        distinct_ids(acc),
        distinct_ids(g),
    ensures
        merge_graph_phase(acc, g).len() >= acc.len(),
        distinct_ids(merge_graph_phase(acc, g)),
        forall|idx: int|
            0 <= idx < acc.len() ==> #[trigger] merge_graph_phase(acc, g)[idx].id == acc[idx].id
                && merge_graph_phase(acc, g)[idx].semantic_score == acc[idx].semantic_score
                && merge_graph_phase(acc, g)[idx].content == acc[idx].content,
        forall|idx: int, j: int|
            #![trigger acc[idx].id, g[j].id]
            0 <= idx < acc.len() && 0 <= j < g.len() && acc[idx].id == g[j].id ==> merge_graph_phase(
                acc,
                g,
            )[idx].graph_score == g[j].graph_score && merge_graph_phase(acc, g)[idx].relationship_depth
                == g[j].relationship_depth,
        forall|idx: int|
            0 <= idx < acc.len() && (forall|j: int|
                0 <= j < g.len() ==> #[trigger] g[j].id != acc[idx].id) ==> #[trigger] merge_graph_phase(
                acc,
                g,
            )[idx] == acc[idx],
    decreases g.len(),
{
    let r = merge_graph_phase(acc, g);
    if g.len() == 0 {
        assert(r == acc);
    } else {
        let x = g[0];
        let gr = g.drop_first();
        let acc1 = fold_or_push(acc, x);
        lemma_first_index_of(acc, x.id);
        lemma_distinct_drop_first(g);
        assert(forall|b: int| 0 <= b < gr.len() ==> #[trigger] gr[b].id == g[b + 1].id);
        let fi = first_index_of(acc, x.id);
        if fi >= 0 {
            assert(acc1 == acc.update(fi, graph_merged(acc[fi], x)));
            assert(forall|idx: int|
                0 <= idx < acc.len() ==> #[trigger] acc1[idx].id == acc[idx].id
                    && acc1[idx].semantic_score == acc[idx].semantic_score && acc1[idx].content
                    == acc[idx].content);
            assert(distinct_ids(acc1));
            lemma_graph_phase_tracks(acc1, gr);
            assert(r == merge_graph_phase(acc1, gr));
            // the updated record is touched by no later graph hit
            assert forall|j: int| 0 <= j < gr.len() implies #[trigger] gr[j].id != acc1[fi].id by {
                assert(gr[j].id == g[j + 1].id);
                assert(g[0].id == acc1[fi].id);
            }
            assert(r[fi] == acc1[fi]);
            assert(r[fi].graph_score == x.graph_score);
            assert(r[fi].relationship_depth == x.relationship_depth);
            assert forall|idx: int, j: int|
                #![trigger acc[idx].id, g[j].id]
                0 <= idx < acc.len() && 0 <= j < g.len() && acc[idx].id == g[j].id implies r[idx].graph_score
                == g[j].graph_score && r[idx].relationship_depth == g[j].relationship_depth by {
                if j == 0 {
                    // only position fi carries this id
                    assert(acc[fi].id == x.id);
                    if idx != fi {
                        assert(false);
                    }
                } else {
                    assert(idx != fi || g[j].id != g[0].id);
                    if idx == fi {
                        assert(false);
                    } else {
                        assert(acc1[idx].id == acc[idx].id);
                        assert(gr[j - 1].id == g[j].id);
                        assert(gr[j - 1] == g[j]);
                    }
                }
            }
            assert forall|idx: int|
                0 <= idx < acc.len() && (forall|j: int|
                    0 <= j < g.len() ==> #[trigger] g[j].id != acc[idx].id) implies #[trigger] r[idx]
                == acc[idx] by {
                assert(g[0].id != acc[idx].id);
                assert(idx != fi);
                assert(acc1[idx] == acc[idx]);
                assert forall|j: int| 0 <= j < gr.len() implies #[trigger] gr[j].id
                    != acc1[idx].id by {
                    assert(gr[j].id == g[j + 1].id);
                }
            }
        } else {
            assert forall|a: int| 0 <= a < acc.len() implies acc[a].id != x.id by {
                if acc[a].id == x.id {
                    assert(0 <= first_index_of(acc, x.id));
                }
            }
            assert(acc1 == acc.push(x));
            assert(forall|idx: int|
                0 <= idx < acc.len() ==> #[trigger] acc1[idx].id == acc[idx].id
                    && acc1[idx].semantic_score == acc[idx].semantic_score && acc1[idx].content
                    == acc[idx].content);
            assert(distinct_ids(acc1));
            lemma_graph_phase_tracks(acc1, gr);
            assert(r == merge_graph_phase(acc1, gr));
            assert forall|idx: int, j: int|
                #![trigger acc[idx].id, g[j].id]
                0 <= idx < acc.len() && 0 <= j < g.len() && acc[idx].id == g[j].id implies r[idx].graph_score
                == g[j].graph_score && r[idx].relationship_depth == g[j].relationship_depth by {
                if j == 0 {
                    assert(false);
                } else {
                    assert(acc1[idx].id == acc[idx].id);
                    assert(gr[j - 1].id == g[j].id);
                    assert(gr[j - 1] == g[j]);
                }
            }
            assert forall|idx: int|
                0 <= idx < acc.len() && (forall|j: int|
                    0 <= j < g.len() ==> #[trigger] g[j].id != acc[idx].id) implies #[trigger] r[idx]
                == acc[idx] by {
                assert(acc1[idx] == acc[idx]);
                assert forall|j: int| 0 <= j < gr.len() implies #[trigger] gr[j].id
                    != acc1[idx].id by {
                    assert(gr[j].id == g[j + 1].id);
                }
            }
        }
    }
}

/// A candidate returned by both modalities appears in the merged set as
/// exactly one record (the merged ids are pairwise distinct), and that record
/// carries both the non-zero vector similarity and the non-zero graph score.
pub proof fn lemma_merge_keeps_both_sources(
    v: Seq<CandidateModel>,
    g: Seq<CandidateModel>,
    id: Seq<char>,
)
    requires
        distinct_ids(v),
        distinct_ids(g),
        exists|i: int| 0 <= i < v.len() && #[trigger] v[i].id == id && v[i].semantic_score > 0,
        exists|j: int| 0 <= j < g.len() && #[trigger] g[j].id == id && g[j].graph_score > 0,
    ensures
        distinct_ids(merged_models(v, g)),
        exists|k: int|
            0 <= k < merged_models(v, g).len() && #[trigger] merged_models(v, g)[k].id == id
                && merged_models(v, g)[k].semantic_score > 0 && merged_models(v, g)[k].graph_score
                > 0,
{
    lemma_vector_phase_all_new(Seq::empty(), v);
    assert(merge_vector_phase(Seq::empty(), v) =~= v);
    lemma_graph_phase_tracks(v, g);
    let r = merged_models(v, g);
    assert(r == merge_graph_phase(v, g));
    let i = choose|i: int| 0 <= i < v.len() && #[trigger] v[i].id == id && v[i].semantic_score > 0;
    let j = choose|j: int| 0 <= j < g.len() && #[trigger] g[j].id == id && g[j].graph_score > 0;
    assert(r[i].id == id);
    assert(r[i].semantic_score == v[i].semantic_score);
    assert(r[i].graph_score == g[j].graph_score);
}

/// A candidate returned by both modalities survives ranking whenever the
/// merged set fits the result cap: the ranked output holds exactly one record
/// with that id, still carrying the non-zero vector similarity and the
/// non-zero graph score. (When the merged set exceeds the cap, truncation may
/// drop the record, so the cap premise is necessary.)
pub proof fn lemma_ranked_keeps_both_sources(
    v: Seq<CandidateModel>,
    g: Seq<CandidateModel>,
    w: RankingWeights,
    max: int,
    id: Seq<char>,
)
    requires
        distinct_ids(v),
        distinct_ids(g),
        merged_models(v, g).len() <= max,
        exists|i: int| 0 <= i < v.len() && #[trigger] v[i].id == id && v[i].semantic_score > 0,
        exists|j: int| 0 <= j < g.len() && #[trigger] g[j].id == id && g[j].graph_score > 0,
    ensures
        ({
            let r = ranked_models(v, g, w, max);
            &&& exists|k: int|
                0 <= k < r.len() && #[trigger] r[k].id == id && r[k].semantic_score > 0
                    && r[k].graph_score > 0
            &&& forall|k1: int, k2: int|
                #![trigger r[k1].id, r[k2].id]
                0 <= k1 < r.len() && 0 <= k2 < r.len() && r[k1].id == id && r[k2].id == id ==> k1
                    == k2
        }),
{
    broadcast use vstd::seq_lib::group_to_multiset_ensures;
    broadcast use vstd::multiset::group_multiset_axioms;

    lemma_merge_keeps_both_sources(v, g, id);
    let merged = merged_models(v, g);
    let scored = scored_models(merged, w);
    let k0 = choose|k: int|
        0 <= k < merged.len() && #[trigger] merged[k].id == id && merged[k].semantic_score > 0
            && merged[k].graph_score > 0;
    // scoring rewrites only the final score: ids and both backend scores stay
    assert forall|i: int| 0 <= i < merged.len() implies #[trigger] scored[i].id == merged[i].id
        && scored[i].semantic_score == merged[i].semantic_score && scored[i].graph_score
        == merged[i].graph_score by {
        assert(scored[i] == with_final_score(
            merged[i],
            fused_score(merged[i], w, count_type(merged, merged[i].content_type, i)) as u64,
        ));
    }
    let x = scored[k0];
    // the id occurs at one scored position only
    assert forall|k: int| 0 <= k < scored.len() && #[trigger] scored[k].id == id implies k
        == k0 by {
        assert(merged[k].id == id);
    }
    // sorting permutes; the record's value survives with multiplicity one
    lemma_sort_desc_props(scored);
    let sorted = sort_desc(scored);
    assert(scored.contains(x));
    assert(sorted.to_multiset().count(x) > 0);
    assert(sorted.contains(x));
    let k = choose|k: int| 0 <= k < sorted.len() && sorted[k] == x;
    // the value x has multiplicity one in scored: removing its position
    // leaves no copy behind
    let rest = scored.remove(k0);
    assert forall|i: int| 0 <= i < rest.len() implies #[trigger] rest[i] != x by {
        if i < k0 {
            assert(rest[i] == scored[i]);
            if rest[i] == x {
                assert(scored[i].id == id);
            }
        } else {
            assert(rest[i] == scored[i + 1]);
            if rest[i] == x {
                assert(scored[i + 1].id == id);
            }
        }
    }
    if rest.contains(x) {
        let wi = choose|wi: int| 0 <= wi < rest.len() && rest[wi] == x;
        assert(rest[wi] != x);
    }
    assert(rest.to_multiset().count(x) == 0);
    assert(rest.to_multiset() == scored.to_multiset().remove(x));
    assert(scored.to_multiset().count(x) == 1);
    assert(sorted.to_multiset().count(x) == 1);
    // so no two ranked positions can both carry the id
    assert forall|k1: int, k2: int|
        0 <= k1 < sorted.len() && 0 <= k2 < sorted.len() && #[trigger] sorted[k1].id == id
            && #[trigger] sorted[k2].id == id implies k1 == k2 by {
        assert(sorted.contains(sorted[k1]));
        assert(scored.to_multiset().count(sorted[k1]) > 0);
        assert(scored.contains(sorted[k1]));
        let i1 = choose|i: int| 0 <= i < scored.len() && scored[i] == sorted[k1];
        assert(i1 == k0);
        assert(sorted.contains(sorted[k2]));
        assert(scored.to_multiset().count(sorted[k2]) > 0);
        assert(scored.contains(sorted[k2]));
        let i2 = choose|i: int| 0 <= i < scored.len() && scored[i] == sorted[k2];
        assert(i2 == k0);
        assert(sorted[k1] == x && sorted[k2] == x);
        if k1 != k2 {
            let shrunk = sorted.remove(k1);
            if k2 < k1 {
                assert(shrunk[k2] == x);
            } else {
                assert(shrunk[k2 - 1] == x);
            }
            assert(shrunk.contains(x));
            assert(shrunk.to_multiset().count(x) > 0);
            assert(shrunk.to_multiset() == sorted.to_multiset().remove(x));
            assert(sorted.to_multiset().count(x) >= 2);
        }
    }
    // the cap admits the whole sorted set: no truncation
    assert(scored.len() == merged.len());
    assert(sorted.len() == merged.len());
    let r = ranked_models(v, g, w, max);
    assert(r == sorted);
    assert(scored[k0].id == id);
    assert(x.semantic_score > 0 && x.graph_score > 0);
    assert(0 <= k < r.len() && r[k].id == id && r[k].semantic_score > 0 && r[k].graph_score > 0);
    assert forall|k1: int, k2: int|
        0 <= k1 < r.len() && 0 <= k2 < r.len() && #[trigger] r[k1].id == id && #[trigger] r[k2].id
            == id implies k1 == k2 by {
        assert(sorted[k1].id == id);
        assert(sorted[k2].id == id);
    }
}

/// When the vector backend fails open (an empty result set) and the graph
/// backend returns hits with pairwise distinct ids, ranking returns exactly
/// those hits: the same candidates, scored, in non-increasing score order.
pub proof fn lemma_graph_only_ranking(g: Seq<CandidateModel>, w: RankingWeights, max: int)
    requires
        distinct_ids(g),
        g.len() <= max,
        w.wf(),
    ensures
        ranked_models(Seq::empty(), g, w, max).len() == g.len(),
        ranked_models(Seq::empty(), g, w, max).to_multiset() == scored_models(g, w).to_multiset(),
        sorted_desc(ranked_models(Seq::empty(), g, w, max)),
{
    assert(merge_vector_phase(Seq::empty(), Seq::<CandidateModel>::empty())
        == Seq::<CandidateModel>::empty());
    lemma_graph_phase_all_new(Seq::empty(), g);
    assert(merged_models(Seq::empty(), g) =~= g);
    lemma_sort_desc_props(scored_models(g, w));
    assert(scored_models(g, w).len() == g.len());
    let fused = sort_desc(scored_models(g, w));
    assert(ranked_models(Seq::empty(), g, w, max) == fused);
}

/// Ranking is a function of the candidate sets and the weights alone: two
/// runs over identical inputs yield identical ranked orders and scores.
pub proof fn lemma_ranking_deterministic(
    v: Seq<CandidateModel>,
    g: Seq<CandidateModel>,
    w: RankingWeights,
    max: int,
    r1: Seq<CandidateModel>,
    r2: Seq<CandidateModel>,
)
    requires
        r1 == ranked_models(v, g, w, max),
        r2 == ranked_models(v, g, w, max),
    ensures
        r1 == r2,
{
}

} // verus!
