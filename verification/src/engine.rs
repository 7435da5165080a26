//! The engine's request interface and pipeline stages around fusion: request
//! validation with documented defaults, fail-open absorption of backend
//! failures, seed selection for related-entity expansion, folding of related
//! hits at a suppressed score tier, and response building.
//!
//! Caller-input errors are rejected here, before any backend call is issued.
//! Backend failures never surface as top-level errors: the failing modality
//! contributes an empty candidate list, and an all-empty result set is a
//! successful, empty response.

use vstd::prelude::*;

use vstd::string::StrSliceExecFns;

use crate::model::Candidate;
use crate::model::CandidateModel;
use crate::model::RELATED_TIER_SCORE;
use crate::model::models_of;
use crate::model::views_of_strings;
use crate::bundle::ContextBundle;
use crate::bundle::ContextBundleModel;
use crate::model::opt_view;

verus! {

/// Default result count of a query request.
pub const DEFAULT_LIMIT: usize = 10;

/// Default token budget of the context bundle.
pub const DEFAULT_CONTEXT_WINDOW: usize = 8000;

/// Default related-entity traversal depth.
pub const DEFAULT_MAX_DEPTH: usize = 2;

/// Server-side ceiling on the traversal depth: a request above it is clamped,
/// not rejected.
pub const MAX_DEPTH_CEILING: usize = 3;

/// How many top-ranked candidates seed related-entity expansion.
pub const RELATED_SEED_COUNT: usize = 3;

/// Cap on the seeds of one related-entity request: bounded fan-out, not a
/// graph-wide walk.
pub const TRAVERSAL_SEED_CAP: usize = 5;

/// A query request as the tool-dispatch layer hands it in: every field but
/// the query text optional, defaults documented on `plan_query`.
pub struct QueryRequest {
    pub query: String,
    pub limit: Option<usize>,
    pub context_window: Option<usize>,
    pub expand_query: Option<bool>,
    pub include_related: Option<bool>,
    pub max_depth: Option<usize>,
}

/// A validated request, every field resolved.
pub struct QueryPlan {
    pub query: String,
    /// At least 1: how many results the response carries.
    pub limit: usize,
    /// Token budget of the context bundle.
    pub context_window: usize,
    pub expand_query: bool,
    pub include_related: bool,
    /// Between 1 and `MAX_DEPTH_CEILING`.
    pub max_depth: usize,
    /// How many candidates each backend is asked for: twice the limit, so
    /// fusion has material from both modalities.
    pub fetch_limit: usize,
}

/// Caller-input errors, the only failures a caller ever sees.
#[derive(Debug)]
pub enum RequestError {
    /// The query text is empty or all whitespace.
    EmptyQuery,
    /// A limit of zero was asked for.
    ZeroLimit,
}

impl RequestError {
    /// A client-facing description of the rejected input.
    pub fn message(&self) -> (r: String)
        ensures
            match self {
                RequestError::EmptyQuery => r@ == "query cannot be empty"@,
                RequestError::ZeroLimit => r@ == "limit must be at least 1"@,
            },
    {
        match self {
            RequestError::EmptyQuery => String::from_str("query cannot be empty"),
            RequestError::ZeroLimit => String::from_str("limit must be at least 1"),
        }
    }
}

/// The Unicode White_Space set: the characters a trimming pass removes.
pub open spec fn is_space_char(c: char) -> bool {
    let u = c as u32;
    (9 <= u && u <= 13) || u == 32 || u == 0x85 || u == 0xA0 || u == 0x1680 || (0x2000 <= u && u
        <= 0x200A) || u == 0x2028 || u == 0x2029 || u == 0x202F || u == 0x205F || u == 0x3000
}

/// Whether one character is whitespace.
fn is_whitespace_char(c: char) -> (r: bool)
    ensures
        r == is_space_char(c),
{
    let u = c as u32;
    (9 <= u && u <= 13) || u == 32 || u == 0x85 || u == 0xA0 || u == 0x1680 || (0x2000 <= u && u
        <= 0x200A) || u == 0x2028 || u == 0x2029 || u == 0x202F || u == 0x205F || u == 0x3000
}

/// A query text that carries nothing to search for.
pub open spec fn is_blank(s: Seq<char>) -> bool {
    forall|i: int| 0 <= i < s.len() ==> is_space_char(#[trigger] s[i])
}

/// Whether the query text is empty or all whitespace.
pub fn query_is_blank(q: &String) -> (r: bool)
    ensures
        r == is_blank(q@),
{
    let s = q.as_str();
    let n = s.unicode_len();
    let mut i: usize = 0;
    while i < n
        invariant
            i <= n,
            n == s@.len(),
            s@ == q@,
            forall|j: int| 0 <= j < i ==> is_space_char(#[trigger] q@[j]),
        decreases n - i,
    {
        let c = s.get_char(i);
        if !is_whitespace_char(c) {
            return false;
        }
        i += 1;
    }
    true
}

/// The resolved traversal depth: the default when absent, otherwise clamped
/// into 1..=`MAX_DEPTH_CEILING`.
pub open spec fn resolved_depth(o: Option<usize>) -> usize {
    match o {
        Option::Some(d) => if d < 1 {
            1usize
        } else if d > MAX_DEPTH_CEILING {
            MAX_DEPTH_CEILING
        } else {
            d
        },
        Option::None => DEFAULT_MAX_DEPTH,
    }
}

/// Clamp a caller-supplied traversal depth into 1..=`MAX_DEPTH_CEILING`,
/// whatever was asked for: a depth above the ceiling is clamped, not rejected.
pub fn clamp_traversal_depth(depth: usize) -> (r: usize)
    ensures
        r == resolved_depth(Some(depth)),
{
    if depth < 1 {
        1
    } else if depth > MAX_DEPTH_CEILING {
        MAX_DEPTH_CEILING
    } else {
        depth
    }
}

/// Validate a request and resolve its defaults. Rejected inputs — a blank
/// query, a zero limit — are refused here, before any backend call is made;
/// an out-of-range depth is clamped, not rejected.
pub fn plan_query(req: QueryRequest) -> (r: Result<QueryPlan, RequestError>)
    ensures
        r is Err <==> (is_blank(req.query@) || req.limit == Some(0usize)),
        match r {
            Result::Ok(p) => {
                &&& p.query@ == req.query@
                &&& p.limit == (match req.limit {
                    Option::Some(l) => l,
                    Option::None => DEFAULT_LIMIT,
                })
                &&& p.limit >= 1
                &&& p.context_window == (match req.context_window {
                    Option::Some(w) => w,
                    Option::None => DEFAULT_CONTEXT_WINDOW,
                })
                &&& p.expand_query == (match req.expand_query {
                    Option::Some(b) => b,
                    Option::None => true,
                })
                &&& p.include_related == (match req.include_related {
                    Option::Some(b) => b,
                    Option::None => true,
                })
                &&& p.max_depth == resolved_depth(req.max_depth)
                &&& 1 <= p.max_depth <= MAX_DEPTH_CEILING
                &&& p.fetch_limit as int == (if p.limit > usize::MAX / 2 {
                    usize::MAX as int
                } else {
                    2 * p.limit as int
                })
            },
            Result::Err(e) => {
                &&& (e is EmptyQuery <==> is_blank(req.query@))
                &&& (e is ZeroLimit ==> req.limit == Some(0usize))
            },
        },
{
    if query_is_blank(&req.query) {
        return Err(RequestError::EmptyQuery);
    }
    let limit = match req.limit {
        Some(l) => l,
        None => DEFAULT_LIMIT,
    };
    if limit == 0 {
        return Err(RequestError::ZeroLimit);
    }
    let context_window = match req.context_window {
        Some(w) => w,
        None => DEFAULT_CONTEXT_WINDOW,
    };
    let expand_query = match req.expand_query {
        Some(b) => b,
        None => true,
    };
    let include_related = match req.include_related {
        Some(b) => b,
        None => true,
    };
    let max_depth = match req.max_depth {
        Some(d) => if d < 1 {
            1
        } else if d > MAX_DEPTH_CEILING {
            MAX_DEPTH_CEILING
        } else {
            d
        },
        None => DEFAULT_MAX_DEPTH,
    };
    let fetch_limit = if limit > usize::MAX / 2 {
        usize::MAX
    } else {
        2 * limit
    };
    Ok(
        QueryPlan {
            query: req.query,
            limit,
            context_window,
            expand_query,
            include_related,
            max_depth,
            fetch_limit,
        },
    )
}

/// What a backend call can fail with. The engine absorbs all three the same
/// way; the variants exist for diagnosability at the boundary.
pub enum BackendFailure {
    /// Transport failure or non-success status.
    Unavailable,
    /// The call's own timeout elapsed.
    Timeout,
    /// The response could not be read as candidates.
    Malformed,
}

/// Fail open: a failed or timed-out backend call contributes an empty
/// candidate list, and the query goes on with the other modality.
pub fn fail_open(outcome: Result<Vec<Candidate>, BackendFailure>) -> (r: Vec<Candidate>)
    ensures
        match outcome {
            Result::Ok(v) => r@ == v@,
            Result::Err(_) => r@.len() == 0,
        },
{
    match outcome {
        Ok(v) => v,
        Err(_) => Vec::new(),
    }
}

/// The entity ids of the leading candidates that carry one, in rank order,
/// at most `cap` of them.
pub open spec fn seeds_of(s: Seq<CandidateModel>, cap: int) -> Seq<Seq<char>>
    decreases s.len(),
{
    if s.len() == 0 || cap <= 0 {
        Seq::empty()
    } else {
        match s[0].entity_id {
            Option::Some(e) => seq![e] + seeds_of(s.drop_first(), cap - 1),
            Option::None => seeds_of(s.drop_first(), cap),
        }
    }
}

/// Collect the traversal seeds: the entity ids of the top ranked candidates,
/// at most `cap` of them — bounded fan-out for related-entity expansion.
pub fn related_seeds(ranked: &Vec<Candidate>, cap: usize) -> (r: Vec<String>)
    ensures
        views_of_strings(r@) == seeds_of(models_of(ranked@), cap as int),
        r@.len() <= cap,
{
    let ghost m = models_of(ranked@);
    let mut out: Vec<String> = Vec::new();
    let mut i: usize = 0;
    proof {
        assert(m.skip(0) =~= m);
        assert(views_of_strings(out@) =~= Seq::<Seq<char>>::empty());
    }
    while i < ranked.len() && out.len() < cap
        invariant
            i <= ranked@.len(),
            out@.len() <= cap,
            m == models_of(ranked@),
            seeds_of(m, cap as int) == views_of_strings(out@) + seeds_of(
                m.skip(i as int),
                cap - out@.len(),
            ),
        decreases ranked@.len() - i,
    {
        let ghost out0 = views_of_strings(out@);
        proof {
            assert(m[i as int] == ranked@[i as int]@);
            assert(m.skip(i as int)[0] == m[i as int]);
            assert(m.skip(i as int).drop_first() =~= m.skip(i as int + 1));
        }
        match &ranked[i].entity_id {
            Some(e) => {
                out.push(e.clone());
                proof {
                    assert(views_of_strings(out@) =~= out0.push(m[i as int].entity_id->Some_0));
                    assert(seeds_of(m.skip(i as int), cap - out0.len()) == seq![
                        m[i as int].entity_id->Some_0,
                    ] + seeds_of(m.skip(i as int + 1), cap - out0.len() - 1));
                    assert(out0 + (seq![m[i as int].entity_id->Some_0] + seeds_of(
                        m.skip(i as int + 1),
                        cap - out0.len() - 1,
                    )) =~= views_of_strings(out@) + seeds_of(
                        m.skip(i as int + 1),
                        cap - views_of_strings(out@).len(),
                    ));
                }
            },
            None => {
                proof {
                    assert(seeds_of(m.skip(i as int), cap - out0.len()) == seeds_of(
                        m.skip(i as int + 1),
                        cap - out0.len(),
                    ));
                }
            },
        }
        i += 1;
    }
    proof {
        if out@.len() == cap {
            assert(seeds_of(m.skip(i as int), 0) == Seq::<Seq<char>>::empty());
        } else {
            assert(m.skip(i as int) =~= Seq::<CandidateModel>::empty());
        }
        assert(views_of_strings(out@) + Seq::<Seq<char>>::empty() =~= views_of_strings(out@));
    }
    out
}

/// Related hits re-tagged at the suppressed tier.
pub open spec fn tagged_related(s: Seq<CandidateModel>) -> Seq<CandidateModel> {
    Seq::new(s.len(), |i: int| crate::fusion::with_final_score(s[i], RELATED_TIER_SCORE))
}

/// Fold related-entity hits into the ranked set: each enters at the fixed
/// suppressed score tier, appended after the primary matches, so expansion
/// augments but never displaces them.
pub fn fold_related(ranked: Vec<Candidate>, related: Vec<Candidate>) -> (r: Vec<Candidate>)
    ensures
        models_of(r@) == models_of(ranked@) + tagged_related(models_of(related@)),
{
    let ghost rm = models_of(ranked@);
    let ghost am = models_of(related@);
    let mut out = ranked;
    let mut rest = related;
    proof {
        assert(models_of(rest@) =~= am.skip(0));
        assert(models_of(out@) =~= rm + tagged_related(am).take(0));
    }
    while rest.len() > 0
        invariant
            rest@.len() <= am.len(),
            models_of(rest@) == am.skip(am.len() - rest@.len()),
            models_of(out@) == rm + tagged_related(am).take(am.len() - rest@.len()),
        decreases rest@.len(),
    {
        let ghost i = am.len() - rest@.len();
        let ghost before = rest@;
        let ghost out0 = models_of(out@);
        let mut c = rest.remove(0);
        proof {
            assert(c == before[0]);
            assert(c@ == models_of(before)[0]);
            assert(am.skip(i)[0] == am[i]);
            assert forall|j: int| 0 <= j < rest@.len() implies models_of(rest@)[j] == am.skip(
                i + 1,
            )[j] by {
                assert(rest@[j] == before[j + 1]);
                assert(models_of(before)[j + 1] == before[j + 1]@);
                assert(am.skip(i)[j + 1] == am[i + 1 + j]);
                assert(am.skip(i + 1)[j] == am[i + 1 + j]);
            }
            assert(models_of(rest@) =~= am.skip(i + 1));
        }
        c.final_score = RELATED_TIER_SCORE;
        out.push(c);
        proof {
            assert(c@ == crate::fusion::with_final_score(am[i], RELATED_TIER_SCORE));
            assert(tagged_related(am).take(i + 1) =~= tagged_related(am).take(i).push(
                crate::fusion::with_final_score(am[i], RELATED_TIER_SCORE),
            ));
            assert(models_of(out@) =~= out0.push(
                crate::fusion::with_final_score(am[i], RELATED_TIER_SCORE),
            ));
            assert(models_of(out@) =~= rm + tagged_related(am).take(i + 1));
        }
    }
    proof {
        assert(tagged_related(am).take(am.len() as int) =~= tagged_related(am));
    }
    out
}

/// One row of the response's ranked listing.
pub struct ResultEntry {
    pub id: String,
    pub title: String,
    pub path: Option<String>,
    pub content_type: String,
    /// Fused relevance in micro-units.
    pub relevance_score: u64,
    /// Vector similarity in milli-units.
    pub semantic_score: u32,
    /// Graph score in milli-units.
    pub graph_score: u32,
    pub source: String,
}

#[verifier::ext_equal]
pub ghost struct ResultEntryModel {
    pub id: Seq<char>,
    pub title: Seq<char>,
    pub path: Option<Seq<char>>,
    pub content_type: Seq<char>,
    pub relevance_score: u64,
    pub semantic_score: u32,
    pub graph_score: u32,
    pub source: Seq<char>,
}

impl View for ResultEntry {
    type V = ResultEntryModel;

    open spec fn view(&self) -> ResultEntryModel {
        ResultEntryModel {
            id: self.id@,
            title: self.title@,
            path: opt_view(self.path),
            content_type: self.content_type@,
            relevance_score: self.relevance_score,
            semantic_score: self.semantic_score,
            graph_score: self.graph_score,
            source: self.source@,
        }
    }
}

/// A ranked candidate projected onto a response row.
pub open spec fn entry_of(c: CandidateModel) -> ResultEntryModel {
    ResultEntryModel {
        id: c.id,
        title: c.title,
        path: c.path,
        content_type: c.content_type,
        relevance_score: c.final_score,
        semantic_score: c.semantic_score,
        graph_score: c.graph_score,
        source: c.source,
    }
}

/// The engine's response: the ranked listing truncated to the requested
/// limit, the bundle possibly holding fewer items (token-budget-bound), and
/// the per-modality match counts for diagnosability.
pub struct QueryResponse {
    /// The original query, before any expansion.
    pub query: String,
    pub total_results: usize,
    pub vector_matches: usize,
    pub graph_matches: usize,
    pub context_bundle: ContextBundle,
    pub results: Vec<ResultEntry>,
}

#[verifier::ext_equal]
pub ghost struct QueryResponseModel {
    pub query: Seq<char>,
    pub total_results: int,
    pub vector_matches: int,
    pub graph_matches: int,
    pub context_bundle: ContextBundleModel,
    pub results: Seq<ResultEntryModel>,
}

impl View for QueryResponse {
    type V = QueryResponseModel;

    open spec fn view(&self) -> QueryResponseModel {
        QueryResponseModel {
            query: self.query@,
            total_results: self.total_results as int,
            vector_matches: self.vector_matches as int,
            graph_matches: self.graph_matches as int,
            context_bundle: self.context_bundle@,
            results: Seq::new(self.results@.len(), |i: int| self.results@[i]@),
        }
    }
}

/// Build the response: the ranked set projected and truncated to `limit`,
/// the match counts passed through, the bundle attached.
pub fn build_response(
    query: &String,
    ranked: &Vec<Candidate>,
    vector_matches: usize,
    graph_matches: usize,
    context_bundle: ContextBundle,
    limit: usize,
) -> (r: QueryResponse)
    ensures
        r@.query == query@,
        r@.total_results == ranked@.len(),
        r@.vector_matches == vector_matches as int,
        r@.graph_matches == graph_matches as int,
        r@.context_bundle == context_bundle@,
        r@.results == Seq::new(
            (if limit as int <= ranked@.len() {
                limit as int
            } else {
                ranked@.len() as int
            }) as nat,
            |i: int| entry_of(models_of(ranked@)[i]),
        ),
{
    let ghost m = models_of(ranked@);
    let shown = if limit <= ranked.len() {
        limit
    } else {
        ranked.len()
    };
    let mut results: Vec<ResultEntry> = Vec::new();
    let mut i: usize = 0;
    while i < shown
        invariant
            i <= shown,
            shown <= ranked@.len(),
            m == models_of(ranked@),
            results@.len() == i,
            forall|j: int| 0 <= j < i ==> #[trigger] results@[j]@ == entry_of(m[j]),
        decreases shown - i,
    {
        let c = &ranked[i];
        let path = match &c.path {
            Some(p) => Some(p.clone()),
            None => None,
        };
        let entry = ResultEntry {
            id: c.id.clone(),
            title: c.title.clone(),
            path,
            content_type: c.content_type.clone(),
            relevance_score: c.final_score,
            semantic_score: c.semantic_score,
            graph_score: c.graph_score,
            source: c.source.clone(),
        };
        proof {
            assert(m[i as int] == ranked@[i as int]@);
            assert(entry@ =~= entry_of(m[i as int]));
        }
        results.push(entry);
        i += 1;
    }
    let r = QueryResponse {
        query: query.clone(),
        total_results: ranked.len(),
        vector_matches,
        graph_matches,
        context_bundle,
        results,
    };
    proof {
        assert(r@.results =~= Seq::new(
            (if limit as int <= ranked@.len() {
                limit as int
            } else {
                ranked@.len() as int
            }) as nat,
            |i: int| entry_of(models_of(ranked@)[i]),
        ));
    }
    r
}

} // verus!
