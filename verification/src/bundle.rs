//! Context assembly: greedy packing of ranked candidates into a bundle under
//! a token budget.

use vstd::prelude::*;

use vstd::string::StrSliceExecFns;

use crate::model::Candidate;
use crate::model::CandidateModel;
use crate::model::models_of;
use crate::model::opt_view;

verus! {

/// The token estimate is one token per this many characters of content
/// (0.25 tokens per character): a documented approximation standing in for
/// exact tokenization.
pub const CHARS_PER_TOKEN: usize = 4;

/// One packed piece of evidence.
pub struct ContextItem {
    pub id: String,
    pub title: String,
    pub content: String,
    pub path: Option<String>,
    pub content_type: String,
    /// Fused relevance in micro-units, as ranked.
    pub relevance_score: u64,
    /// Estimated token cost of `content`.
    pub tokens: usize,
}

#[verifier::ext_equal]
pub ghost struct ContextItemModel {
    pub id: Seq<char>,
    pub title: Seq<char>,
    pub content: Seq<char>,
    pub path: Option<Seq<char>>,
    pub content_type: Seq<char>,
    pub relevance_score: u64,
    pub tokens: int,
}

impl View for ContextItem {
    type V = ContextItemModel;

    open spec fn view(&self) -> ContextItemModel {
        ContextItemModel {
            id: self.id@,
            title: self.title@,
            content: self.content@,
            path: opt_view(self.path),
            content_type: self.content_type@,
            relevance_score: self.relevance_score,
            tokens: self.tokens as int,
        }
    }
}

/// The evidence bundle handed to the model: ranked items packed greedily,
/// their cumulative estimated cost never exceeding the context window.
pub struct ContextBundle {
    /// The original query, before any expansion.
    pub query: String,
    pub items: Vec<ContextItem>,
    pub total_tokens: usize,
    pub context_window: usize,
}

#[verifier::ext_equal]
pub ghost struct ContextBundleModel {
    pub query: Seq<char>,
    pub items: Seq<ContextItemModel>,
    pub total_tokens: int,
    pub context_window: int,
}

impl View for ContextBundle {
    type V = ContextBundleModel;

    open spec fn view(&self) -> ContextBundleModel {
        ContextBundleModel {
            query: self.query@,
            items: Seq::new(self.items@.len(), |i: int| self.items@[i]@),
            total_tokens: self.total_tokens as int,
            context_window: self.context_window as int,
        }
    }
}

/// Estimated token cost of a text: its character count over `CHARS_PER_TOKEN`.
pub open spec fn token_cost(content: Seq<char>) -> int {
    content.len() as int / (CHARS_PER_TOKEN as int)
}

/// How many leading candidates the greedy pass packs: it stops at the first
/// candidate whose cost would breach the remaining budget, even if a later,
/// smaller item would still have fit.
pub open spec fn packed_len(s: Seq<CandidateModel>, budget: int) -> int
    decreases s.len(),
{
    if s.len() == 0 {
        0
    } else if token_cost(s[0].content) > budget {
        0
    } else {
        1 + packed_len(s.drop_first(), budget - token_cost(s[0].content))
    }
}

/// The cumulative cost of what the greedy pass packs.
pub open spec fn packed_total(s: Seq<CandidateModel>, budget: int) -> int
    decreases s.len(),
{
    if s.len() == 0 {
        0
    } else if token_cost(s[0].content) > budget {
        0
    } else {
        token_cost(s[0].content) + packed_total(s.drop_first(), budget - token_cost(s[0].content))
    }
}

/// A ranked candidate turned into a bundle item.
pub open spec fn item_of(c: CandidateModel) -> ContextItemModel {
    ContextItemModel {
        id: c.id,
        title: c.title,
        content: c.content,
        path: c.path,
        content_type: c.content_type,
        relevance_score: c.final_score,
        tokens: token_cost(c.content),
    }
}

/// The bundle assembled from a ranked candidate order under a token budget.
pub open spec fn assembled_bundle(
    ranked: Seq<CandidateModel>,
    query: Seq<char>,
    context_window: int,
) -> ContextBundleModel {
    ContextBundleModel {
        query: query,
        items: Seq::new(packed_len(ranked, context_window) as nat, |i: int| item_of(ranked[i])),
        total_tokens: packed_total(ranked, context_window),
        context_window: context_window,
    }
}

/// The cost of the first `n` candidates.
pub open spec fn cost_sum(s: Seq<CandidateModel>, n: int) -> int
    decreases n,
{
    if n <= 0 {
        0
    } else {
        cost_sum(s, n - 1) + token_cost(s[n - 1].content)
    }
}

/// The greedy pass split at a point up to which everything fits.
proof fn lemma_packed_split(s: Seq<CandidateModel>, budget: int, i: int)
    requires
        0 <= i <= s.len(),
        forall|k: int| 0 <= k < i ==> cost_sum(s, k) + token_cost(#[trigger] s[k].content)
            <= budget,
    ensures
        packed_len(s, budget) == i + packed_len(s.skip(i), budget - cost_sum(s, i)),
        packed_total(s, budget) == cost_sum(s, i) + packed_total(s.skip(i), budget - cost_sum(s, i)),
    decreases i,
{
    if i == 0 {
        assert(s.skip(0) =~= s);
    } else {
        lemma_packed_split(s, budget, i - 1);
        let rem = budget - cost_sum(s, i - 1);
        let t = s.skip(i - 1);
        assert(t[0] == s[i - 1]);
        assert(cost_sum(s, i - 1) + token_cost(s[i - 1].content) <= budget);
        assert(token_cost(t[0].content) <= rem);
        assert(packed_len(t, rem) == 1 + packed_len(t.drop_first(), rem - token_cost(t[0].content)));
        assert(packed_total(t, rem) == token_cost(t[0].content) + packed_total(
            t.drop_first(),
            rem - token_cost(t[0].content),
        ));
        assert(t.drop_first() =~= s.skip(i));
    }
}

/// What the greedy packing law says of the bundle: the items are the image of
/// a prefix of the ranked order; every step of that prefix fit the budget;
/// the prefix ends at the sequence's end or at the first candidate whose cost
/// would breach the budget; and the total is the prefix's cost, within budget.
pub proof fn lemma_bundle_is_ranked_prefix(
    ranked: Seq<CandidateModel>,
    query: Seq<char>,
    context_window: int,
)
    requires
        context_window >= 0,
    ensures
        ({
            let b = assembled_bundle(ranked, query, context_window);
            let n = packed_len(ranked, context_window);
            &&& 0 <= n <= ranked.len()
            &&& b.items.len() == n
            &&& forall|i: int| 0 <= i < n ==> b.items[i] == item_of(ranked[i])
            &&& forall|k: int|
                0 <= k < n ==> cost_sum(ranked, k) + token_cost(#[trigger] ranked[k].content)
                    <= context_window
            &&& n < ranked.len() ==> cost_sum(ranked, n) + token_cost(ranked[n].content)
                > context_window
            &&& b.total_tokens == cost_sum(ranked, n)
            &&& b.total_tokens <= context_window
        }),
    decreases ranked.len(),
{
    let n = packed_len(ranked, context_window);
    if ranked.len() == 0 || token_cost(ranked[0].content) > context_window {
    } else {
        lemma_bundle_is_ranked_prefix(
            ranked.drop_first(),
            query,
            context_window - token_cost(ranked[0].content),
        );
        let t = ranked.drop_first();
        let rem = context_window - token_cost(ranked[0].content);
        let m = packed_len(t, rem);
        assert(n == 1 + m);
        assert forall|k: int|
            0 <= k < n implies cost_sum(ranked, k) + token_cost(#[trigger] ranked[k].content)
            <= context_window by {
            if k > 0 {
                assert(cost_sum(t, k - 1) + token_cost(t[k - 1].content) <= rem);
                lemma_cost_sum_shift(ranked, k - 1);
                assert(t[k - 1] == ranked[k]);
            }
        }
        if n < ranked.len() {
            assert(cost_sum(t, m) + token_cost(t[m].content) > rem);
            lemma_cost_sum_shift(ranked, m);
            assert(t[m] == ranked[n]);
        }
        lemma_cost_sum_shift(ranked, m);
        assert(packed_total(ranked, context_window) == cost_sum(ranked, n));
    }
}

/// Prefix sums commute with dropping the first candidate.
proof fn lemma_cost_sum_shift(s: Seq<CandidateModel>, n: int)
    requires
        s.len() > 0,
        0 <= n,
        n + 1 <= s.len(),
    ensures
        cost_sum(s, n + 1) == token_cost(s[0].content) + cost_sum(s.drop_first(), n),
    decreases n,
{
    if n == 0 {
        assert(cost_sum(s, 1) == cost_sum(s, 0) + token_cost(s[0].content));
        assert(cost_sum(s.drop_first(), 0) == 0);
    } else {
        lemma_cost_sum_shift(s, n - 1);
        assert(s.drop_first()[n - 1] == s[n]);
        assert(cost_sum(s, n + 1) == cost_sum(s, n) + token_cost(s[n].content));
        assert(cost_sum(s.drop_first(), n) == cost_sum(s.drop_first(), n - 1) + token_cost(
            s.drop_first()[n - 1].content,
        ));
    }
}

/// Assembly is a function of the ranked order, the query and the window
/// alone: two runs over identical inputs yield identical bundle contents.
pub proof fn lemma_assembly_deterministic(
    ranked: Seq<CandidateModel>,
    query: Seq<char>,
    context_window: int,
    b1: ContextBundleModel,
    b2: ContextBundleModel,
)
    requires
        b1 == assembled_bundle(ranked, query, context_window),
        b2 == assembled_bundle(ranked, query, context_window),
    ensures
        b1 == b2,
{
}

/// Estimated token cost of a content body.
pub fn estimate_tokens(content: &String) -> (r: usize)
    ensures
        r as int == token_cost(content@),
{
    let n = content.as_str().unicode_len();
    n / CHARS_PER_TOKEN
}

/// Pack ranked candidates into a bundle: a single greedy pass in rank order
/// that stops at the first candidate whose estimated cost would push the
/// total past the window, so the packed items are a prefix of the ranked
/// order and `total_tokens` never exceeds `context_window`.
pub fn assemble_context(results: &Vec<Candidate>, query: &String, context_window: usize) -> (r:
    ContextBundle)
    ensures
        r@ == assembled_bundle(models_of(results@), query@, context_window as int),
        r@.total_tokens <= context_window as int,
{
    let ghost m = models_of(results@);
    let mut items: Vec<ContextItem> = Vec::new();
    let mut total: usize = 0;
    let mut i: usize = 0;
    let mut stopped = false;
    while !stopped && i < results.len()
        invariant
            i <= results@.len(),
            m == models_of(results@),
            total <= context_window,
            total as int == cost_sum(m, i as int),
            forall|k: int| 0 <= k < i ==> cost_sum(m, k) + token_cost(#[trigger] m[k].content)
                <= context_window as int,
            stopped ==> i < results@.len() && cost_sum(m, i as int) + token_cost(
                m[i as int].content,
            ) > context_window as int,
            items@.len() == i,
            forall|j: int| 0 <= j < i ==> #[trigger] items@[j]@ == item_of(m[j]),
        decreases results@.len() - i + if stopped { 0int } else { 1int },
    {
        proof {
            assert(m[i as int] == results@[i as int]@);
        }
        let c = &results[i];
        let cost = estimate_tokens(&c.content);
        if cost > context_window - total {
            // the next candidate would breach the budget: stop packing
            stopped = true;
        } else {
            let path = match &c.path {
                Some(p) => Some(p.clone()),
                None => None,
            };
            let item = ContextItem {
                id: c.id.clone(),
                title: c.title.clone(),
                content: c.content.clone(),
                path,
                content_type: c.content_type.clone(),
                relevance_score: c.final_score,
                tokens: cost,
            };
            proof {
                assert(item@ =~= item_of(m[i as int]));
            }
            items.push(item);
            total = total + cost;
            i = i + 1;
        }
    }
    proof {
        lemma_packed_split(m, context_window as int, i as int);
        if stopped {
            assert(m.skip(i as int)[0] == m[i as int]);
            assert(packed_len(m.skip(i as int), context_window - total) == 0);
            assert(packed_total(m.skip(i as int), context_window - total) == 0);
        } else {
            assert(m.skip(i as int) =~= Seq::<CandidateModel>::empty());
            assert(packed_len(m.skip(i as int), context_window - total) == 0);
            assert(packed_total(m.skip(i as int), context_window - total) == 0);
        }
        assert(packed_len(m, context_window as int) == i as int);
        assert(packed_total(m, context_window as int) == total as int);
    }
    let bundle = ContextBundle { query: query.clone(), items, total_tokens: total, context_window };
    proof {
        assert(bundle@.items =~= assembled_bundle(m, query@, context_window as int).items);
        assert(bundle@ =~= assembled_bundle(m, query@, context_window as int));
    }
    bundle
}

} // verus!
