//! Query expansion: folding terms discovered by a generative model into an
//! enriched query. Expansion is a quality enhancement, never a correctness
//! dependency: whenever the model call fails, times out, or returns content
//! that cannot be parsed, the caller hands `None` and gets the identity
//! expansion back.

use vstd::prelude::*;

use crate::model::views_of_strings;

verus! {

/// The term lists parsed out of a successful model response.
pub struct ExpansionTerms {
    pub semantic_terms: Vec<String>,
    pub technical_concepts: Vec<String>,
    pub potential_names: Vec<String>,
}

#[verifier::ext_equal]
pub ghost struct ExpansionTermsModel {
    pub semantic_terms: Seq<Seq<char>>,
    pub technical_concepts: Seq<Seq<char>>,
    pub potential_names: Seq<Seq<char>>,
}

impl View for ExpansionTerms {
    type V = ExpansionTermsModel;

    open spec fn view(&self) -> ExpansionTermsModel {
        ExpansionTermsModel {
            semantic_terms: views_of_strings(self.semantic_terms@),
            technical_concepts: views_of_strings(self.technical_concepts@),
            potential_names: views_of_strings(self.potential_names@),
        }
    }
}

/// An enriched query: constructed once per query, consumed immediately.
pub struct ExpandedQuery {
    pub original: String,
    pub semantic_terms: Vec<String>,
    pub technical_concepts: Vec<String>,
    pub potential_names: Vec<String>,
    /// The original query and the discovered terms joined for backend
    /// consumption. Potential names are exposed but excluded here: they are
    /// client-directed hints, not searched automatically.
    pub combined: String,
}

#[verifier::ext_equal]
pub ghost struct ExpandedQueryModel {
    pub original: Seq<char>,
    pub semantic_terms: Seq<Seq<char>>,
    pub technical_concepts: Seq<Seq<char>>,
    pub potential_names: Seq<Seq<char>>,
    pub combined: Seq<char>,
}

impl View for ExpandedQuery {
    type V = ExpandedQueryModel;

    open spec fn view(&self) -> ExpandedQueryModel {
        ExpandedQueryModel {
            original: self.original@,
            semantic_terms: views_of_strings(self.semantic_terms@),
            technical_concepts: views_of_strings(self.technical_concepts@),
            potential_names: views_of_strings(self.potential_names@),
            combined: self.combined@,
        }
    }
}

/// The terms appended to a base text, one space before each term.
pub open spec fn joined_with_spaces(base: Seq<char>, terms: Seq<Seq<char>>) -> Seq<char>
    decreases terms.len(),
{
    if terms.len() == 0 {
        base
    } else {
        joined_with_spaces(base + seq![' '] + terms[0], terms.drop_first())
    }
}

/// The enriched query text: the original, then the semantic terms, then the
/// technical concepts, space-separated.
pub open spec fn combined_of(original: Seq<char>, t: ExpansionTermsModel) -> Seq<char> {
    joined_with_spaces(joined_with_spaces(original, t.semantic_terms), t.technical_concepts)
}

proof fn lemma_joined_snoc(base: Seq<char>, terms: Seq<Seq<char>>, x: Seq<char>)
    ensures
        joined_with_spaces(base, terms.push(x)) == joined_with_spaces(base, terms) + seq![' '] + x,
    decreases terms.len(),
{
    let p = terms.push(x);
    if terms.len() == 0 {
        assert(p[0] == x);
        assert(p.drop_first() =~= Seq::<Seq<char>>::empty());
        assert(joined_with_spaces(base, p) == joined_with_spaces(base + seq![' '] + x, p.drop_first()));
        assert(joined_with_spaces(base + seq![' '] + x, Seq::<Seq<char>>::empty()) == base
            + seq![' '] + x);
        assert(joined_with_spaces(base, terms) == base);
    } else {
        assert(p[0] == terms[0]);
        assert(p.drop_first() =~= terms.drop_first().push(x));
        assert(joined_with_spaces(base, p) == joined_with_spaces(
            base + seq![' '] + terms[0],
            terms.drop_first().push(x),
        ));
        lemma_joined_snoc(base + seq![' '] + terms[0], terms.drop_first(), x);
        assert(joined_with_spaces(base, terms) == joined_with_spaces(
            base + seq![' '] + terms[0],
            terms.drop_first(),
        ));
    }
}

/// Append every term to the text, one space before each.
fn append_terms(base: String, terms: &Vec<String>) -> (r: String)
    ensures
        r@ == joined_with_spaces(base@, views_of_strings(terms@)),
{
    let ghost tm = views_of_strings(terms@);
    let ghost b0 = base@;
    let mut s = base;
    let mut i: usize = 0;
    proof {
        assert(tm.take(0) =~= Seq::<Seq<char>>::empty());
    }
    while i < terms.len()
        invariant
            i <= terms@.len(),
            tm == views_of_strings(terms@),
            s@ == joined_with_spaces(b0, tm.take(i as int)),
        decreases terms@.len() - i,
    {
        proof {
            reveal_strlit(" ");
        }
        s.append(" ");
        s.append(terms[i].as_str());
        proof {
            assert(" "@ =~= seq![' ']);
            assert(tm[i as int] == terms@[i as int]@);
            assert(tm.take(i + 1) =~= tm.take(i as int).push(tm[i as int]));
            lemma_joined_snoc(b0, tm.take(i as int), tm[i as int]);
        }
        i += 1;
    }
    proof {
        assert(tm.take(terms@.len() as int) =~= tm);
        assert(tm.take(0) =~= Seq::<Seq<char>>::empty());
    }
    s
}

/// Build the enriched query from the original text and the parsed term lists,
/// if any. Fail-open contract: with no parsed terms (a failed or unparseable
/// model call) the result is the identity expansion, whose `combined` text is
/// the original query unchanged; with parsed terms, `combined` is the original
/// followed by the semantic terms and technical concepts, space-separated.
pub fn build_expanded_query(query: &String, parsed: Option<ExpansionTerms>) -> (r: ExpandedQuery)
    ensures
        r@.original == query@,
        match parsed {
            Option::None => r@.combined == query@ && r@.semantic_terms.len() == 0
                && r@.technical_concepts.len() == 0 && r@.potential_names.len() == 0,
            Option::Some(t) => r@.semantic_terms == t@.semantic_terms && r@.technical_concepts
                == t@.technical_concepts && r@.potential_names == t@.potential_names && r@.combined
                == combined_of(query@, t@),
        },
{
    match parsed {
        None => {
            let r = ExpandedQuery {
                original: query.clone(),
                semantic_terms: Vec::new(),
                technical_concepts: Vec::new(),
                potential_names: Vec::new(),
                combined: query.clone(),
            };
            proof {
                assert(r@.semantic_terms =~= Seq::<Seq<char>>::empty());
                assert(r@.technical_concepts =~= Seq::<Seq<char>>::empty());
                assert(r@.potential_names =~= Seq::<Seq<char>>::empty());
            }
            r
        },
        Some(t) => {
            let with_semantic = append_terms(query.clone(), &t.semantic_terms);
            let combined = append_terms(with_semantic, &t.technical_concepts);
            ExpandedQuery {
                original: query.clone(),
                semantic_terms: t.semantic_terms,
                technical_concepts: t.technical_concepts,
                potential_names: t.potential_names,
                combined,
            }
        },
    }
}

} // verus!
