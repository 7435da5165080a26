//! The managed-vector-store adapter's compute: building the store's textual
//! filter expression from the conjunctive equality constraints, and filling
//! defaults into its hits, every metadata field optional.

use vstd::prelude::*;

use crate::chroma::text_or_empty;

verus! {

/// One hit of the store, as its response carries it.
pub struct MilvusHit {
    pub id: String,
    /// Distance reported by the store, milli-units.
    pub distance: u32,
    pub source_id: Option<String>,
    pub chunk_id: Option<String>,
    pub workspace_id: Option<String>,
    pub content_type: Option<String>,
    pub filename: Option<String>,
    pub blob_path: Option<String>,
}

/// One flattened similarity hit; missing metadata fields become empty text.
pub struct VectorSearchResult {
    pub id: String,
    /// Distance reported by the store, milli-units.
    pub score: u32,
    pub source_id: String,
    pub chunk_id: String,
    pub workspace_id: String,
    pub content_type: String,
    pub filename: String,
    pub blob_path: String,
}

/// One quoted equality clause of the store's filter language.
pub open spec fn milvus_eq_clause(key: Seq<char>, value: Seq<char>) -> Seq<char> {
    key + " == \""@ + value + "\""@
}

/// The filter expression of the scoping constraints: nothing to constrain
/// gives no filter; otherwise the equality clauses joined by a conjunction,
/// workspace first.
pub open spec fn milvus_filter_text(
    workspace_id: Option<Seq<char>>,
    content_type: Option<Seq<char>>,
) -> Option<Seq<char>> {
    match (workspace_id, content_type) {
        (Option::None, Option::None) => Option::None,
        (Option::Some(w), Option::None) => Option::Some(milvus_eq_clause("workspace_id"@, w)),
        (Option::None, Option::Some(c)) => Option::Some(milvus_eq_clause("content_type"@, c)),
        (Option::Some(w), Option::Some(c)) => Option::Some(
            milvus_eq_clause("workspace_id"@, w) + " && "@ + milvus_eq_clause("content_type"@, c),
        ),
    }
}

/// The view of an optional text.
pub open spec fn opt_text_view(o: Option<String>) -> Option<Seq<char>> {
    match o {
        Option::Some(s) => Option::Some(s@),
        Option::None => Option::None,
    }
}

/// Build the store's textual filter from the scoping constraints.
pub fn build_milvus_filter(workspace_id: Option<String>, content_type: Option<String>) -> (r:
    Option<String>)
    ensures
        opt_text_view(r) == milvus_filter_text(
            opt_text_view(workspace_id),
            opt_text_view(content_type),
        ),
{
    match (workspace_id, content_type) {
        (None, None) => None,
        (Some(w), None) => {
            let mut s = String::from_str("workspace_id");
            s.append(" == \"");
            s.append(w.as_str());
            s.append("\"");
            proof {
                assert(s@ =~= milvus_eq_clause("workspace_id"@, w@));
            }
            Some(s)
        },
        (None, Some(c)) => {
            let mut s = String::from_str("content_type");
            s.append(" == \"");
            s.append(c.as_str());
            s.append("\"");
            proof {
                assert(s@ =~= milvus_eq_clause("content_type"@, c@));
            }
            Some(s)
        },
        (Some(w), Some(c)) => {
            let mut s = String::from_str("workspace_id");
            s.append(" == \"");
            s.append(w.as_str());
            s.append("\"");
            s.append(" && ");
            s.append("content_type");
            s.append(" == \"");
            s.append(c.as_str());
            s.append("\"");
            proof {
                assert(s@ =~= milvus_eq_clause("workspace_id"@, w@) + " && "@ + milvus_eq_clause(
                    "content_type"@,
                    c@,
                ));
            }
            Some(s)
        },
    }
}

/// Fill defaults into the store's hits: each becomes one record, in hit
/// order, any absent metadata field the empty text.
pub fn collect_milvus_hits(hits: Vec<MilvusHit>) -> (r: Vec<VectorSearchResult>)
    ensures
        r@.len() == hits@.len(),
        forall|i: int|
            0 <= i < hits@.len() ==> {
                let e = #[trigger] r@[i];
                &&& e.id == hits@[i].id
                &&& e.score == hits@[i].distance
                &&& e.source_id@ == text_or_empty(hits@[i].source_id)
                &&& e.chunk_id@ == text_or_empty(hits@[i].chunk_id)
                &&& e.workspace_id@ == text_or_empty(hits@[i].workspace_id)
                &&& e.content_type@ == text_or_empty(hits@[i].content_type)
                &&& e.filename@ == text_or_empty(hits@[i].filename)
                &&& e.blob_path@ == text_or_empty(hits@[i].blob_path)
            },
{
    let ghost h0 = hits@;
    let mut out: Vec<VectorSearchResult> = Vec::new();
    let mut rest = hits;
    let total = rest.len();
    let mut i: usize = 0;
    while rest.len() > 0
        invariant
            h0.len() == total as int,
            i + rest@.len() == h0.len(),
            rest@ == h0.skip(i as int),
            out@.len() == i,
            forall|j: int|
                0 <= j < i ==> {
                    let e = #[trigger] out@[j];
                    &&& e.id == h0[j].id
                    &&& e.score == h0[j].distance
                    &&& e.source_id@ == text_or_empty(h0[j].source_id)
                    &&& e.chunk_id@ == text_or_empty(h0[j].chunk_id)
                    &&& e.workspace_id@ == text_or_empty(h0[j].workspace_id)
                    &&& e.content_type@ == text_or_empty(h0[j].content_type)
                    &&& e.filename@ == text_or_empty(h0[j].filename)
                    &&& e.blob_path@ == text_or_empty(h0[j].blob_path)
                },
        decreases rest@.len(),
    {
        let ghost before = rest@;
        let hit = rest.remove(0);
        proof {
            assert(hit == before[0]);
            assert(before[0] == h0.skip(i as int)[0]);
            assert(h0.skip(i as int)[0] == h0[i as int]);
            assert(rest@ =~= h0.skip(i as int + 1));
        }
        let entry = VectorSearchResult {
            id: hit.id,
            score: hit.distance,
            source_id: or_empty(hit.source_id),
            chunk_id: or_empty(hit.chunk_id),
            workspace_id: or_empty(hit.workspace_id),
            content_type: or_empty(hit.content_type),
            filename: or_empty(hit.filename),
            blob_path: or_empty(hit.blob_path),
        };
        out.push(entry);
        i += 1;
    }
    proof {
        assert(h0.skip(h0.len() as int).len() == 0);
    }
    out
}

/// An optional text with the empty text for absence.
fn or_empty(o: Option<String>) -> (r: String)
    ensures
        r@ == text_or_empty(o),
{
    match o {
        Some(s) => s,
        None => String::new(),
    }
}

} // verus!
