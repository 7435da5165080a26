//! The hosted-vector-store adapter's compute: translating conjunctive
//! equality filters into the store's filter shape, and flattening its
//! column-oriented response (parallel arrays of ids, distances and metadata)
//! into one record per hit, defaults standing in for anything missing.

use vstd::prelude::*;

verus! {

/// Metadata attached to one stored vector; every field optional.
pub struct ChromaMetadata {
    pub source_id: Option<String>,
    pub chunk_id: Option<String>,
    pub workspace_id: Option<String>,
    pub content_type: Option<String>,
    pub filename: Option<String>,
    pub blob_path: Option<String>,
}

/// One flattened similarity hit; missing metadata fields become empty text.
pub struct VectorSearchResult {
    pub id: String,
    /// Distance reported by the store, milli-units.
    pub score: u32,
    pub source_id: String,
    pub chunk_id: String,
    pub workspace_id: String,
    pub content_type: String,
    pub filename: String,
    pub blob_path: String,
}

/// The store's filter shape: no filter, one equality, or a conjunction.
pub enum WhereFilter {
    /// No constraint.
    Unfiltered,
    /// One key must equal one value.
    Equals(String, String),
    /// Every listed key must equal its value.
    AllOf(Vec<(String, String)>),
}

/// The view of an optional text, the empty text standing in for absence.
pub open spec fn text_or_empty(o: Option<String>) -> Seq<char> {
    match o {
        Option::Some(s) => s@,
        Option::None => Seq::empty(),
    }
}

/// Translate the scoping constraints into the store's filter shape: nothing
/// to constrain gives no filter, one constraint stands alone, and both become
/// a conjunction of the two equalities, workspace first.
pub fn build_where_filter(workspace_id: Option<String>, content_type: Option<String>) -> (r:
    WhereFilter)
    ensures
        match (workspace_id, content_type) {
            (Option::None, Option::None) => r is Unfiltered,
            (Option::Some(w), Option::None) => r matches WhereFilter::Equals(k, v) && k@
                == "workspace_id"@ && v@ == w@,
            (Option::None, Option::Some(c)) => r matches WhereFilter::Equals(k, v) && k@
                == "content_type"@ && v@ == c@,
            (Option::Some(w), Option::Some(c)) => r matches WhereFilter::AllOf(pairs)
                && pairs@.len() == 2 && pairs@[0].0@ == "workspace_id"@ && pairs@[0].1@ == w@
                && pairs@[1].0@ == "content_type"@ && pairs@[1].1@ == c@,
        },
{
    match (workspace_id, content_type) {
        (None, None) => WhereFilter::Unfiltered,
        (Some(w), None) => WhereFilter::Equals(String::from_str("workspace_id"), w),
        (None, Some(c)) => WhereFilter::Equals(String::from_str("content_type"), c),
        (Some(w), Some(c)) => {
            let mut pairs: Vec<(String, String)> = Vec::new();
            pairs.push((String::from_str("workspace_id"), w));
            pairs.push((String::from_str("content_type"), c));
            WhereFilter::AllOf(pairs)
        },
    }
}

/// Flatten the store's parallel arrays into one record per id: the i-th id is
/// paired with the i-th distance (0 when the distances run short) and the
/// i-th metadata entry (every field empty when the metadata runs short or the
/// entry is absent).
pub fn collect_results(
    ids: Vec<String>,
    distances: Vec<u32>,
    metadatas: Vec<Option<ChromaMetadata>>,
) -> (r: Vec<VectorSearchResult>)
    ensures
        r@.len() == ids@.len(),
        forall|i: int|
            0 <= i < ids@.len() ==> {
                let e = #[trigger] r@[i];
                &&& e.id == ids@[i]
                &&& e.score == (if i < distances@.len() {
                    distances@[i]
                } else {
                    0u32
                })
                &&& e.source_id@ == meta_field_view(metadatas@, i, MetaField::SourceId)
                &&& e.chunk_id@ == meta_field_view(metadatas@, i, MetaField::ChunkId)
                &&& e.workspace_id@ == meta_field_view(metadatas@, i, MetaField::WorkspaceId)
                &&& e.content_type@ == meta_field_view(metadatas@, i, MetaField::ContentType)
                &&& e.filename@ == meta_field_view(metadatas@, i, MetaField::Filename)
                &&& e.blob_path@ == meta_field_view(metadatas@, i, MetaField::BlobPath)
            },
{
    let ghost ids0 = ids@;
    let ghost metas0 = metadatas@;
    let ghost dists0 = distances@;
    let mut out: Vec<VectorSearchResult> = Vec::new();
    let mut rest_ids = ids;
    let mut rest_metas = metadatas;
    let total_ids = rest_ids.len();
    let mut i: usize = 0;
    while rest_ids.len() > 0
        invariant
            ids0.len() == total_ids as int,
            i + rest_ids@.len() == ids0.len(),
            rest_ids@ == ids0.skip(i as int),
            dists0 == distances@,
            rest_metas@ == (if (i as int) <= metas0.len() {
                metas0.skip(i as int)
            } else {
                Seq::<Option<ChromaMetadata>>::empty()
            }),
            out@.len() == i,
            forall|j: int|
                0 <= j < i ==> {
                    let e = #[trigger] out@[j];
                    &&& e.id == ids0[j]
                    &&& e.score == (if j < dists0.len() {
                        dists0[j]
                    } else {
                        0u32
                    })
                    &&& e.source_id@ == meta_field_view(metas0, j, MetaField::SourceId)
                    &&& e.chunk_id@ == meta_field_view(metas0, j, MetaField::ChunkId)
                    &&& e.workspace_id@ == meta_field_view(metas0, j, MetaField::WorkspaceId)
                    &&& e.content_type@ == meta_field_view(metas0, j, MetaField::ContentType)
                    &&& e.filename@ == meta_field_view(metas0, j, MetaField::Filename)
                    &&& e.blob_path@ == meta_field_view(metas0, j, MetaField::BlobPath)
                },
        decreases rest_ids@.len(),
    {
        let ghost before_ids = rest_ids@;
        let ghost before_metas = rest_metas@;
        let id = rest_ids.remove(0);
        proof {
            assert(id == before_ids[0]);
            assert(before_ids[0] == ids0.skip(i as int)[0]);
            assert(ids0.skip(i as int)[0] == ids0[i as int]);
            assert(rest_ids@ =~= ids0.skip(i as int + 1));
        }
        let score = if i < distances.len() {
            distances[i]
        } else {
            0
        };
        let meta = if rest_metas.len() > 0 {
            proof {
                assert((i as int) <= metas0.len());
                assert(before_metas == metas0.skip(i as int));
                assert((i as int) < metas0.len());
                assert(before_metas[0] == metas0[i as int]);
            }
            let m0 = rest_metas.remove(0);
            proof {
                assert(m0 == before_metas[0]);
                assert(rest_metas@ =~= metas0.skip(i as int + 1));
            }
            m0
        } else {
            proof {
                if (i as int) <= metas0.len() {
                    assert(metas0.skip(i as int).len() == metas0.len() - i as int);
                    assert((i as int) == metas0.len());
                    assert(rest_metas@ =~= Seq::<Option<ChromaMetadata>>::empty());
                }
            }
            None
        };
        proof {
            assert(meta == (if i < metas0.len() {
                metas0[i as int]
            } else {
                None::<ChromaMetadata>
            }));
        }
        let entry = match meta {
            Some(m) => VectorSearchResult {
                id,
                score,
                source_id: text_or_default(m.source_id),
                chunk_id: text_or_default(m.chunk_id),
                workspace_id: text_or_default(m.workspace_id),
                content_type: text_or_default(m.content_type),
                filename: text_or_default(m.filename),
                blob_path: text_or_default(m.blob_path),
            },
            None => VectorSearchResult {
                id,
                score,
                source_id: String::new(),
                chunk_id: String::new(),
                workspace_id: String::new(),
                content_type: String::new(),
                filename: String::new(),
                blob_path: String::new(),
            },
        };
        out.push(entry);
        i += 1;
    }
    proof {
        assert(ids0.skip(ids0.len() as int).len() == 0);
    }
    out
}

/// Which metadata field is read.
pub enum MetaField {
    SourceId,
    ChunkId,
    WorkspaceId,
    ContentType,
    Filename,
    BlobPath,
}

/// The i-th metadata entry's field as text: empty when the metadata list runs
/// short, the entry is absent, or the field is absent.
pub open spec fn meta_field_view(
    metas: Seq<Option<ChromaMetadata>>,
    i: int,
    field: MetaField,
) -> Seq<char> {
    if 0 <= i < metas.len() {
        match metas[i] {
            Option::Some(m) => match field {
                MetaField::SourceId => text_or_empty(m.source_id),
                MetaField::ChunkId => text_or_empty(m.chunk_id),
                MetaField::WorkspaceId => text_or_empty(m.workspace_id),
                MetaField::ContentType => text_or_empty(m.content_type),
                MetaField::Filename => text_or_empty(m.filename),
                MetaField::BlobPath => text_or_empty(m.blob_path),
            },
            Option::None => Seq::empty(),
        }
    } else {
        Seq::empty()
    }
}

/// An optional text with the empty text for absence.
fn text_or_default(o: Option<String>) -> (r: String)
    ensures
        r@ == text_or_empty(o),
{
    match o {
        Some(s) => s,
        None => String::new(),
    }
}

} // verus!
