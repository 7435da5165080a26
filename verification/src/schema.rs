//! Normalized context-schema records: token-efficient descriptors shared by
//! every content source, and the pagination wrapper.

use vstd::prelude::*;

verus! {

/// A repository, normalized across hosting providers.
pub struct RepositoryDescriptor {
    pub id: String,
    pub provider: String,
    pub name: String,
    pub owner: String,
    pub visibility: String,
    pub default_branch: String,
    pub description: Option<String>,
    pub url: String,
    /// Unix timestamp.
    pub updated_at: i64,
}

/// A branch of a repository.
pub struct BranchDescriptor {
    pub name: String,
    pub commit_id: String,
    pub is_default: bool,
    pub protected: Option<bool>,
}

/// A file or directory, normalized across file-based sources.
pub struct FileDescriptor {
    pub id: String,
    pub path: String,
    pub name: String,
    pub kind: String,
    pub size: Option<u64>,
    pub language: Option<String>,
    pub sha: Option<String>,
    pub last_modified: Option<i64>,
    pub mime_type: Option<String>,
}

/// A chunk of content cut for the embedding pipeline.
pub struct ContentChunk {
    pub id: String,
    pub document_id: String,
    /// Character offset of the chunk in its document.
    pub offset: u32,
    /// Character length of the chunk.
    pub length: u32,
    pub content_type: String,
    pub language: Option<String>,
    pub text: String,
    pub tags: Vec<String>,
}

/// A browsable resource.
pub struct ResourceDescriptor {
    pub id: String,
    pub name: String,
    pub description: Option<String>,
    pub mime_type: Option<String>,
    pub uri: String,
}

/// The content of a resource.
pub struct ResourceContent {
    pub content: String,
    pub mime_type: Option<String>,
}

/// A page of items with pagination bookkeeping.
pub struct PaginatedResult<T> {
    pub items: Vec<T>,
    pub total: Option<u64>,
    pub page: Option<u32>,
    pub per_page: Option<u32>,
    pub has_next: bool,
}

impl<T> PaginatedResult<T> {
    /// Wrap one page: a further page exists exactly when the counters are all
    /// known and the items paged through so far fall short of the total.
    pub fn new(items: Vec<T>, total: Option<u64>, page: Option<u32>, per_page: Option<u32>) -> (r:
        PaginatedResult<T>)
        ensures
            r.items == items,
            r.total == total,
            r.page == page,
            r.per_page == per_page,
            r.has_next == (match (total, page, per_page) {
                (Option::Some(t), Option::Some(p), Option::Some(pp)) => (p as int) * (pp as int)
                    < t as int,
                _ => false,
            }),
    {
        let has_next = match (total, page, per_page) {
            (Some(t), Some(p), Some(pp)) => {
                proof {
                    broadcast use vstd::arithmetic::mul::lemma_mul_upper_bound;
                    broadcast use vstd::arithmetic::mul::lemma_mul_nonnegative;

                    assert((p as int) * (pp as int) <= (u32::MAX as int) * (u32::MAX as int));
                }
                (p as u64) * (pp as u64) < t
            },
            _ => false,
        };
        PaginatedResult { items, total, page, per_page, has_next }
    }
}

} // verus!
