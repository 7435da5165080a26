//! Stub database plumbing: the service can run without a database for basic
//! use, so these handles carry no connection and the repository allows
//! everything.

use vstd::prelude::*;

verus! {

/// Stand-in for a connection pool; holds nothing.
pub struct DatabasePool;

/// Stand-in for a cache handle; holds nothing.
pub struct RedisCache;

/// Stub database handle: a pool stand-in and, possibly, a cache stand-in.
pub struct Database {
    pool: DatabasePool,
    cache: Option<RedisCache>,
}

impl Database {
    /// Whether a cache handle is attached.
    pub closed spec fn has_cache(&self) -> bool {
        self.cache is Some
    }

    /// A stub database: no connection is made, no cache attached.
    pub fn new(_config: &DatabaseConfig) -> (r: Database)
        ensures
            !r.has_cache(),
    {
        Database { pool: DatabasePool, cache: None }
    }

    pub fn pool(&self) -> (r: &DatabasePool)
        ensures
            r == DatabasePool,
    {
        &self.pool
    }

    pub fn cache(&self) -> (r: Option<&RedisCache>)
        ensures
            r is Some <==> self.has_cache(),
    {
        self.cache.as_ref()
    }
}

impl DatabasePool {
    /// Another handle onto the same (absent) pool.
    pub fn clone(&self) -> (r: DatabasePool)
        ensures
            r == DatabasePool,
    {
        DatabasePool
    }
}

/// Where the database would be reached.
pub struct DatabaseConfig {
    pub url: String,
}

/// Stub security repository: remembers its pool handle and nothing else.
pub struct SecurityRepository {
    _pool: DatabasePool,
}

impl SecurityRepository {
    pub fn new(pool: DatabasePool) -> (r: SecurityRepository) {
        SecurityRepository { _pool: pool }
    }
}

/// An encrypted secret as the repository would return it.
pub struct EncryptedSecret {
    pub encrypted_value: Vec<u8>,
}

} // verus!
