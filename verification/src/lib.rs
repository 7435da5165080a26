//! Hybrid retrieval and ranking engine.
//!
//! Combines candidates from a vector-similarity backend and a graph-relationship
//! backend, fuses them under a configurable weighting model, folds in one hop of
//! graph-related entities at a suppressed score tier, and packs the ranked set
//! into a token-budgeted context bundle.
//!
//! Scores are fixed-point integers: backend scores and ranking weights are in
//! milli-units (1000 = 1.0), fused final scores in micro-units (1000000 = 1.0).

pub mod model;
pub mod fusion;
pub mod bundle;
pub mod expand;
pub mod adapters;
pub mod api;
pub mod chroma;
pub mod engine;
pub mod config;
pub mod db;
pub mod ids;
pub mod localfs;
pub mod mcp;
pub mod milvus;
pub mod schema;
pub mod unified;
