//! Semantic analysis of Rust workspaces: symbol indexing, call resolution,
//! cross-crate detection and architecture-layer checks.

pub mod analysis;
pub mod cache;
pub mod architecture;
pub mod config;
pub mod embeddings;
pub mod extract;
pub mod framework_patterns;
pub mod paths;
pub mod pool;
pub mod global_index;
pub mod graph;
pub mod hybrid;
pub mod incremental;
pub mod indexing;
pub mod mcp_protocol;
pub mod resolution;
pub mod syntax;
pub mod table;
pub mod text;
pub mod workspace;
