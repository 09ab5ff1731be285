//! Log ingestion core: line parsing, level detection, filtering, a bounded
//! ring buffer with incremental statistics, the filtered-view cache and the
//! per-source streaming decisions.

pub mod text;
pub mod level;
pub mod entry;
pub mod parser;
pub mod filter;
pub mod keyset;
pub mod buffer;
pub mod cache;
pub mod stream;
pub mod types;
pub mod token_cache;
pub mod export;
pub mod ui;
