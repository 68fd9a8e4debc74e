//! Incremental, block-level indexing of a source tree for hybrid search.

pub mod change;
pub mod cli;
pub mod embedding;
pub mod errors;
pub mod model;
pub mod orchestrator;
pub mod padding;
pub mod path_map;
pub mod records;
pub mod snapshot;
pub mod text;
pub mod tokenizer;
pub mod walker;
