//! Ripdoc renders a compact, syntactically valid skeleton of a library's
//! public interface from a structured item graph, with all bodies elided,
//! and can narrow that skeleton to the subset matched by a free-text query.

pub mod config;
pub mod core_api;
pub mod diagnostics;
pub mod error;
pub mod graph;
pub mod items;
pub mod keywords;
pub mod laws;
pub mod macros;
pub mod markdown;
pub mod manifest;
pub mod model;
pub mod paths;
pub mod render;
pub mod search;
pub mod signature;
pub mod state;
pub mod syntax;
pub mod text;
