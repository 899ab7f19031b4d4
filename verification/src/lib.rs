//! Self-documenting node definitions for image processing pipelines.
//!
//! Nodes describe their parameters once (ranges, defaults, units, UI
//! sections, querystring keys, JSON names); a registry aggregates node
//! definitions, parses RIAPI querystrings against all of them with
//! consumption tracking, and renders documentation.

pub mod error;
pub mod float_bits;
pub mod format;
pub mod json;
pub mod json_schema;
pub mod kv;
pub mod naming;
pub mod nodes;
pub mod ordering;
pub mod param;
pub mod registry;
pub mod schema;
pub mod text;
pub mod traits;
pub mod version;
