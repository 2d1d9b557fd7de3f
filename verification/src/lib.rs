//! Locates records inside a tree of markup documents by case-insensitive
//! substring search over one of three identifier attributes, and reports
//! enriched context for every hit.
pub mod document;
pub mod engine;
pub mod laws;
pub mod matcher;
pub mod parser;
pub mod text;
pub mod validate;

pub use document::{Doc, Element};
pub use engine::{find_id, search_document, DocumentError};
pub use matcher::{search_guid, search_media_id, search_short_id, MatchInfo, SearchMode};
pub use validate::{is_path_valid, ValidationError};
