//! Typed client-side model of a search service's API-key resource:
//! keys, the builder that creates them, the paginated listing query,
//! the closed permission-action enumeration, and the wire codec
//! (camelCase JSON with omit-if-empty rules and RFC 3339 timestamps).

pub mod action;
pub mod codec;
pub mod error;
pub mod key;
pub mod parse;
pub mod timestamp;
