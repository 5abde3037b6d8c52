//! An in-memory movie store: records are kept in a map keyed by their id,
//! and the two request handlers encode and decode records as JSON.

pub mod handlers;
pub mod json;
pub mod laws;
pub mod parse;
pub mod record;
pub mod store;
