//! Live view of the queries running across a cluster of database nodes.
//!
//! Each node exposes a diagnostics document in one of two shapes: a list of
//! SQL backend processes, or a list of CQL inbound connections with the calls
//! in flight on them. The library recognises the shape of a document, decodes
//! it, turns every active session or call into one uniform activity record,
//! and orders the records of a whole sweep by elapsed time.

pub mod json;
pub mod model;
pub mod decode;
pub mod extract;
pub mod aggregate;
pub mod laws;
