//! Reverse-proxy image gateway core: upstream URL resolution from a pattern
//! table, geometry extraction from the query string, content negotiation,
//! response-header translation, the aspect-preserving resize policy, and the
//! error mapping that ties these into HTTP responses.

pub mod config;
pub mod engine;
pub mod errors;
pub mod geometry;
pub mod headers;
pub mod negotiate;
pub mod pipeline;
pub mod resolver;
pub mod text;
