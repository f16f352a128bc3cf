//! The process-wide immutable configuration: the ordered upstream rule
//! table, the selected engine, and the listen parameters.  Loading it from
//! a file or the environment is the caller's business; the library only
//! holds the plain values.

use vstd::prelude::*;

verus! {

use crate::engine::EngineType;

/// One upstream rule: a path pattern (a regular expression) and an
/// upstream URL template with `{}` placeholders.  Order in the table is
/// match priority; the first match wins.
#[derive(Debug, Clone)]
pub struct Upstreams {
    pub path: String,
    pub upstream: String,
}

/// The configuration, constructed once at startup before any request is
/// served and read-only afterwards.
#[derive(Debug, Clone)]
pub struct Config {
    pub port: Option<u16>,
    pub listen_address: Option<String>,
    pub threads: Option<usize>,
    pub engine: EngineType,
    pub upstreams: Vec<Upstreams>,
}

impl Default for Config {
    fn default() -> (r: Self)
        ensures
            r.port is None,
            r.listen_address is None,
            r.threads is None,
            r.engine == EngineType::ImageRs,
            r.upstreams@.len() == 0,
    {
        Config {
            port: None,
            listen_address: None,
            threads: None,
            engine: EngineType::ImageRs,
            upstreams: Vec::new(),
        }
    }
}

} // verus!
