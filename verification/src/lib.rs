//! A minimal read-only HTTP data service, verified.
//!
//! The library holds everything the service decides or computes: resolving
//! database settings from the environment, building the connection URL,
//! the row filter behind the one endpoint, the mapping from a query outcome
//! to an HTTP response (errors are swallowed into an empty result on
//! purpose), and the JSON encoding of the response body. The surrounding
//! process — argument parsing, the connection pool, the listener, the
//! signal handler — lives outside and hands the library plain values.

use vstd::prelude::*;

pub mod config;
pub mod handler;
pub mod json;
pub mod record;

verus! {

/// Upper bound on simultaneously open database connections in the pool.
pub const MAX_CONNECTIONS: u32 = 50;

/// Listen port used when no `--port` flag is given.
pub const DEFAULT_LISTEN_PORT: u16 = 8001;

/// Worker count used when no `--workers` flag is given.
pub const DEFAULT_WORKERS: usize = 1;

} // verus!
