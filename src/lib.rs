//! Mempool correlation engine: tracks pending transactions seen on a node's
//! subscription feed, correlates lookup replies with the calls that asked for
//! them, classifies recipients and emits one record per mined transaction.

pub mod hex;
pub mod json;
pub mod classify;
pub mod pending;
pub mod model;
pub mod rpc;
pub mod route;
pub mod resolve;
pub mod engine;
pub mod supervisor;
pub mod rpc_queries;
