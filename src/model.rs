//! The library's data: subscription pushes, session configuration and the
//! record written once per mined transaction.
use vstd::prelude::*;
use crate::classify::ContractType;

verus! {

/// The `params` of a subscription push.
#[derive(Clone, Debug)]
pub struct Params {
    /// The pushed transaction hash.
    pub result: String,
    pub subscription: String,
}

/// A subscription push reporting a new pending transaction.
#[derive(Clone, Debug)]
pub struct TxHashResponse {
    pub jsonrpc: String,
    pub method: String,
    pub params: Params,
}

/// The record of one mined transaction.
#[derive(Clone, Debug)]
pub struct Transaction {
    pub tx_hash: String,
    pub block_hash: Option<String>,
    pub block_number: Option<u64>,
    pub from: String,
    pub to: Option<String>,
    pub value: u128,
    pub gas: u64,
    pub gas_price: u64,
    pub input: String,
    pub nonce: u64,
    /// Milliseconds from first sight on the feed to resolution.
    pub mempool_time: Option<u64>,
    pub contract_type: ContractType,
}

/// The poll interval of a session, in milliseconds.
pub const POLL_INTERVAL_MS: u64 = 3000;

/// Settings of a session; fixed for its lifetime.
#[derive(Clone, Debug)]
pub struct Config {
    pub web_socket_url: String,
    pub poll_interval_ms: u64,
    /// Pending transactions at least this old are abandoned at the next tick;
    /// `None` keeps them until they are mined.
    pub max_pending_age_ms: Option<u64>,
}

impl Config {
    /// A configuration with the fixed poll interval and no abandonment.
    pub fn new(web_socket_url: String) -> (r: Config)
        ensures
            r.web_socket_url == web_socket_url,
            r.poll_interval_ms == POLL_INTERVAL_MS,
            r.max_pending_age_ms is None,
    {
        Config { web_socket_url, poll_interval_ms: POLL_INTERVAL_MS, max_pending_age_ms: None }
    }
}

} // verus!
