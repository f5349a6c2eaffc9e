use vstd::prelude::*;

use crate::types::H160;

verus! {

/// Addresses of the contracts the watcher reads.
#[derive(Debug, Clone, PartialEq)]
pub struct ContractsConfig {
    /// Address of the main contract, whose logs carry the priority operations.
    pub contract_addr: H160,
}

/// How to reach the Ethereum nodes.
#[derive(Debug, Clone, PartialEq)]
pub struct ETHClientConfig {
    pub chain_id: u8,
    /// Node endpoints, asked in this order.
    pub web3_url: Vec<String>,
}

/// Pace and depth of the watcher.
#[derive(Debug, Clone, PartialEq)]
pub struct ETHWatchConfig {
    /// Confirmations a block needs before its events are accepted.
    pub confirmations_for_eth_event: u64,
    /// Milliseconds between two polls of the Ethereum node.
    pub eth_node_poll_interval: u64,
}

impl ETHWatchConfig {
    /// The time between two polls, in milliseconds.
    pub fn poll_interval_millis(&self) -> (r: u64)
        ensures
            r == self.eth_node_poll_interval,
    {
        self.eth_node_poll_interval
    }
}

/// Settings of the watcher process.
#[derive(Debug, Clone, PartialEq)]
pub struct Settings {
    pub contracts: ContractsConfig,
    pub eth_client: ETHClientConfig,
    pub eth_watch: ETHWatchConfig,
}

} // verus!
