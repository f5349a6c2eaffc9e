use vstd::prelude::*;

use crate::config::Settings;
use crate::multiplexer::MultiplexerEthereumClient;
use crate::types::{H256, U256};
use web3::types::TransactionReceipt;

verus! {

/// A signed transaction, ready to be sent.
#[derive(Debug, Clone, PartialEq)]
pub struct SignedCallResult {
    pub raw_tx: Vec<u8>,
    pub gas_price: U256,
    pub nonce: U256,
    pub hash: H256,
}

/// State of the executed Ethereum transaction.
#[derive(Debug, Clone)]
pub struct ExecutedTxStatus {
    /// Amount of confirmations for a block containing the transaction.
    pub confirmations: u64,
    /// Whether transaction was executed successfully or failed.
    pub success: bool,
    /// Receipt for a transaction. Will be set to `Some` only if the transaction
    /// failed during execution.
    pub receipt: Option<TransactionReceipt>,
}

/// Information about transaction failure.
#[derive(Debug, Clone)]
pub struct FailureInfo {
    pub revert_code: String,
    pub revert_reason: String,
    pub gas_used: Option<U256>,
    pub gas_limit: U256,
}

/// The Ethereum backend the watcher talks to: one node, several nodes behind
/// a failover client, or a test double.
#[derive(Debug, Clone)]
pub enum EthereumGateway<D, M> {
    Direct(D),
    Multiplexed(MultiplexerEthereumClient<D>),
    Mock(M),
}

/// The providers `clients` named after the node endpoints `urls`, in order.
pub open spec fn named_clients<D>(urls: Seq<String>, clients: Seq<D>) -> Seq<(String, D)> {
    Seq::new(clients.len(), |i: int| (urls[i], clients[i]))
}

impl<D, M> EthereumGateway<D, M> {
    /// The gateway for the node endpoints of `config`, given one client per
    /// endpoint in the same order: a single endpoint is used directly, several
    /// are asked in order behind a failover client named after their URLs.
    pub fn from_config(config: &Settings, clients: Vec<D>) -> (r: Self)
        requires
            clients.len() > 0,
            clients.len() == config.eth_client.web3_url.len(),
        ensures
            clients.len() == 1 ==> r == EthereumGateway::<D, M>::Direct(clients[0]),
            clients.len() > 1 ==> (r matches EthereumGateway::Multiplexed(m) && m.spec_clients() == named_clients(
                config.eth_client.web3_url@,
                clients@,
            )),
    {
        let mut clients = clients;
        if clients.len() == 1 {
            let client = clients.remove(0);
            return EthereumGateway::Direct(client);
        }
        let ghost all = clients@;
        let urls = &config.eth_client.web3_url;
        let mut multiplexer = MultiplexerEthereumClient::new();
        let mut i: usize = 0;
        while clients.len() > 0
            invariant
                all.len() == urls.len(),
                i + clients.len() == all.len(),
                clients@ == all.skip(i as int),
                multiplexer.spec_clients() == named_clients(urls@.take(i as int), all.take(i as int)),
            decreases clients.len(),
        {
            let client = clients.remove(0);
            let name = urls[i].clone();
            multiplexer = multiplexer.add_client(name, client);
            proof {
                assert(all.skip(i as int)[0] == all[i as int]);
                assert(clients@ =~= all.skip(i + 1));
                assert(named_clients(urls@.take(i + 1), all.take(i + 1)) =~= named_clients(
                    urls@.take(i as int),
                    all.take(i as int),
                ).push((urls@[i as int], all[i as int])));
            }
            i = i + 1;
        }
        proof {
            assert(named_clients(urls@.take(i as int), all.take(i as int)) =~= named_clients(urls@, all));
        }
        EthereumGateway::Multiplexed(multiplexer)
    }

    pub fn get_mut_mock(&mut self) -> (r: Option<&mut M>)
        ensures
            (*old(self) is Mock) <==> r is Some,
            r is None ==> *final(self) == *old(self),
            match *old(self) {
                EthereumGateway::Mock(m) => r matches Some(mock) && *mock == m,
                _ => true,
            },
    {
        match self {
            EthereumGateway::Mock(m) => Some(m),
            _ => None,
        }
    }

    pub fn get_mock(&self) -> (r: Option<&M>)
        ensures
            match *self {
                EthereumGateway::Mock(m) => r == Some(&m),
                _ => r is None,
            },
    {
        match self {
            EthereumGateway::Mock(m) => Some(m),
            _ => None,
        }
    }
}

} // verus!
