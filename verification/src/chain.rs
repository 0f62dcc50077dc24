//! The chain-data interface and the per-network explorer endpoints.

use vstd::prelude::*;

use crate::error::LiquidSdkError;
use crate::model::Network;

verus! {

/// The chain-data service the engine consumes: implementations live at
/// the application edge, where the network calls are made.
pub trait ChainService {
    /// Fetches the raw hex of a transaction by id.
    fn get_transaction_hex(&self, tx_id: &str) -> Result<String, LiquidSdkError>;
}

/// A block-explorer endpoint selector.
#[derive(Clone, Copy, Debug, PartialEq, Eq, Structural)]
pub struct MempoolSpace {
    pub network: Network,
}

impl MempoolSpace {
    pub fn new(network: Network) -> (r: MempoolSpace)
        ensures
            r.network == network,
    {
        MempoolSpace { network }
    }

    /// The explorer base URL of this instance's network.
    pub fn base_url(&self) -> (r: &'static str)
        ensures
            self.network == Network::Mainnet ==> r@ == "https://blockstream.info/liquid"@,
            self.network == Network::Testnet ==> r@ == "https://liquid.network/liquidtestnet"@,
    {
        match self.network {
            Network::Mainnet => "https://blockstream.info/liquid",
            Network::Testnet => "https://liquid.network/liquidtestnet",
        }
    }
}

impl Default for MempoolSpace {
    /// The default endpoint selector points at mainnet.
    fn default() -> (r: MempoolSpace)
        ensures
            r.network == Network::Mainnet,
    {
        MempoolSpace { network: Network::Mainnet }
    }
}

} // verus!
