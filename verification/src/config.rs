use vstd::prelude::*;

verus! {

/// The chain networks the listener can follow.
#[derive(Copy, Clone, PartialEq, Eq, Structural)]
pub enum Networks {
    Testnet,
    Mainnet,
}

/// Process configuration: which network's RPC endpoint to follow.
pub struct Cli {
    pub network: Networks,
}

impl Default for Cli {
    /// The listener follows the test network unless told otherwise.
    fn default() -> (c: Self)
        ensures
            c.network == Networks::Testnet,
    {
        Cli { network: Networks::Testnet }
    }
}

pub open spec fn mainnet_rpc_url() -> Seq<char> {
    "https://rpc.mainnet.near.org"@
}

pub open spec fn testnet_rpc_url() -> Seq<char> {
    "https://rpc.testnet.near.org"@
}

/// The upstream RPC endpoint selected by a network choice.
pub fn rpc_url_for(network: Networks) -> (r: &'static str)
    ensures
        network == Networks::Mainnet ==> r@ == mainnet_rpc_url(),
        network == Networks::Testnet ==> r@ == testnet_rpc_url(),
{
    match network {
        Networks::Mainnet => "https://rpc.mainnet.near.org",
        Networks::Testnet => "https://rpc.testnet.near.org",
    }
}

} // verus!
