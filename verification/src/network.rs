//! The networks that a wallet can be on.

use vstd::prelude::*;

verus! {

#[derive(Clone, Copy, Debug, PartialEq, Eq, Structural)]
pub enum Network {
    Bitcoin,
    Testnet,
    Testnet4,
    Signet,
    Regtest,
}

/// A set of networks: those that an address can be paid on.
#[derive(Clone, Copy, Debug, PartialEq, Eq, Structural)]
pub struct Networks {
    pub bitcoin: bool,
    pub testnet: bool,
    pub testnet4: bool,
    pub signet: bool,
    pub regtest: bool,
}

impl Network {
    /// The name of the network.
    pub open spec fn spec_name(self) -> Seq<char> {
        match self {
            Network::Bitcoin => "bitcoin"@,
            Network::Testnet => "testnet"@,
            Network::Testnet4 => "testnet4"@,
            Network::Signet => "signet"@,
            Network::Regtest => "regtest"@,
        }
    }

    pub fn name(self) -> (r: &'static str)
        ensures
            r@ == self.spec_name(),
    {
        match self {
            Network::Bitcoin => "bitcoin",
            Network::Testnet => "testnet",
            Network::Testnet4 => "testnet4",
            Network::Signet => "signet",
            Network::Regtest => "regtest",
        }
    }
}

impl Networks {
    /// Whether `network` is one of them.
    pub open spec fn has_network(self, network: Network) -> bool {
        match network {
            Network::Bitcoin => self.bitcoin,
            Network::Testnet => self.testnet,
            Network::Testnet4 => self.testnet4,
            Network::Signet => self.signet,
            Network::Regtest => self.regtest,
        }
    }

    pub fn contains(&self, network: Network) -> (r: bool)
        ensures
            r == self.has_network(network),
    {
        match network {
            Network::Bitcoin => self.bitcoin,
            Network::Testnet => self.testnet,
            Network::Testnet4 => self.testnet4,
            Network::Signet => self.signet,
            Network::Regtest => self.regtest,
        }
    }
}

/// The networks have the names by which they are written.
pub proof fn law_names(network: Network, r: &'static str)
    requires
        call_ensures(Network::name, (network,), r),
    ensures
        r@ == network.spec_name(),
        network == Network::Bitcoin ==> r@ == "bitcoin"@,
        network == Network::Testnet ==> r@ == "testnet"@,
        network == Network::Testnet4 ==> r@ == "testnet4"@,
        network == Network::Signet ==> r@ == "signet"@,
        network == Network::Regtest ==> r@ == "regtest"@,
{
}

/// A network is in a set if and only if its own flag is set.
pub proof fn law_networks(networks: Networks, network: Network, r: bool)
    requires
        call_ensures(Networks::contains, (&networks, network), r),
    ensures
        r == networks.has_network(network),
        network == Network::Bitcoin ==> r == networks.bitcoin,
        network == Network::Testnet ==> r == networks.testnet,
        network == Network::Testnet4 ==> r == networks.testnet4,
        network == Network::Signet ==> r == networks.signet,
        network == Network::Regtest ==> r == networks.regtest,
{
}

} // verus!
