//! The chains that the node can run on.
use vstd::prelude::*;

verus! {

/// A Bitcoin network.
#[derive(Clone, Copy, Debug, PartialEq, Eq, Structural)]
pub enum Network {
    /// The main network.
    Bitcoin,
    /// The test network.
    Testnet,
    /// A private network.
    Regtest,
    /// The signed test network.
    Signet,
}

/// The network of a name in the configuration.
pub open spec fn network_named(name: Seq<char>) -> Option<Network> {
    if name == "mainnet"@ {
        Some(Network::Bitcoin)
    } else if name == "testnet"@ {
        Some(Network::Testnet)
    } else if name == "regtest"@ {
        Some(Network::Regtest)
    } else if name == "signet"@ {
        Some(Network::Signet)
    } else {
        None
    }
}

impl Network {
    /// The name that bitcoind gives to the chain of the network.
    pub open spec fn chain(self) -> Seq<char> {
        match self {
            Network::Bitcoin => "main"@,
            Network::Testnet => "test"@,
            Network::Regtest => "regtest"@,
            Network::Signet => "signet"@,
        }
    }

    /// The name that bitcoind gives to the chain of the network.
    pub fn chain_name(&self) -> (r: &'static str)
        ensures
            r@ == self.chain(),
    {
        match self {
            Network::Bitcoin => "main",
            Network::Testnet => "test",
            Network::Regtest => "regtest",
            Network::Signet => "signet",
        }
    }

    /// The name that is shown for the network.
    pub open spec fn shown(self) -> Seq<char> {
        match self {
            Network::Bitcoin => "bitcoin"@,
            Network::Testnet => "testnet"@,
            Network::Regtest => "regtest"@,
            Network::Signet => "signet"@,
        }
    }

    /// The name that is shown for the network.
    pub fn to_text(&self) -> (r: String)
        ensures
            r@ == self.shown(),
    {
        match self {
            Network::Bitcoin => "bitcoin".to_owned(),
            Network::Testnet => "testnet".to_owned(),
            Network::Regtest => "regtest".to_owned(),
            Network::Signet => "signet".to_owned(),
        }
    }
}

/// The networks that can be named in the configuration are told apart: each name has its own
/// network, on the chain that bitcoind calls `main`, `test`, `regtest` or `signet`, and no other name
/// has one.
pub proof fn law_network_names_have_their_chains(a: Seq<char>, b: Seq<char>)
    ensures
        a == "mainnet"@ ==> (network_named(a) matches Some(n) && n.chain() == "main"@),
        a == "testnet"@ ==> (network_named(a) matches Some(n) && n.chain() == "test"@),
        a == "regtest"@ ==> (network_named(a) matches Some(n) && n.chain() == "regtest"@),
        a == "signet"@ ==> (network_named(a) matches Some(n) && n.chain() == "signet"@),
        network_named(a) is Some <==> a == "mainnet"@ || a == "testnet"@ || a == "regtest"@ || a
            == "signet"@,
        network_named(a) is Some && network_named(a) == network_named(b) ==> a == b,
        network_named(a) == Some(Network::Bitcoin) <==> a == "mainnet"@,
        network_named(a) == Some(Network::Testnet) <==> a == "testnet"@,
        network_named(a) == Some(Network::Regtest) <==> a == "regtest"@,
        network_named(a) == Some(Network::Signet) <==> a == "signet"@,
{
    reveal_strlit("mainnet");
    reveal_strlit("testnet");
    reveal_strlit("regtest");
    reveal_strlit("signet");
    assert("mainnet"@[0] == 'm' && "testnet"@[0] == 't' && "regtest"@[0] == 'r' && "signet"@[0]
        == 's');
}

/// Two networks have different chains, and are shown under different names. Every network but the
/// main one is shown under the name that it has in the configuration.
pub proof fn law_networks_are_told_apart(a: Network, b: Network)
    ensures
        a.chain() == b.chain() ==> a == b,
        a.shown() == b.shown() ==> a == b,
        a != Network::Bitcoin ==> network_named(a.shown()) == Some(a),
        a == Network::Bitcoin <==> a.chain() == "main"@,
        a == Network::Bitcoin <==> a.shown() == "bitcoin"@,
{
    reveal_strlit("main");
    reveal_strlit("test");
    reveal_strlit("regtest");
    reveal_strlit("signet");
    reveal_strlit("bitcoin");
    reveal_strlit("mainnet");
    reveal_strlit("testnet");
    assert("main"@[0] == 'm' && "test"@[0] == 't' && "regtest"@[0] == 'r' && "signet"@[0] == 's');
    assert("bitcoin"@[0] == 'b' && "testnet"@[0] == 't' && "mainnet"@[0] == 'm');
}

} // verus!
