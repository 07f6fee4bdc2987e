//! Configuration of the DNS bootstrap.
use vstd::prelude::*;

verus! {

/// Configuration of peer discovery through DNS seeds.
#[derive(Debug)]
pub struct DnsBootstrapConfig {
    /// Whether DNS bootstrap is enabled.
    pub enabled: bool,
    /// DNS seed servers to query.
    pub seeds: Vec<String>,
    /// Timeout of a DNS query in seconds.
    pub timeout_secs: u64,
    /// How many peers a bootstrap round aims at.
    pub num_peers: usize,
    /// Interval between bootstrap rounds in seconds.
    pub interval_secs: u64,
}

/// Whether DNS bootstrap is enabled where nothing is said of it.
pub fn default_enabled() -> (r: bool)
    ensures
        r,
{
    true
}

/// The seeds that are asked where none are named.
pub fn default_seeds() -> (r: Vec<String>)
    ensures
        r@.len() == 2,
        r@[0]@ == "nodes.lightning.wiki"@,
        r@[1]@ == "lseed.bitcoinstats.com"@,
{
    let mut r: Vec<String> = Vec::new();
    r.push("nodes.lightning.wiki".to_owned());
    r.push("lseed.bitcoinstats.com".to_owned());
    r
}

/// The timeout in seconds where none is given.
pub fn default_timeout_secs() -> (r: u64)
    ensures
        r == 30,
{
    30
}

/// The number of peers aimed at where none is given.
pub fn default_num_peers() -> (r: usize)
    ensures
        r == 10,
{
    10
}

/// The interval in seconds where none is given.
pub fn default_interval_secs() -> (r: u64)
    ensures
        r == 300,
{
    300
}

impl DnsBootstrapConfig {
    /// Whether all values are those that hold where nothing is configured.
    pub open spec fn is_default(&self) -> bool {
        &&& self.enabled
        &&& self.seeds@.len() == 2
        &&& self.seeds@[0]@ == "nodes.lightning.wiki"@
        &&& self.seeds@[1]@ == "lseed.bitcoinstats.com"@
        &&& self.timeout_secs == 30
        &&& self.num_peers == 10
        &&& self.interval_secs == 300
    }
}

impl Default for DnsBootstrapConfig {
    fn default() -> (r: Self)
        ensures
            r.is_default(),
    {
        DnsBootstrapConfig {
            enabled: default_enabled(),
            seeds: default_seeds(),
            timeout_secs: default_timeout_secs(),
            num_peers: default_num_peers(),
            interval_secs: default_interval_secs(),
        }
    }
}

} // verus!
