//! What the node runs with, once its configuration has been checked.
use crate::dns_bootstrap::config::DnsBootstrapConfig;
use crate::net::address::SocketAddress;
use crate::network::Network;
use vstd::prelude::*;

verus! {

/// What is probed, how often, and with what amounts.
#[derive(Clone, Debug)]
pub struct ProbingConfig {
    /// Seconds between two rounds.
    pub interval_sec: u64,
    /// Peers to probe, as `pubkey@host:port` or `pubkey`.
    pub peers: Vec<String>,
    /// Amounts to probe peers with.
    pub amount_msats: Vec<u64>,
    /// Amount to probe random nodes with.
    pub random_min_amount_msat: u64,
    /// How many random nodes to probe in a round.
    pub random_nodes_per_interval: u64,
    /// Seconds after which a probe is given up.
    pub timeout_sec: u64,
    /// Seconds of rest after a probe.
    pub probe_delay_sec: u64,
    /// Seconds of rest between two peers.
    pub peer_delay_sec: u64,
}

/// The settings of a node.
pub struct LdkUserInfo {
    /// User name for bitcoind.
    pub bitcoind_rpc_username: String,
    /// Password for bitcoind.
    pub bitcoind_rpc_password: String,
    /// Port of bitcoind.
    pub bitcoind_rpc_port: u16,
    /// Host of bitcoind.
    pub bitcoind_rpc_host: String,
    /// Directory that holds the node's data directory.
    pub ldk_storage_dir_path: String,
    /// Port that peers connect to.
    pub ldk_peer_listening_port: u16,
    /// Addresses that the node announces.
    pub ldk_announced_listen_addr: Vec<SocketAddress>,
    /// Name that the node announces, padded with zeros.
    pub ldk_announced_node_name: [u8; 32],
    /// Network that the node runs on.
    pub network: Network,
    /// Whether the network graph is fetched from a server.
    pub rapid_gossip_sync_enabled: bool,
    /// The server, if not the usual one.
    pub rapid_gossip_sync_url: Option<String>,
    /// Hours between two fetches.
    pub rapid_gossip_sync_interval_hours: u64,
    /// What is probed, if anything.
    pub probing: Option<ProbingConfig>,
    /// How peers are found through DNS, if they are.
    pub dns_bootstrap: Option<DnsBootstrapConfig>,
}

} // verus!
