//! The configuration file.
use crate::dns_bootstrap::config::DnsBootstrapConfig;
use crate::net::address;
use crate::net::address::{parse_address, AddressView, SocketAddress};
use crate::network;
use crate::network::Network;
use crate::runtime_config::LdkUserInfo;
use crate::text::same;
use vstd::prelude::*;
use vstd::string::StrSliceExecFns;

verus! {

/// Why a configuration cannot be used.
#[derive(Debug)]
pub enum ConfigError {
    /// There is no file at this path.
    FileNotFound(String),
    /// The file cannot be read or understood.
    ParseError(String),
    /// A value is not allowed.
    ValidationError(String),
}

/// A configuration file.
pub struct NodeConfig {
    /// How bitcoind is reached.
    pub bitcoind: BitcoindConfig,
    /// Name of the network.
    pub network: String,
    /// The node itself.
    pub ldk: LdkConfig,
    /// Fetching the network graph from a server.
    pub rapid_gossip_sync: RapidGossipSyncConfig,
    /// Probing, if wanted.
    pub probing: Option<ProbingConfig>,
    /// Peer discovery through DNS, if configured.
    pub dns_bootstrap: Option<DnsBootstrapConfig>,
}

/// How bitcoind is reached.
pub struct BitcoindConfig {
    /// Host.
    pub rpc_host: String,
    /// Port.
    pub rpc_port: u16,
    /// User name.
    pub rpc_username: String,
    /// Password.
    pub rpc_password: String,
}

/// The node itself.
pub struct LdkConfig {
    /// Port that peers connect to.
    pub peer_listening_port: u16,
    /// Name to announce.
    pub announced_node_name: Option<String>,
    /// Addresses to announce.
    pub announced_listen_addr: Vec<String>,
}

/// Fetching the network graph from a server.
pub struct RapidGossipSyncConfig {
    /// Whether it is done.
    pub enabled: bool,
    /// The server, if not the usual one.
    pub url: Option<String>,
    /// Hours between two fetches.
    pub interval_hours: u64,
}

/// Probing.
pub struct ProbingConfig {
    /// Seconds between two rounds.
    pub interval_sec: u64,
    /// Peers to probe.
    pub peers: Vec<String>,
    /// Amounts to probe peers with.
    pub amount_msats: Vec<u64>,
    /// Amount to probe random nodes with.
    pub random_min_amount_msat: u64,
    /// How many random nodes to probe in a round.
    pub random_nodes_per_interval: u64,
    /// Seconds after which a probe is given up.
    pub timeout_sec: u64,
    /// Seconds of rest after a probe.
    pub probe_delay_sec: u64,
    /// Seconds of rest between two peers.
    pub peer_delay_sec: u64,
}

/// The network where none is named.
pub fn default_network() -> (r: String)
    ensures
        r@ == "testnet"@,
{
    "testnet".to_owned()
}

/// The port for peers where none is given.
pub fn default_peer_port() -> (r: u16)
    ensures
        r == 9735,
{
    9735
}

/// What holds of a switch that is on unless it is set off.
pub fn default_true() -> (r: bool)
    ensures
        r,
{
    true
}

/// The hours between two fetches of the network graph where nothing is given.
pub fn default_rgs_interval() -> (r: u64)
    ensures
        r == 6,
{
    6
}

/// The seconds after which a probe is given up where nothing is given.
pub fn default_probe_timeout() -> (r: u64)
    ensures
        r == 60,
{
    60
}

/// The seconds of rest after a probe where nothing is given.
pub fn default_probe_delay() -> (r: u64)
    ensures
        r == 1,
{
    1
}

/// The seconds of rest between two peers where nothing is given.
pub fn default_peer_delay() -> (r: u64)
    ensures
        r == 2,
{
    2
}

/// The amount to probe random nodes with where none is given: random nodes are not probed.
pub fn default_random_min_probe_amount() -> (r: u64)
    ensures
        r == 0,
{
    0
}

/// The number of random nodes to probe in a round where none is given.
pub fn default_random_nodes_per_interval() -> (r: u64)
    ensures
        r == 1,
{
    1
}

impl Default for LdkConfig {
    fn default() -> (r: Self)
        ensures
            r.peer_listening_port == 9735,
            r.announced_node_name is None,
            r.announced_listen_addr@.len() == 0,
    {
        LdkConfig {
            peer_listening_port: default_peer_port(),
            announced_node_name: None,
            announced_listen_addr: Vec::new(),
        }
    }
}

impl Default for RapidGossipSyncConfig {
    fn default() -> (r: Self)
        ensures
            r.enabled,
            r.url is None,
            r.interval_hours == 6,
    {
        RapidGossipSyncConfig { enabled: true, url: None, interval_hours: 6 }
    }
}

/// What came of looking for a configuration file.
pub enum ConfigSource {
    /// There is none.
    Missing,
    /// It could not be read, for this reason.
    Unreadable(String),
    /// It is not a configuration, for this reason.
    Malformed(String),
    /// It holds this configuration.
    Parsed(NodeConfig),
}

/// The path of the configuration file in a data directory.
pub fn config_path(ldk_data_dir: &str) -> (r: String)
    ensures
        r@ == ldk_data_dir@ + "/config.toml"@,
{
    let mut r = ldk_data_dir.to_owned();
    r.append("/config.toml");
    r
}

/// The first text that is no address.
pub open spec fn first_bad_address(addrs: Seq<String>) -> Option<Seq<char>>
    decreases addrs.len(),
{
    if addrs.len() == 0 {
        None
    } else if address::parsed_address(addrs[0]@) is None {
        Some(addrs[0]@)
    } else {
        first_bad_address(addrs.skip(1))
    }
}

/// The addresses of the texts that are addresses, in order.
pub open spec fn good_addresses(addrs: Seq<String>) -> Seq<AddressView>
    decreases addrs.len(),
{
    if addrs.len() == 0 {
        Seq::empty()
    } else {
        match address::parsed_address(addrs.last()@) {
            Some(a) => good_addresses(addrs.drop_last()).push(a),
            None => good_addresses(addrs.drop_last()),
        }
    }
}

/// A name cut or padded with zeros to 32 bytes.
pub open spec fn padded_name(name: Option<String>) -> Seq<u8> {
    Seq::new(
        32,
        |i: int|
            match name {
                Some(n) => if i < vstd::utf8::encode_utf8(n@).len() {
                    vstd::utf8::encode_utf8(n@)[i]
                } else {
                    0
                },
                None => 0,
            },
    )
}

/// Whether `u` are the settings that the configuration `c` stands for, with this storage directory.
pub open spec fn settles(c: NodeConfig, ldk_storage_dir_path: String, u: LdkUserInfo) -> bool {
    &&& u.bitcoind_rpc_username == c.bitcoind.rpc_username
    &&& u.bitcoind_rpc_password == c.bitcoind.rpc_password
    &&& u.bitcoind_rpc_port == c.bitcoind.rpc_port
    &&& u.bitcoind_rpc_host == c.bitcoind.rpc_host
    &&& u.ldk_storage_dir_path == ldk_storage_dir_path
    &&& u.ldk_peer_listening_port == c.ldk.peer_listening_port
    &&& address::address_views(u.ldk_announced_listen_addr@) == good_addresses(
        c.ldk.announced_listen_addr@,
    )
    &&& u.ldk_announced_node_name@ == padded_name(c.ldk.announced_node_name)
    &&& u.network == (match network::network_named(c.network@) {
        Some(n) => n,
        None => Network::Testnet,
    })
    &&& u.rapid_gossip_sync_enabled == c.rapid_gossip_sync.enabled
    &&& u.rapid_gossip_sync_url == c.rapid_gossip_sync.url
    &&& u.rapid_gossip_sync_interval_hours == c.rapid_gossip_sync.interval_hours
    &&& (match c.probing {
        None => u.probing is None,
        Some(p) => u.probing matches Some(q) && q.interval_sec == p.interval_sec && q.peers
            == p.peers && q.amount_msats == p.amount_msats && q.random_min_amount_msat
            == p.random_min_amount_msat && q.random_nodes_per_interval
            == p.random_nodes_per_interval && q.timeout_sec == p.timeout_sec
            && q.probe_delay_sec == p.probe_delay_sec && q.peer_delay_sec
            == p.peer_delay_sec,
    })
    &&& (match c.dns_bootstrap {
        None => u.dns_bootstrap matches Some(d) && d.is_default(),
        Some(d) => u.dns_bootstrap == Some(d),
    })
}

impl NodeConfig {
    /// What is wrong with the configuration, if anything.
    pub open spec fn problem(&self) -> Option<Seq<char>> {
        if network::network_named(self.network@) is None {
            Some(
                "Invalid network '"@ + self.network@
                    + "'. Must be: mainnet, testnet, regtest, signet"@,
            )
        } else if first_bad_address(self.ldk.announced_listen_addr@) is Some {
            Some(
                "Invalid announced address: "@ + first_bad_address(
                    self.ldk.announced_listen_addr@,
                )->0,
            )
        } else if self.ldk.announced_node_name matches Some(name) && vstd::utf8::encode_utf8(
            name@,
        ).len() > 32 {
            Some("Node name cannot exceed 32 bytes"@)
        } else {
            None
        }
    }

    /// The configuration that was found at `config_path`, if it can be used.
    pub fn load(config_path: String, source: ConfigSource) -> (r: Result<NodeConfig, ConfigError>)
        ensures
            match source {
                ConfigSource::Missing => r matches Err(ConfigError::FileNotFound(p)) && p
                    == config_path,
                ConfigSource::Unreadable(e) => r matches Err(ConfigError::ParseError(p)) && p@
                    == "Failed to read config: "@ + e@,
                ConfigSource::Malformed(e) => r matches Err(ConfigError::ParseError(p)) && p@
                    == "Invalid TOML: "@ + e@,
                ConfigSource::Parsed(c) => match c.problem() {
                    None => r == Ok::<NodeConfig, ConfigError>(c),
                    Some(m) => r matches Err(ConfigError::ValidationError(p)) && p@ == m,
                },
            },
    {
        match source {
            ConfigSource::Missing => Err(ConfigError::FileNotFound(config_path)),
            ConfigSource::Unreadable(e) => {
                let mut m = "Failed to read config: ".to_owned();
                m.append(e.as_str());
                Err(ConfigError::ParseError(m))
            },
            ConfigSource::Malformed(e) => {
                let mut m = "Invalid TOML: ".to_owned();
                m.append(e.as_str());
                Err(ConfigError::ParseError(m))
            },
            ConfigSource::Parsed(config) => match config.validate() {
                Ok(()) => Ok(config),
                Err(e) => Err(e),
            },
        }
    }

    /// Checks the values of the configuration.
    pub fn validate(&self) -> (r: Result<(), ConfigError>)
        ensures
            match self.problem() {
                None => r is Ok,
                Some(m) => r matches Err(ConfigError::ValidationError(p)) && p@ == m,
            },
    {
        if named(self.network.as_str()).is_none() {
            let mut m = "Invalid network '".to_owned();
            m.append(self.network.as_str());
            m.append("'. Must be: mainnet, testnet, regtest, signet");
            return Err(ConfigError::ValidationError(m));
        }
        let addrs = &self.ldk.announced_listen_addr;
        let n: usize = addrs.len();
        let mut i: usize = 0;
        assert(addrs@.skip(0) == addrs@);
        while i < n
            invariant
                n == addrs@.len(),
                i <= n,
                *addrs == self.ldk.announced_listen_addr,
                network::network_named(self.network@) is Some,
                first_bad_address(addrs@) == first_bad_address(addrs@.skip(i as int)),
            decreases n - i,
        {
            if parse_address(addrs[i].as_str()).is_none() {
                let mut m = "Invalid announced address: ".to_owned();
                m.append(addrs[i].as_str());
                return Err(ConfigError::ValidationError(m));
            }
            assert(addrs@.skip(i as int).skip(1) == addrs@.skip(i + 1));
            i = i + 1;
        }
        match &self.ldk.announced_node_name {
            Some(name) => if name.as_str().as_bytes().len() > 32 {
                return Err(
                    ConfigError::ValidationError("Node name cannot exceed 32 bytes".to_owned()),
                );
            },
            None => {},
        }
        Ok(())
    }

    /// The network; the test network where the name is not known.
    pub fn get_network(&self) -> (r: Network)
        ensures
            r == (match network::network_named(self.network@) {
                Some(n) => n,
                None => Network::Testnet,
            }),
    {
        match named(self.network.as_str()) {
            Some(n) => n,
            None => Network::Testnet,
        }
    }

    /// The name to announce: its first 32 bytes, padded with zeros.
    pub fn get_announced_node_name(&self) -> (r: [u8; 32])
        ensures
            r@ == padded_name(self.ldk.announced_node_name),
    {
        let mut bytes: [u8; 32] = [0u8;32];
        match &self.ldk.announced_node_name {
            Some(name) => {
                let name_bytes = name.as_str().as_bytes();
                let n: usize = name_bytes.len();
                let mut i: usize = 0;
                while i < 32 && i < n
                    invariant
                        n == name_bytes@.len(),
                        name_bytes@ == vstd::utf8::encode_utf8(name@),
                        i <= 32,
                        i <= n,
                        forall|j: int|
                            0 <= j < 32 ==> bytes@[j] == (if j < i {
                                name_bytes@[j]
                            } else {
                                0
                            }),
                    decreases 32 - i,
                {
                    bytes[i] = name_bytes[i];
                    i = i + 1;
                }
                assert(bytes@ =~= padded_name(self.ldk.announced_node_name));
            },
            None => {
                assert(bytes@ =~= padded_name(self.ldk.announced_node_name));
            },
        }
        bytes
    }

    /// The addresses to announce; what is no address is left out.
    pub fn get_announced_listen_addr(&self) -> (r: Vec<SocketAddress>)
        ensures
            address::address_views(r@) == good_addresses(self.ldk.announced_listen_addr@),
    {
        let addrs = &self.ldk.announced_listen_addr;
        let n: usize = addrs.len();
        let mut r: Vec<SocketAddress> = Vec::new();
        let mut i: usize = 0;
        assert(address::address_views(r@) =~= good_addresses(addrs@.take(0)));
        while i < n
            invariant
                n == addrs@.len(),
                i <= n,
                address::address_views(r@) == good_addresses(addrs@.take(i as int)),
            decreases n - i,
        {
            assert(addrs@.take(i + 1).drop_last() == addrs@.take(i as int));
            let ghost before = r@;
            match parse_address(addrs[i].as_str()) {
                Some(a) => {
                    r.push(a);
                    assert(address::address_views(r@) == address::address_views(before).push(a@));
                },
                None => {},
            }
            i = i + 1;
        }
        assert(addrs@.take(n as int) == addrs@);
        r
    }

    /// The settings that the configuration stands for. Peer discovery through DNS has its default
    /// settings where nothing is configured.
    pub fn into_ldk_user_info(self, ldk_storage_dir_path: String) -> (r: LdkUserInfo)
        ensures
            settles(self, ldk_storage_dir_path, r),
    {
        let announced_listen_addr = self.get_announced_listen_addr();
        let announced_node_name = self.get_announced_node_name();
        let network = self.get_network();
        let probing = match self.probing {
            Some(p) => Some(
                crate::runtime_config::ProbingConfig {
                    interval_sec: p.interval_sec,
                    peers: p.peers,
                    amount_msats: p.amount_msats,
                    random_min_amount_msat: p.random_min_amount_msat,
                    random_nodes_per_interval: p.random_nodes_per_interval,
                    timeout_sec: p.timeout_sec,
                    probe_delay_sec: p.probe_delay_sec,
                    peer_delay_sec: p.peer_delay_sec,
                },
            ),
            None => None,
        };
        let dns_bootstrap = match self.dns_bootstrap {
            Some(d) => d,
            None => DnsBootstrapConfig::default(),
        };
        LdkUserInfo {
            bitcoind_rpc_username: self.bitcoind.rpc_username,
            bitcoind_rpc_password: self.bitcoind.rpc_password,
            bitcoind_rpc_port: self.bitcoind.rpc_port,
            bitcoind_rpc_host: self.bitcoind.rpc_host,
            ldk_storage_dir_path,
            ldk_peer_listening_port: self.ldk.peer_listening_port,
            ldk_announced_listen_addr: announced_listen_addr,
            ldk_announced_node_name: announced_node_name,
            network,
            rapid_gossip_sync_enabled: self.rapid_gossip_sync.enabled,
            rapid_gossip_sync_url: self.rapid_gossip_sync.url,
            rapid_gossip_sync_interval_hours: self.rapid_gossip_sync.interval_hours,
            probing,
            dns_bootstrap: Some(dns_bootstrap),
        }
    }
}

fn named(name: &str) -> (r: Option<Network>)
    ensures
        r == network::network_named(name@),
{
    if same(name, "mainnet") {
        Some(Network::Bitcoin)
    } else if same(name, "testnet") {
        Some(Network::Testnet)
    } else if same(name, "regtest") {
        Some(Network::Regtest)
    } else if same(name, "signet") {
        Some(Network::Signet)
    } else {
        None
    }
}

/// A configuration that loads announces every address it names, under a name that is not cut.
pub proof fn law_valid_config_announces_all(c: NodeConfig)
    requires
        c.problem() is None,
    ensures
        good_addresses(c.ldk.announced_listen_addr@).len() == c.ldk.announced_listen_addr@.len(),
        network::network_named(c.network@) is Some,
        c.ldk.announced_node_name matches Some(n) ==> padded_name(
            c.ldk.announced_node_name,
        ).take(vstd::utf8::encode_utf8(n@).len() as int) == vstd::utf8::encode_utf8(n@),
{
    lemma_all_good(c.ldk.announced_listen_addr@);
    if let Some(n) = c.ldk.announced_node_name {
        assert(padded_name(c.ldk.announced_node_name).take(
            vstd::utf8::encode_utf8(n@).len() as int,
        ) =~= vstd::utf8::encode_utf8(n@));
    }
}

proof fn lemma_no_bad(addrs: Seq<String>, i: int)
    requires
        first_bad_address(addrs) is None,
        0 <= i < addrs.len(),
    ensures
        address::parsed_address(addrs[i]@) is Some,
    decreases addrs.len(),
{
    if i > 0 {
        lemma_no_bad(addrs.skip(1), i - 1);
        assert(addrs.skip(1)[i - 1] == addrs[i]);
    }
}

proof fn lemma_all_good(addrs: Seq<String>)
    requires
        first_bad_address(addrs) is None,
    ensures
        good_addresses(addrs).len() == addrs.len(),
{
    assert forall|i: int| 0 <= i < addrs.len() implies address::parsed_address(
        (#[trigger] addrs[i])@,
    ) is Some by {
        lemma_no_bad(addrs, i);
    }
    lemma_good_len(addrs);
}

proof fn lemma_good_len(addrs: Seq<String>)
    requires
        forall|i: int|
            0 <= i < addrs.len() ==> address::parsed_address((#[trigger] addrs[i])@) is Some,
    ensures
        good_addresses(addrs).len() == addrs.len(),
    decreases addrs.len(),
{
    if addrs.len() > 0 {
        let t = addrs.drop_last();
        assert forall|i: int| 0 <= i < t.len() implies address::parsed_address(
            (#[trigger] t[i])@,
        ) is Some by {
            assert(t[i] == addrs[i]);
        }
        lemma_good_len(t);
    }
}

/// A configuration can be used exactly if it names one of the four networks, every address to announce
/// is one, and the name to announce has at most 32 bytes. What is wrong is said in this order, and a bad
/// network or address is named.
pub proof fn law_what_makes_a_config_valid(c: NodeConfig)
    ensures
        c.problem() is None <==> {
            &&& c.network@ == "mainnet"@ || c.network@ == "testnet"@ || c.network@ == "regtest"@
                || c.network@ == "signet"@
            &&& forall|i: int|
                0 <= i < c.ldk.announced_listen_addr@.len() ==> address::parsed_address(
                    (#[trigger] c.ldk.announced_listen_addr@[i])@,
                ) is Some
            &&& c.ldk.announced_node_name matches Some(n) ==> vstd::utf8::encode_utf8(n@).len()
                <= 32
        },
        network::network_named(c.network@) is None ==> c.problem() == Some(
            "Invalid network '"@ + c.network@ + "'. Must be: mainnet, testnet, regtest, signet"@,
        ),
        forall|i: int|
            network::network_named(c.network@) is Some && 0 <= i
                < c.ldk.announced_listen_addr@.len() && address::parsed_address(
                (#[trigger] c.ldk.announced_listen_addr@[i])@,
            ) is None && (forall|j: int|
                0 <= j < i ==> address::parsed_address(
                    (#[trigger] c.ldk.announced_listen_addr@[j])@,
                ) is Some) ==> c.problem() == Some(
                "Invalid announced address: "@ + c.ldk.announced_listen_addr@[i]@,
            ),
{
    network::law_network_names_have_their_chains(c.network@, c.network@);
    let addrs = c.ldk.announced_listen_addr@;
    lemma_bad_exists(addrs);
    if first_bad_address(addrs) is None {
        assert forall|i: int| 0 <= i < addrs.len() implies address::parsed_address(
            (#[trigger] addrs[i])@,
        ) is Some by {
            lemma_no_bad(addrs, i);
        }
    }
    assert forall|i: int|
        0 <= i < addrs.len() && address::parsed_address((#[trigger] addrs[i])@) is None && (
        forall|j: int|
            0 <= j < i ==> address::parsed_address(
                (#[trigger] addrs[j])@,
            ) is Some) implies first_bad_address(addrs) == Some(addrs[i]@) by {
        lemma_first_bad(addrs, i);
    }
}

proof fn lemma_bad_exists(addrs: Seq<String>)
    ensures
        first_bad_address(addrs) is Some ==> exists|i: int|
            0 <= i < addrs.len() && address::parsed_address((#[trigger] addrs[i])@) is None,
    decreases addrs.len(),
{
    if addrs.len() > 0 && address::parsed_address(addrs[0]@) is Some {
        lemma_bad_exists(addrs.skip(1));
        if first_bad_address(addrs) is Some {
            let i = choose|i: int|
                0 <= i < addrs.skip(1).len() && address::parsed_address(
                    (#[trigger] addrs.skip(1)[i])@,
                ) is None;
            assert(addrs.skip(1)[i] == addrs[i + 1]);
        }
    }
}

proof fn lemma_first_bad(addrs: Seq<String>, i: int)
    requires
        0 <= i < addrs.len(),
        address::parsed_address(addrs[i]@) is None,
        forall|j: int| 0 <= j < i ==> address::parsed_address((#[trigger] addrs[j])@) is Some,
    ensures
        first_bad_address(addrs) == Some(addrs[i]@),
    decreases addrs.len(),
{
    if i > 0 {
        assert(address::parsed_address(addrs[0]@) is Some);
        let t = addrs.skip(1);
        assert(t[i - 1] == addrs[i]);
        assert forall|j: int| 0 <= j < i - 1 implies address::parsed_address(
            (#[trigger] t[j])@,
        ) is Some by {
            assert(t[j] == addrs[j + 1]);
        }
        lemma_first_bad(t, i - 1);
    }
}

/// The settings of a node are those of its configuration, value by value, on the network that the
/// configuration names; the storage directory is the one that is given. An unknown network stands for
/// the test network.
pub proof fn law_settings_are_the_configured_ones(
    c: NodeConfig,
    ldk_storage_dir_path: String,
    u: LdkUserInfo,
)
    requires
        settles(c, ldk_storage_dir_path, u),
    ensures
        c.network@ == "mainnet"@ ==> u.network.chain() == "main"@,
        c.network@ == "testnet"@ ==> u.network.chain() == "test"@,
        c.network@ == "regtest"@ ==> u.network.chain() == "regtest"@,
        c.network@ == "signet"@ ==> u.network.chain() == "signet"@,
        network::network_named(c.network@) is None ==> u.network.chain() == "test"@,
        u.bitcoind_rpc_host@ == c.bitcoind.rpc_host@,
        u.bitcoind_rpc_port == c.bitcoind.rpc_port,
        u.bitcoind_rpc_username@ == c.bitcoind.rpc_username@,
        u.bitcoind_rpc_password@ == c.bitcoind.rpc_password@,
        u.ldk_storage_dir_path@ == ldk_storage_dir_path@,
        u.ldk_peer_listening_port == c.ldk.peer_listening_port,
        u.ldk_announced_listen_addr@.len() == good_addresses(c.ldk.announced_listen_addr@).len(),
        u.rapid_gossip_sync_enabled == c.rapid_gossip_sync.enabled,
        u.rapid_gossip_sync_interval_hours == c.rapid_gossip_sync.interval_hours,
        u.rapid_gossip_sync_url is Some <==> c.rapid_gossip_sync.url is Some,
        c.rapid_gossip_sync.url matches Some(url) ==> (u.rapid_gossip_sync_url->0)@ == url@,
        u.probing is Some <==> c.probing is Some,
        c.probing matches Some(p) ==> {
            let q = u.probing->0;
            &&& q.interval_sec == p.interval_sec
            &&& q.timeout_sec == p.timeout_sec
            &&& q.probe_delay_sec == p.probe_delay_sec
            &&& q.peer_delay_sec == p.peer_delay_sec
            &&& q.random_min_amount_msat == p.random_min_amount_msat
            &&& q.random_nodes_per_interval == p.random_nodes_per_interval
            &&& q.peers@ == p.peers@
            &&& q.amount_msats@ == p.amount_msats@
        },
        u.dns_bootstrap is Some,
        c.dns_bootstrap matches Some(d) ==> (u.dns_bootstrap->0).enabled == d.enabled && (
        u.dns_bootstrap->0).seeds@ == d.seeds@ && (u.dns_bootstrap->0).num_peers == d.num_peers && (
        u.dns_bootstrap->0).interval_secs == d.interval_secs && (u.dns_bootstrap->0).timeout_secs
            == d.timeout_secs,
        c.dns_bootstrap is None ==> (u.dns_bootstrap->0).enabled && (
        u.dns_bootstrap->0).seeds@.len() > 0,
{
    network::law_network_names_have_their_chains(c.network@, c.network@);
    assert(address::address_views(u.ldk_announced_listen_addr@).len()
        == u.ldk_announced_listen_addr@.len());
}

/// The announced name fills 32 bytes: the bytes of the name come first, as far as there is room, and
/// zeros follow.
pub proof fn law_announced_name_is_padded(name: Option<String>, i: int)
    requires
        0 <= i < 32,
    ensures
        padded_name(name).len() == 32,
        name is None ==> padded_name(name)[i] == 0,
        name matches Some(n) ==> i < vstd::utf8::encode_utf8(n@).len() ==> padded_name(name)[i]
            == vstd::utf8::encode_utf8(n@)[i],
        name matches Some(n) ==> i >= vstd::utf8::encode_utf8(n@).len() ==> padded_name(name)[i]
            == 0,
{
}

/// The addresses to announce are, in order, those of the texts that are addresses: one more text adds
/// its address at the end if it is one, and nothing otherwise.
pub proof fn law_announced_addresses_keep_their_order(addrs: Seq<String>, next: String)
    ensures
        good_addresses(Seq::<String>::empty()).len() == 0,
        address::parsed_address(next@) matches Some(a) ==> good_addresses(addrs.push(next))
            == good_addresses(addrs).push(a),
        address::parsed_address(next@) is None ==> good_addresses(addrs.push(next))
            == good_addresses(addrs),
{
    assert(addrs.push(next).drop_last() =~= addrs);
}

} // verus!
