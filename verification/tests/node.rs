//! Tests of how the node starts, runs and stops.
use ldk_sample::args::{
    failure_messages, ldk_data_dir, parse_startup_args, startup_settings, StartupArgsError,
};
use ldk_sample::config::{
    config_path, BitcoindConfig, ConfigError, ConfigSource, LdkConfig, NodeConfig, ProbingConfig,
    RapidGossipSyncConfig,
};
use ldk_sample::dns_bootstrap::config::DnsBootstrapConfig;
use ldk_sample::events::handler::{
    accepted_channel_message, handle_ldk_events, unsaved_by, unsaved_message, EventAction,
    EventResponse, Hop, HopNode, NodeEvent, PaymentPurpose, Unsaved,
};
use ldk_sample::hex_utils::hex_str;
use ldk_sample::keys::PublicKey;
use ldk_sample::logging::Level;
use ldk_sample::migration::{advance_migration, MigrationEvent, MigrationStep};
use ldk_sample::net::address::{non_onion, SocketAddress};
use ldk_sample::net::peer::{
    advance_connecting, connect_peer_if_necessary, do_connect_peer, ConnectError, ConnectEvent,
    Connecting,
};
use ldk_sample::network::Network;
use ldk_sample::probing::tracker::ProbeOutcome;
use ldk_sample::rapid_sync::{
    bad_status_error, choose_sync_url, download_with_retry, load_last_sync_timestamp,
    rest_or_error, snapshot_url, sync_applied, sync_downloaded, sync_network_graph, sync_saved,
    timestamp_path, timestamp_text, Attempt, AttemptStep, Download, Progress, RapidSyncError,
    RetryStep, Syncing, TimestampSource, DEFAULT_RAPID_SYNC_URL,
    DOWNLOAD_TIMEOUT_SECS,
};
use ldk_sample::startup::{
    announces, announces_node, background_stopped, choose_seed, dns_bootstrap_message,
    keys_seed_path, manager_time, rapid_sync_interval_secs, rapid_sync_message, rapid_sync_plan,
    reconnect_peer, start_ldk, ChainPolling, ManagerReply, PollFailure, RapidSyncPlan, Reconnect,
    ResolverReply, SeedFailure, StartupEvent, StartupStep, SweeperReply,
};
use ldk_sample::state::{HTLCStatus, InboundPaymentInfoStorage, OutboundPaymentInfoStorage};
use ldk_sample::sweep::{
    aborted_message, best_effort_remove_dir, concatenate_processing_outputs, entry_path, is_moved,
    migrate_deprecated_spendable_outputs, migrated_message, pending_listed, processing_listed,
    read_outputs_from_file, spendable_listed, tracked_from,
    try_migrate_deprecated_spendable_outputs, unmarked_message, DirReply, Layout, Plan, Removal,
    SweepMigrationError,
};
use lightning::chain::transaction::OutPoint;
use lightning::sign::SpendableOutputDescriptor;
use lightning::util::ser::{Readable, Writeable};

const KEY: &str = "02e89ca9e8da72b33d896bae51d20e7e1f0571cece852d1387b4e2f4ae48c80a85";

fn key() -> PublicKey {
    PublicKey::from_text(KEY).unwrap()
}

fn config() -> NodeConfig {
    NodeConfig {
        bitcoind: BitcoindConfig {
            rpc_host: "127.0.0.1".to_string(),
            rpc_port: 8332,
            rpc_username: "user".to_string(),
            rpc_password: "password".to_string(),
        },
        network: "regtest".to_string(),
        ldk: LdkConfig::default(),
        rapid_gossip_sync: RapidGossipSyncConfig::default(),
        probing: None,
        dns_bootstrap: None,
    }
}

#[test]
fn the_first_argument_is_the_storage_directory() {
    let args = vec!["ldk".to_string(), "/tmp/node".to_string()];
    let dir = parse_startup_args(&args).ok().unwrap();
    assert_eq!(dir, "/tmp/node");
    assert_eq!(ldk_data_dir(&dir), "/tmp/node/.ldk");
    assert_eq!(config_path(&ldk_data_dir(&dir)), "/tmp/node/.ldk/config.toml");
    let e = parse_startup_args(&vec!["ldk".to_string()]).err().unwrap();
    assert_eq!(e.to_text(), "missing storage directory argument");
    let said = failure_messages(&e, &vec!["ldk".to_string()]);
    assert_eq!(said[0].text, "Usage: ldk <ldk_storage_directory_path>");
    assert_eq!(
        failure_messages(&e, &vec![])[0].text,
        "Usage: ldk-sample <ldk_storage_directory_path>"
    );
    let e = StartupArgsError::CreateDataDir { path: "p".to_string(), source: "s".to_string() };
    let said = failure_messages(&e, &args);
    assert_eq!(said.len(), 1);
    assert_eq!(said[0].text, "ERROR: failed to create LDK data directory p: s");
    let e = StartupArgsError::Config(ConfigError::ParseError("x".to_string()));
    assert_eq!(failure_messages(&e, &args).len(), 2);
    let e = StartupArgsError::Config(ConfigError::ValidationError("x".to_string()));
    assert_eq!(failure_messages(&e, &args).len(), 1);
}

#[test]
fn configurations_are_checked() {
    let load = |source| NodeConfig::load("c".to_string(), source);
    assert!(matches!(load(ConfigSource::Missing), Err(ConfigError::FileNotFound(p)) if p == "c"));
    assert!(matches!(
        load(ConfigSource::Unreadable("e".to_string())),
        Err(ConfigError::ParseError(m)) if m == "Failed to read config: e"
    ));
    assert!(matches!(
        load(ConfigSource::Malformed("e".to_string())),
        Err(ConfigError::ParseError(m)) if m == "Invalid TOML: e"
    ));
    assert!(load(ConfigSource::Parsed(config())).is_ok());
    let mut bad = config();
    bad.network = "moon".to_string();
    assert!(matches!(
        load(ConfigSource::Parsed(bad)),
        Err(ConfigError::ValidationError(m))
            if m == "Invalid network 'moon'. Must be: mainnet, testnet, regtest, signet"
    ));
    let mut bad = config();
    bad.ldk.announced_listen_addr = vec!["127.0.0.1:9735".to_string(), "nowhere".to_string()];
    assert!(matches!(
        load(ConfigSource::Parsed(bad)),
        Err(ConfigError::ValidationError(m)) if m == "Invalid announced address: nowhere"
    ));
    let mut bad = config();
    bad.ldk.announced_node_name = Some("x".repeat(33));
    assert!(matches!(
        load(ConfigSource::Parsed(bad)),
        Err(ConfigError::ValidationError(m)) if m == "Node name cannot exceed 32 bytes"
    ));
}

#[test]
fn configurations_become_settings() {
    let mut c = config();
    c.ldk.announced_node_name = Some("MyNode".to_string());
    c.ldk.announced_listen_addr = vec!["127.0.0.1:9735".to_string()];
    c.probing = Some(ProbingConfig {
        interval_sec: 300,
        peers: vec!["p".to_string()],
        amount_msats: vec![1],
        random_min_amount_msat: 2,
        random_nodes_per_interval: 3,
        timeout_sec: 4,
        probe_delay_sec: 5,
        peer_delay_sec: 6,
    });
    let info = c.into_ldk_user_info("/s".to_string());
    assert_eq!(info.network, Network::Regtest);
    assert_eq!(info.ldk_peer_listening_port, 9735);
    assert_eq!(&info.ldk_announced_node_name[..7], b"MyNode\0");
    assert_eq!(
        info.ldk_announced_listen_addr,
        vec![SocketAddress::TcpIpV4 { addr: [127, 0, 0, 1], port: 9735 }]
    );
    assert!(info.rapid_gossip_sync_enabled);
    assert_eq!(info.rapid_gossip_sync_interval_hours, 6);
    assert_eq!(info.probing.unwrap().peer_delay_sec, 6);
    let dns = info.dns_bootstrap.unwrap();
    assert!(dns.enabled);
    assert_eq!(dns.seeds, DnsBootstrapConfig::default().seeds);
    assert_eq!((dns.timeout_secs, dns.num_peers, dns.interval_secs), (30, 10, 300));
}

#[test]
fn onion_addresses_are_left_out() {
    let addrs = vec![
        SocketAddress::OnionV2([0; 12]),
        SocketAddress::Hostname { hostname: "h".to_string(), port: 1 },
        SocketAddress::TcpIpV6 { addr: [0; 16], port: 2 },
    ];
    assert_eq!(non_onion(&addrs).len(), 2);
}

#[test]
fn a_peer_is_connected_once_it_is_seen() {
    assert_eq!(connect_peer_if_necessary(true), Connecting::Done(Ok(())));
    assert_eq!(connect_peer_if_necessary(false), do_connect_peer());
    let s = advance_connecting(Connecting::Dial, ConnectEvent::Dialled { open: true });
    assert_eq!(s, Connecting::Handshake);
    let s = advance_connecting(s, ConnectEvent::Slept);
    let s = advance_connecting(s, ConnectEvent::Looked { connected: false });
    assert_eq!(s, Connecting::Handshake);
    let closed = advance_connecting(s, ConnectEvent::Closed);
    assert_eq!(closed, Connecting::Done(Err(ConnectError::ConnectionClosed)));
    let s = advance_connecting(s, ConnectEvent::Slept);
    let s = advance_connecting(s, ConnectEvent::Looked { connected: true });
    assert_eq!(s, Connecting::Done(Ok(())));
    assert_eq!(
        advance_connecting(Connecting::Dial, ConnectEvent::Dialled { open: false }),
        Connecting::Done(Err(ConnectError::ConnectionFailed))
    );
    assert_eq!(
        ConnectError::ConnectionFailed.to_text(),
        "failed to initiate outbound connection"
    );
}

fn good_events(restarting: bool) -> Vec<StartupEvent> {
    let mut events = vec![
        StartupEvent::LogOpened(Ok(())),
        StartupEvent::Connected(Ok(())),
        StartupEvent::Chain(Ok("regtest".to_string())),
        StartupEvent::Seed(Some(vec![0; 32])),
        StartupEvent::Clock(Ok(1)),
        StartupEvent::Monitors(Ok(())),
        StartupEvent::Tip(Ok(())),
        StartupEvent::Manager(if restarting { ManagerReply::Found } else { ManagerReply::Missing }),
        StartupEvent::Sweeper(SweeperReply::Missing),
    ];
    if restarting {
        events.push(StartupEvent::Synchronized(Ok(())));
    }
    events.push(StartupEvent::Loaded(Ok(())));
    events.push(StartupEvent::Gossip(RapidSyncPlan::PeersOnly));
    events.push(StartupEvent::Resolver(ResolverReply::Found));
    events.push(StartupEvent::Clock(Ok(u32::MAX as u64)));
    events.push(StartupEvent::PaymentsSaved(Ok(())));
    events
}

#[test]
fn the_node_starts_step_by_step() {
    for restarting in [false, true] {
        let mut step = StartupStep::OpenLog;
        for event in good_events(restarting) {
            let (next, said) = start_ldk(step, &event, Network::Regtest, "/d");
            assert!(said.is_none());
            assert_ne!(next, step);
            step = next;
        }
        assert_eq!(step, StartupStep::Run);
    }
}

#[test]
fn the_node_stops_if_a_step_fails() {
    let err = || Err("e".to_string());
    let failures = vec![
        (
            StartupStep::OpenLog,
            StartupEvent::LogOpened(err()),
            "ERROR: Failed to initialise filesystem logger at /d/logs: e",
        ),
        (
            StartupStep::Connect,
            StartupEvent::Connected(err()),
            "Failed to connect to bitcoind client: e",
        ),
        (
            StartupStep::AskChain,
            StartupEvent::Chain(Err("e".to_string())),
            "Failed to fetch bitcoind chain info: e",
        ),
        (
            StartupStep::AskChain,
            StartupEvent::Chain(Ok("main".to_string())),
            "Chain argument (testnet) didn't match bitcoind chain (main)",
        ),
        (
            StartupStep::ReadSeed,
            StartupEvent::Seed(Some(vec![0; 31])),
            "Invalid keys seed length in /d/keys_seed. Expected 32 bytes, found 31.",
        ),
        (
            StartupStep::WriteSeed,
            StartupEvent::SeedWritten(Err(SeedFailure::Create("e".to_string()))),
            "Unable to create keys seed file /d/keys_seed: e",
        ),
        (
            StartupStep::WriteSeed,
            StartupEvent::SeedWritten(Err(SeedFailure::Write("e".to_string()))),
            "Failed to write node keys seed to disk: e",
        ),
        (
            StartupStep::WriteSeed,
            StartupEvent::SeedWritten(Err(SeedFailure::Sync("e".to_string()))),
            "Failed to sync node keys seed to disk: e",
        ),
        (
            StartupStep::ReadClock,
            StartupEvent::Clock(Err("e".to_string())),
            "System clock appears to be before UNIX_EPOCH: e",
        ),
        (
            StartupStep::ReadMonitors,
            StartupEvent::Monitors(err()),
            "Failed to read channel monitors from disk: e",
        ),
        (
            StartupStep::FetchTip,
            StartupEvent::Tip(err()),
            "Failed to fetch best block header and best block: e",
        ),
        (
            StartupStep::ReadManager,
            StartupEvent::Manager(ManagerReply::Malformed("e".to_string())),
            "Failed to deserialize channel manager: e",
        ),
        (
            StartupStep::ReadSweeper { restarting: true },
            StartupEvent::Sweeper(SweeperReply::Malformed("e".to_string())),
            "Failed to deserialize OutputSweeper: e",
        ),
        (
            StartupStep::ReadSweeper { restarting: false },
            StartupEvent::Sweeper(SweeperReply::Unreadable("e".to_string())),
            "Failed to read OutputSweeper: e",
        ),
        (
            StartupStep::Synchronize,
            StartupEvent::Synchronized(err()),
            "Failed to synchronize chain listeners: e",
        ),
        (
            StartupStep::LoadMonitors,
            StartupEvent::Loaded(err()),
            "Failed to load existing monitor for channel e",
        ),
        (
            StartupStep::FindResolver,
            StartupEvent::Resolver(ResolverReply::NoAddress),
            "Resolver address lookup returned no addresses",
        ),
        (
            StartupStep::FindResolver,
            StartupEvent::Resolver(ResolverReply::Failed("e".to_string())),
            "Failed to resolve default DNS resolver: e",
        ),
        (
            StartupStep::ReadPeerClock,
            StartupEvent::Clock(Ok(u32::MAX as u64 + 1)),
            "Current timestamp does not fit expected peer-manager type",
        ),
        (
            StartupStep::SavePayments,
            StartupEvent::PaymentsSaved(err()),
            "Failed to persist outbound payments: e",
        ),
    ];
    for (step, event, text) in failures {
        let (next, said) = start_ldk(step, &event, Network::Testnet, "/d");
        assert_eq!(next, StartupStep::Stop);
        assert_eq!(said.unwrap().text, text);
    }
    let event = StartupEvent::LogOpened(Ok(()));
    let (next, said) = start_ldk(StartupStep::ReadSeed, &event, Network::Testnet, "/d");
    assert_eq!(next, StartupStep::ReadSeed);
    assert!(said.is_none());
}

#[test]
fn the_seed_is_kept_or_drawn() {
    assert_eq!(keys_seed_path("/d"), "/d/keys_seed");
    assert_eq!(choose_seed(&Some(vec![7; 32])), Some(([7; 32], false)));
    assert_eq!(choose_seed(&Some(vec![7; 33])), None);
    let (first, fresh) = choose_seed(&None).unwrap();
    assert!(fresh);
    assert_ne!(first, choose_seed(&None).unwrap().0);
    assert_eq!(manager_time(5), 5);
    assert_eq!(manager_time(0x1_0000_0002), 2);
}

#[test]
fn the_chain_is_looked_at_less_often_after_failures() {
    let mut polling = ChainPolling::new();
    let mut rests = Vec::new();
    for _ in 0..7 {
        rests.push(polling.failed(PollFailure::Transient, "e").0);
    }
    assert_eq!(rests, vec![1, 2, 4, 8, 16, 30, 30]);
    assert_eq!(polling.polled(), 1);
    let (rest, said) = polling.failed(PollFailure::Persistent, "e");
    assert_eq!(rest, 1);
    assert_eq!(said.text, "SPV poll_best_tip persistent error: e. Retrying in 1s");
    assert_eq!(said.level, Level::Error);
}

#[test]
fn peers_of_channels_are_connected_again() {
    assert_eq!(reconnect_peer(false, false), Reconnect::Connect);
    assert_eq!(reconnect_peer(false, true), Reconnect::Stop);
    assert_eq!(reconnect_peer(true, false), Reconnect::Skip);
    assert_eq!(reconnect_peer(true, true), Reconnect::Skip);
    assert!(announces(&vec![false, true]));
    assert!(!announces(&vec![false]));
    let mut name = [0; 32];
    assert!(!announces_node(&vec![true], &name, 0));
    assert!(announces_node(&vec![true], &name, 1));
    name[31] = 1;
    assert!(announces_node(&vec![true], &name, 0));
    assert!(!announces_node(&vec![false], &name, 1));
    assert_eq!(rapid_sync_interval_secs(6), 21600);
    assert_eq!(
        rapid_sync_message(true, &None).text,
        "Initializing RapidGossipSync with URL: default"
    );
    assert_eq!(
        rapid_sync_message(false, &None).text,
        "RapidGossipSync disabled by configuration"
    );
    assert_eq!(
        dns_bootstrap_message(2, 10, 300).text,
        "DNS bootstrap enabled: 2 seeds, target 10 peers, interval 300s"
    );
    let (first, second) = background_stopped(Err("e".to_string()), "f");
    assert_eq!(first.text, "Last-ditch ChannelManager persistence failed: e");
    assert_eq!(second.text, "ERR: background processing stopped: f");
}

fn handle(
    inbound: &mut InboundPaymentInfoStorage, outbound: &mut OutboundPaymentInfoStorage,
    event: NodeEvent,
) -> EventResponse {
    handle_ldk_events(inbound, outbound, &event)
}

#[test]
fn payments_to_this_node_are_claimed() {
    let mut inbound = InboundPaymentInfoStorage::new();
    let mut outbound = OutboundPaymentInfoStorage::new();
    let hash = [1; 32];
    let purpose = PaymentPurpose::Bolt11Invoice { preimage: Some([2; 32]), secret: [3; 32] };
    let r = handle(
        &mut inbound,
        &mut outbound,
        NodeEvent::PaymentClaimable { payment_hash: hash, purpose, amount_msat: 5 },
    );
    assert!(matches!(r.action, EventAction::ClaimFunds(p) if p == [2; 32]));
    assert_eq!(
        r.messages[0].text,
        format!(
            "\nEVENT: received payment from payment hash {} of 5 millisatoshis",
            hex_str(&hash)
        )
    );
    assert_eq!(inbound.payments.len(), 0);
    let unknown = PaymentPurpose::Bolt12Offer { preimage: None, secret: [3; 32] };
    let r = handle(
        &mut inbound,
        &mut outbound,
        NodeEvent::PaymentClaimable { payment_hash: hash, purpose: unknown, amount_msat: 5 },
    );
    assert!(matches!(r.action, EventAction::Nothing));
    assert_eq!(r.messages[1].text, "PaymentClaimable event missing payment preimage");
    let r = handle(
        &mut inbound,
        &mut outbound,
        NodeEvent::PaymentClaimed { payment_hash: hash, purpose, amount_msat: 5 },
    );
    assert!(matches!(r.action, EventAction::PersistInbound));
    let noted = inbound.payments.get(&hash).unwrap();
    assert_eq!(noted.status, HTLCStatus::Succeeded);
    assert_eq!((noted.preimage, noted.secret), (Some([2; 32]), Some([3; 32])));
}

#[test]
fn payments_by_this_node_are_settled() {
    let mut inbound = InboundPaymentInfoStorage::new();
    let mut outbound = OutboundPaymentInfoStorage::new();
    outbound.record_pending([1; 32], None, 9);
    outbound.record_pending([2; 32], None, 9);
    let sent = |sent_id| NodeEvent::PaymentSent {
        sent_id,
        payment_hash: [3; 32],
        payment_preimage: [4; 32],
        fee_paid_msat: Some(1),
    };
    let r = handle(&mut inbound, &mut outbound, sent(None));
    assert_eq!(r.messages[0].text, "PaymentSent event missing payment_id");
    assert!(!r.prompt);
    let r = handle(&mut inbound, &mut outbound, sent(Some([1; 32])));
    assert_eq!(
        r.messages[0].text,
        format!(
            "\nEVENT: successfully sent payment of 9 millisatoshis (fee 1 msat) from payment hash {} with preimage {}",
            "03".repeat(32),
            "04".repeat(32)
        )
    );
    assert_eq!(outbound.payments.get(&[1; 32]).unwrap().status, HTLCStatus::Succeeded);
    let r = handle(&mut inbound, &mut outbound, sent(Some([9; 32])));
    assert!(r.messages.is_empty());
    let r = handle(
        &mut inbound,
        &mut outbound,
        NodeEvent::PaymentFailed { payment_id: [2; 32], failed_hash: None, reason: None },
    );
    assert_eq!(
        r.messages[0].text,
        format!(
            "\nEVENT: Failed fetch invoice for payment ID {}: RetriesExhausted",
            "02".repeat(32)
        )
    );
    assert_eq!(outbound.payments.get(&[2; 32]).unwrap().status, HTLCStatus::Failed);
}

#[test]
fn other_events_are_told() {
    let mut inbound = InboundPaymentInfoStorage::new();
    let mut outbound = OutboundPaymentInfoStorage::new();
    let r = handle(
        &mut inbound,
        &mut outbound,
        NodeEvent::PaymentForwarded {
            prev: Some(Hop { channel_id: [1; 32], node: HopNode::Named("alice".to_string()) }),
            next: None,
            total_fee_earned_msat: Some(3),
            claim_from_onchain_tx: false,
            outbound_amount_forwarded_msat: None,
        },
    );
    assert_eq!(
        r.messages[0].text,
        format!(
            "\nEVENT: Forwarded payment for ? msat from node alice with channel {} to , earning 3 msat from HTLC fulfill message",
            "01".repeat(32)
        )
    );
    let r = handle(
        &mut inbound,
        &mut outbound,
        NodeEvent::ChannelReady { channel_id: [1; 32], counterparty: key() },
    );
    assert!(r.messages[0].text.ends_with(" is ready to be used!"));
    let r = handle(
        &mut inbound,
        &mut outbound,
        NodeEvent::ChannelClosed {
            channel_id: [1; 32],
            closed_by: Some(key()),
            cause: "why".to_string(),
        },
    );
    assert!(r.messages[0].text.ends_with(&format!("{} closed due to: why", KEY)));
    let r = handle(&mut inbound, &mut outbound, NodeEvent::ProbeFailed { payment_hash: [1; 32] });
    assert!(matches!(
        r.action,
        EventAction::CompleteProbe { outcome: ProbeOutcome::Failed, .. }
    ));
    assert!(accepted_channel_message(&[1; 32], &key(), &None)
        .text
        .starts_with("\nEVENT: Accepted inbound channel (0101"));
    assert!(accepted_channel_message(&[1; 32], &key(), &Some("e".to_string()))
        .text
        .ends_with(": e"));
    assert_eq!(
        unsaved_message(Unsaved::Outputs, "e").text,
        "failed to track spendable outputs: e"
    );
    assert_eq!(unsaved_by(&NodeEvent::SpendableOutputs), Some(Unsaved::Outputs));
    let failed = NodeEvent::PaymentFailed { payment_id: [1; 32], failed_hash: None, reason: None };
    assert_eq!(unsaved_by(&failed), Some(Unsaved::Failed));
    let sent = NodeEvent::PaymentSent {
        sent_id: None,
        payment_hash: [1; 32],
        payment_preimage: [2; 32],
        fee_paid_msat: None,
    };
    assert_eq!(unsaved_by(&sent), Some(Unsaved::Sent));
    assert_eq!(unsaved_by(&NodeEvent::ConnectionNeeded), None);
}

#[test]
fn snapshots_have_addresses() {
    assert_eq!(choose_sync_url(None), DEFAULT_RAPID_SYNC_URL);
    assert_eq!(snapshot_url(&choose_sync_url(Some("u/".to_string())), 12), "u/12");
    assert_eq!(timestamp_path("/d"), "/d/rapid_sync_state");
    assert_eq!(
        bad_status_error("404 Not Found", "404").to_text(),
        "download failed: HTTP 404 Not Found - 404"
    );
    assert_eq!(DOWNLOAD_TIMEOUT_SECS, 300);
}

#[test]
fn the_time_of_a_snapshot_is_kept() {
    let source = TimestampSource::Text(timestamp_text(1234567890));
    assert_eq!(load_last_sync_timestamp(&source), Ok(1234567890));
    assert_eq!(load_last_sync_timestamp(&TimestampSource::Missing), Ok(0));
    let source = TimestampSource::Text(" 7\n".to_string());
    assert_eq!(load_last_sync_timestamp(&source), Ok(7));
    let source = TimestampSource::Text("4294967296".to_string());
    assert_eq!(
        load_last_sync_timestamp(&source).unwrap_err(),
        "number too large to fit in target type"
    );
    let (step, said) = sync_network_graph(&TimestampSource::Text("x".to_string()));
    assert_eq!(step, Syncing::Download { last_sync: 0 });
    assert_eq!(said.text, "Starting rapid gossip sync from timestamp: 0");
    let source = TimestampSource::Unreadable("e".to_string());
    assert_eq!(load_last_sync_timestamp(&source).unwrap_err(), "e");
}

#[test]
fn downloads_are_tried_three_times() {
    let mut download = Download::new();
    let e = RapidSyncError::DownloadFailed("e".to_string());
    let (step, said) = download.failed(&e);
    assert_eq!(step, RetryStep::Wait(1000));
    assert_eq!(
        said.text,
        "Rapid gossip sync download failed (attempt 1/3): download failed: e. Retrying in 1000ms..."
    );
    assert_eq!(download.failed(&e).0, RetryStep::Wait(2000));
    let (step, said) = download.failed(&e);
    assert_eq!(step, RetryStep::GiveUp);
    assert_eq!(said.text, "Rapid gossip sync download failed after 3 attempts");
}

#[test]
fn progress_is_said_about_ten_times() {
    let mut progress = Progress::new(Some(100));
    let said: usize = (0..100).filter(|_| progress.chunk(1)).count();
    assert_eq!(said, 10);
    let mut progress = Progress::new(None);
    assert!(!progress.chunk(1_000_000));
    let mut small = Progress::new(Some(3));
    assert!(small.chunk(3));
    assert_eq!(small.next_threshold, 2);
}

#[test]
fn a_synchronisation_ends_with_the_time() {
    let (step, said) = sync_downloaded(Ok(5)).ok().unwrap();
    assert_eq!(step, Syncing::Apply);
    assert_eq!(said.text, "Downloaded snapshot of 5 bytes, applying to network graph...");
    assert!(matches!(
        sync_downloaded(Err(RapidSyncError::RetryExhausted)),
        Err(RapidSyncError::RetryExhausted)
    ));
    assert_eq!(sync_applied(Ok(7)).ok(), Some(Syncing::Save { timestamp: 7 }));
    assert_eq!(
        sync_applied(Err("bad".to_string())).unwrap_err().to_text(),
        "parse failed: bad"
    );
    let (timestamp, said) = sync_saved(7, Ok(())).ok().unwrap();
    assert_eq!(timestamp, 7);
    assert_eq!(said.text, "Rapid gossip sync completed. New timestamp: 7");
    assert_eq!(sync_saved(7, Err("io".to_string())).unwrap_err().to_text(), "I/O error: io");
}

fn descriptor(value: u64) -> SpendableOutputDescriptor {
    SpendableOutputDescriptor::StaticOutput {
        outpoint: OutPoint { txid: bitcoin::hashes::Hash::from_byte_array([9; 32]), index: 1 },
        output: bitcoin::TxOut {
            value: bitcoin::Amount::from_sat(value),
            script_pubkey: bitcoin::ScriptBuf::from_bytes(vec![0x51; value as usize % 7]),
        },
        channel_keys_id: None,
    }
}

#[test]
fn descriptors_are_cut_apart() {
    let mut bytes = Vec::new();
    for value in [5, 6, 7] {
        bytes.extend_from_slice(&descriptor(value).encode());
    }
    let whole = read_outputs_from_file(&bytes);
    assert_eq!(whole.cuts.len(), 3);
    assert!(whole.failure.is_none());
    for (i, (from, to)) in whole.cuts.iter().enumerate() {
        let mut slice = &bytes[*from..*to];
        let read = <SpendableOutputDescriptor as Readable>::read(&mut slice).unwrap();
        assert_eq!(read, descriptor(5 + i as u64));
        assert!(slice.is_empty());
    }
    let end = whole.cuts[1].1;
    bytes.truncate(bytes.len() - 1);
    let cut = read_outputs_from_file(&bytes);
    assert_eq!(cut.cuts, whole.cuts[..2].to_vec());
    let (offset, error) = cut.failure.unwrap();
    assert_eq!(offset, end);
    assert_eq!(error, "ShortRead");
    assert_eq!(
        aborted_message("f", offset, &error, 2).text,
        format!("Aborting spendable file f: decode failed at offset {}: ShortRead. 2 descriptors recovered so far.", end)
    );
    assert!(read_outputs_from_file(&[]).cuts.is_empty());
}

#[test]
fn outputs_are_migrated_once() {
    let layout = Layout { migrated: false, pending: false, processing: false, spendable: false };
    let (plan, said) = try_migrate_deprecated_spendable_outputs(layout);
    assert_eq!(plan, Plan::MarkDone);
    assert_eq!(said.len(), 2);
    let (plan, said) =
        try_migrate_deprecated_spendable_outputs(Layout { processing: true, ..layout });
    assert_eq!(plan, Plan::Migrate);
    assert_eq!(said[0].text, "Beginning migration of deprecated spendable outputs");
    let (plan, said) = try_migrate_deprecated_spendable_outputs(Layout {
        migrated: true,
        pending: true,
        ..layout
    });
    assert_eq!(plan, Plan::Skip);
    assert_eq!(said[0].level, Level::Debug);
    assert!(is_moved(64));
    assert!(!is_moved(63));
    assert_eq!(
        concatenate_processing_outputs(&vec![vec![1], vec![], vec![2, 3]]),
        Some(vec![1, 2, 3])
    );
    assert_eq!(concatenate_processing_outputs(&vec![vec![]]), None);
    assert_eq!(tracked_from(0, 100), None);
    assert_eq!(tracked_from(3, 100), Some(102));
    assert_eq!(migrated_message(3).text, "Successfully migrated 3 deprecated spendable outputs");
    assert_eq!(entry_path("/d", "x"), "/d/x");
}

#[test]
fn a_failed_migration_does_not_stop_the_node() {
    assert_eq!(pending_listed(DirReply::Missing).ok(), Some(false));
    assert_eq!(processing_listed(DirReply::Listed).ok(), Some(true));
    let e = pending_listed(DirReply::Unreadable("e".to_string())).unwrap_err();
    assert_eq!(e.to_text(), "I/O error while reading pending dir: e");
    let e = processing_listed(DirReply::Unreadable("e".to_string())).unwrap_err();
    assert_eq!(e.to_text(), "I/O error while reading processing dir: e");
    assert_eq!(
        migrate_deprecated_spendable_outputs(&Err(e)).unwrap().text,
        "Deprecated spendable outputs migration failed: I/O error while reading processing dir: e. On-disk state is preserved; node continues."
    );
    assert!(migrate_deprecated_spendable_outputs(&Ok(2)).is_none());
    assert_eq!(
        SweepMigrationError::Persist("e".to_string()).to_text(),
        "failed to persist migrated outputs: e"
    );
    assert_eq!(
        SweepMigrationError::TrackSpendable.to_text(),
        "failed to track migrated outputs with sweeper"
    );
    let (go_on, said) = spendable_listed(DirReply::Unreadable("e".to_string()));
    assert!(!go_on);
    assert!(said.unwrap().text.ends_with("(read failed): e"));
    assert!(unmarked_message("p", "e").text.ends_with("Migration will re-run on next startup."));
    assert!(best_effort_remove_dir("d", &Removal::Missing).is_none());
    assert!(best_effort_remove_dir("d", &Removal::Removed).is_none());
    assert_eq!(
        best_effort_remove_dir("d", &Removal::Failed("e".to_string())).unwrap().text,
        "Failed to remove directory d: e"
    );
}

#[test]
fn the_node_starts_without_rapid_sync() {
    let failed = Some(Err("e".to_string()));
    assert_eq!(rapid_sync_plan(false, failed.clone()).0, RapidSyncPlan::Off);
    assert_eq!(rapid_sync_plan(false, None).0, RapidSyncPlan::Off);
    assert_eq!(rapid_sync_plan(true, None).0, RapidSyncPlan::Make);
    let (plan, said) = rapid_sync_plan(true, failed);
    assert_eq!(plan, RapidSyncPlan::PeersOnly);
    let said = said.unwrap();
    assert_eq!(
        said.text,
        "Failed to initialize RapidGossipSync: e. Continuing with P2P sync only."
    );
    assert_eq!(said.level, Level::Error);
    let (plan, said) = rapid_sync_plan(true, Some(Ok(())));
    assert_eq!(plan, RapidSyncPlan::Periodic);
    assert_eq!(said.unwrap().text, "RapidGossipSync initialized successfully");

    let step = |plan| {
        let event = StartupEvent::Gossip(plan);
        start_ldk(StartupStep::SyncGossip, &event, Network::Testnet, "/d").0
    };
    assert_eq!(step(RapidSyncPlan::Make), StartupStep::SyncGossip);
    assert_eq!(step(RapidSyncPlan::Off), StartupStep::FindResolver);
    assert_eq!(step(RapidSyncPlan::PeersOnly), StartupStep::FindResolver);
    assert_eq!(step(RapidSyncPlan::Periodic), StartupStep::FindResolver);
    let loaded = StartupEvent::Loaded(Ok(()));
    let (next, _) = start_ldk(StartupStep::LoadMonitors, &loaded, Network::Testnet, "/d");
    assert_eq!(next, StartupStep::SyncGossip);
}

fn next(step: MigrationStep, event: MigrationEvent) -> MigrationStep {
    advance_migration(step, event)
}

fn old_layout() -> Layout {
    Layout { migrated: false, pending: true, processing: false, spendable: false }
}

#[test]
fn outputs_are_moved_kept_and_handed_over() {
    let step = next(MigrationStep::Look, MigrationEvent::Looked(old_layout()));
    let names = vec![3, 64, 5, 64];
    let mut step = next(step, MigrationEvent::PendingListed { reply: DirReply::Listed, names });
    let mut moved = Vec::new();
    loop {
        step = match step {
            MigrationStep::MakeDir { .. } => next(step, MigrationEvent::DirMade(Ok(()))),
            MigrationStep::Rename { at, .. } => {
                moved.push(at);
                next(step, MigrationEvent::Renamed(Err("e".to_string())))
            },
            _ => break,
        };
    }
    assert_eq!(moved, vec![1, 3]);
    assert!(matches!(step, MigrationStep::ListProcessing));
    let step = next(step, MigrationEvent::ProcessingListed(DirReply::Listed));
    let files = vec![vec![1], vec![2, 3]];
    let step = next(step, MigrationEvent::ProcessingRead { files, entropy: [0xab; 32] });
    match &step {
        MigrationStep::Write { key, bytes } => {
            assert_eq!(*key, "ab".repeat(32));
            assert_eq!(*bytes, vec![1, 2, 3]);
        },
        _ => panic!("the outputs are kept"),
    }
    let step = next(step, MigrationEvent::Written(Ok(())));
    assert!(matches!(step, MigrationStep::RemoveProcessing));
    let step = next(step, MigrationEvent::Removed(Removal::Failed("e".to_string())));
    assert!(matches!(step, MigrationStep::ReadSpendable));
    let step = next(step, MigrationEvent::OutputsRead { count: 2, height: 100 });
    assert!(matches!(step, MigrationStep::Track { count: 2, from: 102 }));
    let step = next(step, MigrationEvent::HandedOver(true));
    assert!(matches!(step, MigrationStep::RemoveSpendable { count: 2 }));
    let step = next(step, MigrationEvent::Removed(Removal::Removed));
    assert!(matches!(step, MigrationStep::RemovePending { count: 2 }));
    let step = next(step, MigrationEvent::Removed(Removal::Missing));
    assert!(matches!(step, MigrationStep::Mark { migrated: Some(2) }));
    let step = next(step, MigrationEvent::Marked(Err("e".to_string())));
    assert!(matches!(step, MigrationStep::Done { migrated: Some(2) }));
}

#[test]
fn a_failed_migration_stays_failed() {
    let failed = |step: MigrationStep| match step {
        MigrationStep::Failed(e) => e.to_text(),
        _ => panic!("it did not fail"),
    };
    let err = || Err("e".to_string());
    let unreadable = || DirReply::Unreadable("e".to_string());
    let listed = MigrationEvent::PendingListed { reply: unreadable(), names: vec![64] };
    assert_eq!(
        failed(next(MigrationStep::ListPending, listed)),
        "I/O error while reading pending dir: e"
    );
    let make = MigrationStep::MakeDir { names: vec![64], at: 0 };
    assert_eq!(
        failed(next(make, MigrationEvent::DirMade(err()))),
        "I/O error while creating processing dir: e"
    );
    assert_eq!(
        failed(next(MigrationStep::ListProcessing, MigrationEvent::ProcessingListed(unreadable()))),
        "I/O error while reading processing dir: e"
    );
    let write = MigrationStep::Write { key: String::new(), bytes: vec![1] };
    assert_eq!(
        failed(next(write, MigrationEvent::Written(err()))),
        "failed to persist migrated outputs: e"
    );
    let track = MigrationStep::Track { count: 1, from: 3 };
    let step = next(track, MigrationEvent::HandedOver(false));
    let step = next(step, MigrationEvent::Removed(Removal::Removed));
    let step = next(step, MigrationEvent::Marked(Ok(())));
    assert_eq!(failed(step), "failed to track migrated outputs with sweeper");
}

#[test]
fn nothing_is_handed_over_where_there_is_nothing() {
    let look = |layout| next(MigrationStep::Look, MigrationEvent::Looked(layout));
    let none = Layout { pending: false, ..old_layout() };
    assert!(matches!(look(none), MigrationStep::Mark { migrated: None }));
    let done = Layout { migrated: true, ..old_layout() };
    assert!(matches!(look(done), MigrationStep::Done { migrated: None }));
    let listed = MigrationEvent::PendingListed { reply: DirReply::Listed, names: vec![63, 65] };
    assert!(matches!(next(MigrationStep::ListPending, listed), MigrationStep::ListProcessing));
    let missing = MigrationEvent::PendingListed { reply: DirReply::Missing, names: vec![64] };
    assert!(matches!(next(MigrationStep::ListPending, missing), MigrationStep::ListProcessing));
    let read = MigrationEvent::ProcessingRead { files: vec![vec![]], entropy: [0; 32] };
    assert!(matches!(next(MigrationStep::ReadProcessing, read), MigrationStep::ReadSpendable));
    let outputs = MigrationEvent::OutputsRead { count: 0, height: u32::MAX };
    assert!(matches!(
        next(MigrationStep::ReadSpendable, outputs),
        MigrationStep::RemoveSpendable { count: 0 }
    ));
}

#[test]
fn the_settings_come_from_the_configuration() {
    let dir = || "/storage".to_string();
    let settings = startup_settings(dir(), Ok(()), Ok(config())).ok().unwrap();
    assert_eq!(settings.ldk_storage_dir_path, "/storage");
    assert_eq!(settings.bitcoind_rpc_port, 8332);
    match startup_settings(dir(), Err("e".to_string()), Ok(config())) {
        Err(StartupArgsError::CreateDataDir { path, source }) => {
            assert_eq!(path, "/storage/.ldk");
            assert_eq!(source, "e");
        },
        _ => panic!("the directory is missing"),
    }
    let bad = Err(ConfigError::ParseError("x".to_string()));
    assert!(matches!(
        startup_settings(dir(), Ok(()), bad),
        Err(StartupArgsError::Config(ConfigError::ParseError(e))) if e == "x"
    ));
}

fn failure(text: &str) -> Attempt {
    Err(RapidSyncError::DownloadFailed(text.to_string()))
}

#[test]
fn the_last_failure_exhausts_the_attempts() {
    assert!(matches!(rest_or_error(RetryStep::GiveUp), Err(RapidSyncError::RetryExhausted)));
    assert!(matches!(rest_or_error(RetryStep::Wait(5)), Ok(5)));
    let mut download = Download::new();
    let (step, said) = download.attempted(failure("a"));
    assert!(matches!(step, AttemptStep::Again(1000)));
    assert_eq!(
        said.unwrap().text,
        "Rapid gossip sync download failed (attempt 1/3): download failed: a. Retrying in 1000ms..."
    );
    assert!(matches!(download.attempted(failure("b")).0, AttemptStep::Again(2000)));
    let (step, said) = download.attempted(failure("c"));
    assert!(matches!(step, AttemptStep::Done(Err(RapidSyncError::RetryExhausted))));
    assert_eq!(said.unwrap().text, "Rapid gossip sync download failed after 3 attempts");
    let (step, said) = Download::new().attempted(Ok(vec![1]));
    assert!(matches!(step, AttemptStep::Done(Ok(data)) if data == vec![1]));
    assert!(said.is_none());
}

#[test]
fn the_first_snapshot_is_the_result() {
    let (result, rests) = download_with_retry(vec![Ok(vec![1]), Ok(vec![2]), failure("c")]);
    assert_eq!((result.unwrap(), rests), (vec![1], vec![]));
    let (result, rests) = download_with_retry(vec![failure("a"), Ok(vec![2])]);
    assert_eq!((result.unwrap(), rests), (vec![2], vec![1000]));
    let (result, rests) = download_with_retry(vec![failure("a"), failure("b"), Ok(vec![3])]);
    assert_eq!((result.unwrap(), rests), (vec![3], vec![1000, 2000]));
    let (result, rests) =
        download_with_retry(vec![failure("a"), failure("b"), failure("c"), Ok(vec![4])]);
    assert!(matches!(result, Err(RapidSyncError::RetryExhausted)));
    assert_eq!(rests, vec![1000, 2000]);
}
