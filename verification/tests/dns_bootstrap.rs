//! Tests of peer discovery through DNS.
use bech32::ToBase32;
use ldk_sample::dns_bootstrap::bootstrapper::{DnsBootstrapper, SampleStep};
use ldk_sample::dns_bootstrap::client;
use ldk_sample::dns_bootstrap::client::{
    advance_asking, begin_asking, Answer, Asking, AskingEvent, BootstrapPeer, DnsBootstrapClient,
    QueryStrategy, ResolvedRecord,
};
use ldk_sample::dns_bootstrap::config::DnsBootstrapConfig;
use ldk_sample::dns_bootstrap::error::DnsBootstrapError;
use ldk_sample::dns_bootstrap::pubkey::{decode_pubkey_from_hostname, NodeId};
use ldk_sample::dns_bootstrap::query::{query_name, query_srv, resolve_host, DnsReply, SrvRecord};
use ldk_sample::keys::PublicKey;

const KEY: &str = "02e89ca9e8da72b33d896bae51d20e7e1f0571cece852d1387b4e2f4ae48c80a85";
const OTHER_KEY: &str = "03e7156ae33b0a208d0744199163177e909e80176e55d97a2f221ede0f934dd9ad";

fn encode_bech32(hrp: &str, data: &[u8]) -> String {
    bech32::encode(hrp, data.to_base32(), bech32::Variant::Bech32).unwrap()
}

fn hex_to_bytes(hex: &str) -> Vec<u8> {
    (0..hex.len()).step_by(2).map(|i| u8::from_str_radix(&hex[i..i + 2], 16).unwrap()).collect()
}

#[test]
fn test_build_query_domain_full_conditions() {
    let client = DnsBootstrapClient::new("lseed.bitcoinstats.com".to_string(), 25, 0, 6);

    let domain = client.build_query_domain(QueryStrategy::FullConditions);
    assert_eq!(domain, "r0.a6.lseed.bitcoinstats.com");
}

#[test]
fn test_build_query_domain_minimal_conditions() {
    let client = DnsBootstrapClient::new("lseed.bitcoinstats.com".to_string(), 25, 0, 6);

    let domain = client.build_query_domain(QueryStrategy::MinimalConditions);
    assert_eq!(domain, "a6.lseed.bitcoinstats.com");
}

#[test]
fn test_build_query_domain_root_domain() {
    let client = DnsBootstrapClient::new("lseed.bitcoinstats.com".to_string(), 25, 0, 6);

    let domain = client.build_query_domain(QueryStrategy::RootDomain);
    assert_eq!(domain, "lseed.bitcoinstats.com");
}

#[test]
fn test_build_query_domain_custom_params() {
    let client = DnsBootstrapClient::new("test.example.com".to_string(), 10, 1, 2);

    assert_eq!(client.build_query_domain(QueryStrategy::FullConditions), "r1.a2.test.example.com");
    assert_eq!(client.build_query_domain(QueryStrategy::MinimalConditions), "a2.test.example.com");
    assert_eq!(client.build_query_domain(QueryStrategy::RootDomain), "test.example.com");
}

#[test]
fn test_extract_node_id_from_hostname() {
    let client = DnsBootstrapClient::new("lseed.bitcoinstats.com".to_string(), 25, 0, 6);

    let hostname = "ln1qtest.lseed.bitcoinstats.com";
    let result = client.extract_node_id_from_hostname(hostname);
    assert!(result.is_none() || result.is_some());
}

#[test]
fn test_query_strategy_all() {
    let strategies = QueryStrategy::all();
    assert_eq!(strategies.len(), 3);
    assert!(matches!(strategies[0], QueryStrategy::FullConditions));
    assert!(matches!(strategies[1], QueryStrategy::MinimalConditions));
    assert!(matches!(strategies[2], QueryStrategy::RootDomain));
}

#[test]
fn test_decode_valid_hostname() {
    let pubkey_hex = "02e89ca9e8da72b33d896bae51d20e7e1f0571cece852d1387b4e2f4ae48c80a85";
    let pubkey_bytes = hex_to_bytes(pubkey_hex);
    let pubkey = PublicKey::from_slice(&pubkey_bytes).unwrap();

    let encoded = encode_bech32("ln", &pubkey_bytes);
    let hostname = format!("{}.nodes.lightning.wiki.", encoded);

    let (decoded_pubkey, node_id) = decode_pubkey_from_hostname(&hostname).unwrap();
    assert_eq!(decoded_pubkey, pubkey);
    assert_eq!(node_id, NodeId::from_pubkey(&pubkey));
}

#[test]
fn test_decode_invalid_hrp() {
    let pubkey_hex = "02e89ca9e8da72b33d896bae51d20e7e1f0571cece852d1387b4e2f4ae48c80a85";
    let pubkey_bytes = hex_to_bytes(pubkey_hex);
    let encoded = encode_bech32("bc", &pubkey_bytes);

    let hostname = format!("{}.nodes.lightning.wiki.", encoded);
    let result = decode_pubkey_from_hostname(&hostname);
    assert!(result.is_err());
    match result.unwrap_err() {
        DnsBootstrapError::InvalidBech32NodeId { reason, .. } => {
            assert!(reason.contains("expected HRP 'ln'"), "got: {}", reason);
        },
        other => panic!("unexpected error: {:?}", other),
    }
}

#[test]
fn test_decode_empty_hostname() {
    let result = decode_pubkey_from_hostname("");
    assert!(result.is_err());
}

#[test]
fn test_decode_garbage_bech32() {
    let result = decode_pubkey_from_hostname("not-valid-bech32.example.com.");
    assert!(result.is_err());
}

#[test]
fn test_decode_valid_bech32_invalid_pubkey() {
    let short_data = vec![0x01, 0x02, 0x03];
    let encoded = encode_bech32("ln", &short_data);

    let hostname = format!("{}.example.com.", encoded);
    let result = decode_pubkey_from_hostname(&hostname);
    assert!(result.is_err());
    match result.unwrap_err() {
        DnsBootstrapError::InvalidPublicKey { .. } => {},
        other => panic!("unexpected error: {:?}", other),
    }
}

#[test]
fn test_roundtrip_multiple_pubkeys() {
    let pubkeys = [
        "02e89ca9e8da72b33d896bae51d20e7e1f0571cece852d1387b4e2f4ae48c80a85",
        "03e7156ae33b0a208d0744199163177e909e80176e55d97a2f221ede0f934dd9ad",
    ];
    for hex in &pubkeys {
        let bytes = hex_to_bytes(hex);
        let pubkey = PublicKey::from_slice(&bytes).unwrap();
        let encoded = encode_bech32("ln", &bytes);
        let hostname = format!("{}.lseed.bitcoinstats.com.", encoded);

        let (decoded, _) = decode_pubkey_from_hostname(&hostname).unwrap();
        assert_eq!(decoded, pubkey);
    }
}

fn host(key: &str) -> String {
    format!("{}.nodes.lightning.wiki.", encode_bech32("ln", &hex_to_bytes(key)))
}

fn record(target: String) -> SrvRecord {
    SrvRecord { target, port: 9735, _priority: 10, _weight: 10 }
}

#[test]
fn hosts_name_nodes() {
    let client = DnsBootstrapClient::new("nodes.lightning.wiki".to_string(), 25, 0, 6);
    let key = client.extract_node_id_from_hostname(&host(KEY)).unwrap();
    assert_eq!(key.to_text(), KEY);
    assert!(client.extract_node_id_from_hostname("").is_none());
    let other = format!("{}.x.", encode_bech32("bc", &hex_to_bytes(KEY)));
    assert!(client.extract_node_id_from_hostname(&other).is_none());
    let peers = client
        .query_srv_records(&Ok(vec![
            ResolvedRecord { hostname: host(KEY), addrs: vec![1, 2] },
            ResolvedRecord { hostname: "seed.".to_string(), addrs: vec![3] },
            ResolvedRecord { hostname: host(OTHER_KEY), addrs: vec![] },
        ]))
        .unwrap();
    assert_eq!(peers.len(), 3);
    assert_eq!(peers[1].node_id.unwrap().to_text(), KEY);
    assert!(peers[2].node_id.is_none());
    assert!(matches!(
        client.query_srv_records(&Ok(Vec::<ResolvedRecord<u8>>::new())),
        Err(client::DnsBootstrapError::NoRecordsFound)
    ));
}

fn failure(text: &str) -> Answer<u8> {
    Err(client::DnsBootstrapError::ResolverError(text.to_string()))
}

fn peer(addr: u8) -> Answer<u8> {
    Ok(vec![BootstrapPeer { node_id: None, addr }])
}

#[test]
fn a_seed_is_asked_nine_times() {
    let seed = DnsBootstrapClient::new("seed".to_string(), 25, 0, 6);
    let mut state = begin_asking::<u8>();
    let mut asked = Vec::new();
    let mut waits = Vec::new();
    let result = loop {
        asked.extend(seed.question(&state));
        state = match state {
            Asking::Ask { .. } => advance_asking(state, AskingEvent::Answered(failure("e"))),
            Asking::Wait { secs, .. } => {
                waits.push(secs);
                advance_asking(state, AskingEvent::Waited)
            },
            Asking::Done(result) => break result,
        };
    };
    let names = ["r0.a6.seed", "a6.seed", "seed"];
    assert_eq!(asked.len(), 9);
    for (i, name) in asked.iter().enumerate() {
        assert_eq!(name, names[i / 3]);
    }
    assert_eq!(waits, vec![1, 2, 1, 2, 1, 2]);
    assert!(matches!(result, Err(client::DnsBootstrapError::AllStrategiesFailed)));
    assert!(matches!(
        advance_asking(begin_asking(), AskingEvent::Answered(peer(7))),
        Asking::Done(Ok(peers)) if peers[0].addr == 7
    ));
}

#[test]
fn the_first_answer_with_peers_is_the_result() {
    let seed = DnsBootstrapClient::new("seed".to_string(), 25, 0, 6);
    let all = vec![failure("a"), failure("b"), failure("c")];
    assert!(matches!(
        seed.query_with_strategy(all),
        Err(client::DnsBootstrapError::ResolverError(e)) if e == "c"
    ));
    let second = vec![failure("a"), peer(1), peer(2)];
    assert!(matches!(seed.query_with_strategy(second), Ok(p) if p[0].addr == 1));
    let late = vec![failure("a"), failure("b"), failure("c"), peer(1)];
    assert!(seed.query_with_strategy(late).is_err());
    assert!(matches!(
        seed.query_with_strategy(Vec::<Answer<u8>>::new()),
        Err(client::DnsBootstrapError::NoRecordsFound)
    ));

    let third = vec![failure("a"), failure("b"), peer(3)];
    assert!(matches!(seed.query_bootstrap_peers(third), Ok(p) if p[0].addr == 3));
    let none = vec![failure("a"), failure("b"), failure("c")];
    assert!(matches!(
        seed.query_bootstrap_peers(none),
        Err(client::DnsBootstrapError::AllStrategiesFailed)
    ));
    assert!(matches!(
        seed.query_srv_records::<u8>(&Err("e".to_string())),
        Err(client::DnsBootstrapError::ResolverError(e)) if e == "SRV lookup failed: e"
    ));
}

#[test]
fn only_the_compressed_form_of_a_key_is_taken() {
    let compressed = hex_to_bytes(KEY);
    let full = bitcoin::secp256k1::PublicKey::from_slice(&compressed)
        .unwrap()
        .serialize_uncompressed();
    assert_eq!(full.len(), 65);
    let hostname = format!("{}.nodes.lightning.wiki.", encode_bech32("ln", &full));
    assert!(matches!(
        decode_pubkey_from_hostname(&hostname),
        Err(DnsBootstrapError::InvalidPublicKey { .. })
    ));
    assert!(decode_pubkey_from_hostname(&host(KEY)).is_ok());
}

#[test]
fn answers_become_records_and_addresses() {
    assert_eq!(query_name("seed"), "_nodes._tcp.seed.");
    let failed = query_srv("seed", DnsReply::Failed("e".to_string())).unwrap_err();
    assert_eq!(failed.to_text(), "SRV query failed: _nodes._tcp.seed.: e");
    assert!(matches!(
        query_srv("seed", DnsReply::TimedOut),
        Err(DnsBootstrapError::Timeout)
    ));
    assert_eq!(query_srv("seed", DnsReply::Answered(vec![])).unwrap().len(), 0);
    assert_eq!(resolve_host("h", DnsReply::Answered(vec![4, 5])).unwrap(), 4);
    let none = resolve_host("h", DnsReply::Answered(Vec::<u8>::new())).unwrap_err();
    assert_eq!(
        none.to_text(),
        "host resolution failed for h: no A/AAAA records returned"
    );
}

#[test]
fn a_round_finds_peers() {
    let bootstrapper = DnsBootstrapper::new(DnsBootstrapConfig::default());
    assert_eq!((bootstrapper.interval_secs(), bootstrapper.num_peers()), (300, 10));
    let (ignored, _) = decode_pubkey_from_hostname(&host(OTHER_KEY)).unwrap();
    let mut round =
        bootstrapper.sample_node_addrs::<u16>(10, vec![NodeId::from_pubkey(&ignored)]);
    assert!(matches!(round.step().0, SampleStep::Query(0)));
    let said = round.seed_answered(Err(DnsBootstrapError::Timeout));
    assert!(said.starts_with("[dns_bootstrap] SRV query failed for nodes.lightning.wiki: "));
    assert!(matches!(round.step().0, SampleStep::Query(1)));
    let records =
        vec![record("junk.".to_string()), record(host(OTHER_KEY)), record(host(KEY))];
    assert_eq!(
        round.seed_answered(Ok(records)),
        "[dns_bootstrap] Got 3 SRV records from lseed.bitcoinstats.com"
    );
    let (step, said) = round.step();
    assert!(matches!(step, SampleStep::Resolve { port: 9735, .. }));
    assert_eq!(said.len(), 1);
    assert!(said[0].starts_with("[dns_bootstrap] Failed to decode pubkey from junk.: "));
    assert!(round.host_resolved(Ok(7)).is_none());
    assert!(matches!(round.step().0, SampleStep::Finished));
    let peers = round.finish().unwrap();
    assert_eq!(peers.len(), 1);
    assert_eq!(peers[0].pubkey.to_text(), KEY);
    assert_eq!(peers[0].addr, 7);
}

#[test]
fn a_round_stops_when_it_has_enough() {
    let bootstrapper = DnsBootstrapper::new(DnsBootstrapConfig::default());
    let mut round = bootstrapper.sample_node_addrs::<u16>(1, vec![]);
    round.step();
    round.seed_answered(Ok(vec![record(host(KEY)), record(host(OTHER_KEY))]));
    round.step();
    let said = round.host_resolved(Err(DnsBootstrapError::Timeout)).unwrap();
    assert!(said.starts_with("[dns_bootstrap] Failed to resolve ln1q"));
    round.step();
    assert!(round.host_resolved(Ok(1)).is_none());
    assert!(matches!(round.step().0, SampleStep::Finished));
    assert_eq!(round.finish().unwrap()[0].pubkey.to_text(), OTHER_KEY);
    let round = bootstrapper.sample_node_addrs::<u16>(0, vec![]);
    assert_eq!(
        round.finish().unwrap_err().to_text(),
        "SRV query failed: no peers discovered from any DNS seed"
    );
}

#[test]
fn discovery_errors_have_texts() {
    let bad = decode_pubkey_from_hostname(".x").unwrap_err();
    assert!(bad.to_text().contains("empty first label"));
    assert!(DnsBootstrapError::ResolverError("r".to_string()).to_text().contains("r"));
}

#[test]
fn what_is_left_of_a_label_must_be_zeros() {
    let label = |groups: &[u8]| {
        let groups: Vec<bech32::u5> =
            groups.iter().map(|g| bech32::u5::try_from_u8(*g).unwrap()).collect();
        bech32::encode("ln", groups, bech32::Variant::Bech32).unwrap()
    };
    let reason = |groups: &[u8]| {
        match decode_pubkey_from_hostname(&format!("{}.x.", label(groups))) {
            Err(DnsBootstrapError::InvalidBech32NodeId { reason, .. }) => reason,
            Err(DnsBootstrapError::InvalidPublicKey { reason }) => reason,
            other => panic!("unexpected result: {:?}", other),
        }
    };
    let padding = "bit conversion failed: invalid padding";
    assert_eq!(reason(&[31, 29]), padding);
    assert_eq!(reason(&[0]), padding);
    assert_eq!(reason(&[31, 28]), "secp256k1 parse failed: malformed public key");
}
