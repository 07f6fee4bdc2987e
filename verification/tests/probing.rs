//! Tests of probing.
use ldk_sample::hex_utils::to_vec;
use ldk_sample::logging::Level;
use ldk_sample::probing::runner::{
    advance_round, awaited_completion, compute_modes, extract_peer_pubkey, invalid_peer_message,
    log_probe_completed, mode_warnings, probe_amount, requested_nodes, sent_message,
    sorted_amounts, startup_message, tracker_lost_message, truncate_pubkey, ProbeCompletion, ProbeWait, Round,
    RoundEvent,
};
use ldk_sample::probing::sampling::{
    no_candidates_message, probe_candidates, replace_drawn, reservoir_sample,
};
use ldk_sample::probing::sender::{prepare_probe, ProbeError};
use ldk_sample::probing::tracker::{
    ProbeOutcome, ProbeTracker, MAX_TIMED_OUT_PROBES, TIMED_OUT_PROBE_TTL,
};
use ldk_sample::runtime_config::ProbingConfig;
use std::collections::HashSet;
use tokio::sync::oneshot::error::TryRecvError;
use tokio::sync::oneshot::{channel, Receiver, Sender};

type Tracker = ProbeTracker<Sender<ProbeOutcome>>;

const NOW: u64 = 10_000_000_000_000;

fn send(delivery: Option<Sender<ProbeOutcome>>, outcome: ProbeOutcome) {
    if let Some(sender) = delivery {
        let _ = sender.send(outcome);
    }
}

fn register(tracker: &mut Tracker, hash: [u8; 32]) -> Receiver<ProbeOutcome> {
    let (sender, receiver) = channel();
    if let Some((sender, outcome)) = tracker.register_probe(hash, sender, NOW) {
        let _ = sender.send(outcome);
    }
    receiver
}

fn complete_success(tracker: &mut Tracker, hash: &[u8; 32]) {
    let delivery = tracker.complete_success(hash, NOW);
    send(delivery, ProbeOutcome::Success);
}

fn complete_failed(tracker: &mut Tracker, hash: &[u8; 32]) {
    let delivery = tracker.complete_failed(hash, NOW);
    send(delivery, ProbeOutcome::Failed);
}

fn buffered_success() {
    let mut tracker: Tracker = ProbeTracker::new();
    let hash = [1; 32];

    complete_success(&mut tracker, &hash);

    let mut rx = register(&mut tracker, hash);
    assert!(matches!(rx.try_recv(), Ok(ProbeOutcome::Success)));
}

fn buffered_failed() {
    let mut tracker: Tracker = ProbeTracker::new();
    let hash = [2; 32];

    complete_failed(&mut tracker, &hash);

    let mut rx = register(&mut tracker, hash);
    assert!(matches!(rx.try_recv(), Ok(ProbeOutcome::Failed)));
}

fn over_channel() {
    let mut tracker: Tracker = ProbeTracker::new();
    let hash = [3; 32];

    let mut rx = register(&mut tracker, hash);
    assert!(matches!(rx.try_recv(), Err(TryRecvError::Empty)));

    complete_success(&mut tracker, &hash);
    assert!(matches!(rx.try_recv(), Ok(ProbeOutcome::Success)));
}

fn late_completion() {
    let mut tracker: Tracker = ProbeTracker::new();
    let hash = [4; 32];

    tracker.mark_timed_out(&hash, NOW);
    complete_success(&mut tracker, &hash);

    assert!(!tracker.completed_probes.contains_key(&hash));
    assert!(!tracker.timed_out_probes.contains_key(&hash));
}

fn prune_old() {
    let mut tracker: Tracker = ProbeTracker::new();
    let hash = [5; 32];
    let stale_time = NOW - (TIMED_OUT_PROBE_TTL + 1_000_000_000);
    tracker.timed_out_probes.insert(hash, stale_time);

    tracker.prune_timed_out_probes(NOW);

    assert!(!tracker.timed_out_probes.contains_key(&hash));
}

fn prune_cap() {
    let mut tracker: Tracker = ProbeTracker::new();
    let base = NOW;

    for i in 0..(MAX_TIMED_OUT_PROBES + 3) {
        let mut bytes = [0u8; 32];
        bytes[0] = (i % 256) as u8;
        bytes[1] = ((i / 256) % 256) as u8;
        bytes[2] = ((i / 65536) % 256) as u8;
        tracker.timed_out_probes.insert(bytes, base + i as u64);
    }

    tracker.prune_timed_out_probes(NOW);

    assert!(tracker.timed_out_probes.len() <= MAX_TIMED_OUT_PROBES);
    assert!(!tracker.timed_out_probes.contains_key(&[0; 32]));
}

fn bounded_and_unique() {
    let candidates: Vec<usize> = (0..100usize).collect();
    let sample = reservoir_sample(&candidates, 8);

    assert_eq!(sample.len(), 8);
    assert!(sample.iter().all(|value| *value < 100));
    let unique = sample.iter().copied().collect::<HashSet<_>>();
    assert_eq!(unique.len(), sample.len());
}

fn all_of_few() {
    let sample = reservoir_sample(&[1usize, 2, 3], 10);

    assert_eq!(sample.len(), 3);
    let values = sample.into_iter().collect::<HashSet<_>>();
    assert_eq!(values, HashSet::from([1usize, 2, 3]));
}

fn none_of_none() {
    let sample = reservoir_sample(&Vec::<usize>::new(), 5);

    assert!(sample.is_empty());
}

#[test]
fn probing_complete_before_register_delivers_buffered_success() {
    buffered_success();
}

#[test]
fn tracker_complete_before_register_delivers_buffered_success() {
    buffered_success();
}

#[test]
fn probing_complete_before_register_delivers_buffered_failed() {
    buffered_failed();
}

#[test]
fn tracker_complete_before_register_delivers_buffered_failed() {
    buffered_failed();
}

#[test]
fn probing_register_before_complete_still_delivers_over_channel() {
    over_channel();
}

#[test]
fn tracker_register_before_complete_still_delivers_over_channel() {
    over_channel();
}

#[test]
fn probing_late_completion_after_timeout_is_dropped() {
    late_completion();
}

#[test]
fn tracker_late_completion_after_timeout_is_dropped() {
    late_completion();
}

#[test]
fn probing_prune_removes_entries_older_than_ttl() {
    prune_old();
}

#[test]
fn tracker_prune_removes_entries_older_than_ttl() {
    prune_old();
}

#[test]
fn probing_prune_enforces_max_size_cap() {
    prune_cap();
}

#[test]
fn tracker_prune_enforces_max_size_cap() {
    prune_cap();
}

#[test]
fn probing_extract_peer_pubkey_from_pubkey_and_addr() {
    assert_eq!(extract_peer_pubkey("02abc123@1.2.3.4:9735"), Some("02abc123"));
}

#[test]
fn probing_extract_peer_pubkey_from_raw_pubkey() {
    assert_eq!(extract_peer_pubkey("02abc123"), Some("02abc123"));
}

#[test]
fn probing_extract_peer_pubkey_rejects_empty_pubkey() {
    assert_eq!(extract_peer_pubkey("@1.2.3.4:9735"), None);
    assert_eq!(extract_peer_pubkey("   "), None);
}

#[test]
fn runner_extract_peer_pubkey_from_pubkey_and_addr() {
    assert_eq!(extract_peer_pubkey("02abc123@1.2.3.4:9735"), Some("02abc123"));
}

#[test]
fn runner_extract_peer_pubkey_from_raw_pubkey() {
    assert_eq!(extract_peer_pubkey("02abc123"), Some("02abc123"));
}

#[test]
fn runner_extract_peer_pubkey_rejects_empty_pubkey() {
    assert_eq!(extract_peer_pubkey("@1.2.3.4:9735"), None);
    assert_eq!(extract_peer_pubkey("   "), None);
}

#[test]
fn probing_reservoir_sample_is_bounded_and_unique() {
    bounded_and_unique();
}

#[test]
fn runner_reservoir_sample_is_bounded_and_unique() {
    bounded_and_unique();
}

#[test]
fn probing_reservoir_sample_returns_all_when_k_exceeds_population() {
    all_of_few();
}

#[test]
fn runner_reservoir_sample_returns_all_when_k_exceeds_population() {
    all_of_few();
}

#[test]
fn probing_reservoir_sample_returns_empty_when_no_candidates() {
    none_of_none();
}

#[test]
fn runner_reservoir_sample_returns_empty_when_no_candidates() {
    none_of_none();
}

const KEY: &str = "02e89ca9e8da72b33d896bae51d20e7e1f0571cece852d1387b4e2f4ae48c80a85";

fn config() -> ProbingConfig {
    ProbingConfig {
        interval_sec: 300,
        peers: vec![KEY.to_string(), format!("{}@1.2.3.4:9735", KEY)],
        amount_msats: vec![3000, 1000, 2000],
        random_min_amount_msat: 1000,
        random_nodes_per_interval: 2,
        timeout_sec: 60,
        probe_delay_sec: 1,
        peer_delay_sec: 2,
    }
}

#[test]
fn modes_follow_the_configuration() {
    let modes = compute_modes(&config());
    assert!(modes.peer_list && modes.random_graph);
    assert!(mode_warnings(&config(), modes).is_empty());
    let mut half = config();
    half.peers.clear();
    half.random_nodes_per_interval = 0;
    let modes = compute_modes(&half);
    assert!(!modes.peer_list && !modes.random_graph);
    let texts: Vec<String> = mode_warnings(&half, modes).into_iter().map(|m| m.text).collect();
    assert_eq!(
        texts,
        vec![
            "probing.peers is empty in config.toml. Peer-list probing disabled.",
            "probing.random_nodes_per_interval is 0 in config.toml. Random-graph probing disabled.",
            "Probing config does not enable any probing mode. Probing disabled.",
        ]
    );
    half = config();
    half.amount_msats.clear();
    assert_eq!(
        mode_warnings(&half, compute_modes(&half))[0].text,
        "probing.amount_msats is empty in config.toml. Peer-list probing disabled."
    );
}

#[test]
fn amounts_are_tried_in_rising_order() {
    let sorted = sorted_amounts(&config().amount_msats);
    assert_eq!(sorted, vec![1000, 2000, 3000]);
    assert_eq!(
        startup_message(&config(), compute_modes(&config()), &sorted).text,
        "Probing started: peer_list_mode=true (2 peers, 3 amounts [1000, 2000, 3000] msat), random_graph_mode=true (2 nodes/interval at 1000 msat), interval=300s, timeout=60s, probe_delay=1s, peer_delay=2s"
    );
    assert_eq!(requested_nodes(&config()), 2);
}

#[test]
fn a_round_visits_peers_and_random_nodes() {
    let modes = compute_modes(&config());
    let events = [
        (RoundEvent::Tick, Round::Peer(0)),
        (RoundEvent::PeerRead { valid: true }, Round::ProbingPeer { peer: 0, amount: 0 }),
        (
            RoundEvent::Completed { success: true },
            Round::PausingPeer { peer: 0, amount: 0, stop: false },
        ),
        (RoundEvent::Rested, Round::ProbingPeer { peer: 0, amount: 1 }),
        (
            RoundEvent::Completed { success: false },
            Round::PausingPeer { peer: 0, amount: 1, stop: true },
        ),
        (RoundEvent::Rested, Round::Resting(0)),
        (RoundEvent::Rested, Round::Peer(1)),
        (RoundEvent::PeerRead { valid: false }, Round::Sampling),
        (RoundEvent::Sampled { count: 2 }, Round::ProbingNode { node: 0, count: 2 }),
        (RoundEvent::Completed { success: false }, Round::PausingNode { node: 0, count: 2 }),
        (RoundEvent::Rested, Round::ProbingNode { node: 1, count: 2 }),
        (RoundEvent::Completed { success: true }, Round::PausingNode { node: 1, count: 2 }),
        (RoundEvent::Rested, Round::Waiting),
    ];
    let mut round = Round::Waiting;
    for (event, expected) in events {
        round = advance_round(round, event, modes, 2, 3);
        assert_eq!(round, expected);
    }
    assert_eq!(
        advance_round(Round::Sampling, RoundEvent::Sampled { count: 0 }, modes, 2, 3),
        Round::Waiting
    );
    assert_eq!(advance_round(Round::Waiting, RoundEvent::Rested, modes, 2, 3), Round::Waiting);
}

#[test]
fn probes_need_a_key_and_an_amount() {
    assert_eq!(prepare_probe(KEY, 1).unwrap().to_text(), KEY);
    let text = |r: Result<_, ProbeError>| r.err().unwrap().to_text();
    assert_eq!(text(prepare_probe(KEY, 0).map(|_| ())), "probe amount must be greater than 0");
    assert_eq!(text(prepare_probe("zz", 1).map(|_| ())), "invalid peer pubkey hex");
    assert_eq!(text(prepare_probe("02", 1).map(|_| ())), "invalid peer pubkey");
    assert_eq!(ProbeError::NoRoute("r".to_string()).to_text(), "r");
    assert_eq!(ProbeError::SendFailed("s".to_string()).to_text(), "probe send failed: s");
}

#[test]
fn probes_are_logged() {
    let hash = [1; 32];
    let shown = "01".repeat(32);
    let ends = [
        (ProbeWait::Ended(ProbeOutcome::Success), "SUCCESS"),
        (ProbeWait::Ended(ProbeOutcome::Failed), "FAILED"),
        (ProbeWait::ChannelClosed, "DROPPED"),
        (ProbeWait::TrackerLost, "DROPPED"),
        (ProbeWait::TimedOut, "TIMEOUT"),
    ];
    for (wait, state) in ends {
        let completion = awaited_completion(hash, wait);
        let said = log_probe_completed("n", 5, &completion);
        assert_eq!(
            said.text,
            format!(
                "probe_completed destination_node=n amount_msat=5 state={} payment_hash={}",
                state, shown
            )
        );
        assert_eq!(said.level == Level::Info, state == "SUCCESS");
        assert_eq!(completion.should_break_peer_amounts(), state != "SUCCESS");
    }
    let errors = [
        (ProbeError::NoRoute("e".to_string()), "NO_ROUTE"),
        (ProbeError::SendFailed("e".to_string()), "SEND_FAILED"),
        (ProbeError::InvalidInput("e".to_string()), "INVALID_INPUT"),
    ];
    for (error, state) in errors {
        let said = log_probe_completed("n", 5, &ProbeCompletion::SendError(error));
        assert!(said.text.ends_with(&format!("state={} error=e", state)));
    }
    assert_eq!(
        tracker_lost_message(&hash, true).text,
        format!(
            "Probe tracker mutex poisoned while registering probe {}; treating as dropped",
            shown
        )
    );
    assert_eq!(
        invalid_peer_message("x").text,
        "Probe skipped: invalid peer entry 'x' (expected pubkey@host:port or pubkey)"
    );
    assert_eq!(
        no_candidates_message().text,
        "Random probe skipped: no graph nodes available"
    );
    let short = truncate_pubkey(KEY);
    assert!(short.len() < KEY.len());
    assert!(sent_message(true, KEY, 5, &hash).text.starts_with("Random probe SENT to "));
}

#[test]
fn candidates_are_other_nodes_with_keys() {
    let mut node = [0; 33];
    node.copy_from_slice(&to_vec(KEY).unwrap());
    let ours = [2; 33];
    let nodes = vec![ours, [5; 33], node];
    let keys = probe_candidates(&nodes, &ours);
    assert_eq!(keys.len(), 1);
    assert_eq!(keys[0].to_text(), KEY);
}

#[test]
fn a_drawn_place_is_taken() {
    let mut sample = vec![1, 2, 3];
    replace_drawn(&mut sample, 1, 9);
    assert_eq!(sample, vec![1, 9, 3]);
    replace_drawn(&mut sample, 3, 8);
    assert_eq!(sample, vec![1, 9, 3]);
    assert!(reservoir_sample(&[1, 2, 3], 0).is_empty());
}

#[test]
fn probes_time_out_for_good() {
    let mut tracker: Tracker = ProbeTracker::new();
    let hash = [6; 32];
    let mut rx = register(&mut tracker, hash);
    tracker.mark_timed_out(&hash, NOW);
    assert!(!tracker.pending_probes.contains_key(&hash));
    assert!(tracker.complete_failed(&hash, NOW).is_none());
    assert!(matches!(rx.try_recv(), Err(TryRecvError::Closed)));
    tracker.mark_timed_out(&hash, NOW);
    tracker.prune_timed_out_probes(NOW + TIMED_OUT_PROBE_TTL);
    assert!(tracker.timed_out_probes.contains_key(&hash));
}

#[test]
fn random_nodes_are_probed_with_the_least_amount() {
    let mut config = config();
    config.random_min_amount_msat = 777;
    let sorted = sorted_amounts(&config.amount_msats);
    let of = |round: Round| probe_amount(&config, &sorted, round);
    assert_eq!(of(Round::ProbingNode { node: 0, count: 2 }), Some(777));
    assert_eq!(of(Round::ProbingNode { node: 1, count: 2 }), Some(777));
    assert_eq!(of(Round::ProbingPeer { peer: 0, amount: 0 }), Some(1000));
    assert_eq!(of(Round::ProbingPeer { peer: 1, amount: 2 }), Some(3000));
    assert_eq!(of(Round::ProbingPeer { peer: 0, amount: 3 }), None);
    for round in [
        Round::Waiting,
        Round::Peer(0),
        Round::PausingPeer { peer: 0, amount: 0, stop: false },
        Round::Resting(0),
        Round::Sampling,
        Round::PausingNode { node: 0, count: 2 },
    ] {
        assert_eq!(of(round), None);
    }
}

#[test]
fn the_first_candidates_keep_their_places() {
    let candidates: Vec<usize> = (0..100).collect();
    for _ in 0..20 {
        let sample = reservoir_sample(&candidates, 8);
        assert!(sample.iter().enumerate().all(|(place, pick)| *pick == place || *pick >= 8));
    }
}

#[test]
fn late_ends_are_dropped_among_probes_given_up_later() {
    let mut tracker: Tracker = ProbeTracker::new();
    let first = [7; 32];
    tracker.mark_timed_out(&first, NOW);
    for n in 0..20u8 {
        tracker.mark_timed_out(&[100 + n; 32], NOW + 1 + n as u64);
    }
    assert!(tracker.complete_success(&first, NOW + 100).is_none());
    assert!(!tracker.completed_probes.contains_key(&first));
    assert!(!tracker.timed_out_probes.contains_key(&first));
    assert!(tracker.timed_out_probes.contains_key(&[100; 32]));
}
