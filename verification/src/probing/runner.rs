//! The course of a probing round, and what is said about it.
use crate::hex_utils;
use crate::hex_utils::hex_str;
use crate::logging;
use crate::logging::{log_error, log_info, log_warn, Level, Message};
use crate::probing::sender::{ProbeError, ProbeErrorView};
use crate::probing::tracker::ProbeOutcome;
use crate::runtime_config::ProbingConfig;
use crate::table::Bytes32;
use crate::text;
use crate::text::{number, split, trim};
use vstd::prelude::*;

verus! {

/// What is probed in a round.
#[derive(Clone, Copy, Debug, PartialEq, Eq, Structural)]
pub struct ProbingModes {
    /// The configured peers.
    pub peer_list: bool,
    /// Random nodes of the network graph.
    pub random_graph: bool,
}

/// What is probed under a configuration: peers if there are both peers and amounts, random nodes if
/// there are both an amount and a number of them.
pub open spec fn modes_of(c: ProbingConfig) -> ProbingModes {
    ProbingModes {
        peer_list: c.peers@.len() > 0 && c.amount_msats@.len() > 0,
        random_graph: c.random_min_amount_msat > 0 && c.random_nodes_per_interval > 0,
    }
}

/// What is probed under a configuration.
pub fn compute_modes(probe_config: &ProbingConfig) -> (r: ProbingModes)
    ensures
        r == modes_of(*probe_config),
{
    ProbingModes {
        peer_list: probe_config.peers.len() > 0 && probe_config.amount_msats.len() > 0,
        random_graph: probe_config.random_min_amount_msat > 0
            && probe_config.random_nodes_per_interval > 0,
    }
}

/// The warnings about a configuration that asks for half of something, or for nothing.
pub open spec fn warnings_of(c: ProbingConfig, modes: ProbingModes) -> Seq<Seq<char>> {
    let peers = if modes.peer_list {
        seq![]
    } else if c.peers@.len() == 0 && c.amount_msats@.len() > 0 {
        seq!["probing.peers is empty in config.toml. Peer-list probing disabled."@]
    } else if c.peers@.len() > 0 && c.amount_msats@.len() == 0 {
        seq!["probing.amount_msats is empty in config.toml. Peer-list probing disabled."@]
    } else {
        seq![]
    };
    let random = if !modes.random_graph && c.random_min_amount_msat > 0
        && c.random_nodes_per_interval == 0 {
        seq![
            "probing.random_nodes_per_interval is 0 in config.toml. Random-graph probing disabled."@,
        ]
    } else {
        seq![]
    };
    let nothing = if !modes.peer_list && !modes.random_graph {
        seq!["Probing config does not enable any probing mode. Probing disabled."@]
    } else {
        seq![]
    };
    peers + random + nothing
}

/// The texts as warnings for the log file.
pub open spec fn as_warnings(s: Seq<Seq<char>>) -> Seq<logging::MessageView> {
    Seq::new(s.len(), |i: int| logging::log(Level::Warn, s[i]))
}

/// The warnings about a configuration that asks for half of something, or for nothing.
pub fn mode_warnings(probe_config: &ProbingConfig, modes: ProbingModes) -> (r: Vec<Message>)
    ensures
        logging::message_views(r@) == as_warnings(warnings_of(*probe_config, modes)),
{
    let has_peer_targets = probe_config.peers.len() > 0;
    let has_peer_amounts = probe_config.amount_msats.len() > 0;
    let mut r: Vec<Message> = Vec::new();
    if !modes.peer_list {
        if !has_peer_targets && has_peer_amounts {
            r.push(
                log_warn(
                    "probing.peers is empty in config.toml. Peer-list probing disabled.".to_owned(),
                ),
            );
        } else if has_peer_targets && !has_peer_amounts {
            r.push(
                log_warn(
                    "probing.amount_msats is empty in config.toml. Peer-list probing disabled.".to_owned(),
                ),
            );
        }
    }
    if !modes.random_graph && probe_config.random_min_amount_msat > 0
        && probe_config.random_nodes_per_interval == 0 {
        r.push(
            log_warn(
                "probing.random_nodes_per_interval is 0 in config.toml. Random-graph probing disabled.".to_owned(),
            ),
        );
    }
    if !modes.peer_list && !modes.random_graph {
        r.push(
            log_warn(
                "Probing config does not enable any probing mode. Probing disabled.".to_owned(),
            ),
        );
    }
    assert(logging::message_views(r@) =~= as_warnings(warnings_of(*probe_config, modes)));
    r
}

/// Whether the amounts rise.
pub open spec fn is_rising(s: Seq<u64>) -> bool {
    forall|i: int, j: int| 0 <= i <= j < s.len() ==> s[i] <= s[j]
}

/// The amounts in rising order.
pub fn sorted_amounts(amounts: &Vec<u64>) -> (r: Vec<u64>)
    ensures
        is_rising(r@),
        r@.to_multiset() == amounts@.to_multiset(),
        r@.len() == amounts@.len(),
{
    let n: usize = amounts.len();
    let mut r: Vec<u64> = Vec::new();
    let mut i: usize = 0;
    assert(r@ =~= amounts@.take(0));
    while i < n
        invariant
            n == amounts@.len(),
            i <= n,
            is_rising(r@),
            r@.len() == i,
            r@.to_multiset() == amounts@.take(i as int).to_multiset(),
        decreases n - i,
    {
        let a: u64 = amounts[i];
        let mut j: usize = r.len();
        while j > 0 && r[j - 1] > a
            invariant
                j <= r@.len(),
                is_rising(r@),
                forall|k: int| j <= k < r@.len() ==> r@[k] > a,
            decreases j,
        {
            j = j - 1;
        }
        let ghost before = r@;
        r.insert(j, a);
        proof {
            vstd::seq_lib::to_multiset_insert(before, j as int, a);
            assert(amounts@.take(i + 1) == amounts@.take(i as int).push(a));
            amounts@.take(i as int).to_multiset_ensures();
            assert forall|x: int, y: int| 0 <= x <= y < r@.len() implies r@[x] <= r@[y] by {
                let u = if x < j {
                    x
                } else {
                    x - 1
                };
                let v = if y < j {
                    y
                } else {
                    y - 1
                };
                if x != j && y != j {
                    assert(before[u] <= before[v]);
                } else if x < j && y == j && j > 0 {
                    assert(before[x] <= before[j - 1]);
                }
            }
        }
        i = i + 1;
    }
    assert(amounts@.take(n as int) == amounts@);
    r
}

/// The peer's key in `pubkey@host:port` or `pubkey`.
pub open spec fn peer_key(peer: Seq<char>) -> Seq<char> {
    text::trimmed(text::split_of(peer, '@')[0])
}

/// The text of the key in a peer entry, if it is not empty.
pub fn extract_peer_pubkey<'a>(peer: &'a str) -> (r: Option<&'a str>)
    ensures
        match r {
            Some(k) => k@ == peer_key(peer@) && k@.len() > 0,
            None => peer_key(peer@).len() == 0,
        },
{
    let parts = split(peer, '@');
    assert(text::texts(parts@)[0] == parts@[0]@);
    let pubkey = trim(parts[0]);
    if pubkey.is_empty() {
        None
    } else {
        Some(pubkey)
    }
}

/// Where the cut of a long key falls: on a boundary of characters.
pub open spec fn can_truncate(pubkey: Seq<char>) -> bool {
    vstd::utf8::encode_utf8(pubkey).len() > 12 ==> vstd::utf8::is_char_boundary(
        vstd::utf8::encode_utf8(pubkey),
        12,
    )
}

/// A key of more than twelve bytes cut to twelve, with dots for the rest.
pub open spec fn truncated(pubkey: Seq<char>) -> Seq<char> {
    let bytes = vstd::utf8::encode_utf8(pubkey);
    if bytes.len() > 12 {
        vstd::utf8::decode_utf8(bytes.subrange(0, 12)) + "..."@
    } else {
        pubkey
    }
}

/// The beginning of a key, for messages.
pub fn truncate_pubkey(pubkey: &str) -> (r: String)
    requires
        can_truncate(pubkey@),
    ensures
        r@ == truncated(pubkey@),
{
    if pubkey.as_bytes().len() > 12 {
        let (start, _) = pubkey.split_at(12);
        proof {
            vstd::utf8::encode_utf8_decode_utf8(start@);
        }
        let mut r = start.to_owned();
        r.append("...");
        r
    } else {
        pubkey.to_owned()
    }
}

/// `true` or `false`.
pub open spec fn yes_no(b: bool) -> Seq<char> {
    if b {
        "true"@
    } else {
        "false"@
    }
}

fn yes_no_text(b: bool) -> (r: &'static str)
    ensures
        r@ == yes_no(b),
{
    if b {
        "true"
    } else {
        "false"
    }
}

/// The amounts with commas between them.
pub open spec fn listed(s: Seq<u64>) -> Seq<char>
    decreases s.len(),
{
    if s.len() == 0 {
        Seq::empty()
    } else if s.len() == 1 {
        text::decimal(s[0] as nat)
    } else {
        listed(s.drop_last()) + ", "@ + text::decimal(s.last() as nat)
    }
}

fn list_text(amounts: &Vec<u64>) -> (r: String)
    ensures
        r@ == listed(amounts@),
{
    let n: usize = amounts.len();
    let mut r = String::new();
    let mut i: usize = 0;
    assert(r@ =~= listed(amounts@.take(0)));
    while i < n
        invariant
            n == amounts@.len(),
            i <= n,
            r@ == listed(amounts@.take(i as int)),
        decreases n - i,
    {
        let ghost before = r@;
        assert(amounts@.take(i + 1).drop_last() == amounts@.take(i as int));
        if i > 0 {
            r.append(", ");
        }
        r.append(number(amounts[i]).as_str());
        proof {
            if i == 0 {
                assert(before =~= Seq::<char>::empty());
                assert(r@ =~= text::decimal(amounts@[0] as nat));
            }
        }
        i = i + 1;
    }
    assert(amounts@.take(n as int) == amounts@);
    r
}

/// What is said when probing starts.
pub open spec fn startup_of(c: ProbingConfig, modes: ProbingModes, amounts: Seq<u64>) -> Seq<char> {
    "Probing started: peer_list_mode="@ + yes_no(modes.peer_list) + " ("@ + text::decimal(
        c.peers@.len(),
    ) + " peers, "@ + text::decimal(amounts.len()) + " amounts ["@ + listed(amounts)
        + "] msat), random_graph_mode="@ + yes_no(modes.random_graph) + " ("@ + text::decimal(
        c.random_nodes_per_interval as nat,
    ) + " nodes/interval at "@ + text::decimal(c.random_min_amount_msat as nat)
        + " msat), interval="@ + text::decimal(c.interval_sec as nat) + "s, timeout="@
        + text::decimal(c.timeout_sec as nat) + "s, probe_delay="@ + text::decimal(
        c.probe_delay_sec as nat,
    ) + "s, peer_delay="@ + text::decimal(c.peer_delay_sec as nat) + "s"@
}

/// What is said when probing starts.
pub fn startup_message(
    probe_config: &ProbingConfig,
    modes: ProbingModes,
    sorted_amounts: &Vec<u64>,
) -> (r: Message)
    ensures
        r@ == logging::log(Level::Info, startup_of(*probe_config, modes, sorted_amounts@)),
{
    let mut t = "Probing started: peer_list_mode=".to_owned();
    t.append(yes_no_text(modes.peer_list));
    t.append(" (");
    t.append(number(probe_config.peers.len() as u64).as_str());
    t.append(" peers, ");
    t.append(number(sorted_amounts.len() as u64).as_str());
    t.append(" amounts [");
    t.append(list_text(sorted_amounts).as_str());
    t.append("] msat), random_graph_mode=");
    t.append(yes_no_text(modes.random_graph));
    t.append(" (");
    t.append(number(probe_config.random_nodes_per_interval).as_str());
    t.append(" nodes/interval at ");
    t.append(number(probe_config.random_min_amount_msat).as_str());
    t.append(" msat), interval=");
    t.append(number(probe_config.interval_sec).as_str());
    t.append("s, timeout=");
    t.append(number(probe_config.timeout_sec).as_str());
    t.append("s, probe_delay=");
    t.append(number(probe_config.probe_delay_sec).as_str());
    t.append("s, peer_delay=");
    t.append(number(probe_config.peer_delay_sec).as_str());
    t.append("s");
    log_info(t)
}

/// How a probe ended for the one who sent it.
pub enum ProbeCompletion {
    /// It reached its destination.
    Success(Bytes32),
    /// It did not.
    Failed(Bytes32),
    /// Nobody will say how it ended.
    Dropped(Bytes32),
    /// It was given up.
    Timeout(Bytes32),
    /// It was not sent.
    SendError(ProbeError),
}

/// Whether larger amounts are not tried any more after a probe that ended this way.
pub open spec fn ends_amounts(c: ProbeCompletion) -> bool {
    match c {
        ProbeCompletion::Success(_) => false,
        _ => true,
    }
}

/// A probe that did not reach its destination, for whatever reason, is the last of its peer: only after
/// one that did is a larger amount tried.
pub proof fn law_only_success_goes_on(c: ProbeCompletion, hash: Bytes32, wait: ProbeWait)
    ensures
        c is Failed || c is Dropped || c is Timeout || c is SendError ==> ends_amounts(c),
        c is Success ==> !ends_amounts(c),
        ends_amounts(completion_of(hash, wait)) <==> wait != ProbeWait::Ended(
            ProbeOutcome::Success,
        ),
{
}

impl ProbeCompletion {
    /// Whether larger amounts are not tried any more.
    pub fn should_break_peer_amounts(&self) -> (r: bool)
        ensures
            r == !(*self is Success),
            r == ends_amounts(*self),
    {
        match self {
            ProbeCompletion::Success(_) => false,
            _ => true,
        }
    }
}

/// What came of waiting for a probe.
pub enum ProbeWait {
    /// It ended.
    Ended(ProbeOutcome),
    /// The other end of the channel is gone.
    ChannelClosed,
    /// The time is up.
    TimedOut,
    /// The tracker cannot be used to wait.
    TrackerLost,
}

/// How a probe that was sent ended, given what came of waiting for it.
pub open spec fn completion_of(payment_hash: Bytes32, wait: ProbeWait) -> ProbeCompletion {
    match wait {
        ProbeWait::Ended(ProbeOutcome::Success) => ProbeCompletion::Success(payment_hash),
        ProbeWait::Ended(ProbeOutcome::Failed) => ProbeCompletion::Failed(payment_hash),
        ProbeWait::ChannelClosed => ProbeCompletion::Dropped(payment_hash),
        ProbeWait::TimedOut => ProbeCompletion::Timeout(payment_hash),
        ProbeWait::TrackerLost => ProbeCompletion::Dropped(payment_hash),
    }
}

/// A probe that was sent has succeeded exactly if it was told to have reached its destination, and failed
/// exactly if it was told not to; one that was given up has timed out, and one that nobody will tell of is
/// dropped. The probe stays the same.
pub proof fn law_probes_end_as_told(payment_hash: Bytes32, wait: ProbeWait)
    ensures
        completion_of(payment_hash, wait) is Success <==> wait == ProbeWait::Ended(
            ProbeOutcome::Success,
        ),
        completion_of(payment_hash, wait) is Failed <==> wait == ProbeWait::Ended(
            ProbeOutcome::Failed,
        ),
        completion_of(payment_hash, wait) is Timeout <==> wait is TimedOut,
        completion_of(payment_hash, wait) is Dropped <==> wait is ChannelClosed
            || wait is TrackerLost,
        match completion_of(payment_hash, wait) {
            ProbeCompletion::Success(h) => h == payment_hash,
            ProbeCompletion::Failed(h) => h == payment_hash,
            ProbeCompletion::Dropped(h) => h == payment_hash,
            ProbeCompletion::Timeout(h) => h == payment_hash,
            ProbeCompletion::SendError(_) => false,
        },
{
}

/// How a probe that was sent ended, given what came of waiting for it.
pub fn awaited_completion(payment_hash: Bytes32, wait: ProbeWait) -> (r: ProbeCompletion)
    ensures
        r == (match wait {
            ProbeWait::Ended(ProbeOutcome::Success) => ProbeCompletion::Success(payment_hash),
            ProbeWait::Ended(ProbeOutcome::Failed) => ProbeCompletion::Failed(payment_hash),
            ProbeWait::ChannelClosed => ProbeCompletion::Dropped(payment_hash),
            ProbeWait::TimedOut => ProbeCompletion::Timeout(payment_hash),
            ProbeWait::TrackerLost => ProbeCompletion::Dropped(payment_hash),
        }),
        r == completion_of(payment_hash, wait),
{
    match wait {
        ProbeWait::Ended(ProbeOutcome::Success) => ProbeCompletion::Success(payment_hash),
        ProbeWait::Ended(ProbeOutcome::Failed) => ProbeCompletion::Failed(payment_hash),
        ProbeWait::ChannelClosed => ProbeCompletion::Dropped(payment_hash),
        ProbeWait::TimedOut => ProbeCompletion::Timeout(payment_hash),
        ProbeWait::TrackerLost => ProbeCompletion::Dropped(payment_hash),
    }
}

/// What is said when the tracker cannot be used.
pub fn tracker_lost_message(payment_hash: &Bytes32, registering: bool) -> (r: Message)
    ensures
        r@ == logging::log(
            Level::Error,
            if registering {
                "Probe tracker mutex poisoned while registering probe "@ + hex_utils::hex_of(
                    payment_hash@,
                ) + "; treating as dropped"@
            } else {
                "Probe tracker mutex poisoned while marking probe "@ + hex_utils::hex_of(
                    payment_hash@,
                ) + " timed-out"@
            },
        ),
{
    let hash = hex_str(payment_hash.as_slice());
    if registering {
        let mut t = "Probe tracker mutex poisoned while registering probe ".to_owned();
        t.append(hash.as_str());
        t.append("; treating as dropped");
        log_error(t)
    } else {
        let mut t = "Probe tracker mutex poisoned while marking probe ".to_owned();
        t.append(hash.as_str());
        t.append(" timed-out");
        log_error(t)
    }
}

/// What is said when a probe has been sent.
pub fn sent_message(
    random: bool,
    destination_node: &str,
    amount_msat: u64,
    payment_hash: &Bytes32,
) -> (r: Message)
    requires
        can_truncate(destination_node@),
    ensures
        r@ == logging::log(
            Level::Info,
            (if random {
                "Random probe SENT to "@
            } else {
                "Probe SENT to "@
            }) + truncated(destination_node@) + " for "@ + text::decimal(amount_msat as nat)
                + " msat (hash: "@ + hex_utils::hex_of(payment_hash@) + ")"@,
        ),
{
    let mut t = if random {
        "Random probe SENT to ".to_owned()
    } else {
        "Probe SENT to ".to_owned()
    };
    t.append(truncate_pubkey(destination_node).as_str());
    t.append(" for ");
    t.append(number(amount_msat).as_str());
    t.append(" msat (hash: ");
    t.append(hex_str(payment_hash.as_slice()).as_str());
    t.append(")");
    log_info(t)
}

/// The state of a probe that ended, as it is logged, with what is known of it.
pub open spec fn completion_state(c: ProbeCompletion) -> Seq<char> {
    match c {
        ProbeCompletion::Success(h) => "SUCCESS payment_hash="@ + hex_utils::hex_of(h@),
        ProbeCompletion::Failed(h) => "FAILED payment_hash="@ + hex_utils::hex_of(h@),
        ProbeCompletion::Dropped(h) => "DROPPED payment_hash="@ + hex_utils::hex_of(h@),
        ProbeCompletion::Timeout(h) => "TIMEOUT payment_hash="@ + hex_utils::hex_of(h@),
        ProbeCompletion::SendError(e) => match e@ {
            ProbeErrorView::NoRoute(m) => "NO_ROUTE error="@ + m,
            ProbeErrorView::SendFailed(m) => "SEND_FAILED error="@ + m,
            ProbeErrorView::InvalidInput(m) => "INVALID_INPUT error="@ + m,
        },
    }
}

/// What is logged of a probe that ended: a success for information, the rest as a warning.
pub open spec fn completion_logged(
    destination_node: Seq<char>,
    amount_msat: u64,
    c: ProbeCompletion,
) -> logging::MessageView {
    logging::log(
        if c is Success {
            Level::Info
        } else {
            Level::Warn
        },
        "probe_completed destination_node="@ + destination_node + " amount_msat="@ + text::decimal(
            amount_msat as nat,
        ) + " state="@ + completion_state(c),
    )
}

fn state_text(label: &str, rest: &str) -> (r: String)
    ensures
        r@ == label@ + rest@,
{
    let mut r = label.to_owned();
    r.append(rest);
    r
}

/// What is logged of a probe that ended.
pub fn log_probe_completed(
    destination_node: &str,
    amount_msat: u64,
    completion: &ProbeCompletion,
) -> (r: Message)
    ensures
        r@ == completion_logged(destination_node@, amount_msat, *completion),
{
    let state = match completion {
        ProbeCompletion::Success(h) => state_text(
            "SUCCESS payment_hash=",
            hex_str(h.as_slice()).as_str(),
        ),
        ProbeCompletion::Failed(h) => state_text(
            "FAILED payment_hash=",
            hex_str(h.as_slice()).as_str(),
        ),
        ProbeCompletion::Dropped(h) => state_text(
            "DROPPED payment_hash=",
            hex_str(h.as_slice()).as_str(),
        ),
        ProbeCompletion::Timeout(h) => state_text(
            "TIMEOUT payment_hash=",
            hex_str(h.as_slice()).as_str(),
        ),
        ProbeCompletion::SendError(ProbeError::NoRoute(m)) => state_text(
            "NO_ROUTE error=",
            m.as_str(),
        ),
        ProbeCompletion::SendError(ProbeError::SendFailed(m)) => state_text(
            "SEND_FAILED error=",
            m.as_str(),
        ),
        ProbeCompletion::SendError(ProbeError::InvalidInput(m)) => state_text(
            "INVALID_INPUT error=",
            m.as_str(),
        ),
    };
    let mut t = "probe_completed destination_node=".to_owned();
    t.append(destination_node);
    t.append(" amount_msat=");
    t.append(number(amount_msat).as_str());
    t.append(" state=");
    t.append(state.as_str());
    if completion.should_break_peer_amounts() {
        log_warn(t)
    } else {
        log_info(t)
    }
}

/// How many random nodes a round probes at most.
pub fn requested_nodes(probe_config: &ProbingConfig) -> (r: usize)
    ensures
        r == (if probe_config.random_nodes_per_interval <= usize::MAX {
            probe_config.random_nodes_per_interval as int
        } else {
            usize::MAX as int
        }),
{
    if probe_config.random_nodes_per_interval <= usize::MAX as u64 {
        probe_config.random_nodes_per_interval as usize
    } else {
        usize::MAX
    }
}

/// What is logged of a peer entry that holds no key.
pub fn invalid_peer_message(peer: &str) -> (r: Message)
    ensures
        r@ == logging::log(
            Level::Warn,
            "Probe skipped: invalid peer entry '"@ + peer@
                + "' (expected pubkey@host:port or pubkey)"@,
        ),
{
    let mut t = "Probe skipped: invalid peer entry '".to_owned();
    t.append(peer);
    t.append("' (expected pubkey@host:port or pubkey)");
    log_warn(t)
}

/// Where a round stands. A peer is named by its position in the configuration, an amount by its
/// position in rising order, a random node by its position in the sample.
#[derive(Clone, Copy, Debug, PartialEq, Eq, Structural)]
pub enum Round {
    /// Between two rounds: wait for the interval to pass.
    Waiting,
    /// Read the key of this peer.
    Peer(usize),
    /// Probe this peer with this amount.
    ProbingPeer { peer: usize, amount: usize },
    /// Rest after a probe. `stop` says that the peer gets no larger amount.
    PausingPeer { peer: usize, amount: usize, stop: bool },
    /// Rest after this peer.
    Resting(usize),
    /// Choose random nodes.
    Sampling,
    /// Probe this node of so many.
    ProbingNode { node: usize, count: usize },
    /// Rest after the probe of this node of so many.
    PausingNode { node: usize, count: usize },
}

/// What happened in a round.
#[derive(Clone, Copy, Debug, PartialEq, Eq, Structural)]
pub enum RoundEvent {
    /// The interval has passed.
    Tick,
    /// The key of the peer was read, and is valid or not.
    PeerRead { valid: bool },
    /// The probe ended.
    Completed { success: bool },
    /// The rest is over.
    Rested,
    /// So many random nodes were chosen.
    Sampled { count: usize },
}

/// What follows the last peer.
pub open spec fn after_peers(modes: ProbingModes) -> Round {
    if modes.random_graph {
        Round::Sampling
    } else {
        Round::Waiting
    }
}

/// Where a round stands after `event`, with so many peers and amounts. Every peer with a key is
/// probed with rising amounts up to the first probe that does not succeed, with a rest after each
/// probe and after each peer but the last; random nodes follow. An event that does not fit is
/// ignored.
pub open spec fn next_round(
    round: Round,
    event: RoundEvent,
    modes: ProbingModes,
    peers: nat,
    amounts: nat,
) -> Round {
    match (round, event) {
        (Round::Waiting, RoundEvent::Tick) => if modes.peer_list {
            Round::Peer(0)
        } else {
            after_peers(modes)
        },
        (Round::Peer(p), RoundEvent::PeerRead { valid }) => if valid {
            Round::ProbingPeer { peer: p, amount: 0 }
        } else if p + 1 < peers {
            Round::Peer((p + 1) as usize)
        } else {
            after_peers(modes)
        },
        (Round::ProbingPeer { peer, amount }, RoundEvent::Completed { success }) =>
            Round::PausingPeer { peer, amount, stop: !success },
        (Round::PausingPeer { peer, amount, stop }, RoundEvent::Rested) => if !stop && amount + 1
            < amounts {
            Round::ProbingPeer { peer, amount: (amount + 1) as usize }
        } else if peer + 1 < peers {
            Round::Resting(peer)
        } else {
            after_peers(modes)
        },
        (Round::Resting(p), RoundEvent::Rested) => if p + 1 < peers {
            Round::Peer((p + 1) as usize)
        } else {
            after_peers(modes)
        },
        (Round::Sampling, RoundEvent::Sampled { count }) => if count == 0 {
            Round::Waiting
        } else {
            Round::ProbingNode { node: 0, count }
        },
        (Round::ProbingNode { node, count }, RoundEvent::Completed { .. }) =>
            Round::PausingNode { node, count },
        (Round::PausingNode { node, count }, RoundEvent::Rested) => if node + 1 < count {
            Round::ProbingNode { node: (node + 1) as usize, count }
        } else {
            Round::Waiting
        },
        _ => round,
    }
}

/// Where a round stands after `event`.
pub fn advance_round(
    round: Round,
    event: RoundEvent,
    modes: ProbingModes,
    peers: usize,
    amounts: usize,
) -> (r: Round)
    ensures
        r == next_round(round, event, modes, peers as nat, amounts as nat),
{
    let done = if modes.random_graph {
        Round::Sampling
    } else {
        Round::Waiting
    };
    match (round, event) {
        (Round::Waiting, RoundEvent::Tick) => if modes.peer_list {
            Round::Peer(0)
        } else {
            done
        },
        (Round::Peer(p), RoundEvent::PeerRead { valid }) => if valid {
            Round::ProbingPeer { peer: p, amount: 0 }
        } else if p < peers && p + 1 < peers {
            Round::Peer(p + 1)
        } else {
            done
        },
        (Round::ProbingPeer { peer, amount }, RoundEvent::Completed { success }) =>
            Round::PausingPeer { peer, amount, stop: !success },
        (Round::PausingPeer { peer, amount, stop }, RoundEvent::Rested) => if !stop && amount
            < amounts && amount + 1 < amounts {
            Round::ProbingPeer { peer, amount: amount + 1 }
        } else if peer < peers && peer + 1 < peers {
            Round::Resting(peer)
        } else {
            done
        },
        (Round::Resting(p), RoundEvent::Rested) => if p < peers && p + 1 < peers {
            Round::Peer(p + 1)
        } else {
            done
        },
        (Round::Sampling, RoundEvent::Sampled { count }) => if count == 0 {
            Round::Waiting
        } else {
            Round::ProbingNode { node: 0, count }
        },
        (Round::ProbingNode { node, count }, RoundEvent::Completed { .. }) =>
            Round::PausingNode { node, count },
        (Round::PausingNode { node, count }, RoundEvent::Rested) => if node < count && node + 1
            < count {
            Round::ProbingNode { node: node + 1, count }
        } else {
            Round::Waiting
        },
        _ => round,
    }
}

/// Whether the positions of a round are those of peers, amounts and nodes that exist.
pub open spec fn in_bounds(round: Round, peers: nat, amounts: nat) -> bool {
    match round {
        Round::Waiting => true,
        Round::Peer(p) => p < peers && amounts > 0,
        Round::ProbingPeer { peer, amount } => peer < peers && amount < amounts,
        Round::PausingPeer { peer, amount, .. } => peer < peers && amount < amounts,
        Round::Resting(p) => p < peers && amounts > 0,
        Round::Sampling => true,
        Round::ProbingNode { node, count } => node < count,
        Round::PausingNode { node, count } => node < count,
    }
}

/// The amount of the probe that a round stands at, in millisatoshi, if it stands at one: a peer gets
/// the amount that the round names, and every random node the same one.
pub open spec fn amount_of(c: ProbingConfig, sorted: Seq<u64>, round: Round) -> Option<u64> {
    match round {
        Round::ProbingPeer { amount, .. } => if amount < sorted.len() {
            Some(sorted[amount as int])
        } else {
            None
        },
        Round::ProbingNode { .. } => Some(c.random_min_amount_msat),
        _ => None,
    }
}

/// The amount of the probe that a round stands at, if it stands at one. `sorted` are the amounts for
/// the peers in rising order.
pub fn probe_amount(c: &ProbingConfig, sorted: &Vec<u64>, round: Round) -> (r: Option<u64>)
    ensures
        r == amount_of(*c, sorted@, round),
        round is ProbingNode ==> r == Some(c.random_min_amount_msat),
        round matches Round::ProbingPeer { amount, .. } ==> amount < sorted@.len() ==> r == Some(
            sorted@[amount as int],
        ),
        !(round is ProbingNode || round is ProbingPeer) ==> r is None,
{
    match round {
        Round::ProbingPeer { amount, .. } => if amount < sorted.len() {
            Some(sorted[amount])
        } else {
            None
        },
        Round::ProbingNode { .. } => Some(c.random_min_amount_msat),
        _ => None,
    }
}

/// Every probe of a round has an amount, and nothing else has one.
pub proof fn law_every_probe_has_an_amount(c: ProbingConfig, sorted: Seq<u64>, round: Round)
    requires
        in_bounds(round, c.peers@.len(), sorted.len()),
    ensures
        amount_of(c, sorted, round) is Some <==> round is ProbingPeer || round is ProbingNode,
{
}

/// However a random node's probe ends, the next random node of the round is probed with the same
/// amount.
pub proof fn law_random_nodes_get_one_amount(
    c: ProbingConfig,
    sorted: Seq<u64>,
    node: usize,
    count: usize,
    success: bool,
)
    requires
        node + 1 < count,
    ensures
        ({
            let here = Round::ProbingNode { node, count };
            let paused = next_round(
                here,
                RoundEvent::Completed { success },
                modes_of(c),
                c.peers@.len(),
                sorted.len(),
            );
            let next = next_round(
                paused,
                RoundEvent::Rested,
                modes_of(c),
                c.peers@.len(),
                sorted.len(),
            );
            &&& next == (Round::ProbingNode { node: (node + 1) as usize, count })
            &&& amount_of(c, sorted, here) == Some(c.random_min_amount_msat)
            &&& amount_of(c, sorted, next) == Some(c.random_min_amount_msat)
        }),
{
}

/// A round never leaves the peers, the amounts and the chosen nodes.
pub proof fn law_round_stays_in_bounds(round: Round, event: RoundEvent, c: ProbingConfig)
    requires
        in_bounds(round, c.peers@.len(), c.amount_msats@.len()),
    ensures
        in_bounds(
            next_round(round, event, modes_of(c), c.peers@.len(), c.amount_msats@.len()),
            c.peers@.len(),
            c.amount_msats@.len(),
        ),
{
}

/// A probe that does not succeed is the last of its peer in this round; after one that succeeds the
/// next larger amount follows, if there is one.
pub proof fn law_failure_ends_amounts(
    peer: usize,
    amount: usize,
    success: bool,
    modes: ProbingModes,
    peers: nat,
    amounts: nat,
)
    requires
        peer < peers,
        amount < amounts,
    ensures
        ({
            let paused = next_round(
                Round::ProbingPeer { peer, amount },
                RoundEvent::Completed { success },
                modes,
                peers,
                amounts,
            );
            let next = next_round(paused, RoundEvent::Rested, modes, peers, amounts);
            &&& !success ==> !(next is ProbingPeer)
            &&& success && amount + 1 < amounts ==> next == (Round::ProbingPeer {
                peer,
                amount: (amount + 1) as usize,
            })
        }),
{
}

/// When a peer has had its amounts, because one did not succeed or there is none left, the pause and the
/// rest after the peer lead on to the next peer, if there is one; the last peer is followed by random
/// nodes, or by the wait for the next round.
pub proof fn law_next_peer_follows(
    peer: usize,
    amount: usize,
    stop: bool,
    modes: ProbingModes,
    peers: nat,
    amounts: nat,
)
    requires
        peer < peers <= usize::MAX,
        amount < amounts <= usize::MAX,
        stop || amount + 1 == amounts,
    ensures
        ({
            let once = next_round(
                Round::PausingPeer { peer, amount, stop },
                RoundEvent::Rested,
                modes,
                peers,
                amounts,
            );
            let twice = next_round(once, RoundEvent::Rested, modes, peers, amounts);
            &&& peer + 1 < peers ==> once == Round::Resting(peer) && twice == Round::Peer(
                (peer + 1) as usize,
            )
            &&& peer + 1 == peers && modes.random_graph ==> once == Round::Sampling
            &&& peer + 1 == peers && !modes.random_graph ==> once == Round::Waiting
        }),
{
}

/// A round begins with the first peer if peers are probed, and else with random nodes if those are. A
/// peer with a key is probed, with the smallest amount first; one without is passed over.
pub proof fn law_rounds_begin_with_the_first_peer(
    p: usize,
    modes: ProbingModes,
    peers: nat,
    amounts: nat,
)
    requires
        p < peers <= usize::MAX,
    ensures
        modes.peer_list ==> next_round(Round::Waiting, RoundEvent::Tick, modes, peers, amounts)
            == Round::Peer(0),
        !modes.peer_list && modes.random_graph ==> next_round(
            Round::Waiting,
            RoundEvent::Tick,
            modes,
            peers,
            amounts,
        ) == Round::Sampling,
        !modes.peer_list && !modes.random_graph ==> next_round(
            Round::Waiting,
            RoundEvent::Tick,
            modes,
            peers,
            amounts,
        ) == Round::Waiting,
        next_round(Round::Peer(p), RoundEvent::PeerRead { valid: true }, modes, peers, amounts) == (
        Round::ProbingPeer { peer: p, amount: 0 }),
        p + 1 < peers ==> next_round(
            Round::Peer(p),
            RoundEvent::PeerRead { valid: false },
            modes,
            peers,
            amounts,
        ) == Round::Peer((p + 1) as usize),
        p + 1 == peers ==> !(next_round(
            Round::Peer(p),
            RoundEvent::PeerRead { valid: false },
            modes,
            peers,
            amounts,
        ) is ProbingPeer),
{
}

/// What happens where a round stands. `valid` says of a peer whether its key is valid, `succeeds` of a
/// peer and an amount whether the probe succeeds, and `count` random nodes are chosen.
pub open spec fn event_at(
    round: Round,
    valid: spec_fn(usize) -> bool,
    succeeds: spec_fn(usize, usize) -> bool,
    count: usize,
) -> RoundEvent {
    match round {
        Round::Waiting => RoundEvent::Tick,
        Round::Peer(p) => RoundEvent::PeerRead { valid: valid(p) },
        Round::ProbingPeer { peer, amount } => RoundEvent::Completed {
            success: succeeds(peer, amount),
        },
        Round::Sampling => RoundEvent::Sampled { count },
        Round::ProbingNode { .. } => RoundEvent::Completed { success: false },
        _ => RoundEvent::Rested,
    }
}

/// Where rounds stand after so many steps from the wait for the first one.
pub open spec fn round_at(
    steps: nat,
    valid: spec_fn(usize) -> bool,
    succeeds: spec_fn(usize, usize) -> bool,
    count: usize,
    modes: ProbingModes,
    peers: nat,
    amounts: nat,
) -> Round
    decreases steps,
{
    if steps == 0 {
        Round::Waiting
    } else {
        let before = round_at(
            (steps - 1) as nat,
            valid,
            succeeds,
            count,
            modes,
            peers,
            amounts,
        );
        next_round(before, event_at(before, valid, succeeds, count), modes, peers, amounts)
    }
}

proof fn lemma_amounts_end(
    n: nat,
    peer: usize,
    amount: usize,
    valid: spec_fn(usize) -> bool,
    succeeds: spec_fn(usize, usize) -> bool,
    count: usize,
    modes: ProbingModes,
    peers: nat,
    amounts: nat,
) -> (m: nat)
    requires
        peer < peers <= usize::MAX,
        amount < amounts <= usize::MAX,
        round_at(n, valid, succeeds, count, modes, peers, amounts) == (Round::ProbingPeer {
            peer,
            amount,
        }),
    ensures
        round_at(m, valid, succeeds, count, modes, peers, amounts) == (if peer + 1 < peers {
            Round::Peer((peer + 1) as usize)
        } else {
            after_peers(modes)
        }),
    decreases amounts - amount,
{
    let s = |k: nat| round_at(k, valid, succeeds, count, modes, peers, amounts);
    assert(s(n + 1) == (Round::PausingPeer { peer, amount, stop: !succeeds(peer, amount) }));
    if succeeds(peer, amount) && amount + 1 < amounts {
        assert(s(n + 2) == (Round::ProbingPeer { peer, amount: (amount + 1) as usize }));
        lemma_amounts_end(
            n + 2,
            peer,
            (amount + 1) as usize,
            valid,
            succeeds,
            count,
            modes,
            peers,
            amounts,
        )
    } else if peer + 1 < peers {
        assert(s(n + 2) == Round::Resting(peer));
        assert(s(n + 3) == Round::Peer((peer + 1) as usize));
        n + 3
    } else {
        assert(s(n + 2) == after_peers(modes));
        n + 2
    }
}

proof fn lemma_peer_ends(
    n: nat,
    p: usize,
    valid: spec_fn(usize) -> bool,
    succeeds: spec_fn(usize, usize) -> bool,
    count: usize,
    modes: ProbingModes,
    peers: nat,
    amounts: nat,
) -> (m: nat)
    requires
        p < peers <= usize::MAX,
        0 < amounts <= usize::MAX,
        round_at(n, valid, succeeds, count, modes, peers, amounts) == Round::Peer(p),
    ensures
        round_at(m, valid, succeeds, count, modes, peers, amounts) == (if p + 1 < peers {
            Round::Peer((p + 1) as usize)
        } else {
            after_peers(modes)
        }),
{
    let s = |k: nat| round_at(k, valid, succeeds, count, modes, peers, amounts);
    if valid(p) {
        assert(s(n + 1) == (Round::ProbingPeer { peer: p, amount: 0 }));
        lemma_amounts_end(n + 1, p, 0, valid, succeeds, count, modes, peers, amounts)
    } else {
        assert(s(n + 1) == (if p + 1 < peers {
            Round::Peer((p + 1) as usize)
        } else {
            after_peers(modes)
        }));
        n + 1
    }
}

proof fn lemma_peer_is_reached(
    p: usize,
    valid: spec_fn(usize) -> bool,
    succeeds: spec_fn(usize, usize) -> bool,
    count: usize,
    modes: ProbingModes,
    peers: nat,
    amounts: nat,
) -> (n: nat)
    requires
        modes.peer_list,
        p < peers <= usize::MAX,
        0 < amounts <= usize::MAX,
    ensures
        round_at(n, valid, succeeds, count, modes, peers, amounts) == Round::Peer(p),
    decreases p,
{
    if p == 0 {
        assert(round_at(0, valid, succeeds, count, modes, peers, amounts) == Round::Waiting);
        1
    } else {
        let before = (p - 1) as usize;
        let n = lemma_peer_is_reached(before, valid, succeeds, count, modes, peers, amounts);
        lemma_peer_ends(n, before, valid, succeeds, count, modes, peers, amounts)
    }
}

proof fn lemma_amount_is_reached(
    n: nat,
    peer: usize,
    amount: usize,
    valid: spec_fn(usize) -> bool,
    succeeds: spec_fn(usize, usize) -> bool,
    count: usize,
    modes: ProbingModes,
    peers: nat,
    amounts: nat,
) -> (m: nat)
    requires
        peer < peers <= usize::MAX,
        amount < amounts <= usize::MAX,
        round_at(n, valid, succeeds, count, modes, peers, amounts) == (Round::ProbingPeer {
            peer,
            amount: 0,
        }),
        forall|a: usize| a < amount ==> #[trigger] succeeds(peer, a),
    ensures
        round_at(m, valid, succeeds, count, modes, peers, amounts) == (Round::ProbingPeer {
            peer,
            amount,
        }),
    decreases amount,
{
    if amount == 0 {
        n
    } else {
        let before = (amount - 1) as usize;
        let m = lemma_amount_is_reached(
            n,
            peer,
            before,
            valid,
            succeeds,
            count,
            modes,
            peers,
            amounts,
        );
        assert(succeeds(peer, before));
        let s = |k: nat| round_at(k, valid, succeeds, count, modes, peers, amounts);
        assert(s(m + 1) == (Round::PausingPeer { peer, amount: before, stop: false }));
        assert(s(m + 2) == (Round::ProbingPeer { peer, amount }));
        m + 2
    }
}

/// Every peer with a valid key is probed, whatever comes of the probes of the others: with the smallest
/// amount, and with each larger one as long as the smaller ones succeed.
pub proof fn law_every_peer_is_probed(
    p: usize,
    amount: usize,
    valid: spec_fn(usize) -> bool,
    succeeds: spec_fn(usize, usize) -> bool,
    count: usize,
    modes: ProbingModes,
    peers: nat,
    amounts: nat,
)
    requires
        modes.peer_list,
        p < peers <= usize::MAX,
        amount < amounts <= usize::MAX,
        valid(p),
        forall|a: usize| a < amount ==> #[trigger] succeeds(p, a),
    ensures
        exists|n: nat| #[trigger]
            round_at(n, valid, succeeds, count, modes, peers, amounts) == (Round::ProbingPeer {
                peer: p,
                amount: 0,
            }),
        exists|n: nat| #[trigger]
            round_at(n, valid, succeeds, count, modes, peers, amounts) == (Round::ProbingPeer {
                peer: p,
                amount,
            }),
{
    let n = lemma_peer_is_reached(p, valid, succeeds, count, modes, peers, amounts);
    assert(round_at(n + 1, valid, succeeds, count, modes, peers, amounts) == (
    Round::ProbingPeer { peer: p, amount: 0 }));
    let m = lemma_amount_is_reached(
        n + 1,
        p,
        amount,
        valid,
        succeeds,
        count,
        modes,
        peers,
        amounts,
    );
    assert(round_at(m, valid, succeeds, count, modes, peers, amounts) == (Round::ProbingPeer {
        peer: p,
        amount,
    }));
}

/// A peer is probed only if peers are, its key is valid, and every smaller amount has succeeded.
pub proof fn law_no_other_probe_is_sent(
    steps: nat,
    valid: spec_fn(usize) -> bool,
    succeeds: spec_fn(usize, usize) -> bool,
    count: usize,
    modes: ProbingModes,
    peers: nat,
    amounts: nat,
)
    requires
        peers <= usize::MAX,
        amounts <= usize::MAX,
    ensures
        ({
            let round = round_at(steps, valid, succeeds, count, modes, peers, amounts);
            &&& round matches Round::ProbingPeer { peer, amount } ==> modes.peer_list && valid(peer)
                && forall|a: usize| a < amount ==> #[trigger] succeeds(peer, a)
            &&& round matches Round::PausingPeer { peer, amount, stop } ==> modes.peer_list
                && valid(peer) && stop == !succeeds(peer, amount) && forall|a: usize|
                a < amount ==> #[trigger] succeeds(peer, a)
            &&& round is Peer || round is Resting ==> modes.peer_list
            &&& round is Sampling ==> modes.random_graph
            &&& round matches Round::ProbingNode { node, count: c } ==> modes.random_graph && c
                == count && node < count
            &&& round matches Round::PausingNode { node, count: c } ==> modes.random_graph && c
                == count && node < count
        }),
    decreases steps,
{
    if steps > 0 {
        law_no_other_probe_is_sent(
            (steps - 1) as nat,
            valid,
            succeeds,
            count,
            modes,
            peers,
            amounts,
        );
        let before = round_at(
            (steps - 1) as nat,
            valid,
            succeeds,
            count,
            modes,
            peers,
            amounts,
        );
        let round = round_at(steps, valid, succeeds, count, modes, peers, amounts);
        if let Round::ProbingPeer { peer, amount } = round {
            assert forall|a: usize| a < amount implies #[trigger] succeeds(peer, a) by {
                if let Round::PausingPeer { peer: p, amount: b, stop } = before {
                    assert(a < b || a == b);
                }
            }
        }
    }
}

/// If random nodes are probed, every one that is chosen is, after the peers if those are probed too.
pub proof fn law_every_random_node_is_probed(
    node: usize,
    valid: spec_fn(usize) -> bool,
    succeeds: spec_fn(usize, usize) -> bool,
    count: usize,
    modes: ProbingModes,
    peers: nat,
    amounts: nat,
)
    requires
        modes.random_graph,
        modes.peer_list ==> 0 < peers && 0 < amounts,
        peers <= usize::MAX,
        amounts <= usize::MAX,
        node < count,
    ensures
        exists|n: nat| #[trigger]
            round_at(n, valid, succeeds, count, modes, peers, amounts) == (Round::ProbingNode {
                node,
                count,
            }),
{
    let n = if modes.peer_list {
        let last = (peers - 1) as usize;
        let n = lemma_peer_is_reached(last, valid, succeeds, count, modes, peers, amounts);
        lemma_peer_ends(n, last, valid, succeeds, count, modes, peers, amounts)
    } else {
        assert(round_at(0, valid, succeeds, count, modes, peers, amounts) == Round::Waiting);
        1
    };
    assert(round_at(n, valid, succeeds, count, modes, peers, amounts) == Round::Sampling);
    assert(round_at(n + 1, valid, succeeds, count, modes, peers, amounts) == (
    Round::ProbingNode { node: 0, count }));
    let m = lemma_node_is_reached(n + 1, node, valid, succeeds, count, modes, peers, amounts);
    assert(round_at(m, valid, succeeds, count, modes, peers, amounts) == (Round::ProbingNode {
        node,
        count,
    }));
}

proof fn lemma_node_is_reached(
    n: nat,
    node: usize,
    valid: spec_fn(usize) -> bool,
    succeeds: spec_fn(usize, usize) -> bool,
    count: usize,
    modes: ProbingModes,
    peers: nat,
    amounts: nat,
) -> (m: nat)
    requires
        node < count,
        round_at(n, valid, succeeds, count, modes, peers, amounts) == (Round::ProbingNode {
            node: 0,
            count,
        }),
    ensures
        round_at(m, valid, succeeds, count, modes, peers, amounts) == (Round::ProbingNode {
            node,
            count,
        }),
    decreases node,
{
    if node == 0 {
        n
    } else {
        let before = (node - 1) as usize;
        let m = lemma_node_is_reached(n, before, valid, succeeds, count, modes, peers, amounts);
        let s = |k: nat| round_at(k, valid, succeeds, count, modes, peers, amounts);
        assert(s(m + 1) == (Round::PausingNode { node: before, count }));
        assert(s(m + 2) == (Round::ProbingNode { node, count }));
        m + 2
    }
}

/// Peers are probed exactly if there are some and amounts to probe them with; random nodes exactly if an
/// amount and a number of them are set. One does not depend on the other.
pub proof fn law_modes_need_both_halves(c: ProbingConfig)
    ensures
        modes_of(c).peer_list <==> c.peers@.len() > 0 && c.amount_msats@.len() > 0,
        modes_of(c).random_graph <==> c.random_min_amount_msat > 0 && c.random_nodes_per_interval
            > 0,
{
}

/// A configuration that asks for half of something is warned about, and so is one that asks for nothing;
/// one that is complete is not.
pub proof fn law_half_configured_probing_is_warned_about(c: ProbingConfig)
    ensures
        ({
            let w = warnings_of(c, modes_of(c));
            &&& modes_of(c).peer_list && modes_of(c).random_graph ==> w.len() == 0
            &&& !modes_of(c).peer_list && !modes_of(c).random_graph <==> w.contains(
                "Probing config does not enable any probing mode. Probing disabled."@,
            )
            &&& c.peers@.len() == 0 && c.amount_msats@.len() > 0 ==> w.contains(
                "probing.peers is empty in config.toml. Peer-list probing disabled."@,
            )
            &&& c.peers@.len() > 0 && c.amount_msats@.len() == 0 ==> w.contains(
                "probing.amount_msats is empty in config.toml. Peer-list probing disabled."@,
            )
            &&& c.random_min_amount_msat > 0 && c.random_nodes_per_interval == 0 ==> w.contains(
                "probing.random_nodes_per_interval is 0 in config.toml. Random-graph probing disabled."@,
            )
            &&& modes_of(c).peer_list && c.random_min_amount_msat == 0 ==> w.len() == 0
        }),
{
    let w = warnings_of(c, modes_of(c));
    reveal_strlit("Probing config does not enable any probing mode. Probing disabled.");
    reveal_strlit("probing.peers is empty in config.toml. Peer-list probing disabled.");
    reveal_strlit("probing.amount_msats is empty in config.toml. Peer-list probing disabled.");
    reveal_strlit(
        "probing.random_nodes_per_interval is 0 in config.toml. Random-graph probing disabled.",
    );
    assert("Probing config does not enable any probing mode. Probing disabled."@[0] == 'P');
    assert("probing.peers is empty in config.toml. Peer-list probing disabled."@[0] == 'p');
    assert("probing.amount_msats is empty in config.toml. Peer-list probing disabled."@[0] == 'p');
    assert("probing.random_nodes_per_interval is 0 in config.toml. Random-graph probing disabled."@[0]
        == 'p');
    if w.len() > 0 {
        assert(w.contains(w[0]));
        assert(w.contains(w.last()));
    }
    if w.len() > 1 {
        assert(w.contains(w[1]));
    }
}

/// The key of a peer entry is what stands before the first `@`, or all of it where there is none,
/// without the whitespace around it. What follows the `@` does not matter.
pub proof fn law_peer_key_stands_before_the_address(key: Seq<char>, address: Seq<char>)
    requires
        !key.contains('@'),
    ensures
        peer_key(key) == text::trimmed(key),
        peer_key(key + seq!['@'] + address) == text::trimmed(key),
{
    text::law_split_at_the_first(key, address, '@');
}

/// Only a probe that succeeded is logged for information, the others as a warning; and two ends of a
/// probe that differ in kind are logged with different words.
pub proof fn law_log_tells_ends_apart(
    node: Seq<char>,
    amount: u64,
    a: ProbeCompletion,
    b: ProbeCompletion,
)
    ensures
        completion_logged(node, amount, a).level == Level::Info <==> a is Success,
        completion_logged(node, amount, a).level == Level::Warn <==> !(a is Success),
        completion_logged(node, amount, a).logged && !completion_logged(node, amount, a).shown,
        completion_state(a) == completion_state(b) ==> (a is Success <==> b is Success) && (
        a is Failed <==> b is Failed) && (a is Dropped <==> b is Dropped) && (a is Timeout
            <==> b is Timeout) && (a is SendError <==> b is SendError),
{
    reveal_strlit("SUCCESS payment_hash=");
    reveal_strlit("FAILED payment_hash=");
    reveal_strlit("DROPPED payment_hash=");
    reveal_strlit("TIMEOUT payment_hash=");
    reveal_strlit("NO_ROUTE error=");
    reveal_strlit("SEND_FAILED error=");
    reveal_strlit("INVALID_INPUT error=");
    lemma_state_begins(a);
    lemma_state_begins(b);
}

proof fn lemma_state_begins(c: ProbeCompletion)
    ensures
        completion_state(c).len() > 1,
        c is Success ==> completion_state(c)[0] == 'S' && completion_state(c)[1] == 'U',
        c is Failed ==> completion_state(c)[0] == 'F',
        c is Dropped ==> completion_state(c)[0] == 'D',
        c is Timeout ==> completion_state(c)[0] == 'T',
        c is SendError ==> completion_state(c)[0] == 'N' || completion_state(c)[0] == 'I' || (
        completion_state(c)[0] == 'S' && completion_state(c)[1] == 'E'),
{
    reveal_strlit("SUCCESS payment_hash=");
    reveal_strlit("FAILED payment_hash=");
    reveal_strlit("DROPPED payment_hash=");
    reveal_strlit("TIMEOUT payment_hash=");
    reveal_strlit("NO_ROUTE error=");
    reveal_strlit("SEND_FAILED error=");
    reveal_strlit("INVALID_INPUT error=");
}

} // verus!
