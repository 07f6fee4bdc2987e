//! Starting the node, keeping it running, and stopping it.
use crate::logging;
use crate::logging::{log_error, log_info, log_warn, print_line, user_err, Level, Message, MessageView};
use crate::network::Network;
use crate::table::{take32, Bytes32};
use crate::text;
use crate::text::{number, same};
use rand::Rng;
use vstd::prelude::*;

verus! {

/// What is done next while the node starts.
#[derive(Clone, Copy, Debug, PartialEq, Eq, Structural)]
pub enum StartupStep {
    /// Open the log file.
    OpenLog,
    /// Connect to bitcoind.
    Connect,
    /// Ask bitcoind which chain it follows.
    AskChain,
    /// Read the seed of the keys.
    ReadSeed,
    /// Draw a seed and write it down.
    WriteSeed,
    /// Read the clock for the keys.
    ReadClock,
    /// Read the channel monitors.
    ReadMonitors,
    /// Ask for the best block.
    FetchTip,
    /// Read the channel manager, or make one.
    ReadManager,
    /// Read the sweeper, or make one.
    ReadSweeper {
        /// Whether there was a channel manager to read.
        restarting: bool,
    },
    /// Bring the channel manager, the sweeper and the monitors up to the best block.
    Synchronize,
    /// Hand the channel monitors over.
    LoadMonitors,
    /// Decide how the network graph is kept, and fetch it if it is fetched.
    SyncGossip,
    /// Find the address of the DNS resolver.
    FindResolver,
    /// Read the clock for the peers.
    ReadPeerClock,
    /// Write down the payments that were made.
    SavePayments,
    /// Run.
    Run,
    /// Stop.
    Stop,
}

/// Why a seed was not written down.
pub enum SeedFailure {
    /// The file could not be created.
    Create(String),
    /// The seed could not be written.
    Write(String),
    /// The seed could not be brought to the disk.
    Sync(String),
}

/// What came of reading the channel manager.
pub enum ManagerReply {
    /// There is none.
    Missing,
    /// It was read.
    Found,
    /// It is not understood, for this reason.
    Malformed(String),
}

/// What came of reading the sweeper.
pub enum SweeperReply {
    /// There is none.
    Missing,
    /// It was read.
    Found,
    /// It is not understood, for this reason.
    Malformed(String),
    /// It could not be read, for this reason.
    Unreadable(String),
}

/// What came of looking for the DNS resolver.
pub enum ResolverReply {
    /// It has an address.
    Found,
    /// It has none.
    NoAddress,
    /// It could not be looked for, for this reason.
    Failed(String),
}

/// What came of a step.
pub enum StartupEvent {
    /// The log file is open, or could not be opened.
    LogOpened(Result<(), String>),
    /// There is a connection to bitcoind, or there is none.
    Connected(Result<(), String>),
    /// The chain that bitcoind follows.
    Chain(Result<String, String>),
    /// What the file with the seed holds, if it could be read.
    Seed(Option<Vec<u8>>),
    /// A seed was written down, or could not be.
    SeedWritten(Result<(), SeedFailure>),
    /// The seconds since the epoch.
    Clock(Result<u64, String>),
    /// The channel monitors were read, or could not be.
    Monitors(Result<(), String>),
    /// The best block was found, or could not be.
    Tip(Result<(), String>),
    /// What came of reading the channel manager.
    Manager(ManagerReply),
    /// What came of reading the sweeper.
    Sweeper(SweeperReply),
    /// Everything is at the best block, or could not be brought there.
    Synchronized(Result<(), String>),
    /// The channel monitors were handed over, or the one of this channel could not be.
    Loaded(Result<(), String>),
    /// How the network graph is kept.
    Gossip(RapidSyncPlan),
    /// What came of looking for the DNS resolver.
    Resolver(ResolverReply),
    /// The payments were written down, or could not be.
    PaymentsSaved(Result<(), String>),
}

/// How many updates of a channel monitor are kept apart from it.
pub const MAX_PENDING_UPDATES: u64 = 1000;

/// The penalty on every hop of a route, in millisatoshis.
pub const BASE_PENALTY_MSAT: u64 = 500_000;

/// The penalty on every hop of a route, in millisatoshis for each 2^30 of those that are sent.
pub const BASE_PENALTY_AMOUNT_MULTIPLIER_MSAT: u64 = 393_216;

/// The server that names are resolved with for other nodes.
pub const DNS_RESOLVER: &'static str = "8.8.8.8:53";

/// The pause between attempts to connect to the peers with channels again, in seconds.
pub const RECONNECT_SECS: u64 = 1;

/// How long peers are waited for before the first announcement of the node, in seconds.
pub const ANNOUNCE_DELAY_SECS: u64 = 60;

/// The pause between announcements of the node, in seconds.
pub const ANNOUNCE_SECS: u64 = 3600;

/// How long networking is given to start before peers are looked for, in seconds.
pub const BOOTSTRAP_DELAY_SECS: u64 = 5;

/// How long a seed is.
pub const SEED_LEN: usize = 32;

/// The path of the seed.
pub open spec fn seed_path_of(data_dir: Seq<char>) -> Seq<char> {
    data_dir + "/keys_seed"@
}

/// The path of the seed.
pub fn keys_seed_path(data_dir: &str) -> (r: String)
    ensures
        r@ == seed_path_of(data_dir@),
{
    let mut t = data_dir.to_owned();
    t.append("/keys_seed");
    t
}

/// Calls `fill_bytes` of the `rand` crate's thread-local generator for 32 bytes. Nothing can be said
/// of the bytes.
#[verifier::external_body]
fn random_bytes() -> (r: Bytes32) {
    let mut bytes = [0; 32];
    rand::thread_rng().fill_bytes(&mut bytes);
    bytes
}

/// Whether `r` is a seed for a node whose file holds `read`, if it could be read, with whether it is to be
/// written down.
pub open spec fn chooses_seed(read: Option<Seq<u8>>, r: Option<(Bytes32, bool)>) -> bool {
    match read {
        Some(bytes) => if bytes.len() == 32 {
            r matches Some((seed, fresh)) && seed@ == bytes && !fresh
        } else {
            r is None
        },
        None => r matches Some((_, fresh)) && fresh,
    }
}

/// A seed that was written down is the one that is used from then on, and is never replaced: a second one
/// is drawn only where none can be read.
pub proof fn law_seed_is_kept(
    first: Option<(Bytes32, bool)>,
    read: Option<Seq<u8>>,
    again: Option<(Bytes32, bool)>,
)
    requires
        chooses_seed(read, again),
        first is Some && read == Some((first->0).0@),
    ensures
        again is Some,
        (again->0).0 == (first->0).0,
        !(again->0).1,
{
    assert((again->0).0@ =~= (first->0).0@);
}

/// The seed of the keys: the one in the file, if the file could be read, or else a new one, which is
/// then to be written down. A file of another length holds none.
pub fn choose_seed(read: &Option<Vec<u8>>) -> (r: Option<(Bytes32, bool)>)
    ensures
        match *read {
            Some(bytes) => if bytes@.len() == SEED_LEN {
                r matches Some((seed, fresh)) && seed@ == bytes@ && !fresh
            } else {
                r is None
            },
            None => r matches Some((_, fresh)) && fresh,
        },
        chooses_seed(
            match *read {
                Some(bytes) => Some(bytes@),
                None => None,
            },
            r,
        ),
{
    match read {
        Some(bytes) => if bytes.len() == SEED_LEN {
            let seed = take32(bytes.as_slice(), 0);
            assert(bytes@.subrange(0, 32) =~= bytes@);
            Some((seed, false))
        } else {
            None
        },
        None => Some((random_bytes(), true)),
    }
}

/// What is done after a step: the next one, or nothing more if it failed. What comes of another step
/// than the present one changes nothing.
pub open spec fn step_after(step: StartupStep, event: StartupEvent, net: Network) -> StartupStep {
    match (step, event) {
        (StartupStep::OpenLog, StartupEvent::LogOpened(r)) => if r is Ok {
            StartupStep::Connect
        } else {
            StartupStep::Stop
        },
        (StartupStep::Connect, StartupEvent::Connected(r)) => if r is Ok {
            StartupStep::AskChain
        } else {
            StartupStep::Stop
        },
        (StartupStep::AskChain, StartupEvent::Chain(r)) => match r {
            Ok(chain) => if chain@ == net.chain() {
                StartupStep::ReadSeed
            } else {
                StartupStep::Stop
            },
            Err(_) => StartupStep::Stop,
        },
        (StartupStep::ReadSeed, StartupEvent::Seed(r)) => match r {
            Some(bytes) => if bytes@.len() == SEED_LEN {
                StartupStep::ReadClock
            } else {
                StartupStep::Stop
            },
            None => StartupStep::WriteSeed,
        },
        (StartupStep::WriteSeed, StartupEvent::SeedWritten(r)) => if r is Ok {
            StartupStep::ReadClock
        } else {
            StartupStep::Stop
        },
        (StartupStep::ReadClock, StartupEvent::Clock(r)) => if r is Ok {
            StartupStep::ReadMonitors
        } else {
            StartupStep::Stop
        },
        (StartupStep::ReadMonitors, StartupEvent::Monitors(r)) => if r is Ok {
            StartupStep::FetchTip
        } else {
            StartupStep::Stop
        },
        (StartupStep::FetchTip, StartupEvent::Tip(r)) => if r is Ok {
            StartupStep::ReadManager
        } else {
            StartupStep::Stop
        },
        (StartupStep::ReadManager, StartupEvent::Manager(r)) => match r {
            ManagerReply::Missing => StartupStep::ReadSweeper { restarting: false },
            ManagerReply::Found => StartupStep::ReadSweeper { restarting: true },
            ManagerReply::Malformed(_) => StartupStep::Stop,
        },
        (StartupStep::ReadSweeper { restarting }, StartupEvent::Sweeper(r)) => if r is Malformed
            || r is Unreadable {
            StartupStep::Stop
        } else if restarting {
            StartupStep::Synchronize
        } else {
            StartupStep::LoadMonitors
        },
        (StartupStep::Synchronize, StartupEvent::Synchronized(r)) => if r is Ok {
            StartupStep::LoadMonitors
        } else {
            StartupStep::Stop
        },
        (StartupStep::LoadMonitors, StartupEvent::Loaded(r)) => if r is Ok {
            StartupStep::SyncGossip
        } else {
            StartupStep::Stop
        },
        (StartupStep::SyncGossip, StartupEvent::Gossip(plan)) => if plan == RapidSyncPlan::Make {
            StartupStep::SyncGossip
        } else {
            StartupStep::FindResolver
        },
        (StartupStep::FindResolver, StartupEvent::Resolver(r)) => if r is Found {
            StartupStep::ReadPeerClock
        } else {
            StartupStep::Stop
        },
        (StartupStep::ReadPeerClock, StartupEvent::Clock(r)) => match r {
            Ok(secs) => if secs <= u32::MAX {
                StartupStep::SavePayments
            } else {
                StartupStep::Stop
            },
            Err(_) => StartupStep::Stop,
        },
        (StartupStep::SavePayments, StartupEvent::PaymentsSaved(r)) => if r is Ok {
            StartupStep::Run
        } else {
            StartupStep::Stop
        },
        _ => step,
    }
}

/// What is said if a step failed.
pub open spec fn failure_after(
    step: StartupStep,
    event: StartupEvent,
    net: Network,
    data_dir: Seq<char>,
) -> Option<MessageView> {
    match (step, event) {
        (StartupStep::OpenLog, StartupEvent::LogOpened(Err(e))) => Some(
            logging::print(
                "ERROR: Failed to initialise filesystem logger at "@ + data_dir + "/logs: "@ + e@,
            ),
        ),
        (StartupStep::Connect, StartupEvent::Connected(Err(e))) => Some(
            logging::err("Failed to connect to bitcoind client: "@ + e@),
        ),
        (StartupStep::AskChain, StartupEvent::Chain(Err(e))) => Some(
            logging::err("Failed to fetch bitcoind chain info: "@ + e@),
        ),
        (StartupStep::AskChain, StartupEvent::Chain(Ok(chain))) => if chain@
            == net.chain() {
            None
        } else {
            Some(
                logging::err(
                    "Chain argument ("@ + net.shown()
                        + ") didn't match bitcoind chain ("@ + chain@ + ")"@,
                ),
            )
        },
        (StartupStep::ReadSeed, StartupEvent::Seed(Some(bytes))) => if bytes@.len() == SEED_LEN {
            None
        } else {
            Some(
                logging::err(
                    "Invalid keys seed length in "@ + seed_path_of(data_dir)
                        + ". Expected 32 bytes, found "@ + text::decimal(bytes@.len()) + "."@,
                ),
            )
        },
        (StartupStep::WriteSeed, StartupEvent::SeedWritten(Err(SeedFailure::Create(e)))) => Some(
            logging::err(
                "Unable to create keys seed file "@ + seed_path_of(data_dir) + ": "@ + e@,
            ),
        ),
        (StartupStep::WriteSeed, StartupEvent::SeedWritten(Err(SeedFailure::Write(e)))) => Some(
            logging::err("Failed to write node keys seed to disk: "@ + e@),
        ),
        (StartupStep::WriteSeed, StartupEvent::SeedWritten(Err(SeedFailure::Sync(e)))) => Some(
            logging::err("Failed to sync node keys seed to disk: "@ + e@),
        ),
        (StartupStep::ReadClock, StartupEvent::Clock(Err(e))) => Some(
            logging::err("System clock appears to be before UNIX_EPOCH: "@ + e@),
        ),
        (StartupStep::ReadMonitors, StartupEvent::Monitors(Err(e))) => Some(
            logging::err("Failed to read channel monitors from disk: "@ + e@),
        ),
        (StartupStep::FetchTip, StartupEvent::Tip(Err(e))) => Some(
            logging::err("Failed to fetch best block header and best block: "@ + e@),
        ),
        (StartupStep::ReadManager, StartupEvent::Manager(ManagerReply::Malformed(e))) => Some(
            logging::err("Failed to deserialize channel manager: "@ + e@),
        ),
        (
            StartupStep::ReadSweeper { .. },
            StartupEvent::Sweeper(SweeperReply::Malformed(e)),
        ) => Some(logging::err("Failed to deserialize OutputSweeper: "@ + e@)),
        (
            StartupStep::ReadSweeper { .. },
            StartupEvent::Sweeper(SweeperReply::Unreadable(e)),
        ) => Some(logging::err("Failed to read OutputSweeper: "@ + e@)),
        (StartupStep::Synchronize, StartupEvent::Synchronized(Err(e))) => Some(
            logging::err("Failed to synchronize chain listeners: "@ + e@),
        ),
        (StartupStep::LoadMonitors, StartupEvent::Loaded(Err(channel))) => Some(
            logging::err("Failed to load existing monitor for channel "@ + channel@),
        ),
        (StartupStep::FindResolver, StartupEvent::Resolver(ResolverReply::NoAddress)) => Some(
            logging::err("Resolver address lookup returned no addresses"@),
        ),
        (StartupStep::FindResolver, StartupEvent::Resolver(ResolverReply::Failed(e))) => Some(
            logging::err("Failed to resolve default DNS resolver: "@ + e@),
        ),
        (StartupStep::ReadPeerClock, StartupEvent::Clock(Err(e))) => Some(
            logging::err("System clock appears to be before UNIX_EPOCH: "@ + e@),
        ),
        (StartupStep::ReadPeerClock, StartupEvent::Clock(Ok(secs))) => if secs <= u32::MAX {
            None
        } else {
            Some(logging::err("Current timestamp does not fit expected peer-manager type"@))
        },
        (StartupStep::SavePayments, StartupEvent::PaymentsSaved(Err(e))) => Some(
            logging::err("Failed to persist outbound payments: "@ + e@),
        ),
        _ => None,
    }
}

fn stopped(what: &str, e: &str) -> (r: (StartupStep, Option<Message>))
    ensures
        r.0 == StartupStep::Stop,
        r.1 matches Some(m) && m@ == logging::err(what@ + e@),
{
    let mut t = what.to_owned();
    t.append(e);
    (StartupStep::Stop, Some(user_err(t)))
}

fn stopped_with(said: String) -> (r: (StartupStep, Option<Message>))
    ensures
        r.0 == StartupStep::Stop,
        r.1 matches Some(m) && m@ == logging::err(said@),
{
    (StartupStep::Stop, Some(user_err(said)))
}

/// The views of what may be said.
pub open spec fn said_view(m: Option<Message>) -> Option<MessageView> {
    match m {
        Some(m) => Some(m@),
        None => None,
    }
}

/// Goes on after a step, and says why if it failed.
pub fn start_ldk(step: StartupStep, event: &StartupEvent, net: Network, data_dir: &str) -> (r: (
    StartupStep,
    Option<Message>,
))
    ensures
        r.0 == step_after(step, *event, net),
        said_view(r.1) == failure_after(step, *event, net, data_dir@),
{
    match (step, event) {
        (StartupStep::OpenLog, StartupEvent::LogOpened(Ok(_))) => (StartupStep::Connect, None),
        (StartupStep::OpenLog, StartupEvent::LogOpened(Err(e))) => {
            let mut t = "ERROR: Failed to initialise filesystem logger at ".to_owned();
            t.append(data_dir);
            t.append("/logs: ");
            t.append(e.as_str());
            (StartupStep::Stop, Some(print_line(t)))
        },
        (StartupStep::Connect, StartupEvent::Connected(Ok(_))) => (StartupStep::AskChain, None),
        (StartupStep::Connect, StartupEvent::Connected(Err(e))) => stopped(
            "Failed to connect to bitcoind client: ",
            e.as_str(),
        ),
        (StartupStep::AskChain, StartupEvent::Chain(Ok(chain))) => {
            if same(chain.as_str(), net.chain_name()) {
                (StartupStep::ReadSeed, None)
            } else {
                let mut t = "Chain argument (".to_owned();
                t.append(net.to_text().as_str());
                t.append(") didn't match bitcoind chain (");
                t.append(chain.as_str());
                t.append(")");
                stopped_with(t)
            }
        },
        (StartupStep::AskChain, StartupEvent::Chain(Err(e))) => stopped(
            "Failed to fetch bitcoind chain info: ",
            e.as_str(),
        ),
        (StartupStep::ReadSeed, StartupEvent::Seed(Some(bytes))) => {
            if bytes.len() == SEED_LEN {
                (StartupStep::ReadClock, None)
            } else {
                let mut t = "Invalid keys seed length in ".to_owned();
                t.append(keys_seed_path(data_dir).as_str());
                t.append(". Expected 32 bytes, found ");
                t.append(number(bytes.len() as u64).as_str());
                t.append(".");
                stopped_with(t)
            }
        },
        (StartupStep::ReadSeed, StartupEvent::Seed(None)) => (StartupStep::WriteSeed, None),
        (StartupStep::WriteSeed, StartupEvent::SeedWritten(Ok(_))) => (
            StartupStep::ReadClock,
            None,
        ),
        (StartupStep::WriteSeed, StartupEvent::SeedWritten(Err(SeedFailure::Create(e)))) => {
            let mut t = "Unable to create keys seed file ".to_owned();
            t.append(keys_seed_path(data_dir).as_str());
            t.append(": ");
            t.append(e.as_str());
            stopped_with(t)
        },
        (StartupStep::WriteSeed, StartupEvent::SeedWritten(Err(SeedFailure::Write(e)))) => stopped(
            "Failed to write node keys seed to disk: ",
            e.as_str(),
        ),
        (StartupStep::WriteSeed, StartupEvent::SeedWritten(Err(SeedFailure::Sync(e)))) => stopped(
            "Failed to sync node keys seed to disk: ",
            e.as_str(),
        ),
        (StartupStep::ReadClock, StartupEvent::Clock(Ok(_))) => (StartupStep::ReadMonitors, None),
        (StartupStep::ReadClock, StartupEvent::Clock(Err(e))) => stopped(
            "System clock appears to be before UNIX_EPOCH: ",
            e.as_str(),
        ),
        (StartupStep::ReadMonitors, StartupEvent::Monitors(Ok(_))) => (StartupStep::FetchTip, None),
        (StartupStep::ReadMonitors, StartupEvent::Monitors(Err(e))) => stopped(
            "Failed to read channel monitors from disk: ",
            e.as_str(),
        ),
        (StartupStep::FetchTip, StartupEvent::Tip(Ok(_))) => (StartupStep::ReadManager, None),
        (StartupStep::FetchTip, StartupEvent::Tip(Err(e))) => stopped(
            "Failed to fetch best block header and best block: ",
            e.as_str(),
        ),
        (StartupStep::ReadManager, StartupEvent::Manager(reply)) => match reply {
            ManagerReply::Missing => (StartupStep::ReadSweeper { restarting: false }, None),
            ManagerReply::Found => (StartupStep::ReadSweeper { restarting: true }, None),
            ManagerReply::Malformed(e) => stopped(
                "Failed to deserialize channel manager: ",
                e.as_str(),
            ),
        },
        (StartupStep::ReadSweeper { restarting }, StartupEvent::Sweeper(reply)) => match reply {
            SweeperReply::Malformed(e) => stopped(
                "Failed to deserialize OutputSweeper: ",
                e.as_str(),
            ),
            SweeperReply::Unreadable(e) => stopped("Failed to read OutputSweeper: ", e.as_str()),
            _ => if restarting {
                (StartupStep::Synchronize, None)
            } else {
                (StartupStep::LoadMonitors, None)
            },
        },
        (StartupStep::Synchronize, StartupEvent::Synchronized(Ok(_))) => (
            StartupStep::LoadMonitors,
            None,
        ),
        (StartupStep::Synchronize, StartupEvent::Synchronized(Err(e))) => stopped(
            "Failed to synchronize chain listeners: ",
            e.as_str(),
        ),
        (StartupStep::LoadMonitors, StartupEvent::Loaded(Ok(_))) => (
            StartupStep::SyncGossip,
            None,
        ),
        (StartupStep::SyncGossip, StartupEvent::Gossip(plan)) => if *plan == RapidSyncPlan::Make {
            (StartupStep::SyncGossip, None)
        } else {
            (StartupStep::FindResolver, None)
        },
        (StartupStep::LoadMonitors, StartupEvent::Loaded(Err(channel))) => stopped(
            "Failed to load existing monitor for channel ",
            channel.as_str(),
        ),
        (StartupStep::FindResolver, StartupEvent::Resolver(reply)) => match reply {
            ResolverReply::Found => (StartupStep::ReadPeerClock, None),
            ResolverReply::NoAddress => stopped_with(
                "Resolver address lookup returned no addresses".to_owned(),
            ),
            ResolverReply::Failed(e) => stopped(
                "Failed to resolve default DNS resolver: ",
                e.as_str(),
            ),
        },
        (StartupStep::ReadPeerClock, StartupEvent::Clock(Ok(secs))) => {
            if *secs <= u32::MAX as u64 {
                (StartupStep::SavePayments, None)
            } else {
                stopped_with(
                    "Current timestamp does not fit expected peer-manager type".to_owned(),
                )
            }
        },
        (StartupStep::ReadPeerClock, StartupEvent::Clock(Err(e))) => stopped(
            "System clock appears to be before UNIX_EPOCH: ",
            e.as_str(),
        ),
        (StartupStep::SavePayments, StartupEvent::PaymentsSaved(Ok(_))) => (
            StartupStep::Run,
            None,
        ),
        (StartupStep::SavePayments, StartupEvent::PaymentsSaved(Err(e))) => stopped(
            "Failed to persist outbound payments: ",
            e.as_str(),
        ),
        _ => (step, None),
    }
}

/// How far along a step is.
pub open spec fn rank(step: StartupStep) -> nat {
    match step {
        StartupStep::OpenLog => 0,
        StartupStep::Connect => 1,
        StartupStep::AskChain => 2,
        StartupStep::ReadSeed => 3,
        StartupStep::WriteSeed => 4,
        StartupStep::ReadClock => 5,
        StartupStep::ReadMonitors => 6,
        StartupStep::FetchTip => 7,
        StartupStep::ReadManager => 8,
        StartupStep::ReadSweeper { .. } => 9,
        StartupStep::Synchronize => 10,
        StartupStep::LoadMonitors => 11,
        StartupStep::SyncGossip => 12,
        StartupStep::FindResolver => 13,
        StartupStep::ReadPeerClock => 14,
        StartupStep::SavePayments => 15,
        StartupStep::Run => 16,
        StartupStep::Stop => 17,
    }
}

/// The node starts step by step and never goes back: whatever comes of a step, either nothing
/// changes or a later step follows. It stops exactly if it says why.
pub proof fn law_startup_goes_forward(
    step: StartupStep,
    event: StartupEvent,
    net: Network,
    data_dir: Seq<char>,
)
    ensures
        step_after(step, event, net) == step || rank(step_after(step, event, net)) > rank(step),
        step != StartupStep::Stop ==> (failure_after(step, event, net, data_dir) is Some <==>
            step_after(step, event, net) == StartupStep::Stop),
        step == StartupStep::Stop ==> failure_after(step, event, net, data_dir) is None,
{
}

/// What is done after any number of events.
pub open spec fn step_after_all(
    step: StartupStep,
    events: Seq<StartupEvent>,
    net: Network,
) -> StartupStep
    decreases events.len(),
{
    if events.len() == 0 {
        step
    } else {
        step_after(step_after_all(step, events.drop_last(), net), events.last(), net)
    }
}

/// The node runs only if bitcoind was found to follow the chain that is configured.
pub proof fn law_runs_only_on_its_chain(events: Seq<StartupEvent>, net: Network)
    requires
        step_after_all(StartupStep::OpenLog, events, net) == StartupStep::Run,
    ensures
        exists|i: int|
            0 <= i < events.len() && #[trigger] says_chain(events[i], net),
{
    lemma_past_chain(events, net);
}

/// Whether an event says that bitcoind follows the chain that is configured.
pub open spec fn says_chain(event: StartupEvent, net: Network) -> bool {
    event matches StartupEvent::Chain(Ok(chain)) && chain@ == net.chain()
}

proof fn lemma_past_chain(events: Seq<StartupEvent>, net: Network)
    requires
        ({
            let s = step_after_all(StartupStep::OpenLog, events, net);
            s != StartupStep::Stop && rank(s) > rank(StartupStep::AskChain)
        }),
    ensures
        exists|i: int| 0 <= i < events.len() && #[trigger] says_chain(events[i], net),
    decreases events.len(),
{
    let before = step_after_all(StartupStep::OpenLog, events.drop_last(), net);
    if before != StartupStep::Stop && rank(before) > rank(StartupStep::AskChain) {
        lemma_past_chain(events.drop_last(), net);
        let i = choose|i: int|
            0 <= i < events.drop_last().len() && #[trigger] says_chain(events.drop_last()[i], net);
        assert(events[i] == events.drop_last()[i]);
        assert(says_chain(events[i], net));
    } else {
        assert(says_chain(events[events.len() - 1], net));
    }
}

/// The seconds that a new channel manager starts with: the lower half of the clock.
pub fn manager_time(secs: u64) -> (r: u32)
    ensures
        r == secs % 0x1_0000_0000,
{
    (secs % 0x1_0000_0000) as u32
}

/// The shortest rest between two looks at the chain, in seconds.
pub const POLL_SECS: u64 = 1;

/// The longest rest after a failed look at the chain, in seconds.
pub const MAX_RETRY_SECS: u64 = 30;

/// The rests between looks at the chain.
#[derive(Clone, Copy, Debug, PartialEq, Eq)]
pub struct ChainPolling {
    retry_secs: u64,
}

/// How long the rest is after so many failures in a row: twice as long each time, up to a limit.
pub open spec fn retry_after(failures: nat) -> nat
    decreases failures,
{
    if failures == 0 {
        POLL_SECS as nat
    } else if retry_after((failures - 1) as nat) * 2 > MAX_RETRY_SECS {
        MAX_RETRY_SECS as nat
    } else {
        retry_after((failures - 1) as nat) * 2
    }
}

/// Whether a failed look at the chain may do better soon.
#[derive(Clone, Copy, Debug, PartialEq, Eq, Structural)]
pub enum PollFailure {
    /// It may.
    Transient,
    /// It may not.
    Persistent,
}

impl ChainPolling {
    /// The rest after the next failure.
    pub closed spec fn retry(&self) -> nat {
        self.retry_secs as nat
    }

    /// The rests of a node that has not looked at the chain yet.
    pub fn new() -> (r: ChainPolling)
        ensures
            r.retry() == retry_after(0),
    {
        ChainPolling { retry_secs: POLL_SECS }
    }

    /// After a look at the chain. The result is the rest in seconds.
    pub fn polled(&mut self) -> (r: u64)
        ensures
            final(self).retry() == retry_after(0),
            r == POLL_SECS,
    {
        self.retry_secs = POLL_SECS;
        POLL_SECS
    }

    /// After a failed look at the chain. The result is the rest in seconds and what is said.
    pub fn failed(&mut self, kind: PollFailure, error: &str) -> (r: (u64, Message))
        requires
            old(self).retry() <= MAX_RETRY_SECS,
        ensures
            r.0 == old(self).retry(),
            final(self).retry() == (if old(self).retry() * 2 > MAX_RETRY_SECS {
                MAX_RETRY_SECS as nat
            } else {
                old(self).retry() * 2
            }),
            final(self).retry() <= MAX_RETRY_SECS,
            forall|n: nat|
                old(self).retry() == #[trigger] retry_after(n) ==> final(self).retry()
                    == retry_after(n + 1),
            r.1@ == logging::log(
                match kind {
                    PollFailure::Transient => Level::Warn,
                    PollFailure::Persistent => Level::Error,
                },
                "SPV poll_best_tip "@ + (match kind {
                    PollFailure::Transient => "transient"@,
                    PollFailure::Persistent => "persistent"@,
                }) + " error: "@ + error@ + ". Retrying in "@ + text::decimal(old(self).retry())
                    + "s"@,
            ),
    {
        let rest: u64 = self.retry_secs;
        self.retry_secs = if rest * 2 > MAX_RETRY_SECS {
            MAX_RETRY_SECS
        } else {
            rest * 2
        };
        let mut t = "SPV poll_best_tip ".to_owned();
        t.append(
            match kind {
                PollFailure::Transient => "transient",
                PollFailure::Persistent => "persistent",
            },
        );
        t.append(" error: ");
        t.append(error);
        t.append(". Retrying in ");
        t.append(number(rest).as_str());
        t.append("s");
        let m = match kind {
            PollFailure::Transient => log_warn(t),
            PollFailure::Persistent => log_error(t),
        };
        (rest, m)
    }
}

/// The rest after a failed look at the chain is at least the usual one, never gets shorter from one
/// failure to the next, and never exceeds the limit.
pub proof fn law_retry_is_bounded(failures: nat)
    ensures
        POLL_SECS <= retry_after(failures) <= MAX_RETRY_SECS,
        retry_after(failures) <= retry_after(failures + 1),
    decreases failures,
{
    if failures > 0 {
        law_retry_is_bounded((failures - 1) as nat);
    }
}

/// What is done about a peer of a channel when its turn comes.
#[derive(Clone, Copy, Debug, PartialEq, Eq, Structural)]
pub enum Reconnect {
    /// Nothing: it is connected.
    Skip,
    /// Nothing more, for any peer: the node stops.
    Stop,
    /// Connect to it.
    Connect,
}

/// What is done about a peer of a channel when its turn comes.
pub open spec fn reconnects(connected: bool, stopping: bool) -> Reconnect {
    if connected {
        Reconnect::Skip
    } else if stopping {
        Reconnect::Stop
    } else {
        Reconnect::Connect
    }
}

/// A peer that is lost is connected to again, unless the node stops; one that is connected never is.
pub proof fn law_lost_peers_are_reconnected(connected: bool, stopping: bool)
    ensures
        reconnects(connected, stopping) == Reconnect::Connect <==> !connected && !stopping,
        reconnects(connected, stopping) == Reconnect::Skip <==> connected,
        reconnects(connected, stopping) == Reconnect::Stop <==> !connected && stopping,
{
}

/// What is done about a peer of a channel when its turn comes. `connected` says whether it is
/// connected at that time, so that a peer of two channels is not connected to twice.
pub fn reconnect_peer(connected: bool, stopping: bool) -> (r: Reconnect)
    ensures
        r == (if connected {
            Reconnect::Skip
        } else if stopping {
            Reconnect::Stop
        } else {
            Reconnect::Connect
        }),
        r == reconnects(connected, stopping),
{
    if connected {
        Reconnect::Skip
    } else if stopping {
        Reconnect::Stop
    } else {
        Reconnect::Connect
    }
}

/// Whether there is something to announce: a name or an address. A name is padded with zeros, so
/// that the empty one consists of them.
pub open spec fn has_announcement(name: Seq<u8>, addresses: nat) -> bool {
    addresses > 0 || exists|i: int| 0 <= i < name.len() && #[trigger] name[i] != 0
}

/// Whether the node announces itself, where `announced` says of each channel whether it is announced.
pub open spec fn is_announced(announced: Seq<bool>, name: Seq<u8>, addresses: nat) -> bool {
    announced.contains(true) && has_announcement(name, addresses)
}

/// A node without an announced channel is not announced, nor is one that has neither a name nor an
/// address; one announced channel and either of the two are enough.
pub proof fn law_nodes_are_announced_with_their_channels(
    announced: Seq<bool>,
    name: Seq<u8>,
    addresses: nat,
    i: int,
    j: int,
)
    ensures
        0 <= i < announced.len() && announced[i] && addresses > 0 ==> is_announced(
            announced,
            name,
            addresses,
        ),
        0 <= i < announced.len() && announced[i] && 0 <= j < name.len() && name[j] != 0
            ==> is_announced(announced, name, addresses),
        (forall|k: int| 0 <= k < announced.len() ==> !#[trigger] announced[k]) ==> !is_announced(
            announced,
            name,
            addresses,
        ),
        addresses == 0 && (forall|k: int| 0 <= k < name.len() ==> #[trigger] name[k] == 0)
            ==> !is_announced(announced, name, addresses),
{
    if announced.contains(true) {
        let k = choose|k: int| 0 <= k < announced.len() && announced[k] == true;
        assert(announced[k]);
    }
    if 0 <= i < announced.len() && announced[i] {
        assert(announced.contains(announced[i]));
    }
}

/// Whether the node announces itself: only if it has a name or an address to announce, and one of its
/// channels is announced.
pub fn announces_node(announced: &Vec<bool>, name: &[u8; 32], addresses: usize) -> (r: bool)
    ensures
        r == (announced@.contains(true) && has_announcement(name@, addresses as nat)),
        r == is_announced(announced@, name@, addresses as nat),
{
    let mut named = false;
    let mut i: usize = 0;
    while i < 32
        invariant
            i <= 32,
            named == exists|j: int| 0 <= j < i && #[trigger] name@[j] != 0,
        decreases 32 - i,
    {
        if name[i] != 0 {
            named = true;
        }
        i = i + 1;
    }
    (named || addresses > 0) && announces(announced)
}

/// Whether one of the channels of the node is announced.
pub fn announces(announced: &Vec<bool>) -> (r: bool)
    ensures
        r == announced@.contains(true),
{
    let n: usize = announced.len();
    let mut i: usize = 0;
    while i < n
        invariant
            n == announced@.len(),
            i <= n,
            forall|j: int| 0 <= j < i ==> !#[trigger] announced@[j],
        decreases n - i,
    {
        if announced[i] {
            assert(announced@[i as int]);
            return true;
        }
        i = i + 1;
    }
    false
}

/// The seconds between two fetches of the network graph.
pub fn rapid_sync_interval_secs(hours: u64) -> (r: u64)
    requires
        hours * 3600 <= u64::MAX,
    ensures
        r == hours * 3600,
{
    hours * 3600
}

/// How the network graph is kept.
#[derive(Clone, Copy, Debug, PartialEq, Eq, Structural)]
pub enum RapidSyncPlan {
    /// By the gossip of peers alone: fetching it is not wanted.
    Off,
    /// It is to be fetched for the first time.
    Make,
    /// By the gossip of peers alone: it could not be fetched.
    PeersOnly,
    /// By the gossip of peers, and by fetching it again and again.
    Periodic,
}

/// How the network graph is kept. `made` is whether the first fetch succeeded, if there was one.
pub open spec fn plan_of(enabled: bool, made: Option<bool>) -> RapidSyncPlan {
    if !enabled {
        RapidSyncPlan::Off
    } else {
        match made {
            None => RapidSyncPlan::Make,
            Some(true) => RapidSyncPlan::Periodic,
            Some(false) => RapidSyncPlan::PeersOnly,
        }
    }
}

/// Decides how the network graph is kept, and what is said about it. `made` is what came of the first
/// fetch, if there was one.
pub fn rapid_sync_plan(enabled: bool, made: Option<Result<(), String>>) -> (r: (
    RapidSyncPlan,
    Option<Message>,
))
    ensures
        r.0 == plan_of(
            enabled,
            match made {
                Some(m) => Some(m is Ok),
                None => None,
            },
        ),
        said_view(r.1) == (match (enabled, made) {
            (true, Some(Ok(_))) => Some(
                logging::log(Level::Info, "RapidGossipSync initialized successfully"@),
            ),
            (true, Some(Err(e))) => Some(
                logging::log(
                    Level::Error,
                    "Failed to initialize RapidGossipSync: "@ + e@
                        + ". Continuing with P2P sync only."@,
                ),
            ),
            _ => None,
        }),
{
    match (enabled, made) {
        (false, _) => (RapidSyncPlan::Off, None),
        (true, None) => (RapidSyncPlan::Make, None),
        (true, Some(Ok(_))) => (
            RapidSyncPlan::Periodic,
            Some(log_info("RapidGossipSync initialized successfully".to_owned())),
        ),
        (true, Some(Err(e))) => {
            let mut t = "Failed to initialize RapidGossipSync: ".to_owned();
            t.append(e.as_str());
            t.append(". Continuing with P2P sync only.");
            (RapidSyncPlan::PeersOnly, Some(log_error(t)))
        },
    }
}

/// The node starts without the network graph: if fetching it is not wanted or has failed, no fetch
/// follows and the next step of the start does.
pub proof fn law_starts_without_rapid_sync(
    enabled: bool,
    made: Option<bool>,
    net: Network,
    data_dir: Seq<char>,
)
    ensures
        ({
            let plan = plan_of(enabled, made);
            let event = StartupEvent::Gossip(plan);
            &&& !enabled ==> plan != RapidSyncPlan::Make && plan != RapidSyncPlan::Periodic
            &&& made == Some(false) ==> plan != RapidSyncPlan::Make && plan
                != RapidSyncPlan::Periodic
            &&& !enabled || made is Some ==> step_after(StartupStep::SyncGossip, event, net)
                == StartupStep::FindResolver
            &&& failure_after(StartupStep::SyncGossip, event, net, data_dir) is None
        }),
{
}

/// What is said before the network graph is fetched for the first time, and whether it is.
pub fn rapid_sync_message(enabled: bool, url: &Option<String>) -> (r: Message)
    ensures
        r@ == logging::log(
            Level::Info,
            if enabled {
                "Initializing RapidGossipSync with URL: "@ + (match *url {
                    Some(u) => u@,
                    None => "default"@,
                })
            } else {
                "RapidGossipSync disabled by configuration"@
            },
        ),
{
    if enabled {
        let mut t = "Initializing RapidGossipSync with URL: ".to_owned();
        match url {
            Some(u) => t.append(u.as_str()),
            None => t.append("default"),
        }
        log_info(t)
    } else {
        log_info("RapidGossipSync disabled by configuration".to_owned())
    }
}

/// What is said when the search for peers through DNS begins.
pub fn dns_bootstrap_message(seeds: usize, num_peers: usize, interval_secs: u64) -> (r: Message)
    ensures
        r@ == logging::log(
            Level::Info,
            "DNS bootstrap enabled: "@ + text::decimal(seeds as nat) + " seeds, target "@
                + text::decimal(num_peers as nat) + " peers, interval "@ + text::decimal(
                interval_secs as nat,
            ) + "s"@,
        ),
{
    let mut t = "DNS bootstrap enabled: ".to_owned();
    t.append(number(seeds as u64).as_str());
    t.append(" seeds, target ");
    t.append(number(num_peers as u64).as_str());
    t.append(" peers, interval ");
    t.append(number(interval_secs).as_str());
    t.append("s");
    log_info(t)
}

/// What is done and said when the background work has stopped by itself: the channel manager is
/// written down once more, with this outcome.
pub fn background_stopped(saved: Result<(), String>, error: &str) -> (r: (Message, Message))
    ensures
        r.0@ == logging::log(
            Level::Error,
            match saved {
                Ok(_) => "Last-ditch ChannelManager persistence completed"@,
                Err(e) => "Last-ditch ChannelManager persistence failed: "@ + e@,
            },
        ),
        r.1@ == logging::log(Level::Error, "ERR: background processing stopped: "@ + error@),
{
    let first = match saved {
        Ok(_) => log_error("Last-ditch ChannelManager persistence completed".to_owned()),
        Err(e) => {
            let mut t = "Last-ditch ChannelManager persistence failed: ".to_owned();
            t.append(e.as_str());
            log_error(t)
        },
    };
    let mut t = "ERR: background processing stopped: ".to_owned();
    t.append(error);
    (first, log_error(t))
}

/// A start that succeeds goes through every step in its order, from the log file to running. A seed is
/// written only where none could be read, and chain data is synchronized only where there was a channel
/// manager.
pub proof fn law_success_leads_to_the_next_step(
    net: Network,
    chain: String,
    seed: Vec<u8>,
    secs: u64,
    restarting: bool,
    plan: RapidSyncPlan,
)
    requires
        chain@ == net.chain(),
        seed@.len() == 32,
        secs <= u32::MAX,
        plan != RapidSyncPlan::Make,
    ensures
        step_after(StartupStep::OpenLog, StartupEvent::LogOpened(Ok(())), net)
            == StartupStep::Connect,
        step_after(StartupStep::Connect, StartupEvent::Connected(Ok(())), net)
            == StartupStep::AskChain,
        step_after(StartupStep::AskChain, StartupEvent::Chain(Ok(chain)), net)
            == StartupStep::ReadSeed,
        step_after(StartupStep::ReadSeed, StartupEvent::Seed(Some(seed)), net)
            == StartupStep::ReadClock,
        step_after(StartupStep::ReadSeed, StartupEvent::Seed(None), net) == StartupStep::WriteSeed,
        step_after(StartupStep::WriteSeed, StartupEvent::SeedWritten(Ok(())), net)
            == StartupStep::ReadClock,
        step_after(StartupStep::ReadClock, StartupEvent::Clock(Ok(secs)), net)
            == StartupStep::ReadMonitors,
        step_after(StartupStep::ReadMonitors, StartupEvent::Monitors(Ok(())), net)
            == StartupStep::FetchTip,
        step_after(StartupStep::FetchTip, StartupEvent::Tip(Ok(())), net)
            == StartupStep::ReadManager,
        step_after(StartupStep::ReadManager, StartupEvent::Manager(ManagerReply::Found), net) == (
        StartupStep::ReadSweeper { restarting: true }),
        step_after(StartupStep::ReadManager, StartupEvent::Manager(ManagerReply::Missing), net)
            == (StartupStep::ReadSweeper { restarting: false }),
        step_after(
            StartupStep::ReadSweeper { restarting },
            StartupEvent::Sweeper(SweeperReply::Found),
            net,
        ) == step_after(
            StartupStep::ReadSweeper { restarting },
            StartupEvent::Sweeper(SweeperReply::Missing),
            net,
        ),
        step_after(
            StartupStep::ReadSweeper { restarting },
            StartupEvent::Sweeper(SweeperReply::Found),
            net,
        ) == StartupStep::Synchronize <==> restarting,
        step_after(
            StartupStep::ReadSweeper { restarting },
            StartupEvent::Sweeper(SweeperReply::Found),
            net,
        ) == StartupStep::LoadMonitors <==> !restarting,
        step_after(StartupStep::Synchronize, StartupEvent::Synchronized(Ok(())), net)
            == StartupStep::LoadMonitors,
        step_after(StartupStep::LoadMonitors, StartupEvent::Loaded(Ok(())), net)
            == StartupStep::SyncGossip,
        step_after(StartupStep::SyncGossip, StartupEvent::Gossip(plan), net)
            == StartupStep::FindResolver,
        step_after(StartupStep::FindResolver, StartupEvent::Resolver(ResolverReply::Found), net)
            == StartupStep::ReadPeerClock,
        step_after(StartupStep::ReadPeerClock, StartupEvent::Clock(Ok(secs)), net)
            == StartupStep::SavePayments,
        step_after(StartupStep::SavePayments, StartupEvent::PaymentsSaved(Ok(())), net)
            == StartupStep::Run,
{
}

/// The start stops where a step fails: on another chain than the configured one, on a seed of the wrong
/// length, on anything that cannot be read or written, or on a clock that does not fit.
pub proof fn law_failure_stops_the_start(
    net: Network,
    chain: String,
    seed: Vec<u8>,
    secs: u64,
    e: String,
    failure: SeedFailure,
    restarting: bool,
)
    ensures
        chain@ != net.chain() ==> step_after(
            StartupStep::AskChain,
            StartupEvent::Chain(Ok(chain)),
            net,
        ) == StartupStep::Stop,
        seed@.len() != 32 ==> step_after(
            StartupStep::ReadSeed,
            StartupEvent::Seed(Some(seed)),
            net,
        ) == StartupStep::Stop,
        secs > u32::MAX ==> step_after(
            StartupStep::ReadPeerClock,
            StartupEvent::Clock(Ok(secs)),
            net,
        ) == StartupStep::Stop,
        step_after(StartupStep::OpenLog, StartupEvent::LogOpened(Err(e)), net)
            == StartupStep::Stop,
        step_after(StartupStep::Connect, StartupEvent::Connected(Err(e)), net)
            == StartupStep::Stop,
        step_after(StartupStep::AskChain, StartupEvent::Chain(Err(e)), net) == StartupStep::Stop,
        step_after(StartupStep::WriteSeed, StartupEvent::SeedWritten(Err(failure)), net)
            == StartupStep::Stop,
        step_after(StartupStep::ReadClock, StartupEvent::Clock(Err(e)), net) == StartupStep::Stop,
        step_after(StartupStep::ReadMonitors, StartupEvent::Monitors(Err(e)), net)
            == StartupStep::Stop,
        step_after(StartupStep::FetchTip, StartupEvent::Tip(Err(e)), net) == StartupStep::Stop,
        step_after(
            StartupStep::ReadManager,
            StartupEvent::Manager(ManagerReply::Malformed(e)),
            net,
        ) == StartupStep::Stop,
        step_after(
            StartupStep::ReadSweeper { restarting },
            StartupEvent::Sweeper(SweeperReply::Malformed(e)),
            net,
        ) == StartupStep::Stop,
        step_after(
            StartupStep::ReadSweeper { restarting },
            StartupEvent::Sweeper(SweeperReply::Unreadable(e)),
            net,
        ) == StartupStep::Stop,
        step_after(StartupStep::Synchronize, StartupEvent::Synchronized(Err(e)), net)
            == StartupStep::Stop,
        step_after(StartupStep::LoadMonitors, StartupEvent::Loaded(Err(e)), net)
            == StartupStep::Stop,
        step_after(
            StartupStep::FindResolver,
            StartupEvent::Resolver(ResolverReply::NoAddress),
            net,
        ) == StartupStep::Stop,
        step_after(
            StartupStep::FindResolver,
            StartupEvent::Resolver(ResolverReply::Failed(e)),
            net,
        ) == StartupStep::Stop,
        step_after(StartupStep::ReadPeerClock, StartupEvent::Clock(Err(e)), net)
            == StartupStep::Stop,
        step_after(StartupStep::SavePayments, StartupEvent::PaymentsSaved(Err(e)), net)
            == StartupStep::Stop,
{
}

/// After each failed look at the chain the rest is twice as long as the one before, but at most half a
/// minute; the first is a second.
pub proof fn law_retries_double(failures: nat)
    ensures
        retry_after(0) == 1,
        retry_after(failures) * 2 <= 30 ==> retry_after(failures + 1) == retry_after(failures) * 2,
        retry_after(failures) * 2 > 30 ==> retry_after(failures + 1) == 30,
{
}

/// The network graph is fetched again and again exactly if fetching is wanted and the first fetch
/// succeeded; the first fetch is made exactly if fetching is wanted and was not tried.
pub proof fn law_graph_is_fetched_as_wanted(enabled: bool, made: Option<bool>)
    ensures
        plan_of(enabled, made) == RapidSyncPlan::Periodic <==> enabled && made == Some(true),
        plan_of(enabled, made) == RapidSyncPlan::Make <==> enabled && made is None,
        plan_of(enabled, made) == RapidSyncPlan::PeersOnly <==> enabled && made == Some(false),
        plan_of(enabled, made) == RapidSyncPlan::Off <==> !enabled,
{
}

} // verus!
