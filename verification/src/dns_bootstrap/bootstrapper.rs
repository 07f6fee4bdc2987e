//! A round of peer discovery.
use crate::dns_bootstrap::config::DnsBootstrapConfig;
use crate::dns_bootstrap::error;
use crate::dns_bootstrap::error::{DnsBootstrapError, DnsErrorView};
use crate::dns_bootstrap::pubkey;
use crate::dns_bootstrap::pubkey::{decode_pubkey_from_hostname, NodeId};
use crate::dns_bootstrap::query::SrvRecord;
use crate::keys::{same_form, PublicKey};
use crate::text;
use crate::text::number;
use vstd::prelude::*;

verus! {

/// A peer that was found, and its address.
#[derive(Clone, Copy, Debug)]
pub struct BootstrappedPeer<A> {
    /// Its public key.
    pub pubkey: PublicKey,
    /// The node that it is.
    pub _node_id: NodeId,
    /// Its address.
    pub addr: A,
}

/// What is to be done next in a round.
#[derive(Debug)]
pub enum SampleStep {
    /// Ask the seed at this position for records.
    Query(usize),
    /// Find the address of this host, whose node listens on this port.
    Resolve { hostname: String, port: u16 },
    /// Nothing: the round is over.
    Finished,
}

/// Peer discovery through DNS seeds.
#[derive(Debug)]
pub struct DnsBootstrapper {
    config: DnsBootstrapConfig,
}

/// A round of peer discovery. `A` is what an address is held in.
pub struct Sampling<'a, A> {
    config: &'a DnsBootstrapConfig,
    num_addrs: usize,
    ignore: Vec<NodeId>,
    asked: usize,
    pending: Vec<SrvRecord>,
    candidate: Option<Candidate>,
    peers: Vec<BootstrappedPeer<A>>,
}

/// A node whose host is looked for.
struct Candidate {
    hostname: String,
    pubkey: PublicKey,
    node_id: NodeId,
}

/// The node of a record, if the record is wanted: its host name holds a key, and the node is not to
/// be ignored.
pub open spec fn wanted(record: SrvRecord, ignore: Seq<NodeId>) -> Option<Seq<u8>> {
    match pubkey::hostname_key(record.target@) {
        Ok(k) => if exists|i: int| 0 <= i < ignore.len() && #[trigger] ignore[i].bytes@ == k {
            None
        } else {
            Some(k)
        },
        Err(_) => None,
    }
}

/// Whether none of the peers is one of the nodes to be ignored.
pub open spec fn none_ignored<A>(peers: Seq<BootstrappedPeer<A>>, ignore: Seq<NodeId>) -> bool {
    forall|i: int, j: int|
        0 <= i < peers.len() && 0 <= j < ignore.len() ==> (#[trigger] peers[i]).pubkey@ != (
        #[trigger] ignore[j]).bytes@
}

/// Whether a key is not one of the nodes to be ignored.
pub open spec fn not_ignored(key: Seq<u8>, ignore: Seq<NodeId>) -> bool {
    forall|j: int| 0 <= j < ignore.len() ==> (#[trigger] ignore[j]).bytes@ != key
}

/// How many records stand before the first one that is wanted.
pub open spec fn unwanted_before(s: Seq<SrvRecord>, ignore: Seq<NodeId>) -> nat
    decreases s.len(),
{
    if s.len() == 0 || wanted(s[0], ignore) is Some {
        0
    } else {
        1 + unwanted_before(s.skip(1), ignore)
    }
}

/// What is said about records that are passed over: those whose host name holds no key.
pub open spec fn passed_over(s: Seq<SrvRecord>) -> Seq<Seq<char>>
    decreases s.len(),
{
    if s.len() == 0 {
        Seq::empty()
    } else {
        match pubkey::hostname_key(s.last().target@) {
            Ok(_) => passed_over(s.drop_last()),
            Err(e) => passed_over(s.drop_last()).push(
                "[dns_bootstrap] Failed to decode pubkey from "@ + s.last().target@ + ": "@
                    + error::error_text(e),
            ),
        }
    }
}

/// The peers, each as its key and address.
pub open spec fn peers_view<A>(s: Seq<BootstrappedPeer<A>>) -> Seq<(Seq<u8>, A)> {
    Seq::new(s.len(), |i: int| (s[i].pubkey@, s[i].addr))
}

/// The texts, each as a sequence of characters.
pub open spec fn lines(s: Seq<String>) -> Seq<Seq<char>> {
    Seq::new(s.len(), |i: int| s[i]@)
}

/// Where a round stands.
#[verifier::ext_equal]
pub struct RoundView<A> {
    /// How many seeds there are.
    pub seeds: nat,
    /// How many peers the round aims at.
    pub want: nat,
    /// The nodes that are ignored.
    pub ignore: Seq<NodeId>,
    /// How many seeds were asked.
    pub asked: nat,
    /// The records that were not looked at yet.
    pub records: Seq<SrvRecord>,
    /// The host that is looked for, and the key of its node.
    pub awaited: Option<(Seq<char>, Seq<u8>)>,
    /// The keys and addresses of the peers found so far.
    pub found: Seq<(Seq<u8>, A)>,
}

/// Whether nothing more is to be done: there are enough peers, or no wanted record and no seed is
/// left.
pub open spec fn is_over<A>(v: RoundView<A>) -> bool {
    v.found.len() >= v.want || (unwanted_before(v.records, v.ignore) >= v.records.len() && v.asked
        >= v.seeds)
}

/// Where a round stands after it has gone on to the next thing to be done.
pub open spec fn stepped<A>(v: RoundView<A>) -> RoundView<A> {
    let n = unwanted_before(v.records, v.ignore) as int;
    if v.found.len() >= v.want {
        v
    } else if n < v.records.len() {
        RoundView {
            records: v.records.skip(n + 1),
            awaited: Some((v.records[n].target@, wanted(v.records[n], v.ignore)->0)),
            ..v
        }
    } else if v.asked < v.seeds {
        RoundView { records: Seq::empty(), awaited: None, asked: v.asked + 1, ..v }
    } else {
        RoundView { records: Seq::empty(), awaited: None, ..v }
    }
}

/// Where a round stands after the seed has answered with these records.
pub open spec fn answered<A>(v: RoundView<A>, records: Seq<SrvRecord>) -> RoundView<A> {
    RoundView { records, ..v }
}

/// Where a round stands after the host was found at this address, or was not found.
pub open spec fn resolved<A>(v: RoundView<A>, addr: Option<A>) -> RoundView<A> {
    match addr {
        Some(a) => RoundView { awaited: None, found: v.found.push(((v.awaited->0).1, a)), ..v },
        None => RoundView { awaited: None, ..v },
    }
}

/// The records of an answer in which each record stands with the address of its host, if the host can
/// be found.
pub open spec fn records_of<A>(s: Seq<(SrvRecord, Option<A>)>) -> Seq<SrvRecord> {
    Seq::new(s.len(), |i: int| s[i].0)
}

/// The records of several answers, one after the other.
pub open spec fn joined<A>(answers: Seq<Seq<(SrvRecord, Option<A>)>>) -> Seq<
    (SrvRecord, Option<A>),
>
    decreases answers.len(),
{
    if answers.len() == 0 {
        Seq::empty()
    } else {
        answers[0] + joined(answers.skip(1))
    }
}

/// The peers in records: the nodes that are wanted and whose hosts can be found, in order.
pub open spec fn usable<A>(s: Seq<(SrvRecord, Option<A>)>, ignore: Seq<NodeId>) -> Seq<
    (Seq<u8>, A),
>
    decreases s.len(),
{
    if s.len() == 0 {
        Seq::empty()
    } else {
        match (wanted(s[0].0, ignore), s[0].1) {
            (Some(k), Some(a)) => seq![(k, a)] + usable(s.skip(1), ignore),
            _ => usable(s.skip(1), ignore),
        }
    }
}

/// The first `n`, or all if there are not so many.
pub open spec fn at_most<T>(s: Seq<T>, n: nat) -> Seq<T> {
    if s.len() > n {
        s.take(n as int)
    } else {
        s
    }
}

/// Where a round stands when it is over. `answers` are what the seeds answer with, where a seed that
/// fails answers with nothing, and `pending` is what is left of the last answer.
pub open spec fn whole_round<A>(
    v: RoundView<A>,
    pending: Seq<(SrvRecord, Option<A>)>,
    answers: Seq<Seq<(SrvRecord, Option<A>)>>,
) -> RoundView<A>
    decreases v.seeds - v.asked, pending.len(),
{
    let n = unwanted_before(v.records, v.ignore) as int;
    if is_over(v) {
        v
    } else if n < v.records.len() {
        if n < pending.len() {
            whole_round(resolved(stepped(v), pending[n].1), pending.skip(n + 1), answers)
        } else {
            v
        }
    } else {
        let answer = answers[v.asked as int];
        whole_round(answered(stepped(v), records_of(answer)), answer, answers)
    }
}

proof fn lemma_usable_skips<A>(s: Seq<(SrvRecord, Option<A>)>, ignore: Seq<NodeId>)
    ensures
        ({
            let n = unwanted_before(records_of(s), ignore) as int;
            &&& n <= s.len()
            &&& usable(s, ignore) == usable(s.skip(n), ignore)
            &&& n < s.len() ==> wanted(s[n].0, ignore) is Some
        }),
    decreases s.len(),
{
    if s.len() > 0 && wanted(s[0].0, ignore) is None {
        lemma_usable_skips(s.skip(1), ignore);
        let m = unwanted_before(records_of(s.skip(1)), ignore) as int;
        assert(records_of(s).skip(1) =~= records_of(s.skip(1)));
        assert(s.skip(1).skip(m) =~= s.skip(m + 1));
    } else {
        assert(s.skip(0) =~= s);
    }
}

proof fn lemma_usable_joins<A>(
    s: Seq<(SrvRecord, Option<A>)>,
    t: Seq<(SrvRecord, Option<A>)>,
    ignore: Seq<NodeId>,
)
    ensures
        usable(s + t, ignore) == usable(s, ignore) + usable(t, ignore),
    decreases s.len(),
{
    if s.len() == 0 {
        assert(s + t =~= t);
        assert(usable(s, ignore) + usable(t, ignore) =~= usable(t, ignore));
    } else {
        lemma_usable_joins(s.skip(1), t, ignore);
        assert((s + t).skip(1) =~= s.skip(1) + t);
        assert(usable(s + t, ignore) =~= usable(s, ignore) + usable(t, ignore));
    }
}

proof fn lemma_whole_round<A>(
    v: RoundView<A>,
    pending: Seq<(SrvRecord, Option<A>)>,
    answers: Seq<Seq<(SrvRecord, Option<A>)>>,
)
    requires
        v.records == records_of(pending),
        v.asked <= v.seeds,
        answers.len() == v.seeds,
        v.found.len() <= v.want,
    ensures
        whole_round(v, pending, answers).found == v.found + at_most(
            usable(pending, v.ignore) + usable(joined(answers.skip(v.asked as int)), v.ignore),
            (v.want - v.found.len()) as nat,
        ),
        is_over(whole_round(v, pending, answers)),
    decreases v.seeds - v.asked, pending.len(),
{
    let n = unwanted_before(v.records, v.ignore) as int;
    let later = usable(joined(answers.skip(v.asked as int)), v.ignore);
    let all = usable(pending, v.ignore) + later;
    let room = (v.want - v.found.len()) as nat;
    lemma_usable_skips(pending, v.ignore);
    if v.found.len() >= v.want {
        assert(v.found + at_most(all, room) =~= v.found);
    } else if n < v.records.len() {
        let rest = pending.skip(n + 1);
        let w = resolved(stepped(v), pending[n].1);
        assert(w.records =~= records_of(rest));
        lemma_whole_round(w, rest, answers);
        assert(pending.skip(n)[0] == pending[n]);
        assert(pending.skip(n).skip(1) =~= rest);
        match pending[n].1 {
            Some(a) => {
                let peer = (wanted(pending[n].0, v.ignore)->0, a);
                assert(usable(pending, v.ignore) =~= seq![peer] + usable(rest, v.ignore));
                let left = usable(rest, v.ignore) + later;
                assert(all =~= seq![peer] + left);
                assert(w.found =~= v.found.push(peer));
                assert(v.found + at_most(all, room) =~= w.found + at_most(
                    left,
                    (room - 1) as nat,
                ));
            },
            None => {
                assert(usable(pending, v.ignore) =~= usable(rest, v.ignore));
            },
        }
    } else {
        assert(pending.skip(n) =~= Seq::empty());
        assert(usable(pending, v.ignore) =~= Seq::empty());
        assert(all =~= later);
        let here = answers.skip(v.asked as int);
        if v.asked >= v.seeds {
            assert(here =~= Seq::empty());
            assert(v.found + at_most(all, room) =~= v.found);
        } else {
            let answer = answers[v.asked as int];
            let w = answered(stepped(v), records_of(answer));
            lemma_whole_round(w, answer, answers);
            assert(here[0] == answer);
            assert(here.skip(1) =~= answers.skip(v.asked as int + 1));
            lemma_usable_joins(answer, joined(here.skip(1)), v.ignore);
        }
    }
}

/// A round finds the first peers, as many as it aims at, in the order of the seeds and, for each seed,
/// of its records. `answers` are what the seeds answer with, each record with the address of its host
/// if the host can be found.
pub proof fn law_round_finds_the_first_peers<A>(
    v: RoundView<A>,
    answers: Seq<Seq<(SrvRecord, Option<A>)>>,
)
    requires
        v.asked == 0,
        v.records.len() == 0,
        v.found.len() == 0,
        answers.len() == v.seeds,
    ensures
        whole_round(v, Seq::empty(), answers).found == at_most(
            usable(joined(answers), v.ignore),
            v.want,
        ),
        is_over(whole_round(v, Seq::empty(), answers)),
{
    let none = Seq::<(SrvRecord, Option<A>)>::empty();
    assert(v.records =~= records_of(none));
    lemma_whole_round(v, none, answers);
    assert(answers.skip(0) =~= answers);
    let all = usable(joined(answers), v.ignore);
    assert(usable(none, v.ignore) + all =~= all);
    assert(v.found + at_most(all, v.want) =~= at_most(all, v.want));
}

fn ignores(ignore: &Vec<NodeId>, id: &NodeId) -> (r: bool)
    ensures
        r == exists|i: int| 0 <= i < ignore@.len() && #[trigger] ignore@[i].bytes@ == id.bytes@,
{
    let n: usize = ignore.len();
    let mut i: usize = 0;
    while i < n
        invariant
            n == ignore@.len(),
            i <= n,
            forall|j: int| 0 <= j < i ==> #[trigger] ignore@[j].bytes@ != id.bytes@,
        decreases n - i,
    {
        if same_form(&ignore[i].bytes, &id.bytes) {
            return true;
        }
        i = i + 1;
    }
    false
}

fn undecodable(target: &str, e: &DnsBootstrapError) -> (r: String)
    ensures
        r@ == "[dns_bootstrap] Failed to decode pubkey from "@ + target@ + ": "@
            + error::error_text(e@),
{
    let mut t = "[dns_bootstrap] Failed to decode pubkey from ".to_owned();
    t.append(target);
    t.append(": ");
    t.append(e.to_text().as_str());
    t
}

impl DnsBootstrapper {
    /// The configuration.
    pub closed spec fn settings(&self) -> DnsBootstrapConfig {
        self.config
    }

    /// Peer discovery with a configuration.
    pub fn new(config: DnsBootstrapConfig) -> (r: Self)
        ensures
            r.settings() == config,
    {
        DnsBootstrapper { config }
    }

    /// Begins a round that asks the configured seeds for at most `num_addrs` peers that are not among
    /// `ignore`.
    pub fn sample_node_addrs<'a, A: Copy>(&'a self, num_addrs: usize, ignore: Vec<NodeId>) -> (r:
        Sampling<'a, A>)
        ensures
            r.wf(),
            r.settings() == self.settings(),
            r.wanted_peers() == num_addrs,
            r.ignored() == ignore@,
            r.seeds_asked() == 0,
            r.records().len() == 0,
            r.awaited() is None,
            r.found().len() == 0,
    {
        Sampling {
            config: &self.config,
            num_addrs,
            ignore,
            asked: 0,
            pending: Vec::new(),
            candidate: None,
            peers: Vec::new(),
        }
    }

    /// The configuration.
    pub fn config(&self) -> (r: &DnsBootstrapConfig)
        ensures
            *r == self.settings(),
    {
        &self.config
    }

    /// The seconds between two rounds.
    pub fn interval_secs(&self) -> (r: u64)
        ensures
            r == self.settings().interval_secs,
    {
        self.config.interval_secs
    }

    /// The number of peers that a round aims at.
    pub fn num_peers(&self) -> (r: usize)
        ensures
            r == self.settings().num_peers,
    {
        self.config.num_peers
    }
}

impl<'a, A: Copy> View for Sampling<'a, A> {
    type V = RoundView<A>;

    open spec fn view(&self) -> RoundView<A> {
        RoundView {
            seeds: self.settings().seeds@.len(),
            want: self.wanted_peers() as nat,
            ignore: self.ignored(),
            asked: self.seeds_asked(),
            records: self.records(),
            awaited: self.awaited(),
            found: peers_view(self.found()),
        }
    }
}

impl<'a, A: Copy> Sampling<'a, A> {
    /// The configuration.
    pub closed spec fn settings(&self) -> DnsBootstrapConfig {
        *self.config
    }

    /// How many peers the round aims at.
    pub closed spec fn wanted_peers(&self) -> usize {
        self.num_addrs
    }

    /// The nodes that are ignored.
    pub closed spec fn ignored(&self) -> Seq<NodeId> {
        self.ignore@
    }

    /// How many seeds were asked.
    pub closed spec fn seeds_asked(&self) -> nat {
        self.asked as nat
    }

    /// The records that were not looked at yet.
    pub closed spec fn records(&self) -> Seq<SrvRecord> {
        self.pending@
    }

    /// The host that is looked for, and the key of its node.
    pub closed spec fn awaited(&self) -> Option<(Seq<char>, Seq<u8>)> {
        match self.candidate {
            Some(c) => Some((c.hostname@, c.pubkey@)),
            None => None,
        }
    }

    /// The peers found so far.
    pub closed spec fn found(&self) -> Seq<BootstrappedPeer<A>> {
        self.peers@
    }

    /// The node that is looked for is the one of its key.
    pub closed spec fn candidate_fits(&self) -> bool {
        self.candidate matches Some(c) ==> c.node_id.bytes@ == c.pubkey@
    }

    /// No more seeds were asked than there are, no more peers found or looked for than aimed at, and
    /// none of them is to be ignored.
    pub open spec fn wf(&self) -> bool {
        &&& self.seeds_asked() <= self.settings().seeds@.len()
        &&& self.found().len() <= self.wanted_peers()
        &&& none_ignored(self.found(), self.ignored())
        &&& self.candidate_fits()
        &&& self.awaited() matches Some((_, key)) ==> self.found().len() < self.wanted_peers()
            && not_ignored(key, self.ignored())
    }

    /// Goes on to the next thing to be done: records that are not wanted are passed over, and when no
    /// record is left the next seed is asked. The round is over when there are enough peers or no
    /// seed is left. The texts are what is said about the records passed over.
    pub fn step(&mut self) -> (r: (SampleStep, Vec<String>))
        requires
            old(self).wf(),
            old(self).awaited() is None,
        ensures
            final(self).wf(),
            final(self).settings() == old(self).settings(),
            final(self).wanted_peers() == old(self).wanted_peers(),
            final(self).ignored() == old(self).ignored(),
            final(self).found() == old(self).found(),
            final(self)@ == stepped(old(self)@),
            r.0 is Finished <==> is_over(old(self)@),
            if old(self).found().len() >= old(self).wanted_peers() {
                &&& r.0 == SampleStep::Finished
                &&& r.1@.len() == 0
                &&& *final(self) == *old(self)
            } else {
                let n = unwanted_before(old(self).records(), old(self).ignored()) as int;
                &&& lines(r.1@) == passed_over(old(self).records().take(n))
                &&& if n < old(self).records().len() {
                    let record = old(self).records()[n];
                    &&& final(self).records() == old(self).records().skip(n + 1)
                    &&& final(self).awaited() matches Some((hostname, key))
                    &&& hostname == record.target@
                    &&& wanted(record, old(self).ignored()) == Some(key)
                    &&& final(self).seeds_asked() == old(self).seeds_asked()
                    &&& r.0 matches SampleStep::Resolve { hostname, port }
                    &&& hostname@ == record.target@
                    &&& port == record.port
                } else if old(self).seeds_asked() < old(self).settings().seeds@.len() {
                    &&& final(self).records().len() == 0
                    &&& final(self).awaited() is None
                    &&& r.0 == SampleStep::Query(old(self).seeds_asked() as usize)
                    &&& final(self).seeds_asked() == old(self).seeds_asked() + 1
                } else {
                    &&& final(self).records().len() == 0
                    &&& final(self).awaited() is None
                    &&& r.0 == SampleStep::Finished
                    &&& final(self).seeds_asked() == old(self).seeds_asked()
                }
            },
    {
        let mut said: Vec<String> = Vec::new();
        if self.peers.len() >= self.num_addrs {
            return (SampleStep::Finished, said);
        }
        let ghost all = self.pending@;
        let ghost mut n: nat = 0;
        assert(all.skip(0) == all);
        assert(lines(said@) =~= passed_over(all.take(0)));
        while self.pending.len() > 0
            invariant
                self.wf(),
                self.config == old(self).config,
                self.num_addrs == old(self).num_addrs,
                self.ignore@ == old(self).ignore@,
                self.peers@ == old(self).peers@,
                self.asked == old(self).asked,
                all == old(self).pending@,
                n <= all.len(),
                self.pending@ == all.skip(n as int),
                unwanted_before(all, self.ignore@) == n + unwanted_before(
                    self.pending@,
                    self.ignore@,
                ),
                lines(said@) == passed_over(all.take(n as int)),
                self.candidate is None,
                old(self).found().len() < old(self).wanted_peers(),
            decreases self.pending@.len(),
        {
            let ghost here = self.pending@;
            let ghost before = said@;
            assert(here[0] == all[n as int]);
            assert(all.take(n as int + 1).drop_last() == all.take(n as int));
            let record = self.pending.remove(0);
            assert(self.pending@ =~= here.skip(1));
            match decode_pubkey_from_hostname(record.target.as_str()) {
                Ok((pubkey, node_id)) => {
                    if !ignores(&self.ignore, &node_id) {
                        assert(unwanted_before(here, self.ignore@) == 0);
                        assert(self.pending@ =~= all.skip(n as int + 1));
                        self.candidate = Some(
                            Candidate { hostname: record.target.clone(), pubkey, node_id },
                        );
                        return (
                            SampleStep::Resolve { hostname: record.target, port: record.port },
                            said,
                        );
                    }
                    assert(wanted(here[0], self.ignore@) is None);
                },
                Err(e) => {
                    said.push(undecodable(record.target.as_str(), &e));
                    assert(lines(said@) =~= lines(before).push(said@[said@.len() - 1]@));
                    assert(wanted(here[0], self.ignore@) is None);
                },
            }
            proof {
                n = n + 1;
                assert(self.pending@ =~= all.skip(n as int));
            }
        }
        assert(self.pending@.len() == 0);
        if self.asked < self.config.seeds.len() {
            let seed: usize = self.asked;
            self.asked = seed + 1;
            (SampleStep::Query(seed), said)
        } else {
            (SampleStep::Finished, said)
        }
    }

    /// Takes the answer of the seed that was asked last. The text is what is said about it.
    pub fn seed_answered(&mut self, answer: Result<Vec<SrvRecord>, DnsBootstrapError>) -> (r:
        String)
        requires
            old(self).wf(),
            old(self).seeds_asked() > 0,
            old(self).records().len() == 0,
            old(self).awaited() is None,
        ensures
            final(self).wf(),
            final(self).settings() == old(self).settings(),
            final(self).wanted_peers() == old(self).wanted_peers(),
            final(self).ignored() == old(self).ignored(),
            final(self).found() == old(self).found(),
            final(self).awaited() is None,
            final(self).seeds_asked() == old(self).seeds_asked(),
            final(self)@ == answered(
                old(self)@,
                match answer {
                    Ok(records) => records@,
                    Err(_) => Seq::empty(),
                },
            ),
            ({
                let seed = old(self).settings().seeds@[old(self).seeds_asked() - 1]@;
                match answer {
                    Ok(records) => {
                        &&& final(self).records() == records@
                        &&& r@ == (if records@.len() == 0 {
                            "[dns_bootstrap] No SRV records returned from "@ + seed
                        } else {
                            "[dns_bootstrap] Got "@ + text::decimal(records@.len())
                                + " SRV records from "@ + seed
                        })
                    },
                    Err(e) => {
                        &&& final(self).records().len() == 0
                        &&& r@ == "[dns_bootstrap] SRV query failed for "@ + seed + ": "@
                            + error::error_text(e@)
                    },
                }
            }),
    {
        let seed = self.config.seeds[self.asked - 1].as_str();
        match answer {
            Ok(records) => {
                let t = if records.len() == 0 {
                    let mut t = "[dns_bootstrap] No SRV records returned from ".to_owned();
                    t.append(seed);
                    t
                } else {
                    let mut t = "[dns_bootstrap] Got ".to_owned();
                    t.append(number(records.len() as u64).as_str());
                    t.append(" SRV records from ");
                    t.append(seed);
                    t
                };
                self.pending = records;
                t
            },
            Err(e) => {
                let mut t = "[dns_bootstrap] SRV query failed for ".to_owned();
                t.append(seed);
                t.append(": ");
                t.append(e.to_text().as_str());
                t
            },
        }
    }

    /// Takes the address of the host that was to be found. The text is what is said about it, if it
    /// was not found.
    pub fn host_resolved(&mut self, answer: Result<A, DnsBootstrapError>) -> (r: Option<String>)
        requires
            old(self).wf(),
            old(self).awaited() is Some,
        ensures
            final(self).wf(),
            final(self).settings() == old(self).settings(),
            final(self).wanted_peers() == old(self).wanted_peers(),
            final(self).ignored() == old(self).ignored(),
            final(self).seeds_asked() == old(self).seeds_asked(),
            final(self).records() == old(self).records(),
            final(self).awaited() is None,
            final(self)@ == resolved(
                old(self)@,
                match answer {
                    Ok(addr) => Some(addr),
                    Err(_) => None,
                },
            ),
            match answer {
                Ok(addr) => {
                    &&& r is None
                    &&& final(self).found().len() == old(self).found().len() + 1
                    &&& final(self).found().drop_last() == old(self).found()
                    &&& final(self).found().last().addr == addr
                    &&& old(self).awaited()->Some_0.1 == final(self).found().last().pubkey@
                    &&& old(self).awaited()->Some_0.1 == final(self).found().last()._node_id.bytes@
                },
                Err(e) => {
                    &&& final(self).found() == old(self).found()
                    &&& r matches Some(t)
                    &&& t@ == "[dns_bootstrap] Failed to resolve "@
                        + old(self).awaited()->Some_0.0 + ": "@ + error::error_text(e@)
                },
            },
    {
        match self.candidate.take() {
            None => None,
            Some(c) => match answer {
                Ok(addr) => {
                    self.peers.push(
                        BootstrappedPeer { pubkey: c.pubkey, _node_id: c.node_id, addr },
                    );
                    assert(self.peers@.drop_last() =~= old(self).peers@);
                    None
                },
                Err(e) => {
                    let mut t = "[dns_bootstrap] Failed to resolve ".to_owned();
                    t.append(c.hostname.as_str());
                    t.append(": ");
                    t.append(e.to_text().as_str());
                    Some(t)
                },
            },
        }
    }

    /// The peers that were found, or the error that there are none. There are no more of them than
    /// aimed at, and none of them is to be ignored.
    pub fn finish(self) -> (r: Result<Vec<BootstrappedPeer<A>>, DnsBootstrapError>)
        requires
            self.wf(),
        ensures
            r matches Ok(peers) ==> peers@.len() <= self.wanted_peers() && none_ignored(
                peers@,
                self.ignored(),
            ),
            if self.found().len() == 0 {
                r matches Err(e) && e@ == DnsErrorView::SrvQueryFailed(
                    "no peers discovered from any DNS seed"@,
                )
            } else {
                r matches Ok(peers) && peers@ == self.found()
            },
    {
        if self.peers.len() == 0 {
            Err(
                DnsBootstrapError::SrvQueryFailed(
                    "no peers discovered from any DNS seed".to_owned(),
                ),
            )
        } else {
            Ok(self.peers)
        }
    }
}

/// A record is wanted exactly if its host name holds a key that is none of those to be ignored, and it
/// is then the node of that key that is looked for.
pub proof fn law_ignored_nodes_are_not_wanted(record: SrvRecord, ignore: Seq<NodeId>)
    ensures
        wanted(record, ignore) is Some <==> (pubkey::hostname_key(record.target@) matches Ok(k)
            && not_ignored(k, ignore)),
        wanted(record, ignore) matches Some(k) ==> pubkey::hostname_key(record.target@) == Ok::<
            Seq<u8>,
            DnsErrorView,
        >(k),
{
    if let Ok(k) = pubkey::hostname_key(record.target@) {
        if exists|i: int| 0 <= i < ignore.len() && #[trigger] ignore[i].bytes@ == k {
            let i = choose|i: int| 0 <= i < ignore.len() && #[trigger] ignore[i].bytes@ == k;
            assert(ignore[i].bytes@ == k);
            assert(!not_ignored(k, ignore));
        } else {
            assert(not_ignored(k, ignore));
        }
    }
}

/// A record is one peer more, at the end, exactly if it is wanted and its host is found.
pub proof fn law_found_hosts_are_peers<A>(
    s: Seq<(SrvRecord, Option<A>)>,
    next: (SrvRecord, Option<A>),
    ignore: Seq<NodeId>,
)
    ensures
        usable(Seq::<(SrvRecord, Option<A>)>::empty(), ignore).len() == 0,
        match (wanted(next.0, ignore), next.1) {
            (Some(k), Some(a)) => usable(s.push(next), ignore) == usable(s, ignore).push((k, a)),
            _ => usable(s.push(next), ignore) == usable(s, ignore),
        },
{
    let one = seq![next];
    assert(s.push(next) =~= s + one);
    lemma_usable_joins(s, one, ignore);
    assert(one.skip(1) =~= Seq::<(SrvRecord, Option<A>)>::empty());
    assert(usable(one.skip(1), ignore) =~= Seq::<(Seq<u8>, A)>::empty());
    match (wanted(next.0, ignore), next.1) {
        (Some(k), Some(a)) => {
            assert(usable(one, ignore) =~= seq![(k, a)]);
            assert(usable(s.push(next), ignore) =~= usable(s, ignore).push((k, a)));
        },
        _ => {
            assert(usable(s.push(next), ignore) =~= usable(s, ignore));
        },
    }
}

/// A round goes on to the next wanted record, then to the next seed, and asks each seed once. A host that
/// is found is a peer more, and one that is not is none.
pub proof fn law_rounds_go_on<A>(v: RoundView<A>, records: Seq<SrvRecord>, a: A)
    requires
        !is_over(v),
    ensures
        ({
            let next = stepped(v);
            let n = unwanted_before(v.records, v.ignore);
            &&& next.found == v.found
            &&& next.want == v.want && next.seeds == v.seeds && next.ignore == v.ignore
            &&& n < v.records.len() ==> next.asked == v.asked && next.records.len()
                == v.records.len() - n - 1 && (next.awaited matches Some((host, key)) && host
                == v.records[n as int].target@ && wanted(v.records[n as int], v.ignore) == Some(
                key,
            ))
            &&& n >= v.records.len() ==> next.asked == v.asked + 1 && next.asked <= v.seeds
                && next.awaited is None && next.records.len() == 0
            &&& answered(next, records).records == records
            &&& answered(next, records).found == v.found
            &&& resolved(next, Some(a)).found.len() == v.found.len() + 1
            &&& resolved(next, Some(a)).found.last() == ((next.awaited->0).1, a)
            &&& resolved(next, None).found == v.found
            &&& resolved(next, Some(a)).records == next.records && resolved(next, None).records
                == next.records
        }),
{
    lemma_passes_to_wanted(v.records, v.ignore);
}

proof fn lemma_passes_to_wanted(s: Seq<SrvRecord>, ignore: Seq<NodeId>)
    ensures
        unwanted_before(s, ignore) <= s.len(),
        unwanted_before(s, ignore) < s.len() ==> wanted(
            s[unwanted_before(s, ignore) as int],
            ignore,
        ) is Some,
        forall|i: int|
            0 <= i < unwanted_before(s, ignore) ==> wanted(#[trigger] s[i], ignore) is None,
    decreases s.len(),
{
    if s.len() > 0 && wanted(s[0], ignore) is None {
        let t = s.skip(1);
        lemma_passes_to_wanted(t, ignore);
        assert forall|i: int| 0 <= i < unwanted_before(s, ignore) implies wanted(
            #[trigger] s[i],
            ignore,
        ) is None by {
            if i > 0 {
                assert(t[i - 1] == s[i]);
            }
        }
    }
}

/// No wanted record is passed over: every record before the one that a round goes on to is unwanted, and
/// that one is wanted.
pub proof fn law_only_unwanted_records_are_passed_over(s: Seq<SrvRecord>, ignore: Seq<NodeId>, i: int)
    requires
        0 <= i < s.len(),
    ensures
        i < unwanted_before(s, ignore) ==> wanted(s[i], ignore) is None,
        i == unwanted_before(s, ignore) ==> wanted(s[i], ignore) is Some,
{
    lemma_passes_to_wanted(s, ignore);
}

/// Of the records that are passed over, exactly those are spoken of whose host name holds no key, and
/// the host is named.
pub proof fn law_undecodable_records_are_spoken_of(s: Seq<SrvRecord>, next: SrvRecord)
    ensures
        pubkey::hostname_key(next.target@) is Ok ==> passed_over(s.push(next)) == passed_over(s),
        pubkey::hostname_key(next.target@) matches Err(e) ==> {
            &&& passed_over(s.push(next)).len() == passed_over(s).len() + 1
            &&& passed_over(s.push(next)).drop_last() == passed_over(s)
            &&& passed_over(s.push(next)).last() == "[dns_bootstrap] Failed to decode pubkey from "@
                + next.target@ + ": "@ + error::error_text(e)
        },
{
    assert(s.push(next).drop_last() =~= s);
    if pubkey::hostname_key(next.target@) is Err {
        assert(passed_over(s.push(next)).drop_last() =~= passed_over(s));
    }
}

} // verus!
