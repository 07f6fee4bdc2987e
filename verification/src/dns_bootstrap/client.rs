//! Asking one DNS seed in several ways.
use crate::dns_bootstrap::pubkey;
use crate::dns_bootstrap::pubkey::{bech32_decode, convert_bits};
use crate::keys;
use crate::keys::PublicKey;
use crate::text;
use crate::text::{number, same, split};
use vstd::prelude::*;
use vstd::string::StrSliceExecFns;

verus! {

/// How often a question is asked in one way.
pub const MAX_RETRIES: u8 = 3;

/// Why a seed gives no peers.
#[derive(Debug)]
pub enum DnsBootstrapError {
    /// The resolver failed.
    ResolverError(String),
    /// The seed has no records.
    NoRecordsFound,
    /// Every way of asking failed.
    AllStrategiesFailed,
}

/// A way of asking, from the most specific to the most widely understood.
#[derive(Clone, Copy, Debug, PartialEq, Eq, Structural)]
pub enum QueryStrategy {
    /// With the realm and the kinds of addresses: `r0.a6.lseed.bitcoinstats.com`.
    FullConditions,
    /// With the kinds of addresses: `a6.lseed.bitcoinstats.com`.
    MinimalConditions,
    /// Without conditions: `lseed.bitcoinstats.com`.
    RootDomain,
}

impl QueryStrategy {
    /// The ways of asking in the order in which they are tried.
    pub fn all() -> (r: [QueryStrategy; 3])
        ensures
            r@ == seq![
                QueryStrategy::FullConditions,
                QueryStrategy::MinimalConditions,
                QueryStrategy::RootDomain,
            ],
    {
        let r: [QueryStrategy; 3] = [
            QueryStrategy::FullConditions,
            QueryStrategy::MinimalConditions,
            QueryStrategy::RootDomain,
        ];
        assert(r@ =~= seq![
            QueryStrategy::FullConditions,
            QueryStrategy::MinimalConditions,
            QueryStrategy::RootDomain,
        ]);
        r
    }
}

/// A peer that a seed names.
#[derive(Clone, Copy, Debug)]
pub struct BootstrapPeer<A> {
    /// Its public key, if the name of its host holds one.
    pub node_id: Option<PublicKey>,
    /// Its address.
    pub addr: A,
}

/// A DNS seed, and what it is asked for.
#[derive(Debug)]
pub struct DnsBootstrapClient {
    seed: String,
    realm: u8,
    address_types: u8,
    num_peers: u8,
}

/// What came of asking: peers, or why there are none.
pub type Answer<A> = Result<Vec<BootstrapPeer<A>>, DnsBootstrapError>;

/// A question in progress: the way of asking, by its position, and which attempt it is.
#[derive(Debug)]
pub enum Asking<A> {
    /// Ask.
    Ask { strategy: usize, attempt: u8 },
    /// Wait for so many seconds.
    Wait { strategy: usize, attempt: u8, secs: u64 },
    /// It is over.
    Done(Answer<A>),
}

/// What happened to a question.
#[derive(Debug)]
pub enum AskingEvent<A> {
    /// The seed answered, or failed to.
    Answered(Answer<A>),
    /// The wait is over.
    Waited,
}

/// The seconds of rest after a failed attempt: one, then twice as many each time.
pub open spec fn backoff_secs(attempt: u8) -> nat {
    vstd::arithmetic::power2::pow2((attempt - 1) as nat)
}

/// Where a question stands after `event`. The first answer with peers ends it. Each way of asking is
/// tried several times, with a rest after each failure but the last, and when every way has failed
/// that is the error.
pub open spec fn next_asking<A>(state: Asking<A>, event: AskingEvent<A>) -> Asking<A> {
    match (state, event) {
        (Asking::Ask { .. }, AskingEvent::Answered(Ok(peers))) => Asking::Done(Ok(peers)),
        (Asking::Ask { strategy, attempt }, AskingEvent::Answered(Err(_))) => if attempt
            < MAX_RETRIES {
            Asking::Wait { strategy, attempt, secs: backoff_secs(attempt) as u64 }
        } else if strategy < 2 {
            Asking::Ask { strategy: (strategy + 1) as usize, attempt: 1 }
        } else {
            Asking::Done(Err(DnsBootstrapError::AllStrategiesFailed))
        },
        (Asking::Wait { strategy, attempt, .. }, AskingEvent::Waited) => Asking::Ask {
            strategy,
            attempt: (attempt + 1) as u8,
        },
        _ => state,
    }
}

/// The beginning of a question.
pub fn begin_asking<A>() -> (r: Asking<A>)
    ensures
        r == (Asking::<A>::Ask { strategy: 0, attempt: 1 }),
{
    Asking::Ask { strategy: 0, attempt: 1 }
}

/// Whether a question is in one of its states.
pub open spec fn is_asking<A>(state: Asking<A>) -> bool {
    match state {
        Asking::Ask { strategy, attempt } => strategy < 3 && 1 <= attempt <= MAX_RETRIES,
        Asking::Wait { strategy, attempt, secs } => strategy < 3 && 1 <= attempt < MAX_RETRIES
            && secs == backoff_secs(attempt),
        Asking::Done(_) => true,
    }
}

/// Where a question stands after `event`.
pub fn advance_asking<A>(state: Asking<A>, event: AskingEvent<A>) -> (r: Asking<A>)
    requires
        is_asking(state),
    ensures
        r == next_asking(state, event),
        is_asking(r),
{
    proof {
        vstd::arithmetic::power2::lemma2_to64();
    }
    match state {
        Asking::Ask { strategy, attempt } => match event {
            AskingEvent::Answered(Ok(peers)) => Asking::Done(Ok(peers)),
            AskingEvent::Answered(Err(_)) => if attempt < MAX_RETRIES {
                let secs: u64 = if attempt == 1 {
                    1
                } else {
                    2
                };
                Asking::Wait { strategy, attempt, secs }
            } else if strategy < 2 {
                Asking::Ask { strategy: strategy + 1, attempt: 1 }
            } else {
                Asking::Done(Err(DnsBootstrapError::AllStrategiesFailed))
            },
            AskingEvent::Waited => Asking::Ask { strategy, attempt },
        },
        Asking::Wait { strategy, attempt, secs } => match event {
            AskingEvent::Waited => Asking::Ask { strategy, attempt: attempt + 1 },
            AskingEvent::Answered(_) => Asking::Wait { strategy, attempt, secs },
        },
        Asking::Done(result) => Asking::Done(result),
    }
}

/// How many more times the seed may be asked.
pub open spec fn questions_left<A>(state: Asking<A>) -> int {
    match state {
        Asking::Ask { strategy, attempt } => (3 - strategy) * 3 - attempt + 1,
        Asking::Wait { strategy, attempt, .. } => (3 - strategy) * 3 - attempt,
        Asking::Done(_) => 0,
    }
}

/// A seed is asked at most nine times: each failure leaves one question less, a rest leaves as many,
/// and when none is left the question is over.
pub proof fn law_questions_end<A>(state: Asking<A>, e: DnsBootstrapError)
    requires
        is_asking(state),
    ensures
        questions_left(Asking::<A>::Ask { strategy: 0, attempt: 1 }) == 9,
        questions_left(state) >= 0,
        state is Ask ==> questions_left(next_asking(state, AskingEvent::Answered(Err(e))))
            == questions_left(state) - 1,
        state is Wait ==> questions_left(next_asking(state, AskingEvent::Waited)) == questions_left(
            state,
        ),
        questions_left(state) == 0 ==> state is Done,
{
    vstd::arithmetic::power2::lemma2_to64();
}

/// The position of the first answer with peers, or the number of answers if there is none.
pub open spec fn first_ok<A>(answers: Seq<Answer<A>>) -> nat
    decreases answers.len(),
{
    if answers.len() == 0 || answers[0] is Ok {
        0
    } else {
        1 + first_ok(answers.skip(1))
    }
}

proof fn lemma_first_ok<A>(answers: Seq<Answer<A>>)
    ensures
        first_ok(answers) <= answers.len(),
        first_ok(answers) < answers.len() ==> answers[first_ok(answers) as int] is Ok,
        forall|i: int| 0 <= i < first_ok(answers) ==> #[trigger] answers[i] is Err,
    decreases answers.len(),
{
    if answers.len() > 0 && !(answers[0] is Ok) {
        let rest = answers.skip(1);
        lemma_first_ok(rest);
        assert forall|i: int| 0 <= i < first_ok(answers) implies #[trigger] answers[i] is Err by {
            if i > 0 {
                assert(answers[i] == rest[i - 1]);
            }
        }
    }
}

/// No more than the first three.
pub open spec fn first_three<A>(answers: Seq<Answer<A>>) -> Seq<Answer<A>> {
    if answers.len() > 3 {
        answers.take(3)
    } else {
        answers
    }
}

/// What comes of one way of asking, where `answers` are the answers to the questions, one after the
/// other: the first one with peers among three, or else the error of the last of them.
pub open spec fn strategy_result<A>(answers: Seq<Answer<A>>) -> Answer<A> {
    let s = first_three(answers);
    if first_ok(s) < s.len() {
        s[first_ok(s) as int]
    } else if s.len() == 0 {
        Err(DnsBootstrapError::NoRecordsFound)
    } else {
        s.last()
    }
}

/// What comes of all the ways of asking, where `results` are what came of each of them: the first one
/// with peers, or the error that all of them failed.
pub open spec fn whole_result<A>(results: Seq<Answer<A>>) -> Answer<A> {
    let s = first_three(results);
    if first_ok(s) < s.len() {
        s[first_ok(s) as int]
    } else {
        Err(DnsBootstrapError::AllStrategiesFailed)
    }
}

/// Where a question stands after `answers`, where each rest is waited for.
pub open spec fn asking_after<A>(answers: Seq<Answer<A>>) -> Asking<A>
    decreases answers.len(),
{
    if answers.len() == 0 {
        Asking::Ask { strategy: 0, attempt: 1 }
    } else {
        let next = next_asking(
            asking_after(answers.drop_last()),
            AskingEvent::Answered(answers.last()),
        );
        if next is Wait {
            next_asking(next, AskingEvent::Waited)
        } else {
            next
        }
    }
}

/// A question goes through the three ways of asking in order, three times each, up to the first
/// answer with peers, which is its result; after nine failures the result is that all ways failed.
pub proof fn law_first_answer_is_the_result<A>(answers: Seq<Answer<A>>)
    ensures
        ({
            let k = first_ok(answers);
            if k < 9 && k < answers.len() {
                asking_after(answers) == Asking::Done(answers[k as int])
            } else if answers.len() < 9 {
                asking_after(answers) == (Asking::<A>::Ask {
                    strategy: (answers.len() / 3) as usize,
                    attempt: (answers.len() % 3 + 1) as u8,
                })
            } else {
                asking_after(answers) == Asking::<A>::Done(
                    Err(DnsBootstrapError::AllStrategiesFailed),
                )
            }
        }),
    decreases answers.len(),
{
    vstd::arithmetic::power2::lemma2_to64();
    lemma_first_ok(answers);
    if answers.len() > 0 {
        let before = answers.drop_last();
        law_first_answer_is_the_result(before);
        lemma_first_ok(before);
        let k = first_ok(answers);
        let j = first_ok(before);
        assert(forall|i: int| 0 <= i < before.len() ==> before[i] == answers[i]);
        if k < before.len() {
            assert(before[k as int] is Ok);
            if j < k {
                assert(answers[j as int] is Err);
            }
            if k < j {
                assert(before[k as int] is Err);
            }
            assert(j == k);
        } else {
            if j < before.len() {
                assert(answers[j as int] is Err);
            }
            assert(j == before.len());
            if k == before.len() && k < answers.len() {
                assert(answers.last() is Ok);
            } else {
                assert(answers[answers.len() - 1] is Err);
            }
        }
    }
}

/// The result of a question is the one over all the ways of asking of what came of each of them.
pub proof fn law_result_over_strategies<A>(answers: Seq<Answer<A>>)
    requires
        answers.len() == 9,
    ensures
        asking_after(answers) == Asking::Done(
            whole_result(
                seq![
                    strategy_result(answers.subrange(0, 3)),
                    strategy_result(answers.subrange(3, 6)),
                    strategy_result(answers.subrange(6, 9)),
                ],
            ),
        ),
{
    law_first_answer_is_the_result(answers);
    lemma_first_ok(answers);
    let a = answers.subrange(0, 3);
    let b = answers.subrange(3, 6);
    let c = answers.subrange(6, 9);
    lemma_first_ok(a);
    lemma_first_ok(b);
    lemma_first_ok(c);
    let results = seq![strategy_result(a), strategy_result(b), strategy_result(c)];
    lemma_first_ok(results);
    let k = first_ok(answers) as int;
    assert forall|i: int| 0 <= i < 3 implies a[i] == answers[i] && b[i] == answers[i + 3] && c[i]
        == answers[i + 6] by {}
    if first_ok(a) < 3 {
        let i = first_ok(a) as int;
        assert(answers[i] is Ok);
        if k < i {
            assert(a[k] is Err);
        }
        assert(k == i);
        assert(results[0] is Ok);
    } else {
        assert(a[0] is Err && a[1] is Err && a[2] is Err);
        assert(results[0] is Err);
        if first_ok(b) < 3 {
            let i = first_ok(b) as int;
            assert(answers[i + 3] is Ok);
            if k < i + 3 {
                if k < 3 {
                    assert(a[k] is Err);
                } else {
                    assert(b[k - 3] is Err);
                }
            }
            assert(k == i + 3);
            assert(results[1] is Ok);
            assert(first_ok(results) == 1);
        } else {
            assert(b[0] is Err && b[1] is Err && b[2] is Err);
            assert(results[1] is Err);
            if first_ok(c) < 3 {
                let i = first_ok(c) as int;
                assert(answers[i + 6] is Ok);
                if k < i + 6 {
                    if k < 3 {
                        assert(a[k] is Err);
                    } else if k < 6 {
                        assert(b[k - 3] is Err);
                    } else {
                        assert(c[k - 6] is Err);
                    }
                }
                assert(k == i + 6);
                assert(results[2] is Ok);
                assert(first_ok(results) == 2);
            } else {
                assert(c[0] is Err && c[1] is Err && c[2] is Err);
                assert(results[2] is Err);
                assert(first_ok(results) == 3);
                if k < 9 {
                    if k < 3 {
                        assert(a[k] is Err);
                    } else if k < 6 {
                        assert(b[k - 3] is Err);
                    } else {
                        assert(c[k - 6] is Err);
                    }
                }
            }
        }
    }
}

/// The way of asking at a position.
pub open spec fn strategy_at(i: int) -> QueryStrategy {
    seq![
        QueryStrategy::FullConditions,
        QueryStrategy::MinimalConditions,
        QueryStrategy::RootDomain,
    ][i]
}

/// The name that is asked for, given the seed, the realm and the kinds of addresses.
pub open spec fn query_domain_of(
    seed: Seq<char>,
    realm: u8,
    address_types: u8,
    strategy: QueryStrategy,
) -> Seq<char> {
    match strategy {
        QueryStrategy::FullConditions => "r"@ + text::decimal(realm as nat) + ".a"@ + text::decimal(
            address_types as nat,
        ) + "."@ + seed,
        QueryStrategy::MinimalConditions => "a"@ + text::decimal(address_types as nat) + "."@ + seed,
        QueryStrategy::RootDomain => seed,
    }
}

/// The key of a node in the first label of a host name, if the label begins with `ln1q` and encodes
/// 33 bytes that are a key. `decoded` is what the label encodes, `bytes` are the groups of that put
/// together, and `key` is the key that they encode.
pub open spec fn node_id_from(
    hostname: Seq<char>,
    decoded: Result<(Seq<char>, Seq<u8>), Seq<char>>,
    bytes: Result<Seq<u8>, Seq<char>>,
    key: Option<Seq<u8>>,
) -> Option<Seq<u8>> {
    let label = text::split_of(hostname, '.')[0];
    if label.len() < 4 || label.take(4) != "ln1q"@ {
        None
    } else {
        match (decoded, bytes) {
            (Ok((hrp, _)), Ok(b)) => if hrp == "ln"@ && b.len() == 33 {
                key
            } else {
                None
            },
            _ => None,
        }
    }
}

/// The key of a node in the first label of a host name, if there is one.
pub open spec fn node_id_of(hostname: Seq<char>) -> Option<Seq<u8>> {
    let decoded = pubkey::bech32_of(text::split_of(hostname, '.')[0]);
    let bytes = pubkey::regrouped((decoded->Ok_0).1, 5, 8, false);
    node_id_from(hostname, decoded, bytes, keys::parsed_key(bytes->Ok_0))
}

fn starts_with_ln1q(label: &str) -> (r: bool)
    ensures
        r == (label@.len() >= 4 && label@.take(4) == "ln1q"@),
{
    if label.unicode_len() < 4 {
        return false;
    }
    let start = label.substring_char(0, 4);
    assert(start@ =~= label@.take(4));
    same(start, "ln1q")
}

/// The key of a node in a host name, where the first label encodes `decoded`, `bytes` are the groups
/// of that put together, and `key` is the key that they encode.
pub fn node_id_from_parts(
    hostname: &str,
    decoded: &Result<(String, Vec<u8>), String>,
    bytes: &Result<Vec<u8>, String>,
    key: Option<PublicKey>,
) -> (r: Option<PublicKey>)
    ensures
        key_view(r) == node_id_from(
            hostname@,
            pubkey::decoded_view(*decoded),
            pubkey::bytes_view(*bytes),
            key_view(key),
        ),
{
    let labels = split(hostname, '.');
    assert(text::texts(labels@)[0] == labels@[0]@);
    if !starts_with_ln1q(labels[0]) {
        return None;
    }
    match (decoded, bytes) {
        (Ok((hrp, _)), Ok(b)) => if same(hrp.as_str(), "ln") && b.len() == 33 {
            key
        } else {
            None
        },
        _ => None,
    }
}

/// A key, if there is one, as its bytes.
pub open spec fn key_view(k: Option<PublicKey>) -> Option<Seq<u8>> {
    match k {
        Some(k) => Some(k@),
        None => None,
    }
}

/// A record of a seed, with the addresses of its host, or none if the host was not found.
pub struct ResolvedRecord<A> {
    /// The name of the host.
    pub hostname: String,
    /// The addresses of the host.
    pub addrs: Vec<A>,
}

/// The peers of records: one for each address.
pub open spec fn peers_of<A>(s: Seq<ResolvedRecord<A>>) -> Seq<(Option<Seq<u8>>, A)>
    decreases s.len(),
{
    if s.len() == 0 {
        Seq::empty()
    } else {
        let r = s.last();
        peers_of(s.drop_last()) + Seq::new(
            r.addrs@.len(),
            |i: int| (node_id_of(r.hostname@), r.addrs@[i]),
        )
    }
}

/// The peers, each as its key and address.
pub open spec fn peer_views<A>(s: Seq<BootstrapPeer<A>>) -> Seq<(Option<Seq<u8>>, A)> {
    Seq::new(s.len(), |i: int| (key_view(s[i].node_id), s[i].addr))
}

impl DnsBootstrapClient {
    /// The name that is asked for.
    pub closed spec fn domain(&self, strategy: QueryStrategy) -> Seq<char> {
        query_domain_of(self.seed@, self.realm, self.address_types, strategy)
    }

    /// How many peers are hoped for.
    pub closed spec fn hoped_for(&self) -> u8 {
        self.num_peers
    }

    /// A seed to ask for about `num_peers` peers of a realm with certain kinds of addresses.
    pub fn new(seed: String, num_peers: u8, realm: u8, address_types: u8) -> (r: Self)
        ensures
            forall|s: QueryStrategy| #[trigger]
                r.domain(s) == query_domain_of(seed@, realm, address_types, s),
            r.hoped_for() == num_peers,
    {
        DnsBootstrapClient { seed, realm, address_types, num_peers }
    }

    /// The name that is asked for.
    pub fn build_query_domain(&self, strategy: QueryStrategy) -> (r: String)
        ensures
            r@ == self.domain(strategy),
    {
        match strategy {
            QueryStrategy::FullConditions => {
                let mut t = "r".to_owned();
                t.append(number(self.realm as u64).as_str());
                t.append(".a");
                t.append(number(self.address_types as u64).as_str());
                t.append(".");
                t.append(self.seed.as_str());
                t
            },
            QueryStrategy::MinimalConditions => {
                let mut t = "a".to_owned();
                t.append(number(self.address_types as u64).as_str());
                t.append(".");
                t.append(self.seed.as_str());
                t
            },
            QueryStrategy::RootDomain => self.seed.clone(),
        }
    }

    /// The name that is asked for in this state, if the seed is asked in it.
    pub fn question<A>(&self, state: &Asking<A>) -> (r: Option<String>)
        requires
            is_asking(*state),
        ensures
            match *state {
                Asking::Ask { strategy, .. } => r matches Some(t) && t@ == self.domain(
                    strategy_at(strategy as int),
                ),
                _ => r is None,
            },
    {
        match state {
            Asking::Ask { strategy, .. } => {
                let all = QueryStrategy::all();
                Some(self.build_query_domain(all[*strategy]))
            },
            _ => None,
        }
    }

    /// What comes of one way of asking, where `answers` are the answers to the questions, one after
    /// the other.
    pub fn query_with_strategy<A>(&self, answers: Vec<Answer<A>>) -> (r: Answer<A>)
        ensures
            r == strategy_result(answers@),
    {
        let mut left = answers;
        let mut last: Answer<A> = Err(DnsBootstrapError::NoRecordsFound);
        let mut i: usize = 0;
        let ghost s = first_three(answers@);
        assert(answers@.skip(0) == answers@);
        assert(s.skip(0) == s);
        while i < 3 && left.len() > 0
            invariant
                i <= 3,
                s == first_three(answers@),
                i <= s.len(),
                left@ == answers@.skip(i as int),
                first_ok(s) == i + first_ok(s.skip(i as int)),
                last == (if i == 0 {
                    Err::<Vec<BootstrapPeer<A>>, DnsBootstrapError>(
                        DnsBootstrapError::NoRecordsFound,
                    )
                } else {
                    s[i - 1]
                }),
            decreases 3 - i,
        {
            let ghost here = s.skip(i as int);
            assert(left@[0] == s[i as int]);
            assert(here[0] == s[i as int]);
            let answer = left.remove(0);
            assert(left@ =~= answers@.skip(i + 1));
            match answer {
                Ok(peers) => {
                    return Ok(peers);
                },
                Err(e) => {
                    last = Err(e);
                },
            }
            assert(here.skip(1) =~= s.skip(i + 1));
            i = i + 1;
        }
        assert(s.skip(i as int).len() == 0);
        last
    }

    /// What comes of all the ways of asking, where `results` are what came of each of them, one after
    /// the other.
    pub fn query_bootstrap_peers<A>(&self, results: Vec<Answer<A>>) -> (r: Answer<A>)
        ensures
            r == whole_result(results@),
    {
        let mut left = results;
        let mut i: usize = 0;
        let ghost s = first_three(results@);
        assert(results@.skip(0) == results@);
        assert(s.skip(0) == s);
        while i < 3 && left.len() > 0
            invariant
                i <= 3,
                s == first_three(results@),
                i <= s.len(),
                left@ == results@.skip(i as int),
                first_ok(s) == i + first_ok(s.skip(i as int)),
            decreases 3 - i,
        {
            let ghost here = s.skip(i as int);
            assert(left@[0] == s[i as int]);
            assert(here[0] == s[i as int]);
            let result = left.remove(0);
            assert(left@ =~= results@.skip(i + 1));
            match result {
                Ok(peers) => {
                    return Ok(peers);
                },
                Err(_) => {},
            }
            assert(here.skip(1) =~= s.skip(i + 1));
            i = i + 1;
        }
        assert(s.skip(i as int).len() == 0);
        Err(DnsBootstrapError::AllStrategiesFailed)
    }

    /// The key of a node in a host name such as
    /// `ln1qwktpe6jxltmpphyl578eax6fcjc2m807qalr76a5gfmx7k9qqfjwy4mctz.lseed.bitcoinstats.com`.
    pub fn extract_node_id_from_hostname(&self, hostname: &str) -> (r: Option<PublicKey>)
        ensures
            key_view(r) == node_id_of(hostname@),
    {
        let labels = split(hostname, '.');
        assert(text::texts(labels@)[0] == labels@[0]@);
        let decoded = bech32_decode(labels[0]);
        let (bytes, key) = match &decoded {
            Ok((_, data)) => {
                let bytes = convert_bits(data.as_slice(), 5, 8, false);
                let key = match &bytes {
                    Ok(b) => PublicKey::from_slice(b.as_slice()),
                    Err(_) => None,
                };
                (bytes, key)
            },
            Err(_) => (Ok(Vec::new()), None),
        };
        node_id_from_parts(hostname, &decoded, &bytes, key)
    }

    /// The peers of the records that the seed answered with, or why there are none. `lookup` is the
    /// error, as text, if the seed did not answer.
    pub fn query_srv_records<A: Copy>(&self, lookup: &Result<Vec<ResolvedRecord<A>>, String>) -> (r:
        Answer<A>)
        ensures
            match *lookup {
                Err(m) => r matches Err(DnsBootstrapError::ResolverError(t)) && t@
                    == "SRV lookup failed: "@ + m@,
                Ok(records) => if peers_of(records@).len() == 0 {
                    r matches Err(DnsBootstrapError::NoRecordsFound)
                } else {
                    r matches Ok(peers) && peers@.len() > 0 && peer_views(peers@) == peers_of(
                        records@,
                    )
                },
            },
    {
        match lookup {
            Err(m) => {
                let mut t = "SRV lookup failed: ".to_owned();
                t.append(m.as_str());
                Err(DnsBootstrapError::ResolverError(t))
            },
            Ok(records) => self.peers_in(records),
        }
    }

    fn peers_in<A: Copy>(&self, records: &Vec<ResolvedRecord<A>>) -> (r: Answer<A>)
        ensures
            if peers_of(records@).len() == 0 {
                r matches Err(DnsBootstrapError::NoRecordsFound)
            } else {
                r matches Ok(peers) && peers@.len() > 0 && peer_views(peers@) == peers_of(records@)
            },
    {
        let n: usize = records.len();
        let mut peers: Vec<BootstrapPeer<A>> = Vec::new();
        let mut i: usize = 0;
        assert(peer_views(peers@) =~= peers_of(records@.take(0)));
        while i < n
            invariant
                n == records@.len(),
                i <= n,
                peer_views(peers@) == peers_of(records@.take(i as int)),
            decreases n - i,
        {
            let record = &records[i];
            let node_id = self.extract_node_id_from_hostname(record.hostname.as_str());
            let m: usize = record.addrs.len();
            let mut j: usize = 0;
            let ghost before = peer_views(peers@);
            assert(before =~= before + Seq::new(
                0,
                |k: int| (node_id_of(record.hostname@), record.addrs@[k]),
            ));
            while j < m
                invariant
                    m == record.addrs@.len(),
                    j <= m,
                    key_view(node_id) == node_id_of(record.hostname@),
                    peer_views(peers@) == before + Seq::new(
                        j as nat,
                        |k: int| (node_id_of(record.hostname@), record.addrs@[k]),
                    ),
                decreases m - j,
            {
                let ghost so_far = peer_views(peers@);
                peers.push(BootstrapPeer { node_id, addr: record.addrs[j] });
                assert(peer_views(peers@) =~= so_far.push(
                    (node_id_of(record.hostname@), record.addrs@[j as int]),
                ));
                assert(peer_views(peers@) =~= before + Seq::new(
                    (j + 1) as nat,
                    |k: int| (node_id_of(record.hostname@), record.addrs@[k]),
                ));
                j = j + 1;
            }
            assert(records@.take(i + 1).drop_last() == records@.take(i as int));
            i = i + 1;
        }
        assert(records@.take(n as int) == records@);
        if peers.len() == 0 {
            assert(peer_views(peers@).len() == 0);
            Err(DnsBootstrapError::NoRecordsFound)
        } else {
            Ok(peers)
        }
    }
}

/// Each way of asking is the next more general one with a condition in front: the kinds of addresses
/// before the seed, and the realm before those.
pub proof fn law_conditions_stand_in_front(seed: Seq<char>, realm: u8, types: u8)
    ensures
        query_domain_of(seed, realm, types, QueryStrategy::RootDomain) == seed,
        query_domain_of(seed, realm, types, QueryStrategy::MinimalConditions) == "a"@
            + text::decimal(types as nat) + "."@ + seed,
        query_domain_of(seed, realm, types, QueryStrategy::FullConditions) == "r"@ + text::decimal(
            realm as nat,
        ) + "."@ + query_domain_of(seed, realm, types, QueryStrategy::MinimalConditions),
        strategy_at(0) == QueryStrategy::FullConditions,
        strategy_at(1) == QueryStrategy::MinimalConditions,
        strategy_at(2) == QueryStrategy::RootDomain,
{
    reveal_strlit(".a");
    reveal_strlit(".");
    reveal_strlit("a");
    assert(".a"@ =~= "."@ + "a"@);
    assert(query_domain_of(seed, realm, types, QueryStrategy::FullConditions) =~= "r"@
        + text::decimal(realm as nat) + "."@ + query_domain_of(
        seed,
        realm,
        types,
        QueryStrategy::MinimalConditions,
    ));
}

/// The rest after a failure doubles from one attempt to the next, from one second on.
pub proof fn law_rests_double(attempt: u8)
    requires
        1 <= attempt < u8::MAX,
    ensures
        backoff_secs(1) == 1,
        backoff_secs((attempt + 1) as u8) == 2 * backoff_secs(attempt),
{
    vstd::arithmetic::power2::lemma2_to64();
    vstd::arithmetic::power2::lemma_pow2_unfold(attempt as nat);
}

/// After a failure the same way of asking is tried again after a rest, up to the third attempt, and then
/// the next one at once; an answer with peers ends the question, whatever the attempt.
pub proof fn law_failures_lead_on<A>(
    strategy: usize,
    attempt: u8,
    peers: Vec<BootstrapPeer<A>>,
    e: DnsBootstrapError,
    secs: u64,
)
    requires
        strategy < 3,
        1 <= attempt <= 3,
    ensures
        ({
            let asked = Asking::<A>::Ask { strategy, attempt };
            let failed = next_asking(asked, AskingEvent::Answered(Err(e)));
            &&& next_asking(asked, AskingEvent::Answered(Ok(peers))) == Asking::Done(Ok(peers))
            &&& attempt < 3 ==> (failed matches Asking::Wait { strategy: s, attempt: a, .. } && s
                == strategy && a == attempt)
            &&& attempt == 3 && strategy < 2 ==> failed == (Asking::<A>::Ask {
                strategy: (strategy + 1) as usize,
                attempt: 1,
            })
            &&& attempt == 3 && strategy == 2 ==> failed == Asking::<A>::Done(
                Err(DnsBootstrapError::AllStrategiesFailed),
            )
            &&& next_asking(Asking::<A>::Wait { strategy, attempt, secs }, AskingEvent::Waited) == (
            Asking::<A>::Ask { strategy, attempt: (attempt + 1) as u8 })
        }),
{
}

/// A host name names a node exactly if its first label begins with `ln1q` and encodes, with the
/// human-readable part `ln`, 33 bytes that are a key; it is then that key.
pub proof fn law_labels_name_nodes(
    hostname: Seq<char>,
    decoded: Result<(Seq<char>, Seq<u8>), Seq<char>>,
    bytes: Result<Seq<u8>, Seq<char>>,
    key: Option<Seq<u8>>,
)
    ensures
        node_id_from(hostname, decoded, bytes, key) is Some <==> {
            &&& "ln1q"@.is_prefix_of(text::split_of(hostname, '.')[0])
            &&& decoded matches Ok((hrp, _))
            &&& hrp == "ln"@
            &&& bytes matches Ok(b)
            &&& b.len() == 33
            &&& key is Some
        },
        node_id_from(hostname, decoded, bytes, key) matches Some(k) ==> key == Some(k),
{
    reveal_strlit("ln1q");
    let label = text::split_of(hostname, '.')[0];
    assert("ln1q"@.len() == 4);
    if label.len() >= 4 {
        assert(label.take(4) =~= label.subrange(0, 4));
    }
}

/// A record stands for as many peers as its host has addresses, each with the node that the host names,
/// behind those of the records before it.
pub proof fn law_each_address_is_a_peer<A>(s: Seq<ResolvedRecord<A>>, next: ResolvedRecord<A>, i: int)
    requires
        0 <= i < next.addrs@.len(),
    ensures
        peers_of(Seq::<ResolvedRecord<A>>::empty()).len() == 0,
        peers_of(s.push(next)).len() == peers_of(s).len() + next.addrs@.len(),
        peers_of(s).is_prefix_of(peers_of(s.push(next))),
        peers_of(s.push(next))[peers_of(s).len() + i] == (
            node_id_of(next.hostname@),
            next.addrs@[i],
        ),
{
    assert(s.push(next).drop_last() =~= s);
    let before = peers_of(s);
    assert(peers_of(s.push(next)).take(before.len() as int) =~= before);
}

/// What comes of several answers is the first one with peers among the first three, and an error only if
/// none of those has any.
pub proof fn law_first_peers_count<A>(answers: Seq<Answer<A>>, i: int)
    requires
        0 <= i < answers.len(),
        i < 3,
        answers[i] is Ok,
        forall|j: int| 0 <= j < i ==> #[trigger] answers[j] is Err,
    ensures
        strategy_result(answers) == answers[i],
        whole_result(answers) == answers[i],
{
    let s = first_three(answers);
    lemma_first_ok(s);
    let k = first_ok(s) as int;
    assert(s[i] == answers[i]);
    if k < i {
        assert(answers[k] is Err);
        assert(s[k] == answers[k]);
    }
    if k > i {
        assert(s[i] is Err);
    }
}

/// Without an answer with peers among the first three, one way of asking fails for the last reason, and
/// all of them together because they all failed.
pub proof fn law_last_reason_counts<A>(answers: Seq<Answer<A>>)
    requires
        answers.len() == 3,
        answers[0] is Err,
        answers[1] is Err,
        answers[2] is Err,
    ensures
        strategy_result(answers) == answers[2],
        whole_result(answers) == Err::<Vec<BootstrapPeer<A>>, DnsBootstrapError>(
            DnsBootstrapError::AllStrategiesFailed,
        ),
{
    lemma_first_ok(answers);
}

} // verus!
