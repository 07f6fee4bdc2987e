//! Questions to DNS seeds.
use crate::dns_bootstrap::error::{DnsBootstrapError, DnsErrorView};
use vstd::prelude::*;

verus! {

/// A service record that a DNS seed answers with.
#[derive(Debug)]
pub struct SrvRecord {
    /// The name of the host, which holds the key of the node.
    pub target: String,
    /// The port that the node listens on.
    pub port: u16,
    /// The priority of the record.
    pub _priority: u16,
    /// The weight of the record.
    pub _weight: u16,
}

/// The name that a seed is asked for.
pub open spec fn query_name_of(seed: Seq<char>) -> Seq<char> {
    "_nodes._tcp."@ + seed + "."@
}

/// The name that a seed is asked for.
pub fn query_name(seed: &str) -> (r: String)
    ensures
        r@ == query_name_of(seed@),
{
    let mut t = "_nodes._tcp.".to_owned();
    t.append(seed);
    t.append(".");
    t
}

/// What came of a question.
pub enum DnsReply<T> {
    /// No answer in time.
    TimedOut,
    /// An error, as text.
    Failed(String),
    /// An answer.
    Answered(T),
}

/// The records in the answer to a question for service records, or why there are none.
pub fn query_srv(seed: &str, reply: DnsReply<Vec<SrvRecord>>) -> (r: Result<
    Vec<SrvRecord>,
    DnsBootstrapError,
>)
    ensures
        match reply {
            DnsReply::TimedOut => r matches Err(e) && e@ == DnsErrorView::Timeout,
            DnsReply::Failed(m) => r matches Err(e) && e@ == DnsErrorView::SrvQueryFailed(
                query_name_of(seed@) + ": "@ + m@,
            ),
            DnsReply::Answered(records) => r == Ok::<Vec<SrvRecord>, DnsBootstrapError>(records),
        },
        (match r {
            Ok(records) => Ok(records@),
            Err(e) => Err(e@),
        }) == records_in(seed@, reply),
{
    match reply {
        DnsReply::TimedOut => Err(DnsBootstrapError::Timeout),
        DnsReply::Failed(m) => {
            let mut t = query_name(seed);
            t.append(": ");
            t.append(m.as_str());
            Err(DnsBootstrapError::SrvQueryFailed(t))
        },
        DnsReply::Answered(records) => Ok(records),
    }
}

/// The first address in the answer to a question for a host, or why there is none.
pub fn resolve_host<A: Copy>(hostname: &str, reply: DnsReply<Vec<A>>) -> (r: Result<
    A,
    DnsBootstrapError,
>)
    ensures
        match reply {
            DnsReply::TimedOut => r matches Err(e) && e@ == DnsErrorView::Timeout,
            DnsReply::Failed(m) => r matches Err(e) && e@ == (DnsErrorView::HostResolutionFailed {
                hostname: hostname@,
                reason: m@,
            }),
            DnsReply::Answered(addrs) => if addrs@.len() == 0 {
                r matches Err(e) && e@ == (DnsErrorView::HostResolutionFailed {
                    hostname: hostname@,
                    reason: "no A/AAAA records returned"@,
                })
            } else {
                r == Ok::<A, DnsBootstrapError>(addrs@[0])
            },
        },
        (match r {
            Ok(addr) => Ok(addr),
            Err(e) => Err(e@),
        }) == address_in(hostname@, reply),
{
    match reply {
        DnsReply::TimedOut => Err(DnsBootstrapError::Timeout),
        DnsReply::Failed(reason) => Err(
            DnsBootstrapError::HostResolutionFailed { hostname: hostname.to_owned(), reason },
        ),
        DnsReply::Answered(addrs) => if addrs.len() == 0 {
            Err(
                DnsBootstrapError::HostResolutionFailed {
                    hostname: hostname.to_owned(),
                    reason: "no A/AAAA records returned".to_owned(),
                },
            )
        } else {
            Ok(addrs[0])
        },
    }
}

/// The records in a reply, or why there are none.
pub open spec fn records_in(seed: Seq<char>, reply: DnsReply<Vec<SrvRecord>>) -> Result<
    Seq<SrvRecord>,
    DnsErrorView,
> {
    match reply {
        DnsReply::TimedOut => Err(DnsErrorView::Timeout),
        DnsReply::Failed(m) => Err(
            DnsErrorView::SrvQueryFailed(query_name_of(seed) + ": "@ + m@),
        ),
        DnsReply::Answered(records) => Ok(records@),
    }
}

/// The address in a reply, or why there is none.
pub open spec fn address_in<A>(hostname: Seq<char>, reply: DnsReply<Vec<A>>) -> Result<
    A,
    DnsErrorView,
> {
    match reply {
        DnsReply::TimedOut => Err(DnsErrorView::Timeout),
        DnsReply::Failed(m) => Err(
            DnsErrorView::HostResolutionFailed { hostname, reason: m@ },
        ),
        DnsReply::Answered(addrs) => if addrs@.len() == 0 {
            Err(
                DnsErrorView::HostResolutionFailed {
                    hostname,
                    reason: "no A/AAAA records returned"@,
                },
            )
        } else {
            Ok(addrs@[0])
        },
    }
}

/// An answer is taken as it is, even one without records. No answer in time is a timeout and nothing
/// else is, and an error keeps its text.
pub proof fn law_answers_are_taken_as_they_are(seed: Seq<char>, reply: DnsReply<Vec<SrvRecord>>)
    ensures
        records_in(seed, reply) is Ok <==> reply is Answered,
        reply matches DnsReply::Answered(records) ==> records_in(seed, reply) == Ok::<
            Seq<SrvRecord>,
            DnsErrorView,
        >(records@),
        reply is TimedOut <==> records_in(seed, reply) == Err::<Seq<SrvRecord>, DnsErrorView>(
            DnsErrorView::Timeout,
        ),
        reply matches DnsReply::Failed(m) ==> (records_in(seed, reply) matches Err(
            DnsErrorView::SrvQueryFailed(t),
        ) && t == "_nodes._tcp."@ + seed + "."@ + ": "@ + m@),
{
}

/// A host is found exactly if the answer has an address, and its first one is taken, whatever follows.
pub proof fn law_first_address_is_taken<A>(hostname: Seq<char>, reply: DnsReply<Vec<A>>)
    ensures
        address_in(hostname, reply) is Ok <==> (reply matches DnsReply::Answered(addrs)
            && addrs@.len() > 0),
        reply matches DnsReply::Answered(addrs) ==> (addrs@.len() > 0 ==> address_in(hostname, reply)
            == Ok::<A, DnsErrorView>(addrs@.first())),
        reply is TimedOut <==> address_in(hostname, reply) == Err::<A, DnsErrorView>(
            DnsErrorView::Timeout,
        ),
        address_in(hostname, reply) matches Err(DnsErrorView::HostResolutionFailed { hostname: h, .. })
            ==> h == hostname,
{
}

} // verus!
