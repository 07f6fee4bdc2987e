//! Why no peers are found.
use vstd::prelude::*;

verus! {

/// Why peer discovery through DNS fails.
#[derive(Debug)]
pub enum DnsBootstrapError {
    /// A query for service records failed.
    SrvQueryFailed(String),
    /// The address of a host was not found.
    HostResolutionFailed { hostname: String, reason: String },
    /// A host name holds no node id.
    InvalidBech32NodeId { hostname: String, reason: String },
    /// A node id is no public key.
    InvalidPublicKey { reason: String },
    /// A query took too long.
    Timeout,
    /// The resolver failed.
    ResolverError(String),
}

/// The reason, with sequences in place of texts.
pub enum DnsErrorView {
    SrvQueryFailed(Seq<char>),
    HostResolutionFailed { hostname: Seq<char>, reason: Seq<char> },
    InvalidBech32NodeId { hostname: Seq<char>, reason: Seq<char> },
    InvalidPublicKey { reason: Seq<char> },
    Timeout,
    ResolverError(Seq<char>),
}

impl View for DnsBootstrapError {
    type V = DnsErrorView;

    open spec fn view(&self) -> DnsErrorView {
        match self {
            DnsBootstrapError::SrvQueryFailed(m) => DnsErrorView::SrvQueryFailed(m@),
            DnsBootstrapError::HostResolutionFailed { hostname, reason } =>
                DnsErrorView::HostResolutionFailed { hostname: hostname@, reason: reason@ },
            DnsBootstrapError::InvalidBech32NodeId { hostname, reason } =>
                DnsErrorView::InvalidBech32NodeId { hostname: hostname@, reason: reason@ },
            DnsBootstrapError::InvalidPublicKey { reason } => DnsErrorView::InvalidPublicKey {
                reason: reason@,
            },
            DnsBootstrapError::Timeout => DnsErrorView::Timeout,
            DnsBootstrapError::ResolverError(m) => DnsErrorView::ResolverError(m@),
        }
    }
}

/// The reason as it is shown.
pub open spec fn error_text(e: DnsErrorView) -> Seq<char> {
    match e {
        DnsErrorView::SrvQueryFailed(m) => "SRV query failed: "@ + m,
        DnsErrorView::HostResolutionFailed { hostname, reason } => "host resolution failed for "@
            + hostname + ": "@ + reason,
        DnsErrorView::InvalidBech32NodeId { hostname, reason } => "invalid bech32 node ID in "@
            + hostname + ": "@ + reason,
        DnsErrorView::InvalidPublicKey { reason } => "invalid public key: "@ + reason,
        DnsErrorView::Timeout => "DNS operation timed out"@,
        DnsErrorView::ResolverError(m) => "resolver error: "@ + m,
    }
}

impl DnsBootstrapError {
    /// The reason as text.
    pub fn to_text(&self) -> (r: String)
        ensures
            r@ == error_text(self@),
    {
        match self {
            DnsBootstrapError::SrvQueryFailed(m) => {
                let mut t = "SRV query failed: ".to_owned();
                t.append(m.as_str());
                t
            },
            DnsBootstrapError::HostResolutionFailed { hostname, reason } => {
                let mut t = "host resolution failed for ".to_owned();
                t.append(hostname.as_str());
                t.append(": ");
                t.append(reason.as_str());
                t
            },
            DnsBootstrapError::InvalidBech32NodeId { hostname, reason } => {
                let mut t = "invalid bech32 node ID in ".to_owned();
                t.append(hostname.as_str());
                t.append(": ");
                t.append(reason.as_str());
                t
            },
            DnsBootstrapError::InvalidPublicKey { reason } => {
                let mut t = "invalid public key: ".to_owned();
                t.append(reason.as_str());
                t
            },
            DnsBootstrapError::Timeout => "DNS operation timed out".to_owned(),
            DnsBootstrapError::ResolverError(m) => {
                let mut t = "resolver error: ".to_owned();
                t.append(m.as_str());
                t
            },
        }
    }
}

/// Each reason ends with what is known of it, and names the host where there is one.
pub proof fn law_reasons_keep_what_is_known(host: Seq<char>, m: Seq<char>)
    ensures
        m.is_suffix_of(error_text(DnsErrorView::SrvQueryFailed(m))),
        m.is_suffix_of(error_text(DnsErrorView::ResolverError(m))),
        m.is_suffix_of(error_text(DnsErrorView::InvalidPublicKey { reason: m })),
        (host + ": "@ + m).is_suffix_of(
            error_text(DnsErrorView::HostResolutionFailed { hostname: host, reason: m }),
        ),
        (host + ": "@ + m).is_suffix_of(
            error_text(DnsErrorView::InvalidBech32NodeId { hostname: host, reason: m }),
        ),
        error_text(DnsErrorView::Timeout) == "DNS operation timed out"@,
{
    let tail = host + ": "@ + m;
    let a = error_text(DnsErrorView::HostResolutionFailed { hostname: host, reason: m });
    let b = error_text(DnsErrorView::InvalidBech32NodeId { hostname: host, reason: m });
    assert(a =~= "host resolution failed for "@ + tail);
    assert(b =~= "invalid bech32 node ID in "@ + tail);
}

} // verus!
