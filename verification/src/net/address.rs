//! Network addresses that nodes announce.
use lightning::ln::msgs::SocketAddress as LightningAddress;
use std::str::FromStr;
use vstd::prelude::*;

verus! {

/// An address that a node can be reached at.
#[derive(Clone, Debug, PartialEq, Eq)]
#[allow(inconsistent_fields)]
pub enum SocketAddress {
    /// An IPv4 address and port.
    TcpIpV4 { addr: [u8; 4], port: u16 },
    /// An IPv6 address and port.
    TcpIpV6 { addr: [u8; 16], port: u16 },
    /// An old-style onion address.
    OnionV2([u8; 12]),
    /// An onion address and port.
    OnionV3 { ed25519_pubkey: [u8; 32], checksum: u16, version: u8, port: u16 },
    /// A host name and port.
    Hostname { hostname: String, port: u16 },
}

/// An address, with the host name as a sequence of characters.
#[allow(inconsistent_fields)]
pub enum AddressView {
    TcpIpV4 { addr: [u8; 4], port: u16 },
    TcpIpV6 { addr: [u8; 16], port: u16 },
    OnionV2([u8; 12]),
    OnionV3 { ed25519_pubkey: [u8; 32], checksum: u16, version: u8, port: u16 },
    Hostname { hostname: Seq<char>, port: u16 },
}

impl View for SocketAddress {
    type V = AddressView;

    open spec fn view(&self) -> AddressView {
        match *self {
            SocketAddress::TcpIpV4 { addr, port } => AddressView::TcpIpV4 { addr, port },
            SocketAddress::TcpIpV6 { addr, port } => AddressView::TcpIpV6 { addr, port },
            SocketAddress::OnionV2(o) => AddressView::OnionV2(o),
            SocketAddress::OnionV3 { ed25519_pubkey, checksum, version, port } =>
                AddressView::OnionV3 { ed25519_pubkey, checksum, version, port },
            SocketAddress::Hostname { hostname, port } => AddressView::Hostname {
                hostname: hostname@,
                port,
            },
        }
    }
}

/// The address that `text` stands for, if it stands for one: what
/// `lightning::ln::msgs::SocketAddress::from_str` makes of it.
pub uninterp spec fn parsed_address(text: Seq<char>) -> Option<AddressView>;

/// Calls `lightning::ln::msgs::SocketAddress::from_str` and moves the fields of its result. The
/// result is the one that `parsed_address` names.
#[verifier::external_body]
pub(crate) fn parse_address(text: &str) -> (r: Option<SocketAddress>)
    ensures
        match r {
            Some(a) => parsed_address(text@) == Some(a@),
            None => parsed_address(text@) is None,
        },
{
    match LightningAddress::from_str(text) {
        Ok(LightningAddress::TcpIpV4 { addr, port }) => Some(SocketAddress::TcpIpV4 { addr, port }),
        Ok(LightningAddress::TcpIpV6 { addr, port }) => Some(SocketAddress::TcpIpV6 { addr, port }),
        Ok(LightningAddress::OnionV2(o)) => Some(SocketAddress::OnionV2(o)),
        Ok(LightningAddress::OnionV3 { ed25519_pubkey, checksum, version, port }) => Some(
            SocketAddress::OnionV3 { ed25519_pubkey, checksum, version, port },
        ),
        Ok(LightningAddress::Hostname { hostname, port }) => Some(
            SocketAddress::Hostname { hostname: hostname.into(), port },
        ),
        Err(_) => None,
    }
}

/// The addresses, each as its view.
pub open spec fn address_views(s: Seq<SocketAddress>) -> Seq<AddressView> {
    Seq::new(s.len(), |i: int| s[i]@)
}

/// Whether an address can be connected to without an onion router.
pub open spec fn is_direct(a: AddressView) -> bool {
    !(a is OnionV2) && !(a is OnionV3)
}

impl SocketAddress {
    /// A copy of the address.
    pub fn duplicate(&self) -> (r: SocketAddress)
        ensures
            r@ == self@,
    {
        match self {
            SocketAddress::TcpIpV4 { addr, port } => SocketAddress::TcpIpV4 {
                addr: *addr,
                port: *port,
            },
            SocketAddress::TcpIpV6 { addr, port } => SocketAddress::TcpIpV6 {
                addr: *addr,
                port: *port,
            },
            SocketAddress::OnionV2(o) => SocketAddress::OnionV2(*o),
            SocketAddress::OnionV3 { ed25519_pubkey, checksum, version, port } =>
                SocketAddress::OnionV3 {
                ed25519_pubkey: *ed25519_pubkey,
                checksum: *checksum,
                version: *version,
                port: *port,
            },
            SocketAddress::Hostname { hostname, port } => SocketAddress::Hostname {
                hostname: hostname.clone(),
                port: *port,
            },
        }
    }

    fn direct(&self) -> (r: bool)
        ensures
            r == is_direct(self@),
    {
        match self {
            SocketAddress::OnionV2(_) => false,
            SocketAddress::OnionV3 { .. } => false,
            _ => true,
        }
    }
}

/// The addresses that can be connected to without an onion router, in order.
pub fn non_onion(addrs: &Vec<SocketAddress>) -> (r: Vec<SocketAddress>)
    ensures
        address_views(r@) == address_views(addrs@).filter(|a: AddressView| is_direct(a)),
{
    let n: usize = addrs.len();
    let mut r: Vec<SocketAddress> = Vec::new();
    let mut i: usize = 0;
    let ghost all = address_views(addrs@);
    let ghost p = |a: AddressView| is_direct(a);
    proof {
        reveal(Seq::filter);
        assert(all.take(0).filter(p) =~= address_views(r@));
    }
    while i < n
        invariant
            n == addrs@.len(),
            i <= n,
            all == address_views(addrs@),
            p == (|a: AddressView| is_direct(a)),
            address_views(r@) == all.take(i as int).filter(p),
        decreases n - i,
    {
        let ghost before = r@;
        proof {
            reveal(Seq::filter);
            assert(all.take(i + 1).drop_last() == all.take(i as int));
            assert(all.take(i + 1).last() == addrs@[i as int]@);
        }
        if addrs[i].direct() {
            r.push(addrs[i].duplicate());
            assert(address_views(r@) == address_views(before).push(addrs@[i as int]@));
        }
        i = i + 1;
    }
    assert(all.take(n as int) == all);
    r
}

/// An address can be connected to directly exactly if it is no onion address, of either kind. Those that
/// can are kept in their order: one more is added at the end if it can, and is left out otherwise.
pub proof fn law_onion_addresses_are_left_out(s: Seq<AddressView>, next: AddressView)
    ensures
        next is OnionV2 || next is OnionV3 ==> !is_direct(next),
        next is TcpIpV4 || next is TcpIpV6 || next is Hostname ==> is_direct(next),
        is_direct(next) ==> s.push(next).filter(|a: AddressView| is_direct(a)) == s.filter(
            |a: AddressView| is_direct(a),
        ).push(next),
        !is_direct(next) ==> s.push(next).filter(|a: AddressView| is_direct(a)) == s.filter(
            |a: AddressView| is_direct(a),
        ),
{
    reveal(Seq::filter);
    assert(s.push(next).drop_last() =~= s);
}

} // verus!
