//! `connectpeer` and `disconnectpeer`.
use crate::cli::error::CliError;
use crate::hex_utils;
use crate::hex_utils::to_compressed_pubkey;
use crate::keys::{is_among, PublicKey};
use crate::logging;
use crate::logging::{print_line, user_err, Message};
use crate::net::peer::ConnectError;
use crate::text;
use crate::text::split;
use vstd::prelude::*;

verus! {

/// The address in `pubkey@host:port`, if there is one.
pub open spec fn address_part(peer: Seq<char>) -> Option<Seq<char>> {
    if text::split_of(peer, '@').len() > 1 {
        Some(text::split_of(peer, '@')[1])
    } else {
        None
    }
}

/// The address in `pubkey@host:port`, if there is one.
pub fn peer_address<'a>(peer: &'a str) -> (r: Option<&'a str>)
    ensures
        match r {
            Some(a) => address_part(peer@) == Some(a@),
            None => address_part(peer@) is None,
        },
{
    let parts = split(peer, '@');
    if parts.len() > 1 {
        assert(text::texts(parts@)[1] == parts@[1]@);
        Some(parts[1])
    } else {
        None
    }
}

/// The key and the address in `pubkey@host:port`, where `resolved` is what the address stands for.
/// The address is looked at before the key.
pub fn parse_peer_info<A>(peer_pubkey_and_ip_addr: &str, resolved: Option<A>) -> (r: Result<
    (PublicKey, A),
    CliError,
>)
    ensures
        match (address_part(peer_pubkey_and_ip_addr@), resolved) {
            (None, _) => r matches Err(CliError::InvalidPeerInfoFormat),
            (Some(a), None) => r matches Err(CliError::PeerAddressResolution(t)) && t@ == a,
            (Some(_), Some(addr)) => match hex_utils::compressed_pubkey(
                text::split_of(peer_pubkey_and_ip_addr@, '@')[0],
            ) {
                None => r matches Err(CliError::InvalidPubkey),
                Some(k) => r matches Ok((key, at)) && key@ == k && at == addr,
            },
        },
{
    let parts = split(peer_pubkey_and_ip_addr, '@');
    assert(text::texts(parts@)[0] == parts@[0]@);
    if parts.len() < 2 {
        return Err(CliError::InvalidPeerInfoFormat);
    }
    assert(text::texts(parts@)[1] == parts@[1]@);
    match resolved {
        None => Err(CliError::PeerAddressResolution(parts[1].to_owned())),
        Some(addr) => match to_compressed_pubkey(parts[0]) {
            None => Err(CliError::InvalidPubkey),
            Some(key) => Ok((key, addr)),
        },
    }
}

/// Whether a peer may be disconnected, where there are channels with `counterparties`.
pub open spec fn may_disconnect(
    counterparties: Seq<PublicKey>,
    pubkey: PublicKey,
    connected: bool,
) -> bool {
    connected && !counterparties.contains(pubkey)
}

/// A peer that there is a channel with is never disconnected; a connected one without is. Channels with
/// other peers do not matter.
pub proof fn law_channels_keep_peers_connected(
    counterparties: Seq<PublicKey>,
    pubkey: PublicKey,
    other: PublicKey,
    connected: bool,
)
    ensures
        !may_disconnect(counterparties.push(pubkey), pubkey, connected),
        other != pubkey ==> may_disconnect(counterparties.push(other), pubkey, connected)
            == may_disconnect(counterparties, pubkey, connected),
        may_disconnect(Seq::<PublicKey>::empty(), pubkey, connected) == connected,
        !connected ==> !may_disconnect(counterparties, pubkey, connected),
{
    let more = counterparties.push(pubkey);
    assert(more[more.len() - 1] == pubkey);
    let others = counterparties.push(other);
    if other != pubkey {
        if counterparties.contains(pubkey) {
            let i = choose|i: int| 0 <= i < counterparties.len() && counterparties[i] == pubkey;
            assert(others[i] == pubkey);
        }
        if others.contains(pubkey) {
            let i = choose|i: int| 0 <= i < others.len() && others[i] == pubkey;
            assert(i < counterparties.len());
            assert(counterparties[i] == pubkey);
        }
    }
}

/// The address of a peer is what stands between the first `@` and the next, or the end; a peer without
/// `@` has none.
pub proof fn law_address_stands_behind_the_key(
    key: Seq<char>,
    address: Seq<char>,
    rest: Seq<char>,
)
    requires
        !key.contains('@'),
        !address.contains('@'),
    ensures
        address_part(key) is None,
        address_part(key + seq!['@'] + address) == Some(address),
        address_part(key + seq!['@'] + (address + seq!['@'] + rest)) == Some(address),
        text::split_of(key + seq!['@'] + address, '@')[0] == key,
{
    text::law_split_at_the_first(key, address, '@');
    text::law_split_at_the_first(address, rest, '@');
    text::law_split_at_the_first(key, address + seq!['@'] + rest, '@');
}

/// Whether the peer may be disconnected: not while there is a channel with it, and not unless it is
/// connected.
pub fn do_disconnect_peer(
    pubkey: PublicKey,
    channel_counterparties: &Vec<PublicKey>,
    connected: bool,
) -> (r: Result<(), CliError>)
    ensures
        if channel_counterparties@.contains(pubkey) {
            r matches Err(CliError::ActiveChannelWithPeer)
        } else if !connected {
            r matches Err(CliError::PeerNotConnected(k)) && k == pubkey
        } else {
            r is Ok
        },
        r is Ok <==> may_disconnect(channel_counterparties@, pubkey, connected),
{
    if is_among(&pubkey, channel_counterparties) {
        return Err(CliError::ActiveChannelWithPeer);
    }
    if !connected {
        Err(CliError::PeerNotConnected(pubkey))
    } else {
        Ok(())
    }
}

/// What is said after `connectpeer`.
pub fn connected_message(pubkey: &PublicKey, outcome: Result<(), ConnectError>) -> (r: Message)
    ensures
        r@ == (match outcome {
            Ok(()) => logging::print("SUCCESS: connected to peer "@ + hex_utils::hex_of(pubkey@)),
            Err(ConnectError::ConnectionFailed) => logging::err(
                CliError::PeerConnectionFailed.shown(),
            ),
            Err(ConnectError::ConnectionClosed) => logging::err(CliError::ConnectionClosed.shown()),
        }),
{
    match outcome {
        Ok(()) => {
            let mut t = "SUCCESS: connected to peer ".to_owned();
            t.append(pubkey.to_text().as_str());
            print_line(t)
        },
        Err(e) => user_err(CliError::from(e).to_text()),
    }
}

/// What is said after `disconnectpeer`.
pub fn disconnected_message(pubkey: &PublicKey, outcome: &Result<(), CliError>) -> (r: Message)
    ensures
        r@ == (match *outcome {
            Ok(()) => logging::print(
                "SUCCESS: disconnected from peer "@ + hex_utils::hex_of(pubkey@),
            ),
            Err(e) => logging::err(e.shown()),
        }),
{
    match outcome {
        Ok(()) => {
            let mut t = "SUCCESS: disconnected from peer ".to_owned();
            t.append(pubkey.to_text().as_str());
            print_line(t)
        },
        Err(e) => user_err(e.to_text()),
    }
}

} // verus!
