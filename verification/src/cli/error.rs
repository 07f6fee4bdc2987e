//! Why a command fails.
use crate::hex_utils;
use crate::keys::PublicKey;
use crate::net::peer::ConnectError;
use vstd::prelude::*;

verus! {

/// Why a command fails.
#[derive(Debug)]
pub enum CliError {
    /// The peer is not given as `pubkey@host:port`.
    InvalidPeerInfoFormat,
    /// This address leads nowhere.
    PeerAddressResolution(String),
    /// The key of the peer cannot be read.
    InvalidPubkey,
    /// The peer cannot be connected to.
    PeerConnectionFailed,
    /// The peer hung up.
    ConnectionClosed,
    /// There is a channel with the peer.
    ActiveChannelWithPeer,
    /// The peer is not connected.
    PeerNotConnected(PublicKey),
    /// The channel cannot be opened.
    ChannelOpenFailed(String),
}

impl CliError {
    /// The reason as it is shown.
    pub open spec fn shown(self) -> Seq<char> {
        match self {
            CliError::InvalidPeerInfoFormat =>
                "incorrectly formatted peer info, expected `pubkey@host:port`"@,
            CliError::PeerAddressResolution(a) => "could not resolve `"@ + a@
                + "` to a socket address"@,
            CliError::InvalidPubkey => "unable to parse peer public key"@,
            CliError::PeerConnectionFailed => "failed to connect to peer"@,
            CliError::ConnectionClosed => "connection closed before peer handshake completed"@,
            CliError::ActiveChannelWithPeer =>
                "node has an active channel with this peer, close channels first"@,
            CliError::PeerNotConnected(k) => "could not find connected peer "@ + hex_utils::hex_of(
                k@,
            ),
            CliError::ChannelOpenFailed(m) => "failed to open channel: "@ + m@,
        }
    }

    /// The reason as text.
    pub fn to_text(&self) -> (r: String)
        ensures
            r@ == self.shown(),
    {
        match self {
            CliError::InvalidPeerInfoFormat =>
                "incorrectly formatted peer info, expected `pubkey@host:port`".to_owned(),
            CliError::PeerAddressResolution(a) => {
                let mut r = "could not resolve `".to_owned();
                r.append(a.as_str());
                r.append("` to a socket address");
                r
            },
            CliError::InvalidPubkey => "unable to parse peer public key".to_owned(),
            CliError::PeerConnectionFailed => "failed to connect to peer".to_owned(),
            CliError::ConnectionClosed =>
                "connection closed before peer handshake completed".to_owned(),
            CliError::ActiveChannelWithPeer =>
                "node has an active channel with this peer, close channels first".to_owned(),
            CliError::PeerNotConnected(k) => {
                let mut r = "could not find connected peer ".to_owned();
                r.append(k.to_text().as_str());
                r
            },
            CliError::ChannelOpenFailed(m) => {
                let mut r = "failed to open channel: ".to_owned();
                r.append(m.as_str());
                r
            },
        }
    }
}

impl From<ConnectError> for CliError {
    fn from(e: ConnectError) -> (r: Self) {
        match e {
            ConnectError::ConnectionFailed => CliError::PeerConnectionFailed,
            ConnectError::ConnectionClosed => CliError::ConnectionClosed,
        }
    }
}

impl vstd::std_specs::convert::FromSpecImpl<ConnectError> for CliError {
    open spec fn obeys_from_spec() -> bool {
        true
    }

    open spec fn from_spec(e: ConnectError) -> CliError {
        match e {
            ConnectError::ConnectionFailed => CliError::PeerConnectionFailed,
            ConnectError::ConnectionClosed => CliError::ConnectionClosed,
        }
    }
}

} // verus!
