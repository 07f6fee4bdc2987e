//! Connecting to a peer.
use vstd::prelude::*;

verus! {

/// Why a peer is not connected.
#[derive(Clone, Copy, Debug, PartialEq, Eq, Structural)]
pub enum ConnectError {
    /// The connection could not be opened.
    ConnectionFailed,
    /// The connection was closed too early.
    ConnectionClosed,
}

impl ConnectError {
    /// The reason as text.
    pub fn to_text(&self) -> (r: String)
        ensures
            r@ == (match self {
                ConnectError::ConnectionFailed => "failed to initiate outbound connection"@,
                ConnectError::ConnectionClosed =>
                    "connection closed before peer handshake completed"@,
            }),
    {
        match self {
            ConnectError::ConnectionFailed => "failed to initiate outbound connection".to_owned(),
            ConnectError::ConnectionClosed =>
                "connection closed before peer handshake completed".to_owned(),
        }
    }
}

/// Where a connection attempt stands.
#[derive(Clone, Copy, Debug, PartialEq, Eq)]
pub enum Connecting {
    /// Open a connection.
    Dial,
    /// The connection is open: sleep for ten milliseconds, or until it is closed.
    Handshake,
    /// Look whether the peer is connected.
    Look,
    /// The attempt is over.
    Done(Result<(), ConnectError>),
}

/// What happened in a connection attempt.
#[derive(Clone, Copy, Debug, PartialEq, Eq, Structural)]
pub enum ConnectEvent {
    /// The connection was opened or not.
    Dialled { open: bool },
    /// The connection was closed.
    Closed,
    /// The sleep is over.
    Slept,
    /// The peer is connected or not.
    Looked { connected: bool },
}

/// Where an attempt to connect to a peer begins that may be connected already.
pub open spec fn first_connecting(connected: bool) -> Connecting {
    if connected {
        Connecting::Done(Ok(()))
    } else {
        Connecting::Dial
    }
}

/// The beginning of an attempt to connect to a peer that may be connected already.
pub fn connect_peer_if_necessary(connected: bool) -> (r: Connecting)
    ensures
        r == (if connected {
            Connecting::Done(Ok(()))
        } else {
            Connecting::Dial
        }),
        r == first_connecting(connected),
{
    if connected {
        Connecting::Done(Ok(()))
    } else {
        do_connect_peer()
    }
}

/// The beginning of an attempt to connect to a peer.
pub fn do_connect_peer() -> (r: Connecting)
    ensures
        r == Connecting::Dial,
{
    Connecting::Dial
}

/// Where an attempt stands after `event`: it fails if the connection does not open or closes before
/// the peer is seen connected, and looks for the peer after every sleep. An event that does not fit
/// is ignored.
pub open spec fn next_connecting(state: Connecting, event: ConnectEvent) -> Connecting {
    match (state, event) {
        (Connecting::Dial, ConnectEvent::Dialled { open }) => if open {
            Connecting::Handshake
        } else {
            Connecting::Done(Err(ConnectError::ConnectionFailed))
        },
        (Connecting::Handshake, ConnectEvent::Closed) => Connecting::Done(
            Err(ConnectError::ConnectionClosed),
        ),
        (Connecting::Handshake, ConnectEvent::Slept) => Connecting::Look,
        (Connecting::Look, ConnectEvent::Looked { connected }) => if connected {
            Connecting::Done(Ok(()))
        } else {
            Connecting::Handshake
        },
        _ => state,
    }
}

/// Where an attempt stands after `event`.
pub fn advance_connecting(state: Connecting, event: ConnectEvent) -> (r: Connecting)
    ensures
        r == next_connecting(state, event),
{
    match (state, event) {
        (Connecting::Dial, ConnectEvent::Dialled { open }) => if open {
            Connecting::Handshake
        } else {
            Connecting::Done(Err(ConnectError::ConnectionFailed))
        },
        (Connecting::Handshake, ConnectEvent::Closed) => Connecting::Done(
            Err(ConnectError::ConnectionClosed),
        ),
        (Connecting::Handshake, ConnectEvent::Slept) => Connecting::Look,
        (Connecting::Look, ConnectEvent::Looked { connected }) => if connected {
            Connecting::Done(Ok(()))
        } else {
            Connecting::Handshake
        },
        _ => state,
    }
}

/// An attempt succeeds only after the peer was seen connected, and stays over once it is over.
pub proof fn law_connected_only_if_seen(state: Connecting, event: ConnectEvent)
    ensures
        next_connecting(state, event) == Connecting::Done(Ok(())) ==> state == Connecting::Done(
            Ok(()),
        ) || event == (ConnectEvent::Looked { connected: true }),
        state is Done ==> next_connecting(state, event) == state,
{
}

/// A peer that is connected is not dialled again, and one that is not is. The attempt fails if the
/// connection does not open, or closes while the peer is waited for; it succeeds when the peer is seen,
/// and else goes on waiting.
pub proof fn law_connecting_waits_for_the_peer(connected: bool)
    ensures
        first_connecting(connected) is Done <==> connected,
        connected ==> first_connecting(connected) == Connecting::Done(Ok(())),
        !connected ==> first_connecting(connected) == Connecting::Dial,
        next_connecting(Connecting::Dial, ConnectEvent::Dialled { open: connected }) == (
        if connected {
            Connecting::Handshake
        } else {
            Connecting::Done(Err(ConnectError::ConnectionFailed))
        }),
        next_connecting(Connecting::Handshake, ConnectEvent::Closed) == Connecting::Done(
            Err(ConnectError::ConnectionClosed),
        ),
        next_connecting(Connecting::Handshake, ConnectEvent::Slept) == Connecting::Look,
        next_connecting(Connecting::Look, ConnectEvent::Looked { connected }) == (if connected {
            Connecting::Done(Ok(()))
        } else {
            Connecting::Handshake
        }),
{
}

/// Where an attempt stands after looking so many times in vain for a peer whose connection is open.
pub open spec fn waiting(looks: nat) -> Connecting
    decreases looks,
{
    if looks == 0 {
        next_connecting(Connecting::Dial, ConnectEvent::Dialled { open: true })
    } else {
        next_connecting(
            next_connecting(waiting((looks - 1) as nat), ConnectEvent::Slept),
            ConnectEvent::Looked { connected: false },
        )
    }
}

/// However often the peer is looked for in vain, the attempt goes on, and ends well as soon as the peer
/// is seen, or badly as soon as the connection closes.
pub proof fn law_waiting_goes_on(looks: nat)
    ensures
        !(waiting(looks) is Done),
        next_connecting(
            next_connecting(waiting(looks), ConnectEvent::Slept),
            ConnectEvent::Looked { connected: true },
        ) == Connecting::Done(Ok(())),
        next_connecting(waiting(looks), ConnectEvent::Closed) == Connecting::Done(
            Err(ConnectError::ConnectionClosed),
        ),
    decreases looks,
{
    if looks > 0 {
        law_waiting_goes_on((looks - 1) as nat);
        assert(waiting((looks - 1) as nat) == Connecting::Handshake) by {
            lemma_waiting(looks);
        }
    }
}

proof fn lemma_waiting(looks: nat)
    ensures
        looks > 0 ==> waiting((looks - 1) as nat) == Connecting::Handshake,
        waiting(looks) == Connecting::Handshake,
    decreases looks,
{
    if looks > 0 {
        lemma_waiting((looks - 1) as nat);
    }
}

} // verus!
