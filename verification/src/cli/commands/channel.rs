//! `openchannel`, `closechannel` and `forceclosechannel`.
use crate::cli::commands::peer;
use crate::cli::commands::peer::parse_peer_info;
use crate::cli::error::CliError;
use crate::cli::parse;
use crate::hex_utils;
use crate::keys::PublicKey;
use crate::logging;
use crate::logging::{print_line, user_err, user_out, Message, MessageView};
use crate::net::peer::ConnectError;
use crate::text;
use crate::text::{parse_number, same};
use vstd::prelude::*;

verus! {

/// The largest delay that a peer may ask for, in blocks.
pub const THEIR_TO_SELF_DELAY: u16 = 2016;

/// The reason given for a forced close.
pub const FORCE_CLOSE_REASON: &'static str = "Manually force-closed";

/// A channel to be opened.
pub struct ChannelRequest {
    /// Its value in satoshis.
    pub amount_sat: u64,
    /// Whether it is announced.
    pub announce: bool,
    /// Whether its fees can be raised later.
    pub with_anchors: bool,
    /// What is wrong with the flags: one message for each that is not understood.
    pub complaints: Vec<Message>,
}

/// Whether a flag is one of those that can be set.
pub open spec fn is_flag(f: Seq<char>) -> bool {
    sets_public(f) is Some || sets_anchors(f) is Some
}

/// What a flag says of the announcement of the channel.
pub open spec fn sets_public(f: Seq<char>) -> Option<bool> {
    if f == "--public"@ || f == "--public=true"@ {
        Some(true)
    } else if f == "--public=false"@ {
        Some(false)
    } else {
        None
    }
}

/// What a flag says of anchors.
pub open spec fn sets_anchors(f: Seq<char>) -> Option<bool> {
    if f == "--with-anchors"@ || f == "--with-anchors=true"@ {
        Some(true)
    } else if f == "--with-anchors=false"@ {
        Some(false)
    } else {
        None
    }
}

/// Whether the channel is announced: as the last flag on it says, and not if none does.
pub open spec fn announce_of(flags: Seq<Seq<char>>) -> bool
    decreases flags.len(),
{
    if flags.len() == 0 {
        false
    } else {
        match sets_public(flags.last()) {
            Some(b) => b,
            None => announce_of(flags.drop_last()),
        }
    }
}

/// Whether the channel has anchors: as the last flag on it says, and not if none does.
pub open spec fn anchors_of(flags: Seq<Seq<char>>) -> bool
    decreases flags.len(),
{
    if flags.len() == 0 {
        false
    } else {
        match sets_anchors(flags.last()) {
            Some(b) => b,
            None => anchors_of(flags.drop_last()),
        }
    }
}

/// The message about a flag that is not understood.
pub open spec fn flag_complaint() -> MessageView {
    logging::err(
        "invalid boolean flag format. Valid formats: `--option`, `--option=true` `--option=false`"@,
    )
}

/// The messages about flags that are not understood.
pub open spec fn complaints_of(flags: Seq<Seq<char>>) -> Seq<MessageView>
    decreases flags.len(),
{
    if flags.len() == 0 {
        Seq::empty()
    } else if is_flag(flags.last()) {
        complaints_of(flags.drop_last())
    } else {
        complaints_of(flags.drop_last()).push(flag_complaint())
    }
}

fn public_flag(f: &str) -> (r: Option<bool>)
    ensures
        r == sets_public(f@),
{
    if same(f, "--public") || same(f, "--public=true") {
        Some(true)
    } else if same(f, "--public=false") {
        Some(false)
    } else {
        None
    }
}

fn anchors_flag(f: &str) -> (r: Option<bool>)
    ensures
        r == sets_anchors(f@),
{
    if same(f, "--with-anchors") || same(f, "--with-anchors=true") {
        Some(true)
    } else if same(f, "--with-anchors=false") {
        Some(false)
    } else {
        None
    }
}

proof fn lemma_flags_differ(f: Seq<char>)
    requires
        sets_public(f) is Some,
    ensures
        sets_anchors(f) is None,
{
    reveal_strlit("--public");
    reveal_strlit("--public=true");
    reveal_strlit("--public=false");
    reveal_strlit("--with-anchors");
    reveal_strlit("--with-anchors=true");
    reveal_strlit("--with-anchors=false");
    assert(f[2] == 'p');
}

/// The channel that the words after the peer ask for. A flag that is not understood is complained
/// about and otherwise ignored.
pub fn channel_request(amount: &str, flags: &Vec<String>) -> (r: Result<ChannelRequest, Message>)
    ensures
        match text::number_of(amount@, u64::MAX as nat) {
            Err(_) => r matches Err(m) && m@ == logging::err("channel amount must be a number"@),
            Ok(n) => r matches Ok(c) && c.amount_sat == n && c.announce == announce_of(
                parse::string_views(flags@),
            ) && c.with_anchors == anchors_of(parse::string_views(flags@))
                && logging::message_views(c.complaints@) == complaints_of(
                parse::string_views(flags@),
            ),
        },
{
    let amount_sat: u64 = match parse_number(amount, u64::MAX) {
        Ok(n) => n,
        Err(_) => {
            return Err(user_err("channel amount must be a number".to_owned()));
        },
    };
    let n: usize = flags.len();
    let mut announce = false;
    let mut with_anchors = false;
    let mut complaints: Vec<Message> = Vec::new();
    let mut i: usize = 0;
    let ghost all = parse::string_views(flags@);
    assert(all.take(0) == Seq::<Seq<char>>::empty());
    assert(logging::message_views(complaints@) =~= complaints_of(all.take(0)));
    while i < n
        invariant
            n == flags@.len(),
            i <= n,
            all == parse::string_views(flags@),
            announce == announce_of(all.take(i as int)),
            with_anchors == anchors_of(all.take(i as int)),
            logging::message_views(complaints@) == complaints_of(all.take(i as int)),
        decreases n - i,
    {
        let flag = flags[i].as_str();
        let ghost before = complaints@;
        proof {
            assert(all.take(i + 1).drop_last() == all.take(i as int));
            assert(all.take(i + 1).last() == flag@);
            if sets_public(flag@) is Some {
                lemma_flags_differ(flag@);
            }
        }
        match public_flag(flag) {
            Some(b) => {
                announce = b;
            },
            None => match anchors_flag(flag) {
                Some(b) => {
                    with_anchors = b;
                },
                None => {
                    complaints.push(
                        user_err(
                            "invalid boolean flag format. Valid formats: `--option`, `--option=true` `--option=false`".to_owned(),
                        ),
                    );
                    assert(logging::message_views(complaints@) =~= logging::message_views(
                        before,
                    ).push(flag_complaint()));
                },
            },
        }
        i = i + 1;
    }
    assert(all.take(n as int) == all);
    Ok(ChannelRequest { amount_sat, announce, with_anchors, complaints })
}

/// What is said where a peer without an address is not connected.
pub fn unaddressed_peer_message() -> (r: Message)
    ensures
        r@ == logging::print("ERROR: Peer address not provided and peer is not connected"@),
{
    print_line("ERROR: Peer address not provided and peer is not connected".to_owned())
}

/// How far `openchannel` has got.
pub enum Opening<A> {
    /// See whether the peer is connected.
    Look,
    /// Connect to the peer, unless it is connected.
    Connect { pubkey: PublicKey, addr: A },
    /// Ask the peer for the channel.
    Create(ChannelRequest),
    /// Give up, with a message.
    Rejected(Message),
}

/// Whether what is done next is what the words after the peer ask for: to ask for the channel, or to
/// give up if its value is not a number.
pub open spec fn requests<A>(o: Opening<A>, amount: Seq<char>, flags: Seq<Seq<char>>) -> bool {
    match text::number_of(amount, u64::MAX as nat) {
        Err(_) => o matches Opening::Rejected(m) && m@ == logging::err(
            "channel amount must be a number"@,
        ),
        Ok(n) => o matches Opening::Create(c) && c.amount_sat == n && c.announce == announce_of(
            flags,
        ) && c.with_anchors == anchors_of(flags) && logging::message_views(c.complaints@)
            == complaints_of(flags),
    }
}

fn requested<A>(amount: &str, flags: &Vec<String>) -> (r: Opening<A>)
    ensures
        requests(r, amount@, parse::string_views(flags@)),
{
    match channel_request(amount, flags) {
        Ok(c) => Opening::Create(c),
        Err(m) => Opening::Rejected(m),
    }
}

/// Whether `o` is how `openchannel` begins: with a look at the peer if no address is given, and else
/// with a connection to the address and the key that are given, as far as they can be read.
pub open spec fn begins<A>(
    o: Opening<A>,
    addressed: bool,
    peer: Seq<char>,
    resolved: Option<A>,
) -> bool {
    if !addressed {
        o is Look
    } else if peer::address_part(peer) is None || resolved is None || hex_utils::compressed_pubkey(
        text::split_of(peer, '@')[0],
    ) is None {
        o is Rejected
    } else {
        o matches Opening::Connect { pubkey, addr } && hex_utils::compressed_pubkey(
            text::split_of(peer, '@')[0],
        ) == Some(pubkey@) && resolved == Some(addr)
    }
}

/// Whether `o` is how `openchannel` goes on once the peer is connected, or is found not to be.
pub open spec fn goes_on<A>(
    o: Opening<A>,
    connected: bool,
    amount: Seq<char>,
    flags: Seq<Seq<char>>,
) -> bool {
    if connected {
        requests(o, amount, flags)
    } else {
        o is Rejected
    }
}

/// Begins `openchannel`. A peer that is given with an address is connected first, where `resolved` is
/// what the address stands for; one that is not has to be connected already.
pub fn begin_opening<A>(addressed: bool, peer: &str, resolved: Option<A>) -> (r: Opening<A>)
    ensures
        if !addressed {
            r is Look
        } else {
            match (peer::address_part(peer@), resolved) {
                (None, _) => r matches Opening::Rejected(m) && m@ == logging::err(
                    "incorrectly formatted peer info, expected `pubkey@host:port`"@,
                ),
                (Some(a), None) => r matches Opening::Rejected(m) && m@ == logging::err(
                    "could not resolve `"@ + a + "` to a socket address"@,
                ),
                (Some(_), Some(addr)) => match hex_utils::compressed_pubkey(
                    text::split_of(peer@, '@')[0],
                ) {
                    None => r matches Opening::Rejected(m) && m@ == logging::err(
                        "unable to parse peer public key"@,
                    ),
                    Some(k) => r matches Opening::Connect { pubkey, addr: at } && pubkey@ == k && at
                        == addr,
                },
            }
        },
        begins(r, addressed, peer@, resolved),
{
    if !addressed {
        return Opening::Look;
    }
    match parse_peer_info(peer, resolved) {
        Ok((pubkey, addr)) => Opening::Connect { pubkey, addr },
        Err(e) => Opening::Rejected(user_err(e.to_text())),
    }
}

/// Goes on once it is known whether the peer is connected.
pub fn peer_looked_up<A>(connected: bool, amount: &str, flags: &Vec<String>) -> (r: Opening<A>)
    ensures
        if connected {
            requests(r, amount@, parse::string_views(flags@))
        } else {
            r matches Opening::Rejected(m) && m@ == logging::print(
                "ERROR: Peer address not provided and peer is not connected"@,
            )
        },
        goes_on(r, connected, amount@, parse::string_views(flags@)),
{
    if connected {
        requested(amount, flags)
    } else {
        Opening::Rejected(unaddressed_peer_message())
    }
}

/// Goes on once the peer is connected, or could not be.
pub fn peer_connected<A>(
    outcome: Result<(), ConnectError>,
    amount: &str,
    flags: &Vec<String>,
) -> (r: Opening<A>)
    ensures
        match outcome {
            Ok(()) => requests(r, amount@, parse::string_views(flags@)),
            Err(e) => r matches Opening::Rejected(m) && m@ == logging::err(
                match e {
                    ConnectError::ConnectionFailed => "failed to connect to peer"@,
                    ConnectError::ConnectionClosed =>
                        "connection closed before peer handshake completed"@,
                },
            ),
        },
        goes_on(r, outcome is Ok, amount@, parse::string_views(flags@)),
{
    match outcome {
        Ok(()) => requested(amount, flags),
        Err(e) => Opening::Rejected(user_err(CliError::from(e).to_text())),
    }
}

/// What is said after `openchannel`: `outcome` is the error of the attempt, if it failed.
pub fn open_channel_message(peer_pubkey: &PublicKey, outcome: Result<(), String>) -> (r: Message)
    ensures
        r@ == (match outcome {
            Ok(()) => logging::print(
                "EVENT: initiated channel with peer "@ + hex_utils::hex_of(peer_pubkey@) + ". "@,
            ),
            Err(e) => logging::err("failed to open channel: "@ + e@),
        }),
{
    match outcome {
        Ok(()) => {
            let mut t = "EVENT: initiated channel with peer ".to_owned();
            t.append(peer_pubkey.to_text().as_str());
            t.append(". ");
            print_line(t)
        },
        Err(e) => user_err(CliError::ChannelOpenFailed(e).to_text()),
    }
}

/// What is said after `closechannel` and `forceclosechannel`: `outcome` is the error of the attempt,
/// if it failed.
pub fn close_channel_message(forced: bool, outcome: Result<(), String>) -> (r: Message)
    ensures
        r@ == (match outcome {
            Ok(()) => logging::out(
                if forced {
                    "EVENT: initiating channel force-close"@
                } else {
                    "EVENT: initiating channel close"@
                },
            ),
            Err(e) => logging::err(
                (if forced {
                    "failed to force-close channel: "@
                } else {
                    "failed to close channel: "@
                }) + e@,
            ),
        }),
{
    match outcome {
        Ok(()) => if forced {
            user_out("EVENT: initiating channel force-close".to_owned())
        } else {
            user_out("EVENT: initiating channel close".to_owned())
        },
        Err(e) => {
            let mut t = if forced {
                "failed to force-close channel: ".to_owned()
            } else {
                "failed to close channel: ".to_owned()
            };
            t.append(e.as_str());
            user_err(t)
        },
    }
}

/// After any flags, a flag without a value means the same as with `=true`, and the opposite of the
/// same flag with `=false`. The two options do not touch each other.
pub proof fn law_bare_flags_mean_true(flags: Seq<Seq<char>>)
    ensures
        announce_of(flags.push("--public"@)) && announce_of(flags.push("--public=true"@))
            && !announce_of(flags.push("--public=false"@)),
        anchors_of(flags.push("--with-anchors"@)) && anchors_of(flags.push("--with-anchors=true"@))
            && !anchors_of(flags.push("--with-anchors=false"@)),
        anchors_of(flags.push("--public"@)) == anchors_of(flags),
        announce_of(flags.push("--with-anchors"@)) == announce_of(flags),
        sets_public("--public"@) == Some(true),
        sets_public("--public=true"@) == sets_public("--public"@),
        sets_public("--public=false"@) == Some(false),
        sets_anchors("--with-anchors"@) == Some(true),
        sets_anchors("--with-anchors=true"@) == sets_anchors("--with-anchors"@),
        sets_anchors("--with-anchors=false"@) == Some(false),
        sets_anchors("--public"@) is None,
        sets_anchors("--public=true"@) is None,
        sets_anchors("--public=false"@) is None,
        sets_public("--with-anchors"@) is None,
        sets_public("--with-anchors=true"@) is None,
        sets_public("--with-anchors=false"@) is None,
{
    reveal_strlit("--public");
    reveal_strlit("--public=true");
    reveal_strlit("--public=false");
    reveal_strlit("--with-anchors");
    reveal_strlit("--with-anchors=true");
    reveal_strlit("--with-anchors=false");
    assert("--public"@[2] == 'p' && "--public=true"@[2] == 'p' && "--public=false"@[2] == 'p');
    assert("--with-anchors"@[2] == 'w' && "--with-anchors=true"@[2] == 'w'
        && "--with-anchors=false"@[2] == 'w');
    assert("--public"@.len() == 8 && "--public=true"@.len() == 13 && "--public=false"@.len() == 14);
    assert("--with-anchors"@.len() == 14 && "--with-anchors=true"@.len() == 19
        && "--with-anchors=false"@.len() == 20);
    assert(flags.push("--public"@).drop_last() =~= flags);
    assert(flags.push("--with-anchors"@).drop_last() =~= flags);
}

/// A channel is neither announced nor has anchors unless a flag says so, and the last flag on either
/// counts. A flag that is none of the six is complained about once and changes nothing; the others are
/// not complained about.
pub proof fn law_last_flag_counts(flags: Seq<Seq<char>>, f: Seq<char>)
    ensures
        !announce_of(Seq::<Seq<char>>::empty()),
        !anchors_of(Seq::<Seq<char>>::empty()),
        complaints_of(Seq::<Seq<char>>::empty()).len() == 0,
        f == "--public"@ || f == "--public=true"@ ==> announce_of(flags.push(f)),
        f == "--public=false"@ ==> !announce_of(flags.push(f)),
        f == "--with-anchors"@ || f == "--with-anchors=true"@ ==> anchors_of(flags.push(f)),
        f == "--with-anchors=false"@ ==> !anchors_of(flags.push(f)),
        !(f == "--public"@ || f == "--public=true"@ || f == "--public=false"@) ==> announce_of(
            flags.push(f),
        ) == announce_of(flags),
        !(f == "--with-anchors"@ || f == "--with-anchors=true"@ || f == "--with-anchors=false"@)
            ==> anchors_of(flags.push(f)) == anchors_of(flags),
        f == "--public"@ || f == "--public=true"@ || f == "--public=false"@ || f
            == "--with-anchors"@ || f == "--with-anchors=true"@ || f == "--with-anchors=false"@
            ==> complaints_of(flags.push(f)) == complaints_of(flags),
        !(f == "--public"@ || f == "--public=true"@ || f == "--public=false"@ || f
            == "--with-anchors"@ || f == "--with-anchors=true"@ || f == "--with-anchors=false"@)
            ==> complaints_of(flags.push(f)).len() == complaints_of(flags).len() + 1
            && complaints_of(flags.push(f)).last().level == logging::Level::Error,
{
    law_bare_flags_mean_true(flags);
    assert(flags.push(f).drop_last() =~= flags);
}

/// A channel is asked for with the value and the flags that were given, and is not asked for where the
/// value is no number.
pub proof fn law_channel_is_opened_as_asked<A>(
    o: Opening<A>,
    amount: Seq<char>,
    flags: Seq<Seq<char>>,
)
    requires
        requests(o, amount, flags),
    ensures
        o is Create <==> text::number_of(amount, u64::MAX as nat) is Ok,
        o is Rejected <==> text::number_of(amount, u64::MAX as nat) is Err,
        o matches Opening::Create(c) ==> text::number_of(amount, u64::MAX as nat) == Ok::<
            nat,
            text::NumberError,
        >(c.amount_sat as nat) && c.announce == announce_of(flags) && c.with_anchors == anchors_of(
            flags,
        ) && c.complaints@.len() == complaints_of(flags).len(),
{
    if let Opening::Create(c) = o {
        assert(logging::message_views(c.complaints@).len() == c.complaints@.len());
    }
}

/// A channel is only asked for once the peer is connected. With an address the peer is connected to
/// there, under the key that was given; without one it is only looked for.
pub proof fn law_peer_is_connected_first<A>(
    first: Opening<A>,
    next: Opening<A>,
    addressed: bool,
    peer: Seq<char>,
    resolved: Option<A>,
    connected: bool,
    amount: Seq<char>,
    flags: Seq<Seq<char>>,
)
    requires
        begins(first, addressed, peer, resolved),
        goes_on(next, connected, amount, flags),
    ensures
        !(first is Create),
        first is Look <==> !addressed,
        first matches Opening::Connect { pubkey, addr } ==> addressed && resolved == Some(addr)
            && hex_utils::compressed_pubkey(text::split_of(peer, '@')[0]) == Some(pubkey@),
        addressed && peer::address_part(peer) is Some && resolved is Some
            && hex_utils::compressed_pubkey(text::split_of(peer, '@')[0]) is Some
            ==> first is Connect,
        next is Create <==> connected && text::number_of(amount, u64::MAX as nat) is Ok,
        next is Create || next is Rejected,
        next matches Opening::Create(c) ==> c.announce == announce_of(flags) && c.with_anchors
            == anchors_of(flags),
{
}

} // verus!
