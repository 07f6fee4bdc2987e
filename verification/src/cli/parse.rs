//! Reading a line of input as a command.
use crate::hex_utils;
use crate::hex_utils::{to_compressed_pubkey, to_vec};
use crate::keys;
use crate::keys::PublicKey;
use crate::logging;
use crate::logging::{print_line, user_err, Message, MessageView};
use crate::table::{take32, Bytes32};
use crate::text;
use crate::text::{parse_number, same, split, trim, words};
use vstd::prelude::*;
use vstd::slice::{slice_subrange, slice_to_vec};

verus! {

/// What a line of input asks for.
#[allow(inconsistent_fields)]
pub enum Command {
    /// Nothing.
    Empty,
    /// The list of commands.
    Help,
    /// A channel with the peer `peer`, whose key is `pubkey`. What follows the peer is read once the
    /// peer is connected.
    OpenChannel {
        pubkey: PublicKey,
        peer: String,
        addressed: bool,
        amount: String,
        flags: Vec<String>,
    },
    /// A payment.
    SendPayment { invoice: String, amount_msat: Option<u64> },
    /// A payment without an invoice.
    Keysend { dest: PublicKey, amt_msat: u64 },
    /// An offer. The amount is read once an offer can be made.
    GetOffer { amount: Option<String> },
    /// An invoice.
    GetInvoice { amt_msat: u64, expiry_secs: u32 },
    /// A connection to a peer.
    ConnectPeer { peer: String },
    /// The end of a connection.
    DisconnectPeer { peer: PublicKey },
    /// The channels.
    ListChannels,
    /// The payments.
    ListPayments,
    /// The end of a channel.
    CloseChannel { channel_id: Bytes32, peer: PublicKey },
    /// The end of a channel without the peer's consent.
    ForceCloseChannel { channel_id: Bytes32, peer: PublicKey },
    /// What is known of the node.
    NodeInfo,
    /// The balances that can be claimed.
    ListClaimableBalances,
    /// The outputs that are being swept.
    ListSweeperOutputs,
    /// The peers.
    ListPeers,
    /// A signature of a message.
    SignMessage { message: Vec<u8> },
    /// The end of the program.
    Quit,
    /// Nothing that can be done, for the reason in the message.
    Rejected(Message),
}

/// A command, with sequences in place of texts, keys and bytes.
#[allow(inconsistent_fields)]
pub enum CommandView {
    Empty,
    Help,
    OpenChannel {
        pubkey: Seq<u8>,
        peer: Seq<char>,
        addressed: bool,
        amount: Seq<char>,
        flags: Seq<Seq<char>>,
    },
    SendPayment { invoice: Seq<char>, amount_msat: Option<u64> },
    Keysend { dest: Seq<u8>, amt_msat: nat },
    GetOffer { amount: Option<Seq<char>> },
    GetInvoice { amt_msat: nat, expiry_secs: nat },
    ConnectPeer { peer: Seq<char> },
    DisconnectPeer { peer: Seq<u8> },
    ListChannels,
    ListPayments,
    CloseChannel { channel_id: Seq<u8>, peer: Seq<u8> },
    ForceCloseChannel { channel_id: Seq<u8>, peer: Seq<u8> },
    NodeInfo,
    ListClaimableBalances,
    ListSweeperOutputs,
    ListPeers,
    SignMessage { message: Seq<u8> },
    Quit,
    Rejected(MessageView),
}

/// The texts of a list, each as a sequence of characters.
pub open spec fn string_views(s: Seq<String>) -> Seq<Seq<char>> {
    Seq::new(s.len(), |i: int| s[i]@)
}

impl View for Command {
    type V = CommandView;

    open spec fn view(&self) -> CommandView {
        match self {
            Command::Empty => CommandView::Empty,
            Command::Help => CommandView::Help,
            Command::OpenChannel { pubkey, peer, addressed, amount, flags } =>
                CommandView::OpenChannel {
                pubkey: pubkey@,
                peer: peer@,
                addressed: *addressed,
                amount: amount@,
                flags: string_views(flags@),
            },
            Command::SendPayment { invoice, amount_msat } => CommandView::SendPayment {
                invoice: invoice@,
                amount_msat: *amount_msat,
            },
            Command::Keysend { dest, amt_msat } => CommandView::Keysend {
                dest: dest@,
                amt_msat: *amt_msat as nat,
            },
            Command::GetOffer { amount } => CommandView::GetOffer {
                amount: match amount {
                    Some(a) => Some(a@),
                    None => None,
                },
            },
            Command::GetInvoice { amt_msat, expiry_secs } => CommandView::GetInvoice {
                amt_msat: *amt_msat as nat,
                expiry_secs: *expiry_secs as nat,
            },
            Command::ConnectPeer { peer } => CommandView::ConnectPeer { peer: peer@ },
            Command::DisconnectPeer { peer } => CommandView::DisconnectPeer { peer: peer@ },
            Command::ListChannels => CommandView::ListChannels,
            Command::ListPayments => CommandView::ListPayments,
            Command::CloseChannel { channel_id, peer } => CommandView::CloseChannel {
                channel_id: channel_id@,
                peer: peer@,
            },
            Command::ForceCloseChannel { channel_id, peer } => CommandView::ForceCloseChannel {
                channel_id: channel_id@,
                peer: peer@,
            },
            Command::NodeInfo => CommandView::NodeInfo,
            Command::ListClaimableBalances => CommandView::ListClaimableBalances,
            Command::ListSweeperOutputs => CommandView::ListSweeperOutputs,
            Command::ListPeers => CommandView::ListPeers,
            Command::SignMessage { message } => CommandView::SignMessage { message: message@ },
            Command::Quit => CommandView::Quit,
            Command::Rejected(m) => CommandView::Rejected(m@),
        }
    }
}

/// A command rejected with an error.
pub open spec fn rejected(text: Seq<char>) -> CommandView {
    CommandView::Rejected(logging::err(text))
}

fn reject(text: &str) -> (r: Command)
    ensures
        r@ == rejected(text@),
{
    Command::Rejected(user_err(text.to_owned()))
}

/// The text of an error in an amount.
pub open spec fn amount_error(e: text::NumberError) -> Seq<char> {
    "couldn't parse amount_msat: "@ + e.message()
}

fn reject_amount(e: text::NumberError) -> (r: Command)
    ensures
        r@ == rejected(amount_error(e)),
{
    let mut t = "couldn't parse amount_msat: ".to_owned();
    t.append(e.to_text().as_str());
    Command::Rejected(user_err(t))
}

/// The command `openchannel`, with its words.
pub open spec fn openchannel_of(w: Seq<Seq<char>>) -> CommandView {
    if w.len() < 3 {
        rejected(
            "openchannel has 2 required arguments: `openchannel pubkey@host:port channel_amt_satoshis` [--public] [--with-anchors]"@,
        )
    } else {
        match hex_utils::compressed_pubkey(text::split_of(w[1], '@')[0]) {
            None => rejected("unable to parse given pubkey for node"@),
            Some(pubkey) => CommandView::OpenChannel {
                pubkey,
                peer: w[1],
                addressed: text::split_of(w[1], '@').len() > 1,
                amount: w[2],
                flags: w.skip(3),
            },
        }
    }
}

fn parse_openchannel(w: &Vec<&str>) -> (r: Command)
    ensures
        r@ == openchannel_of(text::texts(w@)),
{
    let n: usize = w.len();
    if n < 3 {
        return reject(
            "openchannel has 2 required arguments: `openchannel pubkey@host:port channel_amt_satoshis` [--public] [--with-anchors]",
        );
    }
    let parts = split(w[1], '@');
    assert(text::texts(parts@)[0] == parts@[0]@);
    assert(text::texts(w@)[1] == w@[1]@);
    match to_compressed_pubkey(parts[0]) {
        None => reject("unable to parse given pubkey for node"),
        Some(pubkey) => {
            let mut flags: Vec<String> = Vec::new();
            let mut i: usize = 3;
            while i < n
                invariant
                    n == w@.len(),
                    3 <= i <= n,
                    flags@.len() == i - 3,
                    forall|j: int| 0 <= j < i - 3 ==> (#[trigger] flags@[j])@ == w@[j + 3]@,
                decreases n - i,
            {
                flags.push(w[i].to_owned());
                i = i + 1;
            }
            assert(string_views(flags@) =~= text::texts(w@).skip(3));
            Command::OpenChannel {
                pubkey,
                peer: w[1].to_owned(),
                addressed: parts.len() > 1,
                amount: w[2].to_owned(),
                flags,
            }
        },
    }
}

/// The command `sendpayment`, with its words.
pub open spec fn sendpayment_of(w: Seq<Seq<char>>) -> CommandView {
    if w.len() < 2 {
        rejected("sendpayment requires an invoice: `sendpayment <invoice> [amount_msat]`"@)
    } else if w.len() < 3 {
        CommandView::SendPayment { invoice: w[1], amount_msat: None }
    } else {
        match text::number_of(w[2], u64::MAX as nat) {
            Ok(amt) => CommandView::SendPayment { invoice: w[1], amount_msat: Some(amt as u64) },
            Err(e) => rejected(amount_error(e)),
        }
    }
}

fn parse_sendpayment(w: &Vec<&str>) -> (r: Command)
    ensures
        r@ == sendpayment_of(text::texts(w@)),
{
    if w.len() < 2 {
        return reject("sendpayment requires an invoice: `sendpayment <invoice> [amount_msat]`");
    }
    assert(text::texts(w@)[1] == w@[1]@);
    if w.len() < 3 {
        return Command::SendPayment { invoice: w[1].to_owned(), amount_msat: None };
    }
    assert(text::texts(w@)[2] == w@[2]@);
    match parse_number(w[2], u64::MAX) {
        Ok(amt) => Command::SendPayment { invoice: w[1].to_owned(), amount_msat: Some(amt) },
        Err(e) => reject_amount(e),
    }
}

/// The command `keysend`, with its words.
pub open spec fn keysend_of(w: Seq<Seq<char>>) -> CommandView {
    if w.len() < 2 {
        rejected("keysend requires a destination pubkey: `keysend <dest_pubkey> <amt_msat>`"@)
    } else {
        match hex_utils::compressed_pubkey(w[1]) {
            None => rejected("couldn't parse destination pubkey"@),
            Some(dest) => if w.len() < 3 {
                rejected(
                    "keysend requires an amount in millisatoshis: `keysend <dest_pubkey> <amt_msat>`"@,
                )
            } else {
                match text::number_of(w[2], u64::MAX as nat) {
                    Ok(amt_msat) => CommandView::Keysend { dest, amt_msat },
                    Err(e) => rejected(amount_error(e)),
                }
            },
        }
    }
}

fn parse_keysend(w: &Vec<&str>) -> (r: Command)
    ensures
        r@ == keysend_of(text::texts(w@)),
{
    if w.len() < 2 {
        return reject("keysend requires a destination pubkey: `keysend <dest_pubkey> <amt_msat>`");
    }
    assert(text::texts(w@)[1] == w@[1]@);
    match to_compressed_pubkey(w[1]) {
        None => reject("couldn't parse destination pubkey"),
        Some(dest) => {
            if w.len() < 3 {
                return reject(
                    "keysend requires an amount in millisatoshis: `keysend <dest_pubkey> <amt_msat>`",
                );
            }
            assert(text::texts(w@)[2] == w@[2]@);
            match parse_number(w[2], u64::MAX) {
                Ok(amt_msat) => Command::Keysend { dest, amt_msat },
                Err(e) => reject_amount(e),
            }
        },
    }
}

/// The command `getinvoice`, with its words.
pub open spec fn getinvoice_of(w: Seq<Seq<char>>) -> CommandView {
    if w.len() < 2 {
        rejected("getinvoice requires an amount in millisatoshis"@)
    } else {
        match text::number_of(w[1], u64::MAX as nat) {
            Err(_) => rejected("getinvoice provided payment amount was not a number"@),
            Ok(amt_msat) => if w.len() < 3 {
                rejected("getinvoice requires an expiry in seconds"@)
            } else {
                match text::number_of(w[2], u32::MAX as nat) {
                    Err(_) => rejected("getinvoice provided expiry was not a number"@),
                    Ok(expiry_secs) => CommandView::GetInvoice { amt_msat, expiry_secs },
                }
            },
        }
    }
}

fn parse_getinvoice(w: &Vec<&str>) -> (r: Command)
    ensures
        r@ == getinvoice_of(text::texts(w@)),
{
    if w.len() < 2 {
        return reject("getinvoice requires an amount in millisatoshis");
    }
    assert(text::texts(w@)[1] == w@[1]@);
    match parse_number(w[1], u64::MAX) {
        Err(_) => reject("getinvoice provided payment amount was not a number"),
        Ok(amt_msat) => {
            if w.len() < 3 {
                return reject("getinvoice requires an expiry in seconds");
            }
            assert(text::texts(w@)[2] == w@[2]@);
            match parse_number(w[2], u32::MAX as u64) {
                Err(_) => reject("getinvoice provided expiry was not a number"),
                Ok(expiry) => {
                    proof {
                        text::lemma_number_bound(w@[2]@, u32::MAX as nat);
                    }
                    Command::GetInvoice { amt_msat, expiry_secs: expiry as u32 }
                },
            }
        },
    }
}

/// The command `disconnectpeer`, with its words.
pub open spec fn disconnectpeer_of(w: Seq<Seq<char>>) -> CommandView {
    if w.len() < 2 {
        rejected("disconnectpeer requires peer public key: `disconnectpeer <peer_pubkey>`"@)
    } else {
        match keys::key_of_text(w[1]) {
            Ok(peer) => CommandView::DisconnectPeer { peer },
            Err(e) => rejected(e),
        }
    }
}

/// The command `disconnectpeer` for a key that was read, or could not be.
pub fn disconnect_command(key: Result<PublicKey, String>) -> (r: Command)
    ensures
        r@ == (match key {
            Ok(k) => CommandView::DisconnectPeer { peer: k@ },
            Err(e) => rejected(e@),
        }),
{
    match key {
        Ok(peer) => Command::DisconnectPeer { peer },
        Err(e) => Command::Rejected(user_err(e)),
    }
}

fn parse_disconnectpeer(w: &Vec<&str>) -> (r: Command)
    ensures
        r@ == disconnectpeer_of(text::texts(w@)),
{
    if w.len() < 2 {
        return reject("disconnectpeer requires peer public key: `disconnectpeer <peer_pubkey>`");
    }
    assert(text::texts(w@)[1] == w@[1]@);
    disconnect_command(PublicKey::from_text(w[1]))
}

/// The channel and the peer that the words of a closing command name, or what is wrong with them.
pub open spec fn close_of(
    w: Seq<Seq<char>>,
    no_channel: Seq<char>,
    no_peer: Seq<char>,
) -> Result<(Seq<u8>, Seq<u8>), Seq<char>> {
    if w.len() < 2 {
        Err(no_channel)
    } else {
        match hex_utils::hex_bytes(w[1]) {
            Some(id) => if id.len() != 32 {
                Err("couldn't parse channel_id"@)
            } else if w.len() < 3 {
                Err(no_peer)
            } else {
                match hex_utils::hex_bytes(w[2]) {
                    None => Err("couldn't parse peer_pubkey"@),
                    Some(b) => match keys::parsed_key(b) {
                        None => Err("couldn't parse peer_pubkey"@),
                        Some(peer) => Ok((id, peer)),
                    },
                }
            },
            None => Err("couldn't parse channel_id"@),
        }
    }
}

fn parse_close<'a>(w: &Vec<&str>, no_channel: &'a str, no_peer: &'a str) -> (r: Result<
    (Bytes32, PublicKey),
    &'a str,
>)
    ensures
        match r {
            Ok((id, peer)) => close_of(text::texts(w@), no_channel@, no_peer@) == Ok::<
                (Seq<u8>, Seq<u8>),
                Seq<char>,
            >((id@, peer@)),
            Err(e) => close_of(text::texts(w@), no_channel@, no_peer@) == Err::<
                (Seq<u8>, Seq<u8>),
                Seq<char>,
            >(e@),
        },
{
    if w.len() < 2 {
        return Err(no_channel);
    }
    assert(text::texts(w@)[1] == w@[1]@);
    let id = match to_vec(w[1]) {
        Some(id) => id,
        None => {
            return Err("couldn't parse channel_id");
        },
    };
    if id.len() != 32 {
        return Err("couldn't parse channel_id");
    }
    let channel_id = take32(id.as_slice(), 0);
    assert(channel_id@ =~= id@);
    if w.len() < 3 {
        return Err(no_peer);
    }
    assert(text::texts(w@)[2] == w@[2]@);
    match to_vec(w[2]) {
        None => Err("couldn't parse peer_pubkey"),
        Some(bytes) => match PublicKey::from_slice(bytes.as_slice()) {
            None => Err("couldn't parse peer_pubkey"),
            Some(peer) => Ok((channel_id, peer)),
        },
    }
}

/// Where the message begins in a line that starts with `signmessage`.
pub const MESSAGE_START: usize = 12;

/// The command `signmessage`, on its line without the whitespace around it.
pub open spec fn signmessage_of(line: Seq<char>) -> CommandView {
    let bytes = vstd::utf8::encode_utf8(line);
    if bytes.len() <= MESSAGE_START {
        rejected("signmsg requires a message"@)
    } else {
        CommandView::SignMessage { message: bytes.skip(MESSAGE_START as int) }
    }
}

fn parse_signmessage(line: &str) -> (r: Command)
    ensures
        r@ == signmessage_of(line@),
{
    let bytes = line.as_bytes();
    let n: usize = bytes.len();
    if n <= MESSAGE_START {
        return reject("signmsg requires a message");
    }
    let message = slice_to_vec(slice_subrange(bytes, MESSAGE_START, n));
    assert(message@ =~= bytes@.skip(MESSAGE_START as int));
    Command::SignMessage { message }
}

/// The command that a line of input holds.
pub open spec fn command_of(line: Seq<char>) -> CommandView {
    let w = text::words_of(line);
    if w.len() == 0 {
        CommandView::Empty
    } else if w[0] == "help"@ {
        CommandView::Help
    } else if w[0] == "openchannel"@ {
        openchannel_of(w)
    } else if w[0] == "sendpayment"@ {
        sendpayment_of(w)
    } else if w[0] == "keysend"@ {
        keysend_of(w)
    } else if w[0] == "getoffer"@ {
        CommandView::GetOffer {
            amount: if w.len() > 1 {
                Some(w[1])
            } else {
                None
            },
        }
    } else if w[0] == "getinvoice"@ {
        getinvoice_of(w)
    } else if w[0] == "connectpeer"@ {
        if w.len() > 1 {
            CommandView::ConnectPeer { peer: w[1] }
        } else {
            rejected("connectpeer requires peer connection info: `connectpeer pubkey@host:port`"@)
        }
    } else if w[0] == "disconnectpeer"@ {
        disconnectpeer_of(w)
    } else if w[0] == "listchannels"@ {
        CommandView::ListChannels
    } else if w[0] == "listpayments"@ {
        CommandView::ListPayments
    } else if w[0] == "closechannel"@ {
        match close_of(
            w,
            "closechannel requires a channel ID: `closechannel <channel_id> <peer_pubkey>`"@,
            "closechannel requires a peer pubkey: `closechannel <channel_id> <peer_pubkey>`"@,
        ) {
            Ok((channel_id, peer)) => CommandView::CloseChannel { channel_id, peer },
            Err(e) => rejected(e),
        }
    } else if w[0] == "forceclosechannel"@ {
        match close_of(
            w,
            "forceclosechannel requires a channel ID: `forceclosechannel <channel_id> <peer_pubkey>`"@,
            "forceclosechannel requires a peer pubkey: `forceclosechannel <channel_id> <peer_pubkey>`"@,
        ) {
            Ok((channel_id, peer)) => CommandView::ForceCloseChannel { channel_id, peer },
            Err(e) => rejected(e),
        }
    } else if w[0] == "nodeinfo"@ {
        CommandView::NodeInfo
    } else if w[0] == "listclaimablebalances"@ {
        CommandView::ListClaimableBalances
    } else if w[0] == "listsweeperoutputs"@ {
        CommandView::ListSweeperOutputs
    } else if w[0] == "listpeers"@ {
        CommandView::ListPeers
    } else if w[0] == "signmessage"@ {
        signmessage_of(text::trimmed(line))
    } else if w[0] == "quit"@ || w[0] == "exit"@ {
        CommandView::Quit
    } else {
        CommandView::Rejected(
            logging::print("Unknown command. See `\"help\" for available commands."@),
        )
    }
}

/// The command that a line of input holds.
pub fn parse_command(line: &str) -> (r: Command)
    ensures
        r@ == command_of(line@),
{
    let w = words(line);
    if w.len() == 0 {
        return Command::Empty;
    }
    let word = w[0];
    assert(text::texts(w@)[0] == word@);
    if same(word, "help") {
        Command::Help
    } else if same(word, "openchannel") {
        parse_openchannel(&w)
    } else if same(word, "sendpayment") {
        parse_sendpayment(&w)
    } else if same(word, "keysend") {
        parse_keysend(&w)
    } else if same(word, "getoffer") {
        if w.len() > 1 {
            assert(text::texts(w@)[1] == w@[1]@);
            Command::GetOffer { amount: Some(w[1].to_owned()) }
        } else {
            Command::GetOffer { amount: None }
        }
    } else if same(word, "getinvoice") {
        parse_getinvoice(&w)
    } else if same(word, "connectpeer") {
        if w.len() > 1 {
            assert(text::texts(w@)[1] == w@[1]@);
            Command::ConnectPeer { peer: w[1].to_owned() }
        } else {
            reject("connectpeer requires peer connection info: `connectpeer pubkey@host:port`")
        }
    } else if same(word, "disconnectpeer") {
        parse_disconnectpeer(&w)
    } else if same(word, "listchannels") {
        Command::ListChannels
    } else if same(word, "listpayments") {
        Command::ListPayments
    } else if same(word, "closechannel") {
        match parse_close(
            &w,
            "closechannel requires a channel ID: `closechannel <channel_id> <peer_pubkey>`",
            "closechannel requires a peer pubkey: `closechannel <channel_id> <peer_pubkey>`",
        ) {
            Ok((channel_id, peer)) => Command::CloseChannel { channel_id, peer },
            Err(e) => reject(e),
        }
    } else if same(word, "forceclosechannel") {
        match parse_close(
            &w,
            "forceclosechannel requires a channel ID: `forceclosechannel <channel_id> <peer_pubkey>`",
            "forceclosechannel requires a peer pubkey: `forceclosechannel <channel_id> <peer_pubkey>`",
        ) {
            Ok((channel_id, peer)) => Command::ForceCloseChannel { channel_id, peer },
            Err(e) => reject(e),
        }
    } else if same(word, "nodeinfo") {
        Command::NodeInfo
    } else if same(word, "listclaimablebalances") {
        Command::ListClaimableBalances
    } else if same(word, "listsweeperoutputs") {
        Command::ListSweeperOutputs
    } else if same(word, "listpeers") {
        Command::ListPeers
    } else if same(word, "signmessage") {
        parse_signmessage(trim(line))
    } else if same(word, "quit") || same(word, "exit") {
        Command::Quit
    } else {
        Command::Rejected(
            print_line("Unknown command. See `\"help\" for available commands.".to_owned()),
        )
    }
}

proof fn lemma_commands_differ(word: Seq<char>)
    ensures
        word == "help"@ ==> word != "openchannel"@ && word != "sendpayment"@ && word != "keysend"@
            && word != "getoffer"@ && word != "getinvoice"@ && word != "connectpeer"@ && word !=
            "disconnectpeer"@ && word != "listchannels"@ && word != "listpayments"@ && word !=
            "closechannel"@ && word != "forceclosechannel"@ && word != "nodeinfo"@ && word !=
            "listclaimablebalances"@ && word != "listsweeperoutputs"@ && word != "listpeers"@ &&
            word != "signmessage"@ && word != "quit"@ && word != "exit"@,
        word == "openchannel"@ ==> word != "help"@ && word != "sendpayment"@ && word != "keysend"@
            && word != "getoffer"@ && word != "getinvoice"@ && word != "connectpeer"@ && word !=
            "disconnectpeer"@ && word != "listchannels"@ && word != "listpayments"@ && word !=
            "closechannel"@ && word != "forceclosechannel"@ && word != "nodeinfo"@ && word !=
            "listclaimablebalances"@ && word != "listsweeperoutputs"@ && word != "listpeers"@ &&
            word != "signmessage"@ && word != "quit"@ && word != "exit"@,
        word == "sendpayment"@ ==> word != "help"@ && word != "openchannel"@ && word != "keysend"@
            && word != "getoffer"@ && word != "getinvoice"@ && word != "connectpeer"@ && word !=
            "disconnectpeer"@ && word != "listchannels"@ && word != "listpayments"@ && word !=
            "closechannel"@ && word != "forceclosechannel"@ && word != "nodeinfo"@ && word !=
            "listclaimablebalances"@ && word != "listsweeperoutputs"@ && word != "listpeers"@ &&
            word != "signmessage"@ && word != "quit"@ && word != "exit"@,
        word == "keysend"@ ==> word != "help"@ && word != "openchannel"@ && word != "sendpayment"@
            && word != "getoffer"@ && word != "getinvoice"@ && word != "connectpeer"@ && word !=
            "disconnectpeer"@ && word != "listchannels"@ && word != "listpayments"@ && word !=
            "closechannel"@ && word != "forceclosechannel"@ && word != "nodeinfo"@ && word !=
            "listclaimablebalances"@ && word != "listsweeperoutputs"@ && word != "listpeers"@ &&
            word != "signmessage"@ && word != "quit"@ && word != "exit"@,
        word == "getoffer"@ ==> word != "help"@ && word != "openchannel"@ && word != "sendpayment"@
            && word != "keysend"@ && word != "getinvoice"@ && word != "connectpeer"@ && word !=
            "disconnectpeer"@ && word != "listchannels"@ && word != "listpayments"@ && word !=
            "closechannel"@ && word != "forceclosechannel"@ && word != "nodeinfo"@ && word !=
            "listclaimablebalances"@ && word != "listsweeperoutputs"@ && word != "listpeers"@ &&
            word != "signmessage"@ && word != "quit"@ && word != "exit"@,
        word == "getinvoice"@ ==> word != "help"@ && word != "openchannel"@ && word !=
            "sendpayment"@ && word != "keysend"@ && word != "getoffer"@ && word != "connectpeer"@ &&
            word != "disconnectpeer"@ && word != "listchannels"@ && word != "listpayments"@ && word
            != "closechannel"@ && word != "forceclosechannel"@ && word != "nodeinfo"@ && word !=
            "listclaimablebalances"@ && word != "listsweeperoutputs"@ && word != "listpeers"@ &&
            word != "signmessage"@ && word != "quit"@ && word != "exit"@,
        word == "connectpeer"@ ==> word != "help"@ && word != "openchannel"@ && word !=
            "sendpayment"@ && word != "keysend"@ && word != "getoffer"@ && word != "getinvoice"@ &&
            word != "disconnectpeer"@ && word != "listchannels"@ && word != "listpayments"@ && word
            != "closechannel"@ && word != "forceclosechannel"@ && word != "nodeinfo"@ && word !=
            "listclaimablebalances"@ && word != "listsweeperoutputs"@ && word != "listpeers"@ &&
            word != "signmessage"@ && word != "quit"@ && word != "exit"@,
        word == "disconnectpeer"@ ==> word != "help"@ && word != "openchannel"@ && word !=
            "sendpayment"@ && word != "keysend"@ && word != "getoffer"@ && word != "getinvoice"@ &&
            word != "connectpeer"@ && word != "listchannels"@ && word != "listpayments"@ && word !=
            "closechannel"@ && word != "forceclosechannel"@ && word != "nodeinfo"@ && word !=
            "listclaimablebalances"@ && word != "listsweeperoutputs"@ && word != "listpeers"@ &&
            word != "signmessage"@ && word != "quit"@ && word != "exit"@,
        word == "listchannels"@ ==> word != "help"@ && word != "openchannel"@ && word !=
            "sendpayment"@ && word != "keysend"@ && word != "getoffer"@ && word != "getinvoice"@ &&
            word != "connectpeer"@ && word != "disconnectpeer"@ && word != "listpayments"@ && word
            != "closechannel"@ && word != "forceclosechannel"@ && word != "nodeinfo"@ && word !=
            "listclaimablebalances"@ && word != "listsweeperoutputs"@ && word != "listpeers"@ &&
            word != "signmessage"@ && word != "quit"@ && word != "exit"@,
        word == "listpayments"@ ==> word != "help"@ && word != "openchannel"@ && word !=
            "sendpayment"@ && word != "keysend"@ && word != "getoffer"@ && word != "getinvoice"@ &&
            word != "connectpeer"@ && word != "disconnectpeer"@ && word != "listchannels"@ && word
            != "closechannel"@ && word != "forceclosechannel"@ && word != "nodeinfo"@ && word !=
            "listclaimablebalances"@ && word != "listsweeperoutputs"@ && word != "listpeers"@ &&
            word != "signmessage"@ && word != "quit"@ && word != "exit"@,
        word == "closechannel"@ ==> word != "help"@ && word != "openchannel"@ && word !=
            "sendpayment"@ && word != "keysend"@ && word != "getoffer"@ && word != "getinvoice"@ &&
            word != "connectpeer"@ && word != "disconnectpeer"@ && word != "listchannels"@ && word
            != "listpayments"@ && word != "forceclosechannel"@ && word != "nodeinfo"@ && word !=
            "listclaimablebalances"@ && word != "listsweeperoutputs"@ && word != "listpeers"@ &&
            word != "signmessage"@ && word != "quit"@ && word != "exit"@,
        word == "forceclosechannel"@ ==> word != "help"@ && word != "openchannel"@ && word !=
            "sendpayment"@ && word != "keysend"@ && word != "getoffer"@ && word != "getinvoice"@ &&
            word != "connectpeer"@ && word != "disconnectpeer"@ && word != "listchannels"@ && word
            != "listpayments"@ && word != "closechannel"@ && word != "nodeinfo"@ && word !=
            "listclaimablebalances"@ && word != "listsweeperoutputs"@ && word != "listpeers"@ &&
            word != "signmessage"@ && word != "quit"@ && word != "exit"@,
        word == "nodeinfo"@ ==> word != "help"@ && word != "openchannel"@ && word != "sendpayment"@
            && word != "keysend"@ && word != "getoffer"@ && word != "getinvoice"@ && word !=
            "connectpeer"@ && word != "disconnectpeer"@ && word != "listchannels"@ && word !=
            "listpayments"@ && word != "closechannel"@ && word != "forceclosechannel"@ && word !=
            "listclaimablebalances"@ && word != "listsweeperoutputs"@ && word != "listpeers"@ &&
            word != "signmessage"@ && word != "quit"@ && word != "exit"@,
        word == "listclaimablebalances"@ ==> word != "help"@ && word != "openchannel"@ && word !=
            "sendpayment"@ && word != "keysend"@ && word != "getoffer"@ && word != "getinvoice"@ &&
            word != "connectpeer"@ && word != "disconnectpeer"@ && word != "listchannels"@ && word
            != "listpayments"@ && word != "closechannel"@ && word != "forceclosechannel"@ && word !=
            "nodeinfo"@ && word != "listsweeperoutputs"@ && word != "listpeers"@ && word !=
            "signmessage"@ && word != "quit"@ && word != "exit"@,
        word == "listsweeperoutputs"@ ==> word != "help"@ && word != "openchannel"@ && word !=
            "sendpayment"@ && word != "keysend"@ && word != "getoffer"@ && word != "getinvoice"@ &&
            word != "connectpeer"@ && word != "disconnectpeer"@ && word != "listchannels"@ && word
            != "listpayments"@ && word != "closechannel"@ && word != "forceclosechannel"@ && word !=
            "nodeinfo"@ && word != "listclaimablebalances"@ && word != "listpeers"@ && word !=
            "signmessage"@ && word != "quit"@ && word != "exit"@,
        word == "listpeers"@ ==> word != "help"@ && word != "openchannel"@ && word != "sendpayment"@
            && word != "keysend"@ && word != "getoffer"@ && word != "getinvoice"@ && word !=
            "connectpeer"@ && word != "disconnectpeer"@ && word != "listchannels"@ && word !=
            "listpayments"@ && word != "closechannel"@ && word != "forceclosechannel"@ && word !=
            "nodeinfo"@ && word != "listclaimablebalances"@ && word != "listsweeperoutputs"@ && word
            != "signmessage"@ && word != "quit"@ && word != "exit"@,
        word == "signmessage"@ ==> word != "help"@ && word != "openchannel"@ && word !=
            "sendpayment"@ && word != "keysend"@ && word != "getoffer"@ && word != "getinvoice"@ &&
            word != "connectpeer"@ && word != "disconnectpeer"@ && word != "listchannels"@ && word
            != "listpayments"@ && word != "closechannel"@ && word != "forceclosechannel"@ && word !=
            "nodeinfo"@ && word != "listclaimablebalances"@ && word != "listsweeperoutputs"@ && word
            != "listpeers"@ && word != "quit"@ && word != "exit"@,
        word == "quit"@ ==> word != "help"@ && word != "openchannel"@ && word != "sendpayment"@ &&
            word != "keysend"@ && word != "getoffer"@ && word != "getinvoice"@ && word !=
            "connectpeer"@ && word != "disconnectpeer"@ && word != "listchannels"@ && word !=
            "listpayments"@ && word != "closechannel"@ && word != "forceclosechannel"@ && word !=
            "nodeinfo"@ && word != "listclaimablebalances"@ && word != "listsweeperoutputs"@ && word
            != "listpeers"@ && word != "signmessage"@ && word != "exit"@,
        word == "exit"@ ==> word != "help"@ && word != "openchannel"@ && word != "sendpayment"@ &&
            word != "keysend"@ && word != "getoffer"@ && word != "getinvoice"@ && word !=
            "connectpeer"@ && word != "disconnectpeer"@ && word != "listchannels"@ && word !=
            "listpayments"@ && word != "closechannel"@ && word != "forceclosechannel"@ && word !=
            "nodeinfo"@ && word != "listclaimablebalances"@ && word != "listsweeperoutputs"@ && word
            != "listpeers"@ && word != "signmessage"@ && word != "quit"@,
{
    reveal_strlit("help");
    reveal_strlit("openchannel");
    reveal_strlit("sendpayment");
    reveal_strlit("keysend");
    reveal_strlit("getoffer");
    reveal_strlit("getinvoice");
    reveal_strlit("connectpeer");
    reveal_strlit("disconnectpeer");
    reveal_strlit("listchannels");
    reveal_strlit("listpayments");
    reveal_strlit("closechannel");
    reveal_strlit("forceclosechannel");
    reveal_strlit("nodeinfo");
    reveal_strlit("listclaimablebalances");
    reveal_strlit("listsweeperoutputs");
    reveal_strlit("listpeers");
    reveal_strlit("signmessage");
    reveal_strlit("quit");
    reveal_strlit("exit");
    assert("help"@.len() == 4);
    assert("openchannel"@.len() == 11);
    assert("sendpayment"@.len() == 11);
    assert("keysend"@.len() == 7);
    assert("getoffer"@.len() == 8);
    assert("getinvoice"@.len() == 10);
    assert("connectpeer"@.len() == 11);
    assert("disconnectpeer"@.len() == 14);
    assert("listchannels"@.len() == 12);
    assert("listpayments"@.len() == 12);
    assert("closechannel"@.len() == 12);
    assert("forceclosechannel"@.len() == 17);
    assert("nodeinfo"@.len() == 8);
    assert("listclaimablebalances"@.len() == 21);
    assert("listsweeperoutputs"@.len() == 18);
    assert("listpeers"@.len() == 9);
    assert("signmessage"@.len() == 11);
    assert("quit"@.len() == 4);
    assert("exit"@.len() == 4);
    assert("help"@[0] == 'h' && "quit"@[0] == 'q');
    assert("help"@[0] == 'h' && "exit"@[0] == 'e');
    assert("openchannel"@[0] == 'o' && "sendpayment"@[0] == 's');
    assert("openchannel"@[0] == 'o' && "connectpeer"@[0] == 'c');
    assert("openchannel"@[0] == 'o' && "signmessage"@[0] == 's');
    assert("sendpayment"@[0] == 's' && "connectpeer"@[0] == 'c');
    assert("sendpayment"@[1] == 'e' && "signmessage"@[1] == 'i');
    assert("getoffer"@[0] == 'g' && "nodeinfo"@[0] == 'n');
    assert("connectpeer"@[0] == 'c' && "signmessage"@[0] == 's');
    assert("listchannels"@[4] == 'c' && "listpayments"@[4] == 'p');
    assert("listchannels"@[0] == 'l' && "closechannel"@[0] == 'c');
    assert("listpayments"@[0] == 'l' && "closechannel"@[0] == 'c');
    assert("quit"@[0] == 'q' && "exit"@[0] == 'e');
}

/// The first word of a line says what it asks for, whatever follows: a listing is asked for by its own
/// name and by no other, `quit` and `exit` mean the same, and a line without words asks for nothing. A
/// word that is no command is rejected.
pub proof fn law_first_word_is_the_command(line: Seq<char>, words: Seq<Seq<char>>)
    requires
        words == text::words_of(line),
    ensures
        words.len() == 0 <==> command_of(line) is Empty,
        words.len() > 0 ==> {
            &&& words[0] == "help"@ <==> command_of(line) is Help
            &&& words[0] == "listchannels"@ <==> command_of(line) is ListChannels
            &&& words[0] == "listpayments"@ <==> command_of(line) is ListPayments
            &&& words[0] == "listpeers"@ <==> command_of(line) is ListPeers
            &&& words[0] == "listclaimablebalances"@ <==> command_of(line) is ListClaimableBalances
            &&& words[0] == "listsweeperoutputs"@ <==> command_of(line) is ListSweeperOutputs
            &&& words[0] == "nodeinfo"@ <==> command_of(line) is NodeInfo
            &&& words[0] == "quit"@ || words[0] == "exit"@ <==> command_of(line) is Quit
            &&& words[0] == "getoffer"@ <==> command_of(line) is GetOffer
            &&& command_of(line) is OpenChannel ==> words[0] == "openchannel"@
            &&& command_of(line) is SendPayment ==> words[0] == "sendpayment"@
            &&& command_of(line) is Keysend ==> words[0] == "keysend"@
            &&& command_of(line) is GetInvoice ==> words[0] == "getinvoice"@
            &&& command_of(line) is ConnectPeer ==> words[0] == "connectpeer"@
            &&& command_of(line) is DisconnectPeer ==> words[0] == "disconnectpeer"@
            &&& command_of(line) is CloseChannel ==> words[0] == "closechannel"@
            &&& command_of(line) is ForceCloseChannel ==> words[0] == "forceclosechannel"@
            &&& command_of(line) is SignMessage ==> words[0] == "signmessage"@
            &&& words[0] != "help"@ && words[0] != "openchannel"@ && words[0] != "sendpayment"@ &&
                words[0] != "keysend"@ && words[0] != "getoffer"@ && words[0] != "getinvoice"@ &&
                words[0] != "connectpeer"@ && words[0] != "disconnectpeer"@ && words[0] !=
                "listchannels"@ && words[0] != "listpayments"@ && words[0] != "closechannel"@ &&
                words[0] != "forceclosechannel"@ && words[0] != "nodeinfo"@ && words[0] !=
                "listclaimablebalances"@ && words[0] != "listsweeperoutputs"@ && words[0] !=
                "listpeers"@ && words[0] != "signmessage"@ && words[0] != "quit"@ && words[0] !=
                "exit"@ ==> command_of(line)
                is Rejected
        },
{
    if words.len() > 0 {
        lemma_commands_differ(words[0]);
    }
}

/// A payment is sent to what the second word names, for the amount in the third if there is one; without
/// a second word, or with a third that is no number, it is not.
pub proof fn law_payments_are_sent_as_written(line: Seq<char>, words: Seq<Seq<char>>)
    requires
        words == text::words_of(line),
        words.len() > 0,
        words[0] == "sendpayment"@,
    ensures
        words.len() == 1 ==> command_of(line) is Rejected,
        words.len() == 2 ==> command_of(line) == (CommandView::SendPayment {
            invoice: words[1],
            amount_msat: None,
        }),
        words.len() > 2 ==> match text::number_of(words[2], u64::MAX as nat) {
            Ok(n) => command_of(line) == (CommandView::SendPayment {
                invoice: words[1],
                amount_msat: Some(n as u64),
            }),
            Err(_) => command_of(line) is Rejected,
        },
{
    lemma_commands_differ(words[0]);
}

/// A payment without an invoice is sent to the key in the second word, for the amount in the third; both
/// are needed.
pub proof fn law_keysends_are_sent_as_written(line: Seq<char>, words: Seq<Seq<char>>)
    requires
        words == text::words_of(line),
        words.len() > 0,
        words[0] == "keysend"@,
    ensures
        words.len() < 3 ==> command_of(line) is Rejected,
        words.len() >= 3 ==> match (
            hex_utils::compressed_pubkey(words[1]),
            text::number_of(words[2], u64::MAX as nat),
        ) {
            (Some(key), Ok(n)) => command_of(line) == (CommandView::Keysend {
                dest: key,
                amt_msat: n,
            }),
            _ => command_of(line) is Rejected,
        },
{
    lemma_commands_differ(words[0]);
}

/// An invoice is made for the amount in the second word, and is valid for the seconds in the third; both
/// are needed, and the seconds fit in 32 bits.
pub proof fn law_invoices_are_made_as_written(line: Seq<char>, words: Seq<Seq<char>>)
    requires
        words == text::words_of(line),
        words.len() > 0,
        words[0] == "getinvoice"@,
    ensures
        words.len() < 3 ==> command_of(line) is Rejected,
        words.len() >= 3 ==> match (
            text::number_of(words[1], u64::MAX as nat),
            text::number_of(words[2], u32::MAX as nat),
        ) {
            (Ok(n), Ok(secs)) => command_of(line) == (CommandView::GetInvoice {
                amt_msat: n,
                expiry_secs: secs,
            }),
            _ => command_of(line) is Rejected,
        },
{
    lemma_commands_differ(words[0]);
}

/// A channel is opened with the peer in the second word, whose key stands before the `@`, for the amount
/// in the third word and with the flags that follow. It is addressed exactly if there is an `@`.
pub proof fn law_channels_are_opened_as_written(line: Seq<char>, words: Seq<Seq<char>>)
    requires
        words == text::words_of(line),
        words.len() > 0,
        words[0] == "openchannel"@,
    ensures
        words.len() < 3 ==> command_of(line) is Rejected,
        words.len() >= 3 ==> match hex_utils::compressed_pubkey(
            text::split_of(words[1], '@')[0],
        ) {
            Some(key) => command_of(line) matches CommandView::OpenChannel {
                pubkey,
                peer,
                addressed,
                amount,
                flags,
            } && pubkey == key && peer == words[1] && amount == words[2] && flags.len()
                == words.len() - 3 && (forall|i: int|
                0 <= i < flags.len() ==> #[trigger] flags[i] == words[i + 3]) && (addressed
                <==> words[1].contains('@')),
            None => command_of(line) is Rejected,
        },
{
    lemma_commands_differ(words[0]);
    if words.len() >= 3 {
        let peer = words[1];
        text::lemma_find(peer, '@');
        if peer.contains('@') {
            let i = choose|i: int| 0 <= i < peer.len() && peer[i] == '@';
            assert(text::find(peer, '@') < peer.len());
            lemma_split_has_a_piece(peer.skip(text::find(peer, '@') as int + 1));
        } else {
            text::law_split_at_the_first(peer, peer, '@');
        }
    }
}

proof fn lemma_split_has_a_piece(s: Seq<char>)
    ensures
        text::split_of(s, '@').len() > 0,
{
}

/// A channel is closed under the id in the second word, with the peer in the third. Closing by consent
/// and by force read their words alike and are told apart by the first.
pub proof fn law_channels_are_closed_as_written(line: Seq<char>, words: Seq<Seq<char>>)
    requires
        words == text::words_of(line),
        words.len() > 0,
        words[0] == "closechannel"@ || words[0] == "forceclosechannel"@,
    ensures
        words.len() < 3 ==> command_of(line) is Rejected,
        words.len() >= 3 ==> match (
            hex_utils::hex_bytes(words[1]),
            hex_utils::hex_bytes(words[2]),
        ) {
            (Some(id), Some(bytes)) => match keys::parsed_key(bytes) {
                Some(key) if id.len() == 32 => if words[0] == "closechannel"@ {
                    command_of(line) == (CommandView::CloseChannel { channel_id: id, peer: key })
                } else {
                    command_of(line) == (CommandView::ForceCloseChannel {
                        channel_id: id,
                        peer: key,
                    })
                },
                _ => command_of(line) is Rejected,
            },
            _ => command_of(line) is Rejected,
        },
{
    lemma_commands_differ(words[0]);
}

/// A peer is connected to as the second word says, and disconnected from if that is its key; an offer is
/// made for the amount in the second word, if there is one.
pub proof fn law_peers_and_offers_are_as_written(line: Seq<char>, words: Seq<Seq<char>>)
    requires
        words == text::words_of(line),
        words.len() > 0,
    ensures
        words[0] == "connectpeer"@ && words.len() > 1 ==> command_of(line) == (
        CommandView::ConnectPeer { peer: words[1] }),
        words[0] == "connectpeer"@ && words.len() == 1 ==> command_of(line) is Rejected,
        words[0] == "disconnectpeer"@ && words.len() == 1 ==> command_of(line) is Rejected,
        words[0] == "disconnectpeer"@ && words.len() > 1 ==> match keys::key_of_text(words[1]) {
            Ok(key) => command_of(line) == (CommandView::DisconnectPeer { peer: key }),
            Err(_) => command_of(line) is Rejected,
        },
        words[0] == "getoffer"@ && words.len() > 1 ==> command_of(line) == (CommandView::GetOffer {
            amount: Some(words[1]),
        }),
        words[0] == "getoffer"@ && words.len() == 1 ==> command_of(line) == (
        CommandView::GetOffer { amount: None }),
{
    lemma_commands_differ(words[0]);
}

/// What is signed is all that follows `signmessage` and one more character, without the whitespace at the
/// end of the line; there has to be something.
pub proof fn law_messages_are_signed_whole(line: Seq<char>, words: Seq<Seq<char>>)
    requires
        words == text::words_of(line),
        words.len() > 0,
        words[0] == "signmessage"@,
    ensures
        ({
            let bytes = vstd::utf8::encode_utf8(text::trimmed(line));
            &&& bytes.len() <= 12 ==> command_of(line) is Rejected
            &&& bytes.len() > 12 ==> (command_of(line) matches CommandView::SignMessage { message }
                && bytes == bytes.take(12) + message)
        }),
{
    lemma_commands_differ(words[0]);
    let bytes = vstd::utf8::encode_utf8(text::trimmed(line));
    if bytes.len() > 12 {
        assert(bytes =~= bytes.take(12) + bytes.skip(12));
    }
}

} // verus!
